use crate::loader::reader::{be16, lemma_views_push, views};
use crate::loader::reader::spec_decimal;
use crate::text::{hex_digit, push_decimal, push_hex, spec_hex, spec_hex_byte, spec_hex_digit};
use crate::vm::errors::{RunTimeError, RunTimeErrorView};
use vstd::prelude::*;
use vstd::string::{StrSliceExecFns, StringExecFns};

verus! {

/// The JVM instructions that the interpreter knows.
#[derive(Copy, Clone, Debug, PartialEq, Eq, Structural)]
pub enum Instruction {
    Bipush,
    Sipush,
    IfIcmpeq,
    IfIcmpne,
    IfIcmplt,
    Ldc,
    Aload,
    Aload0,
    Aload1,
    Aload2,
    Aload3,
    Dload0,
    Dload1,
    Dload2,
    Dload3,
    Aaload,
    Iload,
    Dload,
    Iload0,
    Iload1,
    Iload2,
    Iload3,
    IconstM1,
    Iconst0,
    Iconst1,
    Iconst2,
    Iconst3,
    Iconst4,
    Iconst5,
    Dup,
    Iadd,
    Isub,
    Pop,
    Astore,
    Aastore,
    Astore0,
    Astore1,
    Astore2,
    Astore3,
    Getstatic,
    Invokevirtual,
    Putstatic,
    Invokespecial,
    Invokestatic,
    Invokedynamic,
    New,
    IfIcmpge,
    IfIcmpgt,
    IfIcmple,
    IfEq,
    IfNe,
    IfLt,
    IfGe,
    IfGt,
    IfLe,
    Areturn,
    Dreturn,
    Return,
}

/// The opcode of an instruction.
pub open spec fn spec_opcode(i: Instruction) -> u8 {
    match i {
        Instruction::Bipush => 0x10,
        Instruction::Sipush => 0x11,
        Instruction::IfIcmpeq => 0x9f,
        Instruction::IfIcmpne => 0xa0,
        Instruction::IfIcmplt => 0xa1,
        Instruction::Ldc => 0x12,
        Instruction::Aload => 0x19,
        Instruction::Aload0 => 0x2a,
        Instruction::Aload1 => 0x2b,
        Instruction::Aload2 => 0x2c,
        Instruction::Aload3 => 0x2d,
        Instruction::Dload0 => 0x26,
        Instruction::Dload1 => 0x27,
        Instruction::Dload2 => 0x28,
        Instruction::Dload3 => 0x29,
        Instruction::Aaload => 0x32,
        Instruction::Iload => 0x15,
        Instruction::Dload => 0x18,
        Instruction::Iload0 => 0x1a,
        Instruction::Iload1 => 0x1b,
        Instruction::Iload2 => 0x1c,
        Instruction::Iload3 => 0x1d,
        Instruction::IconstM1 => 0x02,
        Instruction::Iconst0 => 0x03,
        Instruction::Iconst1 => 0x04,
        Instruction::Iconst2 => 0x05,
        Instruction::Iconst3 => 0x06,
        Instruction::Iconst4 => 0x07,
        Instruction::Iconst5 => 0x08,
        Instruction::Dup => 0x59,
        Instruction::Iadd => 0x60,
        Instruction::Isub => 0x64,
        Instruction::Pop => 0x57,
        Instruction::Astore => 0x3a,
        Instruction::Aastore => 0x53,
        Instruction::Astore0 => 0x4b,
        Instruction::Astore1 => 0x4c,
        Instruction::Astore2 => 0x4d,
        Instruction::Astore3 => 0x4e,
        Instruction::Getstatic => 0xb2,
        Instruction::Invokevirtual => 0xb6,
        Instruction::Putstatic => 0xb3,
        Instruction::Invokespecial => 0xb7,
        Instruction::Invokestatic => 0xb8,
        Instruction::Invokedynamic => 0xba,
        Instruction::New => 0xbb,
        Instruction::IfIcmpge => 0xa2,
        Instruction::IfIcmpgt => 0xa3,
        Instruction::IfIcmple => 0xa4,
        Instruction::IfEq => 0x99,
        Instruction::IfNe => 0x9a,
        Instruction::IfLt => 0x9b,
        Instruction::IfGe => 0x9c,
        Instruction::IfGt => 0x9d,
        Instruction::IfLe => 0x9e,
        Instruction::Areturn => 0xb0,
        Instruction::Dreturn => 0xaf,
        Instruction::Return => 0xb1,
    }
}

/// The number of operand bytes that follow the opcode of an instruction.
pub open spec fn spec_operand_len(i: Instruction) -> nat {
    match i {
        Instruction::Bipush => 1,
        Instruction::Sipush => 2,
        Instruction::IfIcmpeq => 2,
        Instruction::IfIcmpne => 2,
        Instruction::IfIcmplt => 2,
        Instruction::Ldc => 1,
        Instruction::Aload => 1,
        Instruction::Aload0 => 0,
        Instruction::Aload1 => 0,
        Instruction::Aload2 => 0,
        Instruction::Aload3 => 0,
        Instruction::Dload0 => 0,
        Instruction::Dload1 => 0,
        Instruction::Dload2 => 0,
        Instruction::Dload3 => 0,
        Instruction::Aaload => 0,
        Instruction::Iload => 1,
        Instruction::Dload => 1,
        Instruction::Iload0 => 0,
        Instruction::Iload1 => 0,
        Instruction::Iload2 => 0,
        Instruction::Iload3 => 0,
        Instruction::IconstM1 => 0,
        Instruction::Iconst0 => 0,
        Instruction::Iconst1 => 0,
        Instruction::Iconst2 => 0,
        Instruction::Iconst3 => 0,
        Instruction::Iconst4 => 0,
        Instruction::Iconst5 => 0,
        Instruction::Dup => 0,
        Instruction::Iadd => 0,
        Instruction::Isub => 0,
        Instruction::Pop => 0,
        Instruction::Astore => 1,
        Instruction::Aastore => 0,
        Instruction::Astore0 => 0,
        Instruction::Astore1 => 0,
        Instruction::Astore2 => 0,
        Instruction::Astore3 => 0,
        Instruction::Getstatic => 2,
        Instruction::Invokevirtual => 2,
        Instruction::Putstatic => 2,
        Instruction::Invokespecial => 2,
        Instruction::Invokestatic => 2,
        Instruction::Invokedynamic => 4,
        Instruction::New => 2,
        Instruction::IfIcmpge => 2,
        Instruction::IfIcmpgt => 2,
        Instruction::IfIcmple => 2,
        Instruction::IfEq => 2,
        Instruction::IfNe => 2,
        Instruction::IfLt => 2,
        Instruction::IfGe => 2,
        Instruction::IfGt => 2,
        Instruction::IfLe => 2,
        Instruction::Areturn => 0,
        Instruction::Dreturn => 0,
        Instruction::Return => 0,
    }
}

/// The instruction that an opcode stands for, if the interpreter knows it.
#[verifier::opaque]
pub open spec fn spec_decode(b: u8) -> Option<Instruction> {
    match b {
        0x10 => Some(Instruction::Bipush),
        0x11 => Some(Instruction::Sipush),
        0x9f => Some(Instruction::IfIcmpeq),
        0xa0 => Some(Instruction::IfIcmpne),
        0xa1 => Some(Instruction::IfIcmplt),
        0x12 => Some(Instruction::Ldc),
        0x19 => Some(Instruction::Aload),
        0x2a => Some(Instruction::Aload0),
        0x2b => Some(Instruction::Aload1),
        0x2c => Some(Instruction::Aload2),
        0x2d => Some(Instruction::Aload3),
        0x26 => Some(Instruction::Dload0),
        0x27 => Some(Instruction::Dload1),
        0x28 => Some(Instruction::Dload2),
        0x29 => Some(Instruction::Dload3),
        0x32 => Some(Instruction::Aaload),
        0x15 => Some(Instruction::Iload),
        0x18 => Some(Instruction::Dload),
        0x1a => Some(Instruction::Iload0),
        0x1b => Some(Instruction::Iload1),
        0x1c => Some(Instruction::Iload2),
        0x1d => Some(Instruction::Iload3),
        0x02 => Some(Instruction::IconstM1),
        0x03 => Some(Instruction::Iconst0),
        0x04 => Some(Instruction::Iconst1),
        0x05 => Some(Instruction::Iconst2),
        0x06 => Some(Instruction::Iconst3),
        0x07 => Some(Instruction::Iconst4),
        0x08 => Some(Instruction::Iconst5),
        0x59 => Some(Instruction::Dup),
        0x60 => Some(Instruction::Iadd),
        0x64 => Some(Instruction::Isub),
        0x57 => Some(Instruction::Pop),
        0x3a => Some(Instruction::Astore),
        0x53 => Some(Instruction::Aastore),
        0x4b => Some(Instruction::Astore0),
        0x4c => Some(Instruction::Astore1),
        0x4d => Some(Instruction::Astore2),
        0x4e => Some(Instruction::Astore3),
        0xb2 => Some(Instruction::Getstatic),
        0xb6 => Some(Instruction::Invokevirtual),
        0xb3 => Some(Instruction::Putstatic),
        0xb7 => Some(Instruction::Invokespecial),
        0xb8 => Some(Instruction::Invokestatic),
        0xba => Some(Instruction::Invokedynamic),
        0xbb => Some(Instruction::New),
        0xa2 => Some(Instruction::IfIcmpge),
        0xa3 => Some(Instruction::IfIcmpgt),
        0xa4 => Some(Instruction::IfIcmple),
        0x99 => Some(Instruction::IfEq),
        0x9a => Some(Instruction::IfNe),
        0x9b => Some(Instruction::IfLt),
        0x9c => Some(Instruction::IfGe),
        0x9d => Some(Instruction::IfGt),
        0x9e => Some(Instruction::IfLe),
        0xb0 => Some(Instruction::Areturn),
        0xaf => Some(Instruction::Dreturn),
        0xb1 => Some(Instruction::Return),
        _ => None,
    }
}

/// The mnemonic of an instruction, as the JVM specification writes it.
pub open spec fn spec_mnemonic(i: Instruction) -> Seq<char> {
    match i {
        Instruction::Bipush => "bipush"@,
        Instruction::Sipush => "sipush"@,
        Instruction::IfIcmpeq => "if_icmpeq"@,
        Instruction::IfIcmpne => "if_icmpne"@,
        Instruction::IfIcmplt => "if_icmplt"@,
        Instruction::Ldc => "ldc"@,
        Instruction::Aload => "aload"@,
        Instruction::Aload0 => "aload_0"@,
        Instruction::Aload1 => "aload_1"@,
        Instruction::Aload2 => "aload_2"@,
        Instruction::Aload3 => "aload_3"@,
        Instruction::Dload0 => "dload_0"@,
        Instruction::Dload1 => "dload_1"@,
        Instruction::Dload2 => "dload_2"@,
        Instruction::Dload3 => "dload_3"@,
        Instruction::Aaload => "aaload"@,
        Instruction::Iload => "iload"@,
        Instruction::Dload => "dload"@,
        Instruction::Iload0 => "iload_0"@,
        Instruction::Iload1 => "iload_1"@,
        Instruction::Iload2 => "iload_2"@,
        Instruction::Iload3 => "iload_3"@,
        Instruction::IconstM1 => "iconst_m1"@,
        Instruction::Iconst0 => "iconst_0"@,
        Instruction::Iconst1 => "iconst_1"@,
        Instruction::Iconst2 => "iconst_2"@,
        Instruction::Iconst3 => "iconst_3"@,
        Instruction::Iconst4 => "iconst_4"@,
        Instruction::Iconst5 => "iconst_5"@,
        Instruction::Dup => "dup"@,
        Instruction::Iadd => "iadd"@,
        Instruction::Isub => "isub"@,
        Instruction::Pop => "pop"@,
        Instruction::Astore => "astore"@,
        Instruction::Aastore => "aastore"@,
        Instruction::Astore0 => "astore_0"@,
        Instruction::Astore1 => "astore_1"@,
        Instruction::Astore2 => "astore_2"@,
        Instruction::Astore3 => "astore_3"@,
        Instruction::Getstatic => "getstatic"@,
        Instruction::Invokevirtual => "invokevirtual"@,
        Instruction::Putstatic => "putstatic"@,
        Instruction::Invokespecial => "invokespecial"@,
        Instruction::Invokestatic => "invokestatic"@,
        Instruction::Invokedynamic => "invokedynamic"@,
        Instruction::New => "new"@,
        Instruction::IfIcmpge => "if_icmpge"@,
        Instruction::IfIcmpgt => "if_icmpgt"@,
        Instruction::IfIcmple => "if_icmple"@,
        Instruction::IfEq => "ifeq"@,
        Instruction::IfNe => "ifne"@,
        Instruction::IfLt => "iflt"@,
        Instruction::IfGe => "ifge"@,
        Instruction::IfGt => "ifgt"@,
        Instruction::IfLe => "ifle"@,
        Instruction::Areturn => "areturn"@,
        Instruction::Dreturn => "dreturn"@,
        Instruction::Return => "return"@,
    }
}

impl Instruction {
    /// The opcode of the instruction.
    pub fn opcode(self) -> (r: u8)
        ensures
            r == spec_opcode(self),
    {
        match self {
            Instruction::Bipush => 0x10,
            Instruction::Sipush => 0x11,
            Instruction::IfIcmpeq => 0x9f,
            Instruction::IfIcmpne => 0xa0,
            Instruction::IfIcmplt => 0xa1,
            Instruction::Ldc => 0x12,
            Instruction::Aload => 0x19,
            Instruction::Aload0 => 0x2a,
            Instruction::Aload1 => 0x2b,
            Instruction::Aload2 => 0x2c,
            Instruction::Aload3 => 0x2d,
            Instruction::Dload0 => 0x26,
            Instruction::Dload1 => 0x27,
            Instruction::Dload2 => 0x28,
            Instruction::Dload3 => 0x29,
            Instruction::Aaload => 0x32,
            Instruction::Iload => 0x15,
            Instruction::Dload => 0x18,
            Instruction::Iload0 => 0x1a,
            Instruction::Iload1 => 0x1b,
            Instruction::Iload2 => 0x1c,
            Instruction::Iload3 => 0x1d,
            Instruction::IconstM1 => 0x02,
            Instruction::Iconst0 => 0x03,
            Instruction::Iconst1 => 0x04,
            Instruction::Iconst2 => 0x05,
            Instruction::Iconst3 => 0x06,
            Instruction::Iconst4 => 0x07,
            Instruction::Iconst5 => 0x08,
            Instruction::Dup => 0x59,
            Instruction::Iadd => 0x60,
            Instruction::Isub => 0x64,
            Instruction::Pop => 0x57,
            Instruction::Astore => 0x3a,
            Instruction::Aastore => 0x53,
            Instruction::Astore0 => 0x4b,
            Instruction::Astore1 => 0x4c,
            Instruction::Astore2 => 0x4d,
            Instruction::Astore3 => 0x4e,
            Instruction::Getstatic => 0xb2,
            Instruction::Invokevirtual => 0xb6,
            Instruction::Putstatic => 0xb3,
            Instruction::Invokespecial => 0xb7,
            Instruction::Invokestatic => 0xb8,
            Instruction::Invokedynamic => 0xba,
            Instruction::New => 0xbb,
            Instruction::IfIcmpge => 0xa2,
            Instruction::IfIcmpgt => 0xa3,
            Instruction::IfIcmple => 0xa4,
            Instruction::IfEq => 0x99,
            Instruction::IfNe => 0x9a,
            Instruction::IfLt => 0x9b,
            Instruction::IfGe => 0x9c,
            Instruction::IfGt => 0x9d,
            Instruction::IfLe => 0x9e,
            Instruction::Areturn => 0xb0,
            Instruction::Dreturn => 0xaf,
            Instruction::Return => 0xb1,
        }
    }

    /// The mnemonic of the instruction (`sipush`, `if_icmpeq`, ...).
    pub fn mnemonic(self) -> (r: &'static str)
        ensures
            r@ == spec_mnemonic(self),
    {
        match self {
            Instruction::Bipush => "bipush",
            Instruction::Sipush => "sipush",
            Instruction::IfIcmpeq => "if_icmpeq",
            Instruction::IfIcmpne => "if_icmpne",
            Instruction::IfIcmplt => "if_icmplt",
            Instruction::Ldc => "ldc",
            Instruction::Aload => "aload",
            Instruction::Aload0 => "aload_0",
            Instruction::Aload1 => "aload_1",
            Instruction::Aload2 => "aload_2",
            Instruction::Aload3 => "aload_3",
            Instruction::Dload0 => "dload_0",
            Instruction::Dload1 => "dload_1",
            Instruction::Dload2 => "dload_2",
            Instruction::Dload3 => "dload_3",
            Instruction::Aaload => "aaload",
            Instruction::Iload => "iload",
            Instruction::Dload => "dload",
            Instruction::Iload0 => "iload_0",
            Instruction::Iload1 => "iload_1",
            Instruction::Iload2 => "iload_2",
            Instruction::Iload3 => "iload_3",
            Instruction::IconstM1 => "iconst_m1",
            Instruction::Iconst0 => "iconst_0",
            Instruction::Iconst1 => "iconst_1",
            Instruction::Iconst2 => "iconst_2",
            Instruction::Iconst3 => "iconst_3",
            Instruction::Iconst4 => "iconst_4",
            Instruction::Iconst5 => "iconst_5",
            Instruction::Dup => "dup",
            Instruction::Iadd => "iadd",
            Instruction::Isub => "isub",
            Instruction::Pop => "pop",
            Instruction::Astore => "astore",
            Instruction::Aastore => "aastore",
            Instruction::Astore0 => "astore_0",
            Instruction::Astore1 => "astore_1",
            Instruction::Astore2 => "astore_2",
            Instruction::Astore3 => "astore_3",
            Instruction::Getstatic => "getstatic",
            Instruction::Invokevirtual => "invokevirtual",
            Instruction::Putstatic => "putstatic",
            Instruction::Invokespecial => "invokespecial",
            Instruction::Invokestatic => "invokestatic",
            Instruction::Invokedynamic => "invokedynamic",
            Instruction::New => "new",
            Instruction::IfIcmpge => "if_icmpge",
            Instruction::IfIcmpgt => "if_icmpgt",
            Instruction::IfIcmple => "if_icmple",
            Instruction::IfEq => "ifeq",
            Instruction::IfNe => "ifne",
            Instruction::IfLt => "iflt",
            Instruction::IfGe => "ifge",
            Instruction::IfGt => "ifgt",
            Instruction::IfLe => "ifle",
            Instruction::Areturn => "areturn",
            Instruction::Dreturn => "dreturn",
            Instruction::Return => "return",
        }
    }

    /// How far the opcode of `self` lies above that of `rhs`.
    pub fn sub(self, rhs: Instruction) -> (r: isize)
        ensures
            r == spec_opcode(self) - spec_opcode(rhs),
    {
        (self.opcode() as isize) - (rhs.opcode() as isize)
    }
}

/// The instruction that opcode `b` stands for and the number of its operand bytes.
fn decode(b: u8) -> (r: Option<(Instruction, usize)>)
    ensures
        match r {
            Some((i, n)) => spec_decode(b) == Some(i) && n == spec_operand_len(i),
            None => spec_decode(b) is None,
        },
{
    proof {
        reveal(spec_decode);
    }
    match b {
        0x10 => Some((Instruction::Bipush, 1)),
        0x11 => Some((Instruction::Sipush, 2)),
        0x9f => Some((Instruction::IfIcmpeq, 2)),
        0xa0 => Some((Instruction::IfIcmpne, 2)),
        0xa1 => Some((Instruction::IfIcmplt, 2)),
        0x12 => Some((Instruction::Ldc, 1)),
        0x19 => Some((Instruction::Aload, 1)),
        0x2a => Some((Instruction::Aload0, 0)),
        0x2b => Some((Instruction::Aload1, 0)),
        0x2c => Some((Instruction::Aload2, 0)),
        0x2d => Some((Instruction::Aload3, 0)),
        0x26 => Some((Instruction::Dload0, 0)),
        0x27 => Some((Instruction::Dload1, 0)),
        0x28 => Some((Instruction::Dload2, 0)),
        0x29 => Some((Instruction::Dload3, 0)),
        0x32 => Some((Instruction::Aaload, 0)),
        0x15 => Some((Instruction::Iload, 1)),
        0x18 => Some((Instruction::Dload, 1)),
        0x1a => Some((Instruction::Iload0, 0)),
        0x1b => Some((Instruction::Iload1, 0)),
        0x1c => Some((Instruction::Iload2, 0)),
        0x1d => Some((Instruction::Iload3, 0)),
        0x02 => Some((Instruction::IconstM1, 0)),
        0x03 => Some((Instruction::Iconst0, 0)),
        0x04 => Some((Instruction::Iconst1, 0)),
        0x05 => Some((Instruction::Iconst2, 0)),
        0x06 => Some((Instruction::Iconst3, 0)),
        0x07 => Some((Instruction::Iconst4, 0)),
        0x08 => Some((Instruction::Iconst5, 0)),
        0x59 => Some((Instruction::Dup, 0)),
        0x60 => Some((Instruction::Iadd, 0)),
        0x64 => Some((Instruction::Isub, 0)),
        0x57 => Some((Instruction::Pop, 0)),
        0x3a => Some((Instruction::Astore, 1)),
        0x53 => Some((Instruction::Aastore, 0)),
        0x4b => Some((Instruction::Astore0, 0)),
        0x4c => Some((Instruction::Astore1, 0)),
        0x4d => Some((Instruction::Astore2, 0)),
        0x4e => Some((Instruction::Astore3, 0)),
        0xb2 => Some((Instruction::Getstatic, 2)),
        0xb6 => Some((Instruction::Invokevirtual, 2)),
        0xb3 => Some((Instruction::Putstatic, 2)),
        0xb7 => Some((Instruction::Invokespecial, 2)),
        0xb8 => Some((Instruction::Invokestatic, 2)),
        0xba => Some((Instruction::Invokedynamic, 4)),
        0xbb => Some((Instruction::New, 2)),
        0xa2 => Some((Instruction::IfIcmpge, 2)),
        0xa3 => Some((Instruction::IfIcmpgt, 2)),
        0xa4 => Some((Instruction::IfIcmple, 2)),
        0x99 => Some((Instruction::IfEq, 2)),
        0x9a => Some((Instruction::IfNe, 2)),
        0x9b => Some((Instruction::IfLt, 2)),
        0x9c => Some((Instruction::IfGe, 2)),
        0x9d => Some((Instruction::IfGt, 2)),
        0x9e => Some((Instruction::IfLe, 2)),
        0xb0 => Some((Instruction::Areturn, 0)),
        0xaf => Some((Instruction::Dreturn, 0)),
        0xb1 => Some((Instruction::Return, 0)),
        _ => None,
    }
}

/// Decoding the opcode of an instruction gives that instruction back.
pub proof fn law_decode_opcode(i: Instruction)
    ensures
        spec_decode(spec_opcode(i)) == Some(i),
{
    reveal(spec_decode);
}

/// Every opcode that decodes is the opcode of the instruction it decodes to.
pub proof fn law_opcode_of_decoded(b: u8)
    ensures
        spec_decode(b) matches Some(i) ==> spec_opcode(i) == b,
{
    reveal(spec_decode);
}

/// The signed 16-bit value whose big-endian bytes are the first two of `b`.
pub open spec fn spec_short(b: Seq<u8>) -> i16 {
    be16(b, 0) as i16
}

/// The first two bytes of `b` read as a big-endian signed short.
pub fn bytes_to_short(b: &[u8]) -> (r: i16)
    requires
        b@.len() >= 2,
    ensures
        r == spec_short(b@),
{
    let hi = b[0];
    let lo = b[1];
    let v: u16 = (hi as u16) << 8 | (lo as u16);
    assert(v == (hi as int * 256 + lo as int) as u16) by (bit_vector)
        requires
            v == (hi as u16) << 8 | (lo as u16),
    ;
    v as i16
}

/// An instruction at `index` of some code, with its operand bytes.
pub struct Op<'a> {
    pub index: usize,
    pub instruction: Instruction,
    pub args: &'a [u8],
}

/// The value of an [`Op`].
pub struct OpView {
    pub index: usize,
    pub instruction: Instruction,
    pub args: Seq<u8>,
}

impl<'a> View for Op<'a> {
    type V = OpView;

    open spec fn view(&self) -> OpView {
        OpView { index: self.index, instruction: self.instruction, args: self.args@ }
    }
}

/// The operand bytes of an instruction as a trace shows them: `0x` and two hexadecimal
/// digits each, separated by spaces.
pub open spec fn spec_args_text(args: Seq<u8>) -> Seq<char>
    decreases args.len(),
{
    if args.len() == 0 {
        Seq::empty()
    } else if args.len() == 1 {
        "0x"@ + spec_hex(args[0] as nat, 2)
    } else {
        spec_args_text(args.drop_last()) + " 0x"@ + spec_hex(args.last() as nat, 2)
    }
}

/// An instruction as a trace shows it: its index, its mnemonic and its operand bytes.
pub open spec fn spec_op_text(op: OpView) -> Seq<char> {
    spec_decimal(op.index as nat) + ": "@ + spec_mnemonic(op.instruction) + if op.args.len() > 0 {
        " "@ + spec_args_text(op.args)
    } else {
        Seq::empty()
    }
}

impl<'a> Op<'a> {
    /// The instruction as a trace shows it.
    pub fn text(&self) -> (r: String)
        ensures
            r@ == spec_op_text(self@),
    {
        let mut text = String::new();
        push_decimal(&mut text, self.index as u64);
        text.append(": ");
        text.append(self.instruction.mnemonic());
        let ghost head = text@;
        if self.args.len() > 0 {
            text.append(" ");
            let ghost start = text@;
            let mut i: usize = 0;
            assert(self.args@.take(0) =~= Seq::<u8>::empty());
            assert(start + spec_args_text(self.args@.take(0)) =~= start);
            while i < self.args.len()
                invariant
                    i <= self.args@.len(),
                    text@ == start + spec_args_text(self.args@.take(i as int)),
                decreases self.args.len() - i,
            {
                assert(self.args@.take(i + 1).drop_last() =~= self.args@.take(i as int));
                if i > 0 {
                    text.append(" 0x");
                } else {
                    text.append("0x");
                }
                push_hex(&mut text, self.args[i] as u64, 2);
                proof {
                    if i == 0 {
                        assert(text@ =~= start + spec_args_text(self.args@.take(1)));
                    } else {
                        assert(text@ =~= start + spec_args_text(self.args@.take(i + 1)));
                    }
                }
                i = i + 1;
            }
            assert(self.args@.take(i as int) =~= self.args@);
        }
        assert(text@ =~= spec_op_text(self@));
        text
    }
}

/// The message of the error for an opcode that the interpreter does not know.
pub open spec fn spec_unknown_text(b: u8) -> Seq<char> {
    "Unknown instruction 0x"@ + spec_hex_byte(b)
}

/// What decoding the instruction at `offset` of `code` gives: the instruction with its
/// operands and the number of its operand bytes, or the error.
pub open spec fn spec_parse_op_at(code: Seq<u8>, offset: int) -> Result<(OpView, nat), RunTimeErrorView> {
    if offset < 0 || offset >= code.len() {
        Err(RunTimeErrorView::Other("offset out of range"@))
    } else {
        match spec_decode(code[offset]) {
            None => Err(RunTimeErrorView::Other(spec_unknown_text(code[offset]))),
            Some(i) => {
                let n = spec_operand_len(i);
                if offset + 1 + n > code.len() {
                    Err(RunTimeErrorView::Other("Not enough bytes for instruction arguments"@))
                } else {
                    Ok(
                        (
                            OpView {
                                index: offset as usize,
                                instruction: i,
                                args: code.subrange(offset + 1, offset + 1 + n),
                            },
                            n,
                        ),
                    )
                }
            },
        }
    }
}

/// The value of the result of a decoding.
pub open spec fn op_result_view<'a>(r: Result<(Op<'a>, usize), RunTimeError>) -> Result<(OpView, nat), RunTimeErrorView> {
    match r {
        Ok((op, n)) => Ok((op@, n as nat)),
        Err(e) => Err(e@),
    }
}

/// Decodes the instruction at `offset` of `bytes`; also gives the number of its operand
/// bytes.
pub fn parse_op_at<'a>(bytes: &'a [u8], offset: usize) -> (r: Result<(Op<'a>, usize), RunTimeError>)
    ensures
        op_result_view(r) == spec_parse_op_at(bytes@, offset as int),
{
    if offset >= bytes.len() {
        return Err(RunTimeError::Other(String::from_str("offset out of range")));
    }
    let op = bytes[offset];
    let index = offset;
    let (instruction, arg_len) = match decode(op) {
        Some(found) => found,
        None => {
            let mut text = String::from_str("Unknown instruction 0x");
            text.append(hex_digit(op / 16));
            text.append(hex_digit(op % 16));
            assert(text@ =~= spec_unknown_text(op));
            return Err(RunTimeError::Other(text));
        },
    };
    let arg_offset = index + 1;
    if arg_len > bytes.len() - arg_offset {
        return Err(RunTimeError::Other(String::from_str("Not enough bytes for instruction arguments")));
    }
    let args = &bytes[arg_offset..arg_offset + arg_len];
    Ok((Op { index, instruction, args }, arg_len))
}

/// What decoding `code` from `start` to its end gives: its instructions in order, or
/// the first error.
pub open spec fn spec_parse_from(code: Seq<u8>, start: int) -> Result<Seq<OpView>, RunTimeErrorView>
    decreases code.len() - start,
{
    if start < 0 || start >= code.len() {
        Ok(Seq::empty())
    } else {
        match spec_parse_op_at(code, start) {
            Err(e) => Err(e),
            Ok((op, n)) => match spec_parse_from(code, start + 1 + n) {
                Ok(rest) => Ok(seq![op] + rest),
                Err(e) => Err(e),
            },
        }
    }
}

/// The value of the result of decoding a whole method body.
pub open spec fn ops_result_view<'a>(r: Result<Vec<Op<'a>>, RunTimeError>) -> Result<Seq<OpView>, RunTimeErrorView> {
    match r {
        Ok(ops) => Ok(views(ops@)),
        Err(e) => Err(e@),
    }
}

/// Decodes a whole method body into its instructions.
pub fn parse<'a>(bytes: &'a [u8]) -> (r: Result<Vec<Op<'a>>, RunTimeError>)
    ensures
        ops_result_view(r) == spec_parse_from(bytes@, 0),
{
    let mut result: Vec<Op<'a>> = Vec::new();
    let mut i: usize = 0;
    while i < bytes.len()
        invariant
            i <= bytes.len(),
            spec_parse_from(bytes@, 0) == match spec_parse_from(bytes@, i as int) {
                Ok(rest) => Ok(views(result@) + rest),
                Err(e) => Err(e),
            },
        decreases bytes.len() - i,
    {
        let (op, arg_len) = match parse_op_at(bytes, i) {
            Ok(found) => found,
            Err(e) => {
                return Err(e);
            },
        };
        proof {
            lemma_views_push(result@, op);
            match spec_parse_from(bytes@, i + 1 + arg_len) {
                Ok(rest) => {
                    assert(views(result@) + (seq![op@] + rest) =~= views(result@.push(op)) + rest);
                },
                Err(_) => {},
            }
        }
        result.push(op);
        i = i + 1 + arg_len;
    }
    assert(views(result@) + Seq::<OpView>::empty() =~= views(result@));
    Ok(result)
}

/// The bytes of the instructions `ops`: each one's opcode, then its operands.
pub open spec fn spec_encode(ops: Seq<OpView>) -> Seq<u8>
    decreases ops.len(),
{
    if ops.len() == 0 {
        Seq::empty()
    } else {
        spec_encode(ops.drop_last()) + seq![spec_opcode(ops.last().instruction)] + ops.last().args
    }
}

/// Lays the instructions `ops` out as bytes: each one's opcode, then its operands.
pub fn ops_to_bytes<'a>(ops: &[Op<'a>]) -> (r: Vec<u8>)
    ensures
        r@ == spec_encode(views(ops@)),
{
    let ghost all = views(ops@);
    let mut out: Vec<u8> = Vec::new();
    let mut i: usize = 0;
    assert(all.take(0) =~= Seq::<OpView>::empty());
    while i < ops.len()
        invariant
            i <= ops@.len(),
            all == views(ops@),
            out@ == spec_encode(all.take(i as int)),
        decreases ops.len() - i,
    {
        let op = &ops[i];
        let ghost before = out@;
        out.push(op.instruction.opcode());
        let mut k: usize = 0;
        while k < op.args.len()
            invariant
                k <= op.args@.len(),
                out@ == before + seq![spec_opcode(op.instruction)] + op.args@.take(k as int),
            decreases op.args.len() - k,
        {
            out.push(op.args[k]);
            assert(op.args@.take(k + 1) =~= op.args@.take(k as int).push(op.args@[k as int]));
            k = k + 1;
        }
        proof {
            assert(op.args@.take(k as int) =~= op.args@);
            assert(all.take(i + 1).drop_last() =~= all.take(i as int));
            assert(all.take(i + 1).last() == op@);
        }
        i = i + 1;
    }
    assert(all.take(i as int) =~= all);
    out
}

proof fn lemma_encode_front(ops: Seq<OpView>)
    requires
        ops.len() > 0,
    ensures
        spec_encode(ops) == seq![spec_opcode(ops[0].instruction)] + ops[0].args + spec_encode(
            ops.drop_first(),
        ),
    decreases ops.len(),
{
    if ops.len() == 1 {
        assert(ops.drop_last() =~= Seq::<OpView>::empty());
        assert(ops.drop_first() =~= Seq::<OpView>::empty());
        assert(spec_encode(ops.drop_last()) == Seq::<u8>::empty());
        assert(spec_encode(ops.drop_first()) == Seq::<u8>::empty());
        assert(ops.last() == ops[0]);
        assert(spec_encode(ops) =~= seq![spec_opcode(ops[0].instruction)] + ops[0].args
            + Seq::<u8>::empty());
    } else {
        lemma_encode_front(ops.drop_last());
        assert(ops.drop_first().drop_last() =~= ops.drop_last().drop_first());
        assert(ops.drop_first().last() == ops.last());
        assert(ops.drop_last()[0] == ops[0]);
        assert(spec_encode(ops) =~= seq![spec_opcode(ops[0].instruction)] + ops[0].args
            + spec_encode(ops.drop_first()));
    }
}

/// Each instruction of `ops` carries as many operand bytes as it takes, and stands at
/// `start` plus the length of the bytes of those before it.
pub open spec fn laid_out(ops: Seq<OpView>, start: int) -> bool {
    forall|i: int|
        0 <= i < ops.len() ==> #[trigger] ops[i].args.len() == spec_operand_len(ops[i].instruction)
            && ops[i].index == start + spec_encode(ops.take(i)).len()
}

#[verifier::spinoff_prover]
proof fn lemma_parse_first(pre: Seq<u8>, ops: Seq<OpView>)
    requires
        ops.len() > 0,
        laid_out(ops, pre.len() as int),
        pre.len() + spec_encode(ops).len() <= usize::MAX,
    ensures
        spec_parse_op_at(pre + spec_encode(ops), pre.len() as int) == Ok::<
            (OpView, nat),
            RunTimeErrorView,
        >((ops[0], ops[0].args.len())),
{
    let s = pre + spec_encode(ops);
    let p = pre.len() as int;
    lemma_encode_front(ops);
    let op = ops[0];
    let n = op.args.len();
    assert(ops.take(0) =~= Seq::<OpView>::empty());
    assert(op.args.len() == spec_operand_len(op.instruction) && op.index == p + spec_encode(
        ops.take(0),
    ).len());
    law_decode_opcode(op.instruction);
    assert(s[p] == spec_opcode(op.instruction));
    assert(s.subrange(p + 1, p + 1 + n) =~= op.args);
}

#[verifier::spinoff_prover]
proof fn lemma_rest_laid_out(pre: Seq<u8>, ops: Seq<OpView>)
    requires
        ops.len() > 0,
        laid_out(ops, pre.len() as int),
    ensures
        laid_out(
            ops.drop_first(),
            (pre.len() + 1 + ops[0].args.len()) as int,
        ),
{
    let rest = ops.drop_first();
    let p = pre.len() as int;
    let start = (pre.len() + 1 + ops[0].args.len()) as int;
    assert forall|i: int| 0 <= i < rest.len() implies #[trigger] rest[i].args.len()
        == spec_operand_len(rest[i].instruction) && rest[i].index == start + spec_encode(
        rest.take(i),
    ).len() by {
        assert(rest[i] == ops[i + 1]);
        assert(ops[i + 1].args.len() == spec_operand_len(ops[i + 1].instruction) && ops[i
            + 1].index == p + spec_encode(ops.take(i + 1)).len());
        lemma_encode_front(ops.take(i + 1));
        assert(ops.take(i + 1).drop_first() =~= rest.take(i));
    }
    assert(laid_out(rest, start));
}

proof fn lemma_parse_from_step(s: Seq<u8>, p: int, op: OpView, rest: Seq<OpView>)
    requires
        0 <= p < s.len(),
        spec_parse_op_at(s, p) == Ok::<(OpView, nat), RunTimeErrorView>((op, op.args.len())),
        spec_parse_from(s, p + 1 + op.args.len()) == Ok::<Seq<OpView>, RunTimeErrorView>(rest),
    ensures
        spec_parse_from(s, p) == Ok::<Seq<OpView>, RunTimeErrorView>(seq![op] + rest),
{
}

proof fn lemma_split_encoding(pre: Seq<u8>, ops: Seq<OpView>)
    requires
        ops.len() > 0,
    ensures
        pre + spec_encode(ops) == (pre + seq![spec_opcode(ops[0].instruction)] + ops[0].args)
            + spec_encode(ops.drop_first()),
        (pre + seq![spec_opcode(ops[0].instruction)] + ops[0].args).len() == pre.len() + 1
            + ops[0].args.len(),
        pre.len() < (pre + spec_encode(ops)).len(),
{
    lemma_encode_front(ops);
    assert(pre + spec_encode(ops) =~= (pre + seq![spec_opcode(ops[0].instruction)] + ops[0].args)
        + spec_encode(ops.drop_first()));
}

proof fn lemma_first_and_rest(ops: Seq<OpView>)
    requires
        ops.len() > 0,
    ensures
        seq![ops[0]] + ops.drop_first() == ops,
{
    assert(seq![ops[0]] + ops.drop_first() =~= ops);
}

#[verifier::spinoff_prover]
proof fn lemma_parse_after(pre: Seq<u8>, ops: Seq<OpView>)
    requires
        laid_out(ops, pre.len() as int),
        pre.len() + spec_encode(ops).len() <= usize::MAX,
    ensures
        spec_parse_from(pre + spec_encode(ops), pre.len() as int) == Ok::<
            Seq<OpView>,
            RunTimeErrorView,
        >(ops),
    decreases ops.len(),
{
    if ops.len() == 0 {
        assert(ops =~= Seq::<OpView>::empty());
    } else {
        let op = ops[0];
        let rest = ops.drop_first();
        let pre2 = pre + seq![spec_opcode(op.instruction)] + op.args;
        lemma_split_encoding(pre, ops);
        lemma_parse_first(pre, ops);
        lemma_rest_laid_out(pre, ops);
        lemma_parse_after(pre2, rest);
        lemma_parse_from_step(pre + spec_encode(ops), pre.len() as int, op, rest);
        lemma_first_and_rest(ops);
    }
}

/// Decoding the bytes that [`ops_to_bytes`] lays out gives the instructions back, when
/// each carries its operands and stands where its bytes start.
pub proof fn law_parse_inverts_encode(ops: Seq<OpView>)
    requires
        laid_out(ops, 0),
        spec_encode(ops).len() <= usize::MAX,
    ensures
        spec_parse_from(spec_encode(ops), 0) == Ok::<Seq<OpView>, RunTimeErrorView>(ops),
{
    lemma_parse_after(Seq::empty(), ops);
    assert(Seq::<u8>::empty() + spec_encode(ops) =~= spec_encode(ops));
}

/// What a successful decoding from `start` walks through: nothing exactly when `start`
/// is the end, else instructions from `start` on, each decoded where the one before it
/// ends, the last ending at the end of the code.
pub open spec fn walks_from(code: Seq<u8>, start: int, ops: Seq<OpView>) -> bool {
    &&& (ops.len() == 0) == (start == code.len())
    &&& ops.len() > 0 ==> ops[0].index == start && ops.last().index + 1 + ops.last().args.len()
        == code.len()
    &&& forall|k: int|
        0 <= k < ops.len() ==> spec_parse_op_at(code, #[trigger] ops[k].index as int) == Ok::<
            (OpView, nat),
            RunTimeErrorView,
        >((ops[k], ops[k].args.len()))
    &&& forall|k: int|
        0 < k < ops.len() ==> (#[trigger] ops[k]).index == ops[k - 1].index + 1 + ops[k
            - 1].args.len()
}

#[verifier::spinoff_prover]
#[verifier::rlimit(40)]
proof fn lemma_parse_walk(code: Seq<u8>, start: int)
    requires
        0 <= start <= code.len(),
        code.len() <= usize::MAX,
        spec_parse_from(code, start) is Ok,
    ensures
        walks_from(code, start, spec_parse_from(code, start)->Ok_0),
    decreases code.len() - start,
{
    if start < code.len() {
        let (op, n) = spec_parse_op_at(code, start)->Ok_0;
        let next = start + 1 + n;
        lemma_parse_walk(code, next);
        let rest = spec_parse_from(code, next)->Ok_0;
        let ops = seq![op] + rest;
        assert(spec_parse_from(code, start)->Ok_0 == ops);
        assert forall|k: int| 0 <= k < ops.len() implies spec_parse_op_at(
            code,
            #[trigger] ops[k].index as int,
        ) == Ok::<(OpView, nat), RunTimeErrorView>((ops[k], ops[k].args.len())) by {
            if k > 0 {
                assert(ops[k] == rest[k - 1]);
            }
        }
        assert forall|k: int| 0 < k < ops.len() implies (#[trigger] ops[k]).index == ops[k
            - 1].index + 1 + ops[k - 1].args.len() by {
            assert(ops[k] == rest[k - 1]);
            if k > 1 {
                assert(ops[k - 1] == rest[k - 2]);
            } else {
                assert(op.index == start && op.args.len() == n);
                assert(rest.len() > 0);
                assert(rest[0].index == next);
            }
        }
        if rest.len() > 0 {
            assert(ops.last() == rest.last());
        }
    }
}

/// A whole method body decodes from offset 0: the first instruction stands at 0, each
/// next one where the one before it ends (so the offsets increase), each is what
/// decoding at its offset gives, and the last ends exactly at the end of the code;
/// empty code gives no instructions.
pub proof fn law_parse_walks_the_code(code: Seq<u8>)
    requires
        code.len() <= usize::MAX,
        spec_parse_from(code, 0) is Ok,
    ensures
        walks_from(code, 0, spec_parse_from(code, 0)->Ok_0),
{
    lemma_parse_walk(code, 0);
}

/// The instructions of the JVM specification that the interpreter knows, by opcode: the
/// mnemonic and the number of operand bytes that follow the opcode.
pub open spec fn jvm_instruction(b: u8) -> Option<(Seq<char>, int)> {
    match b {
        0x02 => Some(("iconst_m1"@, 0int)),
        0x03 => Some(("iconst_0"@, 0int)),
        0x04 => Some(("iconst_1"@, 0int)),
        0x05 => Some(("iconst_2"@, 0int)),
        0x06 => Some(("iconst_3"@, 0int)),
        0x07 => Some(("iconst_4"@, 0int)),
        0x08 => Some(("iconst_5"@, 0int)),
        0x10 => Some(("bipush"@, 1int)),
        0x11 => Some(("sipush"@, 2int)),
        0x12 => Some(("ldc"@, 1int)),
        0x15 => Some(("iload"@, 1int)),
        0x18 => Some(("dload"@, 1int)),
        0x19 => Some(("aload"@, 1int)),
        0x1a => Some(("iload_0"@, 0int)),
        0x1b => Some(("iload_1"@, 0int)),
        0x1c => Some(("iload_2"@, 0int)),
        0x1d => Some(("iload_3"@, 0int)),
        0x26 => Some(("dload_0"@, 0int)),
        0x27 => Some(("dload_1"@, 0int)),
        0x28 => Some(("dload_2"@, 0int)),
        0x29 => Some(("dload_3"@, 0int)),
        0x2a => Some(("aload_0"@, 0int)),
        0x2b => Some(("aload_1"@, 0int)),
        0x2c => Some(("aload_2"@, 0int)),
        0x2d => Some(("aload_3"@, 0int)),
        0x32 => Some(("aaload"@, 0int)),
        0x3a => Some(("astore"@, 1int)),
        0x4b => Some(("astore_0"@, 0int)),
        0x4c => Some(("astore_1"@, 0int)),
        0x4d => Some(("astore_2"@, 0int)),
        0x4e => Some(("astore_3"@, 0int)),
        0x53 => Some(("aastore"@, 0int)),
        0x57 => Some(("pop"@, 0int)),
        0x59 => Some(("dup"@, 0int)),
        0x60 => Some(("iadd"@, 0int)),
        0x64 => Some(("isub"@, 0int)),
        0x99 => Some(("ifeq"@, 2int)),
        0x9a => Some(("ifne"@, 2int)),
        0x9b => Some(("iflt"@, 2int)),
        0x9c => Some(("ifge"@, 2int)),
        0x9d => Some(("ifgt"@, 2int)),
        0x9e => Some(("ifle"@, 2int)),
        0x9f => Some(("if_icmpeq"@, 2int)),
        0xa0 => Some(("if_icmpne"@, 2int)),
        0xa1 => Some(("if_icmplt"@, 2int)),
        0xa2 => Some(("if_icmpge"@, 2int)),
        0xa3 => Some(("if_icmpgt"@, 2int)),
        0xa4 => Some(("if_icmple"@, 2int)),
        0xaf => Some(("dreturn"@, 0int)),
        0xb0 => Some(("areturn"@, 0int)),
        0xb1 => Some(("return"@, 0int)),
        0xb2 => Some(("getstatic"@, 2int)),
        0xb3 => Some(("putstatic"@, 2int)),
        0xb6 => Some(("invokevirtual"@, 2int)),
        0xb7 => Some(("invokespecial"@, 2int)),
        0xb8 => Some(("invokestatic"@, 2int)),
        0xba => Some(("invokedynamic"@, 4int)),
        0xbb => Some(("new"@, 2int)),
        _ => None,
    }
}

/// Decoding at an offset follows the JVM's opcode table: a known opcode decodes to the
/// instruction of that mnemonic, carrying the operand bytes that follow it and standing
/// at that offset; an opcode the interpreter does not know is an error, and so is one
/// whose operands run past the end of the code.
#[verifier::spinoff_prover]
#[verifier::rlimit(60)]
pub proof fn law_decoding_follows_the_opcode_table(code: Seq<u8>, off: int)
    requires
        0 <= off < code.len(),
        off <= usize::MAX,
    ensures
        match jvm_instruction(code[off]) {
            Some((name, n)) => if off + 1 + n <= code.len() {
                spec_parse_op_at(code, off) matches Ok((op, k)) && spec_mnemonic(op.instruction)
                    == name && k == n && op.index == off && op.args == code.subrange(
                    off + 1,
                    off + 1 + n,
                )
            } else {
                spec_parse_op_at(code, off) is Err
            },
            None => spec_parse_op_at(code, off) is Err,
        },
{
    reveal(spec_decode);
}

} // verus!
