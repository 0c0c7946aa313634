use crate::loader::reader::be32;
use vstd::prelude::*;

verus! {

/// One 32-bit slot of the operand stack or of the local variables, most significant
/// byte first.
pub type VarSlot = [u8; 4];

/// The kind of value that a slot holds.
#[derive(Debug, Clone, PartialEq, Eq, Structural)]
pub enum SlotType {
    Bool,
    Byte,
    Char,
    Short,
    Int,
    Long,
    Float,
    Double,
    Reference,
    ReturnAddress,
}

/// A value that the heap keeps: `null`, a primitive (a `float` or a `double` kept as its
/// IEEE 754 bits), a reference or a return address.
#[derive(Debug, Clone, Copy, PartialEq, Eq, Structural)]
pub enum Type {
    Null,
    Bool(bool),
    Byte(u8),
    Char(u16),
    Short(u16),
    Int(u32),
    Long(u64),
    Float(u32),
    Double(u64),
    Reference(u32),
    ReturnAddress(u32),
}

/// The 32-bit word that a slot holds.
pub open spec fn word(s: VarSlot) -> u32 {
    be32(s@, 0)
}

/// The words that a run of slots holds.
pub open spec fn words(s: Seq<VarSlot>) -> Seq<u32> {
    s.map_values(|x: VarSlot| word(x))
}

/// The slot that holds the word `w`.
pub fn slot_of(w: u32) -> (r: VarSlot)
    ensures
        word(r) == w,
{
    let b0 = (w >> 24) as u8;
    let b1 = (w >> 16) as u8;
    let b2 = (w >> 8) as u8;
    let b3 = w as u8;
    let r: VarSlot = [b0, b1, b2, b3];
    assert(r@ =~= seq![b0, b1, b2, b3]);
    assert((b0 as int * 16777216 + b1 as int * 65536 + b2 as int * 256 + b3 as int) as u32 == w)
        by (bit_vector)
        requires
            b0 == (w >> 24) as u8,
            b1 == (w >> 16) as u8,
            b2 == (w >> 8) as u8,
            b3 == w as u8,
    ;
    r
}

/// The word that the slot `s` holds.
pub fn word_of(s: VarSlot) -> (r: u32)
    ensures
        r == word(s),
{
    let b0 = s[0];
    let b1 = s[1];
    let b2 = s[2];
    let b3 = s[3];
    let r: u32 = (b0 as u32) << 24 | (b1 as u32) << 16 | (b2 as u32) << 8 | (b3 as u32);
    assert(r == (b0 as int * 16777216 + b1 as int * 65536 + b2 as int * 256 + b3 as int) as u32)
        by (bit_vector)
        requires
            r == (b0 as u32) << 24 | (b1 as u32) << 16 | (b2 as u32) << 8 | (b3 as u32),
    ;
    r
}

/// The words of a run with one more slot at its end.
pub proof fn lemma_words_push(s: Seq<VarSlot>, x: VarSlot)
    ensures
        words(s.push(x)) == words(s).push(word(x)),
{
    assert(words(s.push(x)) =~= words(s).push(word(x)));
}

} // verus!
