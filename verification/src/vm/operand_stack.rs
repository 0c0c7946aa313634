use crate::vm::types::{lemma_words_push, slot_of, word, word_of, words, VarSlot};
use crate::loader::reader::spec_decimal;
use crate::text::{push_decimal, push_hex, spec_hex};
use vstd::prelude::*;
use vstd::string::StringExecFns;

verus! {

/// The operand stack of a frame: 32-bit slots, the top at the end.
pub struct OperandStack {
    stack: Vec<VarSlot>,
}

impl View for OperandStack {
    type V = Seq<u32>;

    /// The words on the stack, bottom first.
    closed spec fn view(&self) -> Seq<u32> {
        words(self.stack@)
    }
}

/// How many slots a pop of `width` slots leaves of a stack of `len` slots (a pop that
/// finds too few slots still takes those it finds).
pub open spec fn kept_after_pop(len: nat, width: nat) -> nat {
    if len >= width {
        (len - width) as nat
    } else {
        0
    }
}

/// A value that can be pushed onto an operand stack.
pub trait StackValue: Sized {
    /// The words the value takes on the stack, the one pushed first at the front.
    spec fn spec_words(self) -> Seq<u32>;

    /// The slots of the value, in the order they are pushed.
    fn to_slots(self) -> (r: Vec<VarSlot>)
        ensures
            words(r@) == self.spec_words(),
    ;
}

/// A value that can be popped off an operand stack.
pub trait Popable: Sized {
    /// The number of slots the value takes.
    spec fn spec_width() -> nat;

    /// The value that the words `ws` (the one pushed first at the front) stand for.
    spec fn spec_from_words(ws: Seq<u32>) -> Self;

    /// Takes the value off the top of `stack`; `None`, with the stack emptied, where it
    /// holds fewer slots than the value takes.
    fn pop_from(stack: &mut Vec<VarSlot>) -> (r: Option<Self>)
        ensures
            final(stack)@ == old(stack)@.take(
                kept_after_pop(old(stack)@.len(), Self::spec_width()) as int,
            ),
            r == if old(stack)@.len() >= Self::spec_width() {
                Some(
                    Self::spec_from_words(
                        words(old(stack)@).skip(old(stack)@.len() - Self::spec_width()),
                    ),
                )
            } else {
                None
            },
    ;
}

/// What popping a `P` off a stack holding the words `s` gives: the value and the words
/// left.
pub open spec fn spec_pop<P: Popable>(s: Seq<u32>) -> (Option<P>, Seq<u32>) {
    (
        if s.len() >= P::spec_width() {
            Some(P::spec_from_words(s.skip(s.len() - P::spec_width())))
        } else {
            None
        },
        s.take(kept_after_pop(s.len(), P::spec_width()) as int),
    )
}

/// The words of a stack as its text shows them: `0x` and eight hexadecimal digits each,
/// separated by `", "`.
pub open spec fn spec_words_text(ws: Seq<u32>) -> Seq<char>
    decreases ws.len(),
{
    if ws.len() == 0 {
        Seq::empty()
    } else if ws.len() == 1 {
        "0x"@ + spec_hex(ws[0] as nat, 8)
    } else {
        spec_words_text(ws.drop_last()) + ", 0x"@ + spec_hex(ws.last() as nat, 8)
    }
}

/// A stack as its text shows it: its length and its words, bottom first.
pub open spec fn spec_stack_text(ws: Seq<u32>) -> Seq<char> {
    "OperandStack(len="@ + spec_decimal(ws.len()) + ") ["@ + spec_words_text(ws) + "]"@
}

impl OperandStack {
    /// An empty stack, with room for `size` slots.
    pub fn new(size: u16) -> (r: Self)
        ensures
            r@ == Seq::<u32>::empty(),
    {
        let stack: Vec<VarSlot> = Vec::with_capacity(size as usize);
        let r = Self { stack };
        assert(r@ =~= Seq::<u32>::empty());
        r
    }

    /// Pushes the slots of `value`.
    pub fn push<V: StackValue>(&mut self, value: V)
        ensures
            final(self)@ == old(self)@ + value.spec_words(),
    {
        let slots = value.to_slots();
        let mut i: usize = 0;
        while i < slots.len()
            invariant
                i <= slots.len(),
                words(slots@) == value.spec_words(),
                self@ == old(self)@ + words(slots@).take(i as int),
            decreases slots.len() - i,
        {
            proof {
                lemma_words_push(self.stack@, slots@[i as int]);
                assert(words(slots@).take(i + 1) =~= words(slots@).take(i as int).push(
                    word(slots@[i as int]),
                ));
            }
            self.stack.push(slots[i]);
            i = i + 1;
        }
        assert(words(slots@).take(i as int) =~= words(slots@));
    }

    /// Pops a value of type `P`; `None` where the stack holds fewer slots than it takes.
    pub fn pop<P: Popable>(&mut self) -> (r: Option<P>)
        ensures
            (r, final(self)@) == spec_pop::<P>(old(self)@),
    {
        let r = P::pop_from(&mut self.stack);
        proof {
            let n = kept_after_pop(old(self).stack@.len(), P::spec_width()) as int;
            assert(words(old(self).stack@.take(n)) =~= words(old(self).stack@).take(n));
        }
        r
    }

    /// The number of slots on the stack.
    pub fn len(&self) -> (r: usize)
        ensures
            r == self@.len(),
    {
        self.stack.len()
    }

    /// The stack as text: its length and its words in hexadecimal, bottom first.
    pub fn text(&self) -> (r: String)
        ensures
            r@ == spec_stack_text(self@),
    {
        let mut text = String::from_str("OperandStack(len=");
        push_decimal(&mut text, self.stack.len() as u64);
        text.append(") [");
        let ghost start = text@;
        let ghost ws = self@;
        let mut i: usize = 0;
        assert(ws.take(0) =~= Seq::<u32>::empty());
        assert(start + spec_words_text(ws.take(0)) =~= start);
        while i < self.stack.len()
            invariant
                i <= self.stack@.len(),
                ws == words(self.stack@),
                text@ == start + spec_words_text(ws.take(i as int)),
            decreases self.stack.len() - i,
        {
            assert(ws.take(i + 1).drop_last() =~= ws.take(i as int));
            if i > 0 {
                text.append(", 0x");
            } else {
                text.append("0x");
            }
            let w = word_of(self.stack[i]);
            push_hex(&mut text, w as u64, 8);
            proof {
                if i == 0 {
                    assert(text@ =~= start + spec_words_text(ws.take(1)));
                } else {
                    assert(text@ =~= start + spec_words_text(ws.take(i + 1)));
                }
            }
            i = i + 1;
        }
        assert(ws.take(i as int) =~= ws);
        text.append("]");
        text
    }
}

/// One slot holding the word `w`.
fn one_slot(w: u32) -> (r: Vec<VarSlot>)
    ensures
        words(r@) == seq![w],
{
    let mut v: Vec<VarSlot> = Vec::new();
    v.push(slot_of(w));
    assert(words(v@) =~= seq![w]);
    v
}

/// Two slots holding the words `hi` and `lo`, in that order.
fn two_slots(hi: u32, lo: u32) -> (r: Vec<VarSlot>)
    ensures
        words(r@) == seq![hi, lo],
{
    let mut v: Vec<VarSlot> = Vec::new();
    v.push(slot_of(hi));
    v.push(slot_of(lo));
    assert(words(v@) =~= seq![hi, lo]);
    v
}

/// The high word of a 64-bit value.
pub open spec fn high_word(v: u64) -> u32 {
    (v >> 32) as u32
}

/// The low word of a 64-bit value.
pub open spec fn low_word(v: u64) -> u32 {
    v as u32
}

/// The 64-bit value made of a high and a low word.
pub open spec fn join_words(hi: u32, lo: u32) -> u64 {
    (hi as u64) << 32 | (lo as u64)
}

fn split_u64(v: u64) -> (r: (u32, u32))
    ensures
        r == (high_word(v), low_word(v)),
{
    ((v >> 32) as u32, v as u32)
}

fn join_u64(hi: u32, lo: u32) -> (r: u64)
    ensures
        r == join_words(hi, lo),
{
    (hi as u64) << 32 | (lo as u64)
}

impl StackValue for i32 {
    open spec fn spec_words(self) -> Seq<u32> {
        seq![self as u32]
    }

    fn to_slots(self) -> (r: Vec<VarSlot>) {
        one_slot(self as u32)
    }
}

impl StackValue for i8 {
    /// Sign-extended to 32 bits, in one slot.
    open spec fn spec_words(self) -> Seq<u32> {
        seq![(self as i32) as u32]
    }

    fn to_slots(self) -> (r: Vec<VarSlot>) {
        one_slot((self as i32) as u32)
    }
}

impl StackValue for i16 {
    /// Sign-extended to 32 bits, in one slot.
    open spec fn spec_words(self) -> Seq<u32> {
        seq![(self as i32) as u32]
    }

    fn to_slots(self) -> (r: Vec<VarSlot>) {
        one_slot((self as i32) as u32)
    }
}

impl StackValue for i64 {
    /// The high word first, then the low word.
    open spec fn spec_words(self) -> Seq<u32> {
        seq![high_word(self as u64), low_word(self as u64)]
    }

    fn to_slots(self) -> (r: Vec<VarSlot>) {
        let (hi, lo) = split_u64(self as u64);
        two_slots(hi, lo)
    }
}

impl Popable for i32 {
    open spec fn spec_width() -> nat {
        1
    }

    open spec fn spec_from_words(ws: Seq<u32>) -> i32 {
        ws[0] as i32
    }

    fn pop_from(stack: &mut Vec<VarSlot>) -> (r: Option<i32>) {
        match stack.pop() {
            Some(b) => Some(word_of(b) as i32),
            None => None,
        }
    }
}

impl Popable for i8 {
    open spec fn spec_width() -> nat {
        1
    }

    /// The low byte of the word.
    open spec fn spec_from_words(ws: Seq<u32>) -> i8 {
        (ws[0] as i32) as i8
    }

    fn pop_from(stack: &mut Vec<VarSlot>) -> (r: Option<i8>) {
        match stack.pop() {
            Some(b) => Some((word_of(b) as i32) as i8),
            None => None,
        }
    }
}

impl Popable for i16 {
    open spec fn spec_width() -> nat {
        1
    }

    /// The low 16 bits of the word.
    open spec fn spec_from_words(ws: Seq<u32>) -> i16 {
        (ws[0] as i32) as i16
    }

    fn pop_from(stack: &mut Vec<VarSlot>) -> (r: Option<i16>) {
        match stack.pop() {
            Some(b) => Some((word_of(b) as i32) as i16),
            None => None,
        }
    }
}

impl Popable for i64 {
    open spec fn spec_width() -> nat {
        2
    }

    /// The high word first, then the low word.
    open spec fn spec_from_words(ws: Seq<u32>) -> i64 {
        join_words(ws[0], ws[1]) as i64
    }

    fn pop_from(stack: &mut Vec<VarSlot>) -> (r: Option<i64>) {
        let low = match stack.pop() {
            Some(b) => b,
            None => {
                return None;
            },
        };
        let high = match stack.pop() {
            Some(b) => b,
            None => {
                return None;
            },
        };
        Some(join_u64(word_of(high), word_of(low)) as i64)
    }
}

/// Pushing an `i32` and popping an `i32` gives the value back and leaves the stack as
/// it was.
pub proof fn law_push_pop_i32(s: Seq<u32>, v: i32)
    ensures
        spec_pop::<i32>(s + v.spec_words()) == (Some(v), s),
{
    let t = s + v.spec_words();
    assert(t.skip(t.len() - 1) =~= seq![v as u32]);
    assert(t.take(s.len() as int) =~= s);
    assert((v as u32) as i32 == v) by (bit_vector);
}

/// Pushing an `i8` and popping an `i8` gives the value back and leaves the stack as it
/// was.
pub proof fn law_push_pop_i8(s: Seq<u32>, v: i8)
    ensures
        spec_pop::<i8>(s + v.spec_words()) == (Some(v), s),
{
    let t = s + v.spec_words();
    assert(t.skip(t.len() - 1) =~= seq![(v as i32) as u32]);
    assert(t.take(s.len() as int) =~= s);
    assert((((v as i32) as u32) as i32) as i8 == v) by (bit_vector);
}

/// Pushing an `i16` and popping an `i16` gives the value back and leaves the stack as
/// it was.
pub proof fn law_push_pop_i16(s: Seq<u32>, v: i16)
    ensures
        spec_pop::<i16>(s + v.spec_words()) == (Some(v), s),
{
    let t = s + v.spec_words();
    assert(t.skip(t.len() - 1) =~= seq![(v as i32) as u32]);
    assert(t.take(s.len() as int) =~= s);
    assert((((v as i32) as u32) as i32) as i16 == v) by (bit_vector);
}

/// Pushing an `i64` and popping an `i64` gives the value back and leaves the stack as
/// it was.
pub proof fn law_push_pop_i64(s: Seq<u32>, v: i64)
    ensures
        spec_pop::<i64>(s + v.spec_words()) == (Some(v), s),
{
    let t = s + v.spec_words();
    assert(t.skip(t.len() - 2) =~= seq![high_word(v as u64), low_word(v as u64)]);
    assert(t.take(s.len() as int) =~= s);
    assert((((((v as u64) >> 32) as u32) as u64) << 32 | (((v as u64) as u32) as u64)) as i64 == v)
        by (bit_vector);
}

/// A push puts the value's words on top and leaves the words below as they were: the
/// stack grows by the number of words the value takes.
pub proof fn law_push_keeps_below<V: StackValue>(s: Seq<u32>, v: V)
    ensures
        (s + v.spec_words()).len() == s.len() + v.spec_words().len(),
        (s + v.spec_words()).take(s.len() as int) == s,
        (s + v.spec_words()).skip(s.len() as int) == v.spec_words(),
{
    assert((s + v.spec_words()).take(s.len() as int) =~= s);
    assert((s + v.spec_words()).skip(s.len() as int) =~= v.spec_words());
}

/// An `i8`, an `i16` and an `i32` take one word each; an `i64` takes two.
pub proof fn law_word_counts(a: i8, b: i16, c: i32, d: i64)
    ensures
        a.spec_words().len() == 1,
        b.spec_words().len() == 1,
        c.spec_words().len() == 1,
        d.spec_words().len() == 2,
{
}

/// An `i8` is pushed sign-extended to an `int`: popping an `i32` gives its value.
pub proof fn law_push_i8_pop_i32(s: Seq<u32>, v: i8)
    ensures
        spec_pop::<i32>(s + v.spec_words()) == (Some(v as i32), s),
{
    let t = s + v.spec_words();
    assert(t.skip(t.len() - 1) =~= seq![(v as i32) as u32]);
    assert(t.take(s.len() as int) =~= s);
    assert(((v as i32) as u32) as i32 == v as i32) by (bit_vector);
}

/// An `i16` is pushed sign-extended to an `int`: popping an `i32` gives its value.
pub proof fn law_push_i16_pop_i32(s: Seq<u32>, v: i16)
    ensures
        spec_pop::<i32>(s + v.spec_words()) == (Some(v as i32), s),
{
    let t = s + v.spec_words();
    assert(t.skip(t.len() - 1) =~= seq![(v as i32) as u32]);
    assert(t.take(s.len() as int) =~= s);
    assert(((v as i32) as u32) as i32 == v as i32) by (bit_vector);
}

} // verus!
