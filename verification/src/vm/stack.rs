use crate::vm::class::{ClassPtr, Method, MethodReference};
use crate::vm::errors::{RunTimeError, RunTimeErrorView};
use crate::vm::operand_stack::{join_words, high_word, low_word, OperandStack};
use crate::vm::types::{lemma_words_push, slot_of, word, word_of, words, VarSlot};
use std::rc::Rc;
use vstd::prelude::*;
use vstd::string::StringExecFns;

verus! {

/// The frame of one method call: the class and method it runs, its operand stack and
/// its local variables.
pub struct StackFrame {
    pub class: ClassPtr,
    pub method: Rc<Method>,
    pub operand_stack: OperandStack,
    pub local_variables: Vec<VarSlot>,
}

/// The message of the error for a local variable access outside the frame.
pub open spec fn spec_slot_range_text() -> Seq<char> {
    "Local variable slot out of range"@
}

/// A value that can be kept in local variables.
pub trait LocalVariableValue: Sized {
    /// The number of slots the value takes.
    spec fn spec_count() -> nat;

    /// The words of the value, the first slot's first.
    spec fn spec_words(self) -> Seq<u32>;

    /// The value that the words `ws` stand for.
    spec fn spec_from_words(ws: Seq<u32>) -> Self;

    /// The number of slots the value takes.
    fn slot_count() -> (r: usize)
        ensures
            r == Self::spec_count(),
    ;

    /// The value that the first slots of `slots` hold.
    fn from_slots(slots: &[VarSlot]) -> (r: Self)
        requires
            slots@.len() >= Self::spec_count(),
        ensures
            r == Self::spec_from_words(words(slots@).take(Self::spec_count() as int)),
    ;

    /// The slots that hold the value.
    fn into_slots(self) -> (r: Vec<VarSlot>)
        ensures
            words(r@) == self.spec_words(),
            r@.len() == Self::spec_count(),
    ;

    /// The words of a value fill its slots, and reading them back gives the value.
    proof fn lemma_round_trip(self)
        ensures
            self.spec_words().len() == Self::spec_count(),
            Self::spec_from_words(self.spec_words()) == self,
    ;
}

/// What reading a `T` at `slot` of the local variables `locals` gives.
pub open spec fn spec_get_local<T: LocalVariableValue>(locals: Seq<u32>, slot: u16) -> Result<T, RunTimeErrorView> {
    if slot + T::spec_count() <= locals.len() {
        Ok(T::spec_from_words(locals.subrange(slot as int, slot + T::spec_count())))
    } else {
        Err(RunTimeErrorView::Other(spec_slot_range_text()))
    }
}

/// The local variables `locals` with the words `ws` written from `slot` on.
pub open spec fn spec_set_locals(locals: Seq<u32>, slot: int, ws: Seq<u32>) -> Seq<u32> {
    locals.take(slot) + ws + locals.skip(slot + ws.len())
}

/// The value of a result with no value.
pub open spec fn unit_result_view(r: Result<(), RunTimeError>) -> Result<(), RunTimeErrorView> {
    match r {
        Ok(()) => Ok(()),
        Err(e) => Err(e@),
    }
}

/// The value of a result.
pub open spec fn value_result_view<T>(r: Result<T, RunTimeError>) -> Result<T, RunTimeErrorView> {
    match r {
        Ok(v) => Ok(v),
        Err(e) => Err(e@),
    }
}

impl StackFrame {
    /// The words of the local variables.
    pub open spec fn locals(&self) -> Seq<u32> {
        words(self.local_variables@)
    }

    /// A frame for a call of `method_ref`: an empty operand stack and as many zeroed
    /// local variables as the method declares.
    pub fn new(method_ref: MethodReference) -> (r: Result<Self, RunTimeError>)
        ensures
            r matches Ok(f) && f.class == method_ref.spec_class() && f.method
                == method_ref.spec_method() && f.operand_stack@ == Seq::<u32>::empty() && f.locals()
                == Seq::new(method_ref.spec_method().max_locals as nat, |i: int| 0u32),
    {
        let method = method_ref.method();
        let class = method_ref.class();
        let mut local_variables: Vec<VarSlot> = Vec::new();
        let n = method.max_locals as usize;
        while local_variables.len() < n
            invariant
                local_variables@.len() <= n,
                words(local_variables@) == Seq::new(local_variables@.len(), |i: int| 0u32),
            decreases n - local_variables@.len(),
        {
            proof {
                lemma_words_push(local_variables@, [0u8, 0u8, 0u8, 0u8]);
            }
            let zero: VarSlot = [0, 0, 0, 0];
            assert(word(zero) == 0) by {
                assert(zero@ =~= seq![0u8, 0u8, 0u8, 0u8]);
            }
            local_variables.push(zero);
            assert(words(local_variables@) =~= Seq::new(local_variables@.len(), |i: int| 0u32));
        }
        Ok(
            Self {
                operand_stack: OperandStack::new(method.max_stack),
                local_variables,
                class: class.clone(),
                method: method.clone(),
            },
        )
    }

    /// Reads a `T` from the local variables at `slot`.
    pub fn get_variable_value<T: LocalVariableValue>(&self, slot: u16) -> (r: Result<T, RunTimeError>)
        requires
            slot + T::spec_count() <= usize::MAX,
        ensures
            value_result_view(r) == spec_get_local::<T>(self.locals(), slot),
    {
        let start = slot as usize;
        let end = start + T::slot_count();
        if end > self.local_variables.len() {
            return Err(RunTimeError::Other(String::from_str("Local variable slot out of range")));
        }
        let all = self.local_variables.as_slice();
        let slots = &all[start..end];
        let v = T::from_slots(slots);
        assert(words(slots@).take(T::spec_count() as int) =~= self.locals().subrange(
            slot as int,
            slot + T::spec_count(),
        ));
        Ok(v)
    }

    /// Writes `value` into the local variables from `slot` on.
    pub fn set_variable_value<T: LocalVariableValue>(&mut self, slot: u16, value: T) -> (r: Result<
        (),
        RunTimeError,
    >)
        requires
            slot + T::spec_count() <= usize::MAX,
        ensures
            unit_result_view(r) == (if slot + T::spec_count() <= old(self).locals().len() {
                Ok(())
            } else {
                Err(RunTimeErrorView::Other(spec_slot_range_text()))
            }),
            final(self).locals() == (if r is Ok {
                spec_set_locals(old(self).locals(), slot as int, value.spec_words())
            } else {
                old(self).locals()
            }),
            final(self).class == old(self).class,
            final(self).method == old(self).method,
            final(self).operand_stack == old(self).operand_stack,
    {
        let start = slot as usize;
        let end = start + T::slot_count();
        if end > self.local_variables.len() {
            return Err(RunTimeError::Other(String::from_str("Local variable slot out of range")));
        }
        let slots = value.into_slots();
        let ghost before = self.locals();
        let mut k: usize = 0;
        while k < slots.len()
            invariant
                k <= slots.len(),
                slots@.len() == end - start,
                end <= self.local_variables@.len(),
                before.len() == self.local_variables@.len(),
                words(slots@) == value.spec_words(),
                self.class == old(self).class,
                self.method == old(self).method,
                self.operand_stack == old(self).operand_stack,
                self.locals() == before.take(start as int) + words(slots@).take(k as int)
                    + before.skip(start + k),
            decreases slots.len() - k,
        {
            let ghost prev = self.local_variables@;
            self.local_variables.set(start + k, slots[k]);
            proof {
                assert(words(self.local_variables@) =~= words(prev).update(
                    start + k,
                    word(slots@[k as int]),
                ));
                assert(before.take(start as int) + words(slots@).take(k + 1) + before.skip(
                    start + k + 1,
                ) =~= (before.take(start as int) + words(slots@).take(k as int) + before.skip(
                    start + k,
                )).update(start + k, word(slots@[k as int])));
            }
            k = k + 1;
        }
        assert(words(slots@).take(k as int) =~= value.spec_words());
        Ok(())
    }
}

/// Writing a value into the local variables and reading a value of the same type from
/// the same slot gives the value back; every slot outside those written keeps what it
/// held.
pub proof fn law_set_then_get<T: LocalVariableValue>(locals: Seq<u32>, slot: u16, value: T)
    requires
        slot + T::spec_count() <= locals.len(),
    ensures
        spec_get_local::<T>(spec_set_locals(locals, slot as int, value.spec_words()), slot) == Ok::<
            T,
            RunTimeErrorView,
        >(value),
        spec_set_locals(locals, slot as int, value.spec_words()).len() == locals.len(),
        forall|j: int|
            0 <= j < locals.len() && !(slot <= j < slot + T::spec_count()) ==> #[trigger] spec_set_locals(
                locals,
                slot as int,
                value.spec_words(),
            )[j] == locals[j],
{
    value.lemma_round_trip();
    let after = spec_set_locals(locals, slot as int, value.spec_words());
    assert(after.subrange(slot as int, slot + T::spec_count()) =~= value.spec_words());
}

/// One slot holding the word `w`.
fn one_slot(w: u32) -> (r: Vec<VarSlot>)
    ensures
        words(r@) == seq![w],
        r@.len() == 1,
{
    let mut v: Vec<VarSlot> = Vec::new();
    v.push(slot_of(w));
    assert(words(v@) =~= seq![w]);
    v
}

impl LocalVariableValue for bool {
    open spec fn spec_count() -> nat {
        1
    }

    /// `1` for `true`, `0` for `false`.
    open spec fn spec_words(self) -> Seq<u32> {
        seq![if self { 1u32 } else { 0u32 }]
    }

    /// Any word but zero is `true`.
    open spec fn spec_from_words(ws: Seq<u32>) -> bool {
        ws[0] != 0
    }

    fn slot_count() -> (r: usize) {
        1
    }

    fn from_slots(slots: &[VarSlot]) -> (r: bool) {
        word_of(slots[0]) != 0
    }

    fn into_slots(self) -> (r: Vec<VarSlot>) {
        one_slot(if self { 1 } else { 0 })
    }

    proof fn lemma_round_trip(self) {
        law_local_roundtrip_bool(self);
    }
}

impl LocalVariableValue for i8 {
    open spec fn spec_count() -> nat {
        1
    }

    /// Sign-extended to 32 bits.
    open spec fn spec_words(self) -> Seq<u32> {
        seq![(self as i32) as u32]
    }

    /// The low byte of the word.
    open spec fn spec_from_words(ws: Seq<u32>) -> i8 {
        (ws[0] as i32) as i8
    }

    fn slot_count() -> (r: usize) {
        1
    }

    fn from_slots(slots: &[VarSlot]) -> (r: i8) {
        (word_of(slots[0]) as i32) as i8
    }

    fn into_slots(self) -> (r: Vec<VarSlot>) {
        one_slot((self as i32) as u32)
    }

    proof fn lemma_round_trip(self) {
        law_local_roundtrip_i8(self);
    }
}

impl LocalVariableValue for u16 {
    open spec fn spec_count() -> nat {
        1
    }

    /// Zero-extended to 32 bits.
    open spec fn spec_words(self) -> Seq<u32> {
        seq![(self as i32) as u32]
    }

    /// The low 16 bits of the word.
    open spec fn spec_from_words(ws: Seq<u32>) -> u16 {
        (ws[0] as i32) as u16
    }

    fn slot_count() -> (r: usize) {
        1
    }

    fn from_slots(slots: &[VarSlot]) -> (r: u16) {
        (word_of(slots[0]) as i32) as u16
    }

    fn into_slots(self) -> (r: Vec<VarSlot>) {
        one_slot((self as i32) as u32)
    }

    proof fn lemma_round_trip(self) {
        law_local_roundtrip_u16(self);
    }
}

impl LocalVariableValue for i32 {
    open spec fn spec_count() -> nat {
        1
    }

    open spec fn spec_words(self) -> Seq<u32> {
        seq![self as u32]
    }

    open spec fn spec_from_words(ws: Seq<u32>) -> i32 {
        ws[0] as i32
    }

    fn slot_count() -> (r: usize) {
        1
    }

    fn from_slots(slots: &[VarSlot]) -> (r: i32) {
        word_of(slots[0]) as i32
    }

    fn into_slots(self) -> (r: Vec<VarSlot>) {
        one_slot(self as u32)
    }

    proof fn lemma_round_trip(self) {
        law_local_roundtrip_i32(self);
    }
}

impl LocalVariableValue for i64 {
    open spec fn spec_count() -> nat {
        2
    }

    /// The high word, then the low word.
    open spec fn spec_words(self) -> Seq<u32> {
        seq![high_word(self as u64), low_word(self as u64)]
    }

    open spec fn spec_from_words(ws: Seq<u32>) -> i64 {
        join_words(ws[0], ws[1]) as i64
    }

    fn slot_count() -> (r: usize) {
        2
    }

    fn from_slots(slots: &[VarSlot]) -> (r: i64) {
        let hi = word_of(slots[0]) as u64;
        let lo = word_of(slots[1]) as u64;
        (hi << 32 | lo) as i64
    }

    fn into_slots(self) -> (r: Vec<VarSlot>) {
        let v = self as u64;
        let mut out: Vec<VarSlot> = Vec::new();
        out.push(slot_of((v >> 32) as u32));
        out.push(slot_of(v as u32));
        assert(words(out@) =~= seq![high_word(v), low_word(v)]);
        out
    }

    proof fn lemma_round_trip(self) {
        law_local_roundtrip_i64(self);
    }
}

/// Keeping a `bool` in the local variables and reading it back gives it back.
pub proof fn law_local_roundtrip_bool(v: bool)
    ensures
        bool::spec_from_words(v.spec_words()) == v,
{
}

/// Keeping an `i8` in the local variables and reading it back gives it back.
pub proof fn law_local_roundtrip_i8(v: i8)
    ensures
        <i8 as LocalVariableValue>::spec_from_words(LocalVariableValue::spec_words(v)) == v,
{
    assert((((v as i32) as u32) as i32) as i8 == v) by (bit_vector);
}

/// Keeping a `u16` in the local variables and reading it back gives it back.
pub proof fn law_local_roundtrip_u16(v: u16)
    ensures
        u16::spec_from_words(v.spec_words()) == v,
{
    assert((((v as i32) as u32) as i32) as u16 == v) by (bit_vector);
}

/// Keeping an `i32` in the local variables and reading it back gives it back.
pub proof fn law_local_roundtrip_i32(v: i32)
    ensures
        <i32 as LocalVariableValue>::spec_from_words(LocalVariableValue::spec_words(v)) == v,
{
    assert((v as u32) as i32 == v) by (bit_vector);
}

/// Keeping an `i64` in the local variables and reading it back gives it back.
pub proof fn law_local_roundtrip_i64(v: i64)
    ensures
        <i64 as LocalVariableValue>::spec_from_words(LocalVariableValue::spec_words(v)) == v,
{
    assert((((((v as u64) >> 32) as u32) as u64) << 32 | (((v as u64) as u32) as u64)) as i64 == v)
        by (bit_vector);
}

/// The call stack of a thread: its frames, the program counter of the running frame
/// and the saved return addresses.
pub struct Stack {
    frames: Vec<StackFrame>,
    program_counter: usize,
    return_addresses: Vec<usize>,
}

impl Stack {
    /// The frames, the running one last.
    pub closed spec fn frames(&self) -> Seq<StackFrame> {
        self.frames@
    }

    /// The program counter.
    pub closed spec fn pc(&self) -> usize {
        self.program_counter
    }

    /// The saved return addresses, the latest last.
    pub closed spec fn return_addresses(&self) -> Seq<usize> {
        self.return_addresses@
    }

    /// An empty stack with the program counter at 0.
    pub fn new() -> (r: Self)
        ensures
            r.frames() == Seq::<StackFrame>::empty(),
            r.pc() == 0,
            r.return_addresses() == Seq::<usize>::empty(),
    {
        Self { frames: Vec::new(), program_counter: 0, return_addresses: Vec::new() }
    }

    /// Puts `frame` on top.
    pub fn push_frame(&mut self, frame: StackFrame)
        ensures
            final(self).frames() == old(self).frames().push(frame),
            final(self).pc() == old(self).pc(),
            final(self).return_addresses() == old(self).return_addresses(),
    {
        self.frames.push(frame);
    }

    /// Takes the top frame off, if there is one.
    pub fn pop_frame(&mut self) -> (r: Option<StackFrame>)
        ensures
            old(self).frames().len() == 0 ==> r is None && final(self).frames() == old(
                self,
            ).frames(),
            old(self).frames().len() > 0 ==> r == Some(old(self).frames().last())
                && final(self).frames() == old(self).frames().drop_last(),
            final(self).pc() == old(self).pc(),
            final(self).return_addresses() == old(self).return_addresses(),
    {
        self.frames.pop()
    }

    /// Saves a return address.
    pub fn push_return_address(&mut self, addr: usize)
        ensures
            final(self).return_addresses() == old(self).return_addresses().push(addr),
            final(self).frames() == old(self).frames(),
            final(self).pc() == old(self).pc(),
    {
        self.return_addresses.push(addr);
    }

    /// Takes the latest saved return address, if there is one.
    pub fn pop_return_address(&mut self) -> (r: Option<usize>)
        ensures
            old(self).return_addresses().len() == 0 ==> r is None && final(self).return_addresses()
                == old(self).return_addresses(),
            old(self).return_addresses().len() > 0 ==> r == Some(
                old(self).return_addresses().last(),
            ) && final(self).return_addresses() == old(self).return_addresses().drop_last(),
            final(self).frames() == old(self).frames(),
            final(self).pc() == old(self).pc(),
    {
        self.return_addresses.pop()
    }

    /// The running frame, if there is one.
    pub fn top_frame(&self) -> (r: Option<&StackFrame>)
        ensures
            self.frames().len() == 0 ==> r is None,
            self.frames().len() > 0 ==> r == Some(&self.frames().last()),
    {
        if self.frames.len() == 0 {
            return None;
        }
        Some(&self.frames[self.frames.len() - 1])
    }

    /// The program counter.
    pub fn program_counter(&self) -> (r: usize)
        ensures
            r == self.pc(),
    {
        self.program_counter
    }

    /// The program counter.
    pub fn get_pc(&self) -> (r: usize)
        ensures
            r == self.pc(),
    {
        self.program_counter
    }

    /// Sets the program counter to `pc`.
    pub fn set_pc(&mut self, pc: usize)
        ensures
            final(self).pc() == pc,
            final(self).frames() == old(self).frames(),
            final(self).return_addresses() == old(self).return_addresses(),
    {
        self.program_counter = pc;
    }

    /// Moves the program counter on by one.
    pub fn move_pc_next(&mut self)
        ensures
            final(self).pc() == vstd::wrapping::usize_specs::wrapping_add(old(self).pc(), 1),
            final(self).frames() == old(self).frames(),
            final(self).return_addresses() == old(self).return_addresses(),
    {
        self.increase_pc(1);
    }

    /// Moves the program counter on by `delta`, wrapping around at the end of `usize`.
    pub fn increase_pc(&mut self, delta: usize)
        ensures
            final(self).pc() == vstd::wrapping::usize_specs::wrapping_add(old(self).pc(), delta),
            final(self).frames() == old(self).frames(),
            final(self).return_addresses() == old(self).return_addresses(),
    {
        self.program_counter = self.program_counter.wrapping_add(delta);
    }

    /// Moves the program counter back by `delta`, wrapping around at 0.
    pub fn decrease_pc(&mut self, delta: usize)
        ensures
            final(self).pc() == vstd::wrapping::usize_specs::wrapping_sub(old(self).pc(), delta),
            final(self).frames() == old(self).frames(),
            final(self).return_addresses() == old(self).return_addresses(),
    {
        self.program_counter = self.program_counter.wrapping_sub(delta);
    }

    /// Sets the program counter to `addr`.
    pub fn jump_pc(&mut self, addr: usize)
        ensures
            final(self).pc() == addr,
            final(self).frames() == old(self).frames(),
            final(self).return_addresses() == old(self).return_addresses(),
    {
        self.program_counter = addr;
    }
}

/// Moving the program counter on by `delta` and back by `delta` leaves it where it was,
/// also where it wraps around.
pub proof fn law_increase_then_decrease(pc: usize, delta: usize)
    ensures
        vstd::wrapping::usize_specs::wrapping_sub(
            vstd::wrapping::usize_specs::wrapping_add(pc, delta),
            delta,
        ) == pc,
{
}

/// Moving the program counter back by `delta` and on by `delta` leaves it where it was.
pub proof fn law_decrease_then_increase(pc: usize, delta: usize)
    ensures
        vstd::wrapping::usize_specs::wrapping_add(
            vstd::wrapping::usize_specs::wrapping_sub(pc, delta),
            delta,
        ) == pc,
{
}

/// A frame pushed and then popped comes back, and the frames are as they were.
pub proof fn law_frame_push_pop(frames: Seq<StackFrame>, frame: StackFrame)
    ensures
        frames.push(frame).len() > 0,
        frames.push(frame).last() == frame,
        frames.push(frame).drop_last() == frames,
{
    assert(frames.push(frame).drop_last() =~= frames);
}

/// A return address saved and then taken comes back, and the saved addresses are as
/// they were.
pub proof fn law_return_address_push_pop(addresses: Seq<usize>, addr: usize)
    ensures
        addresses.push(addr).len() > 0,
        addresses.push(addr).last() == addr,
        addresses.push(addr).drop_last() == addresses,
{
    assert(addresses.push(addr).drop_last() =~= addresses);
}

} // verus!
