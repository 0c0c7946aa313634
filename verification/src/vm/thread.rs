use crate::loader::java_class::{ConstantPoolInfo, ConstantPoolTag};
use crate::loader::reader::{decimal_string, spec_decimal};
use crate::vm::byte_code::{
    bytes_to_short, parse_op_at, spec_decode, spec_mnemonic, spec_opcode, spec_operand_len, spec_parse_op_at,
    spec_short, Instruction, Op, OpView,
};
use crate::vm::class::{spec_identifier, ClassPtr, FieldPtr, MethodPtr, MethodReference};
use crate::vm::errors::{RunTimeError, RunTimeErrorView};
use crate::vm::method_area::{
    ref_parts, spec_params, spec_register_fields, spec_register_methods, spec_unresolved_text,
    MethodArea,
};
use crate::vm::operand_stack::kept_after_pop;
use crate::vm::reference_manager::{spec_after, EntryView, ReferenceManager};
use crate::vm::stack::{spec_set_locals, spec_slot_range_text, LocalVariableValue, Stack, StackFrame};
use crate::vm::{class_name_from_identifier, spec_class_part};
use std::rc::Rc;
use vstd::prelude::*;
use vstd::string::StringExecFns;

verus! {

/// The state of a frame: the class and method it runs, the words on its operand stack
/// and the words of its local variables.
pub struct FrameState {
    pub class: ClassPtr,
    pub method: MethodPtr,
    pub operands: Seq<u32>,
    pub locals: Seq<u32>,
}

/// The state of a frame.
pub open spec fn frame_state(f: StackFrame) -> FrameState {
    FrameState {
        class: f.class,
        method: f.method,
        operands: f.operand_stack@,
        locals: f.locals(),
    }
}

/// The state of a thread: its frames (the running one last), its program counter, its
/// saved return addresses, what its method area holds and what its references stand for.
pub struct ThreadState {
    pub frames: Seq<FrameState>,
    pub pc: usize,
    pub return_addresses: Seq<usize>,
    pub classes: Map<Seq<char>, ClassPtr>,
    pub methods: Map<Seq<char>, (MethodPtr, ClassPtr)>,
    pub fields: Map<Seq<char>, FieldPtr>,
    pub refs: Map<u32, EntryView>,
    pub next_ref: u32,
}

/// The state `s` with its running frame replaced by `f`.
pub open spec fn with_top(s: ThreadState, f: FrameState) -> ThreadState {
    ThreadState { frames: s.frames.update(s.frames.len() - 1, f), ..s }
}

/// The state `s` with the operand stack of its running frame replaced by `ops`.
pub open spec fn with_operands(s: ThreadState, ops: Seq<u32>) -> ThreadState {
    with_top(s, FrameState { operands: ops, ..s.frames.last() })
}

/// The state `s` with the word `w` pushed onto the operand stack of its running frame.
pub open spec fn push_word(s: ThreadState, w: u32) -> ThreadState {
    with_operands(s, s.frames.last().operands.push(w))
}

/// What running one instruction does.
pub enum OpEffect {
    /// It ran; the thread is now in this state.
    Done(ThreadState),
    /// It calls this method, from this state.
    Invoke(ThreadState, (MethodPtr, ClassPtr)),
    /// It needs the class of this name, which is not loaded; nothing changed.
    NeedClass(Seq<char>),
    /// It failed with this error, leaving the thread in this state.
    Fail(ThreadState, RunTimeErrorView),
    /// It cannot run: the interpreter stops (a constant-pool index outside the pool).
    Stuck,
}

/// The error for a pop from an operand stack without enough slots.
pub open spec fn underflow() -> RunTimeErrorView {
    RunTimeErrorView::Other("Operand stack underflow"@)
}

/// The error for a constant-pool entry of an unexpected kind.
pub open spec fn unexpected_tag() -> RunTimeErrorView {
    RunTimeErrorView::Other("Unexpected tag"@)
}

/// The error for a constant-pool reference that does not resolve.
pub open spec fn ref_failure(index: u16) -> RunTimeErrorView {
    RunTimeErrorView::ResolveMethodError(
        "Failed to resolve constant pool ref "@ + spec_decimal(index as nat),
    )
}

/// The constant-pool index that the operands of `op` name.
pub open spec fn spec_cp_index(op: OpView) -> u16 {
    spec_short(op.args) as u16
}

/// Where a taken branch sets the program counter: the branch offset from the
/// instruction, less the instruction's own length (which the interpreter adds after).
pub open spec fn spec_branch_pc(op: OpView) -> usize {
    (op.index + spec_short(op.args) - (1 + op.args.len())) as usize
}

/// The test of a two-operand conditional branch on the values `v1` and `v2`.
pub open spec fn spec_compare2(i: Instruction, v1: i32, v2: i32) -> bool {
    match i {
        Instruction::IfIcmpeq => v1 == v2,
        Instruction::IfIcmpne => v1 != v2,
        Instruction::IfIcmplt => v1 < v2,
        Instruction::IfIcmpge => v1 >= v2,
        Instruction::IfIcmpgt => v1 > v2,
        Instruction::IfIcmple => v1 <= v2,
        _ => false,
    }
}

/// The test of a one-operand conditional branch on the value `v`.
pub open spec fn spec_compare0(i: Instruction, v: i32) -> bool {
    match i {
        Instruction::IfEq => v == 0,
        Instruction::IfNe => v != 0,
        Instruction::IfLt => v < 0,
        Instruction::IfGe => v >= 0,
        Instruction::IfGt => v > 0,
        Instruction::IfLe => v <= 0,
        _ => false,
    }
}

/// `if_icmp<cond>`: pops two ints and branches when the test holds.
pub open spec fn spec_if_pair(s: ThreadState, op: OpView) -> OpEffect {
    let ops = s.frames.last().operands;
    if ops.len() == 0 {
        OpEffect::Fail(s, underflow())
    } else if ops.len() == 1 {
        OpEffect::Fail(with_operands(s, Seq::empty()), underflow())
    } else {
        let v2 = ops.last() as i32;
        let v1 = ops[ops.len() - 2] as i32;
        let s2 = with_operands(s, ops.take(ops.len() - 2));
        if spec_compare2(op.instruction, v1, v2) {
            OpEffect::Done(ThreadState { pc: spec_branch_pc(op), ..s2 })
        } else {
            OpEffect::Done(s2)
        }
    }
}

/// `if<cond>`: pops an int and branches when the test holds.
pub open spec fn spec_if(s: ThreadState, op: OpView) -> OpEffect {
    let ops = s.frames.last().operands;
    if ops.len() == 0 {
        OpEffect::Fail(s, underflow())
    } else {
        let v = ops.last() as i32;
        let s2 = with_operands(s, ops.drop_last());
        if spec_compare0(op.instruction, v) {
            OpEffect::Done(ThreadState { pc: spec_branch_pc(op), ..s2 })
        } else {
            OpEffect::Done(s2)
        }
    }
}

/// `iadd`: pops two ints and pushes their sum, wrapping around as `int` arithmetic does.
pub open spec fn spec_iadd(s: ThreadState) -> OpEffect {
    let ops = s.frames.last().operands;
    if ops.len() == 0 {
        OpEffect::Fail(s, underflow())
    } else if ops.len() == 1 {
        OpEffect::Fail(with_operands(s, Seq::empty()), underflow())
    } else {
        let v2 = ops.last() as i32;
        let v1 = ops[ops.len() - 2] as i32;
        OpEffect::Done(
            with_operands(
                s,
                ops.take(ops.len() - 2).push(
                    vstd::wrapping::i32_specs::wrapping_add(v1, v2) as u32,
                ),
            ),
        )
    }
}

/// `iload`: pushes the int in local variable `slot`.
pub open spec fn spec_load_local(s: ThreadState, slot: u16) -> OpEffect {
    let f = s.frames.last();
    if slot + 1 <= f.locals.len() {
        OpEffect::Done(push_word(s, f.locals[slot as int]))
    } else {
        OpEffect::Fail(s, RunTimeErrorView::Other(spec_slot_range_text()))
    }
}

/// `invokestatic`: calls the method that a `Methodref` entry names, unless a method of
/// the running class is keyed by that index.
pub open spec fn spec_invokestatic(s: ThreadState, op: OpView) -> OpEffect {
    let f = s.frames.last();
    let cp = f.class@.constant_pool;
    let index = spec_cp_index(op);
    if !(1 <= index <= cp.len()) {
        OpEffect::Stuck
    } else if cp[index - 1].tag != ConstantPoolTag::Methodref {
        OpEffect::Fail(s, unexpected_tag())
    } else if f.class@.method_by_index.contains_key(index) {
        OpEffect::Done(s)
    } else {
        match spec_identifier(cp, index) {
            None => OpEffect::Fail(s, ref_failure(index)),
            Some(id) => {
                let loaded = match spec_class_part(id) {
                    Some(c) => s.classes.contains_key(c),
                    None => true,
                };
                if !loaded {
                    OpEffect::NeedClass(spec_class_part(id)->0)
                } else if s.methods.contains_key(id) {
                    OpEffect::Invoke(s, s.methods[id])
                } else {
                    OpEffect::Fail(
                        s,
                        RunTimeErrorView::ResolveMethodError(spec_unresolved_text(id)),
                    )
                }
            },
        }
    }
}

/// `getstatic`: resolves the field that a `Fieldref` entry names (registering the
/// members of its class the first time) and pushes a new reference that stands for it.
pub open spec fn spec_getstatic(s: ThreadState, op: OpView) -> OpEffect {
    let f = s.frames.last();
    let cp = f.class@.constant_pool;
    let index = spec_cp_index(op);
    if !(1 <= index <= cp.len()) {
        OpEffect::Stuck
    } else if cp[index - 1].tag != ConstantPoolTag::Fieldref {
        OpEffect::Fail(s, unexpected_tag())
    } else {
        match spec_identifier(cp, index) {
            None => OpEffect::Fail(s, ref_failure(index)),
            Some(id) => match spec_class_part(id) {
                None => OpEffect::Fail(
                    s,
                    RunTimeErrorView::Other("Invalid field identifier "@ + id),
                ),
                Some(c) => if !s.classes.contains_key(c) {
                    OpEffect::NeedClass(c)
                } else {
                    let class = s.classes[c];
                    let s2 = if s.fields.contains_key(id) {
                        s
                    } else {
                        ThreadState {
                            methods: spec_register_methods(
                                s.methods,
                                c,
                                class,
                                class.methods@.len(),
                            ),
                            fields: spec_register_fields(s.fields, c, class, class.fields@.len()),
                            ..s
                        }
                    };
                    if s2.fields.contains_key(id) {
                        let r = s2.next_ref;
                        OpEffect::Done(
                            push_word(
                                ThreadState {
                                    refs: s2.refs.insert(r, EntryView::Symbolic(id)),
                                    next_ref: spec_after(r),
                                    ..s2
                                },
                                r,
                            ),
                        )
                    } else {
                        OpEffect::Fail(
                            s2,
                            RunTimeErrorView::Other("Field "@ + id + " not found"@),
                        )
                    }
                },
            },
        }
    }
}

/// The word that `sipush` pushes: its operand, sign-extended.
pub open spec fn short_word(op: OpView) -> u32 {
    (spec_short(op.args) as i32) as u32
}

/// The word that `bipush` pushes: its operand byte, sign-extended.
pub open spec fn byte_word(op: OpView) -> u32 {
    ((op.args[0] as i8) as i32) as u32
}

/// The local variable that `iload` names in its operand.
pub open spec fn operand_slot(op: OpView) -> u16 {
    op.args[0] as u16
}

/// The local variable that `iload_<n>` names in its opcode.
pub open spec fn implied_slot(op: OpView) -> u16 {
    (spec_opcode(op.instruction) - spec_opcode(Instruction::Iload0)) as u16
}

/// What running the decoded instruction `op` does to the thread in state `s`, whose
/// running frame holds the code.
pub open spec fn spec_run_op(s: ThreadState, op: OpView) -> OpEffect {
    match op.instruction {
        Instruction::Sipush => OpEffect::Done(push_word(s, short_word(op))),
        Instruction::Bipush => OpEffect::Done(push_word(s, byte_word(op))),
        Instruction::Invokestatic => spec_invokestatic(s, op),
        Instruction::Iadd => spec_iadd(s),
        Instruction::Invokedynamic | Instruction::Invokevirtual
        | Instruction::Pop | Instruction::Return | Instruction::Astore0 | Instruction::Astore1
        | Instruction::Astore2 | Instruction::Astore3 | Instruction::Iconst0
        | Instruction::Iconst1 | Instruction::Iconst2 | Instruction::Iconst3
        | Instruction::Aload0 | Instruction::Aload1 | Instruction::Aload2
        | Instruction::Aload3 => OpEffect::Done(s),
        Instruction::IfIcmpeq | Instruction::IfIcmpne | Instruction::IfIcmplt
        | Instruction::IfIcmpge | Instruction::IfIcmpgt | Instruction::IfIcmple => spec_if_pair(
            s,
            op,
        ),
        Instruction::IfEq | Instruction::IfNe | Instruction::IfLt | Instruction::IfGe
        | Instruction::IfGt | Instruction::IfLe => spec_if(s, op),
        Instruction::Iload => spec_load_local(s, operand_slot(op)),
        Instruction::Iload0 | Instruction::Iload1 | Instruction::Iload2
        | Instruction::Iload3 => spec_load_local(s, implied_slot(op)),
        Instruction::Getstatic => spec_getstatic(s, op),
        _ => OpEffect::Fail(
            s,
            RunTimeErrorView::Notimplemented("Instruction "@ + spec_mnemonic(op.instruction)),
        ),
    }
}

/// The number of slots a parameter of type `p` takes: two for `long` and `double`.
pub open spec fn spec_width(p: Seq<char>) -> nat {
    if p == "J"@ || p == "D"@ {
        2
    } else {
        1
    }
}

/// The slot widths of the parameter types `params`.
pub open spec fn spec_widths(params: Seq<Seq<char>>) -> Seq<nat> {
    params.map_values(|p: Seq<char>| spec_width(p))
}

/// The first slot of parameter `k`: the widths before it added up.
pub open spec fn spec_start(widths: Seq<nat>, k: int) -> nat
    decreases k,
{
    if k <= 0 || k > widths.len() {
        0
    } else {
        spec_start(widths, k - 1) + widths[k - 1]
    }
}

/// Moves the first `k` parameters, the last first, from the caller's operand stack
/// `ops` into the callee's local variables `locals`: the new operand stack and local
/// variables, or the operand stack when it fails, with the error.
pub open spec fn spec_transfer(widths: Seq<nat>, k: nat, ops: Seq<u32>, locals: Seq<u32>) -> Result<
    (Seq<u32>, Seq<u32>),
    (Seq<u32>, RunTimeErrorView),
>
    decreases k,
{
    if k == 0 || k > widths.len() {
        Ok((ops, locals))
    } else {
        let w = widths[k - 1];
        if ops.len() < w {
            Err((ops.take(kept_after_pop(ops.len(), w) as int), underflow()))
        } else {
            let vals = ops.skip(ops.len() - w);
            let rest = ops.take(ops.len() - w);
            let slot = spec_start(widths, k - 1) as u16;
            if slot + w > locals.len() {
                Err((rest, RunTimeErrorView::Other(spec_slot_range_text())))
            } else {
                spec_transfer(
                    widths,
                    (k - 1) as nat,
                    rest,
                    spec_set_locals(locals, slot as int, vals),
                )
            }
        }
    }
}

/// What calling `m` from the thread in state `s` does: the caller's arguments move into
/// the new frame's local variables, the program counter is saved and reset, and the new
/// frame runs; or the error, with the state it leaves.
pub open spec fn spec_push_frame(s: ThreadState, m: (MethodPtr, ClassPtr)) -> Result<
    ThreadState,
    (ThreadState, RunTimeErrorView),
> {
    if s.frames.len() == 0 {
        Err((s, RunTimeErrorView::Other("No current frame"@)))
    } else {
        let widths = spec_widths(spec_params(m.0.descriptor@));
        let zeros = Seq::new(m.0.max_locals as nat, |i: int| 0u32);
        match spec_transfer(widths, widths.len(), s.frames.last().operands, zeros) {
            Err((ops, e)) => Err((with_operands(s, ops), e)),
            Ok((ops, locals)) => {
                let s2 = with_operands(s, ops);
                Ok(
                    ThreadState {
                        frames: s2.frames.push(
                            FrameState {
                                class: m.1,
                                method: m.0,
                                operands: Seq::empty(),
                                locals,
                            },
                        ),
                        pc: 0,
                        return_addresses: s2.return_addresses.push(s.pc),
                        ..s2
                    },
                )
            },
        }
    }
}

/// The state after a frame for a call of `m` is put on the stack of the thread in
/// state `s`: no operands, zeroed local variables.
pub open spec fn spec_invoke(s: ThreadState, m: (MethodPtr, ClassPtr)) -> ThreadState {
    ThreadState {
        frames: s.frames.push(
            FrameState {
                class: m.1,
                method: m.0,
                operands: Seq::empty(),
                locals: Seq::new(m.0.max_locals as nat, |i: int| 0u32),
            },
        ),
        ..s
    }
}

/// What one step of the thread does.
pub enum StepEffect {
    /// It ran one instruction; the thread is now in this state.
    Continue(ThreadState),
    /// It needs the class of this name, which is not loaded; nothing changed.
    NeedClass(Seq<char>),
    /// It failed with this error, leaving the thread in this state.
    Fail(ThreadState, RunTimeErrorView),
    /// It cannot run (see [`OpEffect::Stuck`]).
    Stuck,
    /// The running method's code has ended: the thread is done; nothing changed.
    Finished,
}

/// One step of the thread in state `s`: decode the instruction at the program counter
/// in the running method, run it, then move past it, or enter the method it calls; where
/// the program counter stands at the end of the running method's code, the thread has
/// finished.
pub open spec fn spec_step(s: ThreadState) -> StepEffect {
    if s.frames.len() == 0 {
        StepEffect::Fail(s, RunTimeErrorView::Other("Stack is empty"@))
    } else if s.pc == s.frames.last().method.code@.len() {
        StepEffect::Finished
    } else {
        match spec_parse_op_at(s.frames.last().method.code@, s.pc as int) {
            Err(e) => StepEffect::Fail(s, e),
            Ok((op, n)) => match spec_run_op(s, op) {
                OpEffect::Done(s2) => StepEffect::Continue(
                    ThreadState {
                        pc: vstd::wrapping::usize_specs::wrapping_add(s2.pc, (n + 1) as usize),
                        ..s2
                    },
                ),
                OpEffect::Invoke(s2, m) => match spec_push_frame(s2, m) {
                    Ok(s3) => StepEffect::Continue(s3),
                    Err((s3, e)) => StepEffect::Fail(s3, e),
                },
                OpEffect::NeedClass(c) => StepEffect::NeedClass(c),
                OpEffect::Fail(s2, e) => StepEffect::Fail(s2, e),
                OpEffect::Stuck => StepEffect::Stuck,
            },
        }
    }
}

/// A thread of the interpreter: its call stack, the method area it resolves classes,
/// methods and fields in, and the references it hands out.
pub struct Thread {
    pub stack: Stack,
    pub method_area: MethodArea,
    pub reference_manager: ReferenceManager,
}

/// The states of the frames `fs`.
pub open spec fn frame_states(fs: Seq<StackFrame>) -> Seq<FrameState> {
    fs.map_values(|f: StackFrame| frame_state(f))
}

impl View for Thread {
    type V = ThreadState;

    open spec fn view(&self) -> ThreadState {
        ThreadState {
            frames: frame_states(self.stack.frames()),
            pc: self.stack.pc(),
            return_addresses: self.stack.return_addresses(),
            classes: self.method_area.classes(),
            methods: self.method_area.methods(),
            fields: self.method_area.fields(),
            refs: self.reference_manager@,
            next_ref: self.reference_manager.spec_next(),
        }
    }
}

/// The state of the thread `t` with the frame `f` on top of its stack.
pub open spec fn joined(t: Thread, f: StackFrame) -> ThreadState {
    ThreadState { frames: t@.frames.push(frame_state(f)), ..t@ }
}

/// What an instruction asks of the step that ran it.
enum RunResult {
    Invoke(MethodReference),
    NeedClass(String),
}

/// How a step ended.
pub enum Step {
    /// The instruction ran; the thread can go on.
    Continue,
    /// The instruction needs the class of this name: load it into the method area and
    /// step again.
    NeedClass(String),
    /// The running method's code has ended: the thread is done.
    Finished,
}

/// Why a step did not end.
#[derive(Debug)]
pub enum Fault {
    /// The step failed with this error.
    Error(RunTimeError),
    /// The step cannot run (a constant-pool index outside the pool).
    Stuck,
}

/// `r` is what the effect `e` of an instruction says, the thread going from `before` to
/// `after`.
spec fn op_agrees(before: ThreadState, e: OpEffect, r: Result<Option<RunResult>, Fault>, after: ThreadState) -> bool {
    match e {
        OpEffect::Done(s2) => r matches Ok(None) && after == s2,
        OpEffect::Invoke(s2, m) => r matches Ok(Some(RunResult::Invoke(mr))) && ref_parts(mr) == m
            && after == s2,
        OpEffect::NeedClass(c) => r matches Ok(Some(RunResult::NeedClass(n))) && n@ == c && after
            == before,
        OpEffect::Fail(s2, ev) => r matches Err(Fault::Error(err)) && err@ == ev && after == s2,
        OpEffect::Stuck => r matches Err(Fault::Stuck),
    }
}

/// `r` is what the effect `e` of a step says, the thread going from `before` to `after`.
pub open spec fn step_agrees(before: ThreadState, e: StepEffect, r: Result<Step, Fault>, after: ThreadState) -> bool {
    match e {
        StepEffect::Continue(s2) => r matches Ok(Step::Continue) && after == s2,
        StepEffect::NeedClass(c) => r matches Ok(Step::NeedClass(n)) && n@ == c && after == before,
        StepEffect::Fail(s2, ev) => r matches Err(Fault::Error(err)) && err@ == ev && after == s2,
        StepEffect::Stuck => r matches Err(Fault::Stuck),
        StepEffect::Finished => r matches Ok(Step::Finished) && after == before,
    }
}

proof fn lemma_frames_push(fs: Seq<StackFrame>, f: StackFrame)
    ensures
        frame_states(fs.push(f)) == frame_states(fs).push(frame_state(f)),
{
    assert(frame_states(fs.push(f)) =~= frame_states(fs).push(frame_state(f)));
}

proof fn lemma_frames_drop_last(fs: Seq<StackFrame>)
    requires
        fs.len() > 0,
    ensures
        frame_states(fs.drop_last()).push(frame_state(fs.last())) == frame_states(fs),
{
    assert(frame_states(fs.drop_last()).push(frame_state(fs.last())) =~= frame_states(fs));
}

proof fn lemma_joined_top(t: Thread, f: StackFrame, g: StackFrame)
    ensures
        joined(t, g) == with_top(joined(t, f), frame_state(g)),
{
    assert(joined(t, g).frames =~= with_top(joined(t, f), frame_state(g)).frames);
}

/// The test of a two-operand conditional branch.
fn compare_pair(i: Instruction, v1: i32, v2: i32) -> (r: bool)
    ensures
        r == spec_compare2(i, v1, v2),
{
    match i {
        Instruction::IfIcmpeq => v1 == v2,
        Instruction::IfIcmpne => v1 != v2,
        Instruction::IfIcmplt => v1 < v2,
        Instruction::IfIcmpge => v1 >= v2,
        Instruction::IfIcmpgt => v1 > v2,
        Instruction::IfIcmple => v1 <= v2,
        _ => false,
    }
}

/// The test of a one-operand conditional branch.
fn compare_zero(i: Instruction, v: i32) -> (r: bool)
    ensures
        r == spec_compare0(i, v),
{
    match i {
        Instruction::IfEq => v == 0,
        Instruction::IfNe => v != 0,
        Instruction::IfLt => v < 0,
        Instruction::IfGe => v >= 0,
        Instruction::IfGt => v > 0,
        Instruction::IfLe => v <= 0,
        _ => false,
    }
}

/// Where a taken branch sets the program counter.
fn branch_pc(op: &Op) -> (r: usize)
    requires
        op@.args.len() == 2,
    ensures
        r == spec_branch_pc(op@),
{
    let offset = bytes_to_short(op.args);
    let target: i128 = (op.index as i128) + (offset as i128) - ((1 + op.args.len()) as i128);
    target as usize
}

/// The message for a constant-pool reference that does not resolve.
fn ref_failure_error(index: u16) -> (r: RunTimeError)
    ensures
        r@ == ref_failure(index),
{
    let mut text = String::from_str("Failed to resolve constant pool ref ");
    let digits = decimal_string(index as u64);
    text.append(digits.as_str());
    RunTimeError::ResolveMethodError(text)
}

/// An error with a fixed message.
fn other_error(text: &str) -> (r: RunTimeError)
    ensures
        r@ == RunTimeErrorView::Other(text@),
{
    RunTimeError::Other(String::from_str(text))
}

impl Thread {
    /// The method area and the reference manager are well formed.
    pub open spec fn wf(&self) -> bool {
        self.method_area.wf() && self.reference_manager.wf()
    }

    /// Pops two ints and, where the test of `op` holds, sets the program counter for
    /// the branch.
    fn exec_if_pair(&mut self, frame: &mut StackFrame, op: &Op) -> (r: Result<Option<RunResult>, Fault>)
        requires
            op@.args.len() == 2,
        ensures
            final(self).method_area == old(self).method_area,
            final(self).reference_manager == old(self).reference_manager,
            op_agrees(
                joined(*old(self), *old(frame)),
                spec_if_pair(joined(*old(self), *old(frame)), op@),
                r,
                joined(*final(self), *final(frame)),
            ),
    {
        let ghost f0 = *frame;
        let v2: i32 = match frame.operand_stack.pop() {
            Some(v) => v,
            None => {
                proof {
                    assert(frame.operand_stack@ =~= f0.operand_stack@);
                    assert(frame_state(*frame) == frame_state(f0));
                }
                return Err(Fault::Error(other_error("Operand stack underflow")));
            },
        };
        let v1: i32 = match frame.operand_stack.pop() {
            Some(v) => v,
            None => {
                proof {
                    lemma_joined_top(*self, f0, *frame);
                    assert(frame.operand_stack@ =~= Seq::<u32>::empty());
                }
                return Err(Fault::Error(other_error("Operand stack underflow")));
            },
        };
        proof {
            lemma_joined_top(*self, f0, *frame);
            let ops = f0.operand_stack@;
            assert(ops.skip(ops.len() - 1) =~= seq![ops.last()]);
            assert(ops.drop_last().skip(ops.len() - 2) =~= seq![ops[ops.len() - 2]]);
            assert(ops.drop_last().take(ops.len() - 2) =~= ops.take(ops.len() - 2));
        }
        if compare_pair(op.instruction, v1, v2) {
            let new_pc = branch_pc(op);
            self.stack.set_pc(new_pc);
        }
        Ok(None)
    }

    /// Pops two ints and pushes their sum, wrapping around.
    fn exec_iadd(&mut self, frame: &mut StackFrame) -> (r: Result<Option<RunResult>, Fault>)
        ensures
            final(self).method_area == old(self).method_area,
            final(self).reference_manager == old(self).reference_manager,
            final(self).stack == old(self).stack,
            op_agrees(
                joined(*old(self), *old(frame)),
                spec_iadd(joined(*old(self), *old(frame))),
                r,
                joined(*final(self), *final(frame)),
            ),
    {
        let ghost f0 = *frame;
        let v2: i32 = match frame.operand_stack.pop() {
            Some(v) => v,
            None => {
                proof {
                    assert(frame.operand_stack@ =~= f0.operand_stack@);
                    assert(frame_state(*frame) == frame_state(f0));
                }
                return Err(Fault::Error(other_error("Operand stack underflow")));
            },
        };
        let v1: i32 = match frame.operand_stack.pop() {
            Some(v) => v,
            None => {
                proof {
                    lemma_joined_top(*self, f0, *frame);
                    assert(frame.operand_stack@ =~= Seq::<u32>::empty());
                }
                return Err(Fault::Error(other_error("Operand stack underflow")));
            },
        };
        let sum = v1.wrapping_add(v2);
        frame.operand_stack.push(sum);
        proof {
            lemma_joined_top(*self, f0, *frame);
            let ops = f0.operand_stack@;
            assert(ops.skip(ops.len() - 1) =~= seq![ops.last()]);
            assert(ops.drop_last().skip(ops.len() - 2) =~= seq![ops[ops.len() - 2]]);
            assert(ops.drop_last().take(ops.len() - 2) =~= ops.take(ops.len() - 2));
            assert(frame.operand_stack@ =~= ops.take(ops.len() - 2).push(sum as u32));
        }
        Ok(None)
    }

    /// Pops an int and, where the test of `op` holds, sets the program counter for the
    /// branch.
    fn exec_if_zero(&mut self, frame: &mut StackFrame, op: &Op) -> (r: Result<Option<RunResult>, Fault>)
        requires
            op@.args.len() == 2,
        ensures
            final(self).method_area == old(self).method_area,
            final(self).reference_manager == old(self).reference_manager,
            op_agrees(
                joined(*old(self), *old(frame)),
                spec_if(joined(*old(self), *old(frame)), op@),
                r,
                joined(*final(self), *final(frame)),
            ),
    {
        let ghost f0 = *frame;
        let v: i32 = match frame.operand_stack.pop() {
            Some(v) => v,
            None => {
                proof {
                    assert(frame.operand_stack@ =~= f0.operand_stack@);
                    assert(frame_state(*frame) == frame_state(f0));
                }
                return Err(Fault::Error(other_error("Operand stack underflow")));
            },
        };
        proof {
            lemma_joined_top(*self, f0, *frame);
            let ops = f0.operand_stack@;
            assert(ops.skip(ops.len() - 1) =~= seq![ops.last()]);
            assert(ops.take(ops.len() - 1) =~= ops.drop_last());
        }
        if compare_zero(op.instruction, v) {
            let new_pc = branch_pc(op);
            self.stack.set_pc(new_pc);
        }
        Ok(None)
    }

    /// Pushes the int in local variable `slot`.
    fn exec_load_local(&mut self, frame: &mut StackFrame, slot: u16) -> (r: Result<Option<RunResult>, Fault>)
        ensures
            final(self).method_area == old(self).method_area,
            final(self).reference_manager == old(self).reference_manager,
            op_agrees(
                joined(*old(self), *old(frame)),
                spec_load_local(joined(*old(self), *old(frame)), slot),
                r,
                joined(*final(self), *final(frame)),
            ),
    {
        let ghost f0 = *frame;
        let val: i32 = match frame.get_variable_value(slot) {
            Ok(v) => v,
            Err(e) => {
                return Err(Fault::Error(e));
            },
        };
        frame.operand_stack.push(val);
        proof {
            lemma_joined_top(*self, f0, *frame);
            let w = f0.locals()[slot as int];
            assert(f0.locals().subrange(slot as int, slot + 1)[0] == w);
            assert((w as i32) as u32 == w) by (bit_vector);
            assert(frame.operand_stack@ =~= f0.operand_stack@.push(w));
        }
        Ok(None)
    }

    /// Pushes the operand byte of `bipush`, sign-extended.
    fn exec_push_byte(&mut self, frame: &mut StackFrame, op: &Op) -> (r: Result<Option<RunResult>, Fault>)
        requires
            op@.args.len() == 1,
        ensures
            final(self).method_area == old(self).method_area,
            final(self).reference_manager == old(self).reference_manager,
            op_agrees(
                joined(*old(self), *old(frame)),
                OpEffect::Done(push_word(joined(*old(self), *old(frame)), byte_word(op@))),
                r,
                joined(*final(self), *final(frame)),
            ),
    {
        let ghost f0 = *frame;
        let param = op.args[0] as i8;
        frame.operand_stack.push(param);
        proof {
            lemma_joined_top(*self, f0, *frame);
            assert(frame.operand_stack@ =~= f0.operand_stack@.push(byte_word(op@)));
        }
        Ok(None)
    }

    /// Pushes the operand short of `sipush`, sign-extended.
    fn exec_push_short(&mut self, frame: &mut StackFrame, op: &Op) -> (r: Result<Option<RunResult>, Fault>)
        requires
            op@.args.len() == 2,
        ensures
            final(self).method_area == old(self).method_area,
            final(self).reference_manager == old(self).reference_manager,
            op_agrees(
                joined(*old(self), *old(frame)),
                OpEffect::Done(push_word(joined(*old(self), *old(frame)), short_word(op@))),
                r,
                joined(*final(self), *final(frame)),
            ),
    {
        let ghost f0 = *frame;
        let param = bytes_to_short(op.args);
        frame.operand_stack.push(param);
        proof {
            lemma_joined_top(*self, f0, *frame);
            assert(frame.operand_stack@ =~= f0.operand_stack@.push(short_word(op@)));
        }
        Ok(None)
    }
}

/// The constant-pool index that the operands of `op` name.
fn cp_index(op: &Op) -> (r: u16)
    requires
        op@.args.len() == 2,
    ensures
        r == spec_cp_index(op@),
{
    bytes_to_short(op.args) as u16
}

/// The tag of entry `#index` of `pool`, if the pool has it.
fn tag_at(pool: &Vec<ConstantPoolInfo>, index: u16) -> (r: Option<ConstantPoolTag>)
    ensures
        match r {
            Some(t) => 1 <= index <= pool@.len() && t == pool@[index - 1].tag,
            None => !(1 <= index <= pool@.len()),
        },
{
    if index == 0 || index as usize > pool.len() {
        return None;
    }
    Some(pool[index as usize - 1].tag)
}

impl Thread {
    /// `invokestatic`: resolves the method that a `Methodref` entry names.
    fn exec_invokestatic(&mut self, frame: &mut StackFrame, op: &Op) -> (r: Result<Option<RunResult>, Fault>)
        requires
            op@.args.len() == 2,
            old(self).wf(),
        ensures
            final(self).wf(),
            op_agrees(
                joined(*old(self), *old(frame)),
                spec_invokestatic(joined(*old(self), *old(frame)), op@),
                r,
                joined(*final(self), *final(frame)),
            ),
    {
        let index = cp_index(op);
        let class: &crate::vm::class::Class = &frame.class;
        let pool: &Vec<ConstantPoolInfo> = &class.constant_pool;
        let tag = match tag_at(pool, index) {
            Some(t) => t,
            None => {
                return Err(Fault::Stuck);
            },
        };
        if tag != ConstantPoolTag::Methodref {
            return Err(Fault::Error(other_error("Unexpected tag")));
        }
        if class.get_method_by_index(index).is_some() {
            return Ok(None);
        }
        let identifier = match class.resolve_ref_to_identifier(index) {
            Some(id) => id,
            None => {
                return Err(Fault::Error(ref_failure_error(index)));
            },
        };
        match class_name_from_identifier(identifier.as_str()) {
            Some(c) => {
                if !self.method_area.contains(c) {
                    return Ok(Some(RunResult::NeedClass(String::from_str(c))));
                }
            },
            None => {},
        }
        match self.method_area.resolve(identifier.as_str()) {
            Ok(m) => Ok(Some(RunResult::Invoke(m))),
            Err(e) => Err(Fault::Error(e)),
        }
    }

    /// `getstatic`: resolves the field that a `Fieldref` entry names and pushes a new
    /// reference that stands for it.
    fn exec_getstatic(&mut self, frame: &mut StackFrame, op: &Op) -> (r: Result<Option<RunResult>, Fault>)
        requires
            op@.args.len() == 2,
            old(self).wf(),
        ensures
            final(self).wf(),
            op_agrees(
                joined(*old(self), *old(frame)),
                spec_getstatic(joined(*old(self), *old(frame)), op@),
                r,
                joined(*final(self), *final(frame)),
            ),
    {
        let ghost f0 = *frame;
        let index = cp_index(op);
        let pool: &Vec<ConstantPoolInfo> = &frame.class.constant_pool;
        let tag = match tag_at(pool, index) {
            Some(t) => t,
            None => {
                return Err(Fault::Stuck);
            },
        };
        if tag != ConstantPoolTag::Fieldref {
            return Err(Fault::Error(other_error("Unexpected tag")));
        }
        let identifier = match frame.class.resolve_ref_to_identifier(index) {
            Some(id) => id,
            None => {
                return Err(Fault::Error(ref_failure_error(index)));
            },
        };
        let class_name = match class_name_from_identifier(identifier.as_str()) {
            Some(c) => String::from_str(c),
            None => {
                let mut text = String::from_str("Invalid field identifier ");
                text.append(identifier.as_str());
                return Err(Fault::Error(RunTimeError::Other(text)));
            },
        };
        let class_ptr = match self.method_area.get(class_name.as_str()) {
            Some(c) => Rc::clone(c),
            None => {
                return Ok(Some(RunResult::NeedClass(class_name)));
            },
        };
        if self.method_area.get_resolved_field(identifier.as_str()).is_none() {
            self.method_area.insert_resolved_for_class(&class_name, &class_ptr);
        }
        if self.method_area.get_resolved_field(identifier.as_str()).is_some() {
            let r = self.reference_manager.allocate_symbolic(identifier.clone());
            frame.operand_stack.push(r as i32);
            proof {
                lemma_joined_top(*self, f0, *frame);
                assert((r as i32) as u32 == r) by (bit_vector);
                assert(frame.operand_stack@ =~= f0.operand_stack@.push(r));
            }
            Ok(None)
        } else {
            let mut text = String::from_str("Field ");
            text.append(identifier.as_str());
            text.append(" not found");
            Err(Fault::Error(RunTimeError::Other(text)))
        }
    }
}

/// The local variable that `iload` names in its operand.
fn operand_slot_of(op: &Op) -> (r: u16)
    requires
        op@.args.len() == 1,
    ensures
        r == operand_slot(op@),
{
    op.args[0] as u16
}

/// The local variable that `iload_<n>` names in its opcode.
fn implied_slot_of(op: &Op) -> (r: u16)
    requires
        spec_opcode(Instruction::Iload0) <= spec_opcode(op@.instruction) <= spec_opcode(
            Instruction::Iload3,
        ),
    ensures
        r == implied_slot(op@),
{
    op.instruction.sub(Instruction::Iload0) as u16
}

/// The error for an instruction the interpreter does not run.
fn not_implemented(i: Instruction) -> (r: RunTimeError)
    ensures
        r@ == RunTimeErrorView::Notimplemented("Instruction "@ + spec_mnemonic(i)),
{
    let mut text = String::from_str("Instruction ");
    text.append(i.mnemonic());
    RunTimeError::Notimplemented(text)
}

impl Thread {
    /// Runs the decoded instruction `op` in `frame`, the running frame (taken off the
    /// stack for the while).
    fn run_op(&mut self, frame: &mut StackFrame, op: &Op) -> (r: Result<Option<RunResult>, Fault>)
        requires
            op@.args.len() == spec_operand_len(op@.instruction),
            old(self).wf(),
        ensures
            final(self).wf(),
            op_agrees(
                joined(*old(self), *old(frame)),
                spec_run_op(joined(*old(self), *old(frame)), op@),
                r,
                joined(*final(self), *final(frame)),
            ),
    {
        match op.instruction {
            Instruction::Sipush => self.exec_push_short(frame, op),
            Instruction::Bipush => self.exec_push_byte(frame, op),
            Instruction::Invokestatic => self.exec_invokestatic(frame, op),
            Instruction::Iadd => self.exec_iadd(frame),
            Instruction::Invokedynamic | Instruction::Invokevirtual
            | Instruction::Pop | Instruction::Return | Instruction::Astore0
            | Instruction::Astore1 | Instruction::Astore2 | Instruction::Astore3
            | Instruction::Iconst0 | Instruction::Iconst1 | Instruction::Iconst2
            | Instruction::Iconst3 | Instruction::Aload0 | Instruction::Aload1
            | Instruction::Aload2 | Instruction::Aload3 => Ok(None),
            Instruction::IfIcmpeq | Instruction::IfIcmpne | Instruction::IfIcmplt
            | Instruction::IfIcmpge | Instruction::IfIcmpgt | Instruction::IfIcmple => {
                self.exec_if_pair(frame, op)
            },
            Instruction::IfEq | Instruction::IfNe | Instruction::IfLt | Instruction::IfGe
            | Instruction::IfGt | Instruction::IfLe => self.exec_if_zero(frame, op),
            Instruction::Iload => {
                let slot = operand_slot_of(op);
                self.exec_load_local(frame, slot)
            },
            Instruction::Iload0 | Instruction::Iload1 | Instruction::Iload2
            | Instruction::Iload3 => {
                let slot = implied_slot_of(op);
                self.exec_load_local(frame, slot)
            },
            Instruction::Getstatic => self.exec_getstatic(frame, op),
            _ => Err(Fault::Error(not_implemented(op.instruction))),
        }
    }
}

/// A parameter of type `p` takes two slots (`long` and `double`).
fn is_wide(p: &String) -> (r: bool)
    ensures
        r == (p@ == "J"@ || p@ == "D"@),
{
    let long_type = String::from_str("J");
    let double_type = String::from_str("D");
    *p == long_type || *p == double_type
}

proof fn lemma_pair_roundtrip(hi: u32, lo: u32)
    ensures
        (((crate::vm::operand_stack::join_words(hi, lo) as i64) as u64 >> 32) as u32) == hi,
        (((crate::vm::operand_stack::join_words(hi, lo) as i64) as u64) as u32) == lo,
{
    assert((((((hi as u64) << 32 | (lo as u64)) as i64) as u64 >> 32) as u32) == hi) by (bit_vector);
    assert((((((hi as u64) << 32 | (lo as u64)) as i64) as u64) as u32) == lo) by (bit_vector);
}

impl Thread {
    /// A thread with an empty stack over the method area `ma` and the references of
    /// `rm`.
    pub fn new(ma: MethodArea, rm: ReferenceManager) -> (r: Self)
        ensures
            r.stack.frames() == Seq::<StackFrame>::empty(),
            r.stack.pc() == 0,
            r.stack.return_addresses() == Seq::<usize>::empty(),
            r.method_area == ma,
            r.reference_manager == rm,
    {
        Self { stack: Stack::new(), method_area: ma, reference_manager: rm }
    }

    /// Puts a frame for a call of `method_ref` on the stack (the program counter is left
    /// as it is).
    pub fn invoke(&mut self, method_ref: MethodReference) -> (r: Result<(), RunTimeError>)
        ensures
            r is Ok,
            final(self)@ == spec_invoke(old(self)@, ref_parts(method_ref)),
            final(self).method_area == old(self).method_area,
            final(self).reference_manager == old(self).reference_manager,
    {
        let frame = match StackFrame::new(method_ref) {
            Ok(f) => f,
            Err(e) => {
                return Err(e);
            },
        };
        proof {
            lemma_frames_push(self.stack.frames(), frame);
        }
        self.stack.push_frame(frame);
        Ok(())
    }

    /// Puts a frame for the method `main` of `class` on the stack, as running a class
    /// begins: the index of the method's name, or the error that the class has no such
    /// method (the stack then unchanged).
    pub fn start_main(&mut self, class: ClassPtr) -> (r: Result<u16, RunTimeError>)
        ensures
            match r {
                Ok(idx) => {
                    &&& class.method_by_index@.contains_key(idx)
                    &&& class.method_by_index@[idx]@.name == "main"@
                    &&& final(self)@ == spec_invoke(
                        old(self)@,
                        (class.method_by_index@[idx], class),
                    )
                },
                Err(e) => {
                    &&& e@ == RunTimeErrorView::Other("Main method not found"@)
                    &&& forall|k: u16| #[trigger]
                        class.method_by_index@.contains_key(k)
                            ==> class.method_by_index@[k]@.name != "main"@
                    &&& final(self)@ == old(self)@
                },
            },
            final(self).method_area == old(self).method_area,
            final(self).reference_manager == old(self).reference_manager,
    {
        let found = class.find_method_index_by_name("main");
        let idx = match found {
            Some(i) => i,
            None => {
                return Err(RunTimeError::Other(String::from_str("Main method not found")));
            },
        };
        let method = match class.get_method_by_index(idx) {
            Some(m) => m.clone(),
            None => {
                return Err(RunTimeError::Other(String::from_str("Main method not found")));
            },
        };
        let method_ref = MethodReference::new(method, class.clone());
        match self.invoke(method_ref) {
            Ok(()) => Ok(idx),
            Err(e) => Err(e),
        }
    }

    /// Calls the method of `method_ref` from the running frame: its arguments move from
    /// the caller's operand stack into the new frame's local variables, the program
    /// counter is saved and reset, and the new frame runs.
    fn push_frame(&mut self, method_ref: &MethodReference) -> (r: Result<(), RunTimeError>)
        requires
            old(self).wf(),
        ensures
            final(self).wf(),
            match spec_push_frame(old(self)@, ref_parts(*method_ref)) {
                Ok(s) => r is Ok && final(self)@ == s,
                Err((s, e)) => r matches Err(err) && err@ == e && final(self)@ == s,
            },
    {
        let method = method_ref.method();
        let params = MethodArea::parse_params(method.descriptor.as_str());
        let ghost names = spec_params(method.descriptor@);
        let ghost ws = spec_widths(names);
        let mut widths: Vec<usize> = Vec::new();
        let mut total: u128 = 0;
        let mut i: usize = 0;
        while i < params.len()
            invariant
                i <= params@.len(),
                params@.map_values(|p: String| p@) == names,
                ws == spec_widths(names),
                widths@.len() == i,
                forall|j: int| 0 <= j < i ==> widths@[j] == ws[j],
                forall|j: int| 0 <= j < i ==> widths@[j] == 1 || widths@[j] == 2,
                total == spec_start(ws, i as int),
                total <= 2 * i,
            decreases params.len() - i,
        {
            assert(params@[i as int]@ == names[i as int]);
            let w: usize = if is_wide(&params[i]) {
                2
            } else {
                1
            };
            widths.push(w);
            total = total + w as u128;
            i = i + 1;
        }
        let mut new_frame = match StackFrame::new(
            MethodReference::new(method_ref.method(), method_ref.class()),
        ) {
            Ok(f) => f,
            Err(e) => {
                return Err(e);
            },
        };
        let ghost before = self@;
        let ghost old_stack = self.stack.frames();
        let mut caller = match self.stack.pop_frame() {
            Some(f) => f,
            None => {
                return Err(other_error("No current frame"));
            },
        };
        proof {
            lemma_frames_drop_last(old_stack);
        }
        let ghost c0 = caller;
        let ghost zeros = new_frame.locals();
        let mut k: usize = widths.len();
        let mut end: u128 = total;
        while k > 0
            invariant
                k <= widths@.len(),
                widths@.len() == ws.len(),
                forall|j: int| 0 <= j < widths@.len() ==> widths@[j] == ws[j],
                forall|j: int| 0 <= j < widths@.len() ==> widths@[j] == 1 || widths@[j] == 2,
                end == spec_start(ws, k as int),
                spec_transfer(ws, ws.len(), c0.operand_stack@, zeros) == spec_transfer(
                    ws,
                    k as nat,
                    caller.operand_stack@,
                    new_frame.locals(),
                ),
                caller.class == c0.class,
                caller.method == c0.method,
                caller.locals() == c0.locals(),
                new_frame.class == method_ref.spec_class(),
                new_frame.method == method_ref.spec_method(),
                new_frame.operand_stack@ == Seq::<u32>::empty(),
                old(self).wf(),
                before == old(self)@,
                zeros == Seq::new(method_ref.spec_method().max_locals as nat, |i: int| 0u32),
                ws == spec_widths(spec_params(method_ref.spec_method().descriptor@)),
                old_stack.len() > 0,
                old_stack.last() == c0,
                frame_states(old_stack) == before.frames,
                self.stack.frames() == old_stack.drop_last(),
                self.stack.pc() == before.pc,
                self.stack.return_addresses() == before.return_addresses,
                self.method_area == old(self).method_area,
                self.reference_manager == old(self).reference_manager,
            decreases k,
        {
            k = k - 1;
            let w = widths[k];
            let start = end - w as u128;
            let slot = start as u16;
            let ghost ops = caller.operand_stack@;
            if w == 2 {
                let v: i64 = match caller.operand_stack.pop() {
                    Some(v) => v,
                    None => {
                        proof {
                            lemma_frames_push(self.stack.frames(), caller);
                            assert(frame_states(self.stack.frames().push(caller)) =~= with_operands(
                                before,
                                caller.operand_stack@,
                            ).frames);
                        }
                        self.stack.push_frame(caller);
                        return Err(other_error("Operand stack underflow"));
                    },
                };
                proof {
                    lemma_pair_roundtrip(ops[ops.len() - 2], ops[ops.len() - 1]);
                    assert(ops.skip(ops.len() - 2) =~= seq![ops[ops.len() - 2], ops[ops.len() - 1]]);
                }
                match new_frame.set_variable_value(slot, v) {
                    Ok(()) => {},
                    Err(e) => {
                        proof {
                            lemma_frames_push(self.stack.frames(), caller);
                            assert(frame_states(self.stack.frames().push(caller)) =~= with_operands(
                                before,
                                caller.operand_stack@,
                            ).frames);
                        }
                        self.stack.push_frame(caller);
                        return Err(e);
                    },
                }
                proof {
                    assert(LocalVariableValue::spec_words(v) =~= ops.skip(ops.len() - 2));
                }
            } else {
                let v: i32 = match caller.operand_stack.pop() {
                    Some(v) => v,
                    None => {
                        proof {
                            lemma_frames_push(self.stack.frames(), caller);
                            assert(frame_states(self.stack.frames().push(caller)) =~= with_operands(
                                before,
                                caller.operand_stack@,
                            ).frames);
                        }
                        self.stack.push_frame(caller);
                        return Err(other_error("Operand stack underflow"));
                    },
                };
                proof {
                    let x = ops[ops.len() - 1];
                    assert((x as i32) as u32 == x) by (bit_vector);
                    assert(ops.skip(ops.len() - 1) =~= seq![x]);
                }
                match new_frame.set_variable_value(slot, v) {
                    Ok(()) => {},
                    Err(e) => {
                        proof {
                            lemma_frames_push(self.stack.frames(), caller);
                            assert(frame_states(self.stack.frames().push(caller)) =~= with_operands(
                                before,
                                caller.operand_stack@,
                            ).frames);
                        }
                        self.stack.push_frame(caller);
                        return Err(e);
                    },
                }
                proof {
                    assert(LocalVariableValue::spec_words(v) =~= ops.skip(ops.len() - 1));
                }
            }
            end = start;
        }
        let ret_pc = self.stack.get_pc();
        self.stack.push_return_address(ret_pc);
        self.stack.set_pc(0);
        proof {
            lemma_frames_push(self.stack.frames(), caller);
        }
        self.stack.push_frame(caller);
        proof {
            lemma_frames_push(self.stack.frames(), new_frame);
        }
        self.stack.push_frame(new_frame);
        proof {
            assert(frame_states(self.stack.frames()) =~= with_operands(
                before,
                caller.operand_stack@,
            ).frames.push(frame_state(new_frame)));
        }
        Ok(())
    }
}

impl Thread {
    /// Runs one instruction of the running frame: decodes the instruction at the program
    /// counter, runs it, then moves past it, or enters the method it calls. Where it
    /// needs a class that is not loaded, nothing changes and the class is named.
    pub fn step(&mut self) -> (r: Result<Step, Fault>)
        requires
            old(self).wf(),
        ensures
            final(self).wf(),
            step_agrees(old(self)@, spec_step(old(self)@), r, final(self)@),
    {
        let ghost before = self@;
        let ghost old_stack = self.stack.frames();
        let mut frame = match self.stack.pop_frame() {
            Some(f) => f,
            None => {
                return Err(Fault::Error(other_error("Stack is empty")));
            },
        };
        proof {
            lemma_frames_drop_last(old_stack);
            assert(joined(*self, frame) == before);
        }
        let method = Rc::clone(&frame.method);
        let pc = self.stack.get_pc();
        if pc == method.code.len() {
            proof {
                lemma_frames_push(self.stack.frames(), frame);
            }
            self.stack.push_frame(frame);
            return Ok(Step::Finished);
        }
        let (op, arg_len) = match parse_op_at(method.code.as_slice(), pc) {
            Ok(found) => found,
            Err(e) => {
                proof {
                    lemma_frames_push(self.stack.frames(), frame);
                }
                self.stack.push_frame(frame);
                return Err(Fault::Error(e));
            },
        };
        let outcome = self.run_op(&mut frame, &op);
        proof {
            lemma_frames_push(self.stack.frames(), frame);
        }
        self.stack.push_frame(frame);
        match outcome {
            Ok(None) => {
                self.stack.increase_pc(arg_len + 1);
                Ok(Step::Continue)
            },
            Ok(Some(RunResult::Invoke(m))) => match self.push_frame(&m) {
                Ok(()) => Ok(Step::Continue),
                Err(e) => Err(Fault::Error(e)),
            },
            Ok(Some(RunResult::NeedClass(c))) => Ok(Step::NeedClass(c)),
            Err(f) => Err(f),
        }
    }
}

/// The number of slots the parameters of method `m` take.
pub open spec fn spec_argument_slots(m: MethodPtr) -> nat {
    let ws = spec_widths(spec_params(m.descriptor@));
    spec_start(ws, ws.len() as int)
}

proof fn lemma_widths_small(params: Seq<Seq<char>>)
    ensures
        forall|j: int|
            0 <= j < spec_widths(params).len() ==> spec_widths(params)[j] == 1
                || spec_widths(params)[j] == 2,
{
}

proof fn lemma_transfer_ok(ws: Seq<nat>, k: nat, ops: Seq<u32>, locals: Seq<u32>)
    requires
        k <= ws.len(),
        forall|j: int| 0 <= j < ws.len() ==> ws[j] == 1 || ws[j] == 2,
        spec_start(ws, k as int) <= ops.len(),
        spec_start(ws, k as int) <= locals.len(),
        locals.len() <= u16::MAX,
    ensures
        spec_transfer(ws, k, ops, locals) == Ok::<(Seq<u32>, Seq<u32>), (Seq<u32>, RunTimeErrorView)>(
            (
                ops.take(ops.len() - spec_start(ws, k as int)),
                ops.skip(ops.len() - spec_start(ws, k as int)) + locals.skip(spec_start(ws, k as int) as int),
            ),
        ),
    decreases k,
{
    if k == 0 {
        assert(ops.take(ops.len() as int) =~= ops);
        assert(ops.skip(ops.len() as int) + locals.skip(0) =~= locals);
    } else {
        let w = ws[k - 1];
        let prev = spec_start(ws, k - 1);
        let n = spec_start(ws, k as int);
        assert(n == prev + w);
        let vals = ops.skip(ops.len() - w);
        let rest = ops.take(ops.len() - w);
        assert((prev as u16) == prev);
        let after = spec_set_locals(locals, prev as int, vals);
        lemma_transfer_ok(ws, (k - 1) as nat, rest, after);
        assert(rest.take(rest.len() - prev) =~= ops.take(ops.len() - n));
        assert(rest.skip(rest.len() - prev) + after.skip(prev as int) =~= ops.skip(ops.len() - n)
            + locals.skip(n as int));
    }
}

/// A call whose caller holds the arguments, and whose method has room for them, moves
/// the arguments: the new frame's first local variables are the caller's top operand
/// words in order, the rest zeroed; the caller keeps the words below them; the program
/// counter is saved and reset.
pub proof fn law_call_moves_arguments(s: ThreadState, m: (MethodPtr, ClassPtr))
    requires
        s.frames.len() > 0,
        spec_argument_slots(m.0) <= s.frames.last().operands.len(),
        spec_argument_slots(m.0) <= m.0.max_locals,
    ensures
        spec_push_frame(s, m) matches Ok(s2) && {
            let ops = s.frames.last().operands;
            let n = spec_argument_slots(m.0);
            &&& s2.frames.len() == s.frames.len() + 1
            &&& s2.frames[s.frames.len() - 1] == FrameState {
                operands: ops.take(ops.len() - n),
                ..s.frames.last()
            }
            &&& s2.frames.last() == FrameState {
                class: m.1,
                method: m.0,
                operands: Seq::empty(),
                locals: ops.skip(ops.len() - n) + Seq::new(
                    (m.0.max_locals - n) as nat,
                    |i: int| 0u32,
                ),
            }
            &&& s2.pc == 0
            &&& s2.return_addresses == s.return_addresses.push(s.pc)
        },
{
    let ws = spec_widths(spec_params(m.0.descriptor@));
    let zeros = Seq::new(m.0.max_locals as nat, |i: int| 0u32);
    lemma_widths_small(spec_params(m.0.descriptor@));
    lemma_transfer_ok(ws, ws.len(), s.frames.last().operands, zeros);
    let n = spec_argument_slots(m.0);
    assert(zeros.skip(n as int) =~= Seq::new((m.0.max_locals - n) as nat, |i: int| 0u32));
}

/// A taken branch, once the step has moved past the instruction, lands on the
/// instruction's offset plus the branch offset (where that stays within `usize`).
pub proof fn law_taken_branch_target(op: OpView)
    requires
        op.args.len() == 2,
        1 + op.args.len() <= op.index + spec_short(op.args) <= usize::MAX,
    ensures
        vstd::wrapping::usize_specs::wrapping_add(spec_branch_pc(op), (1 + op.args.len()) as usize)
            == op.index + spec_short(op.args),
{
}

/// A step asks only for a class that is not loaded.
pub proof fn law_step_asks_for_unloaded_class(s: ThreadState)
    ensures
        spec_step(s) matches StepEffect::NeedClass(c) ==> !s.classes.contains_key(c),
{
}

/// Once the class a step asked for is loaded, the same step in the same frames asks for
/// no class.
pub proof fn law_loaded_class_is_not_asked_again(s: ThreadState, t: ThreadState)
    requires
        spec_step(s) is NeedClass,
        t.frames == s.frames,
        t.pc == s.pc,
        t.classes.contains_key(spec_step(s)->NeedClass_0),
    ensures
        !(spec_step(t) is NeedClass),
{
}

/// A step neither loads nor unloads a class: loading is left to the caller.
pub proof fn law_step_keeps_classes(s: ThreadState)
    ensures
        match spec_step(s) {
            StepEffect::Continue(s2) => s2.classes == s.classes,
            StepEffect::Fail(s2, _) => s2.classes == s.classes,
            _ => true,
        },
{
}

/// No reference a step hands out is 0, the null reference.
pub proof fn law_step_keeps_null_free(s: ThreadState)
    requires
        s.next_ref != 0,
    ensures
        match spec_step(s) {
            StepEffect::Continue(s2) => s2.next_ref != 0 && !(s2.refs.dom().difference(
                s.refs.dom(),
            ).contains(0)),
            StepEffect::Fail(s2, _) => s2.next_ref != 0,
            _ => true,
        },
{
}

/// A step on an `if_icmp<cond>` instruction (opcodes `0x9f` to `0xa4`) pops the two
/// top ints, `v1` below `v2`, and branches exactly where the JVM comparison of its
/// opcode holds: `eq`, `ne`, `lt`, `ge`, `gt`, `le`, in opcode order. A taken branch
/// lands on the instruction's offset plus the signed 16-bit offset in its operands
/// (where that is at least 3 and within `usize`); otherwise the step moves past the
/// three bytes of the instruction.
#[verifier::spinoff_prover]
#[verifier::rlimit(60)]
pub proof fn law_two_int_branch(s: ThreadState)
    requires
        s.frames.len() > 0,
        s.pc + 3 <= s.frames.last().method.code@.len() <= usize::MAX,
        0x9f <= s.frames.last().method.code@[s.pc as int] <= 0xa4,
        s.frames.last().operands.len() >= 2,
    ensures
        ({
            let code = s.frames.last().method.code@;
            let b = code[s.pc as int];
            let ops = s.frames.last().operands;
            let v1 = ops[ops.len() - 2] as i32;
            let v2 = ops[ops.len() - 1] as i32;
            let offset = ((code[s.pc + 1] as int * 256 + code[s.pc + 2] as int) as i16) as int;
            let taken = (b == 0x9f && v1 == v2) || (b == 0xa0 && v1 != v2) || (b == 0xa1 && v1
                < v2) || (b == 0xa2 && v1 >= v2) || (b == 0xa3 && v1 > v2) || (b == 0xa4 && v1
                <= v2);
            spec_step(s) matches StepEffect::Continue(t) && t.frames.len() == s.frames.len()
                && t.frames.last().operands == ops.take(ops.len() - 2) && (!taken ==> t.pc == s.pc
                + 3) && (taken && 3 <= s.pc + offset <= usize::MAX ==> t.pc == s.pc + offset)
        }),
{
    let code = s.frames.last().method.code@;
    let b = code[s.pc as int];
    let ops = s.frames.last().operands;
    let v1 = ops[ops.len() - 2] as i32;
    let v2 = ops[ops.len() - 1] as i32;
    let offset = ((code[s.pc + 1] as int * 256 + code[s.pc + 2] as int) as i16) as int;
    reveal(spec_decode);
    let i = spec_decode(b)->Some_0;
    assert(spec_operand_len(i) == 2);
    let op = OpView { index: s.pc, instruction: i, args: code.subrange(s.pc + 1, s.pc + 3) };
    assert(spec_parse_op_at(code, s.pc as int) == Ok::<(OpView, nat), RunTimeErrorView>((op, 2)));
    assert(spec_run_op(s, op) == spec_if_pair(s, op));
    assert(spec_short(op.args) as int == offset);
    let taken = (b == 0x9f && v1 == v2) || (b == 0xa0 && v1 != v2) || (b == 0xa1 && v1 < v2) || (
    b == 0xa2 && v1 >= v2) || (b == 0xa3 && v1 > v2) || (b == 0xa4 && v1 <= v2);
    assert(spec_compare2(i, v1, v2) == taken);
    if taken && 3 <= s.pc + offset <= usize::MAX {
        law_taken_branch_target(op);
    }
}

/// A step on an `if<cond>` instruction (opcodes `0x99` to `0x9e`) pops the top int `v`
/// and branches exactly where the JVM test of its opcode against zero holds: `eq`, `ne`,
/// `lt`, `ge`, `gt`, `le`, in opcode order. A taken branch lands on the instruction's
/// offset plus the signed 16-bit offset in its operands (where that is at least 3 and
/// within `usize`); otherwise the step moves past the three bytes of the instruction.
#[verifier::spinoff_prover]
#[verifier::rlimit(60)]
pub proof fn law_one_int_branch(s: ThreadState)
    requires
        s.frames.len() > 0,
        s.pc + 3 <= s.frames.last().method.code@.len() <= usize::MAX,
        0x99 <= s.frames.last().method.code@[s.pc as int] <= 0x9e,
        s.frames.last().operands.len() >= 1,
    ensures
        ({
            let code = s.frames.last().method.code@;
            let b = code[s.pc as int];
            let ops = s.frames.last().operands;
            let v = ops[ops.len() - 1] as i32;
            let offset = ((code[s.pc + 1] as int * 256 + code[s.pc + 2] as int) as i16) as int;
            let taken = (b == 0x99 && v == 0) || (b == 0x9a && v != 0) || (b == 0x9b && v < 0)
                || (b == 0x9c && v >= 0) || (b == 0x9d && v > 0) || (b == 0x9e && v <= 0);
            spec_step(s) matches StepEffect::Continue(t) && t.frames.len() == s.frames.len()
                && t.frames.last().operands == ops.take(ops.len() - 1) && (!taken ==> t.pc == s.pc
                + 3) && (taken && 3 <= s.pc + offset <= usize::MAX ==> t.pc == s.pc + offset)
        }),
{
    let code = s.frames.last().method.code@;
    let b = code[s.pc as int];
    let ops = s.frames.last().operands;
    let v = ops[ops.len() - 1] as i32;
    let offset = ((code[s.pc + 1] as int * 256 + code[s.pc + 2] as int) as i16) as int;
    reveal(spec_decode);
    let i = spec_decode(b)->Some_0;
    assert(spec_operand_len(i) == 2);
    let op = OpView { index: s.pc, instruction: i, args: code.subrange(s.pc + 1, s.pc + 3) };
    assert(spec_parse_op_at(code, s.pc as int) == Ok::<(OpView, nat), RunTimeErrorView>((op, 2)));
    assert(spec_run_op(s, op) == spec_if(s, op));
    assert(spec_short(op.args) as int == offset);
    let taken = (b == 0x99 && v == 0) || (b == 0x9a && v != 0) || (b == 0x9b && v < 0) || (b
        == 0x9c && v >= 0) || (b == 0x9d && v > 0) || (b == 0x9e && v <= 0);
    assert(spec_compare0(i, v) == taken);
    if taken && 3 <= s.pc + offset <= usize::MAX {
        law_taken_branch_target(op);
    }
}

} // verus!
