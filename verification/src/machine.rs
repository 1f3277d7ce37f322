//! The meaning of the instruction set: a transition function on machine states.

use vstd::prelude::*;
use crate::memory::{overwrite, zeros, MAX_PAGES, PAGE_SIZE};
use crate::module::{BinaryOp, Instr, ModuleView, ValueType};
use crate::trap::Trap;

verus! {

/// The deepest the call stack may get.
pub const MAX_CALL_DEPTH: usize = 64;

/// One activation of a function: where it executes and where its locals start.
#[derive(Debug, Clone, Copy, PartialEq, Eq, Structural)]
pub struct Frame {
    pub func: usize,
    pub pc: usize,
    pub base: usize,
}

/// Everything an instruction can read or change.
#[verifier::ext_equal]
pub struct MachineView {
    pub frames: Seq<Frame>,
    pub stack: Seq<u64>,
    pub memory: Seq<u8>,
    pub max_pages: nat,
}

/// How an invocation pauses or ends.
#[derive(Debug, Clone, PartialEq, Eq)]
pub enum Outcome {
    /// The entry function returned, with its value if it has one.
    Completed(Option<u64>),
    Trapped(Trap),
    BudgetExhausted,
    /// The module calls the import with this index and waits for the reply.
    HostCall(u8),
}

/// What one instruction does to the machine.
pub enum Effect {
    Continue(MachineView),
    Finished(Option<u64>),
    Trapped(Trap),
    Host(u8),
}

/// The fixed cost charged before an instruction executes.
pub open spec fn instr_cost(i: Instr) -> nat {
    match i {
        Instr::Const { .. } => 1,
        Instr::Binary { .. } => 1,
        Instr::Load8 { .. } => 2,
        Instr::Store8 { .. } => 2,
        Instr::MemoryGrow { .. } => 16,
        Instr::Jump { .. } => 1,
        Instr::JumpIf { .. } => 1,
        Instr::Call { .. } => 4,
        Instr::CallHost { .. } => 8,
        Instr::Return { .. } => 1,
        Instr::ReturnVoid => 1,
        Instr::Unreachable => 1,
    }
}

/// `v` reduced to the width of `ty`.
pub open spec fn truncate(ty: ValueType, v: int) -> int {
    match ty {
        ValueType::I32 => v % 0x1_0000_0000,
        ValueType::I64 => v % 0x1_0000_0000_0000_0000,
    }
}

/// Fixed-width unsigned arithmetic with wraparound; `None` is division by zero.
pub open spec fn eval_binary(op: BinaryOp, ty: ValueType, a: u64, b: u64) -> Option<u64> {
    let x = truncate(ty, a as int);
    let y = truncate(ty, b as int);
    match op {
        BinaryOp::Add => Some(truncate(ty, x + y) as u64),
        BinaryOp::Sub => Some(truncate(ty, x - y) as u64),
        BinaryOp::Mul => Some(truncate(ty, x * y) as u64),
        BinaryOp::DivU => if y == 0 {
            None
        } else {
            Some((x / y) as u64)
        },
        BinaryOp::RemU => if y == 0 {
            None
        } else {
            Some((x % y) as u64)
        },
        BinaryOp::Eq => Some(if x == y { 1u64 } else { 0u64 }),
        BinaryOp::LtU => Some(if x < y { 1u64 } else { 0u64 }),
    }
}

pub open spec fn top(s: MachineView) -> Frame {
    s.frames[s.frames.len() - 1]
}

pub open spec fn current_instr(m: ModuleView, s: MachineView) -> Instr {
    m.functions[top(s).func as int].code[top(s).pc as int]
}

pub open spec fn read_local(s: MachineView, r: u8) -> u64 {
    s.stack[top(s).base + r]
}

pub open spec fn write_local(s: MachineView, r: u8, v: u64) -> MachineView {
    MachineView { stack: s.stack.update(top(s).base + r, v), ..s }
}

pub open spec fn jump(s: MachineView, target: int) -> MachineView {
    MachineView {
        frames: s.frames.update(s.frames.len() - 1, Frame { pc: target as usize, ..top(s) }),
        ..s
    }
}

pub open spec fn advance(s: MachineView) -> MachineView {
    jump(s, top(s).pc + 1)
}

/// The address an access instruction touches.
pub open spec fn effective_address(s: MachineView, addr: u8, offset: u32) -> int {
    truncate(ValueType::I32, read_local(s, addr) as int) + offset
}

/// The locals of a fresh activation: the arguments, then zeros.
pub open spec fn fresh_locals(s: MachineView, first_arg: u8, params: nat, locals: nat) -> Seq<u64> {
    Seq::new(locals, |k: int| if k < params { s.stack[top(s).base + first_arg + k] } else { 0u64 })
}

/// The machine after the running function has handed `value` back to its caller.
pub open spec fn returned(m: ModuleView, s: MachineView, value: Option<u64>) -> MachineView {
    let popped = MachineView {
        frames: s.frames.drop_last(),
        stack: s.stack.take(top(s).base as int),
        ..s
    };
    let stored = match (value, current_instr(m, popped)) {
        (Some(v), Instr::Call { dst, .. }) => write_local(popped, dst, v),
        _ => popped,
    };
    advance(stored)
}

/// The effect of the instruction at the program counter. The cost is not its concern.
pub open spec fn apply_spec(m: ModuleView, s: MachineView) -> Effect {
    match current_instr(m, s) {
        Instr::Const { dst, value } => Effect::Continue(advance(write_local(s, dst, value))),
        Instr::Binary { op, ty, dst, lhs, rhs } => match eval_binary(
            op,
            ty,
            read_local(s, lhs),
            read_local(s, rhs),
        ) {
            Some(v) => Effect::Continue(advance(write_local(s, dst, v))),
            None => Effect::Trapped(Trap::DivisionByZero),
        },
        Instr::Load8 { dst, addr, offset } => {
            let a = effective_address(s, addr, offset);
            if a < s.memory.len() {
                Effect::Continue(advance(write_local(s, dst, s.memory[a] as u64)))
            } else {
                Effect::Trapped(Trap::OutOfBoundsMemoryAccess)
            }
        },
        Instr::Store8 { addr, src, offset } => {
            let a = effective_address(s, addr, offset);
            if a < s.memory.len() {
                let byte = (read_local(s, src) % 256) as u8;
                Effect::Continue(
                    advance(MachineView { memory: overwrite(s.memory, a, seq![byte]), ..s }),
                )
            } else {
                Effect::Trapped(Trap::OutOfBoundsMemoryAccess)
            }
        },
        Instr::MemoryGrow { dst, delta } => {
            let d = truncate(ValueType::I32, read_local(s, delta) as int);
            let pages = s.memory.len() / (PAGE_SIZE as nat);
            if pages + d <= s.max_pages {
                let grown = MachineView {
                    memory: s.memory + zeros((d * PAGE_SIZE) as nat),
                    ..s
                };
                Effect::Continue(advance(write_local(grown, dst, pages as u64)))
            } else {
                Effect::Continue(advance(write_local(s, dst, 0xFFFF_FFFFu64)))
            }
        },
        Instr::Jump { target } => Effect::Continue(jump(s, target as int)),
        Instr::JumpIf { cond, target } => if truncate(ValueType::I32, read_local(s, cond) as int)
            != 0 {
            Effect::Continue(jump(s, target as int))
        } else {
            Effect::Continue(advance(s))
        },
        Instr::Call { func, first_arg, dst } => if s.frames.len() >= MAX_CALL_DEPTH {
            Effect::Trapped(Trap::StackOverflow)
        } else {
            let callee = m.functions[func as int];
            Effect::Continue(
                MachineView {
                    frames: s.frames.push(Frame { func: func as usize, pc: 0, base: s.stack.len() as usize }),
                    stack: s.stack + fresh_locals(
                        s,
                        first_arg,
                        callee.params as nat,
                        callee.locals.len(),
                    ),
                    ..s
                },
            )
        },
        Instr::CallHost { import, .. } => Effect::Host(import),
        Instr::Return { src } => if s.frames.len() == 1 {
            Effect::Finished(Some(read_local(s, src)))
        } else {
            Effect::Continue(returned(m, s, Some(read_local(s, src))))
        },
        Instr::ReturnVoid => if s.frames.len() == 1 {
            Effect::Finished(None)
        } else {
            Effect::Continue(returned(m, s, None))
        },
        Instr::Unreachable => Effect::Trapped(Trap::UnreachableInstruction),
    }
}

/// The machine after the host has answered the pending call with `value`:
/// the value, reduced to the declared result type, is stored where the
/// call asked for it; a host function without a result stores nothing.
pub open spec fn resumed(m: ModuleView, s: MachineView, value: u64) -> MachineView {
    match current_instr(m, s) {
        Instr::CallHost { import, dst, .. } => match m.imports[import as int].result {
            Some(ty) => advance(write_local(s, dst, truncate(ty, value as int) as u64)),
            None => advance(s),
        },
        _ => s,
    }
}

/// The frame names a function of the module and an instruction inside it.
pub open spec fn frame_ok(m: ModuleView, fr: Frame) -> bool {
    fr.func < m.functions.len() && fr.pc < m.functions[fr.func as int].code.len()
}

/// The stack position just past the frame's locals.
pub open spec fn frame_end(m: ModuleView, fr: Frame) -> int {
    fr.base + m.functions[fr.func as int].locals.len()
}

/// `above` was entered by the call at which `below` is waiting.
pub open spec fn linked(m: ModuleView, below: Frame, above: Frame) -> bool {
    &&& above.base == frame_end(m, below)
    &&& match m.functions[below.func as int].code[below.pc as int] {
        Instr::Call { func, .. } => func == above.func,
        _ => false,
    }
}

/// The shape every reachable machine state has.
pub open spec fn machine_inv(m: ModuleView, s: MachineView) -> bool {
    &&& 1 <= s.frames.len() <= MAX_CALL_DEPTH
    &&& s.frames[0].base == 0
    &&& forall|i: int|
        0 <= i < s.frames.len() ==> frame_ok(m, #[trigger] s.frames[i]) && s.frames[i].base <= i
            * 256
    &&& forall|i: int| 0 < i < s.frames.len() ==> linked(m, s.frames[i - 1], #[trigger] s.frames[i])
    &&& frame_end(m, top(s)) == s.stack.len()
    &&& s.memory.len() == (s.memory.len() / (PAGE_SIZE as nat)) * PAGE_SIZE
    &&& s.memory.len() / (PAGE_SIZE as nat) <= s.max_pages <= MAX_PAGES
}

/// Moving the running frame to another instruction of its function keeps the shape.
pub proof fn lemma_jump_keeps_shape(m: ModuleView, s: MachineView, target: int)
    requires
        machine_inv(m, s),
        0 <= target < m.functions[top(s).func as int].code.len(),
        target <= usize::MAX,
    ensures
        machine_inv(m, jump(s, target)),
{
    let t = jump(s, target);
    assert forall|i: int| 0 <= i < t.frames.len() implies frame_ok(m, #[trigger] t.frames[i])
        && t.frames[i].base <= i * 256 by {
        assert(frame_ok(m, s.frames[i]));
    }
    assert forall|i: int| 0 < i < t.frames.len() implies linked(
        m,
        t.frames[i - 1],
        #[trigger] t.frames[i],
    ) by {
        assert(linked(m, s.frames[i - 1], s.frames[i]));
    }
}

/// The arguments of the host call at which the machine waits.
pub open spec fn pending_arguments(m: ModuleView, s: MachineView) -> Seq<u64> {
    match current_instr(m, s) {
        Instr::CallHost { import, first_arg, .. } => s.stack.subrange(
            top(s).base + first_arg,
            top(s).base + first_arg + m.imports[import as int].params.len(),
        ),
        _ => Seq::empty(),
    }
}

/// Where a run stops, what it has consumed by then, and the machine it leaves.
pub struct Halt {
    pub outcome: Outcome,
    pub consumed: nat,
    pub machine: MachineView,
}

/// Runs the machine until it completes, traps, calls the host or cannot pay
/// for the next instruction. Each instruction is paid for before it executes.
pub open spec fn run_spec(m: ModuleView, s: MachineView, consumed: nat, limit: nat) -> Halt
    decreases limit - consumed,
{
    let cost = instr_cost(current_instr(m, s));
    if consumed + cost > limit {
        Halt { outcome: Outcome::BudgetExhausted, consumed: limit, machine: s }
    } else {
        match apply_spec(m, s) {
            Effect::Continue(next) => run_spec(m, next, consumed + cost, limit),
            Effect::Finished(v) => Halt {
                outcome: Outcome::Completed(v),
                consumed: consumed + cost,
                machine: s,
            },
            Effect::Trapped(t) => Halt {
                outcome: Outcome::Trapped(t),
                consumed: consumed + cost,
                machine: s,
            },
            Effect::Host(i) => Halt {
                outcome: Outcome::HostCall(i),
                consumed: consumed + cost,
                machine: s,
            },
        }
    }
}

/// A run never consumes more than its limit, and a run that stops for want of
/// budget has consumed all of it.
pub proof fn lemma_run_within_budget(m: ModuleView, s: MachineView, consumed: nat, limit: nat)
    requires
        consumed <= limit,
    ensures
        consumed <= run_spec(m, s, consumed, limit).consumed <= limit,
        run_spec(m, s, consumed, limit).outcome == Outcome::BudgetExhausted ==> run_spec(
            m,
            s,
            consumed,
            limit,
        ).consumed == limit,
        limit == 0 ==> run_spec(m, s, consumed, limit).outcome == Outcome::BudgetExhausted,
        run_spec(m, s, consumed, limit).outcome != Outcome::BudgetExhausted ==> run_spec(
            m,
            s,
            consumed,
            limit,
        ).consumed > consumed,
    decreases limit - consumed,
{
    let cost = instr_cost(current_instr(m, s));
    if consumed + cost <= limit {
        match apply_spec(m, s) {
            Effect::Continue(next) => {
                lemma_run_within_budget(m, next, consumed + cost, limit);
            },
            _ => {},
        }
    }
}

/// An access past the end of memory traps, whatever else the machine holds.
pub proof fn lemma_stray_access_traps(m: ModuleView, s: MachineView)
    requires
        match current_instr(m, s) {
            Instr::Load8 { addr, offset, .. } => effective_address(s, addr, offset) >= s.memory.len(),
            Instr::Store8 { addr, offset, .. } => effective_address(s, addr, offset)
                >= s.memory.len(),
            _ => false,
        },
    ensures
        apply_spec(m, s) == Effect::Trapped(Trap::OutOfBoundsMemoryAccess),
        forall|consumed: nat, limit: nat|
            consumed + 2 <= limit ==> #[trigger] run_spec(m, s, consumed, limit) == (Halt {
                outcome: Outcome::Trapped(Trap::OutOfBoundsMemoryAccess),
                consumed: consumed + 2,
                machine: s,
            }),
{
}

/// The fixed cost of an instruction.
pub fn cost_of(i: Instr) -> (c: u64)
    ensures
        c == instr_cost(i),
        c >= 1,
{
    match i {
        Instr::Const { .. } => 1,
        Instr::Binary { .. } => 1,
        Instr::Load8 { .. } => 2,
        Instr::Store8 { .. } => 2,
        Instr::MemoryGrow { .. } => 16,
        Instr::Jump { .. } => 1,
        Instr::JumpIf { .. } => 1,
        Instr::Call { .. } => 4,
        Instr::CallHost { .. } => 8,
        Instr::Return { .. } => 1,
        Instr::ReturnVoid => 1,
        Instr::Unreachable => 1,
    }
}

/// Reduces a value to the width of a type.
pub fn truncated(ty: ValueType, v: u64) -> (r: u64)
    ensures
        r == truncate(ty, v as int),
{
    match ty {
        ValueType::I32 => v % 0x1_0000_0000,
        ValueType::I64 => v,
    }
}

fn wrap(ty: ValueType, v: u128) -> (r: u64)
    ensures
        r == truncate(ty, v as int),
{
    match ty {
        ValueType::I32 => (v % 0x1_0000_0000) as u64,
        ValueType::I64 => (v % 0x1_0000_0000_0000_0000) as u64,
    }
}

/// Evaluates a binary operation on two raw values.
pub fn binary(op: BinaryOp, ty: ValueType, a: u64, b: u64) -> (r: Option<u64>)
    ensures
        r == eval_binary(op, ty, a, b),
{
    let x: u64 = truncated(ty, a);
    let y: u64 = truncated(ty, b);
    match op {
        BinaryOp::Add => Some(wrap(ty, x as u128 + y as u128)),
        BinaryOp::Sub => {
            let modulus: u128 = match ty {
                ValueType::I32 => 0x1_0000_0000,
                ValueType::I64 => 0x1_0000_0000_0000_0000,
            };
            Some(wrap(ty, x as u128 + modulus - y as u128))
        },
        BinaryOp::Mul => {
            assert(x as u128 * y as u128 <= 0xFFFF_FFFF_FFFF_FFFF * 0xFFFF_FFFF_FFFF_FFFF)
                by (nonlinear_arith)
                requires
                    x <= 0xFFFF_FFFF_FFFF_FFFF,
                    y <= 0xFFFF_FFFF_FFFF_FFFF,
            ;
            Some(wrap(ty, x as u128 * y as u128))
        },
        BinaryOp::DivU => if y == 0 {
            None
        } else {
            Some(x / y)
        },
        BinaryOp::RemU => if y == 0 {
            None
        } else {
            Some(x % y)
        },
        BinaryOp::Eq => Some(if x == y { 1 } else { 0 }),
        BinaryOp::LtU => Some(if x < y { 1 } else { 0 }),
    }
}

} // verus!
