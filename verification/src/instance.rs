//! One invocation's live state and the metered loop that drives it.

use vstd::prelude::*;
use crate::budget::Budget;
use crate::machine::{
    advance, apply_spec, binary, cost_of, current_instr, fresh_locals, jump,
    lemma_jump_keeps_shape, machine_inv,
    pending_arguments, read_local, resumed, returned, run_spec, top, truncated, write_local,
    Effect, Frame, Halt, MachineView, Outcome, MAX_CALL_DEPTH,
};
use crate::memory::{zeros, LinearMemory};
use crate::module::{Instr, Module, ModuleView, Value, ValueType};
use crate::trap::{EngineError, Trap};
use crate::validate::{
    function_branches_ok, function_typed, instr_typed, is_terminator, runnable,
};

verus! {

/// Where an instance stands in its life.
#[derive(Debug, Clone, Copy, PartialEq, Eq, Structural)]
pub enum Status {
    /// Created or resumed, and not stopped since.
    Running,
    /// Stopped at a host call, waiting for the reply.
    AwaitingHost,
    /// Completed, trapped or out of budget: nothing more will run.
    Halted,
}

/// The arguments fit the function: as many as it has parameters, each of the declared type.
pub open spec fn signature_matches(m: ModuleView, func: int, args: Seq<Value>) -> bool {
    &&& args.len() == m.functions[func].params
    &&& forall|k: int| 0 <= k < args.len() ==> (#[trigger] args[k]).ty() == m.functions[func].locals[k]
}

/// The machine at the start of an invocation of `func` with `args`.
pub open spec fn initial_machine(m: ModuleView, func: int, args: Seq<Value>) -> MachineView {
    let pages: nat = match m.memory {
        Some(d) => d.initial_pages as nat,
        None => 0,
    };
    let max: nat = match m.memory {
        Some(d) => d.max_pages as nat,
        None => 0,
    };
    MachineView {
        frames: seq![Frame { func: func as usize, pc: 0, base: 0 }],
        stack: Seq::new(
            m.functions[func].locals.len(),
            |k: int| if k < args.len() { args[k].raw() } else { 0u64 },
        ),
        memory: zeros(pages * crate::memory::PAGE_SIZE as nat),
        max_pages: max,
    }
}

/// What a host function hands back: a value for the caller and, if it wishes,
/// bytes to copy into the instance's memory.
pub struct HostReply {
    pub value: u64,
    pub write: Option<MemoryWrite>,
}

pub struct MemoryWrite {
    pub offset: u64,
    pub bytes: Vec<u8>,
}

/// Whether the bytes a reply wants stored fit the memory.
pub open spec fn write_fits(s: MachineView, reply: HostReply) -> bool {
    match reply.write {
        Some(w) => crate::memory::in_bounds(s.memory.len(), w.offset as int, w.bytes@.len() as int),
        None => true,
    }
}

/// The machine after the bytes of a reply have been stored.
pub open spec fn with_write(s: MachineView, reply: HostReply) -> MachineView {
    match reply.write {
        Some(w) => MachineView {
            memory: crate::memory::overwrite(s.memory, w.offset as int, w.bytes@),
            ..s
        },
        None => s,
    }
}

/// Where an instance that waits for the host stops next, given the host's
/// answer: a failure and a write that does not fit are traps that leave the
/// machine as it was; any other reply is stored and the run goes on.
pub open spec fn deliver_spec(
    m: ModuleView,
    s: MachineView,
    consumed: nat,
    limit: nat,
    answer: Result<HostReply, String>,
) -> Halt {
    match answer {
        Err(reason) => Halt {
            outcome: Outcome::Trapped(Trap::HostFunctionFailure(reason)),
            consumed,
            machine: s,
        },
        Ok(reply) => if write_fits(s, reply) {
            run_spec(m, resumed(m, with_write(s, reply), reply.value), consumed, limit)
        } else {
            Halt { outcome: Outcome::Trapped(Trap::OutOfBoundsMemoryAccess), consumed, machine: s }
        },
    }
}

/// The status an instance has after a run stopped with `outcome`.
pub open spec fn status_after(outcome: Outcome) -> Status {
    match outcome {
        Outcome::HostCall(_) => Status::AwaitingHost,
        _ => Status::Halted,
    }
}

pub struct Instance<'a> {
    module: &'a Module,
    frames: Vec<Frame>,
    stack: Vec<u64>,
    memory: LinearMemory,
    budget: Budget,
    status: Status,
}

fn push_locals(stack: &mut Vec<u64>, from: usize, params: usize, locals: usize)
    requires
        from + params <= old(stack)@.len(),
        old(stack)@.len() + locals <= usize::MAX,
    ensures
        final(stack)@ == old(stack)@ + Seq::new(
            locals as nat,
            |k: int| if k < params { old(stack)@[from + k] } else { 0u64 },
        ),
{
    let ghost before = stack@;
    let mut k: usize = 0;
    while k < locals
        invariant
            k <= locals,
            from + params <= before.len(),
            before.len() + locals <= usize::MAX,
            stack@ == before + Seq::new(
                k as nat,
                |j: int| if j < params { before[from + j] } else { 0u64 },
            ),
        decreases locals - k,
    {
        let v: u64 = if k < params { stack[from + k] } else { 0 };
        stack.push(v);
        k = k + 1;
    }
}

impl<'a> Instance<'a> {
    pub closed spec fn module(&self) -> ModuleView {
        self.module@
    }

    pub closed spec fn machine(&self) -> MachineView {
        MachineView {
            frames: self.frames@,
            stack: self.stack@,
            memory: self.memory@,
            max_pages: self.memory.limit(),
        }
    }

    pub closed spec fn consumed(&self) -> nat {
        self.budget.consumed()
    }

    pub closed spec fn limit(&self) -> nat {
        self.budget.limit()
    }

    pub closed spec fn status(&self) -> Status {
        self.status
    }

    /// What every instance satisfies between calls.
    pub open spec fn inv(&self) -> bool {
        &&& runnable(self.module())
        &&& machine_inv(self.module(), self.machine())
        &&& self.consumed() <= self.limit()
        &&& self.status() == Status::AwaitingHost ==> current_instr(
            self.module(),
            self.machine(),
        ) is CallHost
    }

    /// A fresh instance, ready to run function `func` on `args` within `limit` units.
    pub fn new(module: &'a Module, func: u8, args: &Vec<Value>, limit: u64) -> (r: Result<
        Instance<'a>,
        EngineError,
    >)
        requires
            runnable(module@),
        ensures
            func >= module@.functions.len() ==> r == Err::<Instance<'a>, EngineError>(
                EngineError::EntryPointNotFound,
            ),
            func < module@.functions.len() && !signature_matches(module@, func as int, args@) ==> r
                == Err::<Instance<'a>, EngineError>(EngineError::SignatureMismatch),
            func < module@.functions.len() && signature_matches(module@, func as int, args@)
                ==> r is Ok,
            r matches Ok(inst) ==> {
                &&& inst.inv()
                &&& inst.module() == module@
                &&& inst.machine() == initial_machine(module@, func as int, args@)
                &&& inst.consumed() == 0
                &&& inst.limit() == limit
                &&& inst.status() == Status::Running
            },
    {
        if func as usize >= module.functions.len() {
            return Err(EngineError::EntryPointNotFound);
        }
        let f = &module.functions[func as usize];
        assert(module@.functions[func as int] == f@);
        assert(function_typed(module@, module@.functions[func as int]));
        if args.len() != f.params as usize {
            return Err(EngineError::SignatureMismatch);
        }
        let mut stack: Vec<u64> = Vec::new();
        let mut k: usize = 0;
        while k < args.len()
            invariant
                k <= args@.len() == f.params <= f.locals@.len(),
                func < module@.functions.len(),
                module@.functions[func as int] == f@,
                stack@.len() == k,
                forall|j: int| 0 <= j < k ==> (#[trigger] args@[j]).ty() == f.locals@[j],
                forall|j: int| 0 <= j < k ==> stack@[j] == args@[j].raw(),
            decreases args@.len() - k,
        {
            if args[k].value_type() != f.locals[k] {
                assert(args@[k as int].ty() != module@.functions[func as int].locals[k as int]);
                return Err(EngineError::SignatureMismatch);
            }
            stack.push(args[k].bits());
            k = k + 1;
        }
        while k < f.locals.len()
            invariant
                args@.len() <= k <= f.locals@.len(),
                stack@.len() == k,
                forall|j: int| 0 <= j < args@.len() ==> (#[trigger] args@[j]).ty() == f.locals@[j],
                forall|j: int| 0 <= j < args@.len() ==> stack@[j] == (#[trigger] args@[j]).raw(),
                forall|j: int| args@.len() <= j < k ==> stack@[j] == 0,
            decreases f.locals@.len() - k,
        {
            stack.push(0);
            k = k + 1;
        }
        let (initial, max): (u32, u32) = match module.memory {
            Some(d) => (d.initial_pages, d.max_pages),
            None => (0, 0),
        };
        let memory = match LinearMemory::new(initial, max) {
            Ok(m) => m,
            Err(_) => {
                return Err(EngineError::InstantiationFailed);
            },
        };
        let mut frames: Vec<Frame> = Vec::new();
        frames.push(Frame { func: func as usize, pc: 0, base: 0 });
        let inst = Instance {
            module,
            frames,
            stack,
            memory,
            budget: Budget::new(limit),
            status: Status::Running,
        };
        assert(inst.machine() =~= initial_machine(module@, func as int, args@));
        assert(function_branches_ok(module@.functions[func as int]));
        Ok(inst)
    }

    /// The units consumed so far.
    pub fn budget_consumed(&self) -> (r: u64)
        ensures
            r == self.consumed(),
    {
        self.budget.units_consumed()
    }

    /// Where the instance stands.
    pub fn current_status(&self) -> (r: Status)
        ensures
            r == self.status(),
    {
        self.status
    }

    /// The instance's memory, for reading.
    pub fn memory(&self) -> (r: &LinearMemory)
        ensures
            r@ == self.machine().memory,
            r.limit() == self.machine().max_pages,
    {
        &self.memory
    }

    /// Copies `bytes` into the instance's memory on behalf of the host,
    /// or changes nothing where they do not fit.
    pub fn write_memory(&mut self, offset: u64, bytes: &[u8]) -> (r: Result<(), Trap>)
        requires
            old(self).inv(),
        ensures
            final(self).inv(),
            final(self).module() == old(self).module(),
            final(self).consumed() == old(self).consumed(),
            final(self).limit() == old(self).limit(),
            final(self).status() == old(self).status(),
            r is Ok <==> crate::memory::in_bounds(
                old(self).machine().memory.len(),
                offset as int,
                bytes@.len() as int,
            ),
            r is Ok ==> final(self).machine() == (MachineView {
                memory: crate::memory::overwrite(old(self).machine().memory, offset as int, bytes@),
                ..old(self).machine()
            }),
            r is Err ==> final(self).machine() == old(self).machine(),
            r matches Err(t) ==> t == Trap::OutOfBoundsMemoryAccess,
    {
        self.memory.write(offset, bytes)
    }

    /// The arguments of the host call the instance is waiting at.
    pub fn host_arguments(&self) -> (r: Vec<u64>)
        requires
            self.inv(),
            self.status() == Status::AwaitingHost,
        ensures
            r@ == pending_arguments(self.module(), self.machine()),
    {
        let fr = self.frames[self.frames.len() - 1];
        let f = &self.module.functions[fr.func];
        let ghost m = self.module@;
        assert(m.functions[fr.func as int] == f@);
        assert(function_typed(m, m.functions[fr.func as int]));
        let instr = f.code[fr.pc];
        assert(instr_typed(m, f@, f@.code[fr.pc as int]));
        let mut out: Vec<u64> = Vec::new();
        match instr {
            Instr::CallHost { import, first_arg, .. } => {
                let count: usize = self.module.imports[import as usize].params.len();
                assert(m.imports[import as int] == self.module.imports[import as int]@);
                let size: usize = self.stack.len();
                let start: usize = fr.base + first_arg as usize;
                let mut k: usize = 0;
                while k < count
                    invariant
                        k <= count,
                        start + count <= self.stack@.len() == size,
                        out@ == self.stack@.subrange(start as int, start + k),
                    decreases count - k,
                {
                    out.push(self.stack[start + k]);
                    k = k + 1;
                }
            },
            _ => {},
        }
        out
    }

    fn store(&mut self, r: u8, v: u64)
        requires
            old(self).frames@.len() >= 1,
            top(old(self).machine()).base + r < old(self).stack@.len(),
        ensures
            final(self).machine() == write_local(old(self).machine(), r, v),
            final(self).module == old(self).module,
            final(self).budget == old(self).budget,
            final(self).status == old(self).status,
    {
        let fr = self.frames[self.frames.len() - 1];
        let size: usize = self.stack.len();
        self.stack.set(fr.base + r as usize, v);
    }

    fn goto(&mut self, pc: usize)
        requires
            old(self).frames@.len() >= 1,
        ensures
            final(self).machine() == jump(old(self).machine(), pc as int),
            final(self).module == old(self).module,
            final(self).budget == old(self).budget,
            final(self).status == old(self).status,
    {
        let last: usize = self.frames.len() - 1;
        let fr = self.frames[last];
        self.frames.set(last, Frame { func: fr.func, pc, base: fr.base });
    }

    fn local(&self, r: u8) -> (v: u64)
        requires
            self.frames@.len() >= 1,
            top(self.machine()).base + r < self.stack@.len(),
        ensures
            v == read_local(self.machine(), r),
    {
        let fr = self.frames[self.frames.len() - 1];
        let size: usize = self.stack.len();
        self.stack[fr.base + r as usize]
    }

    fn fetch(&self) -> (instr: Instr)
        requires
            self.inv(),
        ensures
            instr == current_instr(self.module(), self.machine()),
            instr_typed(
                self.module(),
                self.module().functions[top(self.machine()).func as int],
                instr,
            ),
            function_typed(self.module(), self.module().functions[top(self.machine()).func as int]),
            function_branches_ok(self.module().functions[top(self.machine()).func as int]),
    {
        let fr = self.frames[self.frames.len() - 1];
        assert(crate::machine::frame_ok(self.module@, self.machine().frames[self.frames@.len() - 1]));
        let f = &self.module.functions[fr.func];
        assert(self.module@.functions[fr.func as int] == f@);
        f.code[fr.pc]
    }

    fn leave(&mut self, value: Option<u64>)
        requires
            old(self).inv(),
            old(self).frames@.len() > 1,
            value is Some ==> current_instr(old(self).module(), old(self).machine()) is Return,
            value is None ==> current_instr(old(self).module(), old(self).machine()) is ReturnVoid,
        ensures
            final(self).machine() == returned(old(self).module(), old(self).machine(), value),
            machine_inv(final(self).module(), final(self).machine()),
            final(self).module == old(self).module,
            final(self).budget == old(self).budget,
            final(self).status == old(self).status,
    {
        let ghost m = self.module@;
        let ghost s = self.machine();
        let _ = self.fetch();
        let fr = self.frames[self.frames.len() - 1];
        assert(crate::machine::linked(m, s.frames[s.frames.len() - 2], s.frames[s.frames.len() - 1]));
        self.frames.pop();
        self.stack.truncate(fr.base);
        let caller = self.frames[self.frames.len() - 1];
        assert(caller == s.frames[s.frames.len() - 2]);
        assert(crate::machine::frame_ok(m, s.frames[s.frames.len() - 2]));
        let cf = &self.module.functions[caller.func];
        assert(m.functions[caller.func as int] == cf@);
        assert(function_typed(m, m.functions[caller.func as int]));
        assert(function_branches_ok(m.functions[caller.func as int]));
        let length: usize = cf.code.len();
        let call = cf.code[caller.pc];
        assert(instr_typed(m, cf@, cf@.code[caller.pc as int]));
        assert(crate::validate::branch_in_range(cf@.code.len(), cf@.code[caller.pc as int]));
        let ghost popped = self.machine();
        assert(popped =~= MachineView {
            frames: s.frames.drop_last(),
            stack: s.stack.take(top(s).base as int),
            ..s
        });
        match (value, call) {
            (Some(v), Instr::Call { dst, .. }) => {
                self.store(dst, v);
            },
            _ => {},
        }
        self.goto(caller.pc + 1);
        proof {
            let t = self.machine();
            assert forall|i: int| 0 <= i < t.frames.len() implies crate::machine::frame_ok(
                m,
                #[trigger] t.frames[i],
            ) && t.frames[i].base <= i * 256 by {
                assert(crate::machine::frame_ok(m, s.frames[i]));
            }
            assert forall|i: int| 0 < i < t.frames.len() implies crate::machine::linked(
                m,
                t.frames[i - 1],
                #[trigger] t.frames[i],
            ) by {
                assert(crate::machine::linked(m, s.frames[i - 1], s.frames[i]));
            }
        }
    }

    fn enter(&mut self, func: u8, first_arg: u8)
        requires
            old(self).inv(),
            old(self).frames@.len() < MAX_CALL_DEPTH,
            current_instr(old(self).module(), old(self).machine()) matches Instr::Call {
                func: f,
                first_arg: a,
                ..
            } && f == func && a == first_arg,
        ensures
            apply_spec(old(self).module(), old(self).machine()) == Effect::Continue(
                final(self).machine(),
            ),
            machine_inv(final(self).module(), final(self).machine()),
            final(self).module == old(self).module,
            final(self).budget == old(self).budget,
            final(self).status == old(self).status,
    {
        let ghost m = self.module@;
        let ghost s = self.machine();
        let _ = self.fetch();
        let fr = self.frames[self.frames.len() - 1];
        assert(s.frames[s.frames.len() - 1].base <= (s.frames.len() - 1) * 256);
        let callee = &self.module.functions[func as usize];
        assert(m.functions[func as int] == callee@);
        assert(function_typed(m, m.functions[func as int]));
        assert(function_branches_ok(m.functions[func as int]));
        let base: usize = self.stack.len();
        push_locals(
            &mut self.stack,
            fr.base + first_arg as usize,
            callee.params as usize,
            callee.locals.len(),
        );
        self.frames.push(Frame { func: func as usize, pc: 0, base });
        proof {
            let t = self.machine();
            assert(t.stack =~= s.stack + fresh_locals(
                s,
                first_arg,
                callee@.params as nat,
                callee@.locals.len(),
            ));
            assert(t.frames =~= s.frames.push(Frame { func: func as usize, pc: 0, base }));
            assert forall|i: int| 0 <= i < t.frames.len() implies crate::machine::frame_ok(
                m,
                #[trigger] t.frames[i],
            ) && t.frames[i].base <= i * 256 by {
                if i < s.frames.len() {
                    assert(crate::machine::frame_ok(m, s.frames[i]));
                }
            }
            assert forall|i: int| 0 < i < t.frames.len() implies crate::machine::linked(
                m,
                t.frames[i - 1],
                #[trigger] t.frames[i],
            ) by {
                if i < s.frames.len() {
                    assert(crate::machine::linked(m, s.frames[i - 1], s.frames[i]));
                }
            }
        }
    }

    fn halt(&mut self)
        ensures
            final(self).machine() == old(self).machine(),
            final(self).module == old(self).module,
            final(self).budget == old(self).budget,
            final(self).status == Status::Halted,
    {
        self.status = Status::Halted;
    }

    fn step_over(&mut self)
        requires
            old(self).inv(),
            !is_terminator(current_instr(old(self).module(), old(self).machine())),
        ensures
            final(self).machine() == advance(old(self).machine()),
            machine_inv(final(self).module(), final(self).machine()),
            final(self).module == old(self).module,
            final(self).budget == old(self).budget,
            final(self).status == old(self).status,
    {
        let ghost m = self.module@;
        let ghost s = self.machine();
        let _ = self.fetch();
        let fr = self.frames[self.frames.len() - 1];
        let length: usize = self.module.functions[fr.func].code.len();
        assert(m.functions[fr.func as int] == self.module.functions[fr.func as int]@);
        self.goto(fr.pc + 1);
        proof {
            lemma_jump_keeps_shape(m, s, fr.pc + 1);
        }
    }

    fn branch(&mut self, target: u32)
        requires
            old(self).inv(),
            target < old(self).module().functions[top(old(self).machine()).func as int].code.len(),
        ensures
            final(self).machine() == jump(old(self).machine(), target as int),
            machine_inv(final(self).module(), final(self).machine()),
            final(self).module == old(self).module,
            final(self).budget == old(self).budget,
            final(self).status == old(self).status,
    {
        let ghost m = self.module@;
        let ghost s = self.machine();
        self.goto(target as usize);
        proof {
            lemma_jump_keeps_shape(m, s, target as int);
        }
    }

    /// Executes the instruction at the program counter, already paid for.
    fn apply(&mut self, instr: Instr) -> (r: Option<Outcome>)
        requires
            old(self).inv(),
            instr == current_instr(old(self).module(), old(self).machine()),
        ensures
            final(self).module == old(self).module,
            final(self).budget == old(self).budget,
            machine_inv(final(self).module(), final(self).machine()),
            match apply_spec(old(self).module(), old(self).machine()) {
                Effect::Continue(next) => r is None && final(self).machine() == next && final(self).status == old(self).status,
                Effect::Finished(v) => r == Some(Outcome::Completed(v)) && final(self).machine()
                    == old(self).machine() && final(self).status == Status::Halted,
                Effect::Trapped(t) => r == Some(Outcome::Trapped(t)) && final(self).machine()
                    == old(self).machine() && final(self).status == Status::Halted,
                Effect::Host(i) => r == Some(Outcome::HostCall(i)) && final(self).machine() == old(self).machine() && final(self).status == Status::AwaitingHost,
            },
    {
        let _ = self.fetch();
        match instr {
            Instr::Const { dst, value } => {
                self.store(dst, value);
                self.step_over();
                None
            },
            Instr::Binary { op, ty, dst, lhs, rhs } => {
                let a = self.local(lhs);
                let b = self.local(rhs);
                match binary(op, ty, a, b) {
                    Some(v) => {
                        self.store(dst, v);
                        self.step_over();
                        None
                    },
                    None => {
                        self.halt();
                        Some(Outcome::Trapped(Trap::DivisionByZero))
                    },
                }
            },
            Instr::Load8 { dst, addr, offset } => {
                let a: u64 = truncated(ValueType::I32, self.local(addr)) + offset as u64;
                match self.memory.read(a, 1) {
                    Ok(bytes) => {
                        self.store(dst, bytes[0] as u64);
                        self.step_over();
                        None
                    },
                    Err(_) => {
                        self.halt();
                        Some(Outcome::Trapped(Trap::OutOfBoundsMemoryAccess))
                    },
                }
            },
            Instr::Store8 { addr, src, offset } => {
                let a: u64 = truncated(ValueType::I32, self.local(addr)) + offset as u64;
                let byte: u8 = (self.local(src) % 256) as u8;
                let buf: Vec<u8> = vec![byte];
                assert(buf@ =~= seq![byte]);
                match self.memory.write(a, buf.as_slice()) {
                    Ok(()) => {
                        self.step_over();
                        None
                    },
                    Err(_) => {
                        self.halt();
                        Some(Outcome::Trapped(Trap::OutOfBoundsMemoryAccess))
                    },
                }
            },
            Instr::MemoryGrow { dst, delta } => {
                let d: u64 = truncated(ValueType::I32, self.local(delta));
                let pages: u32 = self.memory.size_pages();
                match self.memory.grow(d as u32) {
                    Ok(_) => {
                        self.store(dst, pages as u64);
                    },
                    Err(_) => {
                        self.store(dst, 0xFFFF_FFFF);
                    },
                }
                self.step_over();
                None
            },
            Instr::Jump { target } => {
                self.branch(target);
                None
            },
            Instr::JumpIf { cond, target } => {
                if truncated(ValueType::I32, self.local(cond)) != 0 {
                    self.branch(target);
                } else {
                    self.step_over();
                }
                None
            },
            Instr::Call { func, first_arg, dst } => {
                if self.frames.len() >= MAX_CALL_DEPTH {
                    self.halt();
                    Some(Outcome::Trapped(Trap::StackOverflow))
                } else {
                    self.enter(func, first_arg);
                    None
                }
            },
            Instr::CallHost { import, .. } => {
                self.status = Status::AwaitingHost;
                Some(Outcome::HostCall(import))
            },
            Instr::Return { src } => {
                let v = self.local(src);
                if self.frames.len() == 1 {
                    self.halt();
                    Some(Outcome::Completed(Some(v)))
                } else {
                    self.leave(Some(v));
                    None
                }
            },
            Instr::ReturnVoid => {
                if self.frames.len() == 1 {
                    self.halt();
                    Some(Outcome::Completed(None))
                } else {
                    self.leave(None);
                    None
                }
            },
            Instr::Unreachable => {
                self.halt();
                Some(Outcome::Trapped(Trap::UnreachableInstruction))
            },
        }
    }

    /// Runs until the invocation completes, traps, calls the host or runs out of budget.
    pub fn run(&mut self) -> (out: Outcome)
        requires
            old(self).inv(),
            old(self).status() == Status::Running,
        ensures
            final(self).inv(),
            final(self).module() == old(self).module(),
            final(self).limit() == old(self).limit(),
            final(self).status() == status_after(out),
            (Halt { outcome: out, consumed: final(self).consumed(), machine: final(self).machine() })
                == run_spec(
                old(self).module(),
                old(self).machine(),
                old(self).consumed(),
                old(self).limit(),
            ),
            final(self).consumed() <= final(self).limit(),
            out == Outcome::BudgetExhausted ==> final(self).consumed() == final(self).limit(),
            out != Outcome::BudgetExhausted ==> final(self).consumed() > old(self).consumed(),
            out matches Outcome::HostCall(i) ==> i < final(self).module().imports.len(),
    {
        let ghost m = self.module@;
        let ghost goal = run_spec(m, self.machine(), self.consumed(), self.limit());
        proof {
            crate::machine::lemma_run_within_budget(
                m,
                self.machine(),
                self.consumed(),
                self.limit(),
            );
        }
        loop
            invariant
                self.inv(),
                self.status == Status::Running,
                self.module == old(self).module,
                m == self.module@,
                self.limit() == old(self).limit(),
                goal == run_spec(m, self.machine(), self.consumed(), self.limit()),
                goal == run_spec(
                    old(self).module(),
                    old(self).machine(),
                    old(self).consumed(),
                    old(self).limit(),
                ),
                goal.consumed <= self.limit(),
                goal.outcome == Outcome::BudgetExhausted ==> goal.consumed == self.limit(),
                goal.outcome != Outcome::BudgetExhausted ==> goal.consumed > old(self).consumed(),
            decreases self.limit() - self.consumed(),
        {
            let instr = self.fetch();
            if !self.budget.charge(cost_of(instr)) {
                self.status = Status::Halted;
                return Outcome::BudgetExhausted;
            }
            match self.apply(instr) {
                Some(outcome) => {
                    return outcome;
                },
                None => {},
            }
        }
    }

    /// Takes the host's answer to the pending call: stores what the reply
    /// wants stored, hands its value to the caller and runs on.
    pub fn deliver(&mut self, answer: Result<HostReply, String>) -> (out: Outcome)
        requires
            old(self).inv(),
            old(self).status() == Status::AwaitingHost,
        ensures
            final(self).inv(),
            final(self).module() == old(self).module(),
            final(self).limit() == old(self).limit(),
            final(self).status() == status_after(out),
            old(self).consumed() <= final(self).consumed() <= final(self).limit(),
            out == Outcome::BudgetExhausted ==> final(self).consumed() == final(self).limit(),
            out is HostCall ==> final(self).consumed() > old(self).consumed(),
            out matches Outcome::HostCall(i) ==> i < final(self).module().imports.len(),
            (Halt { outcome: out, consumed: final(self).consumed(), machine: final(self).machine() })
                == deliver_spec(
                old(self).module(),
                old(self).machine(),
                old(self).consumed(),
                old(self).limit(),
                answer,
            ),
    {
        match answer {
            Err(reason) => self.resume(Err(reason)),
            Ok(reply) => {
                let stored = match &reply.write {
                    Some(w) => self.write_memory(w.offset, w.bytes.as_slice()),
                    None => Ok(()),
                };
                match stored {
                    Ok(()) => self.resume(Ok(reply.value)),
                    Err(trap) => {
                        self.halt();
                        Outcome::Trapped(trap)
                    },
                }
            },
        }
    }

    /// Hands the host's reply to the pending call and runs on. A failure
    /// reported by the host ends the invocation with a trap.
    pub fn resume(&mut self, reply: Result<u64, String>) -> (out: Outcome)
        requires
            old(self).inv(),
            old(self).status() == Status::AwaitingHost,
        ensures
            final(self).inv(),
            final(self).module() == old(self).module(),
            final(self).limit() == old(self).limit(),
            final(self).status() == status_after(out),
            final(self).consumed() <= final(self).limit(),
            out == Outcome::BudgetExhausted ==> final(self).consumed() == final(self).limit(),
            final(self).consumed() >= old(self).consumed(),
            out is HostCall ==> final(self).consumed() > old(self).consumed(),
            out matches Outcome::HostCall(i) ==> i < final(self).module().imports.len(),
            match reply {
                Ok(value) => (Halt {
                    outcome: out,
                    consumed: final(self).consumed(),
                    machine: final(self).machine(),
                }) == run_spec(
                    old(self).module(),
                    resumed(old(self).module(), old(self).machine(), value),
                    old(self).consumed(),
                    old(self).limit(),
                ),
                Err(reason) => {
                    &&& out == Outcome::Trapped(Trap::HostFunctionFailure(reason))
                    &&& final(self).consumed() == old(self).consumed()
                    &&& final(self).machine() == old(self).machine()
                },
            },
    {
        match reply {
            Err(reason) => {
                self.halt();
                Outcome::Trapped(Trap::HostFunctionFailure(reason))
            },
            Ok(value) => {
                let ghost m = self.module@;
                let instr = self.fetch();
                match instr {
                    Instr::CallHost { import, dst, .. } => {
                        assert(m.imports[import as int] == self.module.imports[import as int]@);
                        match self.module.imports[import as usize].result {
                            Some(ty) => {
                                self.store(dst, truncated(ty, value));
                            },
                            None => {},
                        }
                        self.step_over();
                    },
                    _ => {},
                }
                self.status = Status::Running;
                self.run()
            },
        }
    }
}

} // verus!
