//! The facade: from module bytes and an invocation request to a classified result.

use vstd::prelude::*;
use vstd::string::StringSliceAdditionalSpecFns;
use crate::decode::{decode, decode_spec};
use crate::instance::{
    deliver_spec, initial_machine, signature_matches, status_after, HostReply, Instance, Status,
};
use crate::machine::{run_spec, truncate, truncated, Halt, Outcome};
use crate::memory::LinearMemory;
use crate::module::{
    CapabilityTable, ExportView, HostSignature, HostSignatureView, Module, ModuleView, Value,
    ValueType,
};
use crate::trap::{EngineError, Trap, ValidationError};
use crate::validate::{
    branch_in_range, check_imports, imports_resolved, runnable, validate, validation_verdict,
};

verus! {

/// `wasmtime::Engine`, carried as an opaque value.
#[verifier::external_type_specification]
#[verifier::external_body]
pub struct ExEngine(wasmtime::Engine);

/// `wasmtime::Store`, carried as an opaque value.
#[verifier::external_type_specification]
#[verifier::external_body]
#[verifier::reject_recursive_types(T)]
pub struct ExStore<T: 'static>(wasmtime::Store<T>);

/// Calls `<wasmtime::Engine as Default>::default`, which builds an engine from
/// the default configuration and unwraps it; it takes no input, and fails only
/// where the process cannot allocate. Nothing is claimed of the engine it
/// returns, and nothing was proved of the call.
#[verifier::external_body]
fn default_engine() -> (engine: wasmtime::Engine) {
    wasmtime::Engine::default()
}

/// Calls `wasmtime::Store::new` with the unit value as the store's data; it
/// fails only where the process cannot allocate. Nothing is claimed of the
/// store it returns, and nothing was proved of the call.
#[verifier::external_body]
fn new_store(engine: &wasmtime::Engine) -> (store: wasmtime::Store<()>) {
    wasmtime::Store::new(engine, ())
}

/// The host side of the bridge. The engine relays each call of a granted
/// capability to it and never looks inside.
pub trait HostContext {
    /// Performs `capability` on `arguments`. The memory is the instance's
    /// own, for reading; an `Err` ends the invocation with a trap.
    fn call(
        &mut self,
        capability: &HostSignature,
        arguments: &Vec<u64>,
        memory: &LinearMemory,
    ) -> Result<HostReply, String>;
}

/// How an invocation ended.
#[derive(Debug, Clone, PartialEq, Eq)]
pub enum ExecutionResult {
    Success { output: Vec<u8>, budget_consumed: u64 },
    Trapped { trap: Trap, budget_consumed: u64 },
    BudgetExhausted { budget_consumed: u64 },
}

/// The `count` low bytes of `v`, lowest first.
pub open spec fn le_bytes(v: nat, count: nat) -> Seq<u8>
    decreases count,
{
    if count == 0 {
        Seq::empty()
    } else {
        seq![(v % 256) as u8] + le_bytes(v / 256, (count - 1) as nat)
    }
}

/// The output of a completed invocation: the returned value in as many
/// little-endian bytes as its type is wide, or nothing.
pub open spec fn output_spec(value: Option<u64>, ty: Option<ValueType>) -> Seq<u8> {
    match (value, ty) {
        (Some(v), Some(ValueType::I32)) => le_bytes(truncate(ValueType::I32, v as int) as nat, 4),
        (Some(v), Some(ValueType::I64)) => le_bytes(v as nat, 8),
        _ => Seq::empty(),
    }
}

/// The function exported under `name`: the first export of that name counts.
pub open spec fn lookup_export(exports: Seq<ExportView>, name: Seq<u8>) -> Option<u8>
    decreases exports.len(),
{
    if exports.len() == 0 {
        None
    } else if exports[0].name == name {
        Some(exports[0].func)
    } else {
        lookup_export(exports.drop_first(), name)
    }
}

/// What loading answers for `bytes` under a capability table.
pub open spec fn load_spec(bytes: Seq<u8>, caps: Seq<HostSignatureView>) -> Result<
    ModuleView,
    ValidationError,
> {
    match decode_spec(bytes) {
        None => Err(ValidationError::MalformedEncoding),
        Some(m) => match validation_verdict(m, caps) {
            Err(e) => Err(e),
            Ok(()) => Ok(m),
        },
    }
}

/// Everything that is decided before the first instruction runs: the module
/// and the function to invoke, or the error the request ends with.
pub open spec fn prepare_spec(
    bytes: Seq<u8>,
    caps: Seq<HostSignatureView>,
    entry: Seq<u8>,
    args: Seq<Value>,
) -> Result<(ModuleView, u8), EngineError> {
    match load_spec(bytes, caps) {
        Err(ValidationError::UnresolvedImport) => Err(EngineError::InstantiationFailed),
        Err(e) => Err(EngineError::Validation(e)),
        Ok(m) => match lookup_export(m.exports, entry) {
            None => Err(EngineError::EntryPointNotFound),
            Some(f) => if signature_matches(m, f as int, args) {
                Ok((m, f))
            } else {
                Err(EngineError::SignatureMismatch)
            },
        },
    }
}

/// Where an invocation that stopped at `halt` stands once the host has given
/// `answers`, in this order, to the calls the module made. Answers that are
/// left when the invocation has ended are never asked for.
pub open spec fn replay_spec(
    m: ModuleView,
    halt: Halt,
    limit: nat,
    answers: Seq<Result<HostReply, String>>,
) -> Halt
    decreases answers.len(),
{
    if answers.len() == 0 || !(halt.outcome is HostCall) {
        halt
    } else {
        replay_spec(
            m,
            deliver_spec(m, halt.machine, halt.consumed, limit, answers[0]),
            limit,
            answers.drop_first(),
        )
    }
}

/// The host's `answers` carry the invocation of function `f` from its start to
/// its end, and `result` reports that end.
pub open spec fn explains(
    m: ModuleView,
    f: u8,
    args: Seq<Value>,
    limit: nat,
    answers: Seq<Result<HostReply, String>>,
    result: ExecutionResult,
) -> bool {
    let first = run_spec(m, initial_machine(m, f as int, args), 0, limit);
    let last = replay_spec(m, first, limit, answers);
    !(last.outcome is HostCall) && result.reports(
        last.outcome,
        m.functions[f as int].result,
        last.consumed,
    )
}

proof fn lemma_replay_one_more(
    m: ModuleView,
    halt: Halt,
    limit: nat,
    answers: Seq<Result<HostReply, String>>,
    next: Result<HostReply, String>,
)
    requires
        replay_spec(m, halt, limit, answers).outcome is HostCall,
    ensures
        replay_spec(m, halt, limit, answers.push(next)) == deliver_spec(
            m,
            replay_spec(m, halt, limit, answers).machine,
            replay_spec(m, halt, limit, answers).consumed,
            limit,
            next,
        ),
    decreases answers.len(),
{
    if answers.len() == 0 {
        let after = deliver_spec(m, halt.machine, halt.consumed, limit, next);
        assert(answers.push(next).drop_first() =~= Seq::empty());
        assert(answers.push(next)[0] == next);
        assert(replay_spec(m, after, limit, Seq::empty()) == after);
        assert(replay_spec(m, halt, limit, answers) == halt);
    } else {
        let after = deliver_spec(m, halt.machine, halt.consumed, limit, answers[0]);
        assert(answers.push(next).drop_first() =~= answers.drop_first().push(next));
        assert(answers.push(next)[0] == answers[0]);
        lemma_replay_one_more(m, after, limit, answers.drop_first(), next);
    }
}

impl ExecutionResult {
    pub open spec fn consumed(self) -> nat {
        match self {
            ExecutionResult::Success { budget_consumed, .. } => budget_consumed as nat,
            ExecutionResult::Trapped { budget_consumed, .. } => budget_consumed as nat,
            ExecutionResult::BudgetExhausted { budget_consumed } => budget_consumed as nat,
        }
    }

    /// The result says exactly what `outcome` and `consumed` say, the returned
    /// value written as the bytes of a value of type `ty`.
    pub open spec fn reports(self, outcome: Outcome, ty: Option<ValueType>, consumed: nat) -> bool {
        match (self, outcome) {
            (
                ExecutionResult::Success { output, budget_consumed },
                Outcome::Completed(v),
            ) => output@ == output_spec(v, ty) && budget_consumed == consumed,
            (
                ExecutionResult::Trapped { trap, budget_consumed },
                Outcome::Trapped(t),
            ) => trap == t && budget_consumed == consumed,
            (
                ExecutionResult::BudgetExhausted { budget_consumed },
                Outcome::BudgetExhausted,
            ) => budget_consumed == consumed,
            _ => false,
        }
    }

    /// The units the invocation consumed.
    pub fn budget_consumed(&self) -> (r: u64)
        ensures
            r == self.consumed(),
    {
        match self {
            ExecutionResult::Success { budget_consumed, .. } => *budget_consumed,
            ExecutionResult::Trapped { budget_consumed, .. } => *budget_consumed,
            ExecutionResult::BudgetExhausted { budget_consumed } => *budget_consumed,
        }
    }
}

/// Writes a returned value as output bytes.
pub fn output_bytes(value: Option<u64>, ty: Option<ValueType>) -> (r: Vec<u8>)
    ensures
        r@ == output_spec(value, ty),
{
    let mut out: Vec<u8> = Vec::new();
    match (value, ty) {
        (Some(v), Some(t)) => {
            let count: usize = match t {
                ValueType::I32 => 4,
                ValueType::I64 => 8,
            };
            let start: u64 = truncated(t, v);
            let mut rest: u64 = start;
            let mut k: usize = 0;
            while k < count
                invariant
                    k <= count,
                    out@ + le_bytes(rest as nat, (count - k) as nat) == le_bytes(
                        start as nat,
                        count as nat,
                    ),
                decreases count - k,
            {
                let ghost before = out@;
                out.push((rest % 256) as u8);
                assert(out@ + le_bytes((rest / 256) as nat, (count - k - 1) as nat) =~= before
                    + le_bytes(rest as nat, (count - k) as nat));
                rest = rest / 256;
                k = k + 1;
            }
            assert(out@ + le_bytes(rest as nat, 0) =~= out@);
        },
        _ => {},
    }
    out
}

/// Decodes and validates a module.
pub fn load(bytes: &[u8], caps: &CapabilityTable) -> (r: Result<Module, ValidationError>)
    ensures
        match load_spec(bytes@, caps@) {
            Ok(m) => r matches Ok(module) && module@ == m,
            Err(e) => r matches Err(x) && x == e,
        },
{
    match decode(bytes) {
        None => Err(ValidationError::MalformedEncoding),
        Some(module) => match validate(&module, caps) {
            Ok(()) => Ok(module),
            Err(e) => Err(e),
        },
    }
}

/// Looks an entry point up in the export table.
pub fn find_export(module: &Module, name: &[u8]) -> (r: Option<u8>)
    ensures
        r == lookup_export(module@.exports, name@),
        r matches Some(f) ==> exists|e: int|
            0 <= e < module@.exports.len() && (#[trigger] module@.exports[e]).func == f,
{
    let mut i: usize = 0;
    assert(module@.exports.skip(0) =~= module@.exports);
    while i < module.exports.len()
        invariant
            i <= module.exports@.len(),
            lookup_export(module@.exports, name@) == lookup_export(
                module@.exports.skip(i as int),
                name@,
            ),
        decreases module.exports@.len() - i,
    {
        let export = &module.exports[i];
        assert(module@.exports.skip(i as int)[0] == export@);
        assert(module@.exports.skip(i as int).drop_first() =~= module@.exports.skip(i + 1));
        if export.name.len() == name.len() && same_bytes(&export.name, name) {
            assert(module@.exports[i as int].func == export.func);
            return Some(export.func);
        }
        i = i + 1;
    }
    assert(module@.exports.skip(i as int).len() == 0);
    None
}

fn same_bytes(a: &Vec<u8>, b: &[u8]) -> (r: bool)
    requires
        a@.len() == b@.len(),
    ensures
        r == (a@ == b@),
{
    let mut i: usize = 0;
    while i < a.len()
        invariant
            i <= a@.len() == b@.len(),
            forall|j: int| 0 <= j < i ==> a@[j] == b@[j],
        decreases a@.len() - i,
    {
        if a[i] != b[i] {
            return false;
        }
        i = i + 1;
    }
    assert(a@ =~= b@);
    true
}

/// Binds a validated module to a capability table and makes it ready to run
/// `func` on `args`: every import must be granted, the function must exist and
/// the arguments must fit it.
pub fn instantiate<'a>(
    module: &'a Module,
    caps: &CapabilityTable,
    func: u8,
    args: &Vec<Value>,
    budget: u64,
) -> (r: Result<Instance<'a>, EngineError>)
    requires
        runnable(module@),
    ensures
        !imports_resolved(module@, caps@) ==> (r matches Err(e) && e
            == EngineError::InstantiationFailed),
        imports_resolved(module@, caps@) && func >= module@.functions.len() ==> (r matches Err(e)
            && e == EngineError::EntryPointNotFound),
        imports_resolved(module@, caps@) && func < module@.functions.len() && !signature_matches(
            module@,
            func as int,
            args@,
        ) ==> (r matches Err(e) && e == EngineError::SignatureMismatch),
        imports_resolved(module@, caps@) && func < module@.functions.len() && signature_matches(
            module@,
            func as int,
            args@,
        ) ==> r is Ok,
        r matches Ok(inst) ==> {
            &&& inst.inv()
            &&& inst.module() == module@
            &&& inst.machine() == initial_machine(module@, func as int, args@)
            &&& inst.consumed() == 0
            &&& inst.limit() == budget
            &&& inst.status() == Status::Running
        },
{
    if !check_imports(module, caps) {
        return Err(EngineError::InstantiationFailed);
    }
    Instance::new(module, func, args, budget)
}

/// The engine: the capabilities it grants and the runtime handles it was built with.
pub struct NusaVM {
    engine: wasmtime::Engine,
    store: wasmtime::Store<()>,
    capabilities: CapabilityTable,
}

impl NusaVM {
    /// The capabilities this engine grants to the modules it runs.
    pub closed spec fn capabilities(&self) -> Seq<HostSignatureView> {
        self.capabilities@
    }

    /// An engine that grants nothing.
    pub fn new() -> (vm: NusaVM)
        ensures
            vm.capabilities() == Seq::<HostSignatureView>::empty(),
    {
        let engine = default_engine();
        let store = new_store(&engine);
        NusaVM { engine, store, capabilities: CapabilityTable::new() }
    }

    /// Grants one more capability to every module run from now on.
    pub fn grant(&mut self, capability: HostSignature)
        ensures
            final(self).capabilities() == old(self).capabilities().push(capability@),
    {
        self.capabilities.grant(capability);
    }

    /// Runs one invocation from module bytes to its result.
    ///
    /// Which error a request ends with, if any, depends on the bytes, the
    /// granted capabilities, the entry point and the arguments alone. A request
    /// that gets past them always yields a result, which never reports more
    /// than `budget` units. An invocation that stops without calling the host
    /// yields exactly the result of the metered run. A module without imports
    /// leaves the host as it was.
    #[verifier::loop_isolation(false)]
    pub fn execute_contract<H: HostContext>(
        &self,
        module_bytes: &[u8],
        entry_point: &str,
        arguments: &Vec<Value>,
        budget: u64,
        host: &mut H,
    ) -> (r: Result<ExecutionResult, EngineError>)
        ensures
            match prepare_spec(
                module_bytes@,
                self.capabilities(),
                entry_point.spec_bytes(),
                arguments@,
            ) {
                Err(e) => r matches Err(x) && x == e && *final(host) == *old(host),
                Ok((m, f)) => {
                    let first = run_spec(m, initial_machine(m, f as int, arguments@), 0, budget as nat);
                    &&& r matches Ok(result) && {
                        &&& result.consumed() <= budget
                        &&& result is BudgetExhausted ==> result.consumed() == budget
                        &&& !(first.outcome is HostCall) ==> result.reports(
                            first.outcome,
                            m.functions[f as int].result,
                            first.consumed,
                        )
                        &&& exists|answers: Seq<Result<HostReply, String>>| #[trigger]
                            explains(m, f, arguments@, budget as nat, answers, result)
                    }
                    &&& (m.imports.len() == 0 || !(first.outcome is HostCall)) ==> *final(host)
                        == *old(host)
                },
            },
    {
        let module = match load(module_bytes, &self.capabilities) {
            Ok(m) => m,
            Err(ValidationError::UnresolvedImport) => {
                return Err(EngineError::InstantiationFailed);
            },
            Err(e) => {
                return Err(EngineError::Validation(e));
            },
        };
        let func = match find_export(&module, entry_point.as_bytes()) {
            Some(f) => f,
            None => {
                return Err(EngineError::EntryPointNotFound);
            },
        };
        let mut inst = match instantiate(&module, &self.capabilities, func, arguments, budget) {
            Ok(i) => i,
            Err(e) => {
                return Err(e);
            },
        };
        let ty = module.functions[func as usize].result;
        assert(module@.functions[func as int].result == ty);
        let ghost first = run_spec(
            module@,
            initial_machine(module@, func as int, arguments@),
            0,
            budget as nat,
        );
        let mut outcome = inst.run();
        let ghost mut answers: Seq<Result<HostReply, String>> = Seq::empty();
        loop
            invariant
                replay_spec(module@, first, budget as nat, answers) == (Halt {
                    outcome,
                    consumed: inst.consumed(),
                    machine: inst.machine(),
                }),
                inst.inv(),
                inst.module() == module@,
                inst.limit() == budget,
                inst.status() == status_after(outcome),
                inst.consumed() <= budget,
                outcome == Outcome::BudgetExhausted ==> inst.consumed() == budget,
                outcome matches Outcome::HostCall(i) ==> i < module@.imports.len(),
                !(first.outcome is HostCall) ==> outcome == first.outcome && inst.consumed()
                    == first.consumed,
                (module@.imports.len() == 0 || !(first.outcome is HostCall)) ==> *host == *old(host),
                ty == module@.functions[func as int].result,
            decreases budget - inst.consumed(), (if outcome is HostCall { 1int } else { 0int }),
        {
            match outcome {
                Outcome::HostCall(i) => {
                    let args = inst.host_arguments();
                    let reply = host.call(&module.imports[i as usize], &args, inst.memory());
                    proof {
                        lemma_replay_one_more(module@, first, budget as nat, answers, reply);
                        answers = answers.push(reply);
                    }
                    outcome = inst.deliver(reply);
                },
                Outcome::Completed(value) => {
                    let result = ExecutionResult::Success {
                            output: output_bytes(value, ty),
                            budget_consumed: inst.budget_consumed(),
                        };
                    assert(explains(module@, func, arguments@, budget as nat, answers, result));
                    return Ok(result);
                },
                Outcome::Trapped(trap) => {
                    let result = ExecutionResult::Trapped { trap, budget_consumed: inst.budget_consumed() };
                    assert(explains(module@, func, arguments@, budget as nat, answers, result));
                    return Ok(result);
                },
                Outcome::BudgetExhausted => {
                    let result = ExecutionResult::BudgetExhausted { budget_consumed: inst.budget_consumed() };
                    assert(explains(module@, func, arguments@, budget as nat, answers, result));
                    return Ok(result);
                },
            }
        }
    }
}

/// A module in which some branch leaves its function is refused by the loader,
/// so no request for it gets as far as instantiation.
pub proof fn lemma_stray_branch_never_runs(
    bytes: Seq<u8>,
    caps: Seq<HostSignatureView>,
    entry: Seq<u8>,
    args: Seq<Value>,
    func: int,
    pc: int,
)
    requires
        decode_spec(bytes) matches Some(m) && 0 <= func < m.functions.len() && 0 <= pc
            < m.functions[func].code.len() && !branch_in_range(
            m.functions[func].code.len(),
            m.functions[func].code[pc],
        ),
    ensures
        load_spec(bytes, caps) is Err,
        prepare_spec(bytes, caps, entry, args) is Err,
        prepare_spec(bytes, caps, entry, args) != Err::<(ModuleView, u8), EngineError>(
            EngineError::InstantiationFailed,
        ) ==> prepare_spec(bytes, caps, entry, args) matches Err(EngineError::Validation(_)),
{
    let m = decode_spec(bytes).unwrap();
    crate::validate::lemma_stray_branch_rejected(m, caps, func, pc);
}

/// Two results that report the same stop agree in everything a caller can
/// see: the kind of result, the output bytes, the trap and the units consumed.
pub proof fn lemma_reports_determine_result(
    a: ExecutionResult,
    b: ExecutionResult,
    outcome: Outcome,
    ty: Option<ValueType>,
    consumed: nat,
)
    requires
        a.reports(outcome, ty, consumed),
        b.reports(outcome, ty, consumed),
    ensures
        a.consumed() == b.consumed(),
        match (a, b) {
            (
                ExecutionResult::Success { output: x, .. },
                ExecutionResult::Success { output: y, .. },
            ) => x@ == y@,
            (
                ExecutionResult::Trapped { trap: x, .. },
                ExecutionResult::Trapped { trap: y, .. },
            ) => x == y,
            (
                ExecutionResult::BudgetExhausted { .. },
                ExecutionResult::BudgetExhausted { .. },
            ) => true,
            _ => false,
        },
{
}

/// The same module, entry function, arguments and budget, with the same
/// answers from the host, give the same result: output bytes, trap and units
/// consumed.
pub proof fn lemma_same_request_same_result(
    m: ModuleView,
    f: u8,
    args: Seq<Value>,
    limit: nat,
    answers: Seq<Result<HostReply, String>>,
    a: ExecutionResult,
    b: ExecutionResult,
)
    requires
        explains(m, f, args, limit, answers, a),
        explains(m, f, args, limit, answers, b),
    ensures
        a.consumed() == b.consumed(),
        match (a, b) {
            (
                ExecutionResult::Success { output: x, .. },
                ExecutionResult::Success { output: y, .. },
            ) => x@ == y@,
            (
                ExecutionResult::Trapped { trap: x, .. },
                ExecutionResult::Trapped { trap: y, .. },
            ) => x == y,
            (
                ExecutionResult::BudgetExhausted { .. },
                ExecutionResult::BudgetExhausted { .. },
            ) => true,
            _ => false,
        },
{
    let first = run_spec(m, initial_machine(m, f as int, args), 0, limit);
    let last = replay_spec(m, first, limit, answers);
    lemma_reports_determine_result(a, b, last.outcome, m.functions[f as int].result, last.consumed);
}

/// With no budget at all nothing runs: the result is exhaustion at zero units.
pub proof fn lemma_no_budget_no_run(m: ModuleView, func: int, args: Seq<Value>)
    ensures
        run_spec(m, initial_machine(m, func, args), 0, 0).outcome == Outcome::BudgetExhausted,
        run_spec(m, initial_machine(m, func, args), 0, 0).consumed == 0,
{
    crate::machine::lemma_run_within_budget(m, initial_machine(m, func, args), 0, 0);
}

} // verus!
