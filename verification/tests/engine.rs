use nusa_vm::decode::decode;
use nusa_vm::engine::{find_export, load, output_bytes};
use nusa_vm::memory::LinearMemory;
use nusa_vm::{
    CapabilityTable, EngineError, ExecutionResult, HostContext, HostReply, HostSignature,
    MemoryWrite, NusaVM, Trap, ValidationError, Value, ValueType,
};

const I32: u8 = 0;
const I64: u8 = 1;
const NONE: u8 = 2;

fn header(memory: Option<(u16, u16)>, imports: u8, functions: u8, exports: u8) -> Vec<u8> {
    let mut out = vec![b'N', b'U', b'S', b'A', 1];
    match memory {
        Some((initial, max)) => {
            out.push(1);
            out.extend_from_slice(&initial.to_le_bytes());
            out.extend_from_slice(&max.to_le_bytes());
        }
        None => out.extend_from_slice(&[0, 0, 0, 0, 0]),
    }
    out.extend_from_slice(&[imports, functions, exports]);
    out
}

fn name(text: &str) -> Vec<u8> {
    let mut out = vec![text.len() as u8];
    out.extend_from_slice(text.as_bytes());
    out
}

fn import(module: &str, func: &str, params: &[u8], result: u8) -> Vec<u8> {
    let mut out = name(module);
    out.extend(name(func));
    out.push(params.len() as u8);
    out.extend_from_slice(params);
    out.push(result);
    out
}

fn function(params: u8, locals: &[u8], result: u8, code: &[Vec<u8>]) -> Vec<u8> {
    let mut out = vec![params, locals.len() as u8];
    out.extend_from_slice(locals);
    out.push(result);
    out.extend_from_slice(&(code.len() as u16).to_le_bytes());
    for instr in code {
        assert_eq!(instr.len(), 12);
        out.extend_from_slice(instr);
    }
    out
}

fn export(text: &str, func: u8) -> Vec<u8> {
    let mut out = name(text);
    out.push(func);
    out
}

fn instr(opcode: u8, a: u8, b: u8, c: u8, immediate: u64) -> Vec<u8> {
    let mut out = vec![opcode, a, b, c];
    out.extend_from_slice(&immediate.to_le_bytes());
    out
}

fn constant(dst: u8, value: u64) -> Vec<u8> {
    instr(0, dst, 0, 0, value)
}

fn binary(op: u8, ty: u8, dst: u8, lhs: u8, rhs: u8) -> Vec<u8> {
    instr(1, dst, lhs, rhs, op as u64 + 256 * ty as u64)
}

fn load8(dst: u8, addr: u8, offset: u32) -> Vec<u8> {
    instr(2, dst, addr, 0, offset as u64)
}

fn store8(addr: u8, src: u8, offset: u32) -> Vec<u8> {
    instr(3, addr, src, 0, offset as u64)
}

fn grow(dst: u8, delta: u8) -> Vec<u8> {
    instr(4, dst, delta, 0, 0)
}

fn jump(target: u32) -> Vec<u8> {
    instr(5, 0, 0, 0, target as u64)
}

fn jump_if(cond: u8, target: u32) -> Vec<u8> {
    instr(6, cond, 0, 0, target as u64)
}

fn call(func: u8, first_arg: u8, dst: u8) -> Vec<u8> {
    instr(7, func, first_arg, dst, 0)
}

fn call_host(import: u8, first_arg: u8, dst: u8) -> Vec<u8> {
    instr(8, import, first_arg, dst, 0)
}

fn ret(src: u8) -> Vec<u8> {
    instr(9, src, 0, 0, 0)
}

fn ret_void() -> Vec<u8> {
    instr(10, 0, 0, 0, 0)
}

fn unreachable_instr() -> Vec<u8> {
    instr(11, 0, 0, 0, 0)
}

fn concat(parts: &[Vec<u8>]) -> Vec<u8> {
    let mut out = Vec::new();
    for p in parts {
        out.extend_from_slice(p);
    }
    out
}

fn add_module() -> Vec<u8> {
    concat(&[
        header(None, 0, 1, 1),
        function(2, &[I32, I32, I32], I32, &[binary(0, I32, 2, 0, 1), ret(2)]),
        export("add", 0),
    ])
}

fn single(locals: &[u8], params: u8, result: u8, code: &[Vec<u8>]) -> Vec<u8> {
    concat(&[header(Some((1, 2)), 0, 1, 1), function(params, locals, result, code), export("main", 0)])
}

struct NoHost;

impl HostContext for NoHost {
    fn call(
        &mut self,
        _capability: &HostSignature,
        _arguments: &Vec<u64>,
        _memory: &LinearMemory,
    ) -> Result<HostReply, String> {
        panic!("no capability was granted");
    }
}

struct Recorder {
    calls: Vec<(Vec<u8>, Vec<u64>)>,
    fail: bool,
    write: Option<(u64, Vec<u8>)>,
}

impl HostContext for Recorder {
    fn call(
        &mut self,
        capability: &HostSignature,
        arguments: &Vec<u64>,
        _memory: &LinearMemory,
    ) -> Result<HostReply, String> {
        self.calls.push((capability.name.clone(), arguments.clone()));
        if self.fail {
            return Err(String::from("storage unavailable"));
        }
        let write = match &self.write {
            Some((offset, bytes)) => Some(MemoryWrite { offset: *offset, bytes: bytes.clone() }),
            None => None,
        };
        Ok(HostReply { value: arguments[0] * 2, write })
    }
}

fn double_signature() -> HostSignature {
    HostSignature {
        module: b"env".to_vec(),
        name: b"double".to_vec(),
        params: vec![ValueType::I32],
        result: Some(ValueType::I32),
    }
}

fn host_module(import_name: &str) -> Vec<u8> {
    concat(&[
        header(Some((1, 1)), 1, 1, 1),
        import("env", import_name, &[I32], I32),
        function(1, &[I32, I32, I32], I32, &[
            call_host(0, 0, 1),
            constant(2, 0),
            load8(2, 2, 7),
            binary(0, I32, 1, 1, 2),
            ret(1),
        ]),
        export("main", 0),
    ])
}

fn run(bytes: &[u8], entry: &str, args: Vec<Value>, budget: u64) -> Result<ExecutionResult, EngineError> {
    NusaVM::new().execute_contract(bytes, entry, &args, budget, &mut NoHost)
}

#[test]
fn test_vm_creation() {
    let vm = NusaVM::new();
    let _ = &vm;
    assert!(true);
}

#[test]
fn add_returns_sum_and_fixed_cost() {
    let r = run(&add_module(), "add", vec![Value::I32(2), Value::I32(3)], 1000);
    assert_eq!(r, Ok(ExecutionResult::Success { output: vec![5, 0, 0, 0], budget_consumed: 2 }));
}

#[test]
fn add_with_no_budget_is_exhausted_at_zero() {
    let r = run(&add_module(), "add", vec![Value::I32(2), Value::I32(3)], 0);
    assert_eq!(r, Ok(ExecutionResult::BudgetExhausted { budget_consumed: 0 }));
}

#[test]
fn exhaustion_reports_the_whole_budget() {
    let r = run(&add_module(), "add", vec![Value::I32(2), Value::I32(3)], 1);
    assert_eq!(r, Ok(ExecutionResult::BudgetExhausted { budget_consumed: 1 }));
}

#[test]
fn a_run_may_complete_on_its_last_unit() {
    let r = run(&add_module(), "add", vec![Value::I32(2), Value::I32(3)], 2);
    assert_eq!(r, Ok(ExecutionResult::Success { output: vec![5, 0, 0, 0], budget_consumed: 2 }));
}

#[test]
fn repeated_runs_agree() {
    let bytes = add_module();
    let first = run(&bytes, "add", vec![Value::I32(40), Value::I32(2)], 50);
    let second = run(&bytes, "add", vec![Value::I32(40), Value::I32(2)], 50);
    assert_eq!(first, second);
    assert_eq!(first, Ok(ExecutionResult::Success { output: vec![42, 0, 0, 0], budget_consumed: 2 }));
}

#[test]
fn addition_wraps_at_32_bits() {
    let r = run(&add_module(), "add", vec![Value::I32(0xFFFF_FFFF), Value::I32(2)], 10);
    assert_eq!(r, Ok(ExecutionResult::Success { output: vec![1, 0, 0, 0], budget_consumed: 2 }));
}

#[test]
fn arithmetic_on_64_bits() {
    let code = [
        constant(0, 0xFFFF_FFFF_FFFF_FFFF),
        constant(1, 3),
        binary(2, I64, 2, 0, 1),
        binary(1, I64, 2, 2, 1),
        ret(2),
    ];
    let r = run(&single(&[I64, I64, I64], 0, I64, &code), "main", vec![], 100);
    let expected = 0xFFFF_FFFF_FFFF_FFFFu64.wrapping_mul(3).wrapping_sub(3);
    assert_eq!(
        r,
        Ok(ExecutionResult::Success { output: expected.to_le_bytes().to_vec(), budget_consumed: 5 })
    );
}

#[test]
fn subtraction_wraps_below_zero() {
    let code = [constant(0, 1), constant(1, 2), binary(1, I32, 0, 0, 1), ret(0)];
    let r = run(&single(&[I32, I32], 0, I32, &code), "main", vec![], 100);
    assert_eq!(
        r,
        Ok(ExecutionResult::Success { output: vec![0xFF, 0xFF, 0xFF, 0xFF], budget_consumed: 4 })
    );
}

#[test]
fn comparison_and_remainder() {
    let code = [
        constant(0, 17),
        constant(1, 5),
        binary(4, I32, 2, 0, 1),
        binary(6, I32, 0, 1, 0),
        binary(0, I32, 2, 2, 0),
        binary(5, I32, 1, 1, 1),
        binary(0, I32, 2, 2, 1),
        ret(2),
    ];
    let r = run(&single(&[I32, I32, I32], 0, I32, &code), "main", vec![], 100);
    assert_eq!(r, Ok(ExecutionResult::Success { output: vec![4, 0, 0, 0], budget_consumed: 8 }));
}

#[test]
fn division_by_zero_traps() {
    let code = [constant(0, 7), constant(1, 0), binary(3, I32, 0, 0, 1), ret(0)];
    let r = run(&single(&[I32, I32], 0, I32, &code), "main", vec![], 100);
    assert_eq!(
        r,
        Ok(ExecutionResult::Trapped { trap: Trap::DivisionByZero, budget_consumed: 3 })
    );
}

#[test]
fn unreachable_traps() {
    let r = run(&single(&[], 0, NONE, &[unreachable_instr()]), "main", vec![], 100);
    assert_eq!(
        r,
        Ok(ExecutionResult::Trapped { trap: Trap::UnreachableInstruction, budget_consumed: 1 })
    );
}

#[test]
fn endless_loop_exhausts_the_budget() {
    let r = run(&single(&[], 0, NONE, &[jump(0)]), "main", vec![], 12345);
    assert_eq!(r, Ok(ExecutionResult::BudgetExhausted { budget_consumed: 12345 }));
}

#[test]
fn counting_loop_terminates() {
    let code = [
        constant(0, 0),
        constant(1, 1),
        constant(2, 10),
        binary(0, I32, 0, 0, 1),
        binary(6, I32, 3, 0, 2),
        jump_if(3, 3),
        ret(0),
    ];
    let r = run(&single(&[I32, I32, I32, I32], 0, I32, &code), "main", vec![], 1000);
    assert_eq!(r, Ok(ExecutionResult::Success { output: vec![10, 0, 0, 0], budget_consumed: 34 }));
}

#[test]
fn unbounded_recursion_overflows_the_stack() {
    let r = run(&single(&[I32], 0, NONE, &[call(0, 0, 0), ret_void()]), "main", vec![], 100000);
    assert_eq!(
        r,
        Ok(ExecutionResult::Trapped { trap: Trap::StackOverflow, budget_consumed: 64 * 4 })
    );
}

#[test]
fn internal_call_passes_arguments_and_result() {
    let bytes = concat(&[
        header(None, 0, 2, 1),
        function(0, &[I32, I32, I32], I32, &[constant(0, 20), constant(1, 22), call(1, 0, 2), ret(2)]),
        function(2, &[I32, I32, I32], I32, &[binary(0, I32, 2, 0, 1), ret(2)]),
        export("main", 0),
    ]);
    let r = run(&bytes, "main", vec![], 100);
    assert_eq!(r, Ok(ExecutionResult::Success { output: vec![42, 0, 0, 0], budget_consumed: 9 }));
}

#[test]
fn memory_store_then_load() {
    let code = [constant(0, 100), constant(1, 0x1AB), store8(0, 1, 5), load8(2, 0, 5), ret(2)];
    let r = run(&single(&[I32, I32, I32], 0, I32, &code), "main", vec![], 100);
    assert_eq!(r, Ok(ExecutionResult::Success { output: vec![0xAB, 0, 0, 0], budget_consumed: 7 }));
}

#[test]
fn load_past_the_end_traps() {
    let code = [constant(0, 65535), load8(1, 0, 1), ret(1)];
    let r = run(&single(&[I32, I32], 0, I32, &code), "main", vec![], 100);
    assert_eq!(
        r,
        Ok(ExecutionResult::Trapped { trap: Trap::OutOfBoundsMemoryAccess, budget_consumed: 3 })
    );
}

#[test]
fn store_past_the_end_traps() {
    let code = [constant(0, 65536), store8(0, 0, 0), ret_void()];
    let r = run(&single(&[I32], 0, NONE, &code), "main", vec![], 100);
    assert_eq!(
        r,
        Ok(ExecutionResult::Trapped { trap: Trap::OutOfBoundsMemoryAccess, budget_consumed: 3 })
    );
}

#[test]
fn grow_answers_old_size_then_refuses() {
    let code = [
        constant(0, 1),
        grow(1, 0),
        grow(2, 0),
        constant(0, 65536),
        store8(0, 0, 0),
        binary(0, I32, 1, 1, 2),
        ret(1),
    ];
    let r = run(&single(&[I32, I32, I32], 0, I32, &code), "main", vec![], 1000);
    assert_eq!(r, Ok(ExecutionResult::Success { output: vec![0, 0, 0, 0], budget_consumed: 38 }));
}

#[test]
fn unresolved_import_fails_instantiation() {
    let bytes = host_module("nonexistent");
    let r = run(&bytes, "main", vec![Value::I32(1)], 1000);
    assert_eq!(r, Err(EngineError::InstantiationFailed));
    assert_eq!(load(&bytes, &CapabilityTable::new()).err(), Some(ValidationError::UnresolvedImport));
}

#[test]
fn import_with_other_signature_is_unresolved() {
    let mut vm = NusaVM::new();
    let mut wanted = double_signature();
    wanted.result = Some(ValueType::I64);
    vm.grant(wanted);
    let mut host = Recorder { calls: vec![], fail: false, write: None };
    let r = vm.execute_contract(&host_module("double"), "main", &vec![Value::I32(1)], 1000, &mut host);
    assert_eq!(r, Err(EngineError::InstantiationFailed));
    assert!(host.calls.is_empty());
}

#[test]
fn host_call_returns_value() {
    let mut vm = NusaVM::new();
    vm.grant(double_signature());
    let mut host = Recorder { calls: vec![], fail: false, write: None };
    let r = vm.execute_contract(&host_module("double"), "main", &vec![Value::I32(21)], 1000, &mut host);
    assert_eq!(r, Ok(ExecutionResult::Success { output: vec![42, 0, 0, 0], budget_consumed: 13 }));
    assert_eq!(host.calls, vec![(b"double".to_vec(), vec![21u64])]);
}

#[test]
fn host_write_lands_in_memory() {
    let mut vm = NusaVM::new();
    vm.grant(double_signature());
    let mut host = Recorder { calls: vec![], fail: false, write: Some((6, vec![9, 8])) };
    let r = vm.execute_contract(&host_module("double"), "main", &vec![Value::I32(1)], 1000, &mut host);
    assert_eq!(r, Ok(ExecutionResult::Success { output: vec![10, 0, 0, 0], budget_consumed: 13 }));
}

#[test]
fn host_write_out_of_bounds_traps() {
    let mut vm = NusaVM::new();
    vm.grant(double_signature());
    let mut host = Recorder { calls: vec![], fail: false, write: Some((65535, vec![9, 8])) };
    let r = vm.execute_contract(&host_module("double"), "main", &vec![Value::I32(1)], 1000, &mut host);
    assert_eq!(
        r,
        Ok(ExecutionResult::Trapped { trap: Trap::OutOfBoundsMemoryAccess, budget_consumed: 8 })
    );
}

#[test]
fn host_failure_is_a_trap() {
    let mut vm = NusaVM::new();
    vm.grant(double_signature());
    let mut host = Recorder { calls: vec![], fail: true, write: None };
    let r = vm.execute_contract(&host_module("double"), "main", &vec![Value::I32(1)], 1000, &mut host);
    assert_eq!(
        r,
        Ok(ExecutionResult::Trapped {
            trap: Trap::HostFunctionFailure(String::from("storage unavailable")),
            budget_consumed: 8,
        })
    );
}

#[test]
fn host_call_that_cannot_be_paid_is_not_made() {
    let mut vm = NusaVM::new();
    vm.grant(double_signature());
    let mut host = Recorder { calls: vec![], fail: false, write: None };
    let r = vm.execute_contract(&host_module("double"), "main", &vec![Value::I32(1)], 7, &mut host);
    assert_eq!(r, Ok(ExecutionResult::BudgetExhausted { budget_consumed: 7 }));
    assert!(host.calls.is_empty());
}

#[test]
fn stray_branch_is_rejected_at_load() {
    let bytes = single(&[], 0, NONE, &[jump(1)]);
    assert_eq!(load(&bytes, &CapabilityTable::new()).err(), Some(ValidationError::IllegalBranchTarget));
    assert_eq!(
        run(&bytes, "main", vec![], 100),
        Err(EngineError::Validation(ValidationError::IllegalBranchTarget))
    );
}

#[test]
fn code_that_falls_off_its_end_is_rejected() {
    let bytes = single(&[I32], 0, NONE, &[constant(0, 1)]);
    assert_eq!(load(&bytes, &CapabilityTable::new()).err(), Some(ValidationError::IllegalBranchTarget));
}

#[test]
fn type_mismatch_is_rejected() {
    let bytes = single(&[I32, I64], 0, I32, &[binary(0, I32, 0, 0, 1), ret(0)]);
    assert_eq!(load(&bytes, &CapabilityTable::new()).err(), Some(ValidationError::TypeMismatch));
    let wide = single(&[I32], 0, I32, &[constant(0, 0x1_0000_0000), ret(0)]);
    assert_eq!(load(&wide, &CapabilityTable::new()).err(), Some(ValidationError::TypeMismatch));
    let missing = single(&[I32], 0, I32, &[ret(1)]);
    assert_eq!(load(&missing, &CapabilityTable::new()).err(), Some(ValidationError::TypeMismatch));
}

#[test]
fn malformed_bytes_are_rejected() {
    let caps = CapabilityTable::new();
    assert_eq!(load(&[], &caps).err(), Some(ValidationError::MalformedEncoding));
    let mut bad_magic = add_module();
    bad_magic[0] = b'X';
    assert_eq!(load(&bad_magic, &caps).err(), Some(ValidationError::MalformedEncoding));
    let mut trailing = add_module();
    trailing.push(0);
    assert_eq!(load(&trailing, &caps).err(), Some(ValidationError::MalformedEncoding));
    let mut short = add_module();
    short.pop();
    assert_eq!(load(&short, &caps).err(), Some(ValidationError::MalformedEncoding));
    let bad_opcode = single(&[], 0, NONE, &[instr(99, 0, 0, 0, 0)]);
    assert_eq!(load(&bad_opcode, &caps).err(), Some(ValidationError::MalformedEncoding));
    let bad_memory = concat(&[header(Some((3, 2)), 0, 0, 0)]);
    assert_eq!(load(&bad_memory, &caps).err(), Some(ValidationError::MalformedEncoding));
    assert_eq!(
        run(&bad_magic, "add", vec![], 10),
        Err(EngineError::Validation(ValidationError::MalformedEncoding))
    );
}

#[test]
fn decode_reads_every_field() {
    let m = decode(&host_module("double")).unwrap();
    assert_eq!(m.imports, vec![double_signature()]);
    assert_eq!(m.memory.unwrap().initial_pages, 1);
    assert_eq!(m.memory.unwrap().max_pages, 1);
    assert_eq!(m.functions.len(), 1);
    assert_eq!(m.functions[0].params, 1);
    assert_eq!(m.functions[0].locals, vec![ValueType::I32; 3]);
    assert_eq!(m.functions[0].code.len(), 5);
    assert_eq!(m.exports[0].name, b"main".to_vec());
    assert_eq!(find_export(&m, b"main"), Some(0));
    assert_eq!(find_export(&m, b"mai"), None);
}

#[test]
fn missing_entry_point() {
    let r = run(&add_module(), "sub", vec![Value::I32(2), Value::I32(3)], 1000);
    assert_eq!(r, Err(EngineError::EntryPointNotFound));
}

#[test]
fn arguments_must_fit_the_signature() {
    let few = run(&add_module(), "add", vec![Value::I32(2)], 1000);
    assert_eq!(few, Err(EngineError::SignatureMismatch));
    let wrong = run(&add_module(), "add", vec![Value::I32(2), Value::I64(3)], 1000);
    assert_eq!(wrong, Err(EngineError::SignatureMismatch));
}

#[test]
fn output_bytes_follow_the_type() {
    assert_eq!(output_bytes(Some(0x0102_0304_0506_0708), Some(ValueType::I64)), vec![8, 7, 6, 5, 4, 3, 2, 1]);
    assert_eq!(output_bytes(Some(0x0102_0304_0506_0708), Some(ValueType::I32)), vec![8, 7, 6, 5]);
    assert_eq!(output_bytes(None, None), Vec::<u8>::new());
}

#[test]
fn void_function_has_empty_output() {
    let r = run(&single(&[], 0, NONE, &[ret_void()]), "main", vec![], 5);
    assert_eq!(r, Ok(ExecutionResult::Success { output: vec![], budget_consumed: 1 }));
}
