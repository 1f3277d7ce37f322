use nusa_vm::engine::{find_export, instantiate, load};
use nusa_vm::machine::{binary, cost_of, truncated};
use nusa_vm::module::{BinaryOp, Instr};
use nusa_vm::validate::validate;
use nusa_vm::{
    CapabilityTable, EngineError, HostReply, HostSignature, Instance, MemoryWrite, Outcome,
    Status, Trap, ValidationError, Value, ValueType,
};

fn signature(name: &str) -> HostSignature {
    HostSignature {
        module: b"storage".to_vec(),
        name: name.as_bytes().to_vec(),
        params: vec![ValueType::I32, ValueType::I64],
        result: Some(ValueType::I32),
    }
}

fn word(opcode: u8, a: u8, b: u8, c: u8, immediate: u64) -> Vec<u8> {
    let mut out = vec![opcode, a, b, c];
    out.extend_from_slice(&immediate.to_le_bytes());
    out
}

/// One import `storage.read(i32, i64) -> i32`, called twice by `main(i32, i64) -> i32`.
fn calling_module() -> Vec<u8> {
    let mut out = vec![b'N', b'U', b'S', b'A', 1, 1, 1, 0, 1, 0, 1, 1, 1];
    out.extend_from_slice(&[7]);
    out.extend_from_slice(b"storage");
    out.extend_from_slice(&[4]);
    out.extend_from_slice(b"read");
    out.extend_from_slice(&[2, 0, 1, 0]);
    out.extend_from_slice(&[2, 3, 0, 1, 0, 0, 4, 0]);
    out.extend(word(8, 0, 0, 2, 0));
    out.extend(word(8, 0, 0, 0, 0));
    out.extend(word(1, 2, 2, 0, 0));
    out.extend(word(9, 2, 0, 0, 0));
    out.extend_from_slice(&[4]);
    out.extend_from_slice(b"main");
    out.extend_from_slice(&[0]);
    out
}

fn table() -> CapabilityTable {
    let mut caps = CapabilityTable::new();
    caps.grant(signature("write"));
    caps.grant(signature("read"));
    caps
}

#[test]
fn table_grants_only_what_was_granted() {
    let caps = table();
    assert!(caps.grants(&signature("read")));
    assert!(caps.grants(&signature("write")));
    assert!(!caps.grants(&signature("erase")));
    let mut other = signature("read");
    other.params = vec![ValueType::I32];
    assert!(!caps.grants(&other));
    assert!(!CapabilityTable::new().grants(&signature("read")));
    assert!(signature("read").matches(&signature("read")));
    assert!(!signature("read").matches(&signature("write")));
}

#[test]
fn run_pauses_at_each_host_call() {
    let caps = table();
    let module = load(&calling_module(), &caps).unwrap();
    assert_eq!(validate(&module, &caps), Ok(()));
    let func = find_export(&module, b"main").unwrap();
    let args = vec![Value::I32(11), Value::I64(1 << 40)];
    let mut inst = instantiate(&module, &caps, func, &args, 100).ok().unwrap();
    assert_eq!(inst.current_status(), Status::Running);
    assert_eq!(inst.budget_consumed(), 0);

    assert_eq!(inst.run(), Outcome::HostCall(0));
    assert_eq!(inst.current_status(), Status::AwaitingHost);
    assert_eq!(inst.budget_consumed(), 8);
    assert_eq!(inst.host_arguments(), vec![11, 1 << 40]);

    let reply = HostReply { value: 0x1_0000_0005, write: Some(MemoryWrite { offset: 3, bytes: vec![1, 2] }) };
    assert_eq!(inst.deliver(Ok(reply)), Outcome::HostCall(0));
    assert_eq!(inst.budget_consumed(), 16);
    assert_eq!(inst.memory().read(2, 4), Ok(vec![0, 1, 2, 0]));
    assert_eq!(inst.host_arguments(), vec![11, 1 << 40]);

    assert_eq!(inst.resume(Ok(37)), Outcome::Completed(Some(42)));
    assert_eq!(inst.current_status(), Status::Halted);
    assert_eq!(inst.budget_consumed(), 18);
}

#[test]
fn failed_host_call_halts_without_further_cost() {
    let caps = table();
    let module = load(&calling_module(), &caps).unwrap();
    let args = vec![Value::I32(1), Value::I64(2)];
    let mut inst = instantiate(&module, &caps, 0, &args, 100).ok().unwrap();
    assert_eq!(inst.run(), Outcome::HostCall(0));
    assert_eq!(
        inst.deliver(Err(String::from("no such key"))),
        Outcome::Trapped(Trap::HostFunctionFailure(String::from("no such key")))
    );
    assert_eq!(inst.current_status(), Status::Halted);
    assert_eq!(inst.budget_consumed(), 8);
}

#[test]
fn reply_that_does_not_fit_traps_and_stores_nothing() {
    let caps = table();
    let module = load(&calling_module(), &caps).unwrap();
    let args = vec![Value::I32(1), Value::I64(2)];
    let mut inst = instantiate(&module, &caps, 0, &args, 100).ok().unwrap();
    assert_eq!(inst.run(), Outcome::HostCall(0));
    let reply = HostReply { value: 1, write: Some(MemoryWrite { offset: 65535, bytes: vec![7, 7] }) };
    assert_eq!(inst.deliver(Ok(reply)), Outcome::Trapped(Trap::OutOfBoundsMemoryAccess));
    assert_eq!(inst.memory().read(65535, 1), Ok(vec![0]));
    assert_eq!(inst.budget_consumed(), 8);
}

#[test]
fn budget_runs_out_between_host_calls() {
    let caps = table();
    let module = load(&calling_module(), &caps).unwrap();
    let args = vec![Value::I32(1), Value::I64(2)];
    let mut inst = instantiate(&module, &caps, 0, &args, 15).ok().unwrap();
    assert_eq!(inst.run(), Outcome::HostCall(0));
    assert_eq!(inst.resume(Ok(1)), Outcome::BudgetExhausted);
    assert_eq!(inst.budget_consumed(), 15);
    assert_eq!(inst.current_status(), Status::Halted);
}

#[test]
fn instantiate_checks_table_function_and_arguments() {
    let module = load(&calling_module(), &table()).unwrap();
    let args = vec![Value::I32(1), Value::I64(2)];
    assert_eq!(
        instantiate(&module, &CapabilityTable::new(), 0, &args, 10).err(),
        Some(EngineError::InstantiationFailed)
    );
    assert_eq!(instantiate(&module, &table(), 1, &args, 10).err(), Some(EngineError::EntryPointNotFound));
    assert_eq!(
        instantiate(&module, &table(), 0, &vec![Value::I64(1), Value::I64(2)], 10).err(),
        Some(EngineError::SignatureMismatch)
    );
    assert_eq!(Instance::new(&module, 0, &vec![], 10).err(), Some(EngineError::SignatureMismatch));
    assert_eq!(Instance::new(&module, 9, &args, 10).err(), Some(EngineError::EntryPointNotFound));
}

#[test]
fn validate_reports_the_first_broken_rule() {
    let caps = table();
    let mut module = load(&calling_module(), &caps).unwrap();
    module.functions[0].code[3] = Instr::Jump { target: 4 };
    module.functions[0].code[2] = Instr::Return { src: 9 };
    assert_eq!(validate(&module, &caps), Err(ValidationError::IllegalBranchTarget));
    assert_eq!(validate(&module, &CapabilityTable::new()), Err(ValidationError::UnresolvedImport));
    module.functions[0].code[3] = Instr::Jump { target: 3 };
    assert_eq!(validate(&module, &caps), Err(ValidationError::TypeMismatch));
    module.exports[0].func = 1;
    module.functions[0].code[2] = Instr::Unreachable;
    assert_eq!(validate(&module, &caps), Err(ValidationError::TypeMismatch));
}

#[test]
fn instruction_costs_are_fixed() {
    assert_eq!(cost_of(Instr::Const { dst: 0, value: 0 }), 1);
    assert_eq!(cost_of(Instr::Load8 { dst: 0, addr: 0, offset: 0 }), 2);
    assert_eq!(cost_of(Instr::Store8 { addr: 0, src: 0, offset: 0 }), 2);
    assert_eq!(cost_of(Instr::MemoryGrow { dst: 0, delta: 0 }), 16);
    assert_eq!(cost_of(Instr::Call { func: 0, first_arg: 0, dst: 0 }), 4);
    assert_eq!(cost_of(Instr::CallHost { import: 0, first_arg: 0, dst: 0 }), 8);
    assert_eq!(cost_of(Instr::Unreachable), 1);
}

#[test]
fn binary_operations_are_exact() {
    assert_eq!(binary(BinaryOp::Add, ValueType::I64, u64::MAX, 2), Some(1));
    assert_eq!(binary(BinaryOp::Mul, ValueType::I32, 0x8000_0001, 2), Some(2));
    assert_eq!(binary(BinaryOp::Mul, ValueType::I64, 1 << 63, 2), Some(0));
    assert_eq!(binary(BinaryOp::Sub, ValueType::I64, 0, 1), Some(u64::MAX));
    assert_eq!(binary(BinaryOp::DivU, ValueType::I32, 0x1_0000_0009, 2), Some(4));
    assert_eq!(binary(BinaryOp::DivU, ValueType::I32, 9, 0x1_0000_0000), None);
    assert_eq!(binary(BinaryOp::RemU, ValueType::I64, 9, 0), None);
    assert_eq!(binary(BinaryOp::RemU, ValueType::I64, 9, 4), Some(1));
    assert_eq!(binary(BinaryOp::Eq, ValueType::I32, 0x1_0000_0001, 1), Some(1));
    assert_eq!(binary(BinaryOp::LtU, ValueType::I64, 2, 1), Some(0));
    assert_eq!(truncated(ValueType::I32, 0x1_2345_6789), 0x2345_6789);
    assert_eq!(truncated(ValueType::I64, u64::MAX), u64::MAX);
}
