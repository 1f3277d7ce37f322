//! Static validation: what must hold of a module before it may run.
//!
//! The rules are checked in a fixed order, so the error reported for a module
//! depends on its content and on the capability table alone.

use vstd::prelude::*;
use crate::memory::MAX_PAGES;
use crate::module::{
    BinaryOp, CapabilityTable, Function, FunctionView, HostSignatureView, Instr, Module,
    ModuleView, ValueType, same_type,
};
use crate::trap::ValidationError;

verus! {

/// The most locals a function may declare: operands are one byte wide.
pub const MAX_LOCALS: usize = 256;

/// The declared memory fits the machine's limits.
pub open spec fn memory_ok(m: ModuleView) -> bool {
    match m.memory {
        Some(d) => d.initial_pages <= d.max_pages <= MAX_PAGES,
        None => true,
    }
}

/// Every import is granted by the table, with the same signature.
pub open spec fn imports_resolved(m: ModuleView, caps: Seq<HostSignatureView>) -> bool {
    forall|i: int| 0 <= i < m.imports.len() ==> caps.contains(#[trigger] m.imports[i])
}

/// Instructions after which control never falls through to the next one.
pub open spec fn is_terminator(i: Instr) -> bool {
    i is Jump || i is Return || i is ReturnVoid || i is Unreachable
}

/// A branch stays inside code of `len` instructions.
pub open spec fn branch_in_range(len: nat, i: Instr) -> bool {
    match i {
        Instr::Jump { target } => target < len,
        Instr::JumpIf { target, .. } => target < len,
        _ => true,
    }
}

/// Control can never leave the function's code: every branch lands inside it
/// and its last instruction does not fall through.
pub open spec fn function_branches_ok(f: FunctionView) -> bool {
    &&& f.code.len() > 0
    &&& is_terminator(f.code[f.code.len() - 1])
    &&& forall|pc: int| 0 <= pc < f.code.len() ==> branch_in_range(f.code.len(), #[trigger] f.code[pc])
}

pub open spec fn branches_ok(m: ModuleView) -> bool {
    forall|k: int| 0 <= k < m.functions.len() ==> function_branches_ok(#[trigger] m.functions[k])
}

/// Local `r` exists and has type `t`.
pub open spec fn local_is(f: FunctionView, r: u8, t: ValueType) -> bool {
    r < f.locals.len() && f.locals[r as int] == t
}

/// The type of what a binary operation produces from operands of type `ty`.
pub open spec fn binary_result(op: BinaryOp, ty: ValueType) -> ValueType {
    match op {
        BinaryOp::Eq | BinaryOp::LtU => ValueType::I32,
        _ => ty,
    }
}

/// The `count` locals from `first` on have the first `count` types of `params`.
pub open spec fn args_match(f: FunctionView, first: u8, params: Seq<ValueType>, count: nat) -> bool {
    &&& count <= params.len()
    &&& first + count <= f.locals.len()
    &&& forall|k: int| 0 <= k < count ==> f.locals[first + k] == #[trigger] params[k]
}

/// Local `dst` can take a result of the given type; no result fits any `dst`.
pub open spec fn result_fits(f: FunctionView, dst: u8, result: Option<ValueType>) -> bool {
    match result {
        Some(t) => local_is(f, dst, t),
        None => true,
    }
}

/// The typing rule of each instruction inside function `f` of module `m`.
pub open spec fn instr_typed(m: ModuleView, f: FunctionView, i: Instr) -> bool {
    match i {
        Instr::Const { dst, value } => {
            ||| local_is(f, dst, ValueType::I64)
            ||| local_is(f, dst, ValueType::I32) && value <= u32::MAX
        },
        Instr::Binary { op, ty, dst, lhs, rhs } => {
            &&& local_is(f, lhs, ty)
            &&& local_is(f, rhs, ty)
            &&& local_is(f, dst, binary_result(op, ty))
        },
        Instr::Load8 { dst, addr, .. } => {
            local_is(f, addr, ValueType::I32) && local_is(f, dst, ValueType::I32)
        },
        Instr::Store8 { addr, src, .. } => {
            local_is(f, addr, ValueType::I32) && local_is(f, src, ValueType::I32)
        },
        Instr::MemoryGrow { dst, delta } => {
            local_is(f, delta, ValueType::I32) && local_is(f, dst, ValueType::I32)
        },
        Instr::Jump { .. } => true,
        Instr::JumpIf { cond, .. } => local_is(f, cond, ValueType::I32),
        Instr::Call { func, first_arg, dst } => {
            &&& func < m.functions.len()
            &&& args_match(
                f,
                first_arg,
                m.functions[func as int].locals,
                m.functions[func as int].params as nat,
            )
            &&& result_fits(f, dst, m.functions[func as int].result)
        },
        Instr::CallHost { import, first_arg, dst } => {
            &&& import < m.imports.len()
            &&& args_match(
                f,
                first_arg,
                m.imports[import as int].params,
                m.imports[import as int].params.len(),
            )
            &&& result_fits(f, dst, m.imports[import as int].result)
        },
        Instr::Return { src } => match f.result {
            Some(t) => local_is(f, src, t),
            None => false,
        },
        Instr::ReturnVoid => f.result is None,
        Instr::Unreachable => true,
    }
}

pub open spec fn function_typed(m: ModuleView, f: FunctionView) -> bool {
    &&& f.params <= f.locals.len() <= MAX_LOCALS
    &&& forall|pc: int| 0 <= pc < f.code.len() ==> instr_typed(m, f, #[trigger] f.code[pc])
}

pub open spec fn module_typed(m: ModuleView) -> bool {
    &&& forall|k: int| 0 <= k < m.functions.len() ==> function_typed(m, #[trigger] m.functions[k])
    &&& forall|e: int| 0 <= e < m.exports.len() ==> (#[trigger] m.exports[e]).func < m.functions.len()
}

/// What validation answers for a module under a capability table.
pub open spec fn validation_verdict(m: ModuleView, caps: Seq<HostSignatureView>) -> Result<
    (),
    ValidationError,
> {
    if !memory_ok(m) {
        Err(ValidationError::MalformedEncoding)
    } else if !imports_resolved(m, caps) {
        Err(ValidationError::UnresolvedImport)
    } else if !branches_ok(m) {
        Err(ValidationError::IllegalBranchTarget)
    } else if !module_typed(m) {
        Err(ValidationError::TypeMismatch)
    } else {
        Ok(())
    }
}

/// The module may run under the given capability table.
pub open spec fn valid_module(m: ModuleView, caps: Seq<HostSignatureView>) -> bool {
    validation_verdict(m, caps) is Ok
}

/// What execution relies on: every rule but the resolution of imports.
pub open spec fn runnable(m: ModuleView) -> bool {
    memory_ok(m) && branches_ok(m) && module_typed(m)
}

fn check_memory(module: &Module) -> (r: bool)
    ensures
        r == memory_ok(module@),
{
    match module.memory {
        Some(d) => d.initial_pages <= d.max_pages && d.max_pages <= MAX_PAGES,
        None => true,
    }
}

/// Whether every import of the module is granted by the table.
pub fn check_imports(module: &Module, caps: &CapabilityTable) -> (r: bool)
    ensures
        r == imports_resolved(module@, caps@),
{
    let mut i: usize = 0;
    while i < module.imports.len()
        invariant
            i <= module.imports@.len(),
            forall|j: int| 0 <= j < i ==> caps@.contains(#[trigger] module@.imports[j]),
        decreases module.imports@.len() - i,
    {
        if !caps.grants(&module.imports[i]) {
            assert(!caps@.contains(module@.imports[i as int]));
            return false;
        }
        i = i + 1;
    }
    true
}

fn terminates(i: Instr) -> (r: bool)
    ensures
        r == is_terminator(i),
{
    match i {
        Instr::Jump { .. } | Instr::Return { .. } | Instr::ReturnVoid | Instr::Unreachable => true,
        _ => false,
    }
}

fn check_function_branches(f: &Function) -> (r: bool)
    ensures
        r == function_branches_ok(f@),
{
    let len: usize = f.code.len();
    if len == 0 || !terminates(f.code[len - 1]) {
        return false;
    }
    let mut pc: usize = 0;
    while pc < len
        invariant
            pc <= len == f.code@.len(),
            forall|j: int| 0 <= j < pc ==> branch_in_range(len as nat, #[trigger] f.code@[j]),
        decreases len - pc,
    {
        let inside: bool = match f.code[pc] {
            Instr::Jump { target } => (target as usize) < len,
            Instr::JumpIf { target, .. } => (target as usize) < len,
            _ => true,
        };
        if !inside {
            assert(!branch_in_range(len as nat, f@.code[pc as int]));
            return false;
        }
        pc = pc + 1;
    }
    true
}

fn check_branches(module: &Module) -> (r: bool)
    ensures
        r == branches_ok(module@),
{
    let mut k: usize = 0;
    while k < module.functions.len()
        invariant
            k <= module.functions@.len(),
            forall|j: int| 0 <= j < k ==> function_branches_ok(#[trigger] module@.functions[j]),
        decreases module.functions@.len() - k,
    {
        if !check_function_branches(&module.functions[k]) {
            assert(!function_branches_ok(module@.functions[k as int]));
            return false;
        }
        k = k + 1;
    }
    true
}

fn local_has(f: &Function, r: u8, t: ValueType) -> (b: bool)
    ensures
        b == local_is(f@, r, t),
{
    (r as usize) < f.locals.len() && f.locals[r as usize] == t
}

fn check_args(f: &Function, first: u8, params: &Vec<ValueType>, count: usize) -> (r: bool)
    ensures
        r == args_match(f@, first, params@, count as nat),
{
    let n: usize = f.locals.len();
    if count > params.len() || count > n || first as usize > n - count {
        return false;
    }
    let mut k: usize = 0;
    while k < count
        invariant
            k <= count <= params@.len(),
            first + count <= n == f.locals@.len(),
            forall|j: int| 0 <= j < k ==> f.locals@[first + j] == #[trigger] params@[j],
        decreases count - k,
    {
        if f.locals[first as usize + k] != params[k] {
            assert(f@.locals[first + k] != params@[k as int]);
            return false;
        }
        k = k + 1;
    }
    true
}

fn check_result(f: &Function, dst: u8, result: Option<ValueType>) -> (r: bool)
    ensures
        r == result_fits(f@, dst, result),
{
    match result {
        Some(t) => local_has(f, dst, t),
        None => true,
    }
}

fn result_type(op: BinaryOp, ty: ValueType) -> (r: ValueType)
    ensures
        r == binary_result(op, ty),
{
    match op {
        BinaryOp::Eq | BinaryOp::LtU => ValueType::I32,
        _ => ty,
    }
}

fn check_instr(module: &Module, f: &Function, i: Instr) -> (r: bool)
    ensures
        r == instr_typed(module@, f@, i),
{
    match i {
        Instr::Const { dst, value } => {
            local_has(f, dst, ValueType::I64) || (local_has(f, dst, ValueType::I32) && value
                <= 0xFFFF_FFFF)
        },
        Instr::Binary { op, ty, dst, lhs, rhs } => {
            local_has(f, lhs, ty) && local_has(f, rhs, ty) && local_has(f, dst, result_type(op, ty))
        },
        Instr::Load8 { dst, addr, .. } => {
            local_has(f, addr, ValueType::I32) && local_has(f, dst, ValueType::I32)
        },
        Instr::Store8 { addr, src, .. } => {
            local_has(f, addr, ValueType::I32) && local_has(f, src, ValueType::I32)
        },
        Instr::MemoryGrow { dst, delta } => {
            local_has(f, delta, ValueType::I32) && local_has(f, dst, ValueType::I32)
        },
        Instr::Jump { .. } => true,
        Instr::JumpIf { cond, .. } => local_has(f, cond, ValueType::I32),
        Instr::Call { func, first_arg, dst } => {
            if (func as usize) < module.functions.len() {
                let callee = &module.functions[func as usize];
                assert(module@.functions[func as int] == callee@);
                check_args(f, first_arg, &callee.locals, callee.params as usize) && check_result(
                    f,
                    dst,
                    callee.result,
                )
            } else {
                false
            }
        },
        Instr::CallHost { import, first_arg, dst } => {
            if (import as usize) < module.imports.len() {
                let callee = &module.imports[import as usize];
                assert(module@.imports[import as int] == callee@);
                check_args(f, first_arg, &callee.params, callee.params.len()) && check_result(
                    f,
                    dst,
                    callee.result,
                )
            } else {
                false
            }
        },
        Instr::Return { src } => match f.result {
            Some(t) => local_has(f, src, t),
            None => false,
        },
        Instr::ReturnVoid => same_type(f.result, None),
        Instr::Unreachable => true,
    }
}

fn check_function_types(module: &Module, f: &Function) -> (r: bool)
    ensures
        r == function_typed(module@, f@),
{
    if f.params as usize > f.locals.len() || f.locals.len() > MAX_LOCALS {
        return false;
    }
    let mut pc: usize = 0;
    while pc < f.code.len()
        invariant
            pc <= f.code@.len(),
            forall|j: int| 0 <= j < pc ==> instr_typed(module@, f@, #[trigger] f.code@[j]),
        decreases f.code@.len() - pc,
    {
        if !check_instr(module, f, f.code[pc]) {
            assert(!instr_typed(module@, f@, f@.code[pc as int]));
            return false;
        }
        pc = pc + 1;
    }
    true
}

fn check_types(module: &Module) -> (r: bool)
    ensures
        r == module_typed(module@),
{
    let mut k: usize = 0;
    while k < module.functions.len()
        invariant
            k <= module.functions@.len(),
            forall|j: int| 0 <= j < k ==> function_typed(module@, #[trigger] module@.functions[j]),
        decreases module.functions@.len() - k,
    {
        if !check_function_types(module, &module.functions[k]) {
            assert(!function_typed(module@, module@.functions[k as int]));
            return false;
        }
        k = k + 1;
    }
    let mut e: usize = 0;
    while e < module.exports.len()
        invariant
            e <= module.exports@.len(),
            forall|j: int| 0 <= j < k ==> function_typed(module@, #[trigger] module@.functions[j]),
            k == module.functions@.len(),
            forall|j: int| 0 <= j < e ==> (#[trigger] module@.exports[j]).func < module.functions@.len(),
        decreases module.exports@.len() - e,
    {
        if module.exports[e].func as usize >= module.functions.len() {
            assert(module@.exports[e as int].func >= module@.functions.len());
            return false;
        }
        e = e + 1;
    }
    true
}

/// Checks a module against the static rules and the capability table.
pub fn validate(module: &Module, caps: &CapabilityTable) -> (r: Result<(), ValidationError>)
    ensures
        r == validation_verdict(module@, caps@),
{
    if !check_memory(module) {
        Err(ValidationError::MalformedEncoding)
    } else if !check_imports(module, caps) {
        Err(ValidationError::UnresolvedImport)
    } else if !check_branches(module) {
        Err(ValidationError::IllegalBranchTarget)
    } else if !check_types(module) {
        Err(ValidationError::TypeMismatch)
    } else {
        Ok(())
    }
}

/// A module with a branch whose target lies outside its function is never valid.
pub proof fn lemma_stray_branch_rejected(
    m: ModuleView,
    caps: Seq<HostSignatureView>,
    func: int,
    pc: int,
)
    requires
        0 <= func < m.functions.len(),
        0 <= pc < m.functions[func].code.len(),
        !branch_in_range(m.functions[func].code.len(), m.functions[func].code[pc]),
    ensures
        validation_verdict(m, caps) is Err,
        !valid_module(m, caps),
{
    assert(!function_branches_ok(m.functions[func]));
}

/// Whatever import a valid module calls, the table grants it with the very
/// signature the module declared: a module reaches nothing it was not granted.
pub proof fn lemma_imports_are_granted(m: ModuleView, caps: Seq<HostSignatureView>, import: int)
    requires
        valid_module(m, caps),
        0 <= import < m.imports.len(),
    ensures
        caps.contains(m.imports[import]),
{
}

/// In a valid module without imports no instruction calls the host.
pub proof fn lemma_no_imports_no_host_calls(
    m: ModuleView,
    caps: Seq<HostSignatureView>,
    func: int,
    pc: int,
)
    requires
        valid_module(m, caps),
        m.imports.len() == 0,
        0 <= func < m.functions.len(),
        0 <= pc < m.functions[func].code.len(),
    ensures
        !(m.functions[func].code[pc] is CallHost),
{
    assert(function_typed(m, m.functions[func]));
    assert(instr_typed(m, m.functions[func], m.functions[func].code[pc]));
}

} // verus!
