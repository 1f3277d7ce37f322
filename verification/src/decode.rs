//! The binary module format and its decoder.
//!
//! A module is a 13-byte header followed by its imports, functions and exports:
//!
//! ```text
//! header    "NUSA" version(=1) memory-flag initial-pages:u16 max-pages:u16
//!           import-count function-count export-count
//! import    name name param-count type* result
//! function  param-count local-count type* result instr-count:u16 instr*
//! export    name function-index
//! name      length byte*
//! instr     opcode a b c immediate[8]
//! ```
//!
//! Integers wider than a byte are little-endian. A type is 0 (32 bits) or
//! 1 (64 bits); a result is a type or 2 for none. Nothing may follow the
//! last export.

use vstd::prelude::*;
use crate::module::{
    BinaryOp, Export, ExportView, Function, FunctionView, HostSignature, HostSignatureView,
    Instr, MemoryDescriptor, Module, ModuleView, ValueType,
};

verus! {

pub const HEADER_SIZE: usize = 13;

pub const INSTR_SIZE: usize = 12;

pub open spec fn type_of_byte(b: u8) -> Option<ValueType> {
    if b == 0 {
        Some(ValueType::I32)
    } else if b == 1 {
        Some(ValueType::I64)
    } else {
        None
    }
}

pub open spec fn result_of_byte(b: u8) -> Option<Option<ValueType>> {
    if b == 2 {
        Some(None)
    } else if type_of_byte(b) is Some {
        Some(type_of_byte(b))
    } else {
        None
    }
}

pub open spec fn op_of_byte(b: u8) -> Option<BinaryOp> {
    if b == 0 {
        Some(BinaryOp::Add)
    } else if b == 1 {
        Some(BinaryOp::Sub)
    } else if b == 2 {
        Some(BinaryOp::Mul)
    } else if b == 3 {
        Some(BinaryOp::DivU)
    } else if b == 4 {
        Some(BinaryOp::RemU)
    } else if b == 5 {
        Some(BinaryOp::Eq)
    } else if b == 6 {
        Some(BinaryOp::LtU)
    } else {
        None
    }
}

pub open spec fn u16_at(bytes: Seq<u8>, pos: int) -> int {
    bytes[pos] + 0x100 * bytes[pos + 1]
}

pub open spec fn u32_at(bytes: Seq<u8>, pos: int) -> int {
    bytes[pos] + 0x100 * bytes[pos + 1] + 0x1_0000 * bytes[pos + 2] + 0x100_0000 * bytes[pos + 3]
}

pub open spec fn u64_at(bytes: Seq<u8>, pos: int) -> int {
    u32_at(bytes, pos) + 0x1_0000_0000 * u32_at(bytes, pos + 4)
}

/// The instruction encoded in the 12 bytes from `pos` on.
pub open spec fn instr_at(bytes: Seq<u8>, pos: int) -> Option<Instr> {
    let opcode = bytes[pos];
    let a = bytes[pos + 1];
    let b = bytes[pos + 2];
    let c = bytes[pos + 3];
    if opcode == 0 {
        Some(Instr::Const { dst: a, value: u64_at(bytes, pos + 4) as u64 })
    } else if opcode == 1 {
        match (op_of_byte(bytes[pos + 4]), type_of_byte(bytes[pos + 5])) {
            (Some(op), Some(ty)) => Some(Instr::Binary { op, ty, dst: a, lhs: b, rhs: c }),
            _ => None,
        }
    } else if opcode == 2 {
        Some(Instr::Load8 { dst: a, addr: b, offset: u32_at(bytes, pos + 4) as u32 })
    } else if opcode == 3 {
        Some(Instr::Store8 { addr: a, src: b, offset: u32_at(bytes, pos + 4) as u32 })
    } else if opcode == 4 {
        Some(Instr::MemoryGrow { dst: a, delta: b })
    } else if opcode == 5 {
        Some(Instr::Jump { target: u32_at(bytes, pos + 4) as u32 })
    } else if opcode == 6 {
        Some(Instr::JumpIf { cond: a, target: u32_at(bytes, pos + 4) as u32 })
    } else if opcode == 7 {
        Some(Instr::Call { func: a, first_arg: b, dst: c })
    } else if opcode == 8 {
        Some(Instr::CallHost { import: a, first_arg: b, dst: c })
    } else if opcode == 9 {
        Some(Instr::Return { src: a })
    } else if opcode == 10 {
        Some(Instr::ReturnVoid)
    } else if opcode == 11 {
        Some(Instr::Unreachable)
    } else {
        None
    }
}

/// `count` types, one byte each, from `pos` on.
pub open spec fn types_at(bytes: Seq<u8>, pos: int, count: nat) -> Option<Seq<ValueType>> {
    if pos + count <= bytes.len() && forall|k: int|
        0 <= k < count ==> type_of_byte(#[trigger] bytes[pos + k]) is Some {
        Some(Seq::new(count, |k: int| type_of_byte(bytes[pos + k]).unwrap()))
    } else {
        None
    }
}

/// `count` instructions from `pos` on.
pub open spec fn code_at(bytes: Seq<u8>, pos: int, count: nat) -> Option<Seq<Instr>> {
    if pos + 12 * count <= bytes.len() && forall|k: int|
        0 <= k < count ==> (#[trigger] instr_at(bytes, pos + 12 * k)) is Some {
        Some(Seq::new(count, |k: int| instr_at(bytes, pos + 12 * k).unwrap()))
    } else {
        None
    }
}

/// A length byte and that many bytes.
pub open spec fn name_at(bytes: Seq<u8>, pos: int) -> Option<Seq<u8>> {
    if pos < bytes.len() && pos + 1 + bytes[pos] <= bytes.len() {
        Some(bytes.subrange(pos + 1, pos + 1 + bytes[pos]))
    } else {
        None
    }
}

/// The import that starts at `pos`, and where the next item starts.
pub open spec fn import_at(bytes: Seq<u8>, pos: int) -> Option<(HostSignatureView, int)> {
    match name_at(bytes, pos) {
        None => None,
        Some(module) => {
            let p1 = pos + 1 + module.len();
            match name_at(bytes, p1) {
                None => None,
                Some(name) => {
                    let p2 = p1 + 1 + name.len();
                    if p2 >= bytes.len() {
                        None
                    } else {
                        let p3 = p2 + 1 + bytes[p2];
                        match types_at(bytes, p2 + 1, bytes[p2] as nat) {
                            None => None,
                            Some(params) => if p3 >= bytes.len() {
                                None
                            } else {
                                match result_of_byte(bytes[p3]) {
                                    None => None,
                                    Some(result) => Some(
                                        (HostSignatureView { module, name, params, result }, p3 + 1),
                                    ),
                                }
                            },
                        }
                    }
                },
            }
        },
    }
}

/// The function that starts at `pos`, and where the next item starts.
pub open spec fn function_at(bytes: Seq<u8>, pos: int) -> Option<(FunctionView, int)> {
    if pos + 2 > bytes.len() {
        None
    } else {
        let p1 = pos + 2 + bytes[pos + 1];
        match types_at(bytes, pos + 2, bytes[pos + 1] as nat) {
            None => None,
            Some(locals) => if p1 + 3 > bytes.len() {
                None
            } else {
                let count = u16_at(bytes, p1 + 1) as nat;
                match (result_of_byte(bytes[p1]), code_at(bytes, p1 + 3, count)) {
                    (Some(result), Some(code)) => Some(
                        (
                            FunctionView { params: bytes[pos], locals, result, code },
                            p1 + 3 + 12 * count,
                        ),
                    ),
                    _ => None,
                }
            },
        }
    }
}

/// The export that starts at `pos`, and where the next item starts.
pub open spec fn export_at(bytes: Seq<u8>, pos: int) -> Option<(ExportView, int)> {
    match name_at(bytes, pos) {
        None => None,
        Some(name) => {
            let p1 = pos + 1 + name.len();
            if p1 >= bytes.len() {
                None
            } else {
                Some((ExportView { name, func: bytes[p1] }, p1 + 1))
            }
        },
    }
}

/// `count` more imports from `pos` on, appended to `acc`.
pub open spec fn imports_at(
    bytes: Seq<u8>,
    pos: int,
    count: nat,
    acc: Seq<HostSignatureView>,
) -> Option<(Seq<HostSignatureView>, int)>
    decreases count,
{
    if count == 0 {
        Some((acc, pos))
    } else {
        match import_at(bytes, pos) {
            None => None,
            Some((item, next)) => imports_at(bytes, next, (count - 1) as nat, acc.push(item)),
        }
    }
}

/// `count` more functions from `pos` on, appended to `acc`.
pub open spec fn functions_at(bytes: Seq<u8>, pos: int, count: nat, acc: Seq<FunctionView>) -> Option<
    (Seq<FunctionView>, int),
>
    decreases count,
{
    if count == 0 {
        Some((acc, pos))
    } else {
        match function_at(bytes, pos) {
            None => None,
            Some((item, next)) => functions_at(bytes, next, (count - 1) as nat, acc.push(item)),
        }
    }
}

/// `count` more exports from `pos` on, appended to `acc`.
pub open spec fn exports_at(bytes: Seq<u8>, pos: int, count: nat, acc: Seq<ExportView>) -> Option<
    (Seq<ExportView>, int),
>
    decreases count,
{
    if count == 0 {
        Some((acc, pos))
    } else {
        match export_at(bytes, pos) {
            None => None,
            Some((item, next)) => exports_at(bytes, next, (count - 1) as nat, acc.push(item)),
        }
    }
}

pub open spec fn header_ok(bytes: Seq<u8>) -> bool {
    &&& bytes.len() >= HEADER_SIZE
    &&& bytes[0] == 0x4E
    &&& bytes[1] == 0x55
    &&& bytes[2] == 0x53
    &&& bytes[3] == 0x41
    &&& bytes[4] == 1
    &&& bytes[5] <= 1
}

/// The module that `bytes` encode, if they encode one.
pub open spec fn decode_spec(bytes: Seq<u8>) -> Option<ModuleView> {
    if !header_ok(bytes) {
        None
    } else {
        let memory = if bytes[5] == 1 {
            Some(
                MemoryDescriptor {
                    initial_pages: u16_at(bytes, 6) as u32,
                    max_pages: u16_at(bytes, 8) as u32,
                },
            )
        } else {
            None
        };
        match imports_at(bytes, HEADER_SIZE as int, bytes[10] as nat, Seq::empty()) {
            None => None,
            Some((imports, p1)) => match functions_at(bytes, p1, bytes[11] as nat, Seq::empty()) {
                None => None,
                Some((functions, p2)) => match exports_at(
                    bytes,
                    p2,
                    bytes[12] as nat,
                    Seq::empty(),
                ) {
                    None => None,
                    Some((exports, p3)) => if p3 == bytes.len() {
                        Some(ModuleView { memory, imports, functions, exports })
                    } else {
                        None
                    },
                },
            },
        }
    }
}

fn read_type(b: u8) -> (r: Option<ValueType>)
    ensures
        r == type_of_byte(b),
{
    if b == 0 {
        Some(ValueType::I32)
    } else if b == 1 {
        Some(ValueType::I64)
    } else {
        None
    }
}

fn read_result(b: u8) -> (r: Option<Option<ValueType>>)
    ensures
        r == result_of_byte(b),
{
    if b == 2 {
        Some(None)
    } else {
        match read_type(b) {
            Some(t) => Some(Some(t)),
            None => None,
        }
    }
}

fn read_op(b: u8) -> (r: Option<BinaryOp>)
    ensures
        r == op_of_byte(b),
{
    if b == 0 {
        Some(BinaryOp::Add)
    } else if b == 1 {
        Some(BinaryOp::Sub)
    } else if b == 2 {
        Some(BinaryOp::Mul)
    } else if b == 3 {
        Some(BinaryOp::DivU)
    } else if b == 4 {
        Some(BinaryOp::RemU)
    } else if b == 5 {
        Some(BinaryOp::Eq)
    } else if b == 6 {
        Some(BinaryOp::LtU)
    } else {
        None
    }
}

fn read_u16(bytes: &[u8], pos: usize) -> (r: u32)
    requires
        pos + 2 <= bytes@.len(),
    ensures
        r == u16_at(bytes@, pos as int),
{
    bytes[pos] as u32 + 0x100 * (bytes[pos + 1] as u32)
}

fn read_u32(bytes: &[u8], pos: usize) -> (r: u32)
    requires
        pos + 4 <= bytes@.len(),
    ensures
        r == u32_at(bytes@, pos as int),
{
    bytes[pos] as u32 + 0x100 * (bytes[pos + 1] as u32) + 0x1_0000 * (bytes[pos + 2] as u32)
        + 0x100_0000 * (bytes[pos + 3] as u32)
}

fn read_u64(bytes: &[u8], pos: usize) -> (r: u64)
    requires
        pos + 8 <= bytes@.len(),
    ensures
        r == u64_at(bytes@, pos as int),
{
    let len: usize = bytes.len();
    read_u32(bytes, pos) as u64 + 0x1_0000_0000 * (read_u32(bytes, pos + 4) as u64)
}

fn read_instr(bytes: &[u8], pos: usize) -> (r: Option<Instr>)
    requires
        pos + 12 <= bytes@.len(),
    ensures
        r == instr_at(bytes@, pos as int),
{
    let opcode: u8 = bytes[pos];
    let a: u8 = bytes[pos + 1];
    let b: u8 = bytes[pos + 2];
    let c: u8 = bytes[pos + 3];
    if opcode == 0 {
        Some(Instr::Const { dst: a, value: read_u64(bytes, pos + 4) })
    } else if opcode == 1 {
        match (read_op(bytes[pos + 4]), read_type(bytes[pos + 5])) {
            (Some(op), Some(ty)) => Some(Instr::Binary { op, ty, dst: a, lhs: b, rhs: c }),
            _ => None,
        }
    } else if opcode == 2 {
        Some(Instr::Load8 { dst: a, addr: b, offset: read_u32(bytes, pos + 4) })
    } else if opcode == 3 {
        Some(Instr::Store8 { addr: a, src: b, offset: read_u32(bytes, pos + 4) })
    } else if opcode == 4 {
        Some(Instr::MemoryGrow { dst: a, delta: b })
    } else if opcode == 5 {
        Some(Instr::Jump { target: read_u32(bytes, pos + 4) })
    } else if opcode == 6 {
        Some(Instr::JumpIf { cond: a, target: read_u32(bytes, pos + 4) })
    } else if opcode == 7 {
        Some(Instr::Call { func: a, first_arg: b, dst: c })
    } else if opcode == 8 {
        Some(Instr::CallHost { import: a, first_arg: b, dst: c })
    } else if opcode == 9 {
        Some(Instr::Return { src: a })
    } else if opcode == 10 {
        Some(Instr::ReturnVoid)
    } else if opcode == 11 {
        Some(Instr::Unreachable)
    } else {
        None
    }
}

fn read_types(bytes: &[u8], pos: usize, count: usize) -> (r: Option<Vec<ValueType>>)
    requires
        pos <= bytes@.len(),
    ensures
        r is Some == types_at(bytes@, pos as int, count as nat) is Some,
        r matches Some(v) ==> Some(v@) == types_at(bytes@, pos as int, count as nat),
{
    let len: usize = bytes.len();
    if count > len - pos {
        return None;
    }
    let mut out: Vec<ValueType> = Vec::new();
    let mut k: usize = 0;
    while k < count
        invariant
            k <= count,
            pos + count <= len == bytes@.len(),
            out@.len() == k,
            forall|j: int| 0 <= j < k ==> type_of_byte(#[trigger] bytes@[pos + j]) == Some(out@[j]),
        decreases count - k,
    {
        match read_type(bytes[pos + k]) {
            Some(t) => {
                out.push(t);
            },
            None => {
                assert(type_of_byte(bytes@[pos + k]) is None);
                return None;
            },
        }
        k = k + 1;
    }
    assert(out@ =~= types_at(bytes@, pos as int, count as nat).unwrap());
    Some(out)
}

fn read_code(bytes: &[u8], pos: usize, count: usize) -> (r: Option<Vec<Instr>>)
    requires
        pos <= bytes@.len(),
        count <= 0xFFFF,
    ensures
        r is Some == code_at(bytes@, pos as int, count as nat) is Some,
        r matches Some(v) ==> Some(v@) == code_at(bytes@, pos as int, count as nat),
{
    let len: usize = bytes.len();
    if (len - pos) / INSTR_SIZE < count {
        return None;
    }
    let mut out: Vec<Instr> = Vec::new();
    let mut k: usize = 0;
    while k < count
        invariant
            k <= count,
            pos + 12 * count <= len == bytes@.len(),
            out@.len() == k,
            forall|j: int| 0 <= j < k ==> (#[trigger] instr_at(bytes@, pos + 12 * j)) == Some(out@[j]),
        decreases count - k,
    {
        match read_instr(bytes, pos + INSTR_SIZE * k) {
            Some(i) => {
                out.push(i);
            },
            None => {
                assert(instr_at(bytes@, pos + 12 * k) is None);
                return None;
            },
        }
        k = k + 1;
    }
    assert(out@ =~= code_at(bytes@, pos as int, count as nat).unwrap());
    Some(out)
}

fn read_name(bytes: &[u8], pos: usize) -> (r: Option<Vec<u8>>)
    requires
        pos <= bytes@.len(),
    ensures
        r is Some == name_at(bytes@, pos as int) is Some,
        r matches Some(v) ==> Some(v@) == name_at(bytes@, pos as int),
{
    let len: usize = bytes.len();
    if pos >= len {
        return None;
    }
    let count: usize = bytes[pos] as usize;
    if count > len - pos - 1 {
        return None;
    }
    let mut out: Vec<u8> = Vec::new();
    let mut k: usize = 0;
    while k < count
        invariant
            k <= count,
            pos + 1 + count <= len == bytes@.len(),
            out@ == bytes@.subrange(pos + 1, pos + 1 + k),
        decreases count - k,
    {
        out.push(bytes[pos + 1 + k]);
        k = k + 1;
    }
    Some(out)
}

fn read_import(bytes: &[u8], pos: usize) -> (r: Option<(HostSignature, usize)>)
    requires
        pos <= bytes@.len(),
    ensures
        r is Some == import_at(bytes@, pos as int) is Some,
        r matches Some((item, next)) ==> Some((item@, next as int)) == import_at(bytes@, pos as int)
            && pos < next <= bytes@.len(),
{
    let len: usize = bytes.len();
    let module = match read_name(bytes, pos) {
        Some(n) => n,
        None => {
            return None;
        },
    };
    let p1: usize = pos + 1 + module.len();
    let name = match read_name(bytes, p1) {
        Some(n) => n,
        None => {
            return None;
        },
    };
    let p2: usize = p1 + 1 + name.len();
    if p2 >= len {
        return None;
    }
    let count: usize = bytes[p2] as usize;
    let params = match read_types(bytes, p2 + 1, count) {
        Some(t) => t,
        None => {
            return None;
        },
    };
    let p3: usize = p2 + 1 + count;
    if p3 >= len {
        return None;
    }
    match read_result(bytes[p3]) {
        Some(result) => Some((HostSignature { module, name, params, result }, p3 + 1)),
        None => None,
    }
}

fn read_function(bytes: &[u8], pos: usize) -> (r: Option<(Function, usize)>)
    requires
        pos <= bytes@.len(),
    ensures
        r is Some == function_at(bytes@, pos as int) is Some,
        r matches Some((item, next)) ==> Some((item@, next as int)) == function_at(
            bytes@,
            pos as int,
        ) && pos < next <= bytes@.len(),
{
    let len: usize = bytes.len();
    if len - pos < 2 {
        return None;
    }
    let count: usize = bytes[pos + 1] as usize;
    let locals = match read_types(bytes, pos + 2, count) {
        Some(t) => t,
        None => {
            return None;
        },
    };
    let p1: usize = pos + 2 + count;
    if len - p1 < 3 {
        return None;
    }
    let length: usize = read_u16(bytes, p1 + 1) as usize;
    match (read_result(bytes[p1]), read_code(bytes, p1 + 3, length)) {
        (Some(result), Some(code)) => Some(
            (Function { params: bytes[pos], locals, result, code }, p1 + 3 + INSTR_SIZE * length),
        ),
        _ => None,
    }
}

fn read_export(bytes: &[u8], pos: usize) -> (r: Option<(Export, usize)>)
    requires
        pos <= bytes@.len(),
    ensures
        r is Some == export_at(bytes@, pos as int) is Some,
        r matches Some((item, next)) ==> Some((item@, next as int)) == export_at(bytes@, pos as int)
            && pos < next <= bytes@.len(),
{
    let len: usize = bytes.len();
    let name = match read_name(bytes, pos) {
        Some(n) => n,
        None => {
            return None;
        },
    };
    let p1: usize = pos + 1 + name.len();
    if p1 >= len {
        return None;
    }
    Some((Export { name, func: bytes[p1] }, p1 + 1))
}

/// Decodes a module. Nothing is said here of its validity.
#[verifier::loop_isolation(false)]
pub fn decode(bytes: &[u8]) -> (r: Option<Module>)
    ensures
        r is Some == decode_spec(bytes@) is Some,
        r matches Some(m) ==> Some(m@) == decode_spec(bytes@),
{
    let len: usize = bytes.len();
    if len < HEADER_SIZE || bytes[0] != 0x4E || bytes[1] != 0x55 || bytes[2] != 0x53 || bytes[3]
        != 0x41 || bytes[4] != 1 || bytes[5] > 1 {
        return None;
    }
    let memory = if bytes[5] == 1 {
        Some(MemoryDescriptor { initial_pages: read_u16(bytes, 6), max_pages: read_u16(bytes, 8) })
    } else {
        None
    };
    let mut pos: usize = HEADER_SIZE;
    let ghost goal_imports = imports_at(bytes@, HEADER_SIZE as int, bytes@[10] as nat, Seq::empty());
    let mut imports: Vec<HostSignature> = Vec::new();
    let n_imports: usize = bytes[10] as usize;
    let mut k: usize = 0;
    assert(imports@.map_values(|s: HostSignature| s@) =~= Seq::empty());
    while k < n_imports
        invariant
            k <= n_imports,
            pos <= len == bytes@.len(),
            goal_imports == imports_at(
                bytes@,
                pos as int,
                (n_imports - k) as nat,
                imports@.map_values(|s: HostSignature| s@),
            ),
        decreases n_imports - k,
    {
        match read_import(bytes, pos) {
            Some((item, next)) => {
                proof {
                    assert(imports@.push(item).map_values(|s: HostSignature| s@) =~= imports@.map_values(
                        |s: HostSignature| s@,
                    ).push(item@));
                }
                imports.push(item);
                pos = next;
            },
            None => {
                return None;
            },
        }
        k = k + 1;
    }
    let ghost p1 = pos as int;
    let ghost goal_functions = functions_at(bytes@, p1, bytes@[11] as nat, Seq::empty());
    let mut functions: Vec<Function> = Vec::new();
    let n_functions: usize = bytes[11] as usize;
    k = 0;
    assert(functions@.map_values(|f: Function| f@) =~= Seq::empty());
    while k < n_functions
        invariant
            k <= n_functions,
            pos <= len == bytes@.len(),
            goal_functions == functions_at(
                bytes@,
                pos as int,
                (n_functions - k) as nat,
                functions@.map_values(|f: Function| f@),
            ),
        decreases n_functions - k,
    {
        match read_function(bytes, pos) {
            Some((item, next)) => {
                proof {
                    assert(functions@.push(item).map_values(|f: Function| f@) =~= functions@.map_values(
                        |f: Function| f@,
                    ).push(item@));
                }
                functions.push(item);
                pos = next;
            },
            None => {
                return None;
            },
        }
        k = k + 1;
    }
    let ghost p2 = pos as int;
    let ghost goal_exports = exports_at(bytes@, p2, bytes@[12] as nat, Seq::empty());
    let mut exports: Vec<Export> = Vec::new();
    let n_exports: usize = bytes[12] as usize;
    k = 0;
    assert(exports@.map_values(|e: Export| e@) =~= Seq::empty());
    while k < n_exports
        invariant
            k <= n_exports,
            pos <= len == bytes@.len(),
            goal_exports == exports_at(
                bytes@,
                pos as int,
                (n_exports - k) as nat,
                exports@.map_values(|e: Export| e@),
            ),
        decreases n_exports - k,
    {
        match read_export(bytes, pos) {
            Some((item, next)) => {
                proof {
                    assert(exports@.push(item).map_values(|e: Export| e@) =~= exports@.map_values(
                        |e: Export| e@,
                    ).push(item@));
                }
                exports.push(item);
                pos = next;
            },
            None => {
                return None;
            },
        }
        k = k + 1;
    }
    if pos != len {
        return None;
    }
    Some(Module { memory, imports, functions, exports })
}

} // verus!
