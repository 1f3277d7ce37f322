//! The validated representation of contract code and the static rules it obeys.

use vstd::prelude::*;

verus! {

/// The two value types of the instruction set.
#[derive(Debug, Clone, Copy, PartialEq, Eq, Structural)]
pub enum ValueType {
    I32,
    I64,
}

/// A typed argument of an invocation.
#[derive(Debug, Clone, Copy, PartialEq, Eq, Structural)]
pub enum Value {
    I32(u32),
    I64(u64),
}

impl Value {
    pub open spec fn ty(self) -> ValueType {
        match self {
            Value::I32(_) => ValueType::I32,
            Value::I64(_) => ValueType::I64,
        }
    }

    pub open spec fn raw(self) -> u64 {
        match self {
            Value::I32(v) => v as u64,
            Value::I64(v) => v,
        }
    }

    pub fn value_type(self) -> (r: ValueType)
        ensures
            r == self.ty(),
    {
        match self {
            Value::I32(_) => ValueType::I32,
            Value::I64(_) => ValueType::I64,
        }
    }

    pub fn bits(self) -> (r: u64)
        ensures
            r == self.raw(),
    {
        match self {
            Value::I32(v) => v as u64,
            Value::I64(v) => v,
        }
    }
}

#[derive(Debug, Clone, Copy, PartialEq, Eq, Structural)]
pub enum BinaryOp {
    Add,
    Sub,
    Mul,
    DivU,
    RemU,
    Eq,
    LtU,
}

/// One instruction. Operands name locals of the running function by index.
#[derive(Debug, Clone, Copy, PartialEq, Eq, Structural)]
pub enum Instr {
    Const { dst: u8, value: u64 },
    Binary { op: BinaryOp, ty: ValueType, dst: u8, lhs: u8, rhs: u8 },
    Load8 { dst: u8, addr: u8, offset: u32 },
    Store8 { addr: u8, src: u8, offset: u32 },
    MemoryGrow { dst: u8, delta: u8 },
    Jump { target: u32 },
    JumpIf { cond: u8, target: u32 },
    Call { func: u8, first_arg: u8, dst: u8 },
    CallHost { import: u8, first_arg: u8, dst: u8 },
    Return { src: u8 },
    ReturnVoid,
    Unreachable,
}

#[derive(Debug, Clone, Copy, PartialEq, Eq, Structural)]
pub struct MemoryDescriptor {
    pub initial_pages: u32,
    pub max_pages: u32,
}

/// A host function's identity and type: what a module imports and what a host grants.
#[derive(Debug, Clone, PartialEq, Eq)]
pub struct HostSignature {
    pub module: Vec<u8>,
    pub name: Vec<u8>,
    pub params: Vec<ValueType>,
    pub result: Option<ValueType>,
}

pub struct HostSignatureView {
    pub module: Seq<u8>,
    pub name: Seq<u8>,
    pub params: Seq<ValueType>,
    pub result: Option<ValueType>,
}

impl View for HostSignature {
    type V = HostSignatureView;

    open spec fn view(&self) -> HostSignatureView {
        HostSignatureView {
            module: self.module@,
            name: self.name@,
            params: self.params@,
            result: self.result,
        }
    }
}

/// A function: its first `params` locals receive the arguments.
#[derive(Debug, Clone, PartialEq, Eq)]
pub struct Function {
    pub params: u8,
    pub locals: Vec<ValueType>,
    pub result: Option<ValueType>,
    pub code: Vec<Instr>,
}

pub struct FunctionView {
    pub params: u8,
    pub locals: Seq<ValueType>,
    pub result: Option<ValueType>,
    pub code: Seq<Instr>,
}

impl View for Function {
    type V = FunctionView;

    open spec fn view(&self) -> FunctionView {
        FunctionView {
            params: self.params,
            locals: self.locals@,
            result: self.result,
            code: self.code@,
        }
    }
}

#[derive(Debug, Clone, PartialEq, Eq)]
pub struct Export {
    pub name: Vec<u8>,
    pub func: u8,
}

pub struct ExportView {
    pub name: Seq<u8>,
    pub func: u8,
}

impl View for Export {
    type V = ExportView;

    open spec fn view(&self) -> ExportView {
        ExportView { name: self.name@, func: self.func }
    }
}

/// Contract code. A value of this type says nothing of validity by itself:
/// see [`valid_module`].
#[derive(Debug, Clone, PartialEq, Eq)]
pub struct Module {
    pub memory: Option<MemoryDescriptor>,
    pub imports: Vec<HostSignature>,
    pub functions: Vec<Function>,
    pub exports: Vec<Export>,
}

pub struct ModuleView {
    pub memory: Option<MemoryDescriptor>,
    pub imports: Seq<HostSignatureView>,
    pub functions: Seq<FunctionView>,
    pub exports: Seq<ExportView>,
}

impl View for Module {
    type V = ModuleView;

    open spec fn view(&self) -> ModuleView {
        ModuleView {
            memory: self.memory,
            imports: self.imports@.map_values(|s: HostSignature| s@),
            functions: self.functions@.map_values(|f: Function| f@),
            exports: self.exports@.map_values(|e: Export| e@),
        }
    }
}

/// The capabilities a host grants. Nothing outside this table is reachable
/// from inside a module.
pub struct CapabilityTable {
    entries: Vec<HostSignature>,
}

impl View for CapabilityTable {
    type V = Seq<HostSignatureView>;

    closed spec fn view(&self) -> Seq<HostSignatureView> {
        self.entries@.map_values(|s: HostSignature| s@)
    }
}

fn bytes_equal(a: &Vec<u8>, b: &Vec<u8>) -> (r: bool)
    ensures
        r == (a@ == b@),
{
    if a.len() != b.len() {
        return false;
    }
    let mut i: usize = 0;
    while i < a.len()
        invariant
            i <= a@.len() == b@.len(),
            a@.subrange(0, i as int) == b@.subrange(0, i as int),
        decreases a@.len() - i,
    {
        if a[i] != b[i] {
            return false;
        }
        i = i + 1;
        assert(a@.subrange(0, i as int) =~= a@.subrange(0, i - 1).push(a@[i - 1]));
        assert(b@.subrange(0, i as int) =~= b@.subrange(0, i - 1).push(b@[i - 1]));
    }
    assert(a@ =~= a@.subrange(0, i as int));
    assert(b@ =~= b@.subrange(0, i as int));
    true
}

fn types_equal(a: &Vec<ValueType>, b: &Vec<ValueType>) -> (r: bool)
    ensures
        r == (a@ == b@),
{
    if a.len() != b.len() {
        return false;
    }
    let mut i: usize = 0;
    while i < a.len()
        invariant
            i <= a@.len() == b@.len(),
            a@.subrange(0, i as int) == b@.subrange(0, i as int),
        decreases a@.len() - i,
    {
        if a[i] != b[i] {
            return false;
        }
        i = i + 1;
        assert(a@.subrange(0, i as int) =~= a@.subrange(0, i - 1).push(a@[i - 1]));
        assert(b@.subrange(0, i as int) =~= b@.subrange(0, i - 1).push(b@[i - 1]));
    }
    assert(a@ =~= a@.subrange(0, i as int));
    assert(b@ =~= b@.subrange(0, i as int));
    true
}

/// Whether two optional value types are the same.
pub fn same_type(a: Option<ValueType>, b: Option<ValueType>) -> (r: bool)
    ensures
        r == (a == b),
{
    match (a, b) {
        (None, None) => true,
        (Some(x), Some(y)) => x == y,
        _ => false,
    }
}

impl HostSignature {
    /// Whether two signatures agree in module, name, parameters and result.
    pub fn matches(&self, other: &HostSignature) -> (r: bool)
        ensures
            r == (self@ == other@),
    {
        bytes_equal(&self.module, &other.module) && bytes_equal(&self.name, &other.name)
            && types_equal(&self.params, &other.params) && same_type(self.result, other.result)
    }
}

impl CapabilityTable {
    /// The table that grants nothing.
    pub fn new() -> (r: CapabilityTable)
        ensures
            r@ == Seq::<HostSignatureView>::empty(),
    {
        let t = CapabilityTable { entries: Vec::new() };
        assert(t@ =~= Seq::<HostSignatureView>::empty());
        t
    }

    /// Grants one more capability.
    pub fn grant(&mut self, capability: HostSignature)
        ensures
            final(self)@ == old(self)@.push(capability@),
    {
        self.entries.push(capability);
        assert(self@ =~= old(self)@.push(capability@));
    }

    /// Whether the table grants exactly this capability.
    pub fn grants(&self, wanted: &HostSignature) -> (r: bool)
        ensures
            r == self@.contains(wanted@),
    {
        let mut i: usize = 0;
        while i < self.entries.len()
            invariant
                i <= self.entries@.len(),
                forall|j: int| 0 <= j < i ==> self@[j] != wanted@,
            decreases self.entries@.len() - i,
        {
            if self.entries[i].matches(wanted) {
                assert(self@[i as int] == wanted@);
                return true;
            }
            i = i + 1;
        }
        false
    }
}

} // verus!
