//! Failure classifications shared by every stage of an invocation.

use vstd::prelude::*;

verus! {

/// A fatal run-time fault. None of them can be caught inside a module.
#[derive(Debug, Clone, PartialEq, Eq)]
pub enum Trap {
    DivisionByZero,
    OutOfBoundsMemoryAccess,
    StackOverflow,
    UnreachableInstruction,
    /// A host function reported a failure; the reason is the host's own text.
    HostFunctionFailure(String),
}

/// Why a module was refused at load time.
#[derive(Debug, Clone, Copy, PartialEq, Eq)]
pub enum ValidationError {
    MalformedEncoding,
    TypeMismatch,
    UnresolvedImport,
    IllegalBranchTarget,
}

/// Why an invocation could not be started.
#[derive(Debug, Clone, Copy, PartialEq, Eq)]
pub enum EngineError {
    /// The module was refused by the loader.
    Validation(ValidationError),
    EntryPointNotFound,
    SignatureMismatch,
    /// An import of the module is absent from the capability table.
    InstantiationFailed,
}

/// Why a memory could not be created or grown.
#[derive(Debug, Clone, Copy, PartialEq, Eq)]
pub enum MemoryError {
    LimitExceeded,
}

} // verus!
