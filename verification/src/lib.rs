//! A sandboxed, metered virtual machine for contract modules.

pub mod trap;
pub mod memory;
pub mod budget;
pub mod module;
pub mod validate;
pub mod machine;
pub mod instance;
pub mod decode;
pub mod engine;

pub use crate::engine::{ExecutionResult, HostContext, NusaVM};
pub use crate::instance::{HostReply, Instance, MemoryWrite, Status};
pub use crate::machine::Outcome;
pub use crate::module::{CapabilityTable, HostSignature, Module, Value, ValueType};
pub use crate::trap::{EngineError, MemoryError, Trap, ValidationError};
