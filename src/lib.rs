//! Execution core of a small typed virtual machine: tagged values, condition
//! flags, register banks, scoped memory with a mark-and-sweep collector,
//! identifier and type resolution, and the fetch-execute engine.
pub mod arithmetic;
pub mod bytes;
pub mod comparison;
pub mod endian;
pub mod flags;
pub mod functions;
pub mod immediate;
pub mod instruction_set;
pub mod memory;
pub mod registers;
pub mod resolution;
pub mod types;
pub mod vm;

pub use vm::VirtualMachine;
