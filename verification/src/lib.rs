//! A minimal embeddable virtual machine, verified.
//!
//! The engine executes a small bytecode instruction set against a numeric
//! operand stack, a byte-addressable linear memory, and a flat table of
//! callable functions. Numeric values are IEEE-754 binary64 and are carried
//! everywhere as their 64-bit patterns; the floating-point operations
//! themselves are performed by a software implementation behind trusted
//! wrappers, and everything else — stack discipline, memory access, argument
//! binding, local scoping, recursive invocation, fault reporting — is proved
//! against a definitional interpreter written in specification code.

pub mod inst;
pub mod mem;
pub mod numeric;
pub mod laws;
pub mod machine;
pub mod semantics;

pub use inst::Function;
pub use inst::Instruction;
pub use machine::Machine;
pub use semantics::Fault;
