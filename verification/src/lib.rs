//! An execution engine for DWARF location-expression bytecode, run against
//! the frozen memory image of a captured process.
//!
//! The engine is a small stack machine, [`DwarfVm`]. It owns a program
//! counter and an operand stack of 64-bit words, reads memory through an
//! overlay that the caller may patch at any time and that shadows an
//! immutable base image, and calls a [`Breakpoint`] hook before it runs the
//! instruction at an address that has one. Turning bytes into instructions
//! is left to a [`Decoder`] that the caller supplies, and cutting a process
//! image into [`Region`]s is left to the caller too.
//!
//! Every executable function carries a contract that Verus proves. The
//! contracts are stated over three models: [`memory::Memory`] says what a
//! read sees, [`semantics::outcome`] says what an instruction does, and
//! [`model::VmView`] says what a step and a run do.

pub mod error;
pub mod memory;
pub mod model;
pub mod op;
pub mod semantics;
pub mod sorted;
pub mod state;
pub mod text;
pub mod vm;
pub mod word;

pub use error::DwarfVmError;
pub use memory::Region;
pub use op::{DecodeFault, Decoder, Op};
pub use state::DwarfVmState;
pub use vm::{Breakpoint, DwarfVm, Halt};
