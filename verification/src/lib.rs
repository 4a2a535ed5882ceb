//! A functional emulator of the RV32I base integer instruction set.
//!
//! The crate interprets one instruction at a time over a flat little-endian
//! address space with memory-mapped devices laid over it, and records a
//! trace of every step.  Every function carries a contract over a
//! mathematical model of the machine, and the contracts are machine-checked.
//!
//! - [`word`]: arithmetic on 32-bit words, stated over the integers.
//! - [`register`]: a register, and the program counter.
//! - [`instruction`]: the decoder, from a word to its format and on to the
//!   operation.
//! - [`ram`]: RAM, and the bus that routes an access to a device or to RAM.
//! - [`mmio_device`]: the devices.
//! - [`semantics`]: what each operation does, and what a step does.
//! - [`cpu`]: the processor and the stages of a step.
//! - [`step_log`]: the trace of a run.
//! - [`emulator`]: the machine as a whole, and the loop that runs it.
//! - [`loader`]: laying an executable image out in RAM.
//! - [`dump`]: the machine as text.
//! - [`error`]: what can go wrong in a step.

pub mod cpu;
pub mod dump;
pub mod emulator;
pub mod error;
pub mod instruction;
pub mod loader;
pub mod mmio_device;
pub mod ram;
pub mod register;
pub mod semantics;
pub mod step_log;
pub mod word;
