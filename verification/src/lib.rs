//! Loads an executable image into the address space of a CPU emulator.

pub mod arch;
pub mod binary;
pub mod emulator;
pub mod error;
pub mod popcorn_engine;
pub mod registry;
pub mod text;

pub use emulator::Emulator;
pub use error::Error;
