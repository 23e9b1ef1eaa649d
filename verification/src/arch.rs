//! The architecture an emulator is created for.

use vstd::prelude::*;

verus! {

/// Instruction-set families that a CPU-emulation engine can interpret.
#[derive(Clone, Copy, Debug, PartialEq, Eq, Structural)]
pub enum Isa {
    Arm,
    Arm64,
    Mips,
    X86,
    Ppc,
    Sparc,
    M68k,
}

/// Execution modes of an instruction set.
#[derive(Clone, Copy, Debug, PartialEq, Eq, Structural)]
pub enum Mode {
    LittleEndian,
    Mode16,
    Mode32,
    Mode64,
    Thumb,
    Mclass,
    V8,
    BigEndian,
}

/// An instruction set together with the mode it runs in. Resolved once per
/// load and never changed afterwards.
#[derive(Clone, Copy, Debug, PartialEq, Eq, Structural)]
pub struct Arch {
    pub arch: Isa,
    pub mode: Mode,
}

} // verus!
