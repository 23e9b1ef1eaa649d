//! The entry point for running a loaded binary.

use crate::emulator::Emulator;
use crate::error::Error;
use vstd::prelude::*;

verus! {

/// A loaded binary, ready to run.
pub struct PopcornEngine {
    emulator: Box<Emulator>,
}

/// What a run gave.
pub struct ExecResult(u64);

impl ExecResult {
    /// The value that the run returned.
    pub closed spec fn value(&self) -> u64 {
        self.0
    }

    /// What the program wrote to its standard output. Output is not
    /// captured yet: the text is empty.
    pub fn stdout(&self) -> (text: &str)
        ensures
            text@ == Seq::<char>::empty(),
    {
        proof {
            reveal_strlit("");
        }
        let text = "";
        assert(text@ =~= Seq::<char>::empty());
        text
    }
}

impl PopcornEngine {
    /// The emulator that holds the binary.
    pub closed spec fn emulator(&self) -> Emulator {
        *self.emulator
    }

    /// Makes the engine from what loading a binary gave: the loaded
    /// emulator is taken over as it is, and a failed load is handed on.
    pub fn new(loaded: Result<Box<Emulator>, Error>) -> (made: Result<PopcornEngine, Error>)
        ensures
            match loaded {
                Ok(emulator) => made is Ok && made->Ok_0.emulator() == *emulator,
                Err(failure) => made == Err::<PopcornEngine, Error>(failure),
            },
    {
        match loaded {
            Ok(emulator) => Ok(PopcornEngine { emulator }),
            Err(failure) => Err(failure),
        }
    }

    /// Prepares the environment that the program will see. There is none
    /// yet.
    pub fn setup_env(&self) {
    }

    /// Runs the binary with `args`. Execution is left to a later layer: the
    /// call goes to address 0 of the emulator, which runs nothing, and the
    /// run returns 0 and leaves the emulator as it was.
    pub fn run(&mut self, args: &[&str]) -> (outcome: Result<ExecResult, Error>)
        ensures
            outcome is Ok,
            outcome->Ok_0.value() == 0,
            final(self).emulator().spec_arch() == old(self).emulator().spec_arch(),
            final(self).emulator().entries() == old(self).emulator().entries(),
    {
        let no_args: [u64; 0] = [];
        match self.emulator.call_addr(0, no_args.as_slice()) {
            Ok(value) => Ok(ExecResult(value)),
            Err(failure) => Err(failure),
        }
    }
}

} // verus!
