use vstd::prelude::*;
use crate::cpu::CpuState;

verus! {

/// Why a step of the machine could not be carried out.  Every one of them is
/// fatal: nothing is retried and nothing is rolled back.
#[derive(Debug, Clone, Copy, PartialEq, Eq, Structural)]
pub enum EmulatorError {
    /// The word has an unknown opcode or an illegal combination of function
    /// fields.
    Decode,
    /// A stage of the CPU was asked for while the CPU was in a state from
    /// which that stage cannot be entered.  `requested` is the stage.
    Protocol { requested: CpuState },
    /// The program counter does not address a whole word of RAM.
    PcOutOfBounds,
    /// A register index of 32 or more.
    RegisterIndex,
    /// A load or store that no device claims and that does not lie in RAM.
    MemoryOutOfBounds,
    /// `FENCE` was reached; this core does not support it.
    Fence { pred: u8, succ: u8 },
    /// `ECALL` was reached; there is no environment to call.
    Ecall,
    /// `EBREAK` was reached; there is no debugger to break into.
    Ebreak,
    /// The step counter cannot count another step.
    StepLimit,
}

/// The families into which the errors fall.
#[derive(Debug, Clone, Copy, PartialEq, Eq, Structural)]
pub enum ErrorKind {
    Decode,
    Protocol,
    Bounds,
    UnsupportedTrap,
}

impl EmulatorError {
    pub open spec fn spec_kind(self) -> ErrorKind {
        match self {
            EmulatorError::Decode => ErrorKind::Decode,
            EmulatorError::Protocol { .. } => ErrorKind::Protocol,
            EmulatorError::PcOutOfBounds => ErrorKind::Bounds,
            EmulatorError::RegisterIndex => ErrorKind::Bounds,
            EmulatorError::MemoryOutOfBounds => ErrorKind::Bounds,
            EmulatorError::StepLimit => ErrorKind::Bounds,
            EmulatorError::Fence { .. } => ErrorKind::UnsupportedTrap,
            EmulatorError::Ecall => ErrorKind::UnsupportedTrap,
            EmulatorError::Ebreak => ErrorKind::UnsupportedTrap,
        }
    }

    /// The family of this error.
    pub fn kind(&self) -> (k: ErrorKind)
        ensures
            k == self.spec_kind(),
    {
        match self {
            EmulatorError::Decode => ErrorKind::Decode,
            EmulatorError::Protocol { .. } => ErrorKind::Protocol,
            EmulatorError::PcOutOfBounds => ErrorKind::Bounds,
            EmulatorError::RegisterIndex => ErrorKind::Bounds,
            EmulatorError::MemoryOutOfBounds => ErrorKind::Bounds,
            EmulatorError::StepLimit => ErrorKind::Bounds,
            EmulatorError::Fence { .. } => ErrorKind::UnsupportedTrap,
            EmulatorError::Ecall => ErrorKind::UnsupportedTrap,
            EmulatorError::Ebreak => ErrorKind::UnsupportedTrap,
        }
    }
}

} // verus!
