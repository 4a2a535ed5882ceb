use vstd::prelude::*;
use crate::word::wrap;

verus! {

/// A 32-bit register.
#[derive(Clone, Copy, Debug)]
pub struct Register(u32);

/// The program counter is a register that can also step to the next word.
pub type ProgramCounter = Register;

impl Register {
    /// The word that the register holds.
    pub closed spec fn value(self) -> u32 {
        self.0
    }

    pub fn load(&self) -> (word: u32)
        ensures
            word == self.value(),
    {
        self.0
    }

    pub fn store(&mut self, value: u32)
        ensures
            final(self).value() == value,
    {
        self.0 = value
    }

    /// Steps to the next instruction word: adds 4 modulo 2^32, so that the
    /// last word of the address space is followed by address 0.
    pub fn increment(&mut self)
        ensures
            final(self).value() == wrap(old(self).value() + 4),
    {
        proof {
            reveal(wrap);
        }
        self.0 = self.0.wrapping_add(4);
    }
}

impl Default for Register {
    fn default() -> (r: Self)
        ensures
            r.value() == 0,
    {
        Register(0)
    }
}

} // verus!
