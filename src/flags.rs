//! Condition codes set by arithmetic and comparison.
use vstd::prelude::*;

verus! {

/// Seven independent condition bits.
#[derive(Debug, Clone, Copy, PartialEq, Eq, Structural)]
pub struct Flags {
    pub carry: bool,
    pub parity: bool,
    pub zero: bool,
    /// Set when the top bit of the last result is clear.
    pub sign: bool,
    pub trap: bool,
    pub interrupt_enable: bool,
    pub overflow: bool,
}

impl Flags {
    pub open spec fn cleared() -> Flags {
        Flags {
            carry: false,
            parity: false,
            zero: false,
            sign: false,
            trap: false,
            interrupt_enable: false,
            overflow: false,
        }
    }

    /// All flags clear.
    pub fn new() -> (r: Flags)
        ensures
            r == Flags::cleared(),
    {
        Flags {
            carry: false,
            parity: false,
            zero: false,
            sign: false,
            trap: false,
            interrupt_enable: false,
            overflow: false,
        }
    }

    /// Clears every flag.
    pub fn reset(&mut self)
        ensures
            *final(self) == Flags::cleared(),
    {
        *self = Flags::new();
    }
}

} // verus!
