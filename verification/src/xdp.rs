//! Attach strategies for network-ingress programs.
//!
//! The flags form a closed enumeration of mutually exclusive strategies;
//! `bits` gives the value the attach collaborator expects for each.

use vstd::prelude::*;

verus! {

/// How a network-ingress program is bound to an interface.
#[derive(Debug, Clone, Copy, PartialEq, Eq, Structural)]
pub enum Flags {
    /// No strategy requested.
    Unset,
    /// Create the binding only where none exists yet.
    UpdateIfNoExist,
    /// Generic software mode.
    SkbMode,
    /// Driver mode.
    DrvMode,
    /// Hardware offload mode.
    HwMode,
}

impl Flags {
    /// The flag value the attach collaborator expects.
    pub open spec fn spec_bits(self) -> u32 {
        match self {
            Flags::Unset => 0,
            Flags::UpdateIfNoExist => 1,
            Flags::SkbMode => 2,
            Flags::DrvMode => 4,
            Flags::HwMode => 8,
        }
    }

    /// Returns the flag value the attach collaborator expects.
    pub fn bits(&self) -> (r: u32)
        ensures
            r == self.spec_bits(),
    {
        match self {
            Flags::Unset => 0,
            Flags::UpdateIfNoExist => 1,
            Flags::SkbMode => 2,
            Flags::DrvMode => 4,
            Flags::HwMode => 8,
        }
    }
}

} // verus!
