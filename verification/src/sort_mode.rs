//! The order in which the entries of a directory are listed.

use vstd::prelude::*;

verus! {

/// How the children of the viewed directory are ranked.
#[derive(Debug, Clone, Copy, PartialOrd, PartialEq, Eq, Structural)]
pub enum SortMode {
    /// Largest entry first.
    SizeDescending,
    /// Smallest entry first.
    SizeAscending,
}

impl SortMode {
    /// The other of the two modes.
    pub open spec fn toggled(self) -> SortMode {
        match self {
            SortMode::SizeAscending => SortMode::SizeDescending,
            SortMode::SizeDescending => SortMode::SizeAscending,
        }
    }

    /// Flips between ascending and descending order.
    pub fn toggle_size(&mut self)
        ensures
            *final(self) == old(self).toggled(),
    {
        *self = match *self {
            SortMode::SizeAscending => SortMode::SizeDescending,
            SortMode::SizeDescending => SortMode::SizeAscending,
        }
    }
}

impl Default for SortMode {
    /// Listings start with the largest entry first.
    fn default() -> (mode: SortMode)
        ensures
            mode == SortMode::SizeDescending,
    {
        SortMode::SizeDescending
    }
}

/// Toggling twice gives back the mode one started with, and toggling once
/// never leaves the mode as it was.
pub proof fn toggle_is_involution(mode: SortMode)
    ensures
        mode.toggled().toggled() == mode,
        mode.toggled() != mode,
{
}

} // verus!
