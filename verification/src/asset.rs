//! The two assets of the protocol.

use vstd::prelude::*;

verus! {

/// Identifies the token that a pool holds.
#[derive(Clone, Copy, Debug, PartialEq, Eq, Structural)]
pub enum Asset {
    Usdc,
    Sol,
}

impl Asset {
    /// The asset that is not this one.
    pub open spec fn other_spec(self) -> Asset {
        match self {
            Asset::Usdc => Asset::Sol,
            Asset::Sol => Asset::Usdc,
        }
    }

    /// The asset that is not this one.
    pub fn other(self) -> (o: Asset)
        ensures
            o == self.other_spec(),
            o != self,
    {
        match self {
            Asset::Usdc => Asset::Sol,
            Asset::Sol => Asset::Usdc,
        }
    }
}

} // verus!
