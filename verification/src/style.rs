//! The style of address that a search looks for.

use vstd::prelude::*;

verus! {

/// The style of the addresses of one search.
#[derive(Clone, Copy, Debug, PartialEq, Eq, Structural)]
pub struct AddressStyle {
    /// The public key is serialised in its 33-byte form, not its 65-byte one.
    pub compressed: bool,
    /// The address is a native segwit one, not a base58 one.
    pub bech32: bool,
}

impl AddressStyle {
    /// A native segwit address commits to a compressed key: the style that
    /// asks for one of an uncompressed key has no addresses.
    pub open spec fn supported(self) -> bool {
        self.bech32 ==> self.compressed
    }

    /// Whether the style has addresses.
    pub fn is_supported(self) -> (supported: bool)
        ensures
            supported == self.supported(),
    {
        !self.bech32 || self.compressed
    }
}

} // verus!
