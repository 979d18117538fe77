//! Candidates: one fresh key pair each, with the address derived from it.

use crate::keys::{
    fresh_keypair, key_text, legacy_address_text, legacy_text, private_key_text, public_key_text,
    public_of, segwit_address_text, segwit_prefix, segwit_text, wif_text,
};
use crate::style::AddressStyle;
use bitcoin::secp256k1::{PublicKey, SecretKey};
use vstd::prelude::*;

verus! {

/// A key pair and its address, each in its text form.
#[derive(Debug, Clone, PartialEq, Eq)]
pub struct Candidate {
    /// The secret key in wallet import format.
    pub private_key: String,
    /// The public key in hexadecimal digits.
    pub public_key: String,
    /// The address derived from the public key.
    pub address: String,
}

/// The number of characters of a private key of the style.
pub open spec fn private_key_length(style: AddressStyle) -> nat {
    if style.compressed {
        52
    } else {
        51
    }
}

/// The number of hexadecimal digits of a public key of the style.
pub open spec fn public_key_length(style: AddressStyle) -> nat {
    if style.compressed {
        66
    } else {
        130
    }
}

/// The characters with which every address of the style begins.
pub open spec fn address_prefix(style: AddressStyle) -> Seq<char> {
    if style.bech32 {
        segwit_prefix()
    } else {
        seq!['1']
    }
}

/// Whether a text has the length of an address of the style: 42 characters
/// for a native segwit address, 34 at most for a base58 one.
pub open spec fn address_length_fits(length: nat, style: AddressStyle) -> bool {
    if style.bech32 {
        length == 42
    } else {
        length <= 34
    }
}

/// The candidate holds the texts of the given key pair in the style: the
/// secret key and the public key under the style's flag, and the address
/// of the public key that the style asks for.
pub open spec fn made_from(
    candidate: Candidate,
    secret: SecretKey,
    public: PublicKey,
    style: AddressStyle,
) -> bool {
    &&& candidate.private_key@ == wif_text(secret, style.compressed)
    &&& candidate.public_key@ == key_text(public, style.compressed)
    &&& candidate.address@ == if style.bech32 {
        segwit_text(public)
    } else {
        legacy_text(public, style.compressed)
    }
}

/// The candidate holds the texts of the secret key, of the public key
/// derived from it, and of that public key's address.
pub open spec fn made_of(candidate: Candidate, secret: SecretKey, style: AddressStyle) -> bool {
    made_from(candidate, secret, public_of(secret), style)
}

/// The candidate is that of some one key pair in the style.
pub open spec fn drawn(candidate: Candidate, style: AddressStyle) -> bool {
    exists|secret: SecretKey| #[trigger] made_of(candidate, secret, style)
}

impl Candidate {
    /// The candidate has the shape of the style: its keys have the style's
    /// lengths, and its address begins as the style's addresses do and is
    /// as long as they are.
    pub open spec fn fits(&self, style: AddressStyle) -> bool {
        &&& self.private_key@.len() == private_key_length(style)
        &&& self.public_key@.len() == public_key_length(style)
        &&& address_prefix(style).is_prefix_of(self.address@)
        &&& address_length_fits(self.address@.len(), style)
    }

    /// Makes the candidate of a key pair. Every supported style gets one,
    /// in the shape of the style; the style that is not supported gets
    /// none.
    pub fn from_keys(secret: &SecretKey, public: &PublicKey, style: AddressStyle) -> (made: Option<
        Candidate,
    >)
        ensures
            made is Some <==> style.supported(),
            made matches Some(candidate) ==> candidate.fits(style) && made_from(
                candidate,
                *secret,
                *public,
                style,
            ),
    {
        if !style.is_supported() {
            return None;
        }
        let private_key = private_key_text(secret, style.compressed);
        let public_key = public_key_text(public, style.compressed);
        let address = if style.bech32 {
            segwit_address_text(public)
        } else {
            legacy_address_text(public, style.compressed)
        };
        Some(Candidate { private_key, public_key, address })
    }

    /// Makes a candidate of a fresh random key pair. Every supported style
    /// gets one, in the shape of the style; the style that is not supported
    /// gets none.
    pub fn generate(style: AddressStyle) -> (made: Option<Candidate>)
        ensures
            made is Some <==> style.supported(),
            made matches Some(candidate) ==> candidate.fits(style),
            made is Some ==> drawn(made->Some_0, style),
    {
        if !style.is_supported() {
            return None;
        }
        let (secret, public) = fresh_keypair();
        let made = Candidate::from_keys(&secret, &public, style);
        proof {
            assert(made_of(made->Some_0, secret, style));
        }
        made
    }
}

} // verus!
