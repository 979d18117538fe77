//! Key pairs and their encodings, as the `bitcoin` crate makes them.

use bitcoin::secp256k1::{PublicKey, SecretKey};
use vstd::prelude::*;

verus! {

/// `secp256k1::SecretKey`. Nothing inside it is seen here.
#[verifier::external_type_specification]
#[verifier::external_body]
pub struct ExSecretKey(bitcoin::secp256k1::SecretKey);

/// `secp256k1::PublicKey`. Nothing inside it is seen here.
#[verifier::external_type_specification]
#[verifier::external_body]
pub struct ExPublicKey(bitcoin::secp256k1::PublicKey);

/// The public key that `secp256k1::PublicKey::from_secret_key` derives from
/// a secret key.
pub uninterp spec fn public_of(secret: SecretKey) -> PublicKey;

/// The `Display` form of the `bitcoin::PrivateKey` of the main network that
/// holds the secret key and the flag.
pub uninterp spec fn wif_text(secret: SecretKey, compressed: bool) -> Seq<char>;

/// The `Display` form of the `bitcoin::PublicKey` that holds the public key
/// and the flag.
pub uninterp spec fn key_text(public: PublicKey, compressed: bool) -> Seq<char>;

/// The `Display` form of the address that `bitcoin::Address::p2pkh` makes
/// on the main network of the public key and the flag.
pub uninterp spec fn legacy_text(public: PublicKey, compressed: bool) -> Seq<char>;

/// The `Display` form of the address that `bitcoin::Address::p2wpkh` makes
/// on the main network of the public key in its compressed form.
pub uninterp spec fn segwit_text(public: PublicKey) -> Seq<char>;

/// The four characters with which a native segwit address of the main
/// network begins.
pub open spec fn segwit_prefix() -> Seq<char> {
    seq!['b', 'c', '1', 'q']
}

/// `secp256k1::generate_keypair` with the thread's random number
/// generator: a fresh secret key, and the public key that
/// `PublicKey::from_secret_key` derives from it in the global context of
/// `secp256k1`. Nothing is claimed of the secret key.
#[verifier::external_body]
pub(crate) fn fresh_keypair() -> (pair: (SecretKey, PublicKey))
    ensures
        pair.1 == public_of(pair.0),
{
    bitcoin::secp256k1::generate_keypair(&mut bitcoin::secp256k1::rand::thread_rng())
}

/// The `Display` form of a `bitcoin::PrivateKey` of the main network: the
/// base58 text, with a checksum, of the byte 128, the 32 bytes of the
/// secret key and, where the key is compressed, the byte 1. With the first
/// byte at 128, base58 needs 52 digits for the 38 bytes and 51 for the 37.
#[verifier::external_body]
pub(crate) fn private_key_text(secret: &SecretKey, compressed: bool) -> (text: String)
    ensures
        text@ == wif_text(*secret, compressed),
        text@.len() == if compressed { 52nat } else { 51nat },
{
    let key = bitcoin::PrivateKey { compressed, network: bitcoin::NetworkKind::Main, inner: *secret };
    key.to_string()
}

/// The `Display` form of a `bitcoin::PublicKey`: two hexadecimal digits for
/// each byte of the serialised key, which has 33 bytes where it is
/// compressed and 65 where it is not.
#[verifier::external_body]
pub(crate) fn public_key_text(public: &PublicKey, compressed: bool) -> (text: String)
    ensures
        text@ == key_text(*public, compressed),
        text@.len() == if compressed { 66nat } else { 130nat },
{
    let key = bitcoin::PublicKey { compressed, inner: *public };
    key.to_string()
}

/// The `Display` form of `bitcoin::Address::p2pkh` on the main network: the
/// base58 text of a version byte of zero, the 20 bytes of the key's hash
/// and 4 bytes of checksum. Base58 writes a leading zero byte as `1`, and
/// what follows the version byte takes 33 digits at most.
#[verifier::external_body]
pub(crate) fn legacy_address_text(public: &PublicKey, compressed: bool) -> (text: String)
    ensures
        text@ == legacy_text(*public, compressed),
        0 < text@.len() <= 34,
        text@[0] == '1',
{
    let key = bitcoin::PublicKey { compressed, inner: *public };
    bitcoin::Address::p2pkh(key, bitcoin::NetworkKind::Main).to_string()
}

/// The `Display` form of `bitcoin::Address::p2wpkh` on the main network:
/// the bech32 text of a version 0 witness program, which is `bc`, the
/// separator `1`, then `q` for the version, 32 characters for the 20 bytes
/// of the program and 6 of checksum.
#[verifier::external_body]
pub(crate) fn segwit_address_text(public: &PublicKey) -> (text: String)
    ensures
        text@ == segwit_text(*public),
        text@.len() == 42,
        segwit_prefix().is_prefix_of(text@),
{
    let key = bitcoin::CompressedPublicKey(*public);
    bitcoin::Address::p2wpkh(&key, bitcoin::KnownHrp::Mainnet).to_string()
}

} // verus!
