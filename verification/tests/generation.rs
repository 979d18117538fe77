use bitcoin::secp256k1::{PublicKey, SecretKey, SECP256K1};
use vanity::candidate::Candidate;
use vanity::style::AddressStyle;

fn style(is_compressed: bool, is_bech32: bool) -> AddressStyle {
    AddressStyle { compressed: is_compressed, bech32: is_bech32 }
}

#[test]
fn create_compressed_bitcoin_public_key() {
    let is_bech32 = false;
    let is_compressed = true;
    let bitcoin_address = Candidate::generate(style(is_compressed, is_bech32)).unwrap();

    let actual = bitcoin_address.public_key.to_string().len();
    let expected = 66;

    assert_eq!(actual, expected);
}

#[test]
fn create_uncompressed_bitcoin_public_key() {
    let is_bech32 = false;
    let is_compressed = false;
    let bitcoin_address = Candidate::generate(style(is_compressed, is_bech32)).unwrap();

    let actual = bitcoin_address.public_key.to_string().len();
    let expected = 130;

    assert_eq!(actual, expected);
}

#[test]
fn create_bech32_address() {
    let is_bech32 = true;
    let is_compressed = true;
    let bitcoin_address = Candidate::generate(style(is_compressed, is_bech32)).unwrap();
    let address = bitcoin_address.address.to_string();

    assert!(address.starts_with("bc1q"));
}

#[test]
fn create_bitcoin_private_key() {
    let is_bech32 = false;
    let is_compressed = true;
    let bitcoin_address = Candidate::generate(style(is_compressed, is_bech32)).unwrap();

    let actual = bitcoin_address.private_key.to_string().len();
    let expected = 52;

    assert_eq!(actual, expected);
}

#[test]
fn create_bitcoin_address() {
    let is_bech32 = false;
    let is_compressed = true;
    // base58 leaves out leading zero digits, so that one address in about
    // twenty-three is shorter than the others: the longest of many is taken
    let actual = (0..200)
        .map(|_| Candidate::generate(style(is_compressed, is_bech32)).unwrap())
        .map(|bitcoin_address| bitcoin_address.address.to_string().len())
        .max()
        .unwrap();
    let expected = 34;

    assert_eq!(actual, expected);
}

#[test]
fn supported_styles_are_the_three_with_an_address() {
    assert!(style(true, false).is_supported());
    assert!(style(false, false).is_supported());
    assert!(style(true, true).is_supported());
    assert!(!style(false, true).is_supported());
}

#[test]
fn segwit_of_an_uncompressed_key_has_no_candidate() {
    assert_eq!(Candidate::generate(style(false, true)), None);
}

#[test]
fn legacy_addresses_begin_with_one() {
    for compressed in [true, false] {
        for _ in 0..20 {
            let candidate = Candidate::generate(style(compressed, false)).unwrap();
            assert!(candidate.address.starts_with('1'));
            assert!(candidate.address.len() >= 26 && candidate.address.len() <= 34);
            assert!(candidate.address.chars().all(|c| c.is_ascii_alphanumeric()));
        }
    }
}

#[test]
fn segwit_addresses_have_forty_two_small_characters() {
    for _ in 0..20 {
        let candidate = Candidate::generate(style(true, true)).unwrap();
        assert!(candidate.address.starts_with("bc1q"));
        assert_eq!(candidate.address.len(), 42);
        assert_eq!(candidate.address, candidate.address.to_lowercase());
    }
}

#[test]
fn public_keys_are_hexadecimal_in_the_length_of_the_style() {
    for (compressed, bech32, length) in [(true, false, 66), (false, false, 130), (true, true, 66)] {
        let candidate = Candidate::generate(style(compressed, bech32)).unwrap();
        assert_eq!(candidate.public_key.len(), length);
        assert!(candidate.public_key.chars().all(|c| c.is_ascii_hexdigit()));
    }
}

#[test]
fn compressed_public_keys_begin_with_their_parity() {
    let candidate = Candidate::generate(style(true, false)).unwrap();
    assert!(candidate.public_key.starts_with("02") || candidate.public_key.starts_with("03"));
    let candidate = Candidate::generate(style(false, false)).unwrap();
    assert!(candidate.public_key.starts_with("04"));
}

#[test]
fn private_keys_are_in_wallet_import_format() {
    let compressed = Candidate::generate(style(true, false)).unwrap();
    assert_eq!(compressed.private_key.len(), 52);
    assert!(compressed.private_key.starts_with('K') || compressed.private_key.starts_with('L'));
    let uncompressed = Candidate::generate(style(false, false)).unwrap();
    assert_eq!(uncompressed.private_key.len(), 51);
    assert!(uncompressed.private_key.starts_with('5'));
}

#[test]
fn every_candidate_is_fresh() {
    let first = Candidate::generate(style(true, false)).unwrap();
    let second = Candidate::generate(style(true, false)).unwrap();
    assert_ne!(first.private_key, second.private_key);
    assert_ne!(first.public_key, second.public_key);
    assert_ne!(first.address, second.address);
}

#[test]
fn the_three_texts_of_a_candidate_differ() {
    let candidate = Candidate::generate(style(true, true)).unwrap();
    assert_ne!(candidate.private_key, candidate.public_key);
    assert_ne!(candidate.public_key, candidate.address);
    assert_ne!(candidate.private_key, candidate.address);
}

fn key_pair(last_byte: u8) -> (SecretKey, PublicKey) {
    let mut bytes = [0u8; 32];
    bytes[31] = last_byte;
    let secret = SecretKey::from_slice(&bytes).unwrap();
    let public = PublicKey::from_secret_key(SECP256K1, &secret);
    (secret, public)
}

const GENERATOR_X: &str = "79be667ef9dcbbac55a06295ce870b07029bfcdb2dce28d959f2815b16f81798";
const GENERATOR_Y: &str = "483ada7726a3c4655da4fbfc0e1108a8fd17b448a68554199c47d08ffb10d4b8";

#[test]
fn the_key_one_has_its_known_compressed_texts() {
    let (secret, public) = key_pair(1);
    let candidate = Candidate::from_keys(&secret, &public, style(true, false)).unwrap();
    assert_eq!(candidate.private_key, "KwDiBf89QgGbjEhKnhXJuH7LrciVrZi3qYjgd9M7rFU73sVHnoWn");
    assert_eq!(candidate.public_key, format!("02{}", GENERATOR_X));
    assert_eq!(candidate.address, "1BgGZ9tcN4rm9KBzDn7KprQz87SZ26SAMH");
}

#[test]
fn the_key_one_has_its_known_uncompressed_texts() {
    let (secret, public) = key_pair(1);
    let candidate = Candidate::from_keys(&secret, &public, style(false, false)).unwrap();
    assert_eq!(candidate.private_key, "5HpHagT65TZzG1PH3CSu63k8DbpvD8s5ip4nEB3kEsreAnchuDf");
    assert_eq!(candidate.public_key, format!("04{}{}", GENERATOR_X, GENERATOR_Y));
    assert_eq!(candidate.address, "1EHNa6Q4Jz2uvNExL497mE43ikXhwF6kZm");
}

#[test]
fn the_key_one_has_its_known_segwit_address() {
    let (secret, public) = key_pair(1);
    let candidate = Candidate::from_keys(&secret, &public, style(true, true)).unwrap();
    assert_eq!(candidate.private_key, "KwDiBf89QgGbjEhKnhXJuH7LrciVrZi3qYjgd9M7rFU73sVHnoWn");
    assert_eq!(candidate.public_key, format!("02{}", GENERATOR_X));
    assert_eq!(candidate.address, "bc1qw508d6qejxtdg4y5r3zarvary0c5xw7kv8f3t4");
}

#[test]
fn a_key_pair_has_no_segwit_candidate_of_an_uncompressed_key() {
    let (secret, public) = key_pair(1);
    assert_eq!(Candidate::from_keys(&secret, &public, style(false, true)), None);
}

#[test]
fn one_key_pair_gives_one_candidate() {
    let (secret, public) = key_pair(7);
    for (compressed, bech32) in [(true, false), (false, false), (true, true)] {
        let first = Candidate::from_keys(&secret, &public, style(compressed, bech32));
        let second = Candidate::from_keys(&secret, &public, style(compressed, bech32));
        assert_eq!(first, second);
    }
}

#[test]
fn other_keys_and_other_styles_give_other_texts() {
    let (secret, public) = key_pair(1);
    let (other_secret, other_public) = key_pair(2);
    let one = Candidate::from_keys(&secret, &public, style(true, false)).unwrap();
    let other = Candidate::from_keys(&other_secret, &other_public, style(true, false)).unwrap();
    assert_ne!(one.private_key, other.private_key);
    assert_ne!(one.public_key, other.public_key);
    assert_ne!(one.address, other.address);
    let uncompressed = Candidate::from_keys(&secret, &public, style(false, false)).unwrap();
    assert_ne!(one.private_key, uncompressed.private_key);
    assert_ne!(one.public_key, uncompressed.public_key);
    assert_ne!(one.address, uncompressed.address);
    let segwit = Candidate::from_keys(&secret, &public, style(true, true)).unwrap();
    assert_eq!(one.private_key, segwit.private_key);
    assert_eq!(one.public_key, segwit.public_key);
    assert_ne!(one.address, segwit.address);
}

#[test]
fn a_generated_candidate_is_that_of_its_own_key_pair() {
    for (compressed, bech32) in [(true, false), (false, false), (true, true)] {
        let generated = Candidate::generate(style(compressed, bech32)).unwrap();
        let private_key: bitcoin::PrivateKey = generated.private_key.parse().unwrap();
        assert_eq!(private_key.compressed, compressed);
        let secret = private_key.inner;
        let public = PublicKey::from_secret_key(SECP256K1, &secret);
        let again = Candidate::from_keys(&secret, &public, style(compressed, bech32)).unwrap();
        assert_eq!(generated, again);
    }
}

#[test]
fn the_texts_of_many_candidates_have_the_lengths_of_their_style() {
    for (compressed, bech32) in [(true, false), (false, false), (true, true)] {
        for _ in 0..50 {
            let candidate = Candidate::generate(style(compressed, bech32)).unwrap();
            assert_eq!(candidate.private_key.len(), if compressed { 52 } else { 51 });
            assert_eq!(candidate.public_key.len(), if compressed { 66 } else { 130 });
            if bech32 {
                assert_eq!(candidate.address.len(), 42);
            } else {
                assert!(candidate.address.len() <= 34);
            }
        }
    }
}
