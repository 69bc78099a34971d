//! Digests, keys and signed receipts.

use ed25519_dalek::Verifier;
use tender_component::error::ErrorKind;
use tender_component::json::Json;
use tender_component::seal::{read_signing_key, receipt_envelope, sha256_hex, SigningKey};

fn signature_of(receipt: &Json) -> ed25519_dalek::Signature {
    let signature_bytes: [u8; 64] =
        hex::decode(receipt.get_text("signature").unwrap()).unwrap().try_into().unwrap();
    ed25519_dalek::Signature::from_bytes(&signature_bytes)
}

#[test]
fn receipt_signature_covers_exact_body() {
    let key = SigningKey::from_bytes([7u8; 32]);
    let verifying_key = ed25519_dalek::SigningKey::from_bytes(&[7u8; 32]).verifying_key();
    let body = Json::Object(vec![
        (
            "format".to_owned(),
            Json::Text("kototama.component-execution-receipt/v1".to_owned()),
        ),
        ("result".to_owned(), Json::Unsigned(6419002)),
    ]);
    let receipt = receipt_envelope(&body, &key);
    let payload = receipt.get_text("payload").unwrap();
    assert_eq!(Json::parse(payload.as_bytes()).unwrap(), body);
    let signature = signature_of(&receipt);
    verifying_key.verify(payload.as_bytes(), &signature).unwrap();
    let other = Json::Object(vec![("result".to_owned(), Json::Unsigned(0))]);
    assert!(verifying_key.verify(&other.encode(), &signature).is_err());
}

#[test]
fn a_receipt_holds_what_it_seals() {
    let key = SigningKey::from_bytes([1u8; 32]);
    let body = Json::Array(vec![Json::Null]);
    let receipt = receipt_envelope(&body, &key);
    assert_eq!(receipt.get_text("algorithm"), Some(&"ed25519".to_owned()));
    assert_eq!(receipt.get("body"), Some(&body));
    assert_eq!(receipt.get_text("payload"), Some(&"[null]".to_owned()));
    assert_eq!(receipt.get_text("signature"), Some(&key.sign(b"[null]")));
    assert_eq!(receipt.get_text("signature").unwrap().len(), 128);
}

#[test]
fn a_digest_is_sha256() {
    assert_eq!(
        sha256_hex(b"abc"),
        "ba7816bf8f01cfea414140de5dae2223b00361a396177a9cb410ff61f20015ad"
    );
    assert_eq!(
        sha256_hex(b""),
        "e3b0c44298fc1c149afbf4c8996fb92427ae41e4649b934ca495991b7852b855"
    );
}

#[test]
fn a_signature_is_ed25519() {
    let key = read_signing_key(
        "\n 9d61b19deffd5a60ba844af492ec2cc44449c5697b326919703bac031cae7f60\u{2003}\n",
    )
    .ok()
    .unwrap();
    assert_eq!(
        key.public_key(),
        "d75a980182b10ab7d54bfed3c964073a0ee172f3daa62325af021a68f707511a"
    );
    assert_eq!(
        key.sign(b""),
        "e5564300c360ac729086e2cc806e828a84877f1eb8e5d974d873e065224901555fb8821590a33bacc61e39701cf9b46bd25bf5f0595bbe24655141438e7a100b"
    );
}

#[test]
fn a_seed_is_32_bytes_in_hexadecimal() {
    let kind = |text: &str| read_signing_key(text).err().unwrap().kind;
    assert_eq!(kind("xyz"), ErrorKind::SeedNotHex);
    assert_eq!(kind("0"), ErrorKind::SeedNotHex);
    assert_eq!(kind("é0"), ErrorKind::SeedNotHex);
    assert_eq!(
        read_signing_key(" 0 ").err().unwrap().chain(),
        "receipt signing key is not hex: Odd number of digits"
    );
    assert_eq!(
        read_signing_key("0x").err().unwrap().chain(),
        "receipt signing key is not hex: Invalid character 'x' at position 1"
    );
    assert_eq!(kind(""), ErrorKind::SeedLength);
    assert_eq!(kind(&"0".repeat(62)), ErrorKind::SeedLength);
    assert_eq!(kind(&"0".repeat(66)), ErrorKind::SeedLength);
    let capital = read_signing_key(&"0A".repeat(32)).ok().unwrap();
    assert_eq!(capital.public_key(), SigningKey::from_bytes([10u8; 32]).public_key());
}
