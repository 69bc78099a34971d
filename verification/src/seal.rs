//! Digests, hexadecimal text and signed receipts. The digest is SHA-256 and the
//! signature is Ed25519; both are computed by outside crates.

use vstd::prelude::*;
use vstd::utf8::{decode_utf8, decode_utf8_encode_utf8, encode_utf8};

use crate::error::{because, plain, told, ErrorKind, Failure, HostError};
use crate::json::{json_parse, json_text, members, put, read_depth, Json, JsonTree};
use crate::text::{chars_of, text_of, trim, trimmed};

verus! {

/// The SHA-256 digest of `bytes`, as `sha2::Sha256` computes it.
pub uninterp spec fn sha256_of(bytes: Seq<u8>) -> Seq<u8>;

/// The Ed25519 signature of `message` by the key of `seed`, as `ed25519_dalek`
/// makes it. It is made without chance.
pub uninterp spec fn ed25519_signature(seed: Seq<u8>, message: Seq<u8>) -> Seq<u8>;

/// The Ed25519 public key that belongs to the key of `seed`.
pub uninterp spec fn ed25519_public_key(seed: Seq<u8>) -> Seq<u8>;

/// `sha2::Sha256::digest`: 32 bytes that depend on the input alone.
#[verifier::external_body]
fn sha256_digest(bytes: &[u8]) -> (digest: Vec<u8>)
    ensures
        digest@ == sha256_of(bytes@),
        digest@.len() == 32,
{
    <sha2::Sha256 as sha2::Digest>::digest(bytes).to_vec()
}

/// `ed25519_dalek::SigningKey::sign` by the key of `seed`: 64 bytes that depend
/// on the seed and the message alone.
#[verifier::external_body]
fn sign_message(seed: &[u8; 32], message: &[u8]) -> (signature: Vec<u8>)
    ensures
        signature@ == ed25519_signature(seed@, message@),
        signature@.len() == 64,
{
    let key = ed25519_dalek::SigningKey::from_bytes(seed);
    ed25519_dalek::Signer::sign(&key, message).to_bytes().to_vec()
}

/// `ed25519_dalek::SigningKey::verifying_key` of the key of `seed`: 32 bytes
/// that depend on the seed alone.
#[verifier::external_body]
fn verifying_key(seed: &[u8; 32]) -> (key: Vec<u8>)
    ensures
        key@ == ed25519_public_key(seed@),
        key@.len() == 32,
{
    ed25519_dalek::SigningKey::from_bytes(seed).verifying_key().to_bytes().to_vec()
}

/// The small hexadecimal digit of a value under sixteen.
pub open spec fn hex_digit(value: int) -> char {
    if value < 10 {
        (value + 48) as char
    } else {
        (value + 87) as char
    }
}

/// The hexadecimal text of bytes: two small digits for each.
pub open spec fn hex_text(bytes: Seq<u8>) -> Seq<char> {
    Seq::new(
        2 * bytes.len(),
        |i: int|
            if i % 2 == 0 {
                hex_digit(bytes[i / 2] as int / 16)
            } else {
                hex_digit(bytes[i / 2] as int % 16)
            },
    )
}

/// The value of a hexadecimal digit, small or capital.
pub open spec fn hex_value(c: char) -> Option<int> {
    if '0' <= c <= '9' {
        Some(c as int - 48)
    } else if 'a' <= c <= 'f' {
        Some(c as int - 87)
    } else if 'A' <= c <= 'F' {
        Some(c as int - 55)
    } else {
        None
    }
}

/// Whether a text is hexadecimal digits alone.
pub open spec fn all_hex(text: Seq<char>) -> bool {
    forall|i: int| 0 <= i < text.len() ==> hex_value(#[trigger] text[i]) is Some
}

/// The bytes that a hexadecimal text writes; none where its digits do not pair
/// up, or one is no digit.
pub open spec fn hex_bytes(text: Seq<char>) -> Option<Seq<u8>> {
    if text.len() % 2 == 0 && all_hex(text) {
        Some(
            Seq::new(
                text.len() / 2,
                |i: int| (hex_value(text[2 * i])->0 * 16 + hex_value(text[2 * i + 1])->0) as u8,
            ),
        )
    } else {
        None
    }
}

/// What the error of `hex::decode` says of a text that is not hexadecimal.
pub uninterp spec fn hex_refusal(text: Seq<char>) -> Seq<char>;

/// `hex::encode`: two small digits for each byte, the high half first.
#[verifier::external_body]
fn encode_hex(bytes: &[u8]) -> (text: String)
    ensures
        text@ == hex_text(bytes@),
{
    hex::encode(bytes)
}

/// `hex::decode`: it takes small and capital digits, and refuses a text of odd
/// length or with another character; then this is what its error says.
#[verifier::external_body]
fn decode_hex(text: &str) -> (bytes: Result<Vec<u8>, String>)
    ensures
        match bytes {
            Ok(bytes) => hex_bytes(text@) == Some(bytes@),
            Err(cause) => hex_bytes(text@) is None && cause@ == hex_refusal(text@),
        },
{
    match hex::decode(text) {
        Ok(bytes) => Ok(bytes),
        Err(error) => Err(error.to_string()),
    }
}

/// What hexadecimal text is written of, it is read as.
pub proof fn lemma_hex_reads_back(bytes: Seq<u8>)
    ensures
        hex_bytes(hex_text(bytes)) == Some(bytes),
{
    let text = hex_text(bytes);
    assert forall|i: int| 0 <= i < text.len() implies hex_value(#[trigger] text[i]) == Some(
        if i % 2 == 0 {
            bytes[i / 2] as int / 16
        } else {
            bytes[i / 2] as int % 16
        },
    ) by {
        let b = bytes[i / 2] as int;
        let n = if i % 2 == 0 {
            b / 16
        } else {
            b % 16
        };
        assert(0 <= n < 16);
        assert(text[i] == hex_digit(n));
    }
    let read = hex_bytes(text)->0;
    assert forall|i: int| 0 <= i < bytes.len() implies #[trigger] read[i] == bytes[i] by {
        let b = bytes[i] as int;
        assert((2 * i) / 2 == i && (2 * i) % 2 == 0);
        assert((2 * i + 1) / 2 == i && (2 * i + 1) % 2 == 1);
        assert(hex_value(text[2 * i]) == Some(b / 16));
        assert(hex_value(text[2 * i + 1]) == Some(b % 16));
        assert(b / 16 * 16 + b % 16 == b);
    }
    assert(read =~= bytes);
}

/// The hexadecimal text of the SHA-256 digest of `bytes`.
pub fn sha256_hex(bytes: &[u8]) -> (text: String)
    ensures
        text@ == hex_text(sha256_of(bytes@)),
        text@.len() == 64,
{
    encode_hex(sha256_digest(bytes).as_slice())
}

/// The key that signs receipts.
pub struct SigningKey {
    seed: [u8; 32],
}

impl View for SigningKey {
    type V = Seq<u8>;

    closed spec fn view(&self) -> Seq<u8> {
        self.seed@
    }
}

/// The seed that a text writes in hexadecimal digits, with white space around it
/// or not.
pub open spec fn seed_of(text: Seq<char>) -> Result<Seq<u8>, Failure> {
    match hex_bytes(trim(text)) {
        None => Err(because(plain(ErrorKind::SeedNotHex), hex_refusal(trim(text)))),
        Some(bytes) => if bytes.len() != 32 {
            Err(plain(ErrorKind::SeedLength))
        } else {
            Ok(bytes)
        },
    }
}

impl SigningKey {
    /// The key of a seed.
    pub fn from_bytes(seed: [u8; 32]) -> (key: SigningKey)
        ensures
            key@ == seed@,
    {
        SigningKey { seed }
    }

    /// The hexadecimal text of the public key.
    pub fn public_key(&self) -> (text: String)
        ensures
            text@ == hex_text(ed25519_public_key(self@)),
            text@.len() == 64,
    {
        encode_hex(verifying_key(&self.seed).as_slice())
    }

    /// The hexadecimal text of the signature of a message.
    pub fn sign(&self, message: &[u8]) -> (text: String)
        ensures
            text@ == hex_text(ed25519_signature(self@, message@)),
            text@.len() == 128,
    {
        encode_hex(sign_message(&self.seed, message).as_slice())
    }
}

/// Reads the key that a text writes.
pub fn read_signing_key(encoded: &str) -> (key: Result<SigningKey, HostError>)
    ensures
        told(key) == seed_of(encoded@),
{
    let chars: Vec<char> = chars_of(encoded);
    let text: String = text_of(trimmed(chars.as_slice()));
    let bytes: Vec<u8> = match decode_hex(text.as_str()) {
        Err(cause) => {
            return Err(HostError::plain(ErrorKind::SeedNotHex).because(cause.as_str()));
        },
        Ok(bytes) => bytes,
    };
    if bytes.len() != 32 {
        return Err(HostError::plain(ErrorKind::SeedLength));
    }
    let mut seed: [u8; 32] = [0u8; 32];
    let mut i: usize = 0;
    while i < 32
        invariant
            i <= 32,
            bytes@.len() == 32,
            seed@.len() == 32,
            forall|j: int| 0 <= j < i ==> #[trigger] seed@[j] == bytes@[j],
        decreases 32 - i,
    {
        seed[i] = bytes[i];
        i += 1;
    }
    assert(seed@ =~= bytes@);
    Ok(SigningKey { seed })
}

/// The receipt of a body with this payload and this signature.
pub open spec fn sealed_tree(
    body: JsonTree,
    payload: Seq<char>,
    signature: Seq<char>,
) -> JsonTree {
    JsonTree::Object(
        map![
            "algorithm"@ => JsonTree::Text("ed25519"@),
            "body"@ => body,
            "payload"@ => JsonTree::Text(payload),
            "signature"@ => JsonTree::Text(signature),
        ],
    )
}

/// The receipt that seals a body with the key of `seed`.
pub open spec fn receipt_tree(body: JsonTree, seed: Seq<u8>) -> JsonTree {
    sealed_tree(
        body,
        decode_utf8(json_text(body)),
        hex_text(ed25519_signature(seed, json_text(body))),
    )
}

/// Puts a receipt together.
pub fn sealed(body: &Json, payload: String, signature: String) -> (receipt: Json)
    ensures
        receipt@ == sealed_tree(body@, payload@, signature@),
        receipt@.member("body"@) == Some(body@),
        receipt@.member_text("payload"@) == Some(payload@),
        receipt@.member_text("signature"@) == Some(signature@),
{
    let mut entries: Vec<(String, Json)> = Vec::new();
    put(&mut entries, "algorithm", Json::from_text("ed25519"));
    put(&mut entries, "body", body.clone());
    put(&mut entries, "payload", Json::Text(payload));
    put(&mut entries, "signature", Json::Text(signature));
    proof {
        reveal_strlit("algorithm");
        reveal_strlit("body");
        reveal_strlit("payload");
        reveal_strlit("signature");
        assert("body"@.len() == 4 && "payload"@.len() == 7);
        assert("algorithm"@[0] == 'a' && "signature"@[0] == 's');
        let all = members(entries@);
        assert(all["body"@] == body@);
        assert(all["payload"@] == JsonTree::Text(payload@));
        assert(all["signature"@] == JsonTree::Text(signature@));
    }
    Json::Object(entries)
}

/// Seals a body: the receipt holds the body, its compact text as the payload,
/// and the signature of exactly the bytes of the payload, 64 bytes in hexadecimal.
/// Where the body is exact, the payload reads as the body.
pub fn receipt_envelope(body: &Json, key: &SigningKey) -> (receipt: Json)
    ensures
        receipt@ == receipt_tree(body@, key@),
        match receipt@.member_text("payload"@) {
            Some(payload) => {
                &&& encode_utf8(payload) == json_text(body@)
                &&& receipt@.member_text("signature"@) == Some(
                    hex_text(ed25519_signature(key@, encode_utf8(payload))),
                )
                &&& body@.exact(read_depth()) ==> json_parse(encode_utf8(payload)) == Some(body@)
            },
            None => false,
        },
        receipt@.member_text("signature"@) matches Some(signature) && signature.len() == 128,
        receipt@.member("body"@) == Some(body@),
{
    let canonical: Vec<u8> = body.encode();
    let signature: String = key.sign(canonical.as_slice());
    proof {
        decode_utf8_encode_utf8(json_text(body@));
    }
    sealed(body, body.encode_text(), signature)
}

} // verus!
