//! The node's Ed25519 identity: its key pair as stored in text files, and the
//! signatures it makes with it.

use vstd::prelude::*;
use base64::Engine;
use ed25519_dalek::Signer;
use crate::text::{is_ws, trim_end_spec, trim_spec, trim_start_spec, trim_str};

verus! {

#[verifier::external_type_specification]
#[verifier::external_body]
pub struct ExDecodeError(base64::DecodeError);

/// What `base64::engine::general_purpose::STANDARD.encode` gives for some bytes.
pub uninterp spec fn base64_encoded(bytes: Seq<u8>) -> Seq<char>;

/// What `base64::engine::general_purpose::STANDARD.decode` gives for some
/// text: the bytes, or `None` when it refuses the text.
pub uninterp spec fn base64_decoded(text: Seq<char>) -> Option<Seq<u8>>;

/// The Ed25519 public key of a 32-byte secret key, as
/// `ed25519_dalek::VerifyingKey::to_bytes` writes it.
pub uninterp spec fn ed25519_public(secret: Seq<u8>) -> Seq<u8>;

/// The Ed25519 signature of a message under a 32-byte secret key, as
/// `ed25519_dalek::Signature::to_bytes` writes it.
pub uninterp spec fn ed25519_signature(secret: Seq<u8>, message: Seq<u8>) -> Seq<u8>;

/// The symbols of the standard base64 alphabet, and its padding `=`.
pub open spec fn is_base64_symbol(c: char) -> bool {
    ||| ('A' <= c && c <= 'Z')
    ||| ('a' <= c && c <= 'z')
    ||| ('0' <= c && c <= '9')
    ||| c == '+'
    ||| c == '/'
    ||| c == '='
}

/// `STANDARD.encode(bytes)` of the `base64` crate. Claimed: the text is the
/// encoding of the bytes, it is made of the standard alphabet and `=`, and
/// `STANDARD.decode` gives the bytes back from it (the crate's round-trip
/// tests check this for every engine).
#[verifier::external_body]
fn base64_encode(bytes: &[u8]) -> (r: String)
    ensures
        r@ == base64_encoded(bytes@),
        base64_decoded(r@) == Some(bytes@),
        forall|i: int| 0 <= i < r@.len() ==> is_base64_symbol(#[trigger] r@[i]),
{
    base64::engine::general_purpose::STANDARD.encode(bytes)
}

/// `STANDARD.decode(text)` of the `base64` crate. Claimed: the bytes it
/// returns, or its refusal, is what [`base64_decoded`] names.
#[verifier::external_body]
fn base64_decode(text: &str) -> (r: Result<Vec<u8>, base64::DecodeError>)
    ensures
        match r {
            Ok(b) => base64_decoded(text@) == Some(b@),
            Err(_) => base64_decoded(text@) is None,
        },
{
    base64::engine::general_purpose::STANDARD.decode(text)
}

/// The text of a `base64::DecodeError` (its `Display`); nothing is claimed
/// of it.
#[verifier::external_body]
fn decode_error_message(e: &base64::DecodeError) -> (r: String) {
    e.to_string()
}

/// `RngCore::try_fill_bytes` of `rand`'s operating-system generator
/// (`rand::rngs::OsRng`) on 32 bytes: the random secret of a new Ed25519
/// key, as `SigningKey::generate` of `ed25519_dalek` draws it. Claimed:
/// when the generator answers there are 32 bytes; they are random; `None`
/// when the operating system's generator fails.
#[verifier::external_body]
fn generate_secret() -> (r: Option<Vec<u8>>)
    ensures
        r matches Some(b) ==> b@.len() == 32,
{
    let mut secret = [0u8; 32];
    match rand::RngCore::try_fill_bytes(&mut rand::rngs::OsRng, &mut secret) {
        Ok(()) => Some(secret.to_vec()),
        Err(_) => None,
    }
}

/// `SigningKey::verifying_key` of `ed25519_dalek` for the key made from
/// 32 secret bytes, taken as its 32 bytes. Claimed: the result is what
/// [`ed25519_public`] names.
#[verifier::external_body]
fn public_key_of(secret: &[u8]) -> (r: Vec<u8>)
    requires
        secret@.len() == 32,
    ensures
        r@ == ed25519_public(secret@),
{
    let arr: [u8; 32] = secret.try_into().unwrap();
    ed25519_dalek::SigningKey::from_bytes(&arr).verifying_key().to_bytes().to_vec()
}

/// `Signer::sign` of `ed25519_dalek::SigningKey` for the key made from 32
/// secret bytes, taken as the signature's 64 bytes. Ed25519 signing is
/// deterministic; claimed: the result is what [`ed25519_signature`] names,
/// and it has 64 bytes (`Signature::to_bytes` gives a `[u8; 64]`).
#[verifier::external_body]
fn sign_message(secret: &[u8], message: &[u8]) -> (r: Vec<u8>)
    requires
        secret@.len() == 32,
    ensures
        r@ == ed25519_signature(secret@, message@),
        r@.len() == 64,
{
    let arr: [u8; 32] = secret.try_into().unwrap();
    ed25519_dalek::SigningKey::from_bytes(&arr).sign(message).to_bytes().to_vec()
}

/// Why a stored signing key cannot be used.
#[derive(Debug, PartialEq)]
pub enum KeyError {
    /// The file is not base64; the decoder's message.
    Decode(String),
    /// The file does not hold 32 bytes.
    Length,
}

pub enum KeyErrorKind {
    Decode,
    Length,
}

impl KeyError {
    pub open spec fn kind(&self) -> KeyErrorKind {
        match self {
            KeyError::Decode(_) => KeyErrorKind::Decode,
            KeyError::Length => KeyErrorKind::Length,
        }
    }

    /// The error's message.
    pub fn message(&self) -> (r: String)
        ensures
            self.kind() == KeyErrorKind::Length ==> r@ == "invalid signing key length"@,
            self matches KeyError::Decode(m) ==> r@ == m@,
    {
        match self {
            KeyError::Decode(m) => m.clone(),
            KeyError::Length => crate::text::owned("invalid signing key length"),
        }
    }
}

/// The secret key in the contents of a key file: the base64 text, trimmed,
/// must decode to 32 bytes.
pub open spec fn load_signing_spec(raw: Seq<char>) -> Result<Seq<u8>, KeyErrorKind> {
    secret_from_spec(base64_decoded(trim_spec(raw)))
}

/// The secret key in decoded key-file bytes: they must be 32; a decoding
/// error is kept with its message.
pub open spec fn secret_from_spec(decoded: Option<Seq<u8>>) -> Result<Seq<u8>, KeyErrorKind> {
    match decoded {
        None => Err(KeyErrorKind::Decode),
        Some(b) => if b.len() == 32 {
            Ok(b)
        } else {
            Err(KeyErrorKind::Length)
        },
    }
}

/// The secret key in the result of decoding a key file: the bytes, or the
/// decoder's message.
pub fn secret_from(decoded: Result<Vec<u8>, String>) -> (r: Result<Vec<u8>, KeyError>)
    ensures
        match r {
            Ok(k) => decoded matches Ok(b) && b@ == k@ && k@.len() == 32,
            Err(KeyError::Length) => decoded matches Ok(b) && b@.len() != 32,
            Err(KeyError::Decode(m)) => decoded matches Err(e) && e@ == m@,
        },
{
    match decoded {
        Err(m) => Err(KeyError::Decode(m)),
        Ok(bytes) => if bytes.len() == 32 {
            Ok(bytes)
        } else {
            Err(KeyError::Length)
        },
    }
}

/// The secret key stored in the contents of a key file.
pub fn load_signing(raw: &str) -> (r: Result<Vec<u8>, KeyError>)
    ensures
        match r {
            Ok(k) => load_signing_spec(raw@) == Ok::<Seq<u8>, KeyErrorKind>(k@),
            Err(e) => load_signing_spec(raw@) == Err::<Seq<u8>, KeyErrorKind>(e.kind()),
        },
{
    let text = trim_str(raw);
    let decoded = match base64_decode(text.as_str()) {
        Err(e) => Err(decode_error_message(&e)),
        Ok(bytes) => Ok(bytes),
    };
    secret_from(decoded)
}

/// The base64 signature of a message under the key stored in `raw`.
pub open spec fn sign_b64_spec(raw: Seq<char>, message: Seq<u8>) -> Result<Seq<char>, KeyErrorKind> {
    match load_signing_spec(raw) {
        Ok(secret) => Ok(base64_encoded(ed25519_signature(secret, message))),
        Err(k) => Err(k),
    }
}

/// Signs a message with the key stored in the contents `raw` of a key file,
/// and writes the signature in base64.
pub fn sign_b64(raw: &str, message: &[u8]) -> (r: Result<String, KeyError>)
    ensures
        match r {
            Ok(s) => sign_b64_spec(raw@, message@) == Ok::<Seq<char>, KeyErrorKind>(s@),
            Err(e) => sign_b64_spec(raw@, message@) == Err::<Seq<char>, KeyErrorKind>(e.kind()),
        },
        r matches Ok(s) ==> base64_decoded(s@) matches Some(b) && b.len() == 64,
{
    match load_signing(raw) {
        Err(e) => Err(e),
        Ok(secret) => {
            let sig = sign_message(secret.as_slice(), message);
            Ok(base64_encode(sig.as_slice()))
        },
    }
}

/// The public key in the contents of a public-key file: the text, trimmed.
pub fn public_key_b64(contents: &str) -> (r: String)
    ensures
        r@ == trim_spec(contents@),
{
    trim_str(contents)
}

/// A new key pair as it is stored: the key file's text and the public-key
/// file's text, which is also what enrolment sends.
#[derive(Debug, PartialEq)]
pub struct StoredKeys {
    pub key_text: String,
    pub public_text: String,
}

proof fn lemma_trim_keeps_symbols(s: Seq<char>)
    requires
        forall|i: int| 0 <= i < s.len() ==> is_base64_symbol(#[trigger] s[i]),
    ensures
        trim_spec(s) == s,
{
    if s.len() > 0 {
        assert(is_base64_symbol(s[0]));
        assert(!is_ws(s[0]));
        assert(is_base64_symbol(s.last()));
        assert(!is_ws(s.last()));
    }
    assert(trim_start_spec(s) == s);
    assert(trim_end_spec(s) == s);
}

/// The stored form of the key pair of a secret key: both keys in base64.
/// The key text loads back as that secret key.
pub fn stored_keys(secret: &[u8]) -> (r: StoredKeys)
    requires
        secret@.len() == 32,
    ensures
        r.key_text@ == base64_encoded(secret@),
        r.public_text@ == base64_encoded(ed25519_public(secret@)),
        load_signing_spec(r.key_text@) == Ok::<Seq<u8>, KeyErrorKind>(secret@),
{
    let public = public_key_of(secret);
    let public_text = base64_encode(public.as_slice());
    let key_text = base64_encode(secret);
    proof {
        lemma_trim_keeps_symbols(key_text@);
    }
    StoredKeys { key_text, public_text }
}

/// A new random key pair, in the form it is stored in; `None` when the
/// operating system's random generator fails. Whatever key came out, its
/// key text loads back as a 32-byte secret key whose public key is the
/// public text.
pub fn generate_and_store() -> (r: Option<StoredKeys>)
    ensures
        r matches Some(k) ==> match load_signing_spec(k.key_text@) {
            Ok(secret) => secret.len() == 32 && k.public_text@ == base64_encoded(ed25519_public(secret)),
            Err(_) => false,
        },
{
    match generate_secret() {
        Some(secret) => Some(stored_keys(secret.as_slice())),
        None => None,
    }
}

} // verus!
