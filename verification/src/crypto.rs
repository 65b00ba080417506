//! Base64 text and Ed25519 signatures, as the `base64` and `ed25519-dalek`
//! crates compute them.

use vstd::prelude::*;
use vstd::slice::slice_to_vec;

verus! {

/// The standard base64 text (with padding) of `data`.
pub uninterp spec fn base64_text(data: Seq<u8>) -> Seq<char>;

/// The bytes that the standard base64 text `text` stands for, if it is
/// well-formed.
pub uninterp spec fn base64_bytes(text: Seq<char>) -> Option<Seq<u8>>;

/// The bytes that the URL-safe base64 text `text` without padding stands for,
/// if it is well-formed.
pub uninterp spec fn base64_url_unpadded_bytes(text: Seq<char>) -> Option<Seq<u8>>;

/// The bytes that the URL-safe base64 text `text` with padding stands for, if
/// it is well-formed.
pub uninterp spec fn base64_url_padded_bytes(text: Seq<char>) -> Option<Seq<u8>>;

/// Whether `public` is an Ed25519 public key: 32 bytes that decompress to a
/// point of the curve.
pub uninterp spec fn ed25519_key_valid(public: Seq<u8>) -> bool;

/// Whether `signature` is a signature by the holder of `public` on `message`.
pub uninterp spec fn ed25519_verifies(public: Seq<u8>, message: Seq<u8>, signature: Seq<u8>) -> bool;

/// The public key that belongs to the 32-byte secret key `secret`.
pub uninterp spec fn ed25519_public(secret: Seq<u8>) -> Seq<u8>;

/// The signature that the 32-byte secret key `secret` gives on `message`.
pub uninterp spec fn ed25519_signature(secret: Seq<u8>, message: Seq<u8>) -> Seq<u8>;

/// Whether `signature` has the form of an Ed25519 signature: 64 bytes, the
/// three highest bits of the last one unset.
pub open spec fn signature_well_formed(signature: Seq<u8>) -> bool {
    signature.len() == 64 && signature[63] < 32
}

/// The longest input that is encoded to base64.
pub const BASE64_INPUT_LIMIT: usize = 0x1000_0000;

/// Calls `encode` of `base64`'s `STANDARD` engine. Decoding what it returns
/// gives the input back.
#[verifier::external_body]
pub(crate) fn base64_encode(data: &[u8]) -> (text: String)
    requires
        data@.len() <= BASE64_INPUT_LIMIT,
    ensures
        text@ == base64_text(data@),
        base64_bytes(text@) == Some(data@),
{
    base64::Engine::encode(&base64::engine::general_purpose::STANDARD, data)
}

/// Calls `decode` of `base64`'s `STANDARD` engine, which fails on text that
/// is not canonical padded base64.
#[verifier::external_body]
pub(crate) fn base64_decode(text: &str) -> (r: Option<Vec<u8>>)
    ensures
        r is Some == base64_bytes(text@) is Some,
        r is Some ==> r->0@ == base64_bytes(text@)->0,
{
    base64::Engine::decode(&base64::engine::general_purpose::STANDARD, text).ok()
}

/// Calls `decode` of `base64`'s `URL_SAFE_NO_PAD` engine.
#[verifier::external_body]
pub(crate) fn base64_url_unpadded_decode(text: &str) -> (r: Option<Vec<u8>>)
    ensures
        r is Some == base64_url_unpadded_bytes(text@) is Some,
        r is Some ==> r->0@ == base64_url_unpadded_bytes(text@)->0,
{
    base64::Engine::decode(&base64::engine::general_purpose::URL_SAFE_NO_PAD, text).ok()
}

/// Calls `decode` of `base64`'s `URL_SAFE` engine.
#[verifier::external_body]
pub(crate) fn base64_url_padded_decode(text: &str) -> (r: Option<Vec<u8>>)
    ensures
        r is Some == base64_url_padded_bytes(text@) is Some,
        r is Some ==> r->0@ == base64_url_padded_bytes(text@)->0,
{
    base64::Engine::decode(&base64::engine::general_purpose::URL_SAFE, text).ok()
}

/// Calls `ed25519_dalek::PublicKey::from_bytes`, which accepts 32 bytes that
/// decompress to a point of the curve and nothing else.
#[verifier::external_body]
pub(crate) fn public_key_accepted(public: &[u8]) -> (ok: bool)
    ensures
        ok == ed25519_key_valid(public@),
        ok ==> public@.len() == 32,
{
    ed25519_dalek::PublicKey::from_bytes(public).is_ok()
}

/// Calls `ed25519_dalek::Signature::from_bytes`, which accepts 64 bytes whose
/// last byte has its three highest bits unset and nothing else.
#[verifier::external_body]
pub(crate) fn signature_accepted(signature: &[u8]) -> (ok: bool)
    ensures
        ok == signature_well_formed(signature@),
{
    ed25519_dalek::Signature::from_bytes(signature).is_ok()
}

/// Calls `verify` of `ed25519_dalek::PublicKey` on a key and a signature that
/// were both accepted.
#[verifier::external_body]
pub(crate) fn ed25519_verify(public: &[u8], message: &[u8], signature: &[u8]) -> (ok: bool)
    requires
        ed25519_key_valid(public@),
        signature_well_formed(signature@),
    ensures
        ok == ed25519_verifies(public@, message@, signature@),
{
    match (
        ed25519_dalek::PublicKey::from_bytes(public),
        ed25519_dalek::Signature::from_bytes(signature),
    ) {
        (Ok(key), Ok(sig)) => ed25519_dalek::Verifier::verify(&key, message, &sig).is_ok(),
        _ => false,
    }
}

/// Derives the public key with `ed25519_dalek::PublicKey::from` on the secret
/// key made of the 32 bytes. The result is a public key that `from_bytes`
/// accepts.
#[verifier::external_body]
pub(crate) fn ed25519_derive_public(secret: &[u8]) -> (public: Vec<u8>)
    requires
        secret@.len() == 32,
    ensures
        public@ == ed25519_public(secret@),
        public@.len() == 32,
        ed25519_key_valid(public@),
{
    let secret = ed25519_dalek::SecretKey::from_bytes(secret).unwrap();
    ed25519_dalek::PublicKey::from(&secret).to_bytes().to_vec()
}

/// Signs with `sign` of the `ed25519_dalek::Keypair` made of the 32 secret
/// bytes. The result has the form of a signature and verifies under the
/// public key of that secret key.
#[verifier::external_body]
pub(crate) fn ed25519_sign(secret: &[u8], message: &[u8]) -> (signature: Vec<u8>)
    requires
        secret@.len() == 32,
    ensures
        signature@ == ed25519_signature(secret@, message@),
        signature_well_formed(signature@),
        ed25519_verifies(ed25519_public(secret@), message@, signature@),
{
    let secret = ed25519_dalek::SecretKey::from_bytes(secret).unwrap();
    let public = ed25519_dalek::PublicKey::from(&secret);
    let pair = ed25519_dalek::Keypair { secret, public };
    ed25519_dalek::Signer::sign(&pair, message).to_bytes().to_vec()
}

/// An Ed25519 key pair: 32 secret bytes and the public key that belongs to
/// them.
#[derive(Debug)]
pub struct Keypair {
    secret: Vec<u8>,
    public: Vec<u8>,
}

impl Keypair {
    /// The secret key has 32 bytes and the public key belongs to it.
    #[verifier::type_invariant]
    spec fn wf(&self) -> bool {
        &&& self.secret@.len() == 32
        &&& self.public@.len() == 32
        &&& self.public@ == ed25519_public(self.secret@)
        &&& ed25519_key_valid(self.public@)
    }

    /// The secret key.
    pub closed spec fn secret_bytes(&self) -> Seq<u8> {
        self.secret@
    }

    /// The public key.
    pub closed spec fn public_bytes(&self) -> Seq<u8> {
        self.public@
    }

    /// The key pair of a secret key, which has 32 bytes.
    pub fn from_secret(secret: &[u8]) -> (r: Option<Keypair>)
        ensures
            r is Some == (secret@.len() == 32),
            r is Some ==> r->0.secret_bytes() == secret@ && r->0.public_bytes() == ed25519_public(
                secret@,
            ),
    {
        if secret.len() != 32 {
            return None;
        }
        let public = ed25519_derive_public(secret);
        Some(Keypair { secret: slice_to_vec(secret), public })
    }

    /// The public key, 32 bytes that are accepted as a public key.
    pub fn public(&self) -> (public: &Vec<u8>)
        ensures
            public@ == self.public_bytes(),
            public@ == ed25519_public(self.secret_bytes()),
            public@.len() == 32,
            ed25519_key_valid(public@),
    {
        proof {
            use_type_invariant(self);
        }
        &self.public
    }

    /// The signature of this key pair on `message`. It verifies under the
    /// public key.
    pub fn sign(&self, message: &[u8]) -> (signature: Vec<u8>)
        ensures
            signature@ == ed25519_signature(self.secret_bytes(), message@),
            signature_well_formed(signature@),
            ed25519_verifies(self.public_bytes(), message@, signature@),
    {
        proof {
            use_type_invariant(self);
        }
        ed25519_sign(self.secret.as_slice(), message)
    }
}

} // verus!
