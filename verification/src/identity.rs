//! The identity of the actor: a `did:web` identifier made from an OIDC token,
//! or a `did:key` identifier made from the actor's own Ed25519 key.

use crate::crypto::{
    base64_bytes, base64_decode, base64_encode, base64_text, base64_url_padded_bytes,
    base64_url_padded_decode, base64_url_unpadded_bytes, base64_url_unpadded_decode,
    ed25519_public, Keypair,
};
use crate::env_meta::{env_var, var};
use crate::json::text_view;
use crate::strmap::StringMap;
use crate::text::{ascii_lower, from_chars, lower, str_eq, to_chars, trim, trimmed, views};
use vstd::prelude::*;
use vstd::slice::slice_to_vec;
use vstd::string::StringExecFns;
use vstd::string::StringSliceAdditionalSpecFns;
use vstd::utf8::encode_utf8;

verus! {

/// Why the actor's key could not be used.
#[derive(Debug, Clone, Copy, PartialEq, Eq, Structural)]
pub enum IdentityError {
    /// The key file names an algorithm other than Ed25519.
    UnsupportedAlgorithm,
    /// The secret key is not base64.
    BadKeyEncoding,
    /// The secret key has not 32 bytes.
    BadSecret,
    /// There is no home directory to keep the key in.
    NoHomeDirectory,
}

impl IdentityError {
    /// What the error says.
    pub open spec fn text(&self) -> Seq<char> {
        match self {
            IdentityError::UnsupportedAlgorithm => "unsupported actor key algorithm"@,
            IdentityError::BadKeyEncoding => "invalid actor key encoding"@,
            IdentityError::BadSecret => "invalid actor secret"@,
            IdentityError::NoHomeDirectory => "unable to determine home directory"@,
        }
    }

    /// What the error says.
    pub fn to_string(&self) -> (s: String)
        ensures
            s@ == self.text(),
    {
        match self {
            IdentityError::UnsupportedAlgorithm => "unsupported actor key algorithm".to_owned(),
            IdentityError::BadKeyEncoding => "invalid actor key encoding".to_owned(),
            IdentityError::BadSecret => "invalid actor secret".to_owned(),
            IdentityError::NoHomeDirectory => "unable to determine home directory".to_owned(),
        }
    }
}

/// The actor's key as it is kept in a file.
#[derive(Debug)]
pub struct ActorKeyFile {
    pub alg: String,
    pub secret: String,
    pub did: Option<String>,
}

/// `s` trimmed, or nothing where only white space is left.
pub open spec fn non_blank(s: Seq<char>) -> Option<Seq<char>> {
    if trimmed(s).len() == 0 {
        None
    } else {
        Some(trimmed(s))
    }
}

/// `input` trimmed, or nothing where only white space is left.
pub fn non_empty_trimmed(input: &str) -> (r: Option<String>)
    ensures
        text_view(r) == non_blank(input@),
{
    let s = trim(input);
    if s.as_str().is_empty() {
        None
    } else {
        Some(s)
    }
}

/// The first `n` segments, each behind a colon.
pub open spec fn colon_joined(segments: Seq<Seq<char>>, n: nat) -> Seq<char>
    decreases n,
{
    if n == 0 || n > segments.len() {
        Seq::empty()
    } else {
        colon_joined(segments, (n - 1) as nat) + ":"@ + segments[n - 1]
    }
}

/// The `did:web` identifier of a domain and a path of segments.
pub open spec fn did_web(domain: Seq<char>, segments: Seq<Seq<char>>) -> Seq<char> {
    "did:web:"@ + domain + colon_joined(segments, segments.len())
}

/// The views of a list of string slices.
pub open spec fn slice_views(v: Seq<&str>) -> Seq<Seq<char>> {
    Seq::new(v.len(), |i: int| v[i]@)
}

/// Composes `did:web:<domain>`, followed by the path segments, each behind a
/// colon.
pub fn compose_did_web(domain: &str, segments: &[&str]) -> (did: String)
    ensures
        did@ == did_web(domain@, slice_views(segments@)),
{
    let mut did = "did:web:".to_owned();
    did.append(domain);
    let ghost head = did@;
    let ghost all = slice_views(segments@);
    let mut i: usize = 0;
    proof {
        assert(did@ =~= head + colon_joined(all, 0));
    }
    while i < segments.len()
        invariant
            i <= segments.len(),
            all == slice_views(segments@),
            did@ == head + colon_joined(all, i as nat),
        decreases segments.len() - i,
    {
        did.append(":");
        did.append(segments[i]);
        i += 1;
        proof {
            assert(did@ =~= head + colon_joined(all, i as nat));
        }
    }
    did
}

/// The multicodec prefix of an Ed25519 public key.
pub open spec fn multicodec_ed25519() -> Seq<u8> {
    seq![0xedu8, 0x01u8]
}

/// The base58 text of `data`, in the Bitcoin alphabet.
pub uninterp spec fn base58_text(data: Seq<u8>) -> Seq<char>;

/// Calls `bs58::encode` and `into_string`: base58 in the default (Bitcoin)
/// alphabet.
#[verifier::external_body]
fn base58_encode(data: &[u8]) -> (text: String)
    ensures
        text@ == base58_text(data@),
{
    bs58::encode(data).into_string()
}

/// The `did:key` identifier of an Ed25519 public key.
pub open spec fn did_key(public_key: Seq<u8>) -> Seq<char> {
    "did:key:z"@ + base58_text(multicodec_ed25519() + public_key)
}

/// The `did:key` identifier of an Ed25519 public key: `did:key:z` and the
/// base58 text of the multicodec prefix and the key.
pub fn did_key_from_public(public_key: &[u8]) -> (did: String)
    ensures
        did@ == did_key(public_key@),
{
    let mut data: Vec<u8> = Vec::new();
    data.push(0xed);
    data.push(0x01);
    let mut key = slice_to_vec(public_key);
    data.append(&mut key);
    proof {
        assert(data@ =~= multicodec_ed25519() + public_key@);
    }
    let mut did = "did:key:z".to_owned();
    did.append(base58_encode(data.as_slice()).as_str());
    did
}

/// Whether a byte of a path segment is escaped: every byte that is not ASCII,
/// the control characters, and the punctuation that has a meaning in an
/// identifier or a URL.
pub open spec fn is_escaped(b: u8) -> bool {
    b >= 0x80 || b < 0x20 || b == 0x7f || b == 0x20 || b == 0x21 || b == 0x22 || b == 0x23 || b
        == 0x24 || b == 0x25 || b == 0x26 || b == 0x27 || b == 0x28 || b == 0x29 || b == 0x2a || b
        == 0x2b || b == 0x2c || b == 0x2f || b == 0x3a || b == 0x3b || b == 0x3c || b == 0x3d || b
        == 0x3e || b == 0x3f || b == 0x40 || b == 0x5b || b == 0x5c || b == 0x5d || b == 0x5e || b
        == 0x60 || b == 0x7b || b == 0x7c || b == 0x7d || b == 0x7e
}

/// The upper-case hexadecimal digit for `n`, for `0 <= n < 16`.
pub open spec fn upper_hex_digit(n: int) -> char {
    if n < 10 {
        (('0' as int) + n) as char
    } else {
        (('A' as int) + n - 10) as char
    }
}

/// One byte of a path segment, percent-encoded where it is escaped.
pub open spec fn encoded_byte(b: u8) -> Seq<char> {
    if is_escaped(b) {
        seq!['%', upper_hex_digit((b as int) / 16), upper_hex_digit((b as int) % 16)]
    } else {
        seq![b as char]
    }
}

/// The bytes of a path segment, percent-encoded.
pub open spec fn percent_encoded(bytes: Seq<u8>) -> Seq<char>
    decreases bytes.len(),
{
    if bytes.len() == 0 {
        Seq::empty()
    } else {
        percent_encoded(bytes.drop_last()) + encoded_byte(bytes.last())
    }
}

/// The upper-case hexadecimal digit for `n`.
fn upper_hex(n: u8) -> (c: char)
    requires
        n < 16,
    ensures
        c == upper_hex_digit(n as int),
{
    if n < 10 {
        (48 + n) as char
    } else {
        (55 + n) as char
    }
}

/// Whether a byte of a path segment is escaped.
fn escaped(b: u8) -> (r: bool)
    ensures
        r == is_escaped(b),
{
    b >= 0x80 || b < 0x20 || b == 0x7f || b == 0x20 || b == 0x21 || b == 0x22 || b == 0x23 || b
        == 0x24 || b == 0x25 || b == 0x26 || b == 0x27 || b == 0x28 || b == 0x29 || b == 0x2a || b
        == 0x2b || b == 0x2c || b == 0x2f || b == 0x3a || b == 0x3b || b == 0x3c || b == 0x3d || b
        == 0x3e || b == 0x3f || b == 0x40 || b == 0x5b || b == 0x5c || b == 0x5d || b == 0x5e || b
        == 0x60 || b == 0x7b || b == 0x7c || b == 0x7d || b == 0x7e
}

/// `s` as a path segment of a `did:web` identifier: its UTF-8 bytes,
/// percent-encoded where they are escaped.
pub fn percent_encode_segment(s: &str) -> (out: String)
    ensures
        out@ == percent_encoded(encode_utf8(s@)),
{
    let bytes = s.as_bytes();
    let mut out = String::new();
    let mut i: usize = 0;
    proof {
        assert(bytes@.take(0) =~= Seq::<u8>::empty());
    }
    while i < bytes.len()
        invariant
            i <= bytes.len(),
            out@ == percent_encoded(bytes@.take(i as int)),
        decreases bytes.len() - i,
    {
        let b = bytes[i];
        let ghost before = out@;
        proof {
            assert(bytes@.take(i + 1).drop_last() =~= bytes@.take(i as int));
            assert(bytes@.take(i + 1).last() == b);
        }
        if escaped(b) {
            out.push('%');
            out.push(upper_hex(b / 16));
            out.push(upper_hex(b % 16));
            proof {
                assert(out@ =~= before + encoded_byte(b));
            }
        } else {
            out.push(b as char);
            proof {
                assert(out@ =~= before + encoded_byte(b));
            }
        }
        i += 1;
    }
    proof {
        assert(bytes@.take(i as int) =~= bytes@);
    }
    out
}

/// The bytes of a segment of a token: decoded as URL-safe base64 without
/// padding, or with padding where that fails.
pub open spec fn segment_bytes(segment: Seq<char>) -> Option<Seq<u8>> {
    if base64_url_unpadded_bytes(segment) is Some {
        base64_url_unpadded_bytes(segment)
    } else {
        base64_url_padded_bytes(segment)
    }
}

/// Decodes a segment of a token.
pub fn decode_jwt_segment(segment: &str) -> (r: Option<Vec<u8>>)
    ensures
        r is Some == segment_bytes(segment@) is Some,
        r is Some ==> r->0@ == segment_bytes(segment@)->0,
{
    match base64_url_unpadded_decode(segment) {
        Some(bytes) => Some(bytes),
        None => base64_url_padded_decode(segment),
    }
}

/// The position of the first dot of `s` at or after `from`, or the length of
/// `s` where there is none.
pub open spec fn next_dot(s: Seq<char>, from: int) -> int
    decreases s.len() - from,
{
    if from < 0 || from >= s.len() {
        s.len() as int
    } else if s[from] == '.' {
        from
    } else {
        next_dot(s, from + 1)
    }
}

/// The second of the segments that the dots split `s` into, if there are two.
pub open spec fn second_segment(s: Seq<char>) -> Option<Seq<char>> {
    if next_dot(s, 0) >= s.len() {
        None
    } else {
        Some(s.subrange(next_dot(s, 0) + 1, next_dot(s, next_dot(s, 0) + 1)))
    }
}

/// The position of the first dot of `v` at or after `from`.
fn find_dot(v: &Vec<char>, from: usize) -> (at: usize)
    requires
        from <= v.len(),
    ensures
        from <= at <= v.len(),
        at == next_dot(v@, from as int),
{
    let mut at = from;
    while at < v.len() && v[at] != '.'
        invariant
            from <= at <= v.len(),
            next_dot(v@, from as int) == next_dot(v@, at as int),
        decreases v.len() - at,
    {
        at += 1;
    }
    at
}

/// The second of the segments that the dots split `s` into.
pub fn jwt_payload_segment(s: &str) -> (r: Option<String>)
    ensures
        text_view(r) == second_segment(s@),
{
    let v = to_chars(s);
    let first = find_dot(&v, 0);
    if first >= v.len() {
        return None;
    }
    let second = find_dot(&v, first + 1);
    Some(from_chars(&v, first + 1, second))
}

/// The text of the member `key` of the JSON object in `bytes`, where `bytes`
/// is JSON, an object, and has that member as a string: what `serde_json`
/// reads.
pub uninterp spec fn json_text_at(bytes: Seq<u8>, key: Seq<char>) -> Option<Seq<char>>;

/// Parses `bytes` with `serde_json::from_slice` and reads the member `key`
/// with `get` and `as_str`.
#[verifier::external_body]
fn json_text_field(bytes: &[u8], key: &str) -> (r: Option<String>)
    ensures
        text_view(r) == json_text_at(bytes@, key@),
{
    let doc: serde_json::Value = serde_json::from_slice(bytes).ok()?;
    doc.get(key)?.as_str().map(|s| s.to_owned())
}

/// The `did:web` identifier for a domain and the subject that the payload of
/// a token names, where both are there and not blank.
pub open spec fn oidc_did(domain: Option<Seq<char>>, payload_subject: Option<Seq<char>>) -> Option<
    Seq<char>,
> {
    match (domain, payload_subject) {
        (Some(d), Some(sub)) => match (non_blank(d), non_blank(sub)) {
            (Some(d), Some(sub)) => Some(
                did_web(d, seq!["users"@, percent_encoded(encode_utf8(sub))]),
            ),
            _ => None,
        },
        _ => None,
    }
}

/// The subject that the token `jwt` names in its payload.
pub open spec fn token_subject(jwt: Option<Seq<char>>) -> Option<Seq<char>> {
    match jwt {
        None => None,
        Some(raw) => match non_blank(raw) {
            None => None,
            Some(token) => match second_segment(token) {
                None => None,
                Some(segment) => match segment_bytes(segment) {
                    None => None,
                    Some(bytes) => json_text_at(bytes, "sub"@),
                },
            },
        },
    }
}

/// The `did:web` identifier for a domain and a subject, where both are there
/// and not blank: `did:web:<domain>:users:<subject>`, the subject
/// percent-encoded.
pub fn did_web_for_subject(domain: Option<&str>, subject: Option<&str>) -> (r: Option<String>)
    ensures
        text_view(r) == oidc_did(
            match domain {
                Some(d) => Some(d@),
                None => None,
            },
            match subject {
                Some(s) => Some(s@),
                None => None,
            },
        ),
{
    let d = match domain {
        Some(d) => match non_empty_trimmed(d) {
            Some(d) => d,
            None => {
                return None;
            },
        },
        None => {
            return None;
        },
    };
    let sub = match subject {
        Some(s) => match non_empty_trimmed(s) {
            Some(s) => s,
            None => {
                return None;
            },
        },
        None => {
            return None;
        },
    };
    let encoded = percent_encode_segment(sub.as_str());
    let segments: [&str; 2] = ["users", encoded.as_str()];
    proof {
        assert(slice_views(segments@) =~= seq!["users"@, encoded@]);
    }
    Some(compose_did_web(d.as_str(), segments.as_slice()))
}

/// The `did:web` identifier that a domain and an OIDC token give: the domain
/// and the token must be there and not blank, and the token must name a
/// subject in its payload.
pub fn did_web_from_oidc(domain: Option<&str>, jwt: Option<&str>) -> (r: Option<String>)
    ensures
        text_view(r) == match domain {
            Some(d) => if non_blank(d@) is Some {
                oidc_did(
                    Some(d@),
                    token_subject(
                        match jwt {
                            Some(j) => Some(j@),
                            None => None,
                        },
                    ),
                )
            } else {
                None
            },
            None => None,
        },
{
    let d = match domain {
        Some(d) => d,
        None => {
            return None;
        },
    };
    if non_empty_trimmed(d).is_none() {
        return None;
    }
    let token = match jwt {
        Some(j) => match non_empty_trimmed(j) {
            Some(t) => t,
            None => {
                return None;
            },
        },
        None => {
            return None;
        },
    };
    let segment = match jwt_payload_segment(token.as_str()) {
        Some(s) => s,
        None => {
            return None;
        },
    };
    let payload = match decode_jwt_segment(segment.as_str()) {
        Some(p) => p,
        None => {
            return None;
        },
    };
    match json_text_field(payload.as_slice(), "sub") {
        Some(sub) => did_web_for_subject(Some(d), Some(sub.as_str())),
        None => None,
    }
}

/// Whether `alg` names Ed25519, the case of ASCII letters put aside.
pub open spec fn names_ed25519(alg: Seq<char>) -> bool {
    alg.len() == "ed25519"@.len() && forall|i: int|
        0 <= i < alg.len() ==> ascii_lower(#[trigger] alg[i]) == "ed25519"@[i]
}

/// Whether `alg` names Ed25519.
pub fn is_ed25519(alg: &str) -> (r: bool)
    ensures
        r == names_ed25519(alg@),
{
    let a = to_chars(alg);
    let b = to_chars("ed25519");
    if a.len() != b.len() {
        return false;
    }
    let mut i: usize = 0;
    while i < a.len()
        invariant
            i <= a.len(),
            a.len() == b.len(),
            a@ == alg@,
            b@ == "ed25519"@,
            forall|k: int| 0 <= k < i ==> ascii_lower(#[trigger] a@[k]) == b@[k],
        decreases a.len() - i,
    {
        if lower(a[i]) != b[i] {
            return false;
        }
        i += 1;
    }
    true
}

/// The secret key that a key file holds, if the file can be used.
pub open spec fn key_file_secret(alg: Seq<char>, secret: Seq<char>) -> Result<Seq<u8>, IdentityError> {
    if !names_ed25519(alg) {
        Err(IdentityError::UnsupportedAlgorithm)
    } else {
        match base64_bytes(secret) {
            None => Err(IdentityError::BadKeyEncoding),
            Some(bytes) => if bytes.len() != 32 {
                Err(IdentityError::BadSecret)
            } else {
                Ok(bytes)
            },
        }
    }
}

/// The key pair that a key file holds.
pub fn keypair_from_key_file(file: &ActorKeyFile) -> (r: Result<Keypair, IdentityError>)
    ensures
        match key_file_secret(file.alg@, file.secret@) {
            Ok(secret) => r is Ok && r->Ok_0.secret_bytes() == secret && r->Ok_0.public_bytes()
                == ed25519_public(secret),
            Err(e) => r is Err && r->Err_0 == e,
        },
{
    if !is_ed25519(file.alg.as_str()) {
        return Err(IdentityError::UnsupportedAlgorithm);
    }
    let secret = match base64_decode(file.secret.as_str()) {
        Some(s) => s,
        None => {
            return Err(IdentityError::BadKeyEncoding);
        },
    };
    match Keypair::from_secret(secret.as_slice()) {
        Some(kp) => Ok(kp),
        None => Err(IdentityError::BadSecret),
    }
}

/// The identifier of the actor whose key is in `file`: the one that the file
/// names, where it names one that is not blank; else the `did:key` identifier
/// of the public key.
pub fn did_from_key_file(file: &ActorKeyFile) -> (r: Result<String, IdentityError>)
    ensures
        match key_file_secret(file.alg@, file.secret@) {
            Ok(secret) => r is Ok && r->Ok_0@ == (if file.did is Some && trimmed(
                file.did->0@,
            ).len() > 0 {
                file.did->0@
            } else {
                did_key(ed25519_public(secret))
            }),
            Err(e) => r is Err && r->Err_0 == e,
        },
{
    let kp = match keypair_from_key_file(file) {
        Ok(kp) => kp,
        Err(e) => {
            return Err(e);
        },
    };
    match &file.did {
        Some(d) => {
            if !trim(d.as_str()).as_str().is_empty() {
                return Ok(d.clone());
            }
        },
        None => {},
    }
    Ok(did_key_from_public(kp.public().as_slice()))
}

/// The key file for the content of a file that is no JSON: the content,
/// trimmed, is taken as the secret key in base64.
pub fn key_file_from_raw(content: &str) -> (file: ActorKeyFile)
    ensures
        file.alg@ == "ed25519"@,
        file.secret@ == trimmed(content@),
        file.did is None,
{
    ActorKeyFile { alg: "ed25519".to_owned(), secret: trim(content), did: None }
}

/// The name `ed25519` names Ed25519.
pub proof fn lemma_ed25519_is_named()
    ensures
        names_ed25519("ed25519"@),
{
    reveal_strlit("ed25519");
    let name = "ed25519"@;
    assert forall|i: int| 0 <= i < name.len() implies ascii_lower(#[trigger] name[i])
        == name[i] by {}
}

/// A new key file for the 32 random bytes `seed`, with the `did:key`
/// identifier of its public key. The file reads back: its secret is the seed,
/// so `keypair_from_key_file` and `did_from_key_file` give the key pair of the
/// seed and the identifier that the file names.
pub fn generate_actor_key(seed: &[u8]) -> (r: Option<ActorKeyFile>)
    ensures
        r is Some == (seed@.len() == 32),
        r is Some ==> r->0.alg@ == "ed25519"@ && r->0.secret@ == base64_text(seed@) && r->0.did
            is Some && r->0.did->0@ == did_key(ed25519_public(seed@)),
        r is Some ==> key_file_secret(r->0.alg@, r->0.secret@) == Ok::<Seq<u8>, IdentityError>(
            seed@,
        ),
{
    proof {
        lemma_ed25519_is_named();
    }
    let kp = match Keypair::from_secret(seed) {
        Some(kp) => kp,
        None => {
            return None;
        },
    };
    let did = did_key_from_public(kp.public().as_slice());
    Some(ActorKeyFile { alg: "ed25519".to_owned(), secret: base64_encode(seed), did: Some(did) })
}

/// `rel` under `base`, as paths with `/` between their parts: `rel` alone
/// where it starts at the root, else `base`, a slash unless `base` is empty
/// or ends in one, and `rel`.
pub open spec fn joined_path(base: Seq<char>, rel: Seq<char>) -> Seq<char> {
    if rel.len() > 0 && rel[0] == '/' {
        rel
    } else if base.len() == 0 || base.last() == '/' {
        base + rel
    } else {
        base + "/"@ + rel
    }
}

/// Where the actor's key is kept: the configured path where there is one
/// (`~` standing for the default place, `~/` for the home directory), else
/// `.vaultmesh/actor.key` in the home directory.
pub open spec fn key_path(configured: Option<Seq<char>>, home: Option<Seq<char>>) -> Result<
    Seq<char>,
    IdentityError,
> {
    let chosen = match configured {
        Some(c) => non_blank(c),
        None => None,
    };
    match chosen {
        Some(p) => if p == "~"@ {
            match home {
                Some(h) => Ok(joined_path(h, ".vaultmesh/actor.key"@)),
                None => Err(IdentityError::NoHomeDirectory),
            }
        } else if p.len() >= 2 && p[0] == '~' && p[1] == '/' {
            match home {
                Some(h) => Ok(joined_path(h, p.subrange(2, p.len() as int))),
                None => Err(IdentityError::NoHomeDirectory),
            }
        } else {
            Ok(p)
        },
        None => match home {
            Some(h) => Ok(joined_path(h, ".vaultmesh/actor.key"@)),
            None => Err(IdentityError::NoHomeDirectory),
        },
    }
}

/// `rel` under `base`.
fn join_path(base: &str, rel: &str) -> (out: String)
    ensures
        out@ == joined_path(base@, rel@),
{
    let r = to_chars(rel);
    if r.len() > 0 && r[0] == '/' {
        return rel.to_owned();
    }
    let b = to_chars(base);
    let mut out = base.to_owned();
    if b.len() > 0 && b[b.len() - 1] != '/' {
        out.append("/");
    }
    out.append(rel);
    out
}

/// Where the actor's key is kept.
pub fn actor_key_path(configured: Option<&str>, home: Option<&str>) -> (r: Result<
    String,
    IdentityError,
>)
    ensures
        match key_path(
            match configured {
                Some(c) => Some(c@),
                None => None,
            },
            match home {
                Some(h) => Some(h@),
                None => None,
            },
        ) {
            Ok(p) => r is Ok && r->Ok_0@ == p,
            Err(e) => r is Err && r->Err_0 == e,
        },
{
    let chosen = match configured {
        Some(c) => non_empty_trimmed(c),
        None => None,
    };
    match chosen {
        Some(p) => {
            let v = to_chars(p.as_str());
            if str_eq(p.as_str(), "~") {
                match home {
                    Some(h) => Ok(join_path(h, ".vaultmesh/actor.key")),
                    None => Err(IdentityError::NoHomeDirectory),
                }
            } else if v.len() >= 2 && v[0] == '~' && v[1] == '/' {
                match home {
                    Some(h) => {
                        let rest = from_chars(&v, 2, v.len());
                        Ok(join_path(h, rest.as_str()))
                    },
                    None => Err(IdentityError::NoHomeDirectory),
                }
            } else {
                Ok(p)
            }
        },
        None => match home {
            Some(h) => Ok(join_path(h, ".vaultmesh/actor.key")),
            None => Err(IdentityError::NoHomeDirectory),
        },
    }
}

/// The identifier that the environment gives the actor: the variable
/// `VM_ACTOR_DID` where it is set and not blank, else the `did:web`
/// identifier from `VM_DID_WEB_DOMAIN` and `VM_OIDC_JWT`. Where the
/// environment gives none, the actor's own key decides.
pub fn resolve_actor_did(vars: &StringMap) -> (r: Option<String>)
    ensures
        text_view(r) == match var(vars.pairs(), "VM_ACTOR_DID"@) {
            Some(did) => Some(did),
            None => match vars.spec_get("VM_DID_WEB_DOMAIN"@) {
                Some(d) => if non_blank(d) is Some {
                    oidc_did(Some(d), token_subject(vars.spec_get("VM_OIDC_JWT"@)))
                } else {
                    None
                },
                None => None,
            },
        },
{
    match env_var(vars, "VM_ACTOR_DID") {
        Some(did) => Some(did),
        None => {
            let domain = match vars.get("VM_DID_WEB_DOMAIN") {
                Some(d) => Some(d.as_str()),
                None => None,
            };
            let jwt = match vars.get("VM_OIDC_JWT") {
                Some(j) => Some(j.as_str()),
                None => None,
            };
            did_web_from_oidc(domain, jwt)
        },
    }
}

} // verus!
