//! Receipts and provenance records, their JSON form, and signing and
//! verifying a receipt.
//!
//! A receipt is signed over the hexadecimal text of the digest of its
//! canonical JSON form without the `sign` member.

use crate::crypto::{
    base64_bytes, base64_decode, base64_encode, base64_text, ed25519_key_valid,
    ed25519_signature, ed25519_verifies, ed25519_verify, public_key_accepted,
    signature_accepted, signature_well_formed, Keypair,
};
use crate::digest::is_hex;
use crate::json::{
    canonical_digest, canonical_string, canonical_text, canonical_values, distinct_keys,
    lemma_ascending_members_equal, lemma_lookup_absent, lemma_lookup_at, lemma_sort_members,
    lemma_without_ignores_value, member, member_views, object, optional_member,
    optional_text_member, present_member, put, put_text, put_text_or_null, remove_key,
    sort_json, sort_members, text_member, text_or_null, text_view, without_key, Json, Value,
};
use crate::strmap::{bind, keys_distinct, lemma_bind_fresh, StringMap};

pub use crate::digest::blake3_hex;
pub use crate::json::hash_canonical;
use vstd::prelude::*;
use vstd::slice::slice_to_vec;
use vstd::string::StringSliceAdditionalSpecFns;
use vstd::utf8::encode_utf8;

verus! {

/// The party answerable for an operation.
#[derive(Debug)]
pub struct Actor {
    pub id: String,
}

/// What a receipt is about.
#[derive(Debug)]
pub struct Subject {
    pub kind: String,
    pub digest: String,
    pub meta: Option<Value>,
}

/// The signature block of a receipt: public key and signature in base64, and
/// the name of the algorithm.
#[derive(Debug)]
pub struct Sign {
    pub pub_: String,
    pub signature: String,
    pub alg: Option<String>,
}

/// A reference to a provenance record stored apart from the receipt.
#[derive(Debug)]
pub struct ProvenanceRef {
    pub path: String,
    pub digest: String,
}

/// The build that an artifact came from.
#[derive(Debug)]
pub struct Build {
    pub repo: Option<String>,
    pub commit: Option<String>,
    pub git_ref: Option<String>,
}

/// The CI run that an artifact came from.
#[derive(Debug)]
pub struct CiInfo {
    pub name: Option<String>,
    pub url: Option<String>,
    pub runner: Option<String>,
}

/// When an artifact was built.
#[derive(Debug)]
pub struct TsInfo {
    pub built: String,
}

/// Supply-chain provenance of an artifact: what it is, who built it, from
/// which commit and in which CI run.
#[derive(Debug)]
pub struct Provenance {
    pub artifact: String,
    pub artifact_hash: String,
    pub actor: Actor,
    pub build: Build,
    pub ci: CiInfo,
    pub ts: TsInfo,
}

/// A receipt: who did what, when and where, with an optional signature.
#[derive(Debug)]
pub struct Receipt {
    pub actor: Actor,
    pub env: StringMap,
    pub ts: String,
    pub subject: Subject,
    pub sign: Option<Sign>,
    pub provenance: Option<Provenance>,
    pub provenance_ref: Option<ProvenanceRef>,
}

/// One string member for each entry of a map, in the order of the entries.
pub open spec fn text_members(pairs: Seq<(Seq<char>, Seq<char>)>) -> Seq<(Seq<char>, Json)> {
    Seq::new(pairs.len(), |i: int| (pairs[i].0, Json::Text(pairs[i].1)))
}

/// The JSON object of a map: one string member for each entry, the keys
/// ascending, in whatever order the entries were made.
pub open spec fn map_json(pairs: Seq<(Seq<char>, Seq<char>)>) -> Json {
    Json::Object(sort_members(text_members(pairs)))
}

impl Actor {
    /// The JSON form: `{"id": ..}`.
    pub open spec fn json(&self) -> Json {
        Json::Object(seq![("id"@, Json::Text(self.id@))])
    }

    /// The JSON form.
    pub fn to_json(&self) -> (v: Value)
        ensures
            v@ == self.json(),
    {
        let mut members: Vec<(String, Value)> = Vec::new();
        put_text(&mut members, "id", &self.id);
        proof {
            assert(member_views(members@) =~= seq![("id"@, Json::Text(self.id@))]);
        }
        object(members)
    }
}

impl Subject {
    /// The JSON form: `kind`, `digest`, and `meta` where there is one.
    pub open spec fn json(&self) -> Json {
        Json::Object(
            seq![("kind"@, Json::Text(self.kind@)), ("digest"@, Json::Text(self.digest@))]
                + optional_member(
                "meta"@,
                match self.meta {
                    Some(m) => Some(m@),
                    None => None,
                },
            ),
        )
    }

    /// The JSON form.
    pub fn to_json(&self) -> (v: Value)
        ensures
            v@ == self.json(),
    {
        let mut members: Vec<(String, Value)> = Vec::new();
        put_text(&mut members, "kind", &self.kind);
        put_text(&mut members, "digest", &self.digest);
        match &self.meta {
            Some(m) => {
                put(&mut members, "meta", m.clone());
            },
            None => {},
        }
        proof {
            assert(member_views(members@) =~= self.json()->Object_0);
        }
        object(members)
    }
}

impl Sign {
    /// The JSON form: `pub`, `sig`, and `alg` where there is one.
    pub open spec fn json(&self) -> Json {
        Json::Object(
            seq![("pub"@, Json::Text(self.pub_@)), ("sig"@, Json::Text(self.signature@))]
                + optional_member(
                "alg"@,
                match self.alg {
                    Some(a) => Some(Json::Text(a@)),
                    None => None,
                },
            ),
        )
    }

    /// The JSON form.
    pub fn to_json(&self) -> (v: Value)
        ensures
            v@ == self.json(),
    {
        let mut members: Vec<(String, Value)> = Vec::new();
        put_text(&mut members, "pub", &self.pub_);
        put_text(&mut members, "sig", &self.signature);
        match &self.alg {
            Some(a) => {
                put_text(&mut members, "alg", a);
            },
            None => {},
        }
        proof {
            assert(member_views(members@) =~= self.json()->Object_0);
        }
        object(members)
    }
}

impl ProvenanceRef {
    /// The JSON form: `path` and `digest`.
    pub open spec fn json(&self) -> Json {
        Json::Object(seq![("path"@, Json::Text(self.path@)), ("digest"@, Json::Text(self.digest@))])
    }

    /// The JSON form.
    pub fn to_json(&self) -> (v: Value)
        ensures
            v@ == self.json(),
    {
        let mut members: Vec<(String, Value)> = Vec::new();
        put_text(&mut members, "path", &self.path);
        put_text(&mut members, "digest", &self.digest);
        proof {
            assert(member_views(members@) =~= self.json()->Object_0);
        }
        object(members)
    }
}

impl Build {
    /// The JSON form: `repo`, `commit` and `ref`, each a string or `null`.
    pub open spec fn json(&self) -> Json {
        Json::Object(
            seq![
                ("repo"@, text_or_null(text_view(self.repo))),
                ("commit"@, text_or_null(text_view(self.commit))),
                ("ref"@, text_or_null(text_view(self.git_ref))),
            ],
        )
    }

    /// The JSON form.
    pub fn to_json(&self) -> (v: Value)
        ensures
            v@ == self.json(),
    {
        let mut members: Vec<(String, Value)> = Vec::new();
        put_text_or_null(&mut members, "repo", &self.repo);
        put_text_or_null(&mut members, "commit", &self.commit);
        put_text_or_null(&mut members, "ref", &self.git_ref);
        proof {
            assert(member_views(members@) =~= self.json()->Object_0);
        }
        object(members)
    }
}

impl CiInfo {
    /// The JSON form: `name`, `url` and `runner`, each a string or `null`.
    pub open spec fn json(&self) -> Json {
        Json::Object(
            seq![
                ("name"@, text_or_null(text_view(self.name))),
                ("url"@, text_or_null(text_view(self.url))),
                ("runner"@, text_or_null(text_view(self.runner))),
            ],
        )
    }

    /// The JSON form.
    pub fn to_json(&self) -> (v: Value)
        ensures
            v@ == self.json(),
    {
        let mut members: Vec<(String, Value)> = Vec::new();
        put_text_or_null(&mut members, "name", &self.name);
        put_text_or_null(&mut members, "url", &self.url);
        put_text_or_null(&mut members, "runner", &self.runner);
        proof {
            assert(member_views(members@) =~= self.json()->Object_0);
        }
        object(members)
    }
}

impl TsInfo {
    /// The JSON form: `{"built": ..}`.
    pub open spec fn json(&self) -> Json {
        Json::Object(seq![("built"@, Json::Text(self.built@))])
    }

    /// The JSON form.
    pub fn to_json(&self) -> (v: Value)
        ensures
            v@ == self.json(),
    {
        let mut members: Vec<(String, Value)> = Vec::new();
        put_text(&mut members, "built", &self.built);
        proof {
            assert(member_views(members@) =~= self.json()->Object_0);
        }
        object(members)
    }
}

impl Provenance {
    /// The JSON form: `artifact`, `artifact_hash`, `actor`, `build`, `ci`, `ts`.
    pub open spec fn json(&self) -> Json {
        Json::Object(
            seq![
                ("artifact"@, Json::Text(self.artifact@)),
                ("artifact_hash"@, Json::Text(self.artifact_hash@)),
                ("actor"@, self.actor.json()),
                ("build"@, self.build.json()),
                ("ci"@, self.ci.json()),
                ("ts"@, self.ts.json()),
            ],
        )
    }

    /// The JSON form.
    pub fn to_json(&self) -> (v: Value)
        ensures
            v@ == self.json(),
    {
        let mut members: Vec<(String, Value)> = Vec::new();
        put_text(&mut members, "artifact", &self.artifact);
        put_text(&mut members, "artifact_hash", &self.artifact_hash);
        put(&mut members, "actor", self.actor.to_json());
        put(&mut members, "build", self.build.to_json());
        put(&mut members, "ci", self.ci.to_json());
        put(&mut members, "ts", self.ts.to_json());
        proof {
            assert(member_views(members@) =~= self.json()->Object_0);
        }
        object(members)
    }
}

/// The JSON object of `map`, its keys ascending.
pub fn map_to_json(map: &StringMap) -> (v: Value)
    ensures
        v@ == map_json(map.pairs()),
{
    let mut members: Vec<(String, Value)> = Vec::new();
    let mut i: usize = 0;
    let n = map.len();
    while i < n
        invariant
            i <= n,
            n == map.pairs().len(),
            members.len() == i,
            forall|k: int|
                0 <= k < i ==> (#[trigger] members[k]).0@ == map.pairs()[k].0 && members[k].1@
                    == Json::Text(map.pairs()[k].1),
        decreases n - i,
    {
        let key = map.key_at(i).clone();
        let value = Value::Text(map.value_at(i).clone());
        members.push((key, value));
        i += 1;
    }
    let v = Value::Object(members);
    proof {
        let written = text_members(map.pairs());
        assert(v@->Object_0 =~= written);
        assert(canonical_values(written) =~= written);
    }
    sort_json(&v)
}

impl Receipt {
    /// The members of the JSON form that come before `sign`.
    pub open spec fn leading_members(&self) -> Seq<(Seq<char>, Json)> {
        seq![
            ("actor"@, self.actor.json()),
            ("env"@, map_json(self.env.pairs())),
            ("ts"@, Json::Text(self.ts@)),
            ("subject"@, self.subject.json()),
        ]
    }

    /// The members of the JSON form that come after `sign`: `provenance` and
    /// `provenance_ref`, each where there is one.
    pub open spec fn trailing_members(&self) -> Seq<(Seq<char>, Json)> {
        optional_member(
            "provenance"@,
            match self.provenance {
                Some(p) => Some(p.json()),
                None => None,
            },
        ) + optional_member(
            "provenance_ref"@,
            match self.provenance_ref {
                Some(p) => Some(p.json()),
                None => None,
            },
        )
    }

    /// The `sign` member: the signature block, or `null` where the receipt is
    /// not signed.
    pub open spec fn sign_json(&self) -> Json {
        match self.sign {
            Some(s) => s.json(),
            None => Json::Null,
        }
    }

    /// The JSON form: `actor`, `env`, `ts`, `subject`, `sign`, and
    /// `provenance` and `provenance_ref` where there are any.
    pub open spec fn json(&self) -> Json {
        Json::Object(
            self.leading_members() + seq![("sign"@, self.sign_json())] + self.trailing_members(),
        )
    }

    /// The JSON form.
    pub fn to_json(&self) -> (v: Value)
        ensures
            v@ == self.json(),
    {
        let mut members: Vec<(String, Value)> = Vec::new();
        put(&mut members, "actor", self.actor.to_json());
        put(&mut members, "env", map_to_json(&self.env));
        put_text(&mut members, "ts", &self.ts);
        put(&mut members, "subject", self.subject.to_json());
        match &self.sign {
            Some(s) => {
                put(&mut members, "sign", s.to_json());
            },
            None => {
                put(&mut members, "sign", Value::Null);
            },
        }
        match &self.provenance {
            Some(p) => {
                put(&mut members, "provenance", p.to_json());
            },
            None => {},
        }
        match &self.provenance_ref {
            Some(p) => {
                put(&mut members, "provenance_ref", p.to_json());
            },
            None => {},
        }
        proof {
            assert(member_views(members@) =~= self.json()->Object_0);
        }
        object(members)
    }
}

/// Why a receipt's signature was not accepted.
#[derive(Debug, Clone, Copy, PartialEq, Eq, Structural)]
pub enum SignatureError {
    /// The receipt has no signature block.
    MissingSign,
    /// The public key is not base64.
    BadPublicEncoding,
    /// The signature is not base64.
    BadSignatureEncoding,
    /// The public key is not an Ed25519 public key.
    BadPublicKey,
    /// The signature has not the form of an Ed25519 signature.
    BadSignature,
    /// The signature is not one of that key on this receipt.
    Mismatch,
}

impl SignatureError {
    /// What the error says.
    pub open spec fn text(&self) -> Seq<char> {
        match self {
            SignatureError::MissingSign => "missing sign"@,
            SignatureError::BadPublicEncoding => "bad public b64"@,
            SignatureError::BadSignatureEncoding => "bad signature b64"@,
            SignatureError::BadPublicKey => "bad public"@,
            SignatureError::BadSignature => "bad signature"@,
            SignatureError::Mismatch => "signature verify failed"@,
        }
    }

    /// What the error says.
    pub fn to_string(&self) -> (s: String)
        ensures
            s@ == self.text(),
    {
        match self {
            SignatureError::MissingSign => "missing sign".to_owned(),
            SignatureError::BadPublicEncoding => "bad public b64".to_owned(),
            SignatureError::BadSignatureEncoding => "bad signature b64".to_owned(),
            SignatureError::BadPublicKey => "bad public".to_owned(),
            SignatureError::BadSignature => "bad signature".to_owned(),
            SignatureError::Mismatch => "signature verify failed".to_owned(),
        }
    }
}

/// What is signed: a receipt's JSON form without its `sign` member.
pub open spec fn signing_payload(receipt: Json) -> Json {
    without_key(receipt, "sign"@)
}

/// The message that is signed: the hexadecimal text of the digest of the
/// payload, as bytes.
pub open spec fn signing_message(receipt: Json) -> Seq<u8> {
    encode_utf8(canonical_digest(signing_payload(receipt)))
}

/// The outcome of verifying, from what each step found. The first step that
/// failed names the error.
pub open spec fn verdict_of(
    signed: bool,
    public_decoded: bool,
    signature_decoded: bool,
    key_accepted: bool,
    signature_accepted: bool,
    verifies: bool,
) -> Result<(), SignatureError> {
    if !signed {
        Err(SignatureError::MissingSign)
    } else if !public_decoded {
        Err(SignatureError::BadPublicEncoding)
    } else if !signature_decoded {
        Err(SignatureError::BadSignatureEncoding)
    } else if !key_accepted {
        Err(SignatureError::BadPublicKey)
    } else if !signature_accepted {
        Err(SignatureError::BadSignature)
    } else if !verifies {
        Err(SignatureError::Mismatch)
    } else {
        Ok(())
    }
}

/// The outcome of verifying the signature of a receipt, given its JSON form: a
/// receipt without a signature block (or with one that lacks the key or the
/// signature) is not signed; else the key and the signature are decoded from
/// base64 and checked, and the signature must be one of that key on the
/// signing message.
pub open spec fn signature_outcome(receipt: Json) -> Result<(), SignatureError> {
    match present_member(receipt, "sign"@) {
        None => Err(SignatureError::MissingSign),
        Some(block) => match (text_member(block, "pub"@), text_member(block, "sig"@)) {
            (Some(p), Some(s)) => {
                let public = base64_bytes(p);
                let signature = base64_bytes(s);
                verdict_of(
                    true,
                    public is Some,
                    signature is Some,
                    public is Some && ed25519_key_valid(public->0),
                    signature is Some && signature_well_formed(signature->0),
                    public is Some && signature is Some && ed25519_verifies(
                        public->0,
                        signing_message(receipt),
                        signature->0,
                    ),
                )
            },
            _ => Err(SignatureError::MissingSign),
        },
    }
}

/// The outcome of verifying, from what each step found.
pub fn signature_verdict(
    signed: bool,
    public_decoded: bool,
    signature_decoded: bool,
    key_accepted: bool,
    signature_accepted: bool,
    verifies: bool,
) -> (r: Result<(), SignatureError>)
    ensures
        r == verdict_of(
            signed,
            public_decoded,
            signature_decoded,
            key_accepted,
            signature_accepted,
            verifies,
        ),
{
    if !signed {
        Err(SignatureError::MissingSign)
    } else if !public_decoded {
        Err(SignatureError::BadPublicEncoding)
    } else if !signature_decoded {
        Err(SignatureError::BadSignatureEncoding)
    } else if !key_accepted {
        Err(SignatureError::BadPublicKey)
    } else if !signature_accepted {
        Err(SignatureError::BadSignature)
    } else if !verifies {
        Err(SignatureError::Mismatch)
    } else {
        Ok(())
    }
}

/// The digest that is signed, as hexadecimal text.
pub fn signing_digest(r: &Receipt) -> (digest: String)
    ensures
        digest@ == canonical_digest(signing_payload(r.json())),
        is_hex(digest@),
        digest@.len() == 64,
{
    let v = r.to_json();
    let payload = remove_key(&v, "sign");
    hash_canonical(&payload)
}

/// What is signed does not depend on the signature block.
pub proof fn lemma_payload_ignores_sign(a: Receipt, b: Receipt)
    requires
        a.leading_members() == b.leading_members(),
        a.trailing_members() == b.trailing_members(),
    ensures
        signing_payload(a.json()) == signing_payload(b.json()),
        signing_message(a.json()) == signing_message(b.json()),
{
    let x = a.json()->Object_0;
    let y = b.json()->Object_0;
    let lead = a.leading_members();
    let trail = a.trailing_members();
    assert(x == lead + seq![("sign"@, a.sign_json())] + trail);
    assert(y == lead + seq![("sign"@, b.sign_json())] + trail);
    assert(lead.len() == 4);
    assert forall|i: int| 0 <= i < x.len() implies (#[trigger] x[i]).0 == y[i].0 by {
        if i < 4 {
            assert(x[i] == lead[i] && y[i] == lead[i]);
        } else if i == 4 {
        } else {
            assert(x[i] == trail[i - 5] && y[i] == trail[i - 5]);
        }
    }
    assert forall|i: int| 0 <= i < x.len() && (#[trigger] x[i]).0 != "sign"@ implies x[i].1
        == y[i].1 by {
        if i < 4 {
            assert(x[i] == lead[i] && y[i] == lead[i]);
        } else if i == 4 {
        } else {
            assert(x[i] == trail[i - 5] && y[i] == trail[i - 5]);
        }
    }
    lemma_without_ignores_value(x, y, "sign"@);
}

/// Where the actor and the signature block stand in the JSON form of a
/// receipt.
pub proof fn lemma_receipt_members(r: Receipt)
    ensures
        member(r.json(), "actor"@) == Some(r.actor.json()),
        text_member(r.actor.json(), "id"@) == Some(r.actor.id@),
        present_member(r.json(), "sign"@) == match r.sign {
            Some(s) => Some(s.json()),
            None => None,
        },
        r.sign is Some ==> text_member(r.sign->0.json(), "pub"@) == Some(r.sign->0.pub_@),
        r.sign is Some ==> text_member(r.sign->0.json(), "sig"@) == Some(r.sign->0.signature@),
{
    reveal_strlit("actor");
    reveal_strlit("env");
    reveal_strlit("ts");
    reveal_strlit("subject");
    reveal_strlit("sign");
    reveal_strlit("pub");
    reveal_strlit("sig");
    let all = r.json()->Object_0;
    assert(all[0] == ("actor"@, r.actor.json()));
    assert(all[1].0 == "env"@);
    assert(all[2].0 == "ts"@);
    assert(all[3].0 == "subject"@);
    assert(all[4] == ("sign"@, r.sign_json()));
    assert("actor"@.len() == 5 && "env"@.len() == 3 && "ts"@.len() == 2 && "subject"@.len() == 7
        && "sign"@.len() == 4);
    lemma_lookup_at(all, "actor"@, 0);
    lemma_lookup_at(all, "sign"@, 4);
    lemma_lookup_at(r.actor.json()->Object_0, "id"@, 0);
    match r.sign {
        Some(s) => {
            let block = s.json()->Object_0;
            assert(block[0] == ("pub"@, Json::Text(s.pub_@)));
            assert(block[1] == ("sig"@, Json::Text(s.signature@)));
            assert("pub"@[0] == 'p' && "sig"@[0] == 's');
            lemma_lookup_at(block, "pub"@, 0);
            lemma_lookup_at(block, "sig"@, 1);
        },
        None => {},
    }
}

/// A receipt that was changed after it was signed fails with a mismatch:
/// where the signature block is still that of the signed receipt, and the
/// signature is not one of that key on the new signing message too.
pub proof fn lemma_changed_receipt_fails(signed: Receipt, changed: Receipt)
    requires
        signature_outcome(signed.json()) is Ok,
        changed.sign == signed.sign,
        !ed25519_verifies(
            base64_bytes(signed.sign->0.pub_@)->0,
            signing_message(changed.json()),
            base64_bytes(signed.sign->0.signature@)->0,
        ),
    ensures
        signature_outcome(changed.json()) == Err::<(), SignatureError>(SignatureError::Mismatch),
{
    lemma_receipt_members(signed);
    lemma_receipt_members(changed);
}

/// Signs `r` with `kp`: the signature block gets the public key, the
/// signature on the signing message and the algorithm's name. Verifying the
/// result succeeds.
pub fn sign_receipt(r: Receipt, kp: &Keypair) -> (signed: Receipt)
    ensures
        signed.actor == r.actor,
        signed.env == r.env,
        signed.ts == r.ts,
        signed.subject == r.subject,
        signed.provenance == r.provenance,
        signed.provenance_ref == r.provenance_ref,
        signed.sign is Some,
        signed.sign->0.pub_@ == base64_text(kp.public_bytes()),
        signed.sign->0.signature@ == base64_text(
            ed25519_signature(kp.secret_bytes(), signing_message(r.json())),
        ),
        signed.sign->0.alg is Some,
        signed.sign->0.alg->0@ == "ed25519"@,
        signature_outcome(signed.json()) == Ok::<(), SignatureError>(()),
{
    let digest_hex = signing_digest(&r);
    let sig = kp.sign(digest_hex.as_str().as_bytes());
    let public = kp.public();
    let pub_b64 = base64_encode(public.as_slice());
    let sig_b64 = base64_encode(sig.as_slice());
    let Receipt { actor, env, ts, subject, sign: _, provenance, provenance_ref } = r;
    let signed = Receipt {
        actor,
        env,
        ts,
        subject,
        sign: Some(Sign { pub_: pub_b64, signature: sig_b64, alg: Some("ed25519".to_owned()) }),
        provenance,
        provenance_ref,
    };
    proof {
        lemma_payload_ignores_sign(r, signed);
        lemma_receipt_members(signed);
    }
    signed
}

/// Verifies the signature of `r`: decodes the public key and the signature,
/// computes the signing message again from the receipt, and checks the
/// signature against it.
pub fn verify_receipt(r: &Receipt) -> (res: Result<(), SignatureError>)
    ensures
        res == signature_outcome(r.json()),
{
    proof {
        lemma_receipt_members(*r);
    }
    let sign = match &r.sign {
        Some(s) => s,
        None => {
            return signature_verdict(false, false, false, false, false, false);
        },
    };
    let public = base64_decode(sign.pub_.as_str());
    let signature = base64_decode(sign.signature.as_str());
    match (public, signature) {
        (Some(p), Some(s)) => {
            let key_ok = public_key_accepted(p.as_slice());
            let sig_ok = signature_accepted(s.as_slice());
            let verifies = if key_ok && sig_ok {
                let digest_hex = signing_digest(r);
                ed25519_verify(p.as_slice(), digest_hex.as_str().as_bytes(), s.as_slice())
            } else {
                false
            };
            signature_verdict(true, true, true, key_ok, sig_ok, verifies)
        },
        (None, _) => signature_verdict(true, false, false, false, false, false),
        (Some(_), None) => signature_verdict(true, true, false, false, false, false),
    }
}

/// The shape of the required member `key`, which is a record.
pub open spec fn nested(v: Json, key: Seq<char>, shape: spec_fn(Json) -> Option<Json>) -> Option<
    Json,
> {
    match member(v, key) {
        Some(j) => shape(j),
        None => None,
    }
}

/// The shape of the optional member `key`, which is a record: no record where
/// the member is missing or `null`; `None` where it is there and has not the
/// shape.
pub open spec fn nested_optional(
    v: Json,
    key: Seq<char>,
    shape: spec_fn(Json) -> Option<Json>,
) -> Option<Option<Json>> {
    match present_member(v, key) {
        None => Some(None),
        Some(j) => match shape(j) {
            Some(p) => Some(Some(p)),
            None => None,
        },
    }
}

/// The entries that the members of an object give: each member binds its key
/// to its string, a later member replacing an earlier one of the same key.
/// `None` where a member is no string.
pub open spec fn entries_of(members: Seq<(Seq<char>, Json)>) -> Option<Seq<(Seq<char>, Seq<char>)>>
    decreases members.len(),
{
    if members.len() == 0 {
        Some(Seq::empty())
    } else {
        match (entries_of(members.drop_last()), members.last().1) {
            (Some(before), Json::Text(t)) => Some(bind(before, members.last().0, t)),
            _ => None,
        }
    }
}

/// The shape of a map: an object whose members are all strings.
pub open spec fn map_shape(v: Json) -> Option<Json> {
    match v {
        Json::Object(members) => match entries_of(members) {
            Some(pairs) => Some(map_json(pairs)),
            None => None,
        },
        _ => None,
    }
}

/// Reads a map from an object whose members are all strings.
pub fn map_from_json(v: &Value) -> (r: Option<StringMap>)
    ensures
        r is Some == map_shape(v@) is Some,
        r is Some ==> map_json(r->0.pairs()) == map_shape(v@)->0 && r->0.wf(),
{
    match v {
        Value::Object(members) => {
            let ghost all = v@->Object_0;
            let mut map = StringMap::new();
            let mut i: usize = 0;
            proof {
                assert(all.take(0) =~= Seq::<(Seq<char>, Json)>::empty());
            }
            while i < members.len()
                invariant
                    i <= members.len(),
                    all.len() == members.len(),
                    forall|k: int|
                        0 <= k < members.len() ==> all[k] == ((#[trigger] members[k]).0@, members[k].1@),
                    v@ == Json::Object(all),
                    map.wf(),
                    entries_of(all.take(i as int)) == Some(map.pairs()),
                decreases members.len() - i,
            {
                proof {
                    assert(all.take(i + 1).drop_last() =~= all.take(i as int));
                    assert(all.take(i + 1).last() == all[i as int]);
                }
                match &members[i].1 {
                    Value::Text(t) => {
                        map.insert(members[i].0.clone(), t.clone());
                    },
                    _ => {
                        proof {
                            lemma_entries_prefix(all, i + 1);
                        }
                        return None;
                    },
                }
                i += 1;
            }
            proof {
                assert(all.take(i as int) =~= all);
            }
            Some(map)
        },
        _ => None,
    }
}

/// Where the first `n` members give no entries, all the members give none.
proof fn lemma_entries_prefix(members: Seq<(Seq<char>, Json)>, n: int)
    requires
        0 <= n <= members.len(),
        entries_of(members.take(n)) is None,
    ensures
        entries_of(members) is None,
    decreases members.len() - n,
{
    if n < members.len() {
        assert(members.take(n + 1).drop_last() =~= members.take(n));
        lemma_entries_prefix(members, n + 1);
    } else {
        assert(members.take(n) =~= members);
    }
}

impl Actor {
    /// What is read of a JSON value as an actor: an object with a string
    /// `id`.
    pub open spec fn shape(v: Json) -> Option<Json> {
        match text_member(v, "id"@) {
            Some(id) => Some(Json::Object(seq![("id"@, Json::Text(id))])),
            None => None,
        }
    }

    /// Reads the record from its JSON form.
    pub fn from_json(v: &Value) -> (r: Option<Actor>)
        ensures
            r is Some == Actor::shape(v@) is Some,
            r is Some ==> r->0.json() == Actor::shape(v@)->0,
    {
        match v.get_text("id") {
            Some(id) => Some(Actor { id }),
            None => None,
        }
    }
}

impl TsInfo {
    /// What is read of a JSON value as a build time: an object with a string
    /// `built`.
    pub open spec fn shape(v: Json) -> Option<Json> {
        match text_member(v, "built"@) {
            Some(built) => Some(Json::Object(seq![("built"@, Json::Text(built))])),
            None => None,
        }
    }

    /// Reads the record from its JSON form.
    pub fn from_json(v: &Value) -> (r: Option<TsInfo>)
        ensures
            r is Some == TsInfo::shape(v@) is Some,
            r is Some ==> r->0.json() == TsInfo::shape(v@)->0,
    {
        match v.get_text("built") {
            Some(built) => Some(TsInfo { built }),
            None => None,
        }
    }
}

impl ProvenanceRef {
    /// What is read of a JSON value as a provenance reference: an object with
    /// strings `path` and `digest`.
    pub open spec fn shape(v: Json) -> Option<Json> {
        match (text_member(v, "path"@), text_member(v, "digest"@)) {
            (Some(path), Some(digest)) => Some(
                Json::Object(seq![("path"@, Json::Text(path)), ("digest"@, Json::Text(digest))]),
            ),
            _ => None,
        }
    }

    /// Reads the record from its JSON form.
    pub fn from_json(v: &Value) -> (r: Option<ProvenanceRef>)
        ensures
            r is Some == ProvenanceRef::shape(v@) is Some,
            r is Some ==> r->0.json() == ProvenanceRef::shape(v@)->0,
    {
        match (v.get_text("path"), v.get_text("digest")) {
            (Some(path), Some(digest)) => Some(ProvenanceRef { path, digest }),
            _ => None,
        }
    }
}

/// What is read of an object with three optional strings.
pub open spec fn optional_triple(v: Json, a: Seq<char>, b: Seq<char>, c: Seq<char>) -> Option<Json> {
    match (
        v is Object,
        optional_text_member(v, a),
        optional_text_member(v, b),
        optional_text_member(v, c),
    ) {
        (true, Some(x), Some(y), Some(z)) => Some(
            Json::Object(seq![(a, text_or_null(x)), (b, text_or_null(y)), (c, text_or_null(z))]),
        ),
        _ => None,
    }
}

impl Build {
    /// What is read of a JSON value as a build: an object whose `repo`,
    /// `commit` and `ref` are each a string, `null` or missing.
    pub open spec fn shape(v: Json) -> Option<Json> {
        optional_triple(v, "repo"@, "commit"@, "ref"@)
    }

    /// Reads the record from its JSON form.
    pub fn from_json(v: &Value) -> (r: Option<Build>)
        ensures
            r is Some == Build::shape(v@) is Some,
            r is Some ==> r->0.json() == Build::shape(v@)->0,
    {
        if !v.is_object() {
            return None;
        }
        match (v.get_optional_text("repo"), v.get_optional_text("commit"), v.get_optional_text("ref")) {
            (Some(repo), Some(commit), Some(git_ref)) => {
                let b = Build { repo, commit, git_ref };
                proof {
                    assert(b.json()->Object_0 =~= Build::shape(v@)->0->Object_0);
                }
                Some(b)
            },
            _ => None,
        }
    }
}

impl CiInfo {
    /// What is read of a JSON value as a CI run: an object whose `name`,
    /// `url` and `runner` are each a string, `null` or missing.
    pub open spec fn shape(v: Json) -> Option<Json> {
        optional_triple(v, "name"@, "url"@, "runner"@)
    }

    /// Reads the record from its JSON form.
    pub fn from_json(v: &Value) -> (r: Option<CiInfo>)
        ensures
            r is Some == CiInfo::shape(v@) is Some,
            r is Some ==> r->0.json() == CiInfo::shape(v@)->0,
    {
        if !v.is_object() {
            return None;
        }
        match (v.get_optional_text("name"), v.get_optional_text("url"), v.get_optional_text("runner")) {
            (Some(name), Some(url), Some(runner)) => {
                let c = CiInfo { name, url, runner };
                proof {
                    assert(c.json()->Object_0 =~= CiInfo::shape(v@)->0->Object_0);
                }
                Some(c)
            },
            _ => None,
        }
    }
}

impl Sign {
    /// What is read of a JSON value as a signature block: an object with
    /// strings `pub` and `sig`, and `alg` a string, `null` or missing.
    pub open spec fn shape(v: Json) -> Option<Json> {
        match (text_member(v, "pub"@), text_member(v, "sig"@), optional_text_member(v, "alg"@)) {
            (Some(p), Some(s), Some(alg)) => Some(
                Json::Object(
                    seq![("pub"@, Json::Text(p)), ("sig"@, Json::Text(s))] + optional_member(
                        "alg"@,
                        match alg {
                            Some(a) => Some(Json::Text(a)),
                            None => None,
                        },
                    ),
                ),
            ),
            _ => None,
        }
    }

    /// Reads the record from its JSON form.
    pub fn from_json(v: &Value) -> (r: Option<Sign>)
        ensures
            r is Some == Sign::shape(v@) is Some,
            r is Some ==> r->0.json() == Sign::shape(v@)->0,
    {
        match (v.get_text("pub"), v.get_text("sig"), v.get_optional_text("alg")) {
            (Some(pub_), Some(signature), Some(alg)) => {
                let s = Sign { pub_, signature, alg };
                proof {
                    assert(s.json()->Object_0 =~= Sign::shape(v@)->0->Object_0);
                }
                Some(s)
            },
            _ => None,
        }
    }
}

impl Subject {
    /// What is read of a JSON value as a subject: an object with strings
    /// `kind` and `digest`; `meta` is kept where it is there and not `null`.
    pub open spec fn shape(v: Json) -> Option<Json> {
        match (text_member(v, "kind"@), text_member(v, "digest"@)) {
            (Some(kind), Some(digest)) => Some(
                Json::Object(
                    seq![("kind"@, Json::Text(kind)), ("digest"@, Json::Text(digest))]
                        + optional_member("meta"@, present_member(v, "meta"@)),
                ),
            ),
            _ => None,
        }
    }

    /// Reads the record from its JSON form.
    pub fn from_json(v: &Value) -> (r: Option<Subject>)
        ensures
            r is Some == Subject::shape(v@) is Some,
            r is Some ==> r->0.json() == Subject::shape(v@)->0,
    {
        match (v.get_text("kind"), v.get_text("digest")) {
            (Some(kind), Some(digest)) => {
                let meta = match v.get_present("meta") {
                    Some(m) => Some(m.clone()),
                    None => None,
                };
                let s = Subject { kind, digest, meta };
                proof {
                    assert(s.json()->Object_0 =~= Subject::shape(v@)->0->Object_0);
                }
                Some(s)
            },
            _ => None,
        }
    }
}

impl Provenance {
    /// What is read of a JSON value as a provenance record: an object with
    /// strings `artifact` and `artifact_hash` and records `actor`, `build`,
    /// `ci` and `ts`.
    pub open spec fn shape(v: Json) -> Option<Json> {
        match (
            text_member(v, "artifact"@),
            text_member(v, "artifact_hash"@),
            nested(v, "actor"@, |j: Json| Actor::shape(j)),
            nested(v, "build"@, |j: Json| Build::shape(j)),
            nested(v, "ci"@, |j: Json| CiInfo::shape(j)),
            nested(v, "ts"@, |j: Json| TsInfo::shape(j)),
        ) {
            (Some(artifact), Some(hash), Some(actor), Some(build), Some(ci), Some(ts)) => Some(
                Json::Object(
                    seq![
                        ("artifact"@, Json::Text(artifact)),
                        ("artifact_hash"@, Json::Text(hash)),
                        ("actor"@, actor),
                        ("build"@, build),
                        ("ci"@, ci),
                        ("ts"@, ts),
                    ],
                ),
            ),
            _ => None,
        }
    }

    /// Reads the record from its JSON form.
    pub fn from_json(v: &Value) -> (r: Option<Provenance>)
        ensures
            r is Some == Provenance::shape(v@) is Some,
            r is Some ==> r->0.json() == Provenance::shape(v@)->0,
    {
        let artifact = match v.get_text("artifact") {
            Some(x) => x,
            None => {
                return None;
            },
        };
        let artifact_hash = match v.get_text("artifact_hash") {
            Some(x) => x,
            None => {
                return None;
            },
        };
        let actor = match v.get("actor") {
            Some(j) => match Actor::from_json(j) {
                Some(x) => x,
                None => {
                    return None;
                },
            },
            None => {
                return None;
            },
        };
        let build = match v.get("build") {
            Some(j) => match Build::from_json(j) {
                Some(x) => x,
                None => {
                    return None;
                },
            },
            None => {
                return None;
            },
        };
        let ci = match v.get("ci") {
            Some(j) => match CiInfo::from_json(j) {
                Some(x) => x,
                None => {
                    return None;
                },
            },
            None => {
                return None;
            },
        };
        let ts = match v.get("ts") {
            Some(j) => match TsInfo::from_json(j) {
                Some(x) => x,
                None => {
                    return None;
                },
            },
            None => {
                return None;
            },
        };
        let p = Provenance { artifact, artifact_hash, actor, build, ci, ts };
        proof {
            assert(p.json()->Object_0 =~= Provenance::shape(v@)->0->Object_0);
        }
        Some(p)
    }
}

impl Receipt {
    /// What is read of a JSON value as a receipt: an object with records
    /// `actor` and `subject`, a map `env` and a string `ts`; `sign`,
    /// `provenance` and `provenance_ref` are each a record, `null` or missing.
    /// Members that a receipt does not have are left out.
    pub open spec fn shape(v: Json) -> Option<Json> {
        match (
            nested(v, "actor"@, |j: Json| Actor::shape(j)),
            nested(v, "env"@, |j: Json| map_shape(j)),
            text_member(v, "ts"@),
            nested(v, "subject"@, |j: Json| Subject::shape(j)),
            nested_optional(v, "sign"@, |j: Json| Sign::shape(j)),
            nested_optional(v, "provenance"@, |j: Json| Provenance::shape(j)),
            nested_optional(v, "provenance_ref"@, |j: Json| ProvenanceRef::shape(j)),
        ) {
            (Some(actor), Some(env), Some(ts), Some(subject), Some(sign), Some(prov), Some(rf)) => Some(
                Json::Object(
                    seq![
                        ("actor"@, actor),
                        ("env"@, env),
                        ("ts"@, Json::Text(ts)),
                        ("subject"@, subject),
                    ] + seq![
                        (
                            "sign"@,
                            match sign {
                                Some(s) => s,
                                None => Json::Null,
                            },
                        ),
                    ] + (optional_member("provenance"@, prov) + optional_member(
                        "provenance_ref"@,
                        rf,
                    )),
                ),
            ),
            _ => None,
        }
    }

    /// Reads a receipt from its JSON form.
    pub fn from_json(v: &Value) -> (r: Option<Receipt>)
        ensures
            r is Some == Receipt::shape(v@) is Some,
            r is Some ==> r->0.json() == Receipt::shape(v@)->0 && r->0.env.wf(),
    {
        let actor = match v.get("actor") {
            Some(j) => match Actor::from_json(j) {
                Some(x) => x,
                None => {
                    return None;
                },
            },
            None => {
                return None;
            },
        };
        let env = match v.get("env") {
            Some(j) => match map_from_json(j) {
                Some(x) => x,
                None => {
                    return None;
                },
            },
            None => {
                return None;
            },
        };
        let ts = match v.get_text("ts") {
            Some(x) => x,
            None => {
                return None;
            },
        };
        let subject = match v.get("subject") {
            Some(j) => match Subject::from_json(j) {
                Some(x) => x,
                None => {
                    return None;
                },
            },
            None => {
                return None;
            },
        };
        let sign = match v.get_present("sign") {
            Some(j) => match Sign::from_json(j) {
                Some(x) => Some(x),
                None => {
                    return None;
                },
            },
            None => None,
        };
        let provenance = match v.get_present("provenance") {
            Some(j) => match Provenance::from_json(j) {
                Some(x) => Some(x),
                None => {
                    return None;
                },
            },
            None => None,
        };
        let provenance_ref = match v.get_present("provenance_ref") {
            Some(j) => match ProvenanceRef::from_json(j) {
                Some(x) => Some(x),
                None => {
                    return None;
                },
            },
            None => None,
        };
        let r = Receipt { actor, env, ts, subject, sign, provenance, provenance_ref };
        proof {
            assert(r.json()->Object_0 =~= Receipt::shape(v@)->0->Object_0);
        }
        Some(r)
    }
}

/// The first of two values that is there.
pub open spec fn or(a: Option<Seq<char>>, b: Option<Seq<char>>) -> Option<Seq<char>> {
    if a is Some {
        a
    } else {
        b
    }
}

/// The repository that the environment names: the first of what GitHub,
/// GitLab, CircleCI and Buildkite told.
pub open spec fn repo_of(env: StringMap) -> Option<Seq<char>> {
    or(
        env.spec_get("github_repository"@),
        or(
            env.spec_get("gitlab_project"@),
            or(env.spec_get("circle_project"@), env.spec_get("buildkite_pipeline"@)),
        ),
    )
}

/// The commit that the environment names: the generic entry first, then what
/// GitHub, GitLab, CircleCI and Buildkite told.
pub open spec fn commit_of(env: StringMap) -> Option<Seq<char>> {
    or(
        env.spec_get("git_commit"@),
        or(
            env.spec_get("github_sha"@),
            or(
                env.spec_get("gitlab_sha"@),
                or(env.spec_get("circle_sha"@), env.spec_get("buildkite_commit"@)),
            ),
        ),
    )
}

/// A copy of the entry `key`, if there is one.
fn entry(env: &StringMap, key: &str) -> (r: Option<String>)
    ensures
        text_view(r) == env.spec_get(key@),
{
    match env.get(key) {
        Some(v) => Some(v.clone()),
        None => None,
    }
}

/// The first of two values that is there.
fn first_of(a: Option<String>, b: Option<String>) -> (r: Option<String>)
    ensures
        text_view(r) == or(text_view(a), text_view(b)),
{
    match a {
        Some(x) => Some(x),
        None => b,
    }
}

/// A new receipt, not signed yet: who did it, where, when, and about what.
pub fn build_receipt(actor_id: String, env: StringMap, ts: String, subject: Subject) -> (r: Receipt)
    ensures
        r.actor.id == actor_id,
        r.env == env,
        r.ts == ts,
        r.subject == subject,
        r.sign is None,
        r.provenance is None,
        r.provenance_ref is None,
{
    Receipt {
        actor: Actor { id: actor_id },
        env,
        ts,
        subject,
        sign: None,
        provenance: None,
        provenance_ref: None,
    }
}

/// The provenance record of an artifact, from what the environment names: the
/// repository and the commit by their precedence, the reference, and the CI
/// run.
pub fn build_provenance(
    artifact_path: &str,
    artifact_hash_hex: &str,
    actor: &Actor,
    env: &StringMap,
    built: String,
) -> (p: Provenance)
    ensures
        p.artifact@ == artifact_path@,
        p.artifact_hash@ == artifact_hash_hex@,
        p.actor.id@ == actor.id@,
        text_view(p.build.repo) == repo_of(*env),
        text_view(p.build.commit) == commit_of(*env),
        text_view(p.build.git_ref) == env.spec_get("git_ref"@),
        text_view(p.ci.name) == or(env.spec_get("ci"@), env.spec_get("ci_name"@)),
        text_view(p.ci.url) == env.spec_get("ci_url"@),
        text_view(p.ci.runner) == env.spec_get("runner"@),
        p.ts.built == built,
{
    let repo = first_of(
        entry(env, "github_repository"),
        first_of(
            entry(env, "gitlab_project"),
            first_of(entry(env, "circle_project"), entry(env, "buildkite_pipeline")),
        ),
    );
    let commit = first_of(
        entry(env, "git_commit"),
        first_of(
            entry(env, "github_sha"),
            first_of(
                entry(env, "gitlab_sha"),
                first_of(entry(env, "circle_sha"), entry(env, "buildkite_commit")),
            ),
        ),
    );
    let git_ref = entry(env, "git_ref");
    let ci = CiInfo {
        name: first_of(entry(env, "ci"), entry(env, "ci_name")),
        url: entry(env, "ci_url"),
        runner: entry(env, "runner"),
    };
    Provenance {
        artifact: artifact_path.to_owned(),
        artifact_hash: artifact_hash_hex.to_owned(),
        actor: Actor { id: actor.id.clone() },
        build: Build { repo, commit, git_ref },
        ci,
        ts: TsInfo { built },
    }
}

/// The canonical bytes of `v`: its canonical text in UTF-8. They do not
/// depend on the order in which the members of its objects were written.
pub fn canonical_json_bytes(v: &Value) -> (bytes: Vec<u8>)
    ensures
        bytes@ == encode_utf8(canonical_text(v@)),
{
    let text = canonical_string(v);
    slice_to_vec(text.as_str().as_bytes())
}

/// The entries of a map with distinct keys are read back from their string
/// members.
proof fn lemma_entries_read_back(pairs: Seq<(Seq<char>, Seq<char>)>)
    requires
        keys_distinct(pairs),
    ensures
        entries_of(text_members(pairs)) == Some(pairs),
    decreases pairs.len(),
{
    let members = text_members(pairs);
    if pairs.len() == 0 {
        assert(pairs =~= Seq::empty());
    } else {
        let rest = pairs.drop_last();
        assert forall|a: int, b: int| 0 <= a < b < rest.len() implies (#[trigger] rest[a]).0 != (
        #[trigger] rest[b]).0 by {
            assert(rest[a] == pairs[a] && rest[b] == pairs[b]);
        }
        lemma_entries_read_back(rest);
        assert(members.drop_last() =~= text_members(rest));
        assert(members.last() == (pairs.last().0, Json::Text(pairs.last().1)));
        assert forall|i: int| 0 <= i < rest.len() implies (#[trigger] rest[i]).0
            != pairs.last().0 by {
            assert(rest[i] == pairs[i]);
            assert(pairs[i].0 != pairs[pairs.len() - 1].0);
        }
        lemma_bind_fresh(rest, pairs.last().0, pairs.last().1);
        assert(rest.push(pairs.last()) =~= pairs);
    }
}

/// The JSON object of a map does not depend on the order in which its
/// entries were made: maps with distinct keys that hold the same entries have
/// the same object.
pub proof fn lemma_map_json_ignores_order(
    a: Seq<(Seq<char>, Seq<char>)>,
    b: Seq<(Seq<char>, Seq<char>)>,
)
    requires
        keys_distinct(a),
        keys_distinct(b),
        forall|p: (Seq<char>, Seq<char>)| a.contains(p) <==> b.contains(p),
    ensures
        map_json(a) == map_json(b),
{
    let x = text_members(a);
    let y = text_members(b);
    assert forall|i: int, j: int| 0 <= i < j < x.len() implies (#[trigger] x[i]).0 != (
    #[trigger] x[j]).0 by {
        assert(a[i].0 != a[j].0);
    }
    assert forall|i: int, j: int| 0 <= i < j < y.len() implies (#[trigger] y[i]).0 != (
    #[trigger] y[j]).0 by {
        assert(b[i].0 != b[j].0);
    }
    assert forall|m: (Seq<char>, Json)| x.contains(m) implies y.contains(m) by {
        let i = choose|i: int| 0 <= i < x.len() && x[i] == m;
        assert(a.contains(a[i]));
        let j = choose|j: int| 0 <= j < b.len() && b[j] == a[i];
        assert(y[j] == m);
    }
    assert forall|m: (Seq<char>, Json)| y.contains(m) implies x.contains(m) by {
        let j = choose|j: int| 0 <= j < y.len() && y[j] == m;
        assert(b.contains(b[j]));
        let i = choose|i: int| 0 <= i < a.len() && a[i] == b[j];
        assert(x[i] == m);
    }
    lemma_sort_members(x);
    lemma_sort_members(y);
    assert forall|m: (Seq<char>, Json)|
        sort_members(x).contains(m) <==> sort_members(y).contains(m) by {
        assert(sort_members(x).contains(m) <==> x.contains(m));
        assert(sort_members(y).contains(m) <==> y.contains(m));
    }
    lemma_ascending_members_equal(sort_members(x), sort_members(y));
}

/// The JSON object of a map with distinct keys is read back as it was
/// written.
pub proof fn lemma_map_read_back(pairs: Seq<(Seq<char>, Seq<char>)>)
    requires
        keys_distinct(pairs),
    ensures
        map_shape(map_json(pairs)) == Some(map_json(pairs)),
{
    let written = text_members(pairs);
    assert(distinct_keys(written)) by {
        assert forall|i: int, j: int| 0 <= i < j < written.len() implies (#[trigger] written[i]).0
            != (#[trigger] written[j]).0 by {
            assert(pairs[i].0 != pairs[j].0);
        }
    }
    lemma_sort_members(written);
    let m = sort_members(written);
    assert forall|i: int| 0 <= i < m.len() implies (#[trigger] m[i]).1 is Text by {
        assert(m.contains(m[i]));
        assert(written.contains(m[i]));
        let j = choose|j: int| 0 <= j < written.len() && written[j] == m[i];
        assert(written[j].1 is Text);
    }
    let read = Seq::new(m.len(), |i: int| (m[i].0, m[i].1->Text_0));
    assert(text_members(read) =~= m);
    assert(keys_distinct(read)) by {
        assert forall|i: int, j: int| 0 <= i < j < read.len() implies (#[trigger] read[i]).0 != (
        #[trigger] read[j]).0 by {
            assert(m[i].0 != m[j].0);
        }
    }
    lemma_entries_read_back(read);
    lemma_sort_members(m);
    lemma_ascending_members_equal(sort_members(m), m);
}

/// An optional string that was written as a string or as `null` is read
/// back.
proof fn lemma_optional_text_read_back(
    members: Seq<(Seq<char>, Json)>,
    key: Seq<char>,
    i: int,
    value: Option<Seq<char>>,
)
    requires
        0 <= i < members.len(),
        members[i] == (key, text_or_null(value)),
        forall|k: int| 0 <= k < i ==> (#[trigger] members[k]).0 != key,
    ensures
        optional_text_member(Json::Object(members), key) == Some(value),
{
    lemma_lookup_at(members, key, i);
}

/// Each record is read back from its JSON form as it was written.
pub proof fn lemma_small_records_read_back(
    actor: Actor,
    ts: TsInfo,
    reference: ProvenanceRef,
    build: Build,
    ci: CiInfo,
    sign: Sign,
)
    ensures
        Actor::shape(actor.json()) == Some(actor.json()),
        TsInfo::shape(ts.json()) == Some(ts.json()),
        ProvenanceRef::shape(reference.json()) == Some(reference.json()),
        Build::shape(build.json()) == Some(build.json()),
        CiInfo::shape(ci.json()) == Some(ci.json()),
        Sign::shape(sign.json()) == Some(sign.json()),
{
    reveal_strlit("id");
    reveal_strlit("built");
    reveal_strlit("path");
    reveal_strlit("digest");
    reveal_strlit("repo");
    reveal_strlit("commit");
    reveal_strlit("ref");
    reveal_strlit("name");
    reveal_strlit("url");
    reveal_strlit("runner");
    reveal_strlit("pub");
    reveal_strlit("sig");
    reveal_strlit("alg");
    lemma_lookup_at(actor.json()->Object_0, "id"@, 0);
    lemma_lookup_at(ts.json()->Object_0, "built"@, 0);
    assert("path"@.len() == 4 && "digest"@.len() == 6);
    lemma_lookup_at(reference.json()->Object_0, "path"@, 0);
    lemma_lookup_at(reference.json()->Object_0, "digest"@, 1);
    assert(ProvenanceRef::shape(reference.json())->0->Object_0 =~= reference.json()->Object_0);
    assert("repo"@.len() == 4 && "commit"@.len() == 6 && "ref"@.len() == 3);
    let b = build.json()->Object_0;
    lemma_optional_text_read_back(b, "repo"@, 0, text_view(build.repo));
    lemma_optional_text_read_back(b, "commit"@, 1, text_view(build.commit));
    lemma_optional_text_read_back(b, "ref"@, 2, text_view(build.git_ref));
    assert(Build::shape(build.json())->0->Object_0 =~= b);
    assert("name"@.len() == 4 && "url"@.len() == 3 && "runner"@.len() == 6);
    let c = ci.json()->Object_0;
    lemma_optional_text_read_back(c, "name"@, 0, text_view(ci.name));
    lemma_optional_text_read_back(c, "url"@, 1, text_view(ci.url));
    lemma_optional_text_read_back(c, "runner"@, 2, text_view(ci.runner));
    assert(CiInfo::shape(ci.json())->0->Object_0 =~= c);
    assert("pub"@[0] == 'p' && "sig"@[0] == 's' && "alg"@[0] == 'a');
    let g = sign.json()->Object_0;
    lemma_lookup_at(g, "pub"@, 0);
    lemma_lookup_at(g, "sig"@, 1);
    match sign.alg {
        Some(a) => {
            assert(g[2] == ("alg"@, Json::Text(a@)));
            lemma_lookup_at(g, "alg"@, 2);
        },
        None => {
            assert(g.len() == 2);
            lemma_lookup_absent(g, "alg"@);
        },
    }
    assert(Sign::shape(sign.json())->0->Object_0 =~= g);
}

/// A subject whose `meta`, if it has one, is not `null` is read back from its
/// JSON form as it was written.
pub proof fn lemma_subject_read_back(subject: Subject)
    requires
        subject.meta is Some ==> subject.meta->0@ != Json::Null,
    ensures
        Subject::shape(subject.json()) == Some(subject.json()),
{
    reveal_strlit("kind");
    reveal_strlit("digest");
    reveal_strlit("meta");
    assert("kind"@.len() == 4 && "digest"@.len() == 6 && "meta"@.len() == 4);
    assert("kind"@[0] == 'k' && "meta"@[0] == 'm');
    let m = subject.json()->Object_0;
    lemma_lookup_at(m, "kind"@, 0);
    lemma_lookup_at(m, "digest"@, 1);
    match subject.meta {
        Some(meta) => {
            assert(m[2] == ("meta"@, meta@));
            lemma_lookup_at(m, "meta"@, 2);
        },
        None => {
            assert(m.len() == 2);
            lemma_lookup_absent(m, "meta"@);
        },
    }
    assert(Subject::shape(subject.json())->0->Object_0 =~= m);
}

/// A provenance record is read back from its JSON form as it was written.
pub proof fn lemma_provenance_read_back(p: Provenance)
    ensures
        Provenance::shape(p.json()) == Some(p.json()),
{
    reveal_strlit("artifact");
    reveal_strlit("artifact_hash");
    reveal_strlit("actor");
    reveal_strlit("build");
    reveal_strlit("ci");
    reveal_strlit("ts");
    assert("artifact"@.len() == 8 && "artifact_hash"@.len() == 13 && "actor"@.len() == 5
        && "build"@.len() == 5 && "ci"@.len() == 2 && "ts"@.len() == 2);
    assert("actor"@[0] == 'a' && "build"@[0] == 'b' && "ci"@[0] == 'c' && "ts"@[0] == 't');
    let m = p.json()->Object_0;
    lemma_lookup_at(m, "artifact"@, 0);
    lemma_lookup_at(m, "artifact_hash"@, 1);
    lemma_lookup_at(m, "actor"@, 2);
    lemma_lookup_at(m, "build"@, 3);
    lemma_lookup_at(m, "ci"@, 4);
    lemma_lookup_at(m, "ts"@, 5);
    lemma_small_records_read_back(
        p.actor,
        p.ts,
        ProvenanceRef { path: p.artifact, digest: p.artifact },
        p.build,
        p.ci,
        Sign { pub_: p.artifact, signature: p.artifact, alg: None },
    );
    assert(Provenance::shape(p.json())->0->Object_0 =~= m);
}

/// A receipt is read back from its JSON form as it was written, where the
/// keys of its environment are distinct and its subject's `meta`, if it has
/// one, is not `null`. So what `sign_receipt` returns is a receipt that the
/// gateway reads, and whose signature it accepts.
pub proof fn lemma_receipt_read_back(r: Receipt)
    requires
        r.env.wf(),
        r.subject.meta is Some ==> r.subject.meta->0@ != Json::Null,
    ensures
        Receipt::shape(r.json()) == Some(r.json()),
{
    reveal_strlit("actor");
    reveal_strlit("env");
    reveal_strlit("ts");
    reveal_strlit("subject");
    reveal_strlit("sign");
    reveal_strlit("provenance");
    reveal_strlit("provenance_ref");
    assert("actor"@.len() == 5 && "env"@.len() == 3 && "ts"@.len() == 2 && "subject"@.len() == 7
        && "sign"@.len() == 4 && "provenance"@.len() == 10 && "provenance_ref"@.len() == 14);
    let m = r.json()->Object_0;
    let lead = r.leading_members();
    let trail = r.trailing_members();
    assert(m == lead + seq![("sign"@, r.sign_json())] + trail);
    assert(m[0] == lead[0] && m[1] == lead[1] && m[2] == lead[2] && m[3] == lead[3]);
    assert(m[4] == ("sign"@, r.sign_json()));
    lemma_lookup_at(m, "actor"@, 0);
    lemma_lookup_at(m, "env"@, 1);
    lemma_lookup_at(m, "ts"@, 2);
    lemma_lookup_at(m, "subject"@, 3);
    lemma_lookup_at(m, "sign"@, 4);
    lemma_map_read_back(r.env.pairs());
    lemma_subject_read_back(r.subject);
    let filler = ProvenanceRef { path: r.ts, digest: r.ts };
    let block = match r.sign {
        Some(s) => s,
        None => Sign { pub_: r.ts, signature: r.ts, alg: None },
    };
    let reference = match r.provenance_ref {
        Some(p) => p,
        None => filler,
    };
    lemma_small_records_read_back(
        r.actor,
        TsInfo { built: r.ts },
        reference,
        Build { repo: None, commit: None, git_ref: None },
        CiInfo { name: None, url: None, runner: None },
        block,
    );
    match r.provenance {
        Some(p) => {
            lemma_provenance_read_back(p);
            assert(m[5] == ("provenance"@, p.json()));
            lemma_lookup_at(m, "provenance"@, 5);
            match r.provenance_ref {
                Some(f) => {
                    assert(m[6] == ("provenance_ref"@, f.json()));
                    lemma_lookup_at(m, "provenance_ref"@, 6);
                },
                None => {
                    assert(m.len() == 6);
                    lemma_lookup_absent(m, "provenance_ref"@);
                },
            }
        },
        None => {
            match r.provenance_ref {
                Some(f) => {
                    assert(m[5] == ("provenance_ref"@, f.json()));
                    assert(m.len() == 6);
                    lemma_lookup_absent(m, "provenance"@);
                    lemma_lookup_at(m, "provenance_ref"@, 5);
                },
                None => {
                    assert(m.len() == 5);
                    lemma_lookup_absent(m, "provenance"@);
                    lemma_lookup_absent(m, "provenance_ref"@);
                },
            }
        },
    }
    assert(Receipt::shape(r.json())->0->Object_0 =~= m);
}

} // verus!
