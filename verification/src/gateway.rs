//! The ingestion gateway: what a peer hands in is checked step by step, the
//! cheapest check first, and stored only when every check has passed.
//!
//! The steps: both documents are present; each satisfies its schema; the
//! receipt reads as a receipt; its actor is allowed; its signature verifies.
//! Then receipt and provenance are stored, and the fold over all stored
//! receipts is computed anew.

use crate::digest::{digest_hex, is_hex};
use crate::json::{
    canonical_string, canonical_text, lemma_lookup_at, member, text_member, text_of, Json,
    Value,
};
use crate::ledger::{entry_views, file_name_of, listing, receipt_names, Ledger};
use crate::receipt::{
    lemma_receipt_members, lemma_receipt_read_back, signature_outcome, verify_receipt, Receipt,
    SignatureError,
};
use crate::schema::{is_provenance, is_receipt, validate_provenance, validate_receipt};
use crate::strmap::{bind, value_of};
use crate::sync::policy::PeerGuard;
use crate::sync::{fold_of, merkle_root};
use crate::text::{sort_strings, sorted, str_eq, views};
use vstd::prelude::*;
use vstd::string::StringExecFns;
use vstd::string::StringSliceAdditionalSpecFns;
use vstd::utf8::encode_utf8;

verus! {

/// The class of a failure, as the peer sees it.
#[derive(Debug, Clone, Copy, PartialEq, Eq, Structural)]
pub enum Status {
    /// The input is malformed.
    BadRequest,
    /// The actor is not allowed.
    Forbidden,
    /// Nothing is stored under that digest.
    NotFound,
    /// The deadline passed.
    RequestTimeout,
    /// The signature was not accepted.
    Unprocessable,
    /// The store failed.
    InternalError,
}

impl Status {
    /// The HTTP status code of the class.
    pub open spec fn spec_code(&self) -> u16 {
        match self {
            Status::BadRequest => 400u16,
            Status::Forbidden => 403u16,
            Status::NotFound => 404u16,
            Status::RequestTimeout => 408u16,
            Status::Unprocessable => 422u16,
            Status::InternalError => 500u16,
        }
    }

    /// The HTTP status code of the class.
    pub fn code(&self) -> (c: u16)
        ensures
            c == self.spec_code(),
    {
        match self {
            Status::BadRequest => 400,
            Status::Forbidden => 403,
            Status::NotFound => 404,
            Status::RequestTimeout => 408,
            Status::Unprocessable => 422,
            Status::InternalError => 500,
        }
    }
}

/// The check that a bundle failed.
#[derive(Debug, Clone, Copy, PartialEq, Eq, Structural)]
pub enum Reason {
    /// The bundle has no `receipt`.
    MissingReceipt,
    /// The bundle has no `provenance`.
    MissingProvenance,
    /// The receipt does not satisfy its schema.
    ReceiptSchema,
    /// The provenance record does not satisfy its schema.
    ProvenanceSchema,
    /// The receipt satisfies the schema and still does not read as a receipt.
    MalformedReceipt,
    /// The actor of the receipt is not on the allow-list.
    ActorNotAllowed,
    /// The signature of the receipt was not accepted.
    Signature(SignatureError),
    /// Nothing is stored under the digest that was asked for.
    NotStored,
}

impl Reason {
    /// The class of the failure.
    pub open spec fn status(&self) -> Status {
        match self {
            Reason::ActorNotAllowed => Status::Forbidden,
            Reason::Signature(_) => Status::Unprocessable,
            Reason::NotStored => Status::NotFound,
            _ => Status::BadRequest,
        }
    }
}

/// A bundle that was turned away.
#[derive(Debug)]
pub struct Rejection {
    pub status: Status,
    pub reason: Reason,
    pub message: String,
}

/// A bundle that was taken in: the digest under which the receipt is stored,
/// and the fold over all receipts stored now.
#[derive(Debug)]
pub struct Verified {
    pub status: String,
    pub receipt_digest: String,
    pub merkle_root: String,
}

/// The actor named in the JSON form of a receipt.
pub open spec fn actor_of(receipt: Json) -> Seq<char> {
    match member(receipt, "actor"@) {
        Some(actor) => match text_member(actor, "id"@) {
            Some(id) => id,
            None => Seq::empty(),
        },
        None => Seq::empty(),
    }
}

/// Whether a bundle is taken in, and if not, the first check that it fails.
pub open spec fn admission(body: Json, guard: PeerGuard) -> Result<(), Reason> {
    match (member(body, "receipt"@), member(body, "provenance"@)) {
        (None, _) => Err(Reason::MissingReceipt),
        (Some(_), None) => Err(Reason::MissingProvenance),
        (Some(r), Some(p)) => if !is_receipt(encode_utf8(text_of(r))) {
            Err(Reason::ReceiptSchema)
        } else if !is_provenance(encode_utf8(text_of(p))) {
            Err(Reason::ProvenanceSchema)
        } else {
            match Receipt::shape(r) {
                None => Err(Reason::MalformedReceipt),
                Some(receipt) => if !guard.permits(actor_of(receipt)) {
                    Err(Reason::ActorNotAllowed)
                } else {
                    match signature_outcome(receipt) {
                        Err(e) => Err(Reason::Signature(e)),
                        Ok(_) => Ok(()),
                    }
                },
            }
        },
    }
}

/// What is stored of a document: its canonical text in UTF-8.
pub open spec fn stored_bytes(v: Json) -> Seq<u8> {
    encode_utf8(canonical_text(v))
}

/// The files of the ledger after a bundle was taken in: the receipt and then
/// the provenance record, each stored in the file named by its digest.
pub open spec fn after_ingest(
    files: Seq<(Seq<char>, Seq<u8>)>,
    receipt: Json,
    provenance: Json,
) -> Seq<(Seq<char>, Seq<u8>)> {
    bind(
        bind(files, file_name_of(digest_hex(stored_bytes(receipt))), stored_bytes(receipt)),
        file_name_of(digest_hex(stored_bytes(provenance))),
        stored_bytes(provenance),
    )
}

/// The fold over the receipts of a ledger: over the names of the listed
/// entries of kind `receipt`, sorted.
pub open spec fn ledger_root(files: Seq<(Seq<char>, Seq<u8>)>) -> Seq<char> {
    fold_of(sorted(receipt_names(listing(files))))
}

/// What a rejection says: fixed words, but for a schema violation, which
/// names the kind of document and goes on in the validator's words.
pub open spec fn message_fits(reason: Reason, actor: Seq<char>, message: Seq<char>) -> bool {
    match reason {
        Reason::MissingReceipt => message == "missing receipt"@,
        Reason::MissingProvenance => message == "missing provenance"@,
        Reason::ReceiptSchema => "receipt schema violation: "@.is_prefix_of(message)
            || "invalid receipt schema: "@.is_prefix_of(message),
        Reason::ProvenanceSchema => "provenance schema violation: "@.is_prefix_of(message)
            || "invalid provenance schema: "@.is_prefix_of(message),
        Reason::MalformedReceipt => message == "malformed receipt"@,
        Reason::ActorNotAllowed => message == "actor not allowed: "@ + actor,
        Reason::Signature(e) => message == e.text(),
        Reason::NotStored => message == "not found"@,
    }
}

/// A bundle of a signed receipt and its provenance record is taken in: where
/// both documents satisfy their schemas, the actor is allowed and the
/// signature of the receipt is accepted, no check fails. The keys of the
/// receipt's environment are distinct, and its subject's `meta`, if it has
/// one, is not `null`.
pub proof fn lemma_signed_bundle_is_admitted(r: Receipt, provenance: Json, guard: PeerGuard)
    requires
        r.env.wf(),
        r.subject.meta is Some ==> r.subject.meta->0@ != Json::Null,
        signature_outcome(r.json()) is Ok,
        guard.permits(r.actor.id@),
        is_receipt(encode_utf8(text_of(r.json()))),
        is_provenance(encode_utf8(text_of(provenance))),
    ensures
        admission(
            Json::Object(seq![("receipt"@, r.json()), ("provenance"@, provenance)]),
            guard,
        ) == Ok::<(), Reason>(()),
{
    reveal_strlit("receipt");
    reveal_strlit("provenance");
    assert("receipt"@.len() == 7 && "provenance"@.len() == 10);
    let members = seq![("receipt"@, r.json()), ("provenance"@, provenance)];
    lemma_lookup_at(members, "receipt"@, 0);
    lemma_lookup_at(members, "provenance"@, 1);
    lemma_receipt_read_back(r);
    lemma_receipt_members(r);
}

/// The liveness marker.
pub fn health() -> (marker: &'static str)
    ensures
        marker@ == "ok"@,
{
    "ok"
}

/// The bytes stored under `digest`, or a rejection of class not-found.
pub fn get_receipt(ledger: &Ledger, digest: &str) -> (r: Result<Vec<u8>, Rejection>)
    ensures
        match value_of(ledger.files(), file_name_of(digest@)) {
            Some(bytes) => r is Ok && r->Ok_0@ == bytes,
            None => r is Err && r->Err_0.status == Status::NotFound && r->Err_0.reason
                == Reason::NotStored && r->Err_0.message@ == "not found"@,
        },
{
    match ledger.get_json(digest) {
        Ok(bytes) => Ok(bytes),
        Err(_) => Err(reject(Reason::NotStored, "not found".to_owned())),
    }
}

/// The fold over the receipts that `ledger` holds now: a digest of 64
/// hexadecimal digits.
pub fn current_root(ledger: &Ledger) -> (root: String)
    ensures
        root@ == ledger_root(ledger.files()),
        is_hex(root@),
        root@.len() == 64,
{
    let listed = ledger.list();
    let ghost all = entry_views(listed@);
    let mut digests: Vec<String> = Vec::new();
    let mut i: usize = 0;
    proof {
        assert(all.take(0) =~= Seq::<(Seq<char>, Seq<char>)>::empty());
        assert(views(digests@) =~= receipt_names(all.take(0)));
    }
    while i < listed.len()
        invariant
            i <= listed.len(),
            all == entry_views(listed@),
            views(digests@) == receipt_names(all.take(i as int)),
        decreases listed.len() - i,
    {
        let ghost before = views(digests@);
        proof {
            assert(all.take(i + 1).drop_last() =~= all.take(i as int));
            assert(all.take(i + 1).last() == all[i as int]);
        }
        if str_eq(listed[i].kind.as_str(), "receipt") {
            digests.push(listed[i].digest.clone());
            proof {
                assert(views(digests@) =~= before.push(all[i as int].1));
            }
        }
        i += 1;
    }
    proof {
        assert(all.take(i as int) =~= all);
    }
    let ordered = sort_strings(&digests);
    merkle_root(ordered.as_slice())
}

/// A rejection for `reason`.
fn reject(reason: Reason, message: String) -> (r: Rejection)
    ensures
        r.reason == reason,
        r.status == reason.status(),
        r.message == message,
{
    let status = match reason {
        Reason::ActorNotAllowed => Status::Forbidden,
        Reason::Signature(_) => Status::Unprocessable,
        Reason::NotStored => Status::NotFound,
        _ => Status::BadRequest,
    };
    Rejection { status, reason, message }
}

/// Takes in the bundle `body`, an object with a `receipt` and a `provenance`:
/// runs the checks in their order and stops at the first that fails; where all
/// pass, stores both documents and reports the receipt's digest and the fold
/// over all receipts stored now. A bundle that is turned away leaves the
/// ledger as it was.
pub fn verify_bundle(body: &Value, guard: &PeerGuard, ledger: &mut Ledger) -> (out: Result<
    Verified,
    Rejection,
>)
    ensures
        match admission(body@, *guard) {
            Err(reason) => {
                &&& out is Err
                &&& out->Err_0.reason == reason
                &&& out->Err_0.status == reason.status()
                &&& message_fits(
                    reason,
                    actor_of(Receipt::shape(member(body@, "receipt"@)->0)->0),
                    out->Err_0.message@,
                )
                &&& final(ledger).files() == old(ledger).files()
            },
            Ok(_) => {
                &&& out is Ok
                &&& out->Ok_0.status@ == "verified"@
                &&& out->Ok_0.receipt_digest@ == digest_hex(
                    stored_bytes(member(body@, "receipt"@)->0),
                )
                &&& is_hex(out->Ok_0.receipt_digest@) && out->Ok_0.receipt_digest@.len() == 64
                &&& final(ledger).files() == after_ingest(
                    old(ledger).files(),
                    member(body@, "receipt"@)->0,
                    member(body@, "provenance"@)->0,
                )
                &&& out->Ok_0.merkle_root@ == ledger_root(final(ledger).files())
                &&& is_hex(out->Ok_0.merkle_root@) && out->Ok_0.merkle_root@.len() == 64
            },
        },
        old(ledger).wf() ==> final(ledger).wf(),
{
    let r_val = match body.get("receipt") {
        Some(v) => v,
        None => {
            return Err(reject(Reason::MissingReceipt, "missing receipt".to_owned()));
        },
    };
    let p_val = match body.get("provenance") {
        Some(v) => v,
        None => {
            return Err(reject(Reason::MissingProvenance, "missing provenance".to_owned()));
        },
    };
    match validate_receipt(r_val) {
        Err(e) => {
            return Err(reject(Reason::ReceiptSchema, e.to_string()));
        },
        Ok(_) => {},
    }
    match validate_provenance(p_val) {
        Err(e) => {
            return Err(reject(Reason::ProvenanceSchema, e.to_string()));
        },
        Ok(_) => {},
    }
    let rcpt = match Receipt::from_json(r_val) {
        Some(r) => r,
        None => {
            return Err(reject(Reason::MalformedReceipt, "malformed receipt".to_owned()));
        },
    };
    proof {
        lemma_receipt_members(rcpt);
    }
    if !guard.allowed(rcpt.actor.id.as_str()) {
        let mut message = "actor not allowed: ".to_owned();
        message.append(rcpt.actor.id.as_str());
        return Err(reject(Reason::ActorNotAllowed, message));
    }
    match verify_receipt(&rcpt) {
        Err(e) => {
            return Err(reject(Reason::Signature(e), e.to_string()));
        },
        Ok(_) => {},
    }
    let commit = match rcpt.env.get("git_commit") {
        Some(c) => Some(c.clone()),
        None => None,
    };
    let git_ref = match rcpt.env.get("git_ref") {
        Some(c) => Some(c.clone()),
        None => None,
    };
    let r_text = canonical_string(r_val);
    let p_text = canonical_string(p_val);
    let receipt_digest = ledger.add_json("receipt", r_text.as_str().as_bytes(), commit, git_ref);
    let _prov_digest = ledger.add_json("provenance", p_text.as_str().as_bytes(), None, None);
    let merkle = current_root(ledger);
    Ok(Verified { status: "verified".to_owned(), receipt_digest, merkle_root: merkle })
}

} // verus!
