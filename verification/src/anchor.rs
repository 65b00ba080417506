//! Operation receipts and their anchoring in daily Merkle batches: a receipt
//! is emitted before an operation and finalized after it; the receipts of a
//! day are sealed into one root; a receipt is anchored by the path from its
//! leaf to that root; and anyone can verify an anchored receipt against the
//! published root.
//!
//! The leaf of a receipt is the digest of its canonical JSON form without the
//! members `leaf` and `merkle`. It is always computed again and compared,
//! never taken as given.

use crate::digest::{all_hex, all_hex_strings, blake3_hex, digest_hex, is_hex};
use crate::json::{
    canonical_digest, canonical_string, canonical_text, decimal, decimal_string,
    lemma_lookup_at, lemma_without_pair_ignores_values, member_views, object, put, put_text,
    put_text_or_null, remove_key, text_member, text_or_null, text_view, texts_json,
    texts_to_json, without_key, Json, Value,
};
use crate::merkle::{
    build_merkle, copy_strings, fold_path, fold_path_to_root, lemma_path_is_hex, pair_up,
    parent_of, paths_of, root_of,
};
use crate::text::{
    ascending, lemma_lex_le_transitive, lemma_sorted_of_permutation, lemma_sorted_properties,
    lex_le, sort_strings, sorted, str_eq, views,
};
use vstd::prelude::*;
use vstd::seq_lib::to_multiset_contains;
use vstd::string::StringSliceAdditionalSpecFns;

verus! {

/// Who asked for the operation, and with which capabilities.
#[derive(Debug)]
pub struct Actor {
    pub id: String,
    pub cap: Vec<String>,
    pub sig: String,
}

/// The operation: what was done to what, who approved it, and the digests of
/// the plan and of what was applied.
#[derive(Debug)]
pub struct Op {
    pub kind: String,
    pub target: String,
    pub risk: Option<String>,
    pub change_window: Option<String>,
    pub approvals: Vec<String>,
    pub plan_hash: String,
    pub apply_hash: String,
}

/// The build of the tool that ran the operation.
#[derive(Debug)]
pub struct Build {
    pub repo: String,
    pub commit: String,
    pub binary_hash: String,
}

/// Where the operation ran.
#[derive(Debug)]
pub struct Env {
    pub ci: Option<String>,
    pub runner: Option<String>,
    pub tf_version: Option<String>,
    pub plugins: Option<Vec<String>>,
}

/// The signature block of an operation receipt.
#[derive(Debug)]
pub struct Sign {
    pub alg: String,
    pub sig: String,
    pub pub_: String,
}

/// The anchor of a receipt: the date of its batch, the path from its leaf to
/// the root, and the root.
#[derive(Debug)]
pub struct Merkle {
    pub date: String,
    pub path: Vec<String>,
    pub root: String,
}

/// An operation receipt.
#[derive(Debug)]
pub struct Receipt {
    pub id: String,
    pub ts: String,
    pub actor: Actor,
    pub op: Op,
    pub build: Build,
    pub env: Env,
    pub sign: Sign,
    pub leaf: String,
    pub merkle: Merkle,
}

/// The published root of a day: the date, the root over all leaves of that
/// date, sorted, and their number.
#[derive(Debug)]
pub struct RootDoc {
    pub date: String,
    pub root: String,
    pub count: usize,
}

/// Why a batch could not be sealed or a receipt not anchored.
#[derive(Debug, Clone, Copy, PartialEq, Eq, Structural)]
pub enum BatchError {
    /// A leaf of the batch is no hexadecimal text.
    MalformedLeaf,
    /// The leaf of the receipt is not in the batch.
    LeafNotFound,
}

/// The check that an anchored receipt failed.
#[derive(Debug, Clone, Copy, PartialEq, Eq, Structural)]
pub enum VerifyError {
    /// The leaf that the receipt carries is not the digest of its payload.
    LeafMismatch,
    /// The root document has no string `root`.
    InvalidRoot,
    /// A sibling on the path is no hexadecimal text.
    MalformedPath,
    /// Folding the path into the leaf does not give the published root.
    RootMismatch,
    /// Strict: the actor has no capability.
    MissingCapability,
    /// Strict: the operation has no approval.
    MissingApprovals,
    /// Strict: the plan digest or the apply digest is empty.
    MissingHashes,
}

impl BatchError {
    /// What the error says.
    pub open spec fn text(&self) -> Seq<char> {
        match self {
            BatchError::MalformedLeaf => "leaf is not hexadecimal"@,
            BatchError::LeafNotFound => "leaf not found in set; ensure dir is the correct date"@,
        }
    }

    /// What the error says.
    pub fn to_string(&self) -> (s: String)
        ensures
            s@ == self.text(),
    {
        match self {
            BatchError::MalformedLeaf => "leaf is not hexadecimal".to_owned(),
            BatchError::LeafNotFound => "leaf not found in set; ensure dir is the correct date".to_owned(),
        }
    }
}

impl VerifyError {
    /// What the error says: the check that was violated.
    pub open spec fn text(&self) -> Seq<char> {
        match self {
            VerifyError::LeafMismatch => "leaf mismatch: receipt tampered or not canonical"@,
            VerifyError::InvalidRoot => "invalid root.json"@,
            VerifyError::MalformedPath => "path is not hexadecimal"@,
            VerifyError::RootMismatch => "path->root mismatch"@,
            VerifyError::MissingCapability => "strict: missing capability"@,
            VerifyError::MissingApprovals => "strict: missing approvals"@,
            VerifyError::MissingHashes => "strict: missing plan/apply hashes"@,
        }
    }

    /// What the error says: the check that was violated.
    pub fn to_string(&self) -> (s: String)
        ensures
            s@ == self.text(),
    {
        match self {
            VerifyError::LeafMismatch => "leaf mismatch: receipt tampered or not canonical".to_owned(),
            VerifyError::InvalidRoot => "invalid root.json".to_owned(),
            VerifyError::MalformedPath => "path is not hexadecimal".to_owned(),
            VerifyError::RootMismatch => "path->root mismatch".to_owned(),
            VerifyError::MissingCapability => "strict: missing capability".to_owned(),
            VerifyError::MissingApprovals => "strict: missing approvals".to_owned(),
            VerifyError::MissingHashes => "strict: missing plan/apply hashes".to_owned(),
        }
    }
}

impl Actor {
    /// The JSON form: `id`, `cap`, `sig`.
    pub open spec fn json(&self) -> Json {
        Json::Object(
            seq![
                ("id"@, Json::Text(self.id@)),
                ("cap"@, texts_json(views(self.cap@))),
                ("sig"@, Json::Text(self.sig@)),
            ],
        )
    }

    /// The JSON form.
    pub fn to_json(&self) -> (v: Value)
        ensures
            v@ == self.json(),
    {
        let mut members: Vec<(String, Value)> = Vec::new();
        put_text(&mut members, "id", &self.id);
        put(&mut members, "cap", texts_to_json(&self.cap));
        put_text(&mut members, "sig", &self.sig);
        proof {
            assert(member_views(members@) =~= self.json()->Object_0);
        }
        object(members)
    }
}

impl Op {
    /// The JSON form: `kind`, `target`, `risk`, `change_window`, `approvals`,
    /// `plan_hash`, `apply_hash`.
    pub open spec fn json(&self) -> Json {
        Json::Object(
            seq![
                ("kind"@, Json::Text(self.kind@)),
                ("target"@, Json::Text(self.target@)),
                ("risk"@, text_or_null(text_view(self.risk))),
                ("change_window"@, text_or_null(text_view(self.change_window))),
                ("approvals"@, texts_json(views(self.approvals@))),
                ("plan_hash"@, Json::Text(self.plan_hash@)),
                ("apply_hash"@, Json::Text(self.apply_hash@)),
            ],
        )
    }

    /// The JSON form.
    pub fn to_json(&self) -> (v: Value)
        ensures
            v@ == self.json(),
    {
        let mut members: Vec<(String, Value)> = Vec::new();
        put_text(&mut members, "kind", &self.kind);
        put_text(&mut members, "target", &self.target);
        put_text_or_null(&mut members, "risk", &self.risk);
        put_text_or_null(&mut members, "change_window", &self.change_window);
        put(&mut members, "approvals", texts_to_json(&self.approvals));
        put_text(&mut members, "plan_hash", &self.plan_hash);
        put_text(&mut members, "apply_hash", &self.apply_hash);
        proof {
            assert(member_views(members@) =~= self.json()->Object_0);
        }
        object(members)
    }
}

impl Build {
    /// The JSON form: `repo`, `commit`, `binary_hash`.
    pub open spec fn json(&self) -> Json {
        Json::Object(
            seq![
                ("repo"@, Json::Text(self.repo@)),
                ("commit"@, Json::Text(self.commit@)),
                ("binary_hash"@, Json::Text(self.binary_hash@)),
            ],
        )
    }

    /// The JSON form.
    pub fn to_json(&self) -> (v: Value)
        ensures
            v@ == self.json(),
    {
        let mut members: Vec<(String, Value)> = Vec::new();
        put_text(&mut members, "repo", &self.repo);
        put_text(&mut members, "commit", &self.commit);
        put_text(&mut members, "binary_hash", &self.binary_hash);
        proof {
            assert(member_views(members@) =~= self.json()->Object_0);
        }
        object(members)
    }
}

impl Env {
    /// The `plugins` member: the list, or `null` where there is none.
    pub open spec fn plugins_json(&self) -> Json {
        match self.plugins {
            Some(p) => texts_json(views(p@)),
            None => Json::Null,
        }
    }

    /// The JSON form: `ci`, `runner`, `tf_version`, `plugins`.
    pub open spec fn json(&self) -> Json {
        Json::Object(
            seq![
                ("ci"@, text_or_null(text_view(self.ci))),
                ("runner"@, text_or_null(text_view(self.runner))),
                ("tf_version"@, text_or_null(text_view(self.tf_version))),
                ("plugins"@, self.plugins_json()),
            ],
        )
    }

    /// The JSON form.
    pub fn to_json(&self) -> (v: Value)
        ensures
            v@ == self.json(),
    {
        let mut members: Vec<(String, Value)> = Vec::new();
        put_text_or_null(&mut members, "ci", &self.ci);
        put_text_or_null(&mut members, "runner", &self.runner);
        put_text_or_null(&mut members, "tf_version", &self.tf_version);
        match &self.plugins {
            Some(p) => {
                put(&mut members, "plugins", texts_to_json(p));
            },
            None => {
                put(&mut members, "plugins", Value::Null);
            },
        }
        proof {
            assert(member_views(members@) =~= self.json()->Object_0);
        }
        object(members)
    }
}

impl Sign {
    /// The signature block of a receipt that is not signed.
    pub fn none() -> (s: Sign)
        ensures
            s.alg@ == "none"@,
            s.sig@ == Seq::<char>::empty(),
            s.pub_@ == Seq::<char>::empty(),
    {
        Sign { alg: "none".to_owned(), sig: String::new(), pub_: String::new() }
    }

    /// The JSON form: `alg`, `sig`, `pub_`.
    pub open spec fn json(&self) -> Json {
        Json::Object(
            seq![
                ("alg"@, Json::Text(self.alg@)),
                ("sig"@, Json::Text(self.sig@)),
                ("pub_"@, Json::Text(self.pub_@)),
            ],
        )
    }

    /// The JSON form.
    pub fn to_json(&self) -> (v: Value)
        ensures
            v@ == self.json(),
    {
        let mut members: Vec<(String, Value)> = Vec::new();
        put_text(&mut members, "alg", &self.alg);
        put_text(&mut members, "sig", &self.sig);
        put_text(&mut members, "pub_", &self.pub_);
        proof {
            assert(member_views(members@) =~= self.json()->Object_0);
        }
        object(members)
    }
}

impl Merkle {
    /// The JSON form: `date`, `path`, `root`.
    pub open spec fn json(&self) -> Json {
        Json::Object(
            seq![
                ("date"@, Json::Text(self.date@)),
                ("path"@, texts_json(views(self.path@))),
                ("root"@, Json::Text(self.root@)),
            ],
        )
    }

    /// The JSON form.
    pub fn to_json(&self) -> (v: Value)
        ensures
            v@ == self.json(),
    {
        let mut members: Vec<(String, Value)> = Vec::new();
        put_text(&mut members, "date", &self.date);
        put(&mut members, "path", texts_to_json(&self.path));
        put_text(&mut members, "root", &self.root);
        proof {
            assert(member_views(members@) =~= self.json()->Object_0);
        }
        object(members)
    }
}

impl RootDoc {
    /// The JSON form: `date`, `root`, `count`.
    pub open spec fn json(&self) -> Json {
        Json::Object(
            seq![
                ("date"@, Json::Text(self.date@)),
                ("root"@, Json::Text(self.root@)),
                ("count"@, Json::Number(decimal(self.count as nat))),
            ],
        )
    }

    /// The JSON form.
    pub fn to_json(&self) -> (v: Value)
        ensures
            v@ == self.json(),
    {
        let mut members: Vec<(String, Value)> = Vec::new();
        put_text(&mut members, "date", &self.date);
        put_text(&mut members, "root", &self.root);
        put(&mut members, "count", Value::Number(decimal_string(self.count)));
        proof {
            assert(member_views(members@) =~= self.json()->Object_0);
        }
        object(members)
    }
}

impl Receipt {
    /// The members of the JSON form that the leaf is computed over.
    pub open spec fn payload_members(&self) -> Seq<(Seq<char>, Json)> {
        seq![
            ("id"@, Json::Text(self.id@)),
            ("ts"@, Json::Text(self.ts@)),
            ("actor"@, self.actor.json()),
            ("op"@, self.op.json()),
            ("build"@, self.build.json()),
            ("env"@, self.env.json()),
            ("sign"@, self.sign.json()),
        ]
    }

    /// The JSON form: the payload members, then `leaf` and `merkle`.
    pub open spec fn json(&self) -> Json {
        Json::Object(
            self.payload_members() + seq![
                ("leaf"@, Json::Text(self.leaf@)),
                ("merkle"@, self.merkle.json()),
            ],
        )
    }

    /// The JSON form.
    pub fn to_json(&self) -> (v: Value)
        ensures
            v@ == self.json(),
    {
        let mut members: Vec<(String, Value)> = Vec::new();
        put_text(&mut members, "id", &self.id);
        put_text(&mut members, "ts", &self.ts);
        put(&mut members, "actor", self.actor.to_json());
        put(&mut members, "op", self.op.to_json());
        put(&mut members, "build", self.build.to_json());
        put(&mut members, "env", self.env.to_json());
        put(&mut members, "sign", self.sign.to_json());
        put_text(&mut members, "leaf", &self.leaf);
        put(&mut members, "merkle", self.merkle.to_json());
        proof {
            assert(member_views(members@) =~= self.json()->Object_0);
        }
        object(members)
    }
}

/// What the leaf is computed over: a receipt's JSON form without its members
/// `leaf` and `merkle`.
pub open spec fn leaf_payload(receipt: Json) -> Json {
    without_key(without_key(receipt, "leaf"@), "merkle"@)
}

/// The leaf of a receipt, given its JSON form: the digest of the canonical
/// text of its payload.
pub open spec fn leaf_of(receipt: Json) -> Seq<char> {
    canonical_digest(leaf_payload(receipt))
}

/// The leaf of a receipt does not depend on the leaf and the anchor that it
/// carries.
pub proof fn lemma_leaf_ignores_anchor(a: Receipt, b: Receipt)
    requires
        a.payload_members() == b.payload_members(),
    ensures
        leaf_payload(a.json()) == leaf_payload(b.json()),
        leaf_of(a.json()) == leaf_of(b.json()),
{
    let x = a.json()->Object_0;
    let y = b.json()->Object_0;
    let head = a.payload_members();
    assert(head.len() == 7);
    assert forall|i: int| 0 <= i < x.len() implies (#[trigger] x[i]).0 == y[i].0 by {
        if i < 7 {
            assert(x[i] == head[i] && y[i] == head[i]);
        }
    }
    assert forall|i: int|
        0 <= i < x.len() && (#[trigger] x[i]).0 != "leaf"@ && x[i].0 != "merkle"@ implies x[i].1
            == y[i].1 by {
        if i < 7 {
            assert(x[i] == head[i] && y[i] == head[i]);
        }
    }
    lemma_without_pair_ignores_values(x, y, "leaf"@, "merkle"@);
}

/// A copy of `v` without its members `leaf` and `merkle`.
pub fn remove_leaf_and_merkle(v: &Value) -> (r: Value)
    ensures
        r@ == leaf_payload(v@),
{
    let without_leaf = remove_key(v, "leaf");
    remove_key(&without_leaf, "merkle")
}

/// The canonical text of the payload of `r`.
pub fn canonical_payload_json(r: &Receipt) -> (text: String)
    ensures
        text@ == canonical_text(leaf_payload(r.json())),
{
    let v = r.to_json();
    let payload = remove_leaf_and_merkle(&v);
    canonical_string(&payload)
}

/// The leaf of `r`, computed from its payload.
pub fn canonical_leaf_hex(r: &Receipt) -> (leaf: String)
    ensures
        leaf@ == leaf_of(r.json()),
        is_hex(leaf@),
        leaf@.len() == 64,
{
    let text = canonical_payload_json(r);
    blake3_hex(text.as_str().as_bytes())
}

/// A new receipt for an operation that is about to run: the plan is recorded
/// by its digest, nothing is applied yet, the receipt is neither signed nor
/// anchored, and its leaf is the digest of its payload.
pub fn emit(
    id: String,
    ts: String,
    kind: String,
    target: String,
    plan: &[u8],
    cap: String,
    approve: String,
    repo: String,
    commit: String,
    binary_hash: String,
) -> (rec: Receipt)
    ensures
        rec.id == id,
        rec.ts == ts,
        rec.actor.id@ == "did:placeholder"@,
        views(rec.actor.cap@) == seq![cap@],
        rec.actor.sig@.len() == 0,
        rec.op.kind == kind,
        rec.op.target == target,
        rec.op.risk is None,
        rec.op.change_window is None,
        views(rec.op.approvals@) == seq![approve@],
        rec.op.plan_hash@ == digest_hex(plan@),
        rec.op.apply_hash@.len() == 0,
        rec.build.repo == repo,
        rec.build.commit == commit,
        rec.build.binary_hash == binary_hash,
        rec.env.ci is None && rec.env.runner is None && rec.env.tf_version is None
            && rec.env.plugins is None,
        rec.sign.alg@ == "none"@,
        rec.merkle.path@.len() == 0 && rec.merkle.date@.len() == 0 && rec.merkle.root@.len() == 0,
        rec.leaf@ == leaf_of(rec.json()),
{
    let plan_hash = blake3_hex(plan);
    let mut caps: Vec<String> = Vec::new();
    caps.push(cap);
    let mut approvals: Vec<String> = Vec::new();
    approvals.push(approve);
    proof {
        assert(views(caps@) =~= seq![cap@]);
        assert(views(approvals@) =~= seq![approve@]);
    }
    let draft = Receipt {
        id,
        ts,
        actor: Actor { id: "did:placeholder".to_owned(), cap: caps, sig: String::new() },
        op: Op {
            kind,
            target,
            risk: None,
            change_window: None,
            approvals,
            plan_hash,
            apply_hash: String::new(),
        },
        build: Build { repo, commit, binary_hash },
        env: Env { ci: None, runner: None, tf_version: None, plugins: None },
        sign: Sign::none(),
        leaf: String::new(),
        merkle: Merkle { date: String::new(), path: Vec::new(), root: String::new() },
    };
    with_leaf(draft)
}

/// `rec` with its leaf computed anew.
pub fn with_leaf(rec: Receipt) -> (out: Receipt)
    ensures
        out.id == rec.id,
        out.ts == rec.ts,
        out.actor == rec.actor,
        out.op == rec.op,
        out.build == rec.build,
        out.env == rec.env,
        out.sign == rec.sign,
        out.merkle == rec.merkle,
        out.leaf@ == leaf_of(rec.json()),
        out.leaf@ == leaf_of(out.json()),
        is_hex(out.leaf@),
        out.leaf@.len() == 64,
{
    let leaf = canonical_leaf_hex(&rec);
    let Receipt { id, ts, actor, op, build, env, sign, leaf: _, merkle } = rec;
    let out = Receipt { id, ts, actor, op, build, env, sign, leaf, merkle };
    proof {
        lemma_leaf_ignores_anchor(rec, out);
    }
    out
}

/// The receipt after the operation ran: what was applied is recorded by its
/// digest, and the leaf is computed anew.
pub fn finalize(rec: Receipt, post: &[u8]) -> (out: Receipt)
    ensures
        out.id == rec.id,
        out.ts == rec.ts,
        out.actor == rec.actor,
        out.op.kind == rec.op.kind,
        out.op.target == rec.op.target,
        out.op.risk == rec.op.risk,
        out.op.change_window == rec.op.change_window,
        out.op.approvals == rec.op.approvals,
        out.op.plan_hash == rec.op.plan_hash,
        out.op.apply_hash@ == digest_hex(post@),
        out.build == rec.build,
        out.env == rec.env,
        out.sign == rec.sign,
        out.merkle == rec.merkle,
        out.leaf@ == leaf_of(out.json()),
{
    let apply_hash = blake3_hex(post);
    let Receipt { id, ts, actor, op, build, env, sign, leaf, merkle } = rec;
    let Op { kind, target, risk, change_window, approvals, plan_hash, apply_hash: _ } = op;
    let op = Op { kind, target, risk, change_window, approvals, plan_hash, apply_hash };
    with_leaf(Receipt { id, ts, actor, op, build, env, sign, leaf, merkle })
}

/// The root over a batch of leaves, whatever their order: the leaves are
/// sorted first.
pub open spec fn sealed_root(leaves: Seq<Seq<char>>) -> Seq<char> {
    root_of(sorted(leaves))
}

/// The root over a batch does not depend on the order in which its leaves were
/// found.
pub proof fn lemma_sealed_root_ignores_order(a: Seq<Seq<char>>, b: Seq<Seq<char>>)
    requires
        a.to_multiset() == b.to_multiset(),
    ensures
        sealed_root(a) == sealed_root(b),
{
    lemma_sorted_of_permutation(a, b);
}

/// A batch of three leaves `l1 <= l2 <= l3`, in whatever order they were
/// found: the bottom layer pairs `l1` with `l2` and `l3` with itself, and the
/// root is the parent of those two parents.
pub proof fn lemma_odd_batch_root(l1: Seq<char>, l2: Seq<char>, l3: Seq<char>, found: Seq<Seq<char>>)
    requires
        lex_le(l1, l2),
        lex_le(l2, l3),
        found.to_multiset() == seq![l1, l2, l3].to_multiset(),
    ensures
        sorted(found) == seq![l1, l2, l3],
        pair_up(seq![l1, l2, l3]) == seq![parent_of(l1, l2), parent_of(l3, l3)],
        sealed_root(found) == parent_of(parent_of(l1, l2), parent_of(l3, l3)),
{
    let batch = seq![l1, l2, l3];
    lemma_lex_le_transitive(l1, l2, l3);
    assert(ascending(batch));
    lemma_sorted_of_permutation(batch, found);
    let up = pair_up(batch);
    assert(up =~= seq![parent_of(l1, l2), parent_of(l3, l3)]);
    let top = pair_up(up);
    assert(top =~= seq![parent_of(up[0], up[1])]);
    assert(root_of(top) == top[0]);
    assert(root_of(up) == root_of(top));
    assert(root_of(batch) == root_of(up));
}

/// Sorting keeps hexadecimal leaves hexadecimal, and keeps the leaves.
proof fn lemma_sorted_keeps(leaves: Seq<Seq<char>>)
    ensures
        all_hex(leaves) ==> all_hex(sorted(leaves)),
        forall|x: Seq<char>| leaves.contains(x) <==> sorted(leaves).contains(x),
{
    lemma_sorted_properties(leaves);
    let s = sorted(leaves);
    assert forall|x: Seq<char>| leaves.contains(x) <==> s.contains(x) by {
        to_multiset_contains(leaves, x);
        to_multiset_contains(s, x);
    }
    if all_hex(leaves) {
        assert forall|i: int| 0 <= i < s.len() implies is_hex(#[trigger] s[i]) by {
            assert(s.contains(s[i]));
            assert(leaves.contains(s[i]));
            let j = choose|j: int| 0 <= j < leaves.len() && leaves[j] == s[i];
            assert(is_hex(leaves[j]));
        }
    }
}

/// Seals the batch of a date: the root over the leaves, sorted, and their
/// number. A batch without leaves has the empty text as its root.
pub fn seal(date: String, leaves: &Vec<String>) -> (r: Result<RootDoc, BatchError>)
    ensures
        !all_hex(views(leaves@)) ==> r == Err::<RootDoc, BatchError>(BatchError::MalformedLeaf),
        all_hex(views(leaves@)) ==> r is Ok && r->Ok_0.date == date && r->Ok_0.root@ == sealed_root(
            views(leaves@),
        ) && r->Ok_0.count == leaves@.len(),
        r is Ok ==> is_hex(r->Ok_0.root@),
        r is Ok && leaves@.len() >= 2 ==> r->Ok_0.root@.len() == 64,
{
    if !all_hex_strings(leaves.as_slice()) {
        return Err(BatchError::MalformedLeaf);
    }
    let ordered = sort_strings(leaves);
    proof {
        lemma_sorted_keeps(views(leaves@));
        lemma_sorted_properties(views(leaves@));
        assert(views(ordered@).len() == ordered@.len());
        assert(views(leaves@).len() == leaves@.len());
    }
    let (root, _paths) = build_merkle(ordered.as_slice());
    Ok(RootDoc { date, root, count: leaves.len() })
}

/// Anchors `rec` in the batch of `date`: the tree is built over the leaves,
/// sorted, and the receipt gets the date, the path of its leaf and the root.
/// Folding the path into the leaf gives the root.
pub fn anchor(rec: Receipt, leaves: &Vec<String>, date: String) -> (r: Result<Receipt, BatchError>)
    ensures
        !all_hex(views(leaves@)) ==> r == Err::<Receipt, BatchError>(BatchError::MalformedLeaf),
        all_hex(views(leaves@)) && !views(leaves@).contains(rec.leaf@) ==> r == Err::<
            Receipt,
            BatchError,
        >(BatchError::LeafNotFound),
        all_hex(views(leaves@)) && views(leaves@).contains(rec.leaf@) ==> {
            &&& r is Ok
            &&& r->Ok_0.id == rec.id
            &&& r->Ok_0.ts == rec.ts
            &&& r->Ok_0.actor == rec.actor
            &&& r->Ok_0.op == rec.op
            &&& r->Ok_0.build == rec.build
            &&& r->Ok_0.env == rec.env
            &&& r->Ok_0.sign == rec.sign
            &&& r->Ok_0.leaf == rec.leaf
            &&& r->Ok_0.merkle.date == date
            &&& r->Ok_0.merkle.root@ == sealed_root(views(leaves@))
            &&& views(r->Ok_0.merkle.path@) == paths_of(sorted(views(leaves@)))[rec.leaf@]
            &&& all_hex(views(r->Ok_0.merkle.path@))
            &&& fold_path(rec.leaf@, views(r->Ok_0.merkle.path@)) == sealed_root(views(leaves@))
            &&& leaf_of(r->Ok_0.json()) == leaf_of(rec.json())
            &&& is_hex(r->Ok_0.merkle.root@)
            &&& leaves@.len() >= 2 ==> r->Ok_0.merkle.root@.len() == 64
        },
{
    if !all_hex_strings(leaves.as_slice()) {
        return Err(BatchError::MalformedLeaf);
    }
    let ordered = sort_strings(leaves);
    proof {
        lemma_sorted_keeps(views(leaves@));
        lemma_sorted_properties(views(leaves@));
        assert(views(ordered@).len() == ordered@.len());
        assert(views(leaves@).len() == leaves@.len());
    }
    let (root, paths) = build_merkle(ordered.as_slice());
    let path = match paths.get(rec.leaf.as_str()) {
        Some(p) => copy_strings(p.as_slice()),
        None => {
            return Err(BatchError::LeafNotFound);
        },
    };
    proof {
        lemma_path_is_hex(sorted(views(leaves@)), rec.leaf@);
    }
    let Receipt { id, ts, actor, op, build, env, sign, leaf, merkle: _ } = rec;
    let out = Receipt { id, ts, actor, op, build, env, sign, leaf, merkle: Merkle { date, path, root } };
    proof {
        lemma_leaf_ignores_anchor(rec, out);
    }
    Ok(out)
}

/// The outcome of verifying an anchored receipt against a root document: the
/// first check that fails names the error.
pub open spec fn verify_outcome(rec: Receipt, root_doc: Json, strict: bool) -> Result<
    (),
    VerifyError,
> {
    if leaf_of(rec.json()) != rec.leaf@ {
        Err(VerifyError::LeafMismatch)
    } else {
        match text_member(root_doc, "root"@) {
            None => Err(VerifyError::InvalidRoot),
            Some(root) => if !all_hex(views(rec.merkle.path@)) {
                Err(VerifyError::MalformedPath)
            } else if fold_path(rec.leaf@, views(rec.merkle.path@)) != root {
                Err(VerifyError::RootMismatch)
            } else if strict && rec.actor.cap@.len() == 0 {
                Err(VerifyError::MissingCapability)
            } else if strict && rec.op.approvals@.len() == 0 {
                Err(VerifyError::MissingApprovals)
            } else if strict && (rec.op.plan_hash@.len() == 0 || rec.op.apply_hash@.len() == 0) {
                Err(VerifyError::MissingHashes)
            } else {
                Ok(())
            },
        }
    }
}

/// A receipt that was changed after its leaf was computed fails the first
/// check, whatever the root document says: where the change gives the payload
/// another digest, the leaf that the receipt still carries is not its own.
pub proof fn lemma_changed_receipt_fails_leaf_check(
    anchored: Receipt,
    changed: Receipt,
    root_doc: Json,
    strict: bool,
)
    requires
        anchored.leaf@ == leaf_of(anchored.json()),
        changed.leaf == anchored.leaf,
        leaf_of(changed.json()) != leaf_of(anchored.json()),
    ensures
        verify_outcome(changed, root_doc, strict) == Err::<(), VerifyError>(
            VerifyError::LeafMismatch,
        ),
{
}

/// A receipt that carries its own leaf and was anchored in a batch verifies
/// against the root document of that batch: what `anchor` attaches and what
/// `seal` publishes fit together.
pub proof fn lemma_anchored_receipt_verifies(anchored: Receipt, doc: RootDoc)
    requires
        anchored.leaf@ == leaf_of(anchored.json()),
        all_hex(views(anchored.merkle.path@)),
        fold_path(anchored.leaf@, views(anchored.merkle.path@)) == doc.root@,
    ensures
        verify_outcome(anchored, doc.json(), false) == Ok::<(), VerifyError>(()),
{
    reveal_strlit("date");
    reveal_strlit("root");
    assert("date"@[0] == 'd' && "root"@[0] == 'r');
    let members = doc.json()->Object_0;
    assert(members[1] == ("root"@, Json::Text(doc.root@)));
    lemma_lookup_at(members, "root"@, 1);
}

/// The first check of `verify`, which needs no root document: the leaf that
/// the receipt carries must be the digest of its payload.
pub fn verify_leaf(rec: &Receipt) -> (r: Result<(), VerifyError>)
    ensures
        r == if leaf_of(rec.json()) != rec.leaf@ {
            Err::<(), VerifyError>(VerifyError::LeafMismatch)
        } else {
            Ok::<(), VerifyError>(())
        },
{
    let computed_leaf = canonical_leaf_hex(rec);
    if !str_eq(computed_leaf.as_str(), rec.leaf.as_str()) {
        return Err(VerifyError::LeafMismatch);
    }
    Ok(())
}

/// Verifies an anchored receipt against a published root: the leaf must be
/// the digest of the payload, and folding the path into the leaf must give the
/// root. With `strict`, the receipt must also name a capability, an approval,
/// and the digests of plan and apply.
pub fn verify(rec: &Receipt, root_doc: &Value, strict: bool) -> (r: Result<(), VerifyError>)
    ensures
        r == verify_outcome(*rec, root_doc@, strict),
{
    match verify_leaf(rec) {
        Err(e) => {
            return Err(e);
        },
        Ok(_) => {},
    }
    let root_hex = match root_doc.get_text("root") {
        Some(root) => root,
        None => {
            return Err(VerifyError::InvalidRoot);
        },
    };
    if !all_hex_strings(rec.merkle.path.as_slice()) {
        return Err(VerifyError::MalformedPath);
    }
    let folded = fold_path_to_root(rec.leaf.as_str(), rec.merkle.path.as_slice());
    if !str_eq(folded.as_str(), root_hex.as_str()) {
        return Err(VerifyError::RootMismatch);
    }
    if strict {
        if rec.actor.cap.len() == 0 {
            return Err(VerifyError::MissingCapability);
        }
        if rec.op.approvals.len() == 0 {
            return Err(VerifyError::MissingApprovals);
        }
        if rec.op.plan_hash.as_str().is_empty() || rec.op.apply_hash.as_str().is_empty() {
            return Err(VerifyError::MissingHashes);
        }
    }
    Ok(())
}

} // verus!
