//! The Merkle engine: a binary hash tree over a batch of leaf digests, its
//! root, and for each leaf the authentication path that leads to the root.
//!
//! A parent is the digest of its two children's bytes, the child whose
//! hexadecimal text is smaller first, so a parent does not depend on which
//! child stands left. A layer with an odd number of nodes pairs its last node
//! with itself.

use crate::digest::{
    all_hex, blake3_digest, blake3_hex, digest_hex, hex_bytes, hex_decode, is_hex,
    lemma_hex_text_round_trip,
};
use crate::text::{
    lemma_lex_le_antisymmetric, lemma_lex_le_total, lex_le, str_eq, str_le, views,
};
use vstd::prelude::*;

verus! {

/// The bytes of two digests, those of the smaller hexadecimal text first.
pub open spec fn ordered_concat(a: Seq<char>, b: Seq<char>) -> Seq<u8> {
    if lex_le(a, b) {
        hex_bytes(a) + hex_bytes(b)
    } else {
        hex_bytes(b) + hex_bytes(a)
    }
}

/// The parent of two nodes.
pub open spec fn parent_of(a: Seq<char>, b: Seq<char>) -> Seq<char> {
    digest_hex(ordered_concat(a, b))
}

/// The layer above `layer`: one parent for each pair, the last node paired
/// with itself where it has no partner.
pub open spec fn pair_up(layer: Seq<Seq<char>>) -> Seq<Seq<char>> {
    Seq::new(
        ((layer.len() + 1) / 2) as nat,
        |k: int|
            parent_of(
                layer[2 * k],
                if 2 * k + 1 < layer.len() {
                    layer[2 * k + 1]
                } else {
                    layer[2 * k]
                },
            ),
    )
}

/// The root of the tree over `layer`; the empty text for an empty batch.
pub open spec fn root_of(layer: Seq<Seq<char>>) -> Seq<char>
    decreases layer.len(),
{
    if layer.len() == 0 {
        Seq::empty()
    } else if layer.len() == 1 {
        layer[0]
    } else {
        root_of(pair_up(layer))
    }
}

/// The node that node `i` of `layer` is paired with.
pub open spec fn sibling_of(layer: Seq<Seq<char>>, i: int) -> Seq<char> {
    if i % 2 == 1 {
        layer[i - 1]
    } else if i + 1 < layer.len() {
        layer[i + 1]
    } else {
        layer[i]
    }
}

/// The authentication path of node `i` of `layer`: its sibling, then the
/// sibling of its parent, and so on up to the root.
pub open spec fn path_of(layer: Seq<Seq<char>>, i: int) -> Seq<Seq<char>>
    decreases layer.len(),
{
    if layer.len() <= 1 {
        Seq::empty()
    } else {
        seq![sibling_of(layer, i)] + path_of(pair_up(layer), i / 2)
    }
}

/// What folding `path` into `leaf` gives: each sibling in turn is hashed
/// with the running digest.
pub open spec fn fold_path(leaf: Seq<char>, path: Seq<Seq<char>>) -> Seq<char>
    decreases path.len(),
{
    if path.len() == 0 {
        leaf
    } else {
        fold_path(parent_of(leaf, path[0]), path.drop_first())
    }
}

/// The position of the first `x` in `s`, or `s.len()` where there is none.
pub open spec fn first_index(s: Seq<Seq<char>>, x: Seq<char>) -> int
    decreases s.len(),
{
    if s.len() == 0 {
        0
    } else if s[0] == x {
        0
    } else {
        1 + first_index(s.drop_first(), x)
    }
}

/// The authentication paths of a batch, by leaf digest. A digest that occurs
/// more than once has the path of its first occurrence.
pub open spec fn paths_of(leaves: Seq<Seq<char>>) -> Map<Seq<char>, Seq<Seq<char>>> {
    Map::new(
        |leaf: Seq<char>| leaves.contains(leaf),
        |leaf: Seq<char>| path_of(leaves, first_index(leaves, leaf)),
    )
}

/// A parent does not depend on the order of its children.
pub proof fn lemma_parent_symmetric(a: Seq<char>, b: Seq<char>)
    ensures
        parent_of(a, b) == parent_of(b, a),
{
    lemma_lex_le_total(a, b);
    if lex_le(a, b) && lex_le(b, a) {
        lemma_lex_le_antisymmetric(a, b);
    }
}

/// Folding the authentication path of any node of a batch into that node gives
/// the root of the batch.
pub proof fn lemma_path_folds_to_root(layer: Seq<Seq<char>>, i: int)
    requires
        0 <= i < layer.len(),
    ensures
        fold_path(layer[i], path_of(layer, i)) == root_of(layer),
    decreases layer.len(),
{
    if layer.len() > 1 {
        let up = pair_up(layer);
        let path = path_of(layer, i);
        let k = i / 2;
        assert(path[0] == sibling_of(layer, i));
        assert(path.drop_first() =~= path_of(up, k));
        if i % 2 == 1 {
            assert(2 * k + 1 == i);
            lemma_parent_symmetric(layer[i], layer[i - 1]);
        } else {
            assert(2 * k == i);
        }
        assert(up[k] == parent_of(layer[i], sibling_of(layer, i)));
        lemma_path_folds_to_root(up, k);
    }
}

/// `first_index` finds the first place of `x`, where there is one.
pub proof fn lemma_first_index(s: Seq<Seq<char>>, x: Seq<char>)
    ensures
        0 <= first_index(s, x) <= s.len(),
        first_index(s, x) < s.len() <==> s.contains(x),
        first_index(s, x) < s.len() ==> s[first_index(s, x)] == x,
        forall|k: int| 0 <= k < first_index(s, x) ==> #[trigger] s[k] != x,
    decreases s.len(),
{
    if s.len() == 0 {
    } else if s[0] == x {
        assert(s.contains(x));
    } else {
        let t = s.drop_first();
        lemma_first_index(t, x);
        let f = first_index(t, x);
        if f < t.len() {
            assert(s[f + 1] == t[f]);
            assert(s.contains(x));
        }
        if s.contains(x) {
            let j = choose|j: int| 0 <= j < s.len() && s[j] == x;
            assert(t[j - 1] == x);
            assert(t.contains(x));
        }
        assert forall|k: int| 0 <= k < 1 + f implies #[trigger] s[k] != x by {
            if k > 0 {
                assert(s[k] == t[k - 1]);
            }
        }
    }
}

/// Every path in `paths_of` folds from its leaf to the root of the batch.
pub proof fn lemma_paths_fold_to_root(leaves: Seq<Seq<char>>, leaf: Seq<char>)
    requires
        leaves.contains(leaf),
    ensures
        paths_of(leaves).dom().contains(leaf),
        fold_path(leaf, paths_of(leaves)[leaf]) == root_of(leaves),
{
    lemma_first_index(leaves, leaf);
    lemma_path_folds_to_root(leaves, first_index(leaves, leaf));
}

/// The layer above a layer of hexadecimal nodes is hexadecimal.
pub proof fn lemma_pair_up_is_hex(layer: Seq<Seq<char>>)
    ensures
        all_hex(pair_up(layer)),
{
    let up = pair_up(layer);
    assert forall|k: int| 0 <= k < up.len() implies is_hex(#[trigger] up[k]) by {
        let a = layer[2 * k];
        let b = if 2 * k + 1 < layer.len() {
            layer[2 * k + 1]
        } else {
            layer[2 * k]
        };
        lemma_hex_text_round_trip(blake3_digest(ordered_concat(a, b)));
    }
}

/// The authentication path of a node in a batch of hexadecimal nodes is
/// hexadecimal.
pub proof fn lemma_path_of_is_hex(layer: Seq<Seq<char>>, i: int)
    requires
        all_hex(layer),
        0 <= i < layer.len(),
    ensures
        all_hex(path_of(layer, i)),
    decreases layer.len(),
{
    if layer.len() > 1 {
        lemma_pair_up_is_hex(layer);
        lemma_path_of_is_hex(pair_up(layer), i / 2);
        let path = path_of(layer, i);
        let rest = path_of(pair_up(layer), i / 2);
        assert forall|k: int| 0 <= k < path.len() implies is_hex(#[trigger] path[k]) by {
            if k == 0 {
                assert(path[0] == sibling_of(layer, i));
            } else {
                assert(path[k] == rest[k - 1]);
            }
        }
    }
}

/// Every path in `paths_of` over hexadecimal leaves is hexadecimal.
pub proof fn lemma_path_is_hex(leaves: Seq<Seq<char>>, leaf: Seq<char>)
    requires
        all_hex(leaves),
        leaves.contains(leaf),
    ensures
        all_hex(paths_of(leaves)[leaf]),
{
    lemma_first_index(leaves, leaf);
    lemma_path_of_is_hex(leaves, first_index(leaves, leaf));
}

/// The bytes of two digests, the smaller hexadecimal text first.
pub fn hex_concat_ordered(a_hex: &str, b_hex: &str) -> (bytes: Vec<u8>)
    requires
        is_hex(a_hex@),
        is_hex(b_hex@),
    ensures
        bytes@ == ordered_concat(a_hex@, b_hex@),
{
    let (a, b) = if str_le(a_hex, b_hex) {
        (a_hex, b_hex)
    } else {
        (b_hex, a_hex)
    };
    let mut bytes = match hex_decode(a) {
        Some(v) => v,
        None => Vec::new(),
    };
    let mut tail = match hex_decode(b) {
        Some(v) => v,
        None => Vec::new(),
    };
    bytes.append(&mut tail);
    bytes
}

/// Whether every item of `s` has the length of a digest: 64 characters.
pub open spec fn all_digest_long(s: Seq<Seq<char>>) -> bool {
    forall|i: int| 0 <= i < s.len() ==> (#[trigger] s[i]).len() == 64
}

/// The parent of two nodes: a digest of 64 hexadecimal digits.
pub fn parent_hash(left: &str, right: &str) -> (p: String)
    requires
        is_hex(left@),
        is_hex(right@),
    ensures
        p@ == parent_of(left@, right@),
        is_hex(p@),
        p@.len() == 64,
{
    let bytes = hex_concat_ordered(left, right);
    blake3_hex(bytes.as_slice())
}

/// The authentication paths of a batch, by leaf digest.
#[derive(Debug)]
pub struct MerklePaths {
    leaves: Vec<String>,
    paths: Vec<Vec<String>>,
}

impl MerklePaths {
    /// There is one path for each leaf.
    #[verifier::type_invariant]
    spec fn wf(&self) -> bool {
        self.leaves.len() == self.paths.len()
    }

    /// The paths by leaf digest.
    pub closed spec fn view(&self) -> Map<Seq<char>, Seq<Seq<char>>> {
        let leaves = views(self.leaves@);
        Map::new(
            |leaf: Seq<char>| leaves.contains(leaf),
            |leaf: Seq<char>| views(self.paths@[first_index(leaves, leaf)]@),
        )
    }

    /// The path recorded for `leaf`, if `leaf` was in the batch.
    pub fn get(&self, leaf: &str) -> (r: Option<&Vec<String>>)
        ensures
            self@.dom().contains(leaf@) ==> r is Some && views(r->0@) == self@[leaf@],
            !self@.dom().contains(leaf@) ==> r is None,
    {
        proof {
            use_type_invariant(self);
        }
        let mut i: usize = 0;
        while i < self.leaves.len()
            invariant
                i <= self.leaves.len(),
                self.leaves.len() == self.paths.len(),
                forall|k: int| 0 <= k < i ==> #[trigger] views(self.leaves@)[k] != leaf@,
            decreases self.leaves.len() - i,
        {
            if str_eq(self.leaves[i].as_str(), leaf) {
                proof {
                    let s = views(self.leaves@);
                    assert(s[i as int] == leaf@);
                    lemma_first_index(s, leaf@);
                    let f = first_index(s, leaf@);
                    if f < i {
                        assert(s[f] != leaf@);
                    }
                }
                return Some(&self.paths[i]);
            }
            i += 1;
        }
        proof {
            let s = views(self.leaves@);
            if s.contains(leaf@) {
                let j = choose|j: int| 0 <= j < s.len() && s[j] == leaf@;
                assert(s[j] != leaf@);
            }
        }
        None
    }
}

/// Whether `layers` is a tree: each layer but the last has more than one node
/// and is followed by the layer above it, the last is a single node, and every
/// node above the leaves has the length of a digest.
spec fn is_tree(layers: Seq<Vec<String>>) -> bool {
    &&& layers.len() >= 1
    &&& forall|l: int| 0 <= l < layers.len() ==> all_hex(#[trigger] views(layers[l]@))
    &&& forall|l: int| 1 <= l < layers.len() ==> all_digest_long(#[trigger] views(layers[l]@))
    &&& forall|l: int|
        0 <= l < layers.len() - 1 ==> (#[trigger] views(layers[l]@)).len() > 1 && views(
            layers[l + 1]@,
        ) == pair_up(views(layers[l]@))
    &&& views(layers[layers.len() - 1]@).len() == 1
}

/// The root over any layer of a tree is the node of its last layer.
proof fn lemma_tree_root(layers: Seq<Vec<String>>, l: int)
    requires
        is_tree(layers),
        0 <= l < layers.len(),
    ensures
        root_of(views(layers[l]@)) == views(layers[layers.len() - 1]@)[0],
    decreases layers.len() - l,
{
    if l < layers.len() - 1 {
        assert(views(layers[l]@).len() > 1);
        lemma_tree_root(layers, l + 1);
    }
}

/// The layer above `layer`.
fn pair_layer(layer: &Vec<String>) -> (next: Vec<String>)
    requires
        all_hex(views(layer@)),
    ensures
        views(next@) == pair_up(views(layer@)),
        all_hex(views(next@)),
        all_digest_long(views(next@)),
{
    let n = layer.len();
    let half = n / 2;
    let mut next: Vec<String> = Vec::new();
    let mut k: usize = 0;
    let ghost low = views(layer@);
    while k < half
        invariant
            n == layer.len(),
            half == n / 2,
            low == views(layer@),
            all_hex(low),
            k <= half,
            next.len() == k,
            all_hex(views(next@)),
            all_digest_long(views(next@)),
            forall|j: int| 0 <= j < k ==> #[trigger] views(next@)[j] == pair_up(low)[j],
        decreases half - k,
    {
        assert(is_hex(low[2 * k]));
        assert(is_hex(low[2 * k + 1]));
        let p = parent_hash(layer[2 * k].as_str(), layer[2 * k + 1].as_str());
        let ghost before = views(next@);
        next.push(p);
        proof {
            assert(views(next@) =~= before.push(p@));
        }
        k += 1;
    }
    if n % 2 == 1 {
        assert(is_hex(low[n - 1]));
        let p = parent_hash(layer[n - 1].as_str(), layer[n - 1].as_str());
        let ghost before = views(next@);
        next.push(p);
        proof {
            assert(views(next@) =~= before.push(p@));
        }
    }
    proof {
        assert(views(next@) =~= pair_up(low));
    }
    next
}

/// A copy of `v`.
pub fn copy_strings(v: &[String]) -> (out: Vec<String>)
    ensures
        views(out@) == views(v@),
{
    let mut out: Vec<String> = Vec::new();
    let mut i: usize = 0;
    while i < v.len()
        invariant
            i <= v.len(),
            views(out@) == views(v@).take(i as int),
        decreases v.len() - i,
    {
        let ghost before = views(out@);
        out.push(v[i].clone());
        proof {
            assert(views(out@) =~= before.push(v@[i as int]@));
            assert(views(v@).take(i + 1) =~= views(v@).take(i as int).push(v@[i as int]@));
        }
        i += 1;
    }
    proof {
        assert(views(v@).take(i as int) =~= views(v@));
    }
    out
}

/// All layers of the tree over `leaves`, the leaves first.
fn build_layers(leaves: &[String]) -> (layers: Vec<Vec<String>>)
    requires
        leaves@.len() > 0,
        all_hex(views(leaves@)),
    ensures
        is_tree(layers@),
        views(layers@[0]@) == views(leaves@),
{
    let mut layers: Vec<Vec<String>> = Vec::new();
    let mut cur = copy_strings(leaves);
    assert(views(cur@).len() == cur.len());
    assert(views(leaves@).len() == leaves@.len());
    while cur.len() > 1
        invariant
            cur.len() >= 1,
            all_hex(views(cur@)),
            forall|l: int| 0 <= l < layers.len() ==> all_hex(#[trigger] views(layers@[l]@)),
            forall|l: int|
                1 <= l < layers.len() ==> all_digest_long(#[trigger] views(layers@[l]@)),
            layers.len() > 0 ==> all_digest_long(views(cur@)),
            forall|l: int|
                0 <= l < layers.len() ==> (#[trigger] views(layers@[l]@)).len() > 1,
            forall|l: int|
                0 <= l < layers.len() - 1 ==> views(layers@[l + 1]@) == pair_up(
                    #[trigger] views(layers@[l]@),
                ),
            layers.len() > 0 ==> views(cur@) == pair_up(views(layers@[layers.len() - 1]@)),
            layers.len() > 0 ==> views(layers@[0]@) == views(leaves@),
            layers.len() == 0 ==> views(cur@) == views(leaves@),
        decreases cur.len(),
    {
        let next = pair_layer(&cur);
        assert(views(cur@).len() == cur.len());
        assert(views(next@).len() == next.len());
        layers.push(cur);
        cur = next;
    }
    assert(views(cur@).len() == cur.len());
    layers.push(cur);
    layers
}

/// The authentication path of leaf `i`, read off the layers of the tree.
fn leaf_path(layers: &Vec<Vec<String>>, i: usize) -> (path: Vec<String>)
    requires
        is_tree(layers@),
        i < layers@[0].len(),
    ensures
        views(path@) == path_of(views(layers@[0]@), i as int),
        all_hex(views(path@)),
{
    let mut path: Vec<String> = Vec::new();
    let mut p: usize = i;
    let mut l: usize = 0;
    proof {
        assert(views(path@) =~= Seq::<Seq<char>>::empty());
        assert(Seq::<Seq<char>>::empty() + path_of(views(layers@[0]@), i as int) =~= path_of(
            views(layers@[0]@),
            i as int,
        ));
    }
    while l + 1 < layers.len()
        invariant
            is_tree(layers@),
            l < layers.len(),
            p < layers@[l as int].len(),
            all_hex(views(path@)),
            path_of(views(layers@[0]@), i as int) == views(path@) + path_of(
                views(layers@[l as int]@),
                p as int,
            ),
        decreases layers.len() - l,
    {
        let layer = &layers[l];
        let ghost low = views(layer@);
        assert(low.len() > 1);
        assert(low.len() == layer.len());
        let j = if p % 2 == 1 {
            p - 1
        } else if p + 1 < layer.len() {
            p + 1
        } else {
            p
        };
        let ghost before = views(path@);
        assert(is_hex(low[j as int]));
        path.push(layer[j].clone());
        proof {
            assert(low[j as int] == sibling_of(low, p as int));
            assert(views(path@) =~= before.push(sibling_of(low, p as int)));
            assert(views(layers@[l + 1]@) == pair_up(low));
            assert(path_of(low, p as int) == seq![sibling_of(low, p as int)] + path_of(
                pair_up(low),
                p as int / 2,
            ));
            assert(before + path_of(low, p as int) =~= views(path@) + path_of(
                pair_up(low),
                p as int / 2,
            ));
        }
        p = p / 2;
        l += 1;
    }
    proof {
        let top = views(layers@[l as int]@);
        assert(top.len() == 1);
        assert(views(path@) + path_of(top, p as int) =~= views(path@));
    }
    path
}

/// Builds the tree over `leaves`: its root, and the authentication path of
/// every leaf. The root of an empty batch is the empty text, the root of a
/// single leaf is that leaf, and any other root is a digest of 64 hexadecimal
/// digits.
pub fn build_merkle(leaves: &[String]) -> (r: (String, MerklePaths))
    requires
        all_hex(views(leaves@)),
    ensures
        r.0@ == root_of(views(leaves@)),
        r.1@ == paths_of(views(leaves@)),
        forall|leaf: Seq<char>|
            views(leaves@).contains(leaf) ==> fold_path(leaf, #[trigger] r.1@[leaf]) == r.0@,
        is_hex(r.0@),
        leaves@.len() >= 2 ==> r.0@.len() == 64,
{
    let ghost low = views(leaves@);
    if leaves.len() == 0 {
        let table = MerklePaths { leaves: Vec::new(), paths: Vec::new() };
        proof {
            assert(views(table.leaves@) =~= low);
            assert(table@ =~= paths_of(low));
        }
        return (String::new(), table);
    }
    let layers = build_layers(leaves);
    let mut paths: Vec<Vec<String>> = Vec::new();
    let mut i: usize = 0;
    while i < leaves.len()
        invariant
            i <= leaves.len(),
            is_tree(layers@),
            low == views(leaves@),
            views(layers@[0]@) == low,
            paths.len() == i,
            forall|k: int| 0 <= k < i ==> #[trigger] views(paths@[k]@) == path_of(low, k),
        decreases leaves.len() - i,
    {
        assert(layers@[0].len() == views(layers@[0]@).len());
        let path = leaf_path(&layers, i);
        paths.push(path);
        i += 1;
    }
    let top = &layers[layers.len() - 1];
    assert(views(top@).len() == 1);
    assert(top.len() == views(top@).len());
    let root = top[0].clone();
    proof {
        assert(is_hex(views(top@)[0]));
        if leaves@.len() >= 2 {
            assert(views(layers@[0]@).len() == leaves@.len());
            assert(layers@.len() >= 2);
            assert(all_digest_long(views(layers@[layers@.len() - 1]@)));
            assert(views(top@)[0].len() == 64);
        }
    }
    let kept = copy_strings(leaves);
    let table = MerklePaths { leaves: kept, paths };
    proof {
        lemma_tree_root(layers@, 0);
        assert(root@ == views(top@)[0]);
        assert forall|leaf: Seq<char>| low.contains(leaf) implies #[trigger] table@[leaf]
            == paths_of(low)[leaf] by {
            lemma_first_index(low, leaf);
        }
        assert(table@ =~= paths_of(low));
        assert forall|leaf: Seq<char>| low.contains(leaf) implies fold_path(
            leaf,
            #[trigger] table@[leaf],
        ) == root@ by {
            lemma_paths_fold_to_root(low, leaf);
        }
    }
    (root, table)
}

/// Folds `path` into `leaf`: the digest that a verifier compares with the
/// published root.
pub fn fold_path_to_root(leaf: &str, path: &[String]) -> (root: String)
    requires
        is_hex(leaf@),
        all_hex(views(path@)),
    ensures
        root@ == fold_path(leaf@, views(path@)),
        is_hex(root@),
        path@.len() >= 1 ==> root@.len() == 64,
{
    let mut cur = leaf.to_owned();
    let mut i: usize = 0;
    let ghost all = views(path@);
    proof {
        assert(all.skip(0) =~= all);
    }
    while i < path.len()
        invariant
            i <= path.len(),
            all == views(path@),
            all_hex(all),
            is_hex(cur@),
            i >= 1 ==> cur@.len() == 64,
            fold_path(leaf@, all) == fold_path(cur@, all.skip(i as int)),
        decreases path.len() - i,
    {
        assert(is_hex(all[i as int]));
        let next = parent_hash(cur.as_str(), path[i].as_str());
        proof {
            let rest = all.skip(i as int);
            assert(rest[0] == all[i as int]);
            assert(rest.drop_first() =~= all.skip(i + 1));
        }
        cur = next;
        i += 1;
    }
    cur
}

} // verus!
