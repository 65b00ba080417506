//! What peers exchange, and the fold that summarizes the receipts a node
//! holds.

pub mod policy;

use crate::digest::{blake3_hex, digest_hex, is_hex};
use crate::receipt::{Provenance, Receipt};
use crate::text::{lemma_sorted_of_permutation, sorted, views};
use vstd::prelude::*;
use vstd::string::StrSliceExecFns;
use vstd::utf8::encode_utf8;

verus! {

/// How far a peer is trusted.
#[derive(Debug, Clone, Copy, PartialEq, Eq, Structural)]
pub enum TrustLevel {
    Full,
    ReadOnly,
    Quarantine,
}

/// A peer: its identity, where its ledger is, and how far it is trusted.
#[derive(Debug)]
pub struct PeerInfo {
    pub id: String,
    pub url: String,
    pub trust: TrustLevel,
}

/// A receipt with the provenance record it refers to, as peers exchange them.
#[derive(Debug)]
pub struct PeerReceiptBundle {
    pub receipt: Receipt,
    pub provenance: Provenance,
}

/// The UTF-8 bytes of the digests, one after the other.
pub open spec fn joined_bytes(digests: Seq<Seq<char>>) -> Seq<u8>
    decreases digests.len(),
{
    if digests.len() == 0 {
        Seq::empty()
    } else {
        joined_bytes(digests.drop_last()) + encode_utf8(digests.last())
    }
}

/// The fold over a list of digests: the digest of their texts, one after the
/// other.
pub open spec fn fold_of(digests: Seq<Seq<char>>) -> Seq<char> {
    digest_hex(joined_bytes(digests))
}

/// The fold over `digests`, in the order given: a digest of 64 hexadecimal
/// digits, also where there are no digests.
pub fn merkle_root(digests: &[String]) -> (root: String)
    ensures
        root@ == fold_of(views(digests@)),
        is_hex(root@),
        root@.len() == 64,
{
    let mut bytes: Vec<u8> = Vec::new();
    let mut i: usize = 0;
    let ghost all = views(digests@);
    proof {
        assert(all.take(0) =~= Seq::<Seq<char>>::empty());
    }
    while i < digests.len()
        invariant
            i <= digests.len(),
            all == views(digests@),
            bytes@ == joined_bytes(all.take(i as int)),
        decreases digests.len() - i,
    {
        let mut part = digests[i].as_str().as_bytes_vec();
        bytes.append(&mut part);
        proof {
            assert(all.take(i + 1).drop_last() =~= all.take(i as int));
            assert(all.take(i + 1).last() == digests@[i as int]@);
        }
        i += 1;
    }
    proof {
        assert(all.take(i as int) =~= all);
    }
    blake3_hex(bytes.as_slice())
}

/// The fold over the sorted digests does not depend on the order in which the
/// digests were given.
pub proof fn lemma_sorted_fold_ignores_order(a: Seq<Seq<char>>, b: Seq<Seq<char>>)
    requires
        a.to_multiset() == b.to_multiset(),
    ensures
        fold_of(sorted(a)) == fold_of(sorted(b)),
{
    lemma_sorted_of_permutation(a, b);
}

} // verus!
