//! The peer policy: which actors may hand in receipts. With no allow-list, or
//! an empty one, every actor may: the gateway is open unless it is told
//! otherwise.

use crate::text::{str_eq, views};
use vstd::prelude::*;

verus! {

/// The policy as it is configured: the list of allowed actor ids.
#[derive(Debug)]
pub struct PeerPolicy {
    pub allow_ids: Vec<String>,
}

/// The policy as it is enforced. It is built once and only read after that.
#[derive(Debug)]
pub struct PeerGuard {
    allow: Option<Vec<String>>,
}

impl PeerGuard {
    /// The allowed actor ids; `None` where every actor is allowed.
    pub closed spec fn allow_list(&self) -> Option<Set<Seq<char>>> {
        match self.allow {
            Some(ids) => Some(views(ids@).to_set()),
            None => None,
        }
    }

    /// Whether the actor `id` may hand in receipts.
    pub open spec fn permits(&self, id: Seq<char>) -> bool {
        match self.allow_list() {
            None => true,
            Some(ids) => ids.contains(id),
        }
    }

    /// The guard for a configured policy. Without a policy, or with an empty
    /// allow-list, every actor is allowed; else the listed actors and no
    /// others.
    pub fn new(policy: Option<PeerPolicy>) -> (guard: PeerGuard)
        ensures
            policy is None || policy->0.allow_ids@.len() == 0 ==> guard.allow_list() is None
                && forall|id: Seq<char>| guard.permits(id),
            policy is Some && policy->0.allow_ids@.len() > 0 ==> guard.allow_list() == Some(
                views(policy->0.allow_ids@).to_set(),
            ) && forall|id: Seq<char>|
                guard.permits(id) == views(policy->0.allow_ids@).contains(id),
    {
        match policy {
            Some(cfg) => {
                if cfg.allow_ids.len() > 0 {
                    PeerGuard { allow: Some(cfg.allow_ids) }
                } else {
                    PeerGuard { allow: None }
                }
            },
            None => PeerGuard { allow: None },
        }
    }

    /// Whether the actor `actor_id` may hand in receipts.
    #[must_use]
    pub fn allowed(&self, actor_id: &str) -> (r: bool)
        ensures
            r == self.permits(actor_id@),
    {
        match &self.allow {
            None => true,
            Some(ids) => {
                let mut i: usize = 0;
                while i < ids.len()
                    invariant
                        i <= ids.len(),
                        self.allow == Some(*ids),
                        forall|k: int| 0 <= k < i ==> (#[trigger] views(ids@)[k]) != actor_id@,
                    decreases ids.len() - i,
                {
                    if str_eq(ids[i].as_str(), actor_id) {
                        proof {
                            assert(views(ids@)[i as int] == actor_id@);
                            assert(views(ids@).contains(actor_id@));
                        }
                        return true;
                    }
                    i += 1;
                }
                proof {
                    let s = views(ids@);
                    if s.contains(actor_id@) {
                        let j = choose|j: int| 0 <= j < s.len() && s[j] == actor_id@;
                        assert(s[j] != actor_id@);
                    }
                }
                false
            },
        }
    }
}

} // verus!
