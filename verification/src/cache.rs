//! The TTL-bounded, per-user cache of resolved permission sets.
//!
//! Each entry moves through one cycle: absent, populated by a miss that
//! computed the set from the source of truth, absent again on expiry of its
//! time to live or on explicit invalidation. An entry is mutated only by
//! full replacement. The cache is modelled by a map from user id to the
//! cached set and its expiry instant; times are seconds, handed in by the
//! caller.

use vstd::prelude::*;

use crate::permission::PermissionRecord;
use crate::text::{dec_int, i32_to_string};

verus! {

/// The store key under which one user's resolved permission set is cached.
pub fn user_permissions_key(user_id: i32) -> (r: String)
    ensures
        r@ == "user_permissions:"@ + dec_int(user_id as int),
{
    let mut key = "user_permissions:".to_owned();
    proof {
        reveal_strlit("user_permissions:");
    }
    key.append(i32_to_string(user_id).as_str());
    key
}

/// Time to live of one cache entry, in seconds: 24 hours.
pub const PERMISSION_TTL_SECS: u64 = 86400;

/// One populated cache entry: the resolved set for one user, valid until
/// `expires_at`.
pub struct CacheEntry {
    pub user_id: i32,
    pub perms: Vec<PermissionRecord>,
    pub expires_at: u64,
}

/// The per-user permission cache. At most one entry per user.
pub struct PermissionCache {
    pub entries: Vec<CacheEntry>,
}

impl PermissionCache {
    /// At most one entry per user id.
    pub open spec fn wf(self) -> bool {
        forall|i: int, j: int|
            0 <= i < j < self.entries@.len() ==> self.entries@[i].user_id != self.entries@[
                j
            ].user_id
    }

    /// Whether the cache holds an entry for `u`, live or expired.
    pub open spec fn has_user(self, u: i32) -> bool {
        exists|i: int| 0 <= i < self.entries@.len() && self.entries@[i].user_id == u
    }

    /// The index of the entry for `u`, when one exists.
    pub open spec fn index_of(self, u: i32) -> int {
        choose|i: int| 0 <= i < self.entries@.len() && self.entries@[i].user_id == u
    }

    /// The cache as a map from user id to the cached permission set and its
    /// expiry instant.
    pub open spec fn contents(self) -> Map<i32, (Seq<PermissionRecord>, u64)> {
        Map::new(
            |u: i32| self.has_user(u),
            |u: i32|
                (
                    self.entries@[self.index_of(u)].perms@,
                    self.entries@[self.index_of(u)].expires_at,
                ),
        )
    }

    /// Whether the entry for `u` exists and is still within its time to
    /// live at instant `now`.
    pub open spec fn live(self, u: i32, now: u64) -> bool {
        self.contents().contains_key(u) && now < self.contents()[u].1
    }

    /// In a well-formed cache, an entry found at index `i` is the entry the
    /// map speaks of.
    proof fn lemma_found_index(self, u: i32, i: int)
        requires
            self.wf(),
            0 <= i < self.entries@.len(),
            self.entries@[i].user_id == u,
        ensures
            self.has_user(u),
            self.index_of(u) == i,
            self.contents().contains_key(u),
            self.contents()[u] == (self.entries@[i].perms@, self.entries@[i].expires_at),
    {
        assert(self.has_user(u));
        let j = self.index_of(u);
        assert(0 <= j < self.entries@.len() && self.entries@[j].user_id == u);
        if i < j {
            assert(self.entries@[i].user_id != self.entries@[j].user_id);
        } else if j < i {
            assert(self.entries@[j].user_id != self.entries@[i].user_id);
        }
    }

    /// An empty cache.
    pub fn new() -> (r: PermissionCache)
        ensures
            r.wf(),
            r.contents() == Map::<i32, (Seq<PermissionRecord>, u64)>::empty(),
    {
        let r = PermissionCache { entries: Vec::new() };
        proof {
            assert(r.contents() =~= Map::<i32, (Seq<PermissionRecord>, u64)>::empty());
        }
        r
    }

    /// The index of the entry for `user_id`, when one exists.
    fn find(&self, user_id: i32) -> (r: Option<usize>)
        ensures
            match r {
                Some(i) => 0 <= i < self.entries@.len() && self.entries@[i as int].user_id
                    == user_id,
                None => !self.has_user(user_id),
            },
    {
        let n = self.entries.len();
        let mut k: usize = 0;
        while k < n
            invariant
                0 <= k <= n,
                n == self.entries@.len(),
                forall|j: int| 0 <= j < k ==> self.entries@[j].user_id != user_id,
            decreases n - k,
        {
            if self.entries[k].user_id == user_id {
                return Some(k);
            }
            k += 1;
        }
        None
    }

    /// The cached set for `user_id`, when its entry is still live at `now`;
    /// an expired entry is a miss, the same as an absent one.
    pub fn lookup(&self, user_id: i32, now: u64) -> (r: Option<&Vec<PermissionRecord>>)
        requires
            self.wf(),
        ensures
            r is Some <==> self.live(user_id, now),
            r matches Some(p) ==> p@ == self.contents()[user_id].0,
    {
        match self.find(user_id) {
            Some(i) => {
                proof {
                    self.lemma_found_index(user_id, i as int);
                }
                if now < self.entries[i].expires_at {
                    Some(&self.entries[i].perms)
                } else {
                    None
                }
            },
            None => None,
        }
    }

    /// Stores the freshly computed set for `user_id` with a full time to
    /// live from `now`, replacing whatever entry was there.
    pub fn populate(&mut self, user_id: i32, perms: Vec<PermissionRecord>, now: u64)
        requires
            old(self).wf(),
            now <= u64::MAX - PERMISSION_TTL_SECS,
        ensures
            final(self).wf(),
            final(self).contents() == old(self).contents().insert(
                user_id,
                (perms@, (now + PERMISSION_TTL_SECS) as u64),
            ),
    {
        let ghost pv = perms@;
        let entry = CacheEntry { user_id, perms, expires_at: now + PERMISSION_TTL_SECS };
        let ghost prior = *self;
        match self.find(user_id) {
            Some(i) => {
                proof {
                    prior.lemma_found_index(user_id, i as int);
                }
                self.entries[i] = entry;
                proof {
                    assert(self.entries@[i as int].user_id == user_id);
                    assert(self.has_user(user_id));
                }
            },
            None => {
                self.entries.push(entry);
                proof {
                    assert(self.entries@[self.entries@.len() - 1].user_id == user_id);
                    assert(self.has_user(user_id));
                }
            },
        }
        proof {
            assert forall|u: i32| #[trigger] self.has_user(u) implies prior.has_user(u) || u
                == user_id by {
                let i = choose|i: int|
                    0 <= i < self.entries@.len() && self.entries@[i].user_id == u;
                if u != user_id {
                    assert(prior.entries@[i].user_id == u);
                }
            }
            assert forall|u: i32| prior.has_user(u) implies #[trigger] self.has_user(u) by {
                let i = choose|i: int|
                    0 <= i < prior.entries@.len() && prior.entries@[i].user_id == u;
                if u == user_id {
                    assert(self.has_user(u));
                } else {
                    assert(self.entries@[i].user_id == u);
                }
            }
            assert forall|u: i32| self.has_user(u) && u != user_id implies self.index_of(u)
                == prior.index_of(u) && self.entries@[self.index_of(u)]
                == prior.entries@[prior.index_of(u)] by {
                let i = self.index_of(u);
                assert(0 <= i < self.entries@.len() && self.entries@[i].user_id == u);
                assert(prior.entries@[i].user_id == u);
                prior.lemma_found_index(u, i);
                self.lemma_found_index(u, i);
            }
            if self.has_user(user_id) {
                let i = self.index_of(user_id);
                assert(self.entries@[i].user_id == user_id);
                self.lemma_found_index(user_id, i);
            }
            assert(self.has_user(user_id));
            assert(self.contents() =~= prior.contents().insert(
                user_id,
                (pv, (now + PERMISSION_TTL_SECS) as u64),
            ));
        }
    }

    /// Deletes the entry for `user_id` unconditionally, whatever time to
    /// live it had left.
    pub fn invalidate(&mut self, user_id: i32)
        requires
            old(self).wf(),
        ensures
            final(self).wf(),
            final(self).contents() == old(self).contents().remove(user_id),
    {
        let ghost prior = *self;
        match self.find(user_id) {
            Some(i) => {
                proof {
                    prior.lemma_found_index(user_id, i as int);
                }
                self.entries.remove(i);
                proof {
                    assert forall|u: i32| #[trigger] self.has_user(u) implies prior.has_user(u)
                        && u != user_id by {
                        let k = choose|k: int|
                            0 <= k < self.entries@.len() && self.entries@[k].user_id == u;
                        if k < i {
                            assert(prior.entries@[k].user_id == u);
                        } else {
                            assert(prior.entries@[k + 1].user_id == u);
                        }
                    }
                    assert forall|u: i32| prior.has_user(u) && u != user_id implies #[trigger]
                        self.has_user(u) by {
                        let k = choose|k: int|
                            0 <= k < prior.entries@.len() && prior.entries@[k].user_id == u;
                        if k < i {
                            assert(self.entries@[k].user_id == u);
                        } else {
                            assert(k > i);
                            assert(self.entries@[k - 1].user_id == u);
                        }
                    }
                    assert forall|u: i32| self.has_user(u) implies self.entries@[self.index_of(
                        u,
                    )] == prior.entries@[prior.index_of(u)] by {
                        let k = self.index_of(u);
                        assert(0 <= k < self.entries@.len() && self.entries@[k].user_id == u);
                        if k < i {
                            prior.lemma_found_index(u, k);
                        } else {
                            prior.lemma_found_index(u, k + 1);
                        }
                    }
                    assert(self.contents() =~= prior.contents().remove(user_id));
                }
            },
            None => {
                proof {
                    assert(self.contents() =~= prior.contents().remove(user_id));
                }
            },
        }
    }
}

} // verus!
