//! The per-tenant connection registry and its broadcast discipline.
//!
//! The registry holds, per tenant, the connections currently registered
//! under it, each as a numeric handle issued once and never reused. A
//! broadcast snapshots a bucket under the lock, performs its sends outside
//! it, and then filters the bucket down by the handles whose send failed;
//! pruning is lazy, so a dead connection leaves its bucket only when the
//! next broadcast targets its tenant. A tenant id of zero marks a rejected
//! upgrade and never reaches any bucket.

use vstd::prelude::*;

verus! {

/// The connections registered under one tenant, in registration order.
pub struct TenantBucket {
    pub tenant_id: i32,
    pub conns: Vec<u64>,
}

/// Error of the transport-upgrade step: the request named no usable tenant
/// and was rejected before any state was created.
#[derive(Clone, Copy, Debug, PartialEq, Eq, Structural)]
pub enum UpgradeError {
    BadRequest,
}

/// The connections of `s` that are not listed in `failed`, in order.
pub open spec fn retained(s: Seq<u64>, failed: Seq<u64>) -> Seq<u64> {
    s.filter(|c: u64| !failed.contains(c))
}

/// The registry of live outbound connections, bucketed by tenant id.
/// `next_conn_id` is the handle the next registration will receive.
pub struct ConnectionRegistry {
    pub buckets: Vec<TenantBucket>,
    pub next_conn_id: u64,
}

impl ConnectionRegistry {
    /// One bucket per tenant, no bucket for the rejected tenant id zero,
    /// every handle below the issue counter, and no handle twice in one
    /// bucket.
    pub open spec fn wf(self) -> bool {
        &&& forall|i: int, j: int|
            0 <= i < j < self.buckets@.len() ==> self.buckets@[i].tenant_id != self.buckets@[
                j
            ].tenant_id
        &&& forall|i: int|
            0 <= i < self.buckets@.len() ==> (#[trigger] self.buckets@[i]).tenant_id != 0
        &&& forall|i: int, a: int|
            0 <= i < self.buckets@.len() && 0 <= a < self.buckets@[i].conns@.len()
                ==> #[trigger] self.buckets@[i].conns@[a] < self.next_conn_id
        &&& forall|i: int, a: int, b: int|
            #![trigger self.buckets@[i].conns@[a], self.buckets@[i].conns@[b]]
            0 <= i < self.buckets@.len() && 0 <= a < b < self.buckets@[i].conns@.len()
                ==> self.buckets@[i].conns@[a] != self.buckets@[i].conns@[b]
    }

    /// Whether a bucket for tenant `t` exists.
    pub open spec fn has_tenant(self, t: i32) -> bool {
        exists|i: int| 0 <= i < self.buckets@.len() && self.buckets@[i].tenant_id == t
    }

    /// The index of the bucket for tenant `t`, when one exists.
    pub open spec fn bucket_index_of(self, t: i32) -> int {
        choose|i: int| 0 <= i < self.buckets@.len() && self.buckets@[i].tenant_id == t
    }

    /// The connections registered under tenant `t`, in registration order;
    /// empty when no bucket exists.
    pub open spec fn bucket_of(self, t: i32) -> Seq<u64> {
        if self.has_tenant(t) {
            self.buckets@[self.bucket_index_of(t)].conns@
        } else {
            Seq::<u64>::empty()
        }
    }

    /// In a well-formed registry, a bucket found at index `i` is the bucket
    /// `bucket_of` speaks of.
    proof fn lemma_found_bucket(self, t: i32, i: int)
        requires
            self.wf(),
            0 <= i < self.buckets@.len(),
            self.buckets@[i].tenant_id == t,
        ensures
            self.has_tenant(t),
            self.bucket_index_of(t) == i,
            self.bucket_of(t) == self.buckets@[i].conns@,
    {
        assert(self.has_tenant(t));
        let j = self.bucket_index_of(t);
        if i < j {
            assert(self.buckets@[i].tenant_id != self.buckets@[j].tenant_id);
        } else if j < i {
            assert(self.buckets@[j].tenant_id != self.buckets@[i].tenant_id);
        }
    }

    /// Buckets other than the one at index `i` read the same in `self` as
    /// in `prior`, index for index.
    proof fn lemma_other_buckets(self, prior: ConnectionRegistry, t: i32, i: int)
        requires
            self.wf(),
            prior.wf(),
            self.buckets@.len() == prior.buckets@.len(),
            0 <= i < self.buckets@.len(),
            self.buckets@[i].tenant_id != t,
            prior.buckets@[i].tenant_id != t,
            forall|k: int|
                0 <= k < self.buckets@.len() && k != i ==> #[trigger] self.buckets@[k]
                    == prior.buckets@[k],
        ensures
            self.bucket_of(t) == prior.bucket_of(t),
    {
        if self.has_tenant(t) {
            let k = self.bucket_index_of(t);
            assert(0 <= k < self.buckets@.len() && self.buckets@[k].tenant_id == t);
            assert(k != i);
            assert(prior.buckets@[k].tenant_id == t);
            prior.lemma_found_bucket(t, k);
            self.lemma_found_bucket(t, k);
        } else if prior.has_tenant(t) {
            let k = prior.bucket_index_of(t);
            assert(0 <= k < prior.buckets@.len() && prior.buckets@[k].tenant_id == t);
            assert(k != i);
            assert(self.buckets@[k].tenant_id == t);
            assert(self.has_tenant(t));
        }
    }

    /// An empty registry; handles start at one.
    pub fn new() -> (r: ConnectionRegistry)
        ensures
            r.wf(),
            r.next_conn_id == 1,
            forall|t: i32| r.bucket_of(t) == Seq::<u64>::empty(),
    {
        let r = ConnectionRegistry { buckets: Vec::new(), next_conn_id: 1 };
        proof {
            assert forall|t: i32| r.bucket_of(t) == Seq::<u64>::empty() by {
                assert(!r.has_tenant(t));
            }
        }
        r
    }

    /// The index of the bucket for `tenant_id`, when one exists.
    fn find_bucket(&self, tenant_id: i32) -> (r: Option<usize>)
        ensures
            match r {
                Some(i) => 0 <= i < self.buckets@.len() && self.buckets@[i as int].tenant_id
                    == tenant_id,
                None => !self.has_tenant(tenant_id),
            },
    {
        let n = self.buckets.len();
        let mut k: usize = 0;
        while k < n
            invariant
                0 <= k <= n,
                n == self.buckets@.len(),
                forall|j: int| 0 <= j < k ==> self.buckets@[j].tenant_id != tenant_id,
            decreases n - k,
        {
            if self.buckets[k].tenant_id == tenant_id {
                return Some(k);
            }
            k += 1;
        }
        None
    }

    /// Appends a fresh connection handle to the bucket for `tenant_id`,
    /// creating the bucket if absent, and returns the handle. Pure
    /// in-memory append: no failure mode.
    pub fn register(&mut self, tenant_id: i32) -> (id: u64)
        requires
            old(self).wf(),
            tenant_id != 0,
            old(self).next_conn_id < u64::MAX,
        ensures
            final(self).wf(),
            id == old(self).next_conn_id,
            final(self).next_conn_id == old(self).next_conn_id + 1,
            final(self).bucket_of(tenant_id) == old(self).bucket_of(tenant_id).push(id),
            forall|t: i32| t != tenant_id ==> final(self).bucket_of(t) == old(self).bucket_of(t),
    {
        let ghost prior = *self;
        let id = self.next_conn_id;
        self.next_conn_id = id + 1;
        match self.find_bucket(tenant_id) {
            Some(i) => {
                proof {
                    prior.lemma_found_bucket(tenant_id, i as int);
                }
                let mut bucket = self.buckets.remove(i);
                bucket.conns.push(id);
                self.buckets.insert(i, bucket);
                proof {
                    assert(self.buckets@.len() == prior.buckets@.len());
                    assert forall|k: int|
                        0 <= k < self.buckets@.len() && k != i implies #[trigger] self.buckets@[k]
                        == prior.buckets@[k] by {
                        if k < i {
                        } else {
                        }
                    }
                    assert(self.buckets@[i as int].tenant_id == tenant_id);
                    assert(self.buckets@[i as int].conns@ =~= prior.buckets@[i as int].conns@.push(
                        id,
                    ));
                    assert(self.wf());
                    self.lemma_found_bucket(tenant_id, i as int);
                    assert(self.bucket_of(tenant_id) =~= prior.bucket_of(tenant_id).push(id));
                    assert forall|t: i32| t != tenant_id implies self.bucket_of(t)
                        == prior.bucket_of(t) by {
                        self.lemma_other_buckets(prior, t, i as int);
                    }
                }
            },
            None => {
                let mut conns: Vec<u64> = Vec::new();
                conns.push(id);
                let bucket = TenantBucket { tenant_id, conns };
                self.buckets.push(bucket);
                proof {
                    let n = prior.buckets@.len() as int;
                    assert(self.buckets@[n].tenant_id == tenant_id);
                    assert(self.wf());
                    self.lemma_found_bucket(tenant_id, n);
                    assert(!prior.has_tenant(tenant_id));
                    assert(self.bucket_of(tenant_id) =~= prior.bucket_of(tenant_id).push(id));
                    assert forall|t: i32| t != tenant_id implies self.bucket_of(t)
                        == prior.bucket_of(t) by {
                        if self.has_tenant(t) {
                            let k = self.bucket_index_of(t);
                            assert(0 <= k < self.buckets@.len() && self.buckets@[k].tenant_id
                                == t);
                            assert(k != n);
                            prior.lemma_found_bucket(t, k);
                            self.lemma_found_bucket(t, k);
                        } else {
                            assert(!prior.has_tenant(t)) by {
                                if prior.has_tenant(t) {
                                    let k = prior.bucket_index_of(t);
                                    assert(self.buckets@[k].tenant_id == t);
                                }
                            }
                        }
                    }
                }
            },
        }
        id
    }

    /// Registers a transport upgrade: a missing tenant id or the id zero is
    /// rejected as a bad request before any state is created; any other id
    /// is registered and receives a fresh connection handle.
    pub fn handle_upgrade(&mut self, tenant_id: Option<i32>) -> (r: Result<u64, UpgradeError>)
        requires
            old(self).wf(),
            old(self).next_conn_id < u64::MAX,
        ensures
            final(self).wf(),
            match tenant_id {
                Some(t) => if t != 0 {
                    &&& r == Ok::<u64, UpgradeError>(old(self).next_conn_id)
                    &&& final(self).next_conn_id == old(self).next_conn_id + 1
                    &&& final(self).bucket_of(t) == old(self).bucket_of(t).push(
                        old(self).next_conn_id,
                    )
                    &&& forall|u: i32|
                        u != t ==> final(self).bucket_of(u) == old(self).bucket_of(u)
                } else {
                    r == Err::<u64, UpgradeError>(UpgradeError::BadRequest) && *final(self)
                        == *old(self)
                },
                None => r == Err::<u64, UpgradeError>(UpgradeError::BadRequest) && *final(self)
                    == *old(self),
            },
    {
        let t = match tenant_id {
            Some(t) => t,
            None => 0,
        };
        if t == 0 {
            return Err(UpgradeError::BadRequest);
        }
        Ok(self.register(t))
    }

    /// A copy of the bucket for `tenant_id`, taken in one step so that the
    /// sends that follow happen outside the lock that guards the registry.
    pub fn snapshot(&self, tenant_id: i32) -> (r: Vec<u64>)
        requires
            self.wf(),
        ensures
            r@ == self.bucket_of(tenant_id),
    {
        match self.find_bucket(tenant_id) {
            Some(i) => {
                proof {
                    self.lemma_found_bucket(tenant_id, i as int);
                }
                let conns = &self.buckets[i].conns;
                let n = conns.len();
                let mut out: Vec<u64> = Vec::new();
                let mut k: usize = 0;
                while k < n
                    invariant
                        0 <= k <= n,
                        n == conns@.len(),
                        out@ =~= conns@.take(k as int),
                    decreases n - k,
                {
                    out.push(conns[k]);
                    k += 1;
                }
                proof {
                    assert(out@ =~= conns@);
                }
                out
            },
            None => Vec::new(),
        }
    }

    /// Removes from the bucket for `tenant_id` exactly the connections
    /// listed in `failed`, keeping every other connection — including any
    /// registered since the snapshot was taken — in order.
    pub fn prune(&mut self, tenant_id: i32, failed: &Vec<u64>)
        requires
            old(self).wf(),
        ensures
            final(self).wf(),
            final(self).next_conn_id == old(self).next_conn_id,
            final(self).bucket_of(tenant_id) == retained(old(self).bucket_of(tenant_id), failed@),
            forall|t: i32| t != tenant_id ==> final(self).bucket_of(t) == old(self).bucket_of(t),
    {
        let ghost prior = *self;
        match self.find_bucket(tenant_id) {
            Some(i) => {
                proof {
                    prior.lemma_found_bucket(tenant_id, i as int);
                }
                let mut bucket = self.buckets.remove(i);
                let ghost orig = bucket.conns@;
                let ghost nc = prior.next_conn_id;
                proof {
                    assert forall|x: int| 0 <= x < orig.len() implies #[trigger] orig[x] < nc by {
                        assert(prior.buckets@[i as int].conns@[x] < prior.next_conn_id);
                    }
                    assert forall|x: int, y: int|
                        #![trigger orig[x], orig[y]]
                        0 <= x < y < orig.len() implies orig[x] != orig[y] by {
                        assert(prior.buckets@[i as int].conns@[x] != prior.buckets@[
                            i as int
                        ].conns@[y]);
                    }
                }
                let n = bucket.conns.len();
                let mut kept: Vec<u64> = Vec::new();
                let mut k: usize = 0;
                while k < n
                    invariant
                        0 <= k <= n,
                        n == bucket.conns@.len(),
                        bucket.conns@ == orig,
                        kept@ == retained(orig.take(k as int), failed@),
                        forall|x: int| 0 <= x < orig.len() ==> #[trigger] orig[x] < nc,
                        forall|x: int, y: int|
                            #![trigger orig[x], orig[y]]
                            0 <= x < y < orig.len() ==> orig[x] != orig[y],
                        forall|a: int|
                            0 <= a < kept@.len() ==> exists|j: int|
                                0 <= j < k && orig[j] == #[trigger] kept@[a],
                        forall|a: int| 0 <= a < kept@.len() ==> #[trigger] kept@[a] < nc,
                        forall|a: int, b: int|
                            #![trigger kept@[a], kept@[b]]
                            0 <= a < b < kept@.len() ==> kept@[a] != kept@[b],
                    decreases n - k,
                {
                    let c = bucket.conns[k];
                    let mut is_failed = false;
                    let m = failed.len();
                    let mut f: usize = 0;
                    while f < m
                        invariant
                            0 <= f <= m,
                            m == failed@.len(),
                            is_failed == exists|j: int| 0 <= j < f && failed@[j] == c,
                        decreases m - f,
                    {
                        if failed[f] == c {
                            is_failed = true;
                        }
                        f += 1;
                    }
                    proof {
                        assert(is_failed == failed@.contains(c));
                        assert(orig.take(k + 1).drop_last() =~= orig.take(k as int));
                        assert(orig.take(k + 1).last() == c);
                        reveal(Seq::filter);
                    }
                    if !is_failed {
                        let ghost before = kept@;
                        kept.push(c);
                        proof {
                            assert(kept@ =~= retained(orig.take(k + 1), failed@));
                            assert forall|a: int|
                                0 <= a < before.len() implies before[a] != c by {
                                let j = choose|j: int|
                                    0 <= j < k && orig[j] == before[a];
                                assert(orig[j] != orig[k as int]);
                            }
                        }
                    } else {
                        proof {
                            assert(kept@ =~= retained(orig.take(k + 1), failed@));
                        }
                    }
                    k += 1;
                }
                proof {
                    assert(orig.take(n as int) =~= orig);
                }
                bucket.conns = kept;
                self.buckets.insert(i, bucket);
                proof {
                    assert(self.buckets@.len() == prior.buckets@.len());
                    assert forall|k2: int|
                        0 <= k2 < self.buckets@.len() && k2 != i implies #[trigger] self.buckets@[
                        k2
                    ] == prior.buckets@[k2] by {}
                    assert(self.buckets@[i as int].tenant_id == tenant_id);
                    assert(self.buckets@[i as int].conns@ == retained(orig, failed@));
                    assert(self.wf());
                    self.lemma_found_bucket(tenant_id, i as int);
                    assert forall|t: i32| t != tenant_id implies self.bucket_of(t)
                        == prior.bucket_of(t) by {
                        self.lemma_other_buckets(prior, t, i as int);
                    }
                }
            },
            None => {
                proof {
                    assert(prior.bucket_of(tenant_id) =~= Seq::<u64>::empty());
                    assert(retained(Seq::<u64>::empty(), failed@) =~= Seq::<u64>::empty()) by {
                        reveal(Seq::filter);
                    }
                }
            },
        }
    }
}

/// What one broadcast under tenant `t` guarantees: the snapshot handed to
/// the sender lists every connection registered under `t` exactly once, so
/// each receives exactly one copy of the payload, and the bucket that the
/// prune leaves behind holds a connection if and only if the bucket held it
/// before and its send did not fail.
pub proof fn lemma_broadcast_exactly_once(reg: ConnectionRegistry, t: i32, failed: Seq<u64>)
    requires
        reg.wf(),
    ensures
        forall|a: int, b: int|
            0 <= a < b < reg.bucket_of(t).len() ==> reg.bucket_of(t)[a] != reg.bucket_of(t)[b],
        forall|c: u64|
            retained(reg.bucket_of(t), failed).contains(c) <==> reg.bucket_of(t).contains(c)
                && !failed.contains(c),
{
    if reg.has_tenant(t) {
        let i = reg.bucket_index_of(t);
        assert(0 <= i < reg.buckets@.len() && reg.buckets@[i].tenant_id == t);
        reg.lemma_found_bucket(t, i);
        assert forall|a: int, b: int|
            0 <= a < b < reg.bucket_of(t).len() implies reg.bucket_of(t)[a] != reg.bucket_of(t)[
            b
        ] by {
            assert(reg.buckets@[i].conns@[a] != reg.buckets@[i].conns@[b]);
        }
    }
    lemma_retained_membership(reg.bucket_of(t), failed);
}

/// Membership in a pruned bucket: a connection stays exactly when it was
/// there and its send did not fail.
pub proof fn lemma_retained_membership(s: Seq<u64>, failed: Seq<u64>)
    ensures
        forall|c: u64|
            retained(s, failed).contains(c) <==> s.contains(c) && !failed.contains(c),
    decreases s.len(),
{
    reveal(Seq::filter);
    if s.len() == 0 {
        assert forall|c: u64| !retained(s, failed).contains(c) by {}
        assert forall|c: u64| !s.contains(c) by {}
    } else {
        lemma_retained_membership(s.drop_last(), failed);
        let last = s.last();
        assert forall|c: u64|
            retained(s, failed).contains(c) implies s.contains(c) && !failed.contains(c) by {
            if c == last && !failed.contains(last) {
                assert(s.contains(c)) by {
                    assert(s[s.len() - 1] == c);
                }
            } else {
                if retained(s.drop_last(), failed).contains(c) {
                    assert(s.drop_last().contains(c));
                    let j = choose|j: int|
                        0 <= j < s.drop_last().len() && s.drop_last()[j] == c;
                    assert(s[j] == c);
                }
            }
        }
        assert forall|c: u64|
            s.contains(c) && !failed.contains(c) implies retained(s, failed).contains(c) by {
            let j = choose|j: int| 0 <= j < s.len() && s[j] == c;
            if j == s.len() - 1 {
                assert(c == last);
                assert(retained(s, failed).last() == c);
            } else {
                assert(s.drop_last()[j] == c);
                assert(s.drop_last().contains(c));
                assert(retained(s.drop_last(), failed).contains(c));
                let a = choose|a: int|
                    0 <= a < retained(s.drop_last(), failed).len() && retained(
                        s.drop_last(),
                        failed,
                    )[a] == c;
                assert(retained(s, failed)[a] == c);
            }
        }
    }
}

/// A tenant id of zero never appears in any bucket: the registry of a
/// well-formed system keeps no connections under it.
pub proof fn lemma_zero_tenant_never_registered(reg: ConnectionRegistry)
    requires
        reg.wf(),
    ensures
        reg.bucket_of(0) == Seq::<u64>::empty(),
{
    if reg.has_tenant(0) {
        let i = reg.bucket_index_of(0);
        assert(0 <= i < reg.buckets@.len() && reg.buckets@[i].tenant_id == 0);
        assert(reg.buckets@[i].tenant_id != 0);
    }
}

} // verus!
