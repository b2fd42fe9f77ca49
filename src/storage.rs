use vstd::prelude::*;
use crate::balances::{PoolBalance, Q4W};
use crate::user::{lemma_sum_nonnegative, q4w_sum, UserBalance};

verus! {

/// Index of the first entry of `s` under key `k`, or `s.len()` where none is.
pub open spec fn find<K, V>(s: Seq<(K, V)>, k: K) -> int
    decreases s.len(),
{
    if s.len() == 0 {
        0
    } else if s[0].0 == k {
        0
    } else {
        1 + find(s.drop_first(), k)
    }
}

pub proof fn lemma_find_bounds<K, V>(s: Seq<(K, V)>, k: K)
    ensures
        0 <= find(s, k) <= s.len(),
        find(s, k) < s.len() ==> s[find(s, k)].0 == k,
        forall|j: int| 0 <= j < find(s, k) ==> #[trigger] s[j].0 != k,
    decreases s.len(),
{
    if s.len() > 0 && s[0].0 != k {
        lemma_find_bounds(s.drop_first(), k);
        assert forall|j: int| 0 <= j < find(s, k) implies #[trigger] s[j].0 != k by {
            if j > 0 {
                assert(s[j] == s.drop_first()[j - 1]);
            }
        }
    }
}

/// `find` is the first index whose key matches.
pub proof fn lemma_find_is<K, V>(s: Seq<(K, V)>, k: K, i: int)
    requires
        0 <= i <= s.len(),
        i < s.len() ==> s[i].0 == k,
        forall|j: int| 0 <= j < i ==> #[trigger] s[j].0 != k,
    ensures
        find(s, k) == i,
    decreases s.len(),
{
    if s.len() > 0 && i > 0 {
        assert(s[0].0 != k);
        assert forall|j: int| 0 <= j < i - 1 implies #[trigger] s.drop_first()[j].0 != k by {
            assert(s.drop_first()[j] == s[j + 1]);
        }
        lemma_find_is(s.drop_first(), k, i - 1);
    }
}

/// Two sequences with the same keys in the same places find alike.
pub proof fn lemma_find_same_keys<K, V>(s: Seq<(K, V)>, t: Seq<(K, V)>, k: K)
    requires
        s.len() == t.len(),
        forall|j: int| 0 <= j < s.len() ==> #[trigger] s[j].0 == t[j].0,
    ensures
        find(s, k) == find(t, k),
{
    lemma_find_bounds(s, k);
    let i = find(s, k);
    assert forall|j: int| 0 <= j < i implies #[trigger] t[j].0 != k by {
        assert(s[j].0 == t[j].0);
    }
    if i < s.len() {
        assert(s[i].0 == t[i].0);
    }
    lemma_find_is(t, k, i);
}

/// Appending an entry finds it only for its own key, and only where that key was absent.
pub proof fn lemma_find_push<K, V>(s: Seq<(K, V)>, x: (K, V), k: K)
    ensures
        find(s.push(x), k) == (if find(s, k) < s.len() {
            find(s, k)
        } else if x.0 == k {
            s.len() as int
        } else {
            s.len() + 1 as int
        }),
{
    lemma_find_bounds(s, k);
    let t = s.push(x);
    let i = find(s, k);
    assert forall|j: int| 0 <= j < i implies #[trigger] t[j].0 != k by {
        assert(t[j] == s[j]);
    }
    if i < s.len() {
        assert(t[i] == s[i]);
        lemma_find_is(t, k, i);
    } else {
        assert forall|j: int| 0 <= j < s.len() implies #[trigger] t[j].0 != k by {
            assert(t[j] == s[j]);
        }
        if x.0 == k {
            lemma_find_is(t, k, s.len() as int);
        } else {
            assert forall|j: int| 0 <= j < s.len() + 1 implies #[trigger] t[j].0 != k by {
                if j < s.len() {
                    assert(t[j] == s[j]);
                }
            }
            lemma_find_is(t, k, s.len() + 1 as int);
        }
    }
}

/// The balance of pool `p` in `s`, zero where `s` holds none.
pub open spec fn pool_of(s: Seq<(u64, PoolBalance)>, p: u64) -> PoolBalance {
    let i = find(s, p);
    if 0 <= i < s.len() {
        s[i].1
    } else {
        PoolBalance { shares: 0, tokens: 0, q4w: 0 }
    }
}

/// Free shares of `user` in `pool`, zero where no balance is stored.
pub open spec fn shares_of(s: Seq<((u64, u64), UserBalance)>, pool: u64, user: u64) -> i128 {
    let i = find(s, (pool, user));
    if 0 <= i < s.len() {
        s[i].1.shares
    } else {
        0
    }
}

/// Queue of `user` in `pool`, empty where no balance is stored.
pub open spec fn queue_of(s: Seq<((u64, u64), UserBalance)>, pool: u64, user: u64) -> Seq<Q4W> {
    let i = find(s, (pool, user));
    if 0 <= i < s.len() {
        s[i].1.q4w@
    } else {
        Seq::empty()
    }
}

/// Part of pool `p`'s shares that entry `x` claims: free plus queued.
pub open spec fn claim_in(x: ((u64, u64), UserBalance), p: u64) -> int {
    if x.0.0 == p {
        x.1.shares + q4w_sum(x.1.q4w@)
    } else {
        0
    }
}

/// Part of pool `p`'s queued total that entry `x` holds.
pub open spec fn queued_in(x: ((u64, u64), UserBalance), p: u64) -> int {
    if x.0.0 == p {
        q4w_sum(x.1.q4w@)
    } else {
        0
    }
}

/// Sum of all users' claims on pool `p`.
pub open spec fn claims_sum(s: Seq<((u64, u64), UserBalance)>, p: u64) -> int
    decreases s.len(),
{
    if s.len() == 0 {
        0
    } else {
        claim_in(s[0], p) + claims_sum(s.drop_first(), p)
    }
}

/// Sum of all users' queued amounts in pool `p`.
pub open spec fn queued_sum(s: Seq<((u64, u64), UserBalance)>, p: u64) -> int
    decreases s.len(),
{
    if s.len() == 0 {
        0
    } else {
        queued_in(s[0], p) + queued_sum(s.drop_first(), p)
    }
}

/// Every stored user balance is well formed.
pub open spec fn users_wf(s: Seq<((u64, u64), UserBalance)>) -> bool {
    forall|i: int| 0 <= i < s.len() ==> (#[trigger] s[i]).1.wf()
}

pub proof fn lemma_sums_update(s: Seq<((u64, u64), UserBalance)>, i: int, x: ((u64, u64), UserBalance), p: u64)
    requires
        0 <= i < s.len(),
    ensures
        claims_sum(s.update(i, x), p) == claims_sum(s, p) - claim_in(s[i], p) + claim_in(x, p),
        queued_sum(s.update(i, x), p) == queued_sum(s, p) - queued_in(s[i], p) + queued_in(x, p),
    decreases s.len(),
{
    let t = s.update(i, x);
    if i == 0 {
        assert(t.drop_first() =~= s.drop_first());
    } else {
        assert(t.drop_first() =~= s.drop_first().update(i - 1, x));
        lemma_sums_update(s.drop_first(), i - 1, x, p);
    }
}

pub proof fn lemma_sums_push(s: Seq<((u64, u64), UserBalance)>, x: ((u64, u64), UserBalance), p: u64)
    ensures
        claims_sum(s.push(x), p) == claims_sum(s, p) + claim_in(x, p),
        queued_sum(s.push(x), p) == queued_sum(s, p) + queued_in(x, p),
    decreases s.len(),
{
    if s.len() == 0 {
        assert(s.push(x).drop_first() =~= s);
    } else {
        assert(s.push(x).drop_first() =~= s.drop_first().push(x));
        lemma_sums_push(s.drop_first(), x, p);
    }
}

/// With well-formed balances, each entry's part is within the pool's sums,
/// and a pool's queued total is within its claims.
pub proof fn lemma_part_le_sums(s: Seq<((u64, u64), UserBalance)>, i: int, p: u64)
    requires
        users_wf(s),
        0 <= i <= s.len(),
    ensures
        i < s.len() ==> claim_in(s[i], p) <= claims_sum(s, p) && queued_in(s[i], p) <= queued_sum(s, p),
        i < s.len() ==> 0 <= queued_in(s[i], p) <= claim_in(s[i], p),
        0 <= queued_sum(s, p) <= claims_sum(s, p),
        i < s.len() ==> claims_sum(s, p) - queued_sum(s, p) >= claim_in(s[i], p) - queued_in(s[i], p),
    decreases s.len(),
{
    if s.len() > 0 {
        let t = s.drop_first();
        assert(users_wf(t)) by {
            assert forall|j: int| 0 <= j < t.len() implies (#[trigger] t[j]).1.wf() by {
                assert(t[j] == s[j + 1]);
            }
        }
        assert(s[0].1.wf());
        lemma_sum_nonnegative(s[0].1.q4w@);
        if i == 0 {
            lemma_part_le_sums(t, 0, p);
        } else {
            lemma_part_le_sums(t, i - 1, p);
            if i < s.len() {
                assert(s[i] == t[i - 1]);
                assert(s[i].1.wf());
                lemma_sum_nonnegative(s[i].1.q4w@);
            }
        }
    }
}

/// Balances by key: one per pool, one per (pool, user) pair. A key that was
/// never written reads as zero shares, zero tokens and an empty queue.
pub struct Storage {
    pub pools: Vec<(u64, PoolBalance)>,
    pub users: Vec<((u64, u64), UserBalance)>,
}

impl Storage {
    pub open spec fn pool(&self, p: u64) -> PoolBalance {
        pool_of(self.pools@, p)
    }

    pub open spec fn shares(&self, pool: u64, user: u64) -> i128 {
        shares_of(self.users@, pool, user)
    }

    pub open spec fn queue(&self, pool: u64, user: u64) -> Seq<Q4W> {
        queue_of(self.users@, pool, user)
    }

    /// All claims on pool `p`, free and queued.
    pub open spec fn claims(&self, p: u64) -> int {
        claims_sum(self.users@, p)
    }

    /// All shares queued in pool `p`.
    pub open spec fn queued(&self, p: u64) -> int {
        queued_sum(self.users@, p)
    }

    pub open spec fn wf(&self) -> bool {
        users_wf(self.users@)
    }

    /// Storage where nothing was written yet.
    pub fn new() -> (r: Storage)
        ensures
            r.pools@ == Seq::<(u64, PoolBalance)>::empty(),
            r.users@ == Seq::<((u64, u64), UserBalance)>::empty(),
            r.wf(),
    {
        Storage { pools: Vec::new(), users: Vec::new() }
    }

    fn find_pool(&self, p: u64) -> (r: usize)
        ensures
            r == find(self.pools@, p),
    {
        let mut i: usize = 0;
        while i < self.pools.len() && self.pools[i].0 != p
            invariant
                0 <= i <= self.pools@.len(),
                forall|j: int| 0 <= j < i ==> #[trigger] self.pools@[j].0 != p,
            decreases self.pools@.len() - i,
        {
            i = i + 1;
        }
        proof {
            lemma_find_is(self.pools@, p, i as int);
        }
        i
    }

    fn find_user(&self, pool: u64, user: u64) -> (r: usize)
        ensures
            r == find(self.users@, (pool, user)),
    {
        let mut i: usize = 0;
        while i < self.users.len() && !(self.users[i].0.0 == pool && self.users[i].0.1 == user)
            invariant
                0 <= i <= self.users@.len(),
                forall|j: int| 0 <= j < i ==> #[trigger] self.users@[j].0 != (pool, user),
            decreases self.users@.len() - i,
        {
            i = i + 1;
        }
        proof {
            lemma_find_is(self.users@, (pool, user), i as int);
        }
        i
    }

    /// The stored balance of pool `p`.
    pub fn get_pool_balance(&self, p: u64) -> (r: PoolBalance)
        ensures
            r == self.pool(p),
    {
        let i = self.find_pool(p);
        if i < self.pools.len() {
            self.pools[i].1
        } else {
            PoolBalance::zero()
        }
    }

    /// Stores `b` as the balance of pool `p`; nothing else changes.
    pub fn set_pool_balance(&mut self, p: u64, b: PoolBalance)
        ensures
            forall|q: u64| #[trigger] final(self).pool(q) == (if q == p { b } else { old(self).pool(q) }),
            final(self).users@ == old(self).users@,
    {
        let i = self.find_pool(p);
        let ghost s = self.pools@;
        proof {
            lemma_find_bounds(s, p);
        }
        if i < self.pools.len() {
            self.pools[i] = (p, b);
            proof {
                assert forall|q: u64| #[trigger] self.pool(q) == (if q == p { b } else { old(self).pool(q) }) by {
                    lemma_find_same_keys(s, self.pools@, q);
                    lemma_find_bounds(s, q);
                    if q != p && find(s, q) < s.len() {
                        assert(find(s, q) != i);
                    }
                }
            }
        } else {
            self.pools.push((p, b));
            proof {
                assert forall|q: u64| #[trigger] self.pool(q) == (if q == p { b } else { old(self).pool(q) }) by {
                    lemma_find_push(s, (p, b), q);
                    lemma_find_bounds(s, q);
                }
            }
        }
    }

    /// The stored balance of `user` in `pool`, as an independent copy.
    pub fn get_user_balance(&self, pool: u64, user: u64) -> (r: UserBalance)
        ensures
            r.shares == self.shares(pool, user),
            r.q4w@ == self.queue(pool, user),
            self.wf() ==> r.wf(),
    {
        let i = self.find_user(pool, user);
        if i < self.users.len() {
            proof {
                if self.wf() {
                    assert(self.users@[i as int].1.wf());
                }
            }
            self.users[i].1.copy()
        } else {
            UserBalance::zero()
        }
    }

    /// Stores `b` as the balance of `user` in `pool`; nothing else changes, and
    /// the pool's sums move by the difference between the new and the old balance.
    pub fn set_user_balance(&mut self, pool: u64, user: u64, b: UserBalance)
        ensures
            forall|q: u64, v: u64| #[trigger] final(self).shares(q, v) == (if q == pool && v == user {
                b.shares
            } else {
                old(self).shares(q, v)
            }),
            forall|q: u64, v: u64| #[trigger] final(self).queue(q, v) == (if q == pool && v == user {
                b.q4w@
            } else {
                old(self).queue(q, v)
            }),
            forall|q: u64| #[trigger] final(self).claims(q) == old(self).claims(q) + (if q == pool {
                b.shares + q4w_sum(b.q4w@) - old(self).shares(pool, user) - q4w_sum(old(self).queue(pool, user))
            } else {
                0
            }),
            forall|q: u64| #[trigger] final(self).queued(q) == old(self).queued(q) + (if q == pool {
                q4w_sum(b.q4w@) - q4w_sum(old(self).queue(pool, user))
            } else {
                0
            }),
            final(self).pools@ == old(self).pools@,
            old(self).wf() && b.wf() ==> final(self).wf(),
    {
        let i = self.find_user(pool, user);
        let ghost s = self.users@;
        let ghost k = (pool, user);
        let ghost x = ((pool, user), b);
        proof {
            lemma_find_bounds(s, k);
        }
        let found = i < self.users.len();
        if found {
            self.users[i] = ((pool, user), b);
        } else {
            self.users.push(((pool, user), b));
        }
        proof {
            let t = self.users@;
            assert(found ==> t == s.update(i as int, x));
            assert(!found ==> t == s.push(x));
            assert forall|q: u64, v: u64| ((#[trigger] find(t, (q, v))
                < t.len()) == ((q == pool && v == user) || find(s, (q, v)) < s.len())) && (find(t, (q, v)) < t.len()
                ==> t[find(t, (q, v))] == (if q == pool && v == user {
                x
            } else {
                s[find(s, (q, v))]
            })) by {
                lemma_find_bounds(s, (q, v));
                lemma_find_bounds(t, (q, v));
                if found {
                    lemma_find_same_keys(s, t, (q, v));
                    if !(q == pool && v == user) && find(s, (q, v)) < s.len() {
                        assert(find(s, (q, v)) != i);
                    }
                } else {
                    lemma_find_push(s, x, (q, v));
                    if find(s, (q, v)) < s.len() {
                        assert(t[find(s, (q, v))] == s[find(s, (q, v))]);
                    }
                }
            }
            assert forall|q: u64, v: u64| #[trigger] self.shares(q, v) == (if q == pool && v == user {
                b.shares
            } else {
                old(self).shares(q, v)
            }) by {
                lemma_find_bounds(s, (q, v));
                lemma_find_bounds(t, (q, v));
            }
            assert forall|q: u64, v: u64| #[trigger] self.queue(q, v) == (if q == pool && v == user {
                b.q4w@
            } else {
                old(self).queue(q, v)
            }) by {
                lemma_find_bounds(s, (q, v));
                lemma_find_bounds(t, (q, v));
            }
            if !found {
                assert(old(self).queue(pool, user) =~= Seq::<Q4W>::empty());
            }
            assert forall|q: u64| #[trigger] self.claims(q) == old(self).claims(q) + (if q == pool {
                b.shares + q4w_sum(b.q4w@) - old(self).shares(pool, user) - q4w_sum(old(self).queue(pool, user))
            } else {
                0
            }) by {
                if found {
                    lemma_sums_update(s, i as int, x, q);
                } else {
                    lemma_sums_push(s, x, q);
                }
            }
            assert forall|q: u64| #[trigger] self.queued(q) == old(self).queued(q) + (if q == pool {
                q4w_sum(b.q4w@) - q4w_sum(old(self).queue(pool, user))
            } else {
                0
            }) by {
                if found {
                    lemma_sums_update(s, i as int, x, q);
                } else {
                    lemma_sums_push(s, x, q);
                }
            }
            if old(self).wf() && b.wf() {
                assert forall|j: int| 0 <= j < t.len() implies (#[trigger] t[j]).1.wf() by {
                    if j != i && j < s.len() {
                        assert(t[j] == s[j]);
                    }
                }
            }
        }
    }
}
} // verus!
