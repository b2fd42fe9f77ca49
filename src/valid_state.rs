use vstd::prelude::*;
use crate::backstop::Backstop;
use crate::balances::{PoolBalance, Q4W};
use crate::storage::{Storage, find, lemma_find_bounds, lemma_part_le_sums};
use crate::user::{lemma_sum_nonnegative, matures_by, q4w_sum, q4w_nonnegative};
use crate::balances::Q4W_LOCK_TIME;

verus! {

/// Every amount of pool `p` is non-negative.
pub open spec fn pool_nonnegative(b: PoolBalance) -> bool {
    b.shares >= 0 && b.tokens >= 0 && b.q4w >= 0
}

/// `user` has neither free nor queued shares in `pool`.
pub open spec fn holds_nothing(st: Storage, pool: u64, user: u64) -> bool {
    st.shares(pool, user) == 0 && q4w_sum(st.queue(pool, user)) == 0
}

/// The properties of every reachable state:
/// - all balances are non-negative, stored user balances included;
/// - a pool's shares are the sum of its users' claims (free plus queued), and
///   its queued total is the sum of their queues;
/// - neither a pool nor the backstop itself holds a claim on a pool;
/// - a pool that the factory did not deploy holds nothing;
/// - every queued entry matures no later than the clock plus `Q4W_LOCK_TIME`.
///
/// A queued entry may hold zero shares: queueing zero shares is accepted and
/// records an entry of zero, so no property asks an entry's amount to be
/// nonzero.
pub open spec fn valid_state(s: Backstop) -> bool {
    &&& s.wf()
    &&& forall|p: u64| #[trigger] pool_nonnegative(s.storage.pool(p))
    &&& forall|p: u64| #[trigger] s.storage.pool(p).shares == s.storage.claims(p)
    &&& forall|p: u64| #[trigger] s.storage.pool(p).q4w == s.storage.queued(p)
    &&& forall|p: u64| #[trigger] holds_nothing(s.storage, p, p)
    &&& forall|p: u64| #[trigger] holds_nothing(s.storage, p, s.contract)
    &&& forall|p: u64| !s.pool_factory.pools@.contains(p) ==> #[trigger] s.storage.pool(p) == (PoolBalance { shares: 0, tokens: 0, q4w: 0 })
    &&& forall|p: u64, u: u64| #[trigger] matures_by(s.storage.queue(p, u), s.timestamp + Q4W_LOCK_TIME)
}

/// In a valid state, a user's free shares and queue are within the pool's
/// shares and queued total, and the queued total is within the shares.
pub proof fn lemma_valid_state_bounds(s: Backstop, pool: u64, user: u64)
    requires
        valid_state(s),
    ensures
        0 <= s.storage.shares(pool, user) <= s.storage.pool(pool).shares,
        0 <= q4w_sum(s.storage.queue(pool, user)) <= s.storage.pool(pool).q4w,
        s.storage.shares(pool, user) + q4w_sum(s.storage.queue(pool, user)) <= s.storage.pool(pool).shares,
        q4w_nonnegative(s.storage.queue(pool, user)),
        0 <= s.storage.pool(pool).q4w <= s.storage.pool(pool).shares,
        s.storage.pool(pool).q4w + s.storage.shares(pool, user) <= s.storage.pool(pool).shares,
{
    let us = s.storage.users@;
    let i = find(us, (pool, user));
    lemma_find_bounds(us, (pool, user));
    lemma_part_le_sums(us, i, pool);
    assert(s.storage.pool(pool).shares == s.storage.claims(pool));
    assert(s.storage.pool(pool).q4w == s.storage.queued(pool));
    if i < us.len() {
        assert(us[i].1.wf());
        lemma_sum_nonnegative(us[i].1.q4w@);
    } else {
        assert(s.storage.queue(pool, user) =~= Seq::empty());
    }
}

/// A call that writes pool `pool`'s balance `pb` and `user`'s free shares
/// `shares` and queue `queue` in it, and leaves all else, keeps the state valid
/// where the new balances keep the pool's sums, are non-negative, give the
/// pool and the backstop no claim, and leave an undeployed pool empty.
pub proof fn lemma_write_keeps_valid_state(
    s: Backstop,
    t: Backstop,
    pool: u64,
    pb: PoolBalance,
    user: u64,
    shares: i128,
    queue: Seq<Q4W>,
)
    requires
        valid_state(s),
        t.wf(),
        t.contract == s.contract,
        t.timestamp == s.timestamp,
        t.pool_factory.pools@ == s.pool_factory.pools@,
        matures_by(queue, s.timestamp + Q4W_LOCK_TIME),
        forall|q: u64| #[trigger] t.storage.pool(q) == (if q == pool { pb } else { s.storage.pool(q) }),
        forall|q: u64, v: u64| #[trigger] t.storage.shares(q, v) == (if q == pool && v == user {
            shares
        } else {
            s.storage.shares(q, v)
        }),
        forall|q: u64, v: u64| #[trigger] t.storage.queue(q, v) == (if q == pool && v == user {
            queue
        } else {
            s.storage.queue(q, v)
        }),
        forall|q: u64| #[trigger] t.storage.claims(q) == s.storage.claims(q) + (if q == pool {
            shares + q4w_sum(queue) - s.storage.shares(pool, user) - q4w_sum(s.storage.queue(pool, user))
        } else {
            0
        }),
        forall|q: u64| #[trigger] t.storage.queued(q) == s.storage.queued(q) + (if q == pool {
            q4w_sum(queue) - q4w_sum(s.storage.queue(pool, user))
        } else {
            0
        }),
        pool_nonnegative(pb),
        pb.shares == s.storage.pool(pool).shares + shares + q4w_sum(queue) - s.storage.shares(pool, user)
            - q4w_sum(s.storage.queue(pool, user)),
        pb.q4w == s.storage.pool(pool).q4w + q4w_sum(queue) - q4w_sum(s.storage.queue(pool, user)),
        (user == pool || user == s.contract) ==> shares == 0 && q4w_sum(queue) == 0,
        !s.pool_factory.pools@.contains(pool) ==> pb == (PoolBalance { shares: 0, tokens: 0, q4w: 0 }),
    ensures
        valid_state(t),
{
    assert forall|p: u64| #[trigger] pool_nonnegative(t.storage.pool(p)) by {
        assert(pool_nonnegative(s.storage.pool(p)));
    }
    assert forall|p: u64| #[trigger] t.storage.pool(p).shares == t.storage.claims(p) by {
        assert(s.storage.pool(p).shares == s.storage.claims(p));
    }
    assert forall|p: u64| #[trigger] t.storage.pool(p).q4w == t.storage.queued(p) by {
        assert(s.storage.pool(p).q4w == s.storage.queued(p));
    }
    assert forall|p: u64| #[trigger] holds_nothing(t.storage, p, p) by {
        assert(holds_nothing(s.storage, p, p));
    }
    assert forall|p: u64| #[trigger] holds_nothing(t.storage, p, t.contract) by {
        assert(holds_nothing(s.storage, p, s.contract));
    }
    assert forall|p: u64, u: u64| #[trigger] matures_by(t.storage.queue(p, u), t.timestamp + Q4W_LOCK_TIME) by {
        assert(matures_by(s.storage.queue(p, u), s.timestamp + Q4W_LOCK_TIME));
    }
    assert forall|p: u64| !t.pool_factory.pools@.contains(p) implies #[trigger] t.storage.pool(p) == (PoolBalance { shares: 0, tokens: 0, q4w: 0 }) by {
        assert(!s.pool_factory.pools@.contains(p) ==> s.storage.pool(p) == (PoolBalance { shares: 0, tokens: 0, q4w: 0 }));
    }
}

/// The valid-state properties as they read for one pool and one user in it.
pub open spec fn pool_user_ok(s: Backstop, pool: u64, user: u64) -> bool {
    let pb = s.storage.pool(pool);
    let shares = s.storage.shares(pool, user);
    let queue = s.storage.queue(pool, user);
    &&& pool_nonnegative(pb)
    &&& pb.q4w <= pb.shares
    &&& shares >= 0
    &&& q4w_nonnegative(queue)
    &&& shares + q4w_sum(queue) <= pb.shares
    &&& q4w_sum(queue) <= pb.q4w
    &&& (user == pool || user == s.contract) ==> shares == 0 && q4w_sum(queue) == 0
    &&& !s.pool_factory.pools@.contains(pool) ==> pb == (PoolBalance { shares: 0, tokens: 0, q4w: 0 })
    &&& matures_by(queue, s.timestamp + Q4W_LOCK_TIME)
}

/// A valid state satisfies the per-pair properties for every pool and user.
pub proof fn lemma_valid_state_pool_user(s: Backstop, pool: u64, user: u64)
    requires
        valid_state(s),
    ensures
        pool_user_ok(s, pool, user),
{
    lemma_valid_state_bounds(s, pool, user);
    assert(pool_nonnegative(s.storage.pool(pool)));
    assert(holds_nothing(s.storage, pool, pool));
    assert(holds_nothing(s.storage, pool, s.contract));
    assert(matures_by(s.storage.queue(pool, user), s.timestamp + Q4W_LOCK_TIME));
}

/// Checks the valid-state properties for `pool` and `user` in it.
pub fn valid_state_pool_user(e: &Backstop, pool: u64, user: u64) -> (r: bool)
    ensures
        r == pool_user_ok(*e, pool, user),
{
    let pb = e.storage.get_pool_balance(pool);
    let ub = e.storage.get_user_balance(pool, user);
    let registered = e.pool_factory.is_pool(pool);
    if pb.shares < 0 || pb.tokens < 0 || pb.q4w < 0 || pb.q4w > pb.shares || ub.shares < 0 {
        return false;
    }
    let ghost q = ub.q4w@;
    let n = ub.q4w.len();
    let mut i: usize = n;
    let mut sum: i128 = 0;
    assert(q.subrange(n as int, n as int) =~= Seq::<Q4W>::empty());
    while i > 0
        invariant
            q == ub.q4w@,
            q == e.storage.queue(pool, user),
            ub.shares == e.storage.shares(pool, user),
            pb == e.storage.pool(pool),
            registered == e.pool_factory.pools@.contains(pool),
            pool_nonnegative(pb),
            pb.q4w <= pb.shares,
            ub.shares >= 0,
            n == q.len(),
            0 <= i <= n,
            sum as int == q4w_sum(q.subrange(i as int, n as int)),
            0 <= sum <= pb.shares,
            q4w_nonnegative(q.subrange(i as int, n as int)),
            matures_by(q.subrange(i as int, n as int), e.timestamp + Q4W_LOCK_TIME),
            pb.shares >= 0,
        decreases i,
    {
        let x = ub.q4w[i - 1];
        let ghost tail = q.subrange(i as int, n as int);
        let ghost longer = q.subrange(i - 1, n as int);
        assert(longer.drop_first() =~= tail);
        assert(longer[0] == x);
        if x.amount < 0 {
            assert(!q4w_nonnegative(q)) by {
                assert(q[i - 1] == x);
            }
            return false;
        }
        if e.timestamp <= u64::MAX - Q4W_LOCK_TIME && x.exp > e.timestamp + Q4W_LOCK_TIME {
            assert(!matures_by(q, e.timestamp + Q4W_LOCK_TIME)) by {
                assert(q[i - 1] == x);
            }
            return false;
        }
        if x.amount > pb.shares - sum {
            proof {
                if q4w_nonnegative(q) {
                    lemma_sum_split(q, i - 1);
                    assert(q4w_nonnegative(q.subrange(0, i - 1))) by {
                        assert forall|j: int| 0 <= j < i - 1 implies #[trigger] q.subrange(0, i - 1)[j].amount >= 0 by {
                            assert(q.subrange(0, i - 1)[j] == q[j]);
                        }
                    }
                    lemma_sum_nonnegative(q.subrange(0, i - 1));
                }
            }
            return false;
        }
        sum = sum + x.amount;
        assert(matures_by(longer, e.timestamp + Q4W_LOCK_TIME)) by {
            assert forall|j: int| 0 <= j < longer.len() implies #[trigger] longer[j].exp <= e.timestamp + Q4W_LOCK_TIME by {
                if j > 0 {
                    assert(longer[j] == tail[j - 1]);
                }
            }
        }
        assert(q4w_nonnegative(longer)) by {
            assert forall|j: int| 0 <= j < longer.len() implies #[trigger] longer[j].amount >= 0 by {
                if j > 0 {
                    assert(longer[j] == tail[j - 1]);
                }
            }
        }
        i = i - 1;
    }
    assert(q.subrange(0, n as int) =~= q);
    if ub.shares > pb.shares - sum || sum > pb.q4w {
        return false;
    }
    if (user == pool || user == e.contract) && (ub.shares != 0 || sum != 0) {
        return false;
    }
    if !registered && (pb.shares != 0 || pb.tokens != 0 || pb.q4w != 0) {
        return false;
    }
    true
}

/// The total of a queue is the total of its first `i` entries plus the rest.
pub proof fn lemma_sum_split(s: Seq<Q4W>, i: int)
    requires
        0 <= i <= s.len(),
    ensures
        q4w_sum(s) == q4w_sum(s.subrange(0, i)) + q4w_sum(s.subrange(i, s.len() as int)),
    decreases i,
{
    if i == 0 {
        assert(s.subrange(0, s.len() as int) =~= s);
        assert(s.subrange(0, 0) =~= Seq::<Q4W>::empty());
    } else {
        lemma_sum_split(s.drop_first(), i - 1);
        assert(s.subrange(0, i).drop_first() =~= s.drop_first().subrange(0, i - 1));
        assert(s.subrange(i, s.len() as int) =~= s.drop_first().subrange(i - 1, s.drop_first().len() as int));
    }
}

} // verus!
