use vstd::prelude::*;
use crate::balances::{fits_i128, BackstopError, Q4W, Q4W_LOCK_TIME};

verus! {

/// Total amount of a sequence of queued entries.
pub open spec fn q4w_sum(s: Seq<Q4W>) -> int
    decreases s.len(),
{
    if s.len() == 0 {
        0
    } else {
        s[0].amount + q4w_sum(s.drop_first())
    }
}

/// Every queued entry holds a non-negative amount.
pub open spec fn q4w_nonnegative(s: Seq<Q4W>) -> bool {
    forall|i: int| 0 <= i < s.len() ==> #[trigger] s[i].amount >= 0
}

/// Every entry of the queue matures no later than `bound`.
pub open spec fn matures_by(s: Seq<Q4W>, bound: int) -> bool {
    forall|i: int| 0 <= i < s.len() ==> #[trigger] s[i].exp <= bound
}

/// Takes `left` out of the queue from the oldest entry on: an entry that is
/// used up is removed, the one that covers the rest is reduced. An entry whose
/// `exp` lies after `limit` stops it with `NotExpired`; a queue that holds too
/// little ends it with `InsufficientFunds`.
pub open spec fn take_front(s: Seq<Q4W>, left: int, limit: int) -> Result<Seq<Q4W>, BackstopError>
    decreases s.len(),
{
    if left <= 0 {
        Ok(s)
    } else if s.len() == 0 {
        Err(BackstopError::InsufficientFunds)
    } else if s[0].exp > limit {
        Err(BackstopError::NotExpired)
    } else if s[0].amount > left {
        Ok(seq![Q4W { amount: (s[0].amount - left) as i128, exp: s[0].exp }] + s.drop_first())
    } else {
        take_front(s.drop_first(), left - s[0].amount, limit)
    }
}

pub proof fn lemma_sum_push(s: Seq<Q4W>, x: Q4W)
    ensures
        q4w_sum(s.push(x)) == q4w_sum(s) + x.amount,
    decreases s.len(),
{
    if s.len() == 0 {
        assert(s.push(x).drop_first() =~= s);
    } else {
        assert(s.push(x).drop_first() =~= s.drop_first().push(x));
        lemma_sum_push(s.drop_first(), x);
    }
}

pub proof fn lemma_sum_nonnegative(s: Seq<Q4W>)
    requires
        q4w_nonnegative(s),
    ensures
        q4w_sum(s) >= 0,
    decreases s.len(),
{
    if s.len() > 0 {
        assert(s[0].amount >= 0);
        assert(q4w_nonnegative(s.drop_first())) by {
            assert forall|i: int| 0 <= i < s.drop_first().len() implies #[trigger] s.drop_first()[i].amount >= 0 by {
                assert(s.drop_first()[i] == s[i + 1]);
            }
        }
        lemma_sum_nonnegative(s.drop_first());
    }
}

/// What `take_front` leaves matures no later than what it was given.
pub proof fn lemma_take_front_matures(s: Seq<Q4W>, left: int, limit: int, bound: int)
    requires
        matures_by(s, bound),
    ensures
        take_front(s, left, limit) matches Ok(r) ==> matures_by(r, bound),
    decreases s.len(),
{
    if left > 0 && s.len() > 0 && s[0].exp <= limit {
        let t = s.drop_first();
        assert(matures_by(t, bound)) by {
            assert forall|i: int| 0 <= i < t.len() implies #[trigger] t[i].exp <= bound by {
                assert(t[i] == s[i + 1]);
            }
        }
        if s[0].amount > left {
            let r = seq![Q4W { amount: (s[0].amount - left) as i128, exp: s[0].exp }] + t;
            assert forall|i: int| 0 <= i < r.len() implies #[trigger] r[i].exp <= bound by {
                if i > 0 {
                    assert(r[i] == t[i - 1]);
                }
            }
        } else {
            lemma_take_front_matures(t, left - s[0].amount, limit, bound);
        }
    }
}

/// What a successful `take_front` leaves: the total falls by exactly the amount
/// taken and every entry stays non-negative. Where no entry is too young, it
/// fails exactly when the total is short of the amount.
pub proof fn lemma_take_front(s: Seq<Q4W>, left: int, limit: int)
    requires
        q4w_nonnegative(s),
        left >= 0,
    ensures
        take_front(s, left, limit) matches Ok(r) ==> q4w_sum(r) == q4w_sum(s) - left
            && q4w_nonnegative(r) && r.len() <= s.len(),
        (forall|i: int| 0 <= i < s.len() ==> #[trigger] s[i].exp <= limit) ==> (take_front(
            s,
            left,
            limit,
        ) is Ok <==> q4w_sum(s) >= left) && (q4w_sum(s) < left ==> take_front(s, left, limit)
            == Err::<Seq<Q4W>, BackstopError>(BackstopError::InsufficientFunds)),
        take_front(s, left, limit) is Err ==> take_front(s, left, limit) == Err::<
            Seq<Q4W>,
            BackstopError,
        >(BackstopError::InsufficientFunds) || take_front(s, left, limit) == Err::<
            Seq<Q4W>,
            BackstopError,
        >(BackstopError::NotExpired),
    decreases s.len(),
{
    lemma_sum_nonnegative(s);
    if left <= 0 {
    } else if s.len() == 0 {
    } else {
        let t = s.drop_first();
        assert(q4w_nonnegative(t)) by {
            assert forall|i: int| 0 <= i < t.len() implies #[trigger] t[i].amount >= 0 by {
                assert(t[i] == s[i + 1]);
            }
        }
        assert(s[0].amount >= 0);
        lemma_sum_nonnegative(t);
        if s[0].exp > limit {
        } else if s[0].amount > left {
            let head = Q4W { amount: (s[0].amount - left) as i128, exp: s[0].exp };
            let r = seq![head] + t;
            assert(r.drop_first() =~= t);
            assert(q4w_nonnegative(r)) by {
                assert forall|i: int| 0 <= i < r.len() implies #[trigger] r[i].amount >= 0 by {
                    if i > 0 {
                        assert(r[i] == t[i - 1]);
                    }
                }
            }
        } else {
            if forall|j: int| 0 <= j < s.len() ==> #[trigger] s[j].exp <= limit {
                assert forall|j: int| 0 <= j < t.len() implies #[trigger] t[j].exp <= limit by {
                    assert(t[j] == s[j + 1]);
                }
            }
            lemma_take_front(t, left - s[0].amount, limit);
        }
    }
}

/// The entries of `v` from index `from` on, in order.
fn copy_tail(v: &Vec<Q4W>, from: usize) -> (r: Vec<Q4W>)
    requires
        from <= v@.len(),
    ensures
        r@ == v@.subrange(from as int, v@.len() as int),
{
    let mut r: Vec<Q4W> = Vec::new();
    let mut i: usize = from;
    while i < v.len()
        invariant
            from <= i <= v@.len(),
            r@ == v@.subrange(from as int, i as int),
        decreases v@.len() - i,
    {
        r.push(v[i]);
        assert(r@ =~= v@.subrange(from as int, i + 1));
        i = i + 1;
    }
    r
}

/// Executes `take_front` on a queue of non-negative entries.
pub(crate) fn take_front_exec(q: &Vec<Q4W>, amount: i128, limit: u64) -> (r: Result<Vec<Q4W>, BackstopError>)
    requires
        q4w_nonnegative(q@),
        amount >= 0,
    ensures
        match r {
            Ok(v) => take_front(q@, amount as int, limit as int) == Ok::<Seq<Q4W>, BackstopError>(v@),
            Err(e) => take_front(q@, amount as int, limit as int) == Err::<Seq<Q4W>, BackstopError>(e),
        },
{
    let ghost s = q@;
    let n = q.len();
    let mut left: i128 = amount;
    let mut i: usize = 0;
    assert(s.subrange(0, n as int) =~= s);
    while i < n && left > 0
        invariant
            n == s.len(),
            s == q@,
            q4w_nonnegative(s),
            0 <= i <= n,
            0 <= left <= amount,
            take_front(s, amount as int, limit as int) == take_front(
                s.subrange(i as int, n as int),
                left as int,
                limit as int,
            ),
        decreases n - i,
    {
        let e = q[i];
        let ghost t = s.subrange(i as int, n as int);
        assert(t[0] == e);
        assert(t.drop_first() =~= s.subrange(i + 1, n as int));
        if e.exp > limit {
            return Err(BackstopError::NotExpired);
        }
        if e.amount > left {
            let mut r: Vec<Q4W> = Vec::new();
            r.push(Q4W { amount: e.amount - left, exp: e.exp });
            let rest = copy_tail(q, i + 1);
            let mut j: usize = 0;
            while j < rest.len()
                invariant
                    r@ == seq![Q4W { amount: (e.amount - left) as i128, exp: e.exp }] + rest@.subrange(0, j as int),
                    j <= rest@.len(),
                decreases rest@.len() - j,
            {
                r.push(rest[j]);
                assert(r@ =~= seq![Q4W { amount: (e.amount - left) as i128, exp: e.exp }] + rest@.subrange(0, j + 1));
                j = j + 1;
            }
            assert(rest@.subrange(0, j as int) =~= rest@);
            return Ok(r);
        }
        assert(e.amount >= 0);
        left = left - e.amount;
        i = i + 1;
    }
    if left > 0 {
        return Err(BackstopError::InsufficientFunds);
    }
    Ok(copy_tail(q, i))
}

/// One user's position in one pool: shares free to be queued, and the queue
/// of pending exits, oldest first.
#[derive(Debug)]
pub struct UserBalance {
    pub shares: i128,
    pub q4w: Vec<Q4W>,
}

impl UserBalance {
    /// Shares and every queued amount are non-negative.
    pub open spec fn wf(&self) -> bool {
        self.shares >= 0 && q4w_nonnegative(self.q4w@)
    }

    /// The user's whole claim: free shares plus everything queued.
    pub open spec fn claim(&self) -> int {
        self.shares + q4w_sum(self.q4w@)
    }

    /// A balance with no shares and an empty queue.
    pub fn zero() -> (r: UserBalance)
        ensures
            r.shares == 0,
            r.q4w@ == Seq::<Q4W>::empty(),
    {
        UserBalance { shares: 0, q4w: Vec::new() }
    }

    /// An independent copy of the balance.
    pub fn copy(&self) -> (r: UserBalance)
        ensures
            r.shares == self.shares,
            r.q4w@ == self.q4w@,
    {
        let q = copy_tail(&self.q4w, 0);
        assert(self.q4w@.subrange(0, self.q4w@.len() as int) =~= self.q4w@);
        UserBalance { shares: self.shares, q4w: q }
    }

    /// Credits `amount` free shares. Fails with `NegativeAmount` on a negative
    /// amount and with `ArithmeticError` on overflow, changing nothing.
    pub fn add_shares(&mut self, amount: i128) -> (r: Result<(), BackstopError>)
        ensures
            r == (if amount < 0 {
                Err::<(), BackstopError>(BackstopError::NegativeAmount)
            } else if !fits_i128(old(self).shares + amount) {
                Err(BackstopError::ArithmeticError)
            } else {
                Ok(())
            }),
            final(self).q4w@ == old(self).q4w@,
            r is Err ==> final(self).shares == old(self).shares,
            r is Ok ==> final(self).shares == old(self).shares + amount,
    {
        if amount < 0 {
            return Err(BackstopError::NegativeAmount);
        }
        match self.shares.checked_add(amount) {
            Some(v) => {
                self.shares = v;
                Ok(())
            },
            None => Err(BackstopError::ArithmeticError),
        }
    }

    /// Moves `amount` free shares into a new queued entry that matures at
    /// `now + Q4W_LOCK_TIME`, appended after the existing ones. Zero shares
    /// are accepted and give an entry of zero. Fails with
    /// `NegativeAmount`, `InsufficientFunds` (more than the free shares) or
    /// `ArithmeticError` (the maturity overflows), changing nothing.
    pub fn queue_shares_for_withdrawal(&mut self, amount: i128, now: u64) -> (r: Result<(), BackstopError>)
        ensures
            r == (if amount < 0 {
                Err::<(), BackstopError>(BackstopError::NegativeAmount)
            } else if amount > old(self).shares {
                Err(BackstopError::InsufficientFunds)
            } else if now as int + Q4W_LOCK_TIME as int > u64::MAX as int {
                Err(BackstopError::ArithmeticError)
            } else {
                Ok(())
            }),
            r is Err ==> final(self).shares == old(self).shares && final(self).q4w@ == old(self).q4w@,
            r is Ok ==> final(self).shares == old(self).shares - amount
                && final(self).q4w@ == old(self).q4w@.push(
                Q4W { amount, exp: (now + Q4W_LOCK_TIME) as u64 },
            ),
    {
        if amount < 0 {
            return Err(BackstopError::NegativeAmount);
        }
        if amount > self.shares {
            return Err(BackstopError::InsufficientFunds);
        }
        if now > u64::MAX - Q4W_LOCK_TIME {
            return Err(BackstopError::ArithmeticError);
        }
        self.shares = self.shares - amount;
        self.q4w.push(Q4W { amount, exp: now + Q4W_LOCK_TIME });
        Ok(())
    }

    /// Cancels `amount` of queued shares, oldest entries first, and credits
    /// them back as free shares. Fails with `NegativeAmount`,
    /// `InsufficientFunds` (less is queued) or `ArithmeticError` (the free
    /// shares overflow), changing nothing.
    pub fn dequeue_shares(&mut self, amount: i128) -> (r: Result<(), BackstopError>)
        requires
            old(self).wf(),
        ensures
            r == (if amount < 0 {
                Err::<(), BackstopError>(BackstopError::NegativeAmount)
            } else if q4w_sum(old(self).q4w@) < amount {
                Err(BackstopError::InsufficientFunds)
            } else if !fits_i128(old(self).shares + amount) {
                Err(BackstopError::ArithmeticError)
            } else {
                Ok(())
            }),
            r is Err ==> final(self).shares == old(self).shares && final(self).q4w@ == old(self).q4w@,
            r is Ok ==> final(self).shares == old(self).shares + amount
                && take_front(old(self).q4w@, amount as int, u64::MAX as int)
                == Ok::<Seq<Q4W>, BackstopError>(final(self).q4w@),
            final(self).wf(),
    {
        if amount < 0 {
            return Err(BackstopError::NegativeAmount);
        }
        proof {
            assert forall|i: int| 0 <= i < self.q4w@.len() implies #[trigger] self.q4w@[i].exp <= u64::MAX as int by {}
            lemma_take_front(self.q4w@, amount as int, u64::MAX as int);
        }
        let rest = match take_front_exec(&self.q4w, amount, u64::MAX) {
            Ok(v) => v,
            Err(e) => return Err(e),
        };
        let shares = match self.shares.checked_add(amount) {
            Some(v) => v,
            None => return Err(BackstopError::ArithmeticError),
        };
        self.shares = shares;
        self.q4w = rest;
        Ok(())
    }

    /// Removes `amount` of matured queued shares, oldest entries first; free
    /// shares are untouched. Fails with `NegativeAmount`, with `NotExpired`
    /// where an entry that is needed matures after `now`, or with
    /// `InsufficientFunds` where the queue holds too little, changing nothing.
    pub fn withdraw_shares(&mut self, amount: i128, now: u64) -> (r: Result<(), BackstopError>)
        requires
            old(self).wf(),
        ensures
            amount < 0 ==> r == Err::<(), BackstopError>(BackstopError::NegativeAmount),
            amount >= 0 ==> match r {
                Ok(_) => take_front(old(self).q4w@, amount as int, now as int) == Ok::<Seq<Q4W>, BackstopError>(final(self).q4w@),
                Err(e) => take_front(old(self).q4w@, amount as int, now as int) == Err::<Seq<Q4W>, BackstopError>(e),
            },
            r is Err ==> final(self).q4w@ == old(self).q4w@,
            final(self).shares == old(self).shares,
            final(self).wf(),
    {
        if amount < 0 {
            return Err(BackstopError::NegativeAmount);
        }
        proof {
            lemma_take_front(self.q4w@, amount as int, now as int);
        }
        let rest = match take_front_exec(&self.q4w, amount, now) {
            Ok(v) => v,
            Err(e) => return Err(e),
        };
        self.q4w = rest;
        Ok(())
    }
}

} // verus!
