use vstd::prelude::*;
use crate::backstop::{deposit_result, Backstop};
use crate::balances::{fits_i128, shares_for, tokens_for, BackstopError, PoolBalance};

verus! {

/// While a pool has no shares, a share is priced at one token: a deposit that
/// succeeds mints exactly the tokens deposited, and that many shares redeem
/// exactly that many tokens.
pub proof fn lemma_bootstrap_pricing(s: Backstop, from: u64, pool: u64, amount: i128)
    requires
        s.storage.pool(pool).shares == 0,
        deposit_result(s, from, pool, amount) is Ok,
    ensures
        deposit_result(s, from, pool, amount) == Ok::<i128, BackstopError>(amount),
        tokens_for(s.storage.pool(pool), amount as int) == amount,
{
}

/// A round trip through a pool: `amount` tokens are deposited at the pool's
/// price, `donated` tokens are donated while the minted shares wait in the
/// queue, and then all minted shares are withdrawn. The payout is at most the
/// deposit plus the donation, and it falls short of the deposit by less than
/// one share's price plus one unit: `(out + 1) * shares + tokens > amount * shares`.
/// A pool with tokens but no shares is left out: its first depositor takes
/// those tokens too.
pub proof fn lemma_round_trip(pb: PoolBalance, amount: int, donated: int)
    requires
        pb.shares >= 0,
        pb.tokens >= 0,
        pb.shares == 0 <==> pb.tokens == 0,
        amount >= 0,
        donated >= 0,
        fits_i128(pb.shares + shares_for(pb, amount)),
        fits_i128(pb.tokens + amount + donated),
    ensures
        ({
            let minted = shares_for(pb, amount);
            let after = PoolBalance {
                shares: (pb.shares + minted) as i128,
                tokens: (pb.tokens + amount + donated) as i128,
                q4w: pb.q4w,
            };
            let out = tokens_for(after, minted);
            &&& 0 <= out <= amount + donated
            &&& pb.shares > 0 ==> (out + 1) * pb.shares + pb.tokens > amount * pb.shares
            &&& pb.shares == 0 && amount > 0 ==> out == amount + donated
        }),
{
    let s = pb.shares as int;
    let t = pb.tokens as int;
    let m = shares_for(pb, amount);
    let s2 = s + m;
    let t2 = t + amount + donated;
    let after = PoolBalance { shares: s2 as i128, tokens: t2 as i128, q4w: pb.q4w };
    assert(after.shares as int == s2 && after.tokens as int == t2);
    if s == 0 {
        assert(m == amount);
        if amount > 0 {
            assert((amount * t2) / amount == t2) by (nonlinear_arith)
                requires
                    amount > 0,
            ;
            assert(tokens_for(after, m) == t2);
        } else {
            assert(tokens_for(after, m) == 0);
        }
    } else {
        assert(m == (amount * s) / t);
        assert(0 <= m && m * t <= amount * s && (m + 1) * t > amount * s) by (nonlinear_arith)
            requires
                m == (amount * s) / t,
                amount >= 0,
                s > 0,
                t > 0,
        ;
        assert(s2 > 0);
        let out = (m * t2) / s2;
        assert(0 <= out && out * s2 <= m * t2 && (out + 1) * s2 > m * t2) by (nonlinear_arith)
            requires
                out == (m * t2) / s2,
                m >= 0,
                t2 >= 0,
                s2 > 0,
        ;
        assert(m * t2 <= (amount + donated) * s2) by (nonlinear_arith)
            requires
                m * t <= amount * s,
                s2 == s + m,
                t2 == t + amount + donated,
                donated >= 0,
                s >= 0,
                m >= 0,
        ;
        assert(out <= amount + donated) by (nonlinear_arith)
            requires
                out * s2 <= m * t2,
                m * t2 <= (amount + donated) * s2,
                s2 > 0,
        ;
        assert(t2 * s >= t * s2) by (nonlinear_arith)
            requires
                m * t <= amount * s,
                s2 == s + m,
                t2 == t + amount + donated,
                donated >= 0,
                s >= 0,
        ;
        assert((out + 1) * s2 * s > m * t * s2) by (nonlinear_arith)
            requires
                (out + 1) * s2 > m * t2,
                t2 * s >= t * s2,
                s > 0,
                m >= 0,
                s2 > 0,
        ;
        assert((out + 1) * s > m * t) by (nonlinear_arith)
            requires
                (out + 1) * s2 * s > m * t * s2,
                s2 > 0,
        ;
        assert((out + 1) * s + t > amount * s) by (nonlinear_arith)
            requires
                (out + 1) * s > m * t,
                (m + 1) * t > amount * s,
        ;
        assert(tokens_for(after, m) == out);
    }
}

} // verus!
