use vstd::prelude::*;
use crate::balances::{
    conversion_defined, fits_i128, shares_for, tokens_for, BackstopError, PoolBalance, Q4W,
    Q4W_LOCK_TIME, SCALAR_7,
};
use crate::factory::PoolFactory;
use crate::storage::Storage;
use crate::token::{TokenClient, TokenOp, TokenOpType};
use crate::user::{
    lemma_sum_push, lemma_take_front, lemma_take_front_matures, matures_by, q4w_sum, take_front,
    UserBalance,
};
use crate::valid_state::{
    holds_nothing, lemma_valid_state_bounds, lemma_write_keeps_valid_state, valid_state,
};

verus! {

/// Balances handed to the emissions contract before a call changes them.
pub struct EmissionUpdate {
    pub pool: u64,
    pub pool_balance: PoolBalance,
    pub user: u64,
    pub user_balance: UserBalance,
}

/// Addresses the backstop is configured with once, at initialization.
#[derive(Clone, Copy, Debug, PartialEq, Eq, Structural)]
pub struct BackstopConfig {
    pub backstop_token: u64,
    pub blnd_token: u64,
    pub usdc_token: u64,
    pub pool_factory: u64,
    pub emitter: u64,
}

/// The backstop contract's state: its own address, the ledger clock, stored
/// balances, the pool factory's registry, the backstop token client, and the
/// emission updates handed out so far.
pub struct Backstop {
    pub contract: u64,
    pub config: BackstopConfig,
    pub timestamp: u64,
    pub storage: Storage,
    pub pool_factory: PoolFactory,
    pub backstop_token: TokenClient,
    pub emissions: Vec<EmissionUpdate>,
}

impl Backstop {
    /// Every stored user balance is well formed.
    pub open spec fn wf(&self) -> bool {
        self.storage.wf()
    }

    /// A fresh backstop at `contract` with configuration `config`; its token
    /// client speaks to the configured backstop token, of 7 decimals.
    pub fn new(contract: u64, config: BackstopConfig, timestamp: u64) -> (r: Backstop)
        ensures
            r.contract == contract,
            r.config == config,
            r.timestamp == timestamp,
            r.backstop_token.address == config.backstop_token,
            r.backstop_token.decimals == 7,
            r.backstop_token.ops@ == Seq::<TokenOp>::empty(),
            r.pool_factory.pools@ == Seq::<u64>::empty(),
            r.storage.pools@ == Seq::<(u64, PoolBalance)>::empty(),
            r.storage.users@ == Seq::<((u64, u64), UserBalance)>::empty(),
            r.emissions@.len() == 0,
            r.wf(),
            valid_state(r),
    {
        let r = Backstop {
            contract,
            config,
            timestamp,
            storage: Storage::new(),
            pool_factory: PoolFactory::new(),
            backstop_token: TokenClient::new(config.backstop_token, 7),
            emissions: Vec::new(),
        };
        proof {
            assert forall|p: u64, u: u64| #[trigger] holds_nothing(r.storage, p, u) by {
                assert(r.storage.queue(p, u) =~= Seq::<Q4W>::empty());
            }
        }
        r
    }

    /// Records `pool` as a pool that the factory deployed.
    pub fn register_pool(&mut self, pool: u64)
        ensures
            final(self).pool_factory.pools@ == old(self).pool_factory.pools@.push(pool),
            final(self).contract == old(self).contract,
            final(self).config == old(self).config,
            final(self).timestamp == old(self).timestamp,
            final(self).storage == old(self).storage,
            final(self).backstop_token == old(self).backstop_token,
            final(self).emissions == old(self).emissions,
            valid_state(*old(self)) ==> valid_state(*final(self)),
    {
        self.pool_factory.set_pool(pool);
        proof {
            if valid_state(*old(self)) {
                assert forall|p: u64| !self.pool_factory.pools@.contains(p) implies #[trigger] self.storage.pool(p) == (PoolBalance { shares: 0, tokens: 0, q4w: 0 }) by {
                    assert(old(self).pool_factory.pools@.contains(p) ==> self.pool_factory.pools@.contains(p)) by {
                        if old(self).pool_factory.pools@.contains(p) {
                            let j = choose|j: int| 0 <= j < old(self).pool_factory.pools@.len() && old(self).pool_factory.pools@[j] == p;
                            assert(self.pool_factory.pools@[j] == p);
                        }
                    }
                }
            }
        }
    }

    /// Moves the ledger clock to `timestamp`. The ledger's clock only moves
    /// forward; a valid state stays valid when it does.
    pub fn set_timestamp(&mut self, timestamp: u64)
        ensures
            final(self).timestamp == timestamp,
            final(self).contract == old(self).contract,
            final(self).config == old(self).config,
            final(self).storage == old(self).storage,
            final(self).pool_factory == old(self).pool_factory,
            final(self).backstop_token == old(self).backstop_token,
            final(self).emissions == old(self).emissions,
            valid_state(*old(self)) && timestamp >= old(self).timestamp ==> valid_state(*final(self)),
    {
        self.timestamp = timestamp;
        proof {
            if valid_state(*old(self)) && timestamp >= old(self).timestamp {
                assert forall|p: u64, u: u64| #[trigger] matures_by(self.storage.queue(p, u), self.timestamp + Q4W_LOCK_TIME) by {
                    assert(matures_by(old(self).storage.queue(p, u), old(self).timestamp + Q4W_LOCK_TIME));
                }
            }
        }
    }
}

/// Outside what a call on (`pool`, `user`) may touch, `t` equals `s`: the
/// contract's address, clock, registry and token, every other pool's
/// balance, and every other user's balance in any pool.
pub open spec fn isolated(s: Backstop, t: Backstop, pool: u64, user: u64) -> bool {
    &&& t.contract == s.contract
    &&& t.config == s.config
    &&& t.timestamp == s.timestamp
    &&& t.pool_factory.pools@ == s.pool_factory.pools@
    &&& t.backstop_token.address == s.backstop_token.address
    &&& t.backstop_token.decimals == s.backstop_token.decimals
    &&& forall|q: u64| q != pool ==> #[trigger] t.storage.pool(q) == s.storage.pool(q)
    &&& forall|q: u64, v: u64|
        !(q == pool && v == user) ==> #[trigger] t.storage.shares(q, v) == s.storage.shares(q, v)
            && t.storage.queue(q, v) == s.storage.queue(q, v)
}

/// `t` holds one emission update more than `s`: pool `pool` and `user` with
/// their balances as they stood in `s`.
pub open spec fn emitted(s: Backstop, t: Backstop, pool: u64, user: u64) -> bool {
    let n = s.emissions@.len();
    &&& t.emissions@.len() == n + 1
    &&& t.emissions@.subrange(0, n as int) == s.emissions@
    &&& t.emissions@[n as int].pool == pool
    &&& t.emissions@[n as int].user == user
    &&& t.emissions@[n as int].pool_balance == s.storage.pool(pool)
    &&& t.emissions@[n as int].user_balance.shares == s.storage.shares(pool, user)
    &&& t.emissions@[n as int].user_balance.q4w@ == s.storage.queue(pool, user)
}

/// A pool's shares and tokens move in the same direction: more shares come
/// only with more tokens, fewer shares only with fewer tokens.
pub open spec fn shares_tokens_sync(before: PoolBalance, after: PoolBalance) -> bool {
    &&& after.shares > before.shares ==> after.tokens > before.tokens
    &&& after.shares < before.shares ==> after.tokens < before.tokens
}

/// How a call moved pool `pool` and `user`'s balance in it, read between
/// states `s` and `t`, is one of the withdrawal-family moves or none:
/// - more queued in the pool: the user queued exactly that many free shares,
///   and the pool's shares and tokens stayed;
/// - less queued and fewer pool shares: the user withdrew exactly that many
///   queued shares, free shares untouched;
/// - less queued and more free user shares: the user cancelled exactly that
///   many queued shares, and the pool's shares and tokens stayed;
/// - more free user shares with more pool tokens: a deposit, minting the same
///   shares in the pool, with nothing queued;
/// - a change in the user's queue matches the pool's queued change.
pub open spec fn transition_consistent(s: Backstop, t: Backstop, pool: u64, user: u64) -> bool {
    let pb0 = s.storage.pool(pool);
    let pb1 = t.storage.pool(pool);
    let d_pool_q4w = pb1.q4w - pb0.q4w;
    let d_pool_shares = pb1.shares - pb0.shares;
    let d_pool_tokens = pb1.tokens - pb0.tokens;
    let d_user_shares = t.storage.shares(pool, user) - s.storage.shares(pool, user);
    let d_user_q4w = q4w_sum(t.storage.queue(pool, user)) - q4w_sum(s.storage.queue(pool, user));
    &&& d_pool_q4w > 0 ==> d_user_shares == -d_pool_q4w && d_user_q4w == d_pool_q4w && d_pool_shares == 0
        && d_pool_tokens == 0
    &&& d_pool_q4w < 0 && d_pool_shares < 0 ==> d_pool_shares == d_pool_q4w && d_user_q4w == d_pool_q4w
        && d_user_shares == 0
    &&& d_pool_q4w < 0 && d_user_shares > 0 ==> d_user_shares == -d_pool_q4w && d_user_q4w == d_pool_q4w
        && d_pool_shares == 0 && d_pool_tokens == 0
    &&& d_user_shares > 0 && d_pool_tokens > 0 ==> d_pool_shares == d_user_shares && d_pool_q4w == 0
        && d_user_q4w == 0
    &&& d_user_q4w != 0 ==> d_pool_q4w == d_user_q4w
}

/// Fails with `NotPool` where a pool without shares is not one the pool
/// factory deployed; a pool with shares is trusted.
pub fn require_is_from_pool_factory(e: &Backstop, pool_address: u64, balance: i128) -> (r: Result<(), BackstopError>)
    ensures
        r == (if balance == 0 && !e.pool_factory.pools@.contains(pool_address) {
            Err::<(), BackstopError>(BackstopError::NotPool)
        } else {
            Ok(())
        }),
{
    if balance == 0 && !e.pool_factory.is_pool(pool_address) {
        return Err(BackstopError::NotPool);
    }
    Ok(())
}

/// Hands the emissions contract the balances of `user_id` in `pool_id` as
/// they stand before a change.
pub fn update_emissions(e: &mut Backstop, pool_id: u64, pool_balance: &PoolBalance, user_id: u64, user_balance: &UserBalance)
    ensures
        final(e).emissions@.len() == old(e).emissions@.len() + 1,
        final(e).emissions@.subrange(0, old(e).emissions@.len() as int) == old(e).emissions@,
        final(e).emissions@.last().pool == pool_id,
        final(e).emissions@.last().user == user_id,
        final(e).emissions@.last().pool_balance == *pool_balance,
        final(e).emissions@.last().user_balance.shares == user_balance.shares,
        final(e).emissions@.last().user_balance.q4w@ == user_balance.q4w@,
        final(e).contract == old(e).contract,
        final(e).config == old(e).config,
        final(e).timestamp == old(e).timestamp,
        final(e).storage == old(e).storage,
        final(e).pool_factory == old(e).pool_factory,
        final(e).backstop_token == old(e).backstop_token,
{
    let record = EmissionUpdate {
        pool: pool_id,
        pool_balance: *pool_balance,
        user: user_id,
        user_balance: user_balance.copy(),
    };
    e.emissions.push(record);
    assert(e.emissions@.subrange(0, old(e).emissions@.len() as int) =~= old(e).emissions@);
}

/// What a deposit returns: the shares minted, or the error that stops it.
pub open spec fn deposit_result(s: Backstop, from: u64, pool: u64, amount: i128) -> Result<i128, BackstopError> {
    let pb = s.storage.pool(pool);
    let minted = shares_for(pb, amount as int);
    if amount < 0 {
        Err(BackstopError::NegativeAmount)
    } else if from == pool || from == s.contract {
        Err(BackstopError::BadRequest)
    } else if pb.shares == 0 && !s.pool_factory.pools@.contains(pool) {
        Err(BackstopError::NotPool)
    } else if pb.shares != 0 && !conversion_defined(amount as int, pb.shares as int, pb.tokens as int) {
        Err(BackstopError::ArithmeticError)
    } else if !fits_i128(pb.tokens + amount) || !fits_i128(pb.shares + minted) || !fits_i128(
        s.storage.shares(pool, from) + minted,
    ) {
        Err(BackstopError::ArithmeticError)
    } else {
        Ok(minted as i128)
    }
}

/// Effect of a deposit of `amount` by `from` that minted `minted` shares.
pub open spec fn deposit_effect(s: Backstop, t: Backstop, from: u64, pool: u64, amount: i128, minted: i128) -> bool {
    let pb = s.storage.pool(pool);
    &&& isolated(s, t, pool, from)
    &&& t.storage.pool(pool) == (PoolBalance {
        shares: (pb.shares + minted) as i128,
        tokens: (pb.tokens + amount) as i128,
        q4w: pb.q4w,
    })
    &&& t.storage.shares(pool, from) == s.storage.shares(pool, from) + minted
    &&& t.storage.queue(pool, from) == s.storage.queue(pool, from)
    &&& emitted(s, t, pool, from)
    &&& t.backstop_token.ops@ == s.backstop_token.ops@.push(
        TokenOp { op_type: TokenOpType::Transfer, from, to: s.contract, amount },
    )
}

/// Deposits `amount` tokens of `from` into `pool_address`'s backstop, minting
/// shares at the price before the deposit. The emissions contract sees the
/// balances as they stood; the tokens move from `from` to the backstop.
pub fn execute_deposit(e: &mut Backstop, from: u64, pool_address: u64, amount: i128) -> (r: Result<i128, BackstopError>)
    requires
        old(e).wf(),
    ensures
        r == deposit_result(*old(e), from, pool_address, amount),
        r is Err ==> *final(e) == *old(e),
        r matches Ok(minted) ==> deposit_effect(*old(e), *final(e), from, pool_address, amount, minted),
        final(e).wf(),
        valid_state(*old(e)) ==> valid_state(*final(e)),
        shares_tokens_sync(old(e).storage.pool(pool_address), final(e).storage.pool(pool_address)),
        transition_consistent(*old(e), *final(e), pool_address, from),
{
    if amount < 0 {
        return Err(BackstopError::NegativeAmount);
    }
    if from == pool_address || from == e.contract {
        return Err(BackstopError::BadRequest);
    }
    let mut pool_balance = e.storage.get_pool_balance(pool_address);
    let pre_pool = pool_balance;
    match require_is_from_pool_factory(e, pool_address, pool_balance.shares) {
        Ok(()) => {},
        Err(x) => return Err(x),
    }
    let mut user_balance = e.storage.get_user_balance(pool_address, from);
    let to_mint = match pool_balance.convert_to_shares(amount) {
        Some(v) => v,
        None => return Err(BackstopError::ArithmeticError),
    };
    proof {
        if pre_pool.shares != 0 {
            assert(0 <= to_mint) by (nonlinear_arith)
                requires
                    to_mint == (amount * pre_pool.shares) / pre_pool.tokens as int,
                    amount >= 0,
                    pre_pool.shares >= 0,
                    pre_pool.tokens > 0,
            ;
        }
    }
    match pool_balance.deposit(amount, to_mint) {
        Ok(()) => {},
        Err(x) => return Err(x),
    }
    match user_balance.add_shares(to_mint) {
        Ok(()) => {},
        Err(x) => return Err(x),
    }
    let pre_user = e.storage.get_user_balance(pool_address, from);
    update_emissions(e, pool_address, &pre_pool, from, &pre_user);
    let contract = e.contract;
    e.backstop_token.transfer(from, contract, amount);
    store_balances(e, pool_address, pool_balance, from, user_balance);
    proof {
        if pre_pool.shares != 0 && amount == 0 {
            assert(to_mint == 0) by (nonlinear_arith)
                requires
                    to_mint == (amount * pre_pool.shares) / pre_pool.tokens as int,
                    amount == 0,
                    pre_pool.tokens > 0,
            ;
        }
        if valid_state(*old(e)) {
            assert(crate::valid_state::pool_nonnegative(old(e).storage.pool(pool_address)));
            assert(matures_by(old(e).storage.queue(pool_address, from), old(e).timestamp + Q4W_LOCK_TIME));
            lemma_write_keeps_valid_state(
                *old(e),
                *e,
                pool_address,
                pool_balance,
                from,
                user_balance.shares,
                user_balance.q4w@,
            );
        }
    }
    Ok(to_mint)
}

/// Stores new balances for `pool` and for `user` in it.
pub(crate) fn store_balances(e: &mut Backstop, pool: u64, pb: PoolBalance, user: u64, ub: UserBalance)
    requires
        old(e).wf(),
        ub.wf(),
    ensures
        forall|q: u64| #[trigger] final(e).storage.pool(q) == (if q == pool { pb } else { old(e).storage.pool(q) }),
        forall|q: u64, v: u64| #[trigger] final(e).storage.shares(q, v) == (if q == pool && v == user {
            ub.shares
        } else {
            old(e).storage.shares(q, v)
        }),
        forall|q: u64, v: u64| #[trigger] final(e).storage.queue(q, v) == (if q == pool && v == user {
            ub.q4w@
        } else {
            old(e).storage.queue(q, v)
        }),
        forall|q: u64| #[trigger] final(e).storage.claims(q) == old(e).storage.claims(q) + (if q == pool {
            ub.shares + q4w_sum(ub.q4w@) - old(e).storage.shares(pool, user) - q4w_sum(old(e).storage.queue(pool, user))
        } else {
            0
        }),
        forall|q: u64| #[trigger] final(e).storage.queued(q) == old(e).storage.queued(q) + (if q == pool {
            q4w_sum(ub.q4w@) - q4w_sum(old(e).storage.queue(pool, user))
        } else {
            0
        }),
        final(e).wf(),
        final(e).contract == old(e).contract,
        final(e).config == old(e).config,
        final(e).timestamp == old(e).timestamp,
        final(e).pool_factory == old(e).pool_factory,
        final(e).backstop_token == old(e).backstop_token,
        final(e).emissions == old(e).emissions,
{
    e.storage.set_pool_balance(pool, pb);
    let ghost mid = e.storage;
    e.storage.set_user_balance(pool, user, ub);
    proof {
        assert forall|q: u64| #[trigger] e.storage.pool(q) == mid.pool(q) by {}
        assert forall|q: u64| #[trigger] mid.claims(q) == old(e).storage.claims(q) by {}
        assert forall|q: u64| #[trigger] mid.queued(q) == old(e).storage.queued(q) by {}
        assert forall|q: u64, v: u64| #[trigger] mid.shares(q, v) == old(e).storage.shares(q, v) by {}
        assert forall|q: u64, v: u64| #[trigger] mid.queue(q, v) == old(e).storage.queue(q, v) by {}
    }
}

/// What a donation returns.
pub open spec fn donate_result(s: Backstop, from: u64, pool: u64, amount: i128) -> Result<(), BackstopError> {
    let pb = s.storage.pool(pool);
    if amount < 0 {
        Err(BackstopError::NegativeAmount)
    } else if from == pool || from == s.contract {
        Err(BackstopError::BadRequest)
    } else if pb.shares == 0 && !s.pool_factory.pools@.contains(pool) {
        Err(BackstopError::NotPool)
    } else if !fits_i128(pb.tokens + amount) {
        Err(BackstopError::ArithmeticError)
    } else {
        Ok(())
    }
}

/// Effect of a donation of `amount` by `from`.
pub open spec fn donate_effect(s: Backstop, t: Backstop, from: u64, pool: u64, amount: i128) -> bool {
    let pb = s.storage.pool(pool);
    &&& isolated(s, t, pool, from)
    &&& t.storage.pool(pool) == (PoolBalance {
        tokens: (pb.tokens + amount) as i128,
        ..pb
    })
    &&& t.storage.users@ == s.storage.users@
    &&& t.emissions@ == s.emissions@
    &&& t.backstop_token.ops@ == s.backstop_token.ops@.push(
        TokenOp { op_type: TokenOpType::TransferFrom, from, to: s.contract, amount },
    )
}

/// Donates `amount` tokens of `from` to `pool_address`'s backstop: tokens rise,
/// shares do not, so every holder's shares are worth more. Neither the pool
/// nor the backstop itself may donate.
pub fn execute_donate(e: &mut Backstop, from: u64, pool_address: u64, amount: i128) -> (r: Result<(), BackstopError>)
    requires
        old(e).wf(),
    ensures
        r == donate_result(*old(e), from, pool_address, amount),
        r is Err ==> *final(e) == *old(e),
        r is Ok ==> donate_effect(*old(e), *final(e), from, pool_address, amount),
        final(e).wf(),
        valid_state(*old(e)) ==> valid_state(*final(e)),
        shares_tokens_sync(old(e).storage.pool(pool_address), final(e).storage.pool(pool_address)),
        transition_consistent(*old(e), *final(e), pool_address, from),
{
    if amount < 0 {
        return Err(BackstopError::NegativeAmount);
    }
    if from == pool_address || from == e.contract {
        return Err(BackstopError::BadRequest);
    }
    let mut pool_balance = e.storage.get_pool_balance(pool_address);
    match require_is_from_pool_factory(e, pool_address, pool_balance.shares) {
        Ok(()) => {},
        Err(x) => return Err(x),
    }
    match pool_balance.deposit(amount, 0) {
        Ok(()) => {},
        Err(x) => return Err(x),
    }
    let contract = e.contract;
    e.backstop_token.transfer_from(contract, from, contract, amount);
    e.storage.set_pool_balance(pool_address, pool_balance);
    proof {
        if valid_state(*old(e)) {
            assert(crate::valid_state::pool_nonnegative(old(e).storage.pool(pool_address)));
            assert(matures_by(old(e).storage.queue(pool_address, contract), old(e).timestamp + Q4W_LOCK_TIME));
            assert(holds_nothing(old(e).storage, pool_address, contract));
            lemma_write_keeps_valid_state(
                *old(e),
                *e,
                pool_address,
                pool_balance,
                contract,
                old(e).storage.shares(pool_address, contract),
                old(e).storage.queue(pool_address, contract),
            );
        }
    }
    Ok(())
}

/// What a draw returns.
pub open spec fn draw_result(s: Backstop, pool: u64, amount: i128) -> Result<(), BackstopError> {
    let pb = s.storage.pool(pool);
    if amount < 0 {
        Err(BackstopError::NegativeAmount)
    } else if amount > pb.tokens || 0 > pb.shares || 0 > pb.q4w {
        Err(BackstopError::InsufficientFunds)
    } else {
        Ok(())
    }
}

/// Effect of a draw of `amount` to `to`.
pub open spec fn draw_effect(s: Backstop, t: Backstop, pool: u64, amount: i128, to: u64) -> bool {
    let pb = s.storage.pool(pool);
    &&& isolated(s, t, pool, to)
    &&& t.storage.pool(pool) == (PoolBalance {
        tokens: (pb.tokens - amount) as i128,
        ..pb
    })
    &&& t.storage.users@ == s.storage.users@
    &&& t.emissions@ == s.emissions@
    &&& t.backstop_token.ops@ == s.backstop_token.ops@.push(
        TokenOp { op_type: TokenOpType::Transfer, from: s.contract, to, amount },
    )
}

/// Draws `amount` of `pool_address`'s backstop tokens to `to`, to cover the
/// pool's losses; shares and queued shares stay. The caller has authenticated
/// the pool.
pub fn execute_draw(e: &mut Backstop, pool_address: u64, amount: i128, to: u64) -> (r: Result<(), BackstopError>)
    requires
        old(e).wf(),
    ensures
        r == draw_result(*old(e), pool_address, amount),
        r is Err ==> *final(e) == *old(e),
        r is Ok ==> draw_effect(*old(e), *final(e), pool_address, amount, to),
        final(e).wf(),
        valid_state(*old(e)) ==> valid_state(*final(e)),
        shares_tokens_sync(old(e).storage.pool(pool_address), final(e).storage.pool(pool_address)),
        transition_consistent(*old(e), *final(e), pool_address, to),
{
    if amount < 0 {
        return Err(BackstopError::NegativeAmount);
    }
    let mut pool_balance = e.storage.get_pool_balance(pool_address);
    match pool_balance.withdraw(amount, 0) {
        Ok(()) => {},
        Err(x) => return Err(x),
    }
    e.storage.set_pool_balance(pool_address, pool_balance);
    let contract = e.contract;
    e.backstop_token.transfer(contract, to, amount);
    proof {
        if valid_state(*old(e)) {
            assert(crate::valid_state::pool_nonnegative(old(e).storage.pool(pool_address)));
            assert(matures_by(old(e).storage.queue(pool_address, contract), old(e).timestamp + Q4W_LOCK_TIME));
            assert(holds_nothing(old(e).storage, pool_address, contract));
            lemma_write_keeps_valid_state(
                *old(e),
                *e,
                pool_address,
                pool_balance,
                contract,
                old(e).storage.shares(pool_address, contract),
                old(e).storage.queue(pool_address, contract),
            );
        }
    }
    Ok(())
}

/// What queueing a withdrawal returns: the new entry, or the error.
pub open spec fn queue_result(s: Backstop, from: u64, pool: u64, amount: i128) -> Result<Q4W, BackstopError> {
    let pb = s.storage.pool(pool);
    if amount < 0 {
        Err(BackstopError::NegativeAmount)
    } else if amount > s.storage.shares(pool, from) {
        Err(BackstopError::InsufficientFunds)
    } else if s.timestamp as int + Q4W_LOCK_TIME as int > u64::MAX as int {
        Err(BackstopError::ArithmeticError)
    } else if !fits_i128(pb.q4w + amount) {
        Err(BackstopError::ArithmeticError)
    } else {
        Ok(Q4W { amount, exp: (s.timestamp + Q4W_LOCK_TIME) as u64 })
    }
}

/// Effect of queueing `amount` of `from`'s shares as `entry`.
pub open spec fn queue_effect(s: Backstop, t: Backstop, from: u64, pool: u64, amount: i128, entry: Q4W) -> bool {
    let pb = s.storage.pool(pool);
    &&& isolated(s, t, pool, from)
    &&& t.storage.pool(pool) == (PoolBalance {
        q4w: (pb.q4w + amount) as i128,
        ..pb
    })
    &&& t.storage.shares(pool, from) == s.storage.shares(pool, from) - amount
    &&& t.storage.queue(pool, from) == s.storage.queue(pool, from).push(entry)
    &&& emitted(s, t, pool, from)
    &&& t.backstop_token.ops@ == s.backstop_token.ops@
}

/// Queues `amount` of `from`'s shares in `pool_address` for withdrawal; they
/// mature `Q4W_LOCK_TIME` seconds from now. Returns the new entry.
pub fn execute_queue_withdrawal(e: &mut Backstop, from: u64, pool_address: u64, amount: i128) -> (r: Result<Q4W, BackstopError>)
    requires
        old(e).wf(),
    ensures
        r == queue_result(*old(e), from, pool_address, amount),
        r is Err ==> *final(e) == *old(e),
        r matches Ok(entry) ==> queue_effect(*old(e), *final(e), from, pool_address, amount, entry),
        final(e).wf(),
        valid_state(*old(e)) ==> valid_state(*final(e)),
        shares_tokens_sync(old(e).storage.pool(pool_address), final(e).storage.pool(pool_address)),
        transition_consistent(*old(e), *final(e), pool_address, from),
        valid_state(*old(e)) ==> (r is Ok <==> 0 <= amount <= old(e).storage.shares(pool_address, from)
            && old(e).timestamp as int + Q4W_LOCK_TIME as int <= u64::MAX as int),
{
    proof {
        if valid_state(*e) {
            lemma_valid_state_bounds(*e, pool_address, from);
        }
    }
    if amount < 0 {
        return Err(BackstopError::NegativeAmount);
    }
    let mut pool_balance = e.storage.get_pool_balance(pool_address);
    let pre_pool = pool_balance;
    let mut user_balance = e.storage.get_user_balance(pool_address, from);
    match user_balance.queue_shares_for_withdrawal(amount, e.timestamp) {
        Ok(()) => {},
        Err(x) => return Err(x),
    }
    match pool_balance.queue_for_withdraw(amount) {
        Ok(()) => {},
        Err(x) => return Err(x),
    }
    let entry = Q4W { amount, exp: e.timestamp + Q4W_LOCK_TIME };
    let pre_user = e.storage.get_user_balance(pool_address, from);
    update_emissions(e, pool_address, &pre_pool, from, &pre_user);
    proof {
        assert(q4w_sum(user_balance.q4w@) >= 0) by {
            crate::user::lemma_sum_nonnegative(user_balance.q4w@);
        }
        assert(user_balance.wf()) by {
            assert forall|i: int| 0 <= i < user_balance.q4w@.len() implies #[trigger] user_balance.q4w@[i].amount >= 0 by {
                if i < pre_user.q4w@.len() {
                    assert(user_balance.q4w@[i] == pre_user.q4w@[i]);
                }
            }
        }
    }
    store_balances(e, pool_address, pool_balance, from, user_balance);
    proof {
        lemma_sum_push(pre_user.q4w@, entry);
        if valid_state(*old(e)) {
            assert(crate::valid_state::pool_nonnegative(old(e).storage.pool(pool_address)));
            assert(matures_by(old(e).storage.queue(pool_address, from), old(e).timestamp + Q4W_LOCK_TIME));
            assert(matures_by(user_balance.q4w@, old(e).timestamp + Q4W_LOCK_TIME)) by {
                assert forall|i: int| 0 <= i < user_balance.q4w@.len() implies #[trigger] user_balance.q4w@[i].exp <= old(e).timestamp + Q4W_LOCK_TIME by {
                    if i < pre_user.q4w@.len() {
                        assert(user_balance.q4w@[i] == pre_user.q4w@[i]);
                    }
                }
            }
            lemma_valid_state_bounds(*old(e), pool_address, from);
            assert(holds_nothing(old(e).storage, pool_address, pool_address));
            assert(holds_nothing(old(e).storage, pool_address, old(e).contract));
            lemma_write_keeps_valid_state(
                *old(e),
                *e,
                pool_address,
                pool_balance,
                from,
                user_balance.shares,
                user_balance.q4w@,
            );
        }
    }
    Ok(entry)
}

/// What dequeueing returns.
pub open spec fn dequeue_result(s: Backstop, from: u64, pool: u64, amount: i128) -> Result<(), BackstopError> {
    let pb = s.storage.pool(pool);
    if amount < 0 {
        Err(BackstopError::NegativeAmount)
    } else if q4w_sum(s.storage.queue(pool, from)) < amount {
        Err(BackstopError::InsufficientFunds)
    } else if !fits_i128(s.storage.shares(pool, from) + amount) {
        Err(BackstopError::ArithmeticError)
    } else if amount > pb.q4w {
        Err(BackstopError::InsufficientFunds)
    } else {
        Ok(())
    }
}

/// Effect of cancelling `amount` of `from`'s queued shares.
pub open spec fn dequeue_effect(s: Backstop, t: Backstop, from: u64, pool: u64, amount: i128) -> bool {
    let pb = s.storage.pool(pool);
    &&& isolated(s, t, pool, from)
    &&& t.storage.pool(pool) == (PoolBalance {
        q4w: (pb.q4w - amount) as i128,
        ..pb
    })
    &&& t.storage.shares(pool, from) == s.storage.shares(pool, from) + amount
    &&& take_front(s.storage.queue(pool, from), amount as int, u64::MAX as int)
        == Ok::<Seq<Q4W>, BackstopError>(t.storage.queue(pool, from))
    &&& emitted(s, t, pool, from)
    &&& t.backstop_token.ops@ == s.backstop_token.ops@
}

/// Cancels `amount` of `from`'s queued shares in `pool_address`, oldest
/// entries first, and gives them back as free shares. No token moves.
pub fn execute_dequeue_withdrawal(e: &mut Backstop, from: u64, pool_address: u64, amount: i128) -> (r: Result<(), BackstopError>)
    requires
        old(e).wf(),
    ensures
        r == dequeue_result(*old(e), from, pool_address, amount),
        r is Err ==> *final(e) == *old(e),
        r is Ok ==> dequeue_effect(*old(e), *final(e), from, pool_address, amount),
        final(e).wf(),
        valid_state(*old(e)) ==> valid_state(*final(e)),
        shares_tokens_sync(old(e).storage.pool(pool_address), final(e).storage.pool(pool_address)),
        transition_consistent(*old(e), *final(e), pool_address, from),
{
    if amount < 0 {
        return Err(BackstopError::NegativeAmount);
    }
    let mut pool_balance = e.storage.get_pool_balance(pool_address);
    let pre_pool = pool_balance;
    let mut user_balance = e.storage.get_user_balance(pool_address, from);
    match user_balance.dequeue_shares(amount) {
        Ok(()) => {},
        Err(x) => return Err(x),
    }
    match pool_balance.dequeue_q4w(amount) {
        Ok(()) => {},
        Err(x) => return Err(x),
    }
    let pre_user = e.storage.get_user_balance(pool_address, from);
    update_emissions(e, pool_address, &pre_pool, from, &pre_user);
    store_balances(e, pool_address, pool_balance, from, user_balance);
    proof {
        lemma_take_front(pre_user.q4w@, amount as int, u64::MAX as int);
        if valid_state(*old(e)) {
            assert(crate::valid_state::pool_nonnegative(old(e).storage.pool(pool_address)));
            assert(matures_by(old(e).storage.queue(pool_address, from), old(e).timestamp + Q4W_LOCK_TIME));
            lemma_take_front_matures(pre_user.q4w@, amount as int, u64::MAX as int, old(e).timestamp + Q4W_LOCK_TIME);
            lemma_valid_state_bounds(*old(e), pool_address, from);
            assert(holds_nothing(old(e).storage, pool_address, pool_address));
            assert(holds_nothing(old(e).storage, pool_address, old(e).contract));
            lemma_write_keeps_valid_state(
                *old(e),
                *e,
                pool_address,
                pool_balance,
                from,
                user_balance.shares,
                user_balance.q4w@,
            );
        }
    }
    Ok(())
}

/// What a withdrawal returns: the tokens paid out, or the error.
pub open spec fn withdraw_result(s: Backstop, from: u64, pool: u64, amount: i128) -> Result<i128, BackstopError> {
    let pb = s.storage.pool(pool);
    let out = tokens_for(pb, amount as int);
    if amount < 0 {
        Err(BackstopError::NegativeAmount)
    } else {
        match take_front(s.storage.queue(pool, from), amount as int, s.timestamp as int) {
            Err(x) => Err(x),
            Ok(_) => if pb.shares != 0 && !conversion_defined(
                amount as int,
                pb.tokens as int,
                pb.shares as int,
            ) {
                Err(BackstopError::ArithmeticError)
            } else if out == 0 {
                Err(BackstopError::InvalidTokenWithdrawAmount)
            } else if out > pb.tokens || amount > pb.shares || amount > pb.q4w {
                Err(BackstopError::InsufficientFunds)
            } else {
                Ok(out as i128)
            },
        }
    }
}

/// Effect of withdrawing `amount` of `from`'s matured shares for `out` tokens.
pub open spec fn withdraw_effect(s: Backstop, t: Backstop, from: u64, pool: u64, amount: i128, out: i128) -> bool {
    let pb = s.storage.pool(pool);
    &&& isolated(s, t, pool, from)
    &&& t.storage.pool(pool) == (PoolBalance {
        shares: (pb.shares - amount) as i128,
        tokens: (pb.tokens - out) as i128,
        q4w: (pb.q4w - amount) as i128,
    })
    &&& t.storage.shares(pool, from) == s.storage.shares(pool, from)
    &&& take_front(s.storage.queue(pool, from), amount as int, s.timestamp as int)
        == Ok::<Seq<Q4W>, BackstopError>(t.storage.queue(pool, from))
    &&& t.emissions@ == s.emissions@
    &&& t.backstop_token.ops@ == s.backstop_token.ops@.push(
        TokenOp { op_type: TokenOpType::Transfer, from: s.contract, to: from, amount: out },
    )
}

/// Withdraws `amount` of `from`'s matured queued shares in `pool_address`,
/// oldest entries first, and pays out their worth in tokens at the current
/// price. Shares worth no token are refused.
pub fn execute_withdraw(e: &mut Backstop, from: u64, pool_address: u64, amount: i128) -> (r: Result<i128, BackstopError>)
    requires
        old(e).wf(),
    ensures
        r == withdraw_result(*old(e), from, pool_address, amount),
        r is Err ==> *final(e) == *old(e),
        r matches Ok(out) ==> withdraw_effect(*old(e), *final(e), from, pool_address, amount, out),
        final(e).wf(),
        valid_state(*old(e)) ==> valid_state(*final(e)),
        shares_tokens_sync(old(e).storage.pool(pool_address), final(e).storage.pool(pool_address)),
        transition_consistent(*old(e), *final(e), pool_address, from),
{
    if amount < 0 {
        return Err(BackstopError::NegativeAmount);
    }
    let mut pool_balance = e.storage.get_pool_balance(pool_address);
    let mut user_balance = e.storage.get_user_balance(pool_address, from);
    match user_balance.withdraw_shares(amount, e.timestamp) {
        Ok(()) => {},
        Err(x) => return Err(x),
    }
    let to_return = match pool_balance.convert_to_tokens(amount) {
        Some(v) => v,
        None => return Err(BackstopError::ArithmeticError),
    };
    if to_return == 0 {
        return Err(BackstopError::InvalidTokenWithdrawAmount);
    }
    proof {
        if pool_balance.shares != 0 {
            assert(0 <= to_return) by (nonlinear_arith)
                requires
                    to_return == (amount * pool_balance.tokens) / pool_balance.shares as int,
                    amount >= 0,
                    pool_balance.tokens >= 0,
                    pool_balance.shares > 0,
            ;
        }
    }
    match pool_balance.withdraw(to_return, amount) {
        Ok(()) => {},
        Err(x) => return Err(x),
    }
    let ghost pre_queue = old(e).storage.queue(pool_address, from);
    store_balances(e, pool_address, pool_balance, from, user_balance);
    let contract = e.contract;
    e.backstop_token.transfer(contract, from, to_return);
    proof {
        lemma_take_front(pre_queue, amount as int, old(e).timestamp as int);
        if valid_state(*old(e)) {
            assert(crate::valid_state::pool_nonnegative(old(e).storage.pool(pool_address)));
            assert(matures_by(old(e).storage.queue(pool_address, from), old(e).timestamp + Q4W_LOCK_TIME));
            lemma_take_front_matures(pre_queue, amount as int, old(e).timestamp as int, old(e).timestamp + Q4W_LOCK_TIME);
            lemma_valid_state_bounds(*old(e), pool_address, from);
            crate::user::lemma_sum_nonnegative(user_balance.q4w@);
            assert(holds_nothing(old(e).storage, pool_address, pool_address));
            assert(holds_nothing(old(e).storage, pool_address, old(e).contract));
            lemma_write_keeps_valid_state(
                *old(e),
                *e,
                pool_address,
                pool_balance,
                from,
                user_balance.shares,
                user_balance.q4w@,
            );
        }
    }
    Ok(to_return)
}
/// The configured backstop token.
pub fn get_backstop_token(e: &Backstop) -> (r: u64)
    ensures
        r == e.config.backstop_token,
{
    e.config.backstop_token
}

/// The configured BLND token.
pub fn get_blnd_token(e: &Backstop) -> (r: u64)
    ensures
        r == e.config.blnd_token,
{
    e.config.blnd_token
}

/// The configured USDC token.
pub fn get_usdc_token(e: &Backstop) -> (r: u64)
    ensures
        r == e.config.usdc_token,
{
    e.config.usdc_token
}

/// The configured pool factory.
pub fn get_pool_factory(e: &Backstop) -> (r: u64)
    ensures
        r == e.config.pool_factory,
{
    e.config.pool_factory
}

/// The configured emitter.
pub fn get_emitter(e: &Backstop) -> (r: u64)
    ensures
        r == e.config.emitter,
{
    e.config.emitter
}

/// A pool's backstop health as the rest of the protocol reads it: its tokens,
/// and the part of its shares queued for withdrawal as a 7-decimal fraction.
#[derive(Clone, Copy, Debug, PartialEq, Eq, Structural)]
pub struct PoolBackstopData {
    pub tokens: i128,
    pub q4w_pct: i128,
}

/// `x / z` rounded up, for non-negative `x` and positive `z`.
pub open spec fn ceil_div(x: int, z: int) -> int {
    if x % z == 0 {
        x / z
    } else {
        x / z + 1
    }
}

/// The queued fraction of a pool's shares, scaled by `SCALAR_7` and rounded up;
/// zero for a pool without shares.
pub open spec fn queued_fraction(pb: PoolBalance) -> int {
    if pb.shares == 0 {
        0
    } else {
        ceil_div(pb.q4w * SCALAR_7, pb.shares as int)
    }
}

/// Reads pool `pool_address`'s backstop health; nothing changes. Fails with
/// `ArithmeticError` where the pool's amounts are negative or the scaled
/// queued amount does not fit in 128 bits.
pub fn load_pool_backstop_data(e: &Backstop, pool_address: u64) -> (r: Result<PoolBackstopData, BackstopError>)
    ensures
        ({
            let pb = e.storage.pool(pool_address);
            r == (if pb.shares != 0 && (pb.shares < 0 || pb.q4w < 0 || !fits_i128(pb.q4w * SCALAR_7)) {
                Err::<PoolBackstopData, BackstopError>(BackstopError::ArithmeticError)
            } else {
                Ok(PoolBackstopData { tokens: pb.tokens, q4w_pct: queued_fraction(pb) as i128 })
            })
        }),
{
    let pool_balance = e.storage.get_pool_balance(pool_address);
    if pool_balance.shares == 0 {
        return Ok(PoolBackstopData { tokens: pool_balance.tokens, q4w_pct: 0 });
    }
    if pool_balance.shares < 0 || pool_balance.q4w < 0 {
        return Err(BackstopError::ArithmeticError);
    }
    let scaled = match pool_balance.q4w.checked_mul(SCALAR_7) {
        Some(v) => v,
        None => return Err(BackstopError::ArithmeticError),
    };
    let q = scaled / pool_balance.shares;
    let pct = if scaled % pool_balance.shares == 0 {
        q
    } else {
        assert(q < scaled || scaled == 0) by (nonlinear_arith)
            requires
                q == scaled as int / pool_balance.shares as int,
                scaled >= 0,
                pool_balance.shares > 0,
                scaled as int % pool_balance.shares as int != 0,
        ;
        q + 1
    };
    Ok(PoolBackstopData { tokens: pool_balance.tokens, q4w_pct: pct })
}

} // verus!
