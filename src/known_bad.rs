//! Deliberately defective variants of two entry points, kept apart from the
//! real ones. Each contract states the defect exactly and proves that a
//! state property catches it.
use vstd::prelude::*;
use crate::backstop::{donate_result, isolated, require_is_from_pool_factory, store_balances, Backstop};
use crate::balances::{fits_i128, BackstopError, PoolBalance, Q4W};
use crate::token::{TokenOp, TokenOpType};
use crate::user::{lemma_take_front, q4w_sum, take_front};
use crate::valid_state::{lemma_valid_state_bounds, valid_state};

verus! {

/// What a donation without the sign check returns.
pub open spec fn unchecked_donate_result(s: Backstop, from: u64, pool: u64, amount: i128) -> Result<(), BackstopError> {
    let pb = s.storage.pool(pool);
    if from == pool || from == s.contract {
        Err(BackstopError::BadRequest)
    } else if pb.shares == 0 && !s.pool_factory.pools@.contains(pool) {
        Err(BackstopError::NotPool)
    } else if !fits_i128(pb.tokens + amount) {
        Err(BackstopError::ArithmeticError)
    } else {
        Ok(())
    }
}

/// A donation that lacks the check on the amount's sign. A negative amount
/// is accepted and takes tokens out of the pool; where it takes more than the
/// pool holds, the state is no longer valid.
pub fn execute_donate(e: &mut Backstop, from: u64, pool_address: u64, amount: i128) -> (r: Result<(), BackstopError>)
    requires
        old(e).wf(),
    ensures
        r == unchecked_donate_result(*old(e), from, pool_address, amount),
        r is Err ==> *final(e) == *old(e),
        r is Ok ==> final(e).storage.pool(pool_address) == (PoolBalance {
            tokens: (old(e).storage.pool(pool_address).tokens + amount) as i128,
            ..old(e).storage.pool(pool_address)
        }),
        r is Ok ==> final(e).backstop_token.ops@ == old(e).backstop_token.ops@.push(
            TokenOp { op_type: TokenOpType::TransferFrom, from, to: old(e).contract, amount },
        ),
        amount < 0 && r is Ok ==> donate_result(*old(e), from, pool_address, amount)
            == Err::<(), BackstopError>(BackstopError::NegativeAmount),
        amount < 0 && r is Ok && old(e).storage.pool(pool_address).tokens + amount < 0 ==> !valid_state(*final(e)),
{
    if from == pool_address || from == e.contract {
        return Err(BackstopError::BadRequest);
    }
    let mut pool_balance = e.storage.get_pool_balance(pool_address);
    match require_is_from_pool_factory(e, pool_address, pool_balance.shares) {
        Ok(()) => {},
        Err(x) => return Err(x),
    }
    match pool_balance.deposit(amount, 0) {
        Ok(()) => {},
        Err(x) => return Err(x),
    }
    let contract = e.contract;
    e.backstop_token.transfer_from(contract, from, contract, amount);
    e.storage.set_pool_balance(pool_address, pool_balance);
    proof {
        if pool_balance.tokens < 0 {
            assert(!crate::valid_state::pool_nonnegative(e.storage.pool(pool_address)));
        }
    }
    Ok(())
}

/// What a dequeue that does not credit the shares back returns.
pub open spec fn uncredited_dequeue_result(s: Backstop, from: u64, pool: u64, amount: i128) -> Result<(), BackstopError> {
    let pb = s.storage.pool(pool);
    if amount < 0 {
        Err(BackstopError::NegativeAmount)
    } else if q4w_sum(s.storage.queue(pool, from)) < amount {
        Err(BackstopError::InsufficientFunds)
    } else if amount > pb.q4w {
        Err(BackstopError::InsufficientFunds)
    } else {
        Ok(())
    }
}

/// A dequeue that takes the shares out of the queue but never credits them
/// back. From a valid state, any dequeue of a positive amount leaves the pool's
/// shares above the sum of its users' claims, so the state is no longer valid.
pub fn execute_dequeue_withdrawal(e: &mut Backstop, from: u64, pool_address: u64, amount: i128) -> (r: Result<(), BackstopError>)
    requires
        old(e).wf(),
    ensures
        r == uncredited_dequeue_result(*old(e), from, pool_address, amount),
        r is Err ==> *final(e) == *old(e),
        r is Ok ==> final(e).storage.shares(pool_address, from) == old(e).storage.shares(pool_address, from),
        r is Ok ==> final(e).storage.pool(pool_address) == (PoolBalance {
            q4w: (old(e).storage.pool(pool_address).q4w - amount) as i128,
            ..old(e).storage.pool(pool_address)
        }),
        r is Ok ==> isolated(*old(e), *final(e), pool_address, from),
        r is Ok ==> take_front(old(e).storage.queue(pool_address, from), amount as int, u64::MAX as int)
            == Ok::<Seq<Q4W>, BackstopError>(final(e).storage.queue(pool_address, from)),
        valid_state(*old(e)) && r is Ok && amount > 0 ==> !valid_state(*final(e)),
{
    if amount < 0 {
        return Err(BackstopError::NegativeAmount);
    }
    let mut pool_balance = e.storage.get_pool_balance(pool_address);
    let mut user_balance = e.storage.get_user_balance(pool_address, from);
    let shares = user_balance.shares;
    proof {
        assert forall|i: int| 0 <= i < user_balance.q4w@.len() implies #[trigger] user_balance.q4w@[i].exp <= u64::MAX as int by {}
        lemma_take_front(user_balance.q4w@, amount as int, u64::MAX as int);
    }
    let rest = match crate::user::take_front_exec(&user_balance.q4w, amount, u64::MAX) {
        Ok(v) => v,
        Err(x) => return Err(x),
    };
    match pool_balance.dequeue_q4w(amount) {
        Ok(()) => {},
        Err(x) => return Err(x),
    }
    user_balance.q4w = rest;
    user_balance.shares = shares;
    store_balances(e, pool_address, pool_balance, from, user_balance);
    proof {
        if valid_state(*old(e)) && amount > 0 {
            lemma_valid_state_bounds(*old(e), pool_address, from);
            assert(old(e).storage.pool(pool_address).shares == old(e).storage.claims(pool_address));
            assert(e.storage.claims(pool_address) == old(e).storage.claims(pool_address) - amount);
            assert(e.storage.pool(pool_address).shares != e.storage.claims(pool_address));
        }
    }
    Ok(())
}

} // verus!
