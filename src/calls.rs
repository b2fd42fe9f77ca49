use vstd::prelude::*;
use crate::backstop::{
    deposit_effect, deposit_result, dequeue_effect, dequeue_result, donate_effect, donate_result,
    draw_effect, draw_result, queue_effect, queue_result, withdraw_effect, withdraw_result,
    emitted, execute_deposit, execute_dequeue_withdrawal, execute_donate, execute_draw,
    execute_queue_withdrawal, execute_withdraw, isolated, shares_tokens_sync,
    transition_consistent, Backstop,
};
use crate::balances::BackstopError;
use crate::valid_state::valid_state;

verus! {

/// One call of an entry point, with its arguments.
#[derive(Clone, Copy, Debug, PartialEq, Eq, Structural)]
pub enum Call {
    Deposit { from: u64, pool: u64, amount: i128 },
    Donate { from: u64, pool: u64, amount: i128 },
    Draw { pool: u64, amount: i128, to: u64 },
    QueueWithdrawal { from: u64, pool: u64, amount: i128 },
    DequeueWithdrawal { from: u64, pool: u64, amount: i128 },
    Withdraw { from: u64, pool: u64, amount: i128 },
}

impl Call {
    /// The pool the call acts on.
    pub open spec fn pool(self) -> u64 {
        match self {
            Call::Deposit { pool, .. } => pool,
            Call::Donate { pool, .. } => pool,
            Call::Draw { pool, .. } => pool,
            Call::QueueWithdrawal { pool, .. } => pool,
            Call::DequeueWithdrawal { pool, .. } => pool,
            Call::Withdraw { pool, .. } => pool,
        }
    }

    /// The other party of the call: the depositor, donor, recipient or withdrawer.
    pub open spec fn user(self) -> u64 {
        match self {
            Call::Deposit { from, .. } => from,
            Call::Donate { from, .. } => from,
            Call::Draw { to, .. } => to,
            Call::QueueWithdrawal { from, .. } => from,
            Call::DequeueWithdrawal { from, .. } => from,
            Call::Withdraw { from, .. } => from,
        }
    }

    /// The amount the caller supplies.
    pub open spec fn amount(self) -> i128 {
        match self {
            Call::Deposit { amount, .. } => amount,
            Call::Donate { amount, .. } => amount,
            Call::Draw { amount, .. } => amount,
            Call::QueueWithdrawal { amount, .. } => amount,
            Call::DequeueWithdrawal { amount, .. } => amount,
            Call::Withdraw { amount, .. } => amount,
        }
    }

    /// Whether the call hands the emissions contract the balances it changes.
    pub open spec fn updates_emissions(self) -> bool {
        match self {
            Call::Deposit { .. } => true,
            Call::QueueWithdrawal { .. } => true,
            Call::DequeueWithdrawal { .. } => true,
            _ => false,
        }
    }
}

/// What running `c` from state `s` does, by the entry point's own contract:
/// on the entry point's error, `r` is that error; on its success, `r` is `Ok`
/// and `t` is the state that the entry point's success leaves.
pub open spec fn call_outcome(s: Backstop, t: Backstop, c: Call, r: Result<(), BackstopError>) -> bool {
    match c {
        Call::Deposit { from, pool, amount } => match deposit_result(s, from, pool, amount) {
            Ok(minted) => r is Ok && deposit_effect(s, t, from, pool, amount, minted),
            Err(x) => r == Err::<(), BackstopError>(x),
        },
        Call::Donate { from, pool, amount } => match donate_result(s, from, pool, amount) {
            Ok(_) => r is Ok && donate_effect(s, t, from, pool, amount),
            Err(x) => r == Err::<(), BackstopError>(x),
        },
        Call::Draw { pool, amount, to } => match draw_result(s, pool, amount) {
            Ok(_) => r is Ok && draw_effect(s, t, pool, amount, to),
            Err(x) => r == Err::<(), BackstopError>(x),
        },
        Call::QueueWithdrawal { from, pool, amount } => match queue_result(s, from, pool, amount) {
            Ok(entry) => r is Ok && queue_effect(s, t, from, pool, amount, entry),
            Err(x) => r == Err::<(), BackstopError>(x),
        },
        Call::DequeueWithdrawal { from, pool, amount } => match dequeue_result(s, from, pool, amount) {
            Ok(_) => r is Ok && dequeue_effect(s, t, from, pool, amount),
            Err(x) => r == Err::<(), BackstopError>(x),
        },
        Call::Withdraw { from, pool, amount } => match withdraw_result(s, from, pool, amount) {
            Ok(out) => r is Ok && withdraw_effect(s, t, from, pool, amount, out),
            Err(x) => r == Err::<(), BackstopError>(x),
        },
    }
}

/// Runs `c` on `e`, with the outcome of the entry point it names. Whatever the entry point:
/// - a negative amount is refused with `NegativeAmount`, and a refused call
///   changes nothing;
/// - only the acted-on pool and the acted-on user's balance in it change;
/// - the pool's shares and tokens move in the same direction, and queue moves
///   match between the pool and the user;
/// - a valid state stays valid;
/// - deposit, queue and dequeue hand the emissions contract the balances as
///   they stood, once; donate, draw and withdraw never do.
pub fn call(e: &mut Backstop, c: Call) -> (r: Result<(), BackstopError>)
    requires
        old(e).wf(),
    ensures
        call_outcome(*old(e), *final(e), c, r),
        final(e).wf(),
        c.amount() < 0 ==> r == Err::<(), BackstopError>(BackstopError::NegativeAmount),
        r is Err ==> *final(e) == *old(e),
        r is Ok ==> isolated(*old(e), *final(e), c.pool(), c.user()),
        shares_tokens_sync(old(e).storage.pool(c.pool()), final(e).storage.pool(c.pool())),
        transition_consistent(*old(e), *final(e), c.pool(), c.user()),
        valid_state(*old(e)) ==> valid_state(*final(e)),
        r is Ok && c.updates_emissions() ==> emitted(*old(e), *final(e), c.pool(), c.user()),
        !c.updates_emissions() ==> final(e).emissions@ == old(e).emissions@,
{
    match c {
        Call::Deposit { from, pool, amount } => match execute_deposit(e, from, pool, amount) {
            Ok(_) => Ok(()),
            Err(x) => Err(x),
        },
        Call::Donate { from, pool, amount } => execute_donate(e, from, pool, amount),
        Call::Draw { pool, amount, to } => execute_draw(e, pool, amount, to),
        Call::QueueWithdrawal { from, pool, amount } => match execute_queue_withdrawal(e, from, pool, amount) {
            Ok(_) => Ok(()),
            Err(x) => Err(x),
        },
        Call::DequeueWithdrawal { from, pool, amount } => execute_dequeue_withdrawal(e, from, pool, amount),
        Call::Withdraw { from, pool, amount } => match execute_withdraw(e, from, pool, amount) {
            Ok(_) => Ok(()),
            Err(x) => Err(x),
        },
    }
}

} // verus!
