use backstop::backstop::{
    execute_deposit, execute_dequeue_withdrawal, execute_donate, execute_draw,
    execute_queue_withdrawal, execute_withdraw, Backstop, BackstopConfig,
};
use backstop::balances::{BackstopError, PoolBalance, Q4W, Q4W_LOCK_TIME};
use backstop::token::{TokenOp, TokenOpType};

const BACKSTOP: u64 = 1;
const TOKEN: u64 = 2;
const POOL_0: u64 = 10;
const POOL_1: u64 = 11;
const SAMWISE: u64 = 21;
const FRODO: u64 = 22;

fn setup(timestamp: u64) -> Backstop {
    let config = BackstopConfig { backstop_token: TOKEN, blnd_token: 3, usdc_token: 4, pool_factory: 5, emitter: 6 };
    Backstop::new(BACKSTOP, config, timestamp)
}

/// Net token movement into `who` over the recorded token operations.
fn net_flow(e: &Backstop, who: u64) -> i128 {
    let mut total: i128 = 0;
    for op in e.backstop_token.ops.iter() {
        if op.to == who {
            total += op.amount;
        }
        if op.from == who {
            total -= op.amount;
        }
    }
    total
}

fn pool(e: &Backstop, p: u64) -> PoolBalance {
    e.storage.get_pool_balance(p)
}

#[test]
fn test_execute_donate() {
    let mut e = setup(0);
    e.register_pool(POOL_0);
    execute_deposit(&mut e, FRODO, POOL_0, 25_0000000).unwrap();

    execute_donate(&mut e, SAMWISE, POOL_0, 30_0000000).unwrap();

    let new_pool_balance = pool(&e, POOL_0);
    assert_eq!(new_pool_balance.shares, 25_0000000);
    assert_eq!(new_pool_balance.tokens, 55_0000000);
    assert_eq!(
        e.backstop_token.get_last_op(),
        Some(TokenOp { op_type: TokenOpType::TransferFrom, from: SAMWISE, to: BACKSTOP, amount: 30_0000000 })
    );
}

#[test]
fn test_execute_donate_negative_amount() {
    let mut e = setup(0);
    e.register_pool(POOL_0);
    execute_deposit(&mut e, FRODO, POOL_0, 25_0000000).unwrap();

    let r = execute_donate(&mut e, SAMWISE, POOL_0, -30_0000000);
    assert_eq!(r, Err(BackstopError::NegativeAmount));
    assert_eq!(r.unwrap_err().code(), 8);
    assert_eq!(pool(&e, POOL_0), PoolBalance { shares: 25_0000000, tokens: 25_0000000, q4w: 0 });
}

#[test]
fn test_execute_donate_from_is_to() {
    let mut e = setup(0);
    e.register_pool(POOL_0);
    execute_deposit(&mut e, FRODO, POOL_0, 25_0000000).unwrap();

    let r = execute_donate(&mut e, POOL_0, POOL_0, 10_0000000);
    assert_eq!(r, Err(BackstopError::BadRequest));
    assert_eq!(r.unwrap_err().code(), 1000);
}

#[test]
fn test_execute_donate_from_is_self() {
    let mut e = setup(0);
    e.register_pool(POOL_0);
    execute_deposit(&mut e, FRODO, POOL_0, 25_0000000).unwrap();

    let r = execute_donate(&mut e, BACKSTOP, POOL_0, 10_0000000);
    assert_eq!(r, Err(BackstopError::BadRequest));
    assert_eq!(r.unwrap_err().code(), 1000);
}

#[test]
fn test_execute_donate_not_pool() {
    let mut e = setup(0);
    let r = execute_donate(&mut e, SAMWISE, POOL_0, 30_0000000);
    assert_eq!(r, Err(BackstopError::NotPool));
    assert_eq!(r.unwrap_err().code(), 1004);
}

#[test]
fn test_execute_draw() {
    let mut e = setup(0);
    e.register_pool(POOL_0);
    execute_deposit(&mut e, FRODO, POOL_0, 50_0000000).unwrap();

    execute_draw(&mut e, POOL_0, 30_0000000, SAMWISE).unwrap();

    let new_pool_balance = pool(&e, POOL_0);
    assert_eq!(new_pool_balance.shares, 50_0000000);
    assert_eq!(new_pool_balance.tokens, 20_0000000);
    assert_eq!(net_flow(&e, BACKSTOP), 20_0000000);
    assert_eq!(net_flow(&e, SAMWISE), 30_0000000);
}

#[test]
fn test_execute_draw_only_can_take_from_pool() {
    let mut e = setup(0);
    e.register_pool(POOL_0);
    e.register_pool(POOL_1);
    execute_deposit(&mut e, FRODO, POOL_0, 50_0000000).unwrap();
    execute_deposit(&mut e, FRODO, POOL_1, 50_0000000).unwrap();

    let r = execute_draw(&mut e, POOL_0, 51_0000000, SAMWISE);
    assert_eq!(r, Err(BackstopError::InsufficientFunds));
    assert_eq!(r.unwrap_err().code(), 1003);
}

#[test]
fn test_execute_draw_negative_amount() {
    let mut e = setup(0);
    e.register_pool(POOL_0);
    execute_deposit(&mut e, FRODO, POOL_0, 50_0000000).unwrap();

    let r = execute_draw(&mut e, POOL_0, -30_0000000, SAMWISE);
    assert_eq!(r, Err(BackstopError::NegativeAmount));
    assert_eq!(r.unwrap_err().code(), 8);
}

#[test]
fn test_execute_queue_withdrawal() {
    let mut e = setup(0);
    e.register_pool(POOL_0);
    execute_deposit(&mut e, SAMWISE, POOL_0, 100_0000000).unwrap();

    e.set_timestamp(10000);
    let entry = execute_queue_withdrawal(&mut e, SAMWISE, POOL_0, 42_0000000).unwrap();
    assert_eq!(entry, Q4W { amount: 42_0000000, exp: 10000 + 17 * 24 * 60 * 60 });

    let new_user_balance = e.storage.get_user_balance(POOL_0, SAMWISE);
    assert_eq!(new_user_balance.shares, 58_0000000);
    assert_eq!(new_user_balance.q4w, vec![Q4W { amount: 42_0000000, exp: 10000 + 17 * 24 * 60 * 60 }]);

    let new_pool_balance = pool(&e, POOL_0);
    assert_eq!(new_pool_balance.q4w, 42_0000000);
    assert_eq!(new_pool_balance.shares, 100_0000000);
    assert_eq!(new_pool_balance.tokens, 100_0000000);

    assert_eq!(net_flow(&e, BACKSTOP), 100_0000000);
    assert_eq!(100_0000000 + net_flow(&e, SAMWISE), 0);
}

#[test]
fn test_execute_queue_withdrawal_negative_amount() {
    let mut e = setup(0);
    e.register_pool(POOL_0);
    execute_deposit(&mut e, SAMWISE, POOL_0, 100_0000000).unwrap();
    e.set_timestamp(10000);

    let r = execute_queue_withdrawal(&mut e, SAMWISE, POOL_0, -42_0000000);
    assert_eq!(r, Err(BackstopError::NegativeAmount));
    assert_eq!(r.unwrap_err().code(), 8);
}

#[test]
fn test_execute_dequeue_withdrawal() {
    let mut e = setup(0);
    e.register_pool(POOL_0);
    execute_deposit(&mut e, SAMWISE, POOL_0, 75_0000000).unwrap();
    e.set_timestamp(10000);
    execute_queue_withdrawal(&mut e, SAMWISE, POOL_0, 25_0000000).unwrap();
    e.set_timestamp(20000);
    execute_queue_withdrawal(&mut e, SAMWISE, POOL_0, 40_0000000).unwrap();

    e.set_timestamp(30000);
    execute_dequeue_withdrawal(&mut e, SAMWISE, POOL_0, 30_0000000).unwrap();

    // the oldest entry (25) is used up first, the rest (5) comes off the newer one
    let new_user_balance = e.storage.get_user_balance(POOL_0, SAMWISE);
    assert_eq!(new_user_balance.shares, 40_0000000);
    assert_eq!(new_user_balance.q4w, vec![Q4W { amount: 35_0000000, exp: 20000 + 17 * 24 * 60 * 60 }]);

    let new_pool_balance = pool(&e, POOL_0);
    assert_eq!(new_pool_balance.q4w, 35_0000000);
    assert_eq!(new_pool_balance.shares, 75_0000000);
    assert_eq!(new_pool_balance.tokens, 75_0000000);
}

#[test]
fn test_execute_dequeue_withdrawal_negative_amount() {
    let mut e = setup(0);
    e.register_pool(POOL_0);
    execute_deposit(&mut e, SAMWISE, POOL_0, 75_0000000).unwrap();
    execute_queue_withdrawal(&mut e, SAMWISE, POOL_0, 25_0000000).unwrap();
    e.set_timestamp(10000);
    execute_queue_withdrawal(&mut e, SAMWISE, POOL_0, 40_0000000).unwrap();
    e.set_timestamp(20000);

    let r = execute_dequeue_withdrawal(&mut e, SAMWISE, POOL_0, -30_0000000);
    assert_eq!(r, Err(BackstopError::NegativeAmount));
    assert_eq!(r.unwrap_err().code(), 8);
}

#[test]
fn test_execute_withdrawal() {
    let mut e = setup(10000);
    e.register_pool(POOL_0);
    execute_deposit(&mut e, SAMWISE, POOL_0, 100_0000000).unwrap();
    execute_queue_withdrawal(&mut e, SAMWISE, POOL_0, 42_0000000).unwrap();
    execute_donate(&mut e, SAMWISE, POOL_0, 50_0000000).unwrap();

    e.set_timestamp(10000 + 17 * 24 * 60 * 60 + 1);
    let tokens = execute_withdraw(&mut e, SAMWISE, POOL_0, 42_0000000).unwrap();

    let new_user_balance = e.storage.get_user_balance(POOL_0, SAMWISE);
    assert_eq!(new_user_balance.shares, 100_0000000 - 42_0000000);
    assert_eq!(new_user_balance.q4w.len(), 0);

    let new_pool_balance = pool(&e, POOL_0);
    assert_eq!(new_pool_balance.q4w, 0);
    assert_eq!(new_pool_balance.shares, 100_0000000 - 42_0000000);
    assert_eq!(new_pool_balance.tokens, 150_0000000 - tokens);
    assert_eq!(tokens, 63_0000000);

    assert_eq!(net_flow(&e, BACKSTOP), 150_0000000 - tokens);
    assert_eq!(150_0000000 + net_flow(&e, SAMWISE), tokens);
}

#[test]
fn test_execute_withdrawal_negative_amount() {
    let mut e = setup(10000);
    e.register_pool(POOL_0);
    execute_deposit(&mut e, SAMWISE, POOL_0, 100_0000000).unwrap();
    execute_queue_withdrawal(&mut e, SAMWISE, POOL_0, 42_0000000).unwrap();
    execute_donate(&mut e, SAMWISE, POOL_0, 50_0000000).unwrap();
    e.set_timestamp(10000 + 17 * 24 * 60 * 60 + 1);

    let r = execute_withdraw(&mut e, SAMWISE, POOL_0, -42_0000000);
    assert_eq!(r, Err(BackstopError::NegativeAmount));
    assert_eq!(r.unwrap_err().code(), 8);
}

#[test]
fn test_execute_withdrawal_zero_tokens() {
    let mut e = setup(10000);
    e.register_pool(POOL_0);
    execute_deposit(&mut e, FRODO, POOL_0, 1_0000001).unwrap();
    execute_deposit(&mut e, SAMWISE, POOL_0, 1_0000000).unwrap();
    execute_queue_withdrawal(&mut e, SAMWISE, POOL_0, 1_0000000).unwrap();
    execute_draw(&mut e, POOL_0, 1_9999999, FRODO).unwrap();
    e.set_timestamp(10000 + 17 * 24 * 60 * 60 + 1);

    let r = execute_withdraw(&mut e, SAMWISE, POOL_0, 1_0000000);
    assert_eq!(r, Err(BackstopError::InvalidTokenWithdrawAmount));
    assert_eq!(r.unwrap_err().code(), 1006);
}

#[test]
fn lock_time_is_seventeen_days() {
    assert_eq!(Q4W_LOCK_TIME, 1_468_800);
}
