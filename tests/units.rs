use backstop::balances::{BackstopError, PoolBalance, Q4W, Q4W_LOCK_TIME, SCALAR_7};
use backstop::bounded::{vec_one_empty, vec_q4w_empty, vec_two_empty, VecOneQ4W, VecQ4W, VecTwoQ4W};
use backstop::factory::PoolFactory;
use backstop::token::{TokenClient, TokenOp, TokenOpType};
use backstop::user::UserBalance;

fn q(amount: i128, exp: u64) -> Q4W {
    Q4W { amount, exp }
}

#[test]
fn error_codes_are_stable() {
    assert_eq!(BackstopError::NegativeAmount.code(), 8);
    assert_eq!(BackstopError::ArithmeticError.code(), 12);
    assert_eq!(BackstopError::BadRequest.code(), 1000);
    assert_eq!(BackstopError::NotExpired.code(), 1001);
    assert_eq!(BackstopError::InsufficientFunds.code(), 1003);
    assert_eq!(BackstopError::NotPool.code(), 1004);
    assert_eq!(BackstopError::InvalidTokenWithdrawAmount.code(), 1006);
    assert_eq!(SCALAR_7, 10_000_000);
}

#[test]
fn conversion_without_shares_is_one_to_one() {
    let pb = PoolBalance::zero();
    assert_eq!(pb.convert_to_shares(123_4567890), Some(123_4567890));
    assert_eq!(pb.convert_to_tokens(123_4567890), Some(123_4567890));
}

#[test]
fn conversion_rounds_down() {
    let pb = PoolBalance { shares: 100_0000000, tokens: 150_0000000, q4w: 0 };
    assert_eq!(pb.convert_to_tokens(42_0000000), Some(63_0000000));
    assert_eq!(pb.convert_to_shares(10), Some(6));
    assert_eq!(pb.convert_to_tokens(1), Some(1));
    let thin = PoolBalance { shares: 20000001, tokens: 2, q4w: 0 };
    assert_eq!(thin.convert_to_tokens(1_0000000), Some(0));
}

#[test]
fn conversion_undefined_cases() {
    let drained = PoolBalance { shares: 10, tokens: 0, q4w: 0 };
    assert_eq!(drained.convert_to_shares(5), None);
    let pb = PoolBalance { shares: 10, tokens: 10, q4w: 0 };
    assert_eq!(pb.convert_to_shares(-5), None);
    assert_eq!(pb.convert_to_tokens(i128::MAX), None);
}

#[test]
fn pool_balance_mutators() {
    let mut pb = PoolBalance::zero();
    assert_eq!(pb.deposit(100, 80), Ok(()));
    assert_eq!(pb, PoolBalance { shares: 80, tokens: 100, q4w: 0 });
    assert_eq!(pb.queue_for_withdraw(30), Ok(()));
    assert_eq!(pb.q4w, 30);
    assert_eq!(pb.dequeue_q4w(10), Ok(()));
    assert_eq!(pb.q4w, 20);
    assert_eq!(pb.dequeue_q4w(21), Err(BackstopError::InsufficientFunds));
    assert_eq!(pb.withdraw(50, 20), Ok(()));
    assert_eq!(pb, PoolBalance { shares: 60, tokens: 50, q4w: 0 });
    assert_eq!(pb.withdraw(51, 0), Err(BackstopError::InsufficientFunds));
    assert_eq!(pb.withdraw(-1, 0), Err(BackstopError::NegativeAmount));
    assert_eq!(pb.queue_for_withdraw(-1), Err(BackstopError::NegativeAmount));
    let mut big = PoolBalance { shares: 0, tokens: i128::MAX, q4w: 0 };
    assert_eq!(big.deposit(1, 0), Err(BackstopError::ArithmeticError));
    assert_eq!(big.tokens, i128::MAX);
}

#[test]
fn user_queue_dequeue_withdraw() {
    let mut ub = UserBalance::zero();
    assert_eq!(ub.add_shares(100), Ok(()));
    assert_eq!(ub.queue_shares_for_withdrawal(30, 1000), Ok(()));
    assert_eq!(ub.queue_shares_for_withdrawal(20, 2000), Ok(()));
    assert_eq!(ub.shares, 50);
    assert_eq!(ub.q4w, vec![q(30, 1000 + Q4W_LOCK_TIME), q(20, 2000 + Q4W_LOCK_TIME)]);
    assert_eq!(ub.queue_shares_for_withdrawal(51, 3000), Err(BackstopError::InsufficientFunds));

    assert_eq!(ub.dequeue_shares(35), Ok(()));
    assert_eq!(ub.shares, 85);
    assert_eq!(ub.q4w, vec![q(15, 2000 + Q4W_LOCK_TIME)]);
    assert_eq!(ub.dequeue_shares(16), Err(BackstopError::InsufficientFunds));

    assert_eq!(ub.withdraw_shares(5, 2000 + Q4W_LOCK_TIME - 1), Err(BackstopError::NotExpired));
    assert_eq!(ub.withdraw_shares(5, 2000 + Q4W_LOCK_TIME), Ok(()));
    assert_eq!(ub.q4w, vec![q(10, 2000 + Q4W_LOCK_TIME)]);
    assert_eq!(ub.withdraw_shares(11, u64::MAX), Err(BackstopError::InsufficientFunds));
    assert_eq!(ub.withdraw_shares(10, u64::MAX), Ok(()));
    assert!(ub.q4w.is_empty());
    assert_eq!(ub.shares, 85);
}

#[test]
fn queue_maturity_overflow_is_refused() {
    let mut ub = UserBalance::zero();
    ub.add_shares(10).unwrap();
    assert_eq!(ub.queue_shares_for_withdrawal(5, u64::MAX - 10), Err(BackstopError::ArithmeticError));
    assert_eq!(ub.shares, 10);
}

#[test]
fn vec_one_q4w_ops() {
    let mut v = VecOneQ4W::new();
    assert!(v.is_empty());
    assert_eq!(v.len(), 0);
    assert_eq!(v.last(), None);
    v.push_back(q(5, 7));
    assert_eq!(v.len(), 1);
    assert_eq!(v.get(0), Some(q(5, 7)));
    assert_eq!(v.get(1), None);
    assert_eq!(v.inner_value(), Some(q(5, 7)));
    assert_eq!(v.pop_front_unchecked(), q(5, 7));
    assert!(v.is_empty());
    v.push_front(q(1, 2));
    assert_eq!(v.pop_back_unchecked(), q(1, 2));
    assert_eq!(vec_one_empty(), VecOneQ4W::Empty);
}

#[test]
fn vec_q4w_ops() {
    let mut v = vec_q4w_empty();
    assert!(v.is_empty());
    v.push_back(q(9, 9));
    assert_eq!(v.last(), Some(q(9, 9)));
    assert_eq!(v.inner_value(), Some(q(9, 9)));
    assert_eq!(v.pop_back_unchecked(), q(9, 9));
    assert_eq!(v, VecQ4W::new());
}

#[test]
fn vec_two_q4w_ops() {
    let mut v = vec_two_empty();
    assert!(v.is_empty());
    assert!(!v.is_full());
    v.push_back(q(1, 10));
    v.push_back(q(2, 20));
    assert!(v.is_full());
    assert_eq!(v.len(), 2);
    assert_eq!(v.first(), Some(q(1, 10)));
    assert_eq!(v.last(), Some(q(2, 20)));
    assert_eq!(v.get(1), Some(q(2, 20)));
    assert_eq!(v.inner_value(0), Some(q(1, 10)));
    assert_eq!(v.get(2), None);
    assert_eq!(v.pop_front_unchecked(), q(1, 10));
    v.push_front(q(0, 5));
    assert_eq!(v, VecTwoQ4W::Two(q(0, 5), q(2, 20)));
    assert_eq!(v.pop_back_unchecked(), q(2, 20));
    assert_eq!(v.pop_back_unchecked(), q(0, 5));
    assert_eq!(v, VecTwoQ4W::new());
}

#[test]
fn token_client_records_movements() {
    let mut t = TokenClient::new(2, 7);
    assert!(t.is_uninit());
    assert_eq!(t.decimals(), 7);
    t.transfer(1, 3, 50);
    t.transfer_from(1, 4, 1, 20);
    assert!(!t.is_uninit());
    assert_eq!(t.get_last_op(), Some(TokenOp { op_type: TokenOpType::TransferFrom, from: 4, to: 1, amount: 20 }));
    assert_eq!(t.ops.len(), 2);
    assert_eq!(t.ops[0], TokenOp { op_type: TokenOpType::Transfer, from: 1, to: 3, amount: 50 });
}

#[test]
fn pool_factory_registry() {
    let mut f = PoolFactory::new();
    assert!(!f.is_pool(10));
    f.set_pool(10);
    f.set_pool(11);
    assert!(f.is_pool(10));
    assert!(f.is_pool(11));
    assert!(!f.is_pool(12));
}
