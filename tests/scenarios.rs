use backstop::backstop::{
    execute_deposit, execute_dequeue_withdrawal, execute_donate, execute_draw,
    execute_queue_withdrawal, execute_withdraw, get_backstop_token, get_blnd_token, get_emitter,
    get_pool_factory, get_usdc_token, load_pool_backstop_data, require_is_from_pool_factory,
    update_emissions, Backstop, BackstopConfig, PoolBackstopData,
};
use backstop::balances::{BackstopError, PoolBalance, Q4W, Q4W_LOCK_TIME};
use backstop::known_bad;
use backstop::token::{TokenOp, TokenOpType};
use backstop::user::UserBalance;
use backstop::valid_state::valid_state_pool_user;

const ME: u64 = 1;
const POOL: u64 = 10;
const OTHER_POOL: u64 = 11;
const ALICE: u64 = 21;
const BOB: u64 = 22;

fn fresh() -> Backstop {
    let config = BackstopConfig { backstop_token: 2, blnd_token: 3, usdc_token: 4, pool_factory: 5, emitter: 6 };
    let mut e = Backstop::new(ME, config, 1000);
    e.register_pool(POOL);
    e.register_pool(OTHER_POOL);
    e
}

fn all_valid(e: &Backstop) -> bool {
    let addrs = [ME, POOL, OTHER_POOL, ALICE, BOB];
    addrs.iter().all(|p| addrs.iter().all(|u| valid_state_pool_user(e, *p, *u)))
}

fn same_user(a: &UserBalance, b: &UserBalance) -> bool {
    a.shares == b.shares && a.q4w == b.q4w
}

#[test]
fn configuration_is_read_back() {
    let e = fresh();
    assert_eq!(get_backstop_token(&e), 2);
    assert_eq!(get_blnd_token(&e), 3);
    assert_eq!(get_usdc_token(&e), 4);
    assert_eq!(get_pool_factory(&e), 5);
    assert_eq!(get_emitter(&e), 6);
    assert_eq!(e.backstop_token.address, 2);
}

#[test]
fn bootstrap_deposit_mints_one_share_per_token() {
    let mut e = fresh();
    let minted = execute_deposit(&mut e, ALICE, POOL, 123_4567891).unwrap();
    assert_eq!(minted, 123_4567891);
    let pb = e.storage.get_pool_balance(POOL);
    assert_eq!(pb, PoolBalance { shares: 123_4567891, tokens: 123_4567891, q4w: 0 });
    assert_eq!(PoolBalance::zero().convert_to_tokens(123_4567891), Some(123_4567891));
    assert!(all_valid(&e));
}

#[test]
fn round_trip_with_donation() {
    let mut e = fresh();
    execute_deposit(&mut e, BOB, POOL, 30_0000000).unwrap();
    let minted = execute_deposit(&mut e, ALICE, POOL, 10_0000000).unwrap();
    execute_queue_withdrawal(&mut e, ALICE, POOL, minted).unwrap();
    execute_donate(&mut e, BOB, POOL, 4_0000000).unwrap();
    e.set_timestamp(1000 + Q4W_LOCK_TIME);
    let out = execute_withdraw(&mut e, ALICE, POOL, minted).unwrap();
    // a quarter of the shares: the deposit plus a quarter of the donation
    assert_eq!(out, 11_0000000);
    assert!(out <= 10_0000000 + 4_0000000);
    assert!(out >= 10_0000000);
    assert!(all_valid(&e));
}

#[test]
fn round_trip_without_donation_loses_at_most_rounding() {
    let mut e = fresh();
    execute_deposit(&mut e, BOB, POOL, 7).unwrap();
    execute_donate(&mut e, BOB, POOL, 3).unwrap();
    let minted = execute_deposit(&mut e, ALICE, POOL, 100).unwrap();
    assert_eq!(minted, 70);
    execute_queue_withdrawal(&mut e, ALICE, POOL, minted).unwrap();
    e.set_timestamp(1000 + Q4W_LOCK_TIME);
    let out = execute_withdraw(&mut e, ALICE, POOL, minted).unwrap();
    assert_eq!(out, 100);
}

#[test]
fn negative_amounts_are_refused_everywhere() {
    let mut e = fresh();
    execute_deposit(&mut e, ALICE, POOL, 50_0000000).unwrap();
    execute_queue_withdrawal(&mut e, ALICE, POOL, 10_0000000).unwrap();
    let before_pool = e.storage.get_pool_balance(POOL);
    let before_user = e.storage.get_user_balance(POOL, ALICE);
    let ops = e.backstop_token.ops.len();
    let emissions = e.emissions.len();

    assert_eq!(execute_deposit(&mut e, ALICE, POOL, -30_0000000), Err(BackstopError::NegativeAmount));
    assert_eq!(execute_donate(&mut e, BOB, POOL, -30_0000000), Err(BackstopError::NegativeAmount));
    assert_eq!(execute_draw(&mut e, POOL, -30_0000000, BOB), Err(BackstopError::NegativeAmount));
    assert_eq!(execute_queue_withdrawal(&mut e, ALICE, POOL, -30_0000000), Err(BackstopError::NegativeAmount));
    assert_eq!(execute_dequeue_withdrawal(&mut e, ALICE, POOL, -30_0000000), Err(BackstopError::NegativeAmount));
    assert_eq!(execute_withdraw(&mut e, ALICE, POOL, -30_0000000), Err(BackstopError::NegativeAmount));

    assert_eq!(e.storage.get_pool_balance(POOL), before_pool);
    assert!(same_user(&e.storage.get_user_balance(POOL, ALICE), &before_user));
    assert_eq!(e.backstop_token.ops.len(), ops);
    assert_eq!(e.emissions.len(), emissions);
}

#[test]
fn donate_self_guard_for_any_amount_and_state() {
    let mut e = fresh();
    assert_eq!(execute_donate(&mut e, POOL, POOL, 0), Err(BackstopError::BadRequest));
    assert_eq!(execute_donate(&mut e, ME, POOL, 5), Err(BackstopError::BadRequest));
    execute_deposit(&mut e, ALICE, POOL, 10).unwrap();
    assert_eq!(execute_donate(&mut e, POOL, POOL, 1_0000000), Err(BackstopError::BadRequest));
    assert_eq!(execute_donate(&mut e, ME, POOL, 1_0000000), Err(BackstopError::BadRequest));
}

#[test]
fn deposit_guards() {
    let mut e = fresh();
    assert_eq!(execute_deposit(&mut e, POOL, POOL, 10), Err(BackstopError::BadRequest));
    assert_eq!(execute_deposit(&mut e, ME, POOL, 10), Err(BackstopError::BadRequest));
    assert_eq!(execute_deposit(&mut e, ALICE, 99, 10), Err(BackstopError::NotPool));
    assert_eq!(require_is_from_pool_factory(&e, 99, 0), Err(BackstopError::NotPool));
    assert_eq!(require_is_from_pool_factory(&e, 99, 5), Ok(()));
    assert_eq!(require_is_from_pool_factory(&e, POOL, 0), Ok(()));
}

#[test]
fn draw_credits_recipient() {
    let mut e = fresh();
    execute_deposit(&mut e, ALICE, POOL, 50_0000000).unwrap();
    execute_draw(&mut e, POOL, 30_0000000, BOB).unwrap();
    assert_eq!(e.storage.get_pool_balance(POOL), PoolBalance { shares: 50_0000000, tokens: 20_0000000, q4w: 0 });
    assert_eq!(
        e.backstop_token.get_last_op(),
        Some(TokenOp { op_type: TokenOpType::Transfer, from: ME, to: BOB, amount: 30_0000000 })
    );
    assert!(all_valid(&e));
}

#[test]
fn queue_twice_then_dequeue_oldest_first() {
    let mut e = fresh();
    execute_deposit(&mut e, ALICE, POOL, 75_0000000).unwrap();
    e.set_timestamp(5000);
    let first = execute_queue_withdrawal(&mut e, ALICE, POOL, 25_0000000).unwrap();
    e.set_timestamp(6000);
    let second = execute_queue_withdrawal(&mut e, ALICE, POOL, 40_0000000).unwrap();
    assert_eq!(first, Q4W { amount: 25_0000000, exp: 5000 + 1_468_800 });
    assert_eq!(second, Q4W { amount: 40_0000000, exp: 6000 + 1_468_800 });
    execute_dequeue_withdrawal(&mut e, ALICE, POOL, 30_0000000).unwrap();
    let ub = e.storage.get_user_balance(POOL, ALICE);
    assert_eq!(ub.shares, 40_0000000);
    assert_eq!(ub.q4w, vec![Q4W { amount: 35_0000000, exp: 6000 + 1_468_800 }]);
    assert_eq!(e.storage.get_pool_balance(POOL).q4w, 35_0000000);
    assert_eq!(execute_dequeue_withdrawal(&mut e, ALICE, POOL, 36_0000000), Err(BackstopError::InsufficientFunds));
    assert!(all_valid(&e));
}

#[test]
fn withdraw_before_maturity_is_refused() {
    let mut e = fresh();
    execute_deposit(&mut e, ALICE, POOL, 10_0000000).unwrap();
    execute_queue_withdrawal(&mut e, ALICE, POOL, 5_0000000).unwrap();
    e.set_timestamp(1000 + Q4W_LOCK_TIME - 1);
    assert_eq!(execute_withdraw(&mut e, ALICE, POOL, 5_0000000), Err(BackstopError::NotExpired));
    e.set_timestamp(1000 + Q4W_LOCK_TIME);
    assert_eq!(execute_withdraw(&mut e, ALICE, POOL, 5_0000001), Err(BackstopError::InsufficientFunds));
    assert_eq!(execute_withdraw(&mut e, ALICE, POOL, 5_0000000), Ok(5_0000000));
}

#[test]
fn withdraw_with_profit() {
    let mut e = fresh();
    execute_deposit(&mut e, ALICE, POOL, 100_0000000).unwrap();
    execute_queue_withdrawal(&mut e, ALICE, POOL, 42_0000000).unwrap();
    execute_donate(&mut e, BOB, POOL, 50_0000000).unwrap();
    e.set_timestamp(1000 + Q4W_LOCK_TIME + 1);
    assert_eq!(execute_withdraw(&mut e, ALICE, POOL, 42_0000000), Ok(63_0000000));
    assert_eq!(
        e.backstop_token.get_last_op(),
        Some(TokenOp { op_type: TokenOpType::Transfer, from: ME, to: ALICE, amount: 63_0000000 })
    );
    assert!(all_valid(&e));
}

#[test]
fn other_pools_and_users_are_untouched() {
    let mut e = fresh();
    execute_deposit(&mut e, BOB, OTHER_POOL, 20_0000000).unwrap();
    execute_deposit(&mut e, BOB, POOL, 20_0000000).unwrap();
    execute_queue_withdrawal(&mut e, BOB, POOL, 5_0000000).unwrap();
    let other_pool = e.storage.get_pool_balance(OTHER_POOL);
    let bob_here = e.storage.get_user_balance(POOL, BOB);
    let bob_there = e.storage.get_user_balance(OTHER_POOL, BOB);

    execute_deposit(&mut e, ALICE, POOL, 10_0000000).unwrap();
    execute_queue_withdrawal(&mut e, ALICE, POOL, 4_0000000).unwrap();
    execute_dequeue_withdrawal(&mut e, ALICE, POOL, 1_0000000).unwrap();
    execute_donate(&mut e, ALICE, POOL, 1_0000000).unwrap();
    execute_draw(&mut e, POOL, 1_0000000, ALICE).unwrap();
    e.set_timestamp(1000 + Q4W_LOCK_TIME);
    execute_withdraw(&mut e, ALICE, POOL, 3_0000000).unwrap();

    assert_eq!(e.storage.get_pool_balance(OTHER_POOL), other_pool);
    assert!(same_user(&e.storage.get_user_balance(POOL, BOB), &bob_here));
    assert!(same_user(&e.storage.get_user_balance(OTHER_POOL, BOB), &bob_there));
    assert!(all_valid(&e));
}

#[test]
fn emissions_see_balances_before_the_change() {
    let mut e = fresh();
    execute_deposit(&mut e, ALICE, POOL, 10_0000000).unwrap();
    assert_eq!(e.emissions.len(), 1);
    assert_eq!(e.emissions[0].pool_balance, PoolBalance::zero());
    assert_eq!(e.emissions[0].user_balance.shares, 0);

    execute_queue_withdrawal(&mut e, ALICE, POOL, 4_0000000).unwrap();
    assert_eq!(e.emissions.len(), 2);
    assert_eq!(e.emissions[1].pool, POOL);
    assert_eq!(e.emissions[1].user, ALICE);
    assert_eq!(e.emissions[1].pool_balance, PoolBalance { shares: 10_0000000, tokens: 10_0000000, q4w: 0 });
    assert_eq!(e.emissions[1].user_balance.shares, 10_0000000);
    assert!(e.emissions[1].user_balance.q4w.is_empty());

    execute_dequeue_withdrawal(&mut e, ALICE, POOL, 1_0000000).unwrap();
    assert_eq!(e.emissions.len(), 3);
    assert_eq!(e.emissions[2].user_balance.shares, 6_0000000);
    assert_eq!(e.emissions[2].pool_balance.q4w, 4_0000000);

    execute_donate(&mut e, BOB, POOL, 1_0000000).unwrap();
    execute_draw(&mut e, POOL, 1_0000000, BOB).unwrap();
    e.set_timestamp(1000 + Q4W_LOCK_TIME);
    execute_withdraw(&mut e, ALICE, POOL, 3_0000000).unwrap();
    assert_eq!(e.emissions.len(), 3);
}

#[test]
fn emission_hook_records_a_copy() {
    let mut e = fresh();
    let mut ub = UserBalance::zero();
    ub.add_shares(9).unwrap();
    let pb = PoolBalance { shares: 9, tokens: 9, q4w: 0 };
    update_emissions(&mut e, POOL, &pb, ALICE, &ub);
    ub.add_shares(1).unwrap();
    assert_eq!(e.emissions.len(), 1);
    assert_eq!(e.emissions[0].user_balance.shares, 9);
    assert_eq!(e.emissions[0].pool_balance, pb);
}

#[test]
fn backstop_data_reports_queued_fraction() {
    let mut e = fresh();
    assert_eq!(load_pool_backstop_data(&e, POOL), Ok(PoolBackstopData { tokens: 0, q4w_pct: 0 }));
    execute_deposit(&mut e, ALICE, POOL, 30).unwrap();
    execute_queue_withdrawal(&mut e, ALICE, POOL, 10).unwrap();
    // 10 / 30 = 0.3333333.., rounded up at seven decimals
    assert_eq!(load_pool_backstop_data(&e, POOL), Ok(PoolBackstopData { tokens: 30, q4w_pct: 3333334 }));
    execute_queue_withdrawal(&mut e, ALICE, POOL, 5).unwrap();
    assert_eq!(load_pool_backstop_data(&e, POOL), Ok(PoolBackstopData { tokens: 30, q4w_pct: 5000000 }));
}

#[test]
fn pool_and_backstop_never_hold_claims() {
    let mut e = fresh();
    execute_deposit(&mut e, ALICE, POOL, 10).unwrap();
    assert_eq!(execute_queue_withdrawal(&mut e, POOL, POOL, 1), Err(BackstopError::InsufficientFunds));
    assert_eq!(execute_dequeue_withdrawal(&mut e, ME, POOL, 1), Err(BackstopError::InsufficientFunds));
    assert!(all_valid(&e));
}

#[test]
fn unchecked_donate_accepts_negative_amount() {
    let mut e = fresh();
    execute_deposit(&mut e, ALICE, POOL, 25_0000000).unwrap();
    assert_eq!(known_bad::execute_donate(&mut e, BOB, POOL, -30_0000000), Ok(()));
    assert_eq!(e.storage.get_pool_balance(POOL).tokens, -5_0000000);
    assert!(!valid_state_pool_user(&e, POOL, ALICE));
}

#[test]
fn uncredited_dequeue_breaks_share_sum() {
    let mut e = fresh();
    execute_deposit(&mut e, ALICE, POOL, 75_0000000).unwrap();
    execute_queue_withdrawal(&mut e, ALICE, POOL, 25_0000000).unwrap();
    assert_eq!(known_bad::execute_dequeue_withdrawal(&mut e, ALICE, POOL, 10_0000000), Ok(()));
    let ub = e.storage.get_user_balance(POOL, ALICE);
    assert_eq!(ub.shares, 50_0000000);
    assert_eq!(ub.q4w[0].amount, 15_0000000);
    let pb = e.storage.get_pool_balance(POOL);
    assert_eq!(pb.shares, 75_0000000);
    assert_eq!(pb.q4w, 15_0000000);
    // the user's claim is now short of the pool's shares
    assert!(ub.shares + ub.q4w[0].amount < pb.shares);
}

#[test]
fn deposit_pulls_tokens_by_plain_transfer() {
    let mut e = fresh();
    execute_deposit(&mut e, ALICE, POOL, 5_0000000).unwrap();
    assert_eq!(
        e.backstop_token.get_last_op(),
        Some(TokenOp { op_type: TokenOpType::Transfer, from: ALICE, to: ME, amount: 5_0000000 })
    );
}

#[test]
fn queueing_zero_records_an_empty_entry() {
    let mut e = fresh();
    execute_deposit(&mut e, ALICE, POOL, 10).unwrap();
    let entry = execute_queue_withdrawal(&mut e, ALICE, POOL, 0).unwrap();
    assert_eq!(entry, Q4W { amount: 0, exp: 1000 + Q4W_LOCK_TIME });
    assert_eq!(e.storage.get_user_balance(POOL, ALICE).q4w, vec![entry]);
    assert!(all_valid(&e));
}

#[test]
fn entries_maturing_too_late_are_flagged() {
    let mut e = fresh();
    execute_deposit(&mut e, ALICE, POOL, 10).unwrap();
    execute_queue_withdrawal(&mut e, ALICE, POOL, 4).unwrap();
    assert!(valid_state_pool_user(&e, POOL, ALICE));
    // a clock set back makes the entry mature later than now plus the lock time
    e.set_timestamp(999);
    assert!(!valid_state_pool_user(&e, POOL, ALICE));
}
