use reward_distributor::contract::{
    Action, AssetOptionalPrice, Contract, Error, HarvestAction, Price, PriceData,
    StakingPoolAccount, DEFAULT_FARM_DURATION, FULL_REWARDS_DURATION,
};

fn s(x: &str) -> String {
    String::from(x)
}

fn default_path() -> Vec<Action> {
    vec![
        Action {
            pool_id: 3,
            token_in: s("wrap.near"),
            token_out: s("usdt.near"),
            min_amount_out: 0,
        },
        Action {
            pool_id: 7,
            token_in: s("usdt.near"),
            token_out: s("usn.near"),
            min_amount_out: 0,
        },
    ]
}

fn base_contract() -> Contract {
    Contract::new(
        s("pool.near"),
        s("owner.near"),
        s("usn.near"),
        42,
        s("oracle.near"),
        s("ref.near"),
        s("wrap.near"),
        default_path(),
    )
    .unwrap()
}

fn bundle(timestamp: u64, recency: u32, prices: Vec<AssetOptionalPrice>) -> PriceData {
    PriceData {
        timestamp,
        recency_duration_sec: recency,
        prices,
    }
}

fn good_prices() -> Vec<AssetOptionalPrice> {
    vec![
        AssetOptionalPrice {
            asset_id: s("usn.near"),
            price: Some(Price {
                multiplier: 1,
                decimals: 6,
            }),
        },
        AssetOptionalPrice {
            asset_id: s("wrap.near"),
            price: Some(Price {
                multiplier: 500,
                decimals: 8,
            }),
        },
    ]
}

#[test]
fn new_sets_defaults() {
    let c = base_contract();
    assert_eq!(c.rewards_received, 0);
    assert_eq!(c.available_rewards, 0);
    assert_eq!(c.farm_duration, DEFAULT_FARM_DURATION);
    assert_eq!(c.full_rewards_duration, FULL_REWARDS_DURATION);
    assert_eq!(c.farm_id, 42);
    assert_eq!(c.wrapped_amount, 0);
}

#[test]
fn new_rejects_wrong_first_hop() {
    let mut path = default_path();
    path[0].token_in = s("other.near");
    let r = Contract::new(
        s("pool.near"),
        s("owner.near"),
        s("usn.near"),
        42,
        s("oracle.near"),
        s("ref.near"),
        s("wrap.near"),
        path,
    );
    assert_eq!(r.err(), Some(Error::InvalidSwapPath));
}

#[test]
fn new_rejects_nonzero_floor_at_rest() {
    let mut path = default_path();
    path[1].min_amount_out = 5;
    let r = Contract::new(
        s("pool.near"),
        s("owner.near"),
        s("usn.near"),
        42,
        s("oracle.near"),
        s("ref.near"),
        s("wrap.near"),
        path,
    );
    assert_eq!(r.err(), Some(Error::InvalidSwapPath));
}

#[test]
fn set_swap_path_rejects_wrong_first_hop() {
    let mut c = base_contract();
    let mut path = default_path();
    path[0].token_in = s("usdt.near");
    let r = c.set_swap_path(&s("owner.near"), path);
    assert_eq!(r, Err(Error::InvalidSwapPath));
    // the stored path is untouched
    assert_eq!(c.swap_path.len(), 2);
    assert_eq!(c.swap_path[0].token_in, s("wrap.near"));
}

#[test]
fn set_swap_path_rejects_wrong_last_hop() {
    let mut c = base_contract();
    let mut path = default_path();
    path[1].token_out = s("usdt.near");
    assert_eq!(
        c.set_swap_path(&s("owner.near"), path),
        Err(Error::InvalidSwapPath)
    );
}

#[test]
fn set_swap_path_requires_owner() {
    let mut c = base_contract();
    assert_eq!(
        c.set_swap_path(&s("mallory.near"), default_path()),
        Err(Error::NotOwner)
    );
}

#[test]
fn set_durations() {
    let mut c = base_contract();
    assert_eq!(c.set_full_rewards_duration(&s("owner.near"), 100), Ok(()));
    assert_eq!(c.full_rewards_duration, 100_000_000_000);
    assert_eq!(c.set_farm_duration(&s("owner.near"), 7), Ok(()));
    assert_eq!(c.farm_duration, 7_000_000_000);
    assert_eq!(
        c.set_farm_duration(&s("mallory.near"), 1),
        Err(Error::NotOwner)
    );
    assert_eq!(c.farm_duration, 7_000_000_000);
}

#[test]
fn harvest_withdraws_when_possible() {
    let c = base_contract();
    let a = StakingPoolAccount {
        account_id: s("me.near"),
        unstaked_balance: 11,
        staked_balance: 5,
        can_withdraw: true,
    };
    assert_eq!(
        c.on_get_account(&a),
        HarvestAction::Withdraw {
            amount: 11,
            unstake_all: true
        }
    );
}

#[test]
fn harvest_waits_for_cooldown() {
    let c = base_contract();
    let a = StakingPoolAccount {
        account_id: s("me.near"),
        unstaked_balance: 11,
        staked_balance: 0,
        can_withdraw: false,
    };
    assert_eq!(c.on_get_account(&a), HarvestAction::AwaitCooldown);
}

#[test]
fn harvest_unstakes_remaining_stake() {
    let c = base_contract();
    let a = StakingPoolAccount {
        account_id: s("me.near"),
        unstaked_balance: 0,
        staked_balance: 9,
        can_withdraw: true,
    };
    assert_eq!(c.on_get_account(&a), HarvestAction::UnstakeAll);
}

#[test]
fn harvest_idempotent_on_empty_snapshot() {
    // A zero/zero snapshot drives no action and, the decision being computed
    // from an immutable borrow, mutates no ledger field.
    let c = base_contract();
    let a = StakingPoolAccount {
        account_id: s("me.near"),
        unstaked_balance: 0,
        staked_balance: 0,
        can_withdraw: true,
    };
    assert_eq!(c.on_get_account(&a), HarvestAction::Nothing);
    assert_eq!(c.rewards_received, 0);
    assert_eq!(c.available_rewards, 0);
    assert_eq!(c.usn_distributed, 0);
    assert_eq!(c.wrapped_amount, 0);
}

#[test]
fn withdraw_success_credits_both_totals() {
    let mut c = base_contract();
    let r = c.on_withdraw(250, true, true);
    assert_eq!(r, Ok(true));
    assert_eq!(c.rewards_received, 250);
    assert_eq!(c.available_rewards, 250);
}

#[test]
fn withdraw_failure_changes_nothing() {
    let mut c = base_contract();
    c.donate(40);
    let r = c.on_withdraw(250, false, false);
    assert_eq!(r, Err(Error::WithdrawFailed));
    assert_eq!(c.rewards_received, 40);
    assert_eq!(c.available_rewards, 40);
}

#[test]
fn donate_credits_both_totals() {
    let mut c = base_contract();
    c.donate(123);
    assert_eq!(c.rewards_received, 123);
    assert_eq!(c.available_rewards, 123);
}

#[test]
fn releasable_linear_ramp() {
    // full_rewards_duration 259200, 900 available, 86400 elapsed: 300.
    let mut c = base_contract();
    c.donate(900);
    c.full_rewards_duration = 259200;
    c.last_reward_distribution = 0;
    assert_eq!(c.get_near_reward_for_distribution(86400), 300);
}

#[test]
fn releasable_all_after_window() {
    let mut c = base_contract();
    c.donate(900);
    c.full_rewards_duration = 259200;
    assert_eq!(c.get_near_reward_for_distribution(259200), 900);
    assert_eq!(c.get_near_reward_for_distribution(300000), 900);
}

#[test]
fn oracle_flow_success() {
    // Reward-token decimals 6, native decimals 8; multipliers 1 and 500.
    // The token side is scaled by 10^2, so the projection is
    // 1_000_000 * 500 / 100 and the floor takes 99% of it.
    let mut c = base_contract();
    c.donate(1_000_000);
    c.full_rewards_duration = 86400;
    let now = 86400;
    let data = bundle(now, 90, good_prices());
    let call = c.oracle_on_call(&s("oracle.near"), &data, now).unwrap();
    assert_eq!(call.amount_in, 1_000_000);
    assert_eq!(call.min_amount_out, 4_950_000);
    assert_eq!(call.wrap_amount, 1_000_001);
    assert_eq!(call.wrap_contract, s("wrap.near"));
    assert_eq!(call.swap_contract, s("ref.near"));
    assert_eq!(call.actions.len(), 2);
    assert_eq!(call.actions[0].min_amount_out, 0);
    assert_eq!(call.actions[1].min_amount_out, 4_950_000);
    assert_eq!(call.actions[1].token_out, s("usn.near"));
    assert_eq!(c.available_rewards, 0);
    assert_eq!(c.last_reward_distribution, now);
    // the stored path keeps its zero floors
    assert_eq!(c.swap_path[1].min_amount_out, 0);
}

#[test]
fn oracle_rejects_foreign_caller() {
    let mut c = base_contract();
    c.donate(100);
    let data = bundle(0, 90, good_prices());
    assert_eq!(c.oracle_on_call(&s("mallory.near"), &data, 0).err(), Some(Error::NotOracle));
}

#[test]
fn oracle_rejects_long_recency() {
    let mut c = base_contract();
    c.donate(100);
    let data = bundle(0, 91, good_prices());
    assert_eq!(c.oracle_on_call(&s("oracle.near"), &data, 0).err(), Some(Error::RecencyDurationTooLong));
}

#[test]
fn oracle_rejects_future_bundle() {
    let mut c = base_contract();
    c.donate(100);
    let data = bundle(10, 90, good_prices());
    assert_eq!(c.oracle_on_call(&s("oracle.near"), &data, 9).err(), Some(Error::PriceDataInFuture));
}

#[test]
fn oracle_rejects_stale_bundle() {
    // Bundle older than the 15-unit staleness ceiling: rejected, ledger
    // untouched.
    let mut c = base_contract();
    c.donate(100);
    c.full_rewards_duration = 1;
    let data = bundle(1_000_000_000, 90, good_prices());
    let now = 20_000_000_000;
    assert_eq!(c.oracle_on_call(&s("oracle.near"), &data, now).err(), Some(Error::PriceDataTooStale));
    assert_eq!(c.available_rewards, 100);
    assert_eq!(c.last_reward_distribution, 0);
}

#[test]
fn oracle_rejects_empty_pool() {
    let mut c = base_contract();
    let data = bundle(0, 90, good_prices());
    assert_eq!(c.oracle_on_call(&s("oracle.near"), &data, 0).err(), Some(Error::NothingToDistribute));
}

#[test]
fn oracle_rejects_missing_token_price() {
    let mut c = base_contract();
    c.donate(100);
    c.full_rewards_duration = 1;
    let mut prices = good_prices();
    prices.remove(0);
    let data = bundle(5, 90, prices);
    assert_eq!(c.oracle_on_call(&s("oracle.near"), &data, 5).err(), Some(Error::MissingTokenPrice));
}

#[test]
fn oracle_rejects_missing_native_price() {
    let mut c = base_contract();
    c.donate(100);
    c.full_rewards_duration = 1;
    let mut prices = good_prices();
    prices.remove(1);
    let data = bundle(5, 90, prices);
    assert_eq!(c.oracle_on_call(&s("oracle.near"), &data, 5).err(), Some(Error::MissingNativePrice));
}

#[test]
fn oracle_ignores_entry_without_price() {
    let mut c = base_contract();
    c.donate(100);
    c.full_rewards_duration = 1;
    let mut prices = good_prices();
    prices.push(AssetOptionalPrice {
        asset_id: s("usn.near"),
        price: None,
    });
    let data = bundle(5, 90, prices);
    // the later price-less entry does not shadow the usable one
    assert!(c.oracle_on_call(&s("oracle.near"), &data, 5).is_ok());
}

#[test]
fn oracle_uses_last_usable_price() {
    let mut c = base_contract();
    c.donate(1_000_000);
    c.full_rewards_duration = 1;
    let mut prices = good_prices();
    prices.push(AssetOptionalPrice {
        asset_id: s("usn.near"),
        price: Some(Price {
            multiplier: 2,
            decimals: 6,
        }),
    });
    let data = bundle(5, 90, prices);
    let call = c.oracle_on_call(&s("oracle.near"), &data, 5).unwrap();
    // denominator doubled: the projection and floor halve
    assert_eq!(call.min_amount_out, 2_475_000);
}

#[test]
fn oracle_rejects_zero_price() {
    let mut c = base_contract();
    c.donate(100);
    c.full_rewards_duration = 1;
    let mut prices = good_prices();
    prices[0].price = Some(Price {
        multiplier: 0,
        decimals: 6,
    });
    let data = bundle(5, 90, prices);
    assert_eq!(c.oracle_on_call(&s("oracle.near"), &data, 5).err(), Some(Error::ZeroPrice));
}

#[test]
fn oracle_rejects_unscalable_decimals() {
    let mut c = base_contract();
    c.donate(100);
    c.full_rewards_duration = 1;
    let mut prices = good_prices();
    prices[0].price = Some(Price {
        multiplier: 1,
        decimals: 60,
    });
    let data = bundle(5, 90, prices);
    // scaling the native side by 10^52 leaves the 128-bit range
    assert_eq!(c.oracle_on_call(&s("oracle.near"), &data, 5).err(), Some(Error::PriceOverflow));
}

#[test]
fn swap_failure_restores_committed_reward() {
    // Conservation: R available, D committed, swap fails; afterwards the
    // available pool is R again and the wrapped marker grew by exactly D.
    let mut c = base_contract();
    c.donate(1_000_000);
    c.full_rewards_duration = 86400;
    let now = 86400;
    let data = bundle(now, 90, good_prices());
    let call = c.oracle_on_call(&s("oracle.near"), &data, now).unwrap();
    assert_eq!(c.available_rewards, 0);
    let wrapped_in_flight = c.wrapped_amount;
    let r = c.on_swap(None, call.min_amount_out, call.amount_in, now);
    assert!(r.is_none());
    assert_eq!(c.available_rewards, 1_000_000);
    assert_eq!(c.wrapped_amount, wrapped_in_flight + 1_000_000);
    assert_eq!(c.usn_distributed, 0);
    assert!(c.available_rewards <= c.rewards_received);
}

#[test]
fn swap_slippage_mismatch_is_failure() {
    let mut c = base_contract();
    c.donate(1000);
    // 500 of the 1000 are committed to an in-flight swap
    c.available_rewards = 500;
    let r = c.on_swap(Some(499), 10, 500, 7);
    assert!(r.is_none());
    assert_eq!(c.available_rewards, 1000);
    assert_eq!(c.wrapped_amount, 500);
}

#[test]
fn swap_success_forwards_floor_amount() {
    let mut c = base_contract();
    c.donate(1000);
    c.available_rewards = 500;
    let now = 1000;
    let r = c.on_swap(Some(500), 123, 500, now).unwrap();
    assert_eq!(r.amount, 123);
    assert_eq!(r.token, s("usn.near"));
    assert_eq!(r.receiver_id, s("pool.near"));
    assert_eq!(r.farming.farm_id, 42);
    assert_eq!(r.farming.end_date, now + c.farm_duration);
    assert_eq!(c.usn_distributed, 123);
    // the success path does not touch the native-side ledger
    assert_eq!(c.available_rewards, 500);
    assert_eq!(c.wrapped_amount, 0);
}

#[test]
fn set_swap_path_accepts_valid_replacement() {
    let mut c = base_contract();
    let path = vec![Action {
        pool_id: 9,
        token_in: s("wrap.near"),
        token_out: s("usn.near"),
        min_amount_out: 0,
    }];
    assert_eq!(c.set_swap_path(&s("owner.near"), path), Ok(()));
    assert_eq!(c.swap_path.len(), 1);
    assert_eq!(c.swap_path[0].pool_id, 9);
}

#[test]
fn wrap_amount_reuses_wrapped_balance() {
    let mut c = base_contract();
    c.donate(10);
    c.full_rewards_duration = 1;
    c.wrapped_amount = 20;
    let data = bundle(5, 90, good_prices());
    let call = c.oracle_on_call(&s("oracle.near"), &data, 5).unwrap();
    // 10 already wrapped: only the +1 guard is wrapped afresh
    assert_eq!(call.wrap_amount, 1);
    assert_eq!(c.wrapped_amount, 19);
}

#[test]
fn usn_balance_recovery() {
    let mut c = base_contract();
    assert!(c.on_usn_balance(0, 5).is_none());
    assert_eq!(c.usn_distributed, 0);
    let call = c.on_usn_balance(77, 5).unwrap();
    assert_eq!(call.amount, 77);
    assert_eq!(c.usn_distributed, 77);
}

#[test]
fn request_targets() {
    let c = base_contract();
    assert_eq!(c.ping().pool, s("pool.near"));
    assert_eq!(c.distribute_usn().token, s("usn.near"));
    assert_eq!(c.get_staking_pool(), s("pool.near"));
    assert_eq!(c.get_info().farm_id, 42);
}

#[test]
fn owner_check() {
    let c = base_contract();
    assert!(c.assert_owner(&s("owner.near")).is_ok());
    assert_eq!(c.assert_owner(&s("oracle.near")), Err(Error::NotOwner));
}

#[test]
fn valid_swap_path_check() {
    let mut c = base_contract();
    assert!(c.assert_valid_swap_path().is_ok());
    c.swap_path[0].min_amount_out = 1;
    assert_eq!(c.assert_valid_swap_path(), Err(Error::InvalidSwapPath));
}
