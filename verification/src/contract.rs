//! The orchestrator's ledger and its transition functions.
//!
//! Each entry point of the hosted contract is modelled as a function from the
//! persistent ledger (`Contract`) and the observed event — a pool snapshot, a
//! withdrawal result, an oracle price bundle, a swap outcome — to the new
//! ledger and a description of the next outbound request.  The host glue
//! performs the requests and feeds their results back in; every decision and
//! every ledger mutation happens here, under contract.

use vstd::prelude::*;
use crate::arith::{checked_pow10, checked_u128_ratio, lemma_ratio_le, pow10, u128_ratio};

verus! {

/// Nanoseconds per second, for the administrator-facing second-based setters.
pub const NANOS_PER_SEC: u64 = 1_000_000_000;

/// Default farm extension: seven days, in nanoseconds.
pub const DEFAULT_FARM_DURATION: u64 = 7 * 24 * 60 * 60 * 1_000_000_000;

/// Default ramp window over which rewards release linearly: three days.
pub const FULL_REWARDS_DURATION: u64 = 3 * 24 * 60 * 60 * 1_000_000_000;

/// Largest recency window an oracle bundle may declare, in seconds.
pub const MAX_RECENCY_DURATION_SEC: u32 = 90;

/// Oldest a price bundle may be at the moment it is consumed, in nanoseconds.
pub const MAX_PRICE_AGE: u64 = 15_000_000_000;

/// Slippage tolerance: the swap floor is 99/100 of the oracle projection.
pub const SLIPPAGE_NUM: u128 = 99;

/// Slippage tolerance denominator.
pub const SLIPPAGE_DENOM: u128 = 100;

/// Everything that can make a flow reject its trigger.  The host surfaces
/// these as call failures; no ledger field is changed when one is returned.
#[derive(Clone, Copy, Debug, PartialEq, Eq, Structural)]
pub enum Error {
    /// An administrator-only entry point was called by someone else.
    NotOwner,
    /// The price push did not come from the configured oracle identity.
    NotOracle,
    /// The bundle declares a recency window longer than allowed.
    RecencyDurationTooLong,
    /// The bundle claims a timestamp later than the current time.
    PriceDataInFuture,
    /// The bundle is older than the staleness ceiling.
    PriceDataTooStale,
    /// The time-decayed releasable reward is zero.
    NothingToDistribute,
    /// The bundle has no usable price for the reward token.
    MissingTokenPrice,
    /// The bundle has no usable price for the wrapped native token.
    MissingNativePrice,
    /// Decimal scaling or the price conversion left the 128-bit range.
    PriceOverflow,
    /// The conversion denominator is zero (a zero reward-token price).
    ZeroPrice,
    /// The swap path does not start at the wrapped native token, does not
    /// end at the reward token, or carries a nonzero floor at rest.
    InvalidSwapPath,
    /// The staking pool reported that the withdrawal failed.
    WithdrawFailed,
}

/// One hop of the swap path.
pub struct Action {
    /// Pool which should be used for swapping.
    pub pool_id: u64,
    /// Token to swap from.
    pub token_in: String,
    /// Token to swap into.
    pub token_out: String,
    /// Required minimum amount of `token_out`.
    pub min_amount_out: u128,
}

/// The mathematical value of a swap hop.
pub ghost struct ActionV {
    pub pool_id: u64,
    pub token_in: Seq<char>,
    pub token_out: Seq<char>,
    pub min_amount_out: u128,
}

impl View for Action {
    type V = ActionV;

    open spec fn view(&self) -> ActionV {
        ActionV {
            pool_id: self.pool_id,
            token_in: self.token_in@,
            token_out: self.token_out@,
            min_amount_out: self.min_amount_out,
        }
    }
}

impl Action {
    /// An equal copy of the hop.
    pub fn duplicate(&self) -> (r: Action)
        ensures
            r == *self,
    {
        Action {
            pool_id: self.pool_id,
            token_in: self.token_in.clone(),
            token_out: self.token_out.clone(),
            min_amount_out: self.min_amount_out,
        }
    }
}

/// The staking pool's snapshot of this contract's account.
pub struct StakingPoolAccount {
    pub account_id: String,
    /// The unstaked balance that can be withdrawn or staked.
    pub unstaked_balance: u128,
    /// The balance staked at the current share price.
    pub staked_balance: u128,
    /// Whether the unstaked balance is available for withdrawal now.
    pub can_withdraw: bool,
}

/// One asset's price: `multiplier` raw units per native unit, at `decimals`
/// digits of precision.
#[derive(Clone, Copy, PartialEq, Eq, Structural)]
pub struct Price {
    pub multiplier: u128,
    pub decimals: u8,
}

/// One entry of an oracle bundle; the oracle may omit a price it cannot vouch
/// for.
pub struct AssetOptionalPrice {
    pub asset_id: String,
    pub price: Option<Price>,
}

/// An oracle price bundle, consumed once per distribution attempt.
pub struct PriceData {
    /// When the bundle was assembled, in nanoseconds.
    pub timestamp: u64,
    /// The recency window the oracle claims for these prices, in seconds.
    pub recency_duration_sec: u32,
    pub prices: Vec<AssetOptionalPrice>,
}

/// What the harvest flow should do after seeing a pool snapshot.
#[derive(Clone, Copy, Debug, PartialEq, Eq, Structural)]
pub enum HarvestAction {
    /// Withdraw the full unstaked balance, then report back; if
    /// `unstake_all`, request a fresh unstake of the staked balance after a
    /// successful withdrawal.
    Withdraw { amount: u128, unstake_all: bool },
    /// Funds are still cooling down; try again next cycle.
    AwaitCooldown,
    /// Nothing to withdraw, but a staked balance remains: request an
    /// unstake-all, observed only on the next cycle's snapshot.
    UnstakeAll,
    /// Both balances are zero.
    Nothing,
}

/// The harvest chain request: ping the pool, read this contract's account,
/// continue with the snapshot.
pub struct HarvestRequest {
    /// The staking pool the chain is addressed to.
    pub pool: String,
}

/// A request for this contract's reward-token balance, continued with the
/// balance.
pub struct UsnBalanceRequest {
    /// The reward-token contract to query.
    pub token: String,
}

/// A farm extension attached to a reward-token transfer.
#[derive(Clone, Copy, Debug, PartialEq, Eq, Structural)]
pub struct FarmingDetails {
    /// End date of the farm.
    pub end_date: u64,
    /// Existing farm ID.
    pub farm_id: u64,
}

/// The terminal forwarding step: transfer reward tokens to the staking pool
/// identity with a farm-extension message.
pub struct FtTransferCall {
    /// The reward-token contract the transfer goes through.
    pub token: String,
    /// Recipient of the transfer.
    pub receiver_id: String,
    /// Amount of reward tokens to forward.
    pub amount: u128,
    /// The farm extension carried in the transfer message.
    pub farming: FarmingDetails,
}

/// The two-step distribution request: wrap native currency, then submit the
/// wrapped amount to the swap venue, and continue with the swap outcome.
pub struct SwapCall {
    /// The wrapped-native-token contract receiving the deposit.
    pub wrap_contract: String,
    /// Native currency to wrap, one unit more than the shortfall.
    pub wrap_amount: u128,
    /// The swap venue the transfer-with-actions goes to.
    pub swap_contract: String,
    /// Wrapped tokens submitted into the swap: the full committed reward.
    pub amount_in: u128,
    /// The swap hops, with the end-to-end floor on the final hop.
    pub actions: Vec<Action>,
    /// The end-to-end floor, carried to the swap callback.
    pub min_amount_out: u128,
}

/// `max(a - b, 0)`.
pub open spec fn sat_sub(a: int, b: int) -> int {
    if a >= b {
        a - b
    } else {
        0
    }
}

/// The price the oracle bundle carries for `id`: the last usable entry wins,
/// as with a map built front to back.
pub open spec fn price_of(prices: Seq<AssetOptionalPrice>, id: Seq<char>) -> Option<Price>
    decreases prices.len(),
{
    if prices.len() == 0 {
        None
    } else {
        let last = prices[prices.len() - 1];
        match last.price {
            Some(p) => if last.asset_id@ == id {
                Some(p)
            } else {
                price_of(prices.drop_last(), id)
            },
            None => price_of(prices.drop_last(), id),
        }
    }
}

/// Shape of a valid swap path: it starts at the wrapped native token, ends at
/// the reward token, and carries no floor at rest.
pub open spec fn path_shape_ok(path: Seq<Action>, wrap: Seq<char>, usn: Seq<char>) -> bool {
    &&& path.len() > 0
    &&& path[0].token_in@ == wrap
    &&& path[path.len() - 1].token_out@ == usn
    &&& forall|i: int| 0 <= i < path.len() ==> path[i].min_amount_out == 0
}

/// Decimal normalization: when the native token quotes with fewer decimals
/// than the reward token, its side is scaled up by the difference.
pub open spec fn spec_wnear_extra(wnear: Price, usn: Price) -> int {
    if wnear.decimals < usn.decimals {
        pow10((usn.decimals - wnear.decimals) as nat)
    } else {
        1
    }
}

/// Decimal normalization for the reward-token side.
pub open spec fn spec_usn_extra(wnear: Price, usn: Price) -> int {
    if usn.decimals < wnear.decimals {
        pow10((wnear.decimals - usn.decimals) as nat)
    } else {
        1
    }
}

/// The oracle projection of the swap output for `reward` native units.
pub open spec fn spec_expected_output(reward: int, wnear: Price, usn: Price) -> int {
    reward * (wnear.multiplier * spec_wnear_extra(wnear, usn)) / (usn.multiplier * spec_usn_extra(
        wnear,
        usn,
    ))
}

/// The end-to-end swap floor: the projection shaved by the slippage
/// tolerance.
pub open spec fn spec_min_amount_out(reward: int, wnear: Price, usn: Price) -> int {
    spec_expected_output(reward, wnear, usn) * (SLIPPAGE_NUM as int) / (SLIPPAGE_DENOM as int)
}

/// String equality by characters.
fn str_eq(a: &String, b: &String) -> (r: bool)
    ensures
        r == (a@ == b@),
{
    *a == *b
}

/// An equal copy of a swap path.
fn clone_path(p: &Vec<Action>) -> (r: Vec<Action>)
    ensures
        r@ == p@,
{
    let mut out: Vec<Action> = Vec::new();
    let mut i: usize = 0;
    while i < p.len()
        invariant
            i <= p.len(),
            out@.len() == i,
            forall|j: int| 0 <= j < i ==> out@[j] == p@[j],
        decreases p.len() - i,
    {
        out.push(p[i].duplicate());
        i = i + 1;
    }
    proof {
        assert(out@ =~= p@);
    }
    out
}

/// Whether `path` has the valid shape for `wrap` and `usn`.
fn path_ok(path: &Vec<Action>, wrap: &String, usn: &String) -> (r: bool)
    ensures
        r == path_shape_ok(path@, wrap@, usn@),
{
    if path.len() == 0 {
        return false;
    }
    if !str_eq(&path[0].token_in, wrap) {
        return false;
    }
    if !str_eq(&path[path.len() - 1].token_out, usn) {
        return false;
    }
    let mut i: usize = 0;
    while i < path.len()
        invariant
            i <= path.len(),
            forall|j: int| 0 <= j < i ==> path@[j].min_amount_out == 0,
        decreases path.len() - i,
    {
        if path[i].min_amount_out != 0 {
            return false;
        }
        i = i + 1;
    }
    true
}

/// The price the bundle carries for `id`, scanning from the back so that the
/// last usable entry wins.
fn find_price(prices: &Vec<AssetOptionalPrice>, id: &String) -> (r: Option<Price>)
    ensures
        r == price_of(prices@, id@),
{
    let mut j: usize = prices.len();
    proof {
        assert(prices@.take(j as int) =~= prices@);
    }
    while j > 0
        invariant
            j <= prices.len(),
            price_of(prices@, id@) == price_of(prices@.take(j as int), id@),
        decreases j,
    {
        j = j - 1;
        proof {
            assert(prices@.take(j + 1).drop_last() =~= prices@.take(j as int));
            assert(prices@.take(j + 1).len() == j + 1);
            assert(prices@.take(j + 1)[j as int] == prices@[j as int]);
        }
        let entry = &prices[j];
        match &entry.price {
            Some(p) => {
                if str_eq(&entry.asset_id, id) {
                    return Some(*p);
                }
            },
            None => {},
        }
    }
    proof {
        assert(prices@.take(0).len() == 0);
    }
    None
}

/// The persistent ledger, together with the configured collaborator
/// identities.
pub struct Contract {
    pub staking_pool_account_id: String,
    pub owner_id: String,
    pub usn_contract_id: String,
    /// Cumulative native units ever harvested; never decreases.
    pub rewards_received: u128,
    /// Harvested native units not yet committed to a distribution.
    pub available_rewards: u128,
    /// When the last distribution was committed, in nanoseconds.
    pub last_reward_distribution: u64,
    /// How long a farm extension lasts, in nanoseconds.
    pub farm_duration: u64,
    /// Window over which rewards ramp from zero to fully released.
    pub full_rewards_duration: u64,
    pub farm_id: u64,
    /// Cumulative reward-token units forwarded to the issuer; never
    /// decreases.
    pub usn_distributed: u128,
    pub oracle_contract_id: String,
    pub ref_finance_contract_id: String,
    pub wrap_near_contract_id: String,
    pub swap_path: Vec<Action>,
    /// Native units already wrapped but not yet confirmed converted; an
    /// in-flight marker, not a balance of record.
    pub wrapped_amount: u128,
}

impl Contract {
    /// The accounting invariant: uncommitted rewards never exceed the
    /// cumulative harvest.  Every flow preserves it.
    pub open spec fn ledger_ok(self) -> bool {
        self.available_rewards <= self.rewards_received
    }

    /// The configured swap path is valid for the configured tokens.
    pub open spec fn spec_valid_swap_path(self) -> bool {
        path_shape_ok(self.swap_path@, self.wrap_near_contract_id@, self.usn_contract_id@)
    }

    /// The time-decayed releasable reward at `now`: everything once the ramp
    /// window has passed, otherwise a linear share with floor division.
    pub open spec fn spec_releasable(self, now: u64) -> int
        recommends
            self.last_reward_distribution <= now,
    {
        let diff = now - self.last_reward_distribution;
        if diff >= self.full_rewards_duration {
            self.available_rewards as int
        } else {
            self.available_rewards * diff / (self.full_rewards_duration as int)
        }
    }

    /// Builds the contract; rejects a swap path of invalid shape.
    pub fn new(
        staking_pool_account_id: String,
        owner_id: String,
        usn_contract_id: String,
        farm_id: u64,
        oracle_contract_id: String,
        ref_finance_contract_id: String,
        wrap_near_contract_id: String,
        swap_path: Vec<Action>,
    ) -> (r: Result<Contract, Error>)
        ensures
            match r {
                Ok(c) => {
                    &&& path_shape_ok(swap_path@, wrap_near_contract_id@, usn_contract_id@)
                    &&& c.staking_pool_account_id == staking_pool_account_id
                    &&& c.owner_id == owner_id
                    &&& c.usn_contract_id == usn_contract_id
                    &&& c.rewards_received == 0
                    &&& c.available_rewards == 0
                    &&& c.last_reward_distribution == 0
                    &&& c.farm_duration == DEFAULT_FARM_DURATION
                    &&& c.full_rewards_duration == FULL_REWARDS_DURATION
                    &&& c.farm_id == farm_id
                    &&& c.usn_distributed == 0
                    &&& c.oracle_contract_id == oracle_contract_id
                    &&& c.ref_finance_contract_id == ref_finance_contract_id
                    &&& c.wrap_near_contract_id == wrap_near_contract_id
                    &&& c.swap_path == swap_path
                    &&& c.wrapped_amount == 0
                    &&& c.ledger_ok()
                    &&& c.spec_valid_swap_path()
                },
                Err(e) => {
                    &&& e == Error::InvalidSwapPath
                    &&& !path_shape_ok(swap_path@, wrap_near_contract_id@, usn_contract_id@)
                },
            },
    {
        if !path_ok(&swap_path, &wrap_near_contract_id, &usn_contract_id) {
            return Err(Error::InvalidSwapPath);
        }
        Ok(Contract {
            staking_pool_account_id,
            owner_id,
            usn_contract_id,
            rewards_received: 0,
            available_rewards: 0,
            last_reward_distribution: 0,
            farm_duration: DEFAULT_FARM_DURATION,
            full_rewards_duration: FULL_REWARDS_DURATION,
            farm_id,
            usn_distributed: 0,
            oracle_contract_id,
            ref_finance_contract_id,
            wrap_near_contract_id,
            swap_path,
            wrapped_amount: 0,
        })
    }

    /// The full ledger snapshot.
    pub fn get_info(&self) -> (r: &Contract)
        ensures
            r == self,
    {
        self
    }

    /// Starts a harvest cycle: the chain pings the pool, reads this
    /// contract's account and continues with the snapshot.
    pub fn ping(&self) -> (r: HarvestRequest)
        ensures
            r.pool == self.staking_pool_account_id,
    {
        HarvestRequest { pool: self.staking_pool_account_id.clone() }
    }

    /// The decision the snapshot drives.  No ledger field is read or
    /// written: harvest credits only on a confirmed withdrawal.
    pub open spec fn spec_harvest_decision(account: StakingPoolAccount) -> HarvestAction {
        if account.unstaked_balance > 0 {
            if account.can_withdraw {
                HarvestAction::Withdraw {
                    amount: account.unstaked_balance,
                    unstake_all: account.staked_balance > 0,
                }
            } else {
                HarvestAction::AwaitCooldown
            }
        } else {
            if account.staked_balance > 0 {
                HarvestAction::UnstakeAll
            } else {
                HarvestAction::Nothing
            }
        }
    }

    /// Continuation of the harvest chain: turns the pool snapshot into the
    /// next request.  Takes the ledger immutably: a snapshot alone never
    /// mutates it, whatever it shows.
    pub fn on_get_account(&self, account: &StakingPoolAccount) -> (r: HarvestAction)
        ensures
            r == Self::spec_harvest_decision(*account),
    {
        let unstake_all = account.staked_balance > 0;
        if account.unstaked_balance > 0 {
            if account.can_withdraw {
                HarvestAction::Withdraw { amount: account.unstaked_balance, unstake_all }
            } else {
                HarvestAction::AwaitCooldown
            }
        } else {
            if unstake_all {
                HarvestAction::UnstakeAll
            } else {
                HarvestAction::Nothing
            }
        }
    }

    /// Continuation of a withdrawal: on success credits the withdrawn amount
    /// to both cumulative and available rewards and says whether an
    /// unstake-all should follow; on failure changes nothing.
    pub fn on_withdraw(
        &mut self,
        unstaked_amount: u128,
        unstake_all: bool,
        promise_success: bool,
    ) -> (r: Result<bool, Error>)
        requires
            old(self).ledger_ok(),
            old(self).rewards_received + unstaked_amount <= u128::MAX,
        ensures
            match r {
                Ok(b) => {
                    &&& promise_success
                    &&& b == unstake_all
                    &&& *final(self) == (Contract {
                        rewards_received: (old(self).rewards_received + unstaked_amount) as u128,
                        available_rewards: (old(self).available_rewards + unstaked_amount) as u128,
                        ..*old(self)
                    })
                },
                Err(e) => {
                    &&& e == Error::WithdrawFailed
                    &&& !promise_success
                    &&& *final(self) == *old(self)
                },
            },
            final(self).ledger_ok(),
    {
        if !promise_success {
            return Err(Error::WithdrawFailed);
        }
        self.rewards_received = self.rewards_received + unstaked_amount;
        self.available_rewards = self.available_rewards + unstaked_amount;
        Ok(unstake_all)
    }

    /// Owner check for the administrator-gated setters.
    pub fn assert_owner(&self, caller: &String) -> (r: Result<(), Error>)
        ensures
            r.is_ok() <==> caller@ == self.owner_id@,
            r.is_err() ==> r == Result::<(), Error>::Err(Error::NotOwner),
    {
        if str_eq(caller, &self.owner_id) {
            Ok(())
        } else {
            Err(Error::NotOwner)
        }
    }

    /// Administrator setter for the reward-release ramp window, in seconds.
    pub fn set_full_rewards_duration(
        &mut self,
        caller: &String,
        full_rewards_duration_sec: u32,
    ) -> (r: Result<(), Error>)
        ensures
            match r {
                Ok(()) => {
                    &&& caller@ == old(self).owner_id@
                    &&& *final(self) == (Contract {
                        full_rewards_duration: (full_rewards_duration_sec * NANOS_PER_SEC) as u64,
                        ..*old(self)
                    })
                },
                Err(e) => {
                    &&& e == Error::NotOwner
                    &&& caller@ != old(self).owner_id@
                    &&& *final(self) == *old(self)
                },
            },
    {
        match self.assert_owner(caller) {
            Ok(()) => {},
            Err(e) => {
                return Err(e);
            },
        }
        self.full_rewards_duration = (full_rewards_duration_sec as u64) * NANOS_PER_SEC;
        Ok(())
    }

    /// Administrator setter for the farm extension length, in seconds.
    pub fn set_farm_duration(&mut self, caller: &String, farm_duration_sec: u32) -> (r: Result<
        (),
        Error,
    >)
        ensures
            match r {
                Ok(()) => {
                    &&& caller@ == old(self).owner_id@
                    &&& *final(self) == (Contract {
                        farm_duration: (farm_duration_sec * NANOS_PER_SEC) as u64,
                        ..*old(self)
                    })
                },
                Err(e) => {
                    &&& e == Error::NotOwner
                    &&& caller@ != old(self).owner_id@
                    &&& *final(self) == *old(self)
                },
            },
    {
        match self.assert_owner(caller) {
            Ok(()) => {},
            Err(e) => {
                return Err(e);
            },
        }
        self.farm_duration = (farm_duration_sec as u64) * NANOS_PER_SEC;
        Ok(())
    }

    /// Administrator setter for the swap path; an invalid shape leaves the
    /// stored path untouched.
    pub fn set_swap_path(&mut self, caller: &String, swap_path: Vec<Action>) -> (r: Result<
        (),
        Error,
    >)
        ensures
            match r {
                Ok(()) => {
                    &&& caller@ == old(self).owner_id@
                    &&& path_shape_ok(
                        swap_path@,
                        old(self).wrap_near_contract_id@,
                        old(self).usn_contract_id@,
                    )
                    &&& *final(self) == (Contract { swap_path, ..*old(self) })
                    &&& final(self).spec_valid_swap_path()
                },
                Err(e) => {
                    &&& *final(self) == *old(self)
                    &&& (e == Error::NotOwner <==> caller@ != old(self).owner_id@)
                    &&& (e == Error::InvalidSwapPath ==> !path_shape_ok(
                        swap_path@,
                        old(self).wrap_near_contract_id@,
                        old(self).usn_contract_id@,
                    ))
                    &&& (e == Error::NotOwner || e == Error::InvalidSwapPath)
                },
            },
    {
        match self.assert_owner(caller) {
            Ok(()) => {},
            Err(e) => {
                return Err(e);
            },
        }
        if !path_ok(&swap_path, &self.wrap_near_contract_id, &self.usn_contract_id) {
            return Err(Error::InvalidSwapPath);
        }
        self.swap_path = swap_path;
        Ok(())
    }

    /// Validity check on the stored swap path, as a rejection.
    pub fn assert_valid_swap_path(&self) -> (r: Result<(), Error>)
        ensures
            r.is_ok() <==> self.spec_valid_swap_path(),
            r.is_err() ==> r == Result::<(), Error>::Err(Error::InvalidSwapPath),
    {
        if path_ok(&self.swap_path, &self.wrap_near_contract_id, &self.usn_contract_id) {
            Ok(())
        } else {
            Err(Error::InvalidSwapPath)
        }
    }

    /// The reward the time decay releases at `now`.
    pub fn get_near_reward_for_distribution(&self, now: u64) -> (r: u128)
        requires
            self.last_reward_distribution <= now,
        ensures
            r == self.spec_releasable(now),
            r <= self.available_rewards,
    {
        let time_diff = now - self.last_reward_distribution;
        if time_diff >= self.full_rewards_duration {
            self.available_rewards
        } else {
            proof {
                lemma_ratio_le(
                    self.available_rewards as int,
                    time_diff as int,
                    self.full_rewards_duration as int,
                );
            }
            u128_ratio(self.available_rewards, time_diff as u128, self.full_rewards_duration as u128)
        }
    }

    /// A native-currency donation credits both ledger totals.
    pub fn donate(&mut self, attached_deposit: u128)
        requires
            old(self).ledger_ok(),
            old(self).rewards_received + attached_deposit <= u128::MAX,
        ensures
            *final(self) == (Contract {
                rewards_received: (old(self).rewards_received + attached_deposit) as u128,
                available_rewards: (old(self).available_rewards + attached_deposit) as u128,
                ..*old(self)
            }),
            final(self).ledger_ok(),
    {
        self.rewards_received = self.rewards_received + attached_deposit;
        self.available_rewards = self.available_rewards + attached_deposit;
    }

    /// The staking pool identity.
    pub fn get_staking_pool(&self) -> (r: String)
        ensures
            r == self.staking_pool_account_id,
    {
        self.staking_pool_account_id.clone()
    }

    /// Starts the recovery flow: query this contract's reward-token balance
    /// and continue with it.
    pub fn distribute_usn(&self) -> (r: UsnBalanceRequest)
        ensures
            r.token == self.usn_contract_id,
    {
        UsnBalanceRequest { token: self.usn_contract_id.clone() }
    }

    /// Forwards `usn_amount` reward tokens to the staking pool with a farm
    /// extension of `farm_duration` starting at `now`.  The distributed
    /// total is credited at issue time, deliberately not gated on the
    /// transfer's own success.
    pub fn internal_distribute_usn(&mut self, usn_amount: u128, now: u64) -> (r: FtTransferCall)
        requires
            old(self).usn_distributed + usn_amount <= u128::MAX,
            now + old(self).farm_duration <= u64::MAX,
        ensures
            *final(self) == (Contract {
                usn_distributed: (old(self).usn_distributed + usn_amount) as u128,
                ..*old(self)
            }),
            r.token == old(self).usn_contract_id,
            r.receiver_id == old(self).staking_pool_account_id,
            r.amount == usn_amount,
            r.farming == (FarmingDetails {
                end_date: (now + old(self).farm_duration) as u64,
                farm_id: old(self).farm_id,
            }),
            old(self).ledger_ok() ==> final(self).ledger_ok(),
    {
        self.usn_distributed = self.usn_distributed + usn_amount;
        FtTransferCall {
            token: self.usn_contract_id.clone(),
            receiver_id: self.staking_pool_account_id.clone(),
            amount: usn_amount,
            farming: FarmingDetails { end_date: now + self.farm_duration, farm_id: self.farm_id },
        }
    }

    /// Continuation of the balance query: forward any positive reward-token
    /// balance left behind by an interrupted success path.
    pub fn on_usn_balance(&mut self, usn_amount: u128, now: u64) -> (r: Option<FtTransferCall>)
        requires
            old(self).usn_distributed + usn_amount <= u128::MAX,
            now + old(self).farm_duration <= u64::MAX,
        ensures
            match r {
                Some(call) => {
                    &&& usn_amount > 0
                    &&& *final(self) == (Contract {
                        usn_distributed: (old(self).usn_distributed + usn_amount) as u128,
                        ..*old(self)
                    })
                    &&& call.token == old(self).usn_contract_id
                    &&& call.receiver_id == old(self).staking_pool_account_id
                    &&& call.amount == usn_amount
                    &&& call.farming == (FarmingDetails {
                        end_date: (now + old(self).farm_duration) as u64,
                        farm_id: old(self).farm_id,
                    })
                },
                None => {
                    &&& usn_amount == 0
                    &&& *final(self) == *old(self)
                },
            },
            old(self).ledger_ok() ==> final(self).ledger_ok(),
    {
        if usn_amount > 0 {
            Some(self.internal_distribute_usn(usn_amount, now))
        } else {
            None
        }
    }

    /// Continuation of the swap: on a confirmed full execution forward the
    /// floor amount to the issuer; on any other outcome restore the
    /// committed reward to the available pool and park it in the wrapped
    /// marker so a later cycle does not re-wrap it.
    pub fn on_swap(
        &mut self,
        transfer_amount: Option<u128>,
        min_amount_out: u128,
        reward: u128,
        now: u64,
    ) -> (r: Option<FtTransferCall>)
        requires
            old(self).ledger_ok(),
            old(self).available_rewards + reward <= old(self).rewards_received,
            old(self).wrapped_amount + reward <= u128::MAX,
            old(self).usn_distributed + min_amount_out <= u128::MAX,
            now + old(self).farm_duration <= u64::MAX,
        ensures
            match r {
                Some(call) => {
                    &&& transfer_amount == Some(reward)
                    &&& *final(self) == (Contract {
                        usn_distributed: (old(self).usn_distributed + min_amount_out) as u128,
                        ..*old(self)
                    })
                    &&& call.token == old(self).usn_contract_id
                    &&& call.receiver_id == old(self).staking_pool_account_id
                    &&& call.amount == min_amount_out
                    &&& call.farming == (FarmingDetails {
                        end_date: (now + old(self).farm_duration) as u64,
                        farm_id: old(self).farm_id,
                    })
                },
                None => {
                    &&& transfer_amount != Some(reward)
                    &&& *final(self) == (Contract {
                        wrapped_amount: (old(self).wrapped_amount + reward) as u128,
                        available_rewards: (old(self).available_rewards + reward) as u128,
                        ..*old(self)
                    })
                },
            },
            final(self).ledger_ok(),
    {
        let success = match transfer_amount {
            Some(t) => t == reward,
            None => false,
        };
        if success {
            Some(self.internal_distribute_usn(min_amount_out, now))
        } else {
            self.wrapped_amount = self.wrapped_amount + reward;
            self.available_rewards = self.available_rewards + reward;
            None
        }
    }

    /// Why a distribution trigger is rejected, or `None` when it goes
    /// through.  The checks run in the order the entry point applies them.
    pub open spec fn spec_distribute_check(
        self,
        predecessor: Seq<char>,
        data: PriceData,
        now: u64,
    ) -> Option<Error>
        recommends
            self.last_reward_distribution <= now,
    {
        if predecessor != self.oracle_contract_id@ {
            Some(Error::NotOracle)
        } else if data.recency_duration_sec > MAX_RECENCY_DURATION_SEC {
            Some(Error::RecencyDurationTooLong)
        } else if data.timestamp > now {
            Some(Error::PriceDataInFuture)
        } else if now - data.timestamp > MAX_PRICE_AGE {
            Some(Error::PriceDataTooStale)
        } else if self.spec_releasable(now) == 0 {
            Some(Error::NothingToDistribute)
        } else {
            match price_of(data.prices@, self.usn_contract_id@) {
                None => Some(Error::MissingTokenPrice),
                Some(usn) => match price_of(data.prices@, self.wrap_near_contract_id@) {
                    None => Some(Error::MissingNativePrice),
                    Some(wnear) => {
                        let we = spec_wnear_extra(wnear, usn);
                        let ue = spec_usn_extra(wnear, usn);
                        if we > u128::MAX || ue > u128::MAX {
                            Some(Error::PriceOverflow)
                        } else if wnear.multiplier * we > u128::MAX || usn.multiplier * ue
                            > u128::MAX {
                            Some(Error::PriceOverflow)
                        } else if usn.multiplier == 0 {
                            Some(Error::ZeroPrice)
                        } else if spec_expected_output(self.spec_releasable(now), wnear, usn)
                            > u128::MAX {
                            Some(Error::PriceOverflow)
                        } else {
                            None
                        }
                    },
                },
            }
        }
    }

    /// The distribution trigger: consumes an oracle price bundle, commits
    /// the releasable reward out of the available pool before any call is
    /// issued, and describes the wrap-then-swap request.  On any rejection
    /// the ledger is untouched.
    pub fn oracle_on_call(
        &mut self,
        predecessor_id: &String,
        data: &PriceData,
        now: u64,
    ) -> (r: Result<SwapCall, Error>)
        requires
            old(self).ledger_ok(),
            old(self).last_reward_distribution <= now,
            old(self).spec_valid_swap_path(),
            old(self).rewards_received < u128::MAX,
        ensures
            match r {
                Ok(call) => ({
                    let reward = old(self).spec_releasable(now);
                    let usn = price_of(data.prices@, old(self).usn_contract_id@).unwrap();
                    let wnear = price_of(data.prices@, old(self).wrap_near_contract_id@).unwrap();
                    let minout = spec_min_amount_out(reward, wnear, usn);
                    let wrap_amount = sat_sub(reward, old(self).wrapped_amount as int) + 1;
                    let path_len = old(self).swap_path@.len();
                    &&& old(self).spec_distribute_check(predecessor_id@, *data, now) is None
                    &&& 0 < reward <= old(self).available_rewards
                    &&& *final(self) == (Contract {
                        available_rewards: (old(self).available_rewards - reward) as u128,
                        last_reward_distribution: now,
                        wrapped_amount: sat_sub(old(self).wrapped_amount as int, wrap_amount) as u128,
                        ..*old(self)
                    })
                    &&& call.wrap_contract == old(self).wrap_near_contract_id
                    &&& call.wrap_amount == wrap_amount
                    &&& call.swap_contract == old(self).ref_finance_contract_id
                    &&& call.amount_in == reward
                    &&& call.min_amount_out == minout
                    &&& call.actions@.len() == path_len
                    &&& (forall|i: int|
                        0 <= i < path_len - 1 ==> call.actions@[i] == old(self).swap_path@[i])
                    &&& call.actions@[path_len - 1] == (Action {
                        min_amount_out: minout as u128,
                        ..old(self).swap_path@[path_len - 1]
                    })
                }),
                Err(e) => {
                    &&& *final(self) == *old(self)
                    &&& old(self).spec_distribute_check(predecessor_id@, *data, now) == Some(e)
                },
            },
            final(self).ledger_ok(),
    {
        if !str_eq(predecessor_id, &self.oracle_contract_id) {
            return Err(Error::NotOracle);
        }
        if data.recency_duration_sec > MAX_RECENCY_DURATION_SEC {
            return Err(Error::RecencyDurationTooLong);
        }
        if data.timestamp > now {
            return Err(Error::PriceDataInFuture);
        }
        if now - data.timestamp > MAX_PRICE_AGE {
            return Err(Error::PriceDataTooStale);
        }
        let reward = self.get_near_reward_for_distribution(now);
        if reward == 0 {
            return Err(Error::NothingToDistribute);
        }
        let usn_price = match find_price(&data.prices, &self.usn_contract_id) {
            Some(p) => p,
            None => {
                return Err(Error::MissingTokenPrice);
            },
        };
        let wnear_price = match find_price(&data.prices, &self.wrap_near_contract_id) {
            Some(p) => p,
            None => {
                return Err(Error::MissingNativePrice);
            },
        };
        let wnear_extra: u128 = if wnear_price.decimals < usn_price.decimals {
            match checked_pow10((usn_price.decimals - wnear_price.decimals) as u32) {
                Some(p) => p,
                None => {
                    return Err(Error::PriceOverflow);
                },
            }
        } else {
            1
        };
        let usn_extra: u128 = if usn_price.decimals < wnear_price.decimals {
            match checked_pow10((wnear_price.decimals - usn_price.decimals) as u32) {
                Some(p) => p,
                None => {
                    return Err(Error::PriceOverflow);
                },
            }
        } else {
            1
        };
        proof {
            if wnear_price.decimals < usn_price.decimals {
                crate::arith::lemma_pow10_pos((usn_price.decimals - wnear_price.decimals) as nat);
            }
            if usn_price.decimals < wnear_price.decimals {
                crate::arith::lemma_pow10_pos((wnear_price.decimals - usn_price.decimals) as nat);
            }
            assert(wnear_extra >= 1);
            assert(usn_extra >= 1);
        }
        let num = match wnear_price.multiplier.checked_mul(wnear_extra) {
            Some(v) => v,
            None => {
                return Err(Error::PriceOverflow);
            },
        };
        let den = match usn_price.multiplier.checked_mul(usn_extra) {
            Some(v) => v,
            None => {
                return Err(Error::PriceOverflow);
            },
        };
        if den == 0 {
            proof {
                assert(usn_price.multiplier == 0) by (nonlinear_arith)
                    requires
                        usn_price.multiplier * (usn_extra as int) == 0,
                        usn_extra >= 1,
                {}
            }
            return Err(Error::ZeroPrice);
        }
        let oracle_amount_out = match checked_u128_ratio(reward, num, den) {
            Some(v) => v,
            None => {
                return Err(Error::PriceOverflow);
            },
        };
        proof {
            lemma_ratio_le(
                oracle_amount_out as int,
                SLIPPAGE_NUM as int,
                SLIPPAGE_DENOM as int,
            );
        }
        let min_amount_out = u128_ratio(oracle_amount_out, SLIPPAGE_NUM, SLIPPAGE_DENOM);
        let mut actions = clone_path(&self.swap_path);
        let last_idx = actions.len() - 1;
        let new_last = Action {
            pool_id: actions[last_idx].pool_id,
            token_in: actions[last_idx].token_in.clone(),
            token_out: actions[last_idx].token_out.clone(),
            min_amount_out,
        };
        actions.set(last_idx, new_last);
        self.available_rewards = self.available_rewards - reward;
        self.last_reward_distribution = now;
        let wrap_amount = reward.saturating_sub(self.wrapped_amount) + 1;
        self.wrapped_amount = self.wrapped_amount.saturating_sub(wrap_amount);
        Ok(SwapCall {
            wrap_contract: self.wrap_near_contract_id.clone(),
            wrap_amount,
            swap_contract: self.ref_finance_contract_id.clone(),
            amount_in: reward,
            actions,
            min_amount_out,
        })
    }
}

/// Conservation under swap failure: a distribution that commits `reward`
/// out of the available pool, as `oracle_on_call` describes it, followed by
/// the failed-swap reconciliation of `on_swap`, restores `available_rewards`
/// exactly and grows `wrapped_amount` by exactly the committed amount.
pub proof fn lemma_swap_failure_conservation(c0: Contract, c1: Contract, c2: Contract, reward: u128)
    requires
        reward <= c0.available_rewards,
        c1.available_rewards == c0.available_rewards - reward,
        c2.available_rewards == c1.available_rewards + reward,
        c2.wrapped_amount == c1.wrapped_amount + reward,
    ensures
        c2.available_rewards == c0.available_rewards,
        c2.wrapped_amount - c1.wrapped_amount == reward,
{
}

} // verus!
