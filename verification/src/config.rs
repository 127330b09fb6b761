//! The market's configuration and its updates.
use crate::gather::SpotPriceConfig;
use crate::number::{abs, checked, opt_view, trunc_mul, Number};
use vstd::prelude::*;

verus! {

/// The most liquidity a market accepts.
#[derive(Clone, Copy, Debug, PartialEq, Eq, Structural)]
pub enum MaxLiquidity {
    Unlimited,
    /// At most this much, in USD.
    Usd { amount: Number },
}

/// Market configuration values.
#[derive(Clone, Copy, Debug, PartialEq, Eq, Structural)]
pub struct Config {
    /// Trading fee charged on the notional size.
    pub trading_fee_notional_size: Number,
    /// Trading fee charged on the counter collateral.
    pub trading_fee_counter_collateral: Number,
    /// Crank executions done per call.
    pub crank_execs: u32,
    /// Largest leverage a trader may take.
    pub max_leverage: Number,
    /// Leverage of the carry trade.
    pub carry_leverage: Number,
    /// Whether events are left out of responses.
    pub mute_events: bool,
    /// Seconds between liquifundings of a position.
    pub liquifunding_delay_seconds: u32,
    /// Seconds after which a price update is too old.
    pub price_update_too_old_seconds: u32,
    /// Seconds after which the crank is stale.
    pub staleness_seconds: u32,
    /// Seconds over which unstaked xLP turns back into LP.
    pub unstake_period_seconds: u32,
    /// Fee charged for placing a limit order, in collateral.
    pub limit_order_fee: Number,
    /// Smallest deposit accepted, in USD.
    pub minimum_deposit_usd: Number,
    /// Most pending positions unpended per crank run.
    pub unpend_limit: u32,
    /// Random spread of the liquifunding delay, in seconds.
    pub liquifunding_delay_fuzz_seconds: u32,
    pub max_liquidity: MaxLiquidity,
    /// Whether position tokens can be transferred.
    pub disable_position_nft_exec: bool,
    /// Seconds a liquidity provider waits after depositing.
    pub liquidity_cooldown_seconds: u32,
    /// Cap of the instantaneous delta neutrality ratio (strictly positive).
    pub delta_neutrality_fee_cap: Number,
    /// Net notional at which the delta neutrality ratio reaches one (strictly positive).
    pub delta_neutrality_fee_sensitivity: Number,
    /// Share of delta neutrality fees paid into the fund that goes to the protocol.
    pub delta_neutrality_fee_tax: Number,
    /// Maximum annualized funding rate.
    pub funding_rate_max_annualized: Number,
    /// Sensitivity of the funding rate to the open interest imbalance.
    pub funding_rate_sensitivity: Number,
    /// Speed at which the borrow fee moves toward its target, per day.
    pub borrow_fee_sensitivity: Number,
    /// Lower bound of the annualized borrow fee rate (strictly positive).
    pub borrow_fee_rate_min_annualized: Number,
    /// Upper bound of the annualized borrow fee rate.
    pub borrow_fee_rate_max_annualized: Number,
    /// Target share of liquidity that is locked.
    pub target_utilization: Number,
    /// Multiplier of xLP rewards when all liquidity is xLP.
    pub min_xlp_rewards_multiplier: Number,
    /// Multiplier of xLP rewards when all liquidity is LP.
    pub max_xlp_rewards_multiplier: Number,
    /// Share of borrow and trading fees that goes to the protocol.
    pub protocol_tax: Number,
    /// Crank fee paid out per crank execution, in USD.
    pub crank_fee_reward: Number,
    /// Crank fee charged to a position, in USD.
    pub crank_fee_charged: Number,
    /// Share of trading fees paid to a referrer.
    pub referral_reward_ratio: Number,
}

impl Config {
    /// What the calculations of this library rely on: strictly positive
    /// delta neutrality parameters and minimum borrow rate, a maximum
    /// borrow rate no lower than the minimum, and no negative rate, share,
    /// fee or multiplier.
    pub open spec fn wf(&self) -> bool {
        &&& self.delta_neutrality_fee_cap@ > 0
        &&& self.delta_neutrality_fee_sensitivity@ > 0
        &&& self.delta_neutrality_fee_tax@ >= 0
        &&& self.funding_rate_max_annualized@ >= 0
        &&& self.funding_rate_sensitivity@ >= 0
        &&& self.borrow_fee_sensitivity@ >= 0
        &&& self.borrow_fee_rate_min_annualized@ > 0
        &&& self.borrow_fee_rate_max_annualized@ >= self.borrow_fee_rate_min_annualized@
        &&& self.target_utilization@ >= 0
        &&& self.min_xlp_rewards_multiplier@ >= 0
        &&& self.max_xlp_rewards_multiplier@ >= 0
        &&& self.protocol_tax@ >= 0
        &&& self.crank_fee_reward@ >= 0
        &&& self.crank_fee_charged@ >= 0
        &&& self.referral_reward_ratio@ >= 0
    }

    /// Checks [`Config::wf`].
    pub fn validate(&self) -> (r: bool)
        ensures
            r == self.wf(),
    {
        self.delta_neutrality_fee_cap.is_strictly_positive() && self.delta_neutrality_fee_sensitivity.is_strictly_positive()
            && self.delta_neutrality_fee_tax.is_positive_or_zero()
            && self.funding_rate_max_annualized.is_positive_or_zero()
            && self.funding_rate_sensitivity.is_positive_or_zero()
            && self.borrow_fee_sensitivity.is_positive_or_zero()
            && self.borrow_fee_rate_min_annualized.is_strictly_positive()
            && self.borrow_fee_rate_min_annualized.le(&self.borrow_fee_rate_max_annualized)
            && self.target_utilization.is_positive_or_zero()
            && self.min_xlp_rewards_multiplier.is_positive_or_zero()
            && self.max_xlp_rewards_multiplier.is_positive_or_zero() && self.protocol_tax.is_positive_or_zero()
            && self.crank_fee_reward.is_positive_or_zero() && self.crank_fee_charged.is_positive_or_zero()
            && self.referral_reward_ratio.is_positive_or_zero()
    }

    /// The trading fee for a change of position: the notional fee rate on
    /// the growth of the notional size in collateral (in absolute value)
    /// plus the counter collateral fee rate on the growth of the counter
    /// collateral; shrinking costs nothing.
    pub open spec fn spec_trade_fee(&self, old_nic: int, new_nic: int, old_counter: int, new_counter: int) -> Option<int> {
        let growth = abs(new_nic) - abs(old_nic);
        let on_notional = if growth >= 0 {
            checked(trunc_mul(growth, self.trading_fee_notional_size@))
        } else {
            Some(0)
        };
        let on_counter = match checked(new_counter - old_counter) {
            None => None,
            Some(d) => if d >= 0 {
                checked(trunc_mul(d, self.trading_fee_counter_collateral@))
            } else {
                Some(0)
            },
        };
        match (on_notional, on_counter) {
            (Some(a), Some(b)) => checked(a + b),
            _ => None,
        }
    }

    /// The trading fee for opening a position: the fee for growing from nothing.
    pub open spec fn spec_trade_fee_open(&self, notional_size_in_collateral: int, counter_collateral: int) -> Option<int> {
        self.spec_trade_fee(0, notional_size_in_collateral, 0, counter_collateral)
    }

    /// The trading fee for a change of position; `None` on overflow.
    pub fn calculate_trade_fee(&self, old_nic: Number, new_nic: Number, old_counter: Number, new_counter: Number) -> (r: Option<Number>)
        ensures
            opt_view(r) == self.spec_trade_fee(old_nic@, new_nic@, old_counter@, new_counter@),
    {
        new_nic.range_fact();
        old_nic.range_fact();
        let growth = new_nic.abs().checked_sub(&old_nic.abs())?;
        let on_notional = if growth.is_negative() {
            Number::zero()
        } else {
            growth.checked_mul(&self.trading_fee_notional_size)?
        };
        let counter_growth = new_counter.checked_sub(&old_counter)?;
        let on_counter = if counter_growth.is_negative() {
            Number::zero()
        } else {
            counter_growth.checked_mul(&self.trading_fee_counter_collateral)?
        };
        on_notional.checked_add(&on_counter)
    }

    /// The trading fee for opening a position; `None` on overflow.
    pub fn calculate_trade_fee_open(&self, notional_size_in_collateral: Number, counter_collateral: Number) -> (r: Option<Number>)
        ensures
            opt_view(r) == self.spec_trade_fee_open(notional_size_in_collateral@, counter_collateral@),
    {
        self.calculate_trade_fee(Number::zero(), notional_size_in_collateral, Number::zero(), counter_collateral)
    }
}

/// Changes to the configuration: each field given replaces the current one.
#[derive(Debug)]
pub struct ConfigUpdate {
    pub trading_fee_notional_size: Option<Number>,
    pub trading_fee_counter_collateral: Option<Number>,
    pub crank_execs: Option<u32>,
    pub max_leverage: Option<Number>,
    pub carry_leverage: Option<Number>,
    pub funding_rate_sensitivity: Option<Number>,
    pub funding_rate_max_annualized: Option<Number>,
    pub mute_events: Option<bool>,
    pub liquifunding_delay_seconds: Option<u32>,
    pub price_update_too_old_seconds: Option<u32>,
    pub staleness_seconds: Option<u32>,
    pub protocol_tax: Option<Number>,
    pub unstake_period_seconds: Option<u32>,
    pub target_utilization: Option<Number>,
    pub borrow_fee_sensitivity: Option<Number>,
    pub borrow_fee_rate_min_annualized: Option<Number>,
    pub borrow_fee_rate_max_annualized: Option<Number>,
    pub max_xlp_rewards_multiplier: Option<Number>,
    pub min_xlp_rewards_multiplier: Option<Number>,
    pub delta_neutrality_fee_sensitivity: Option<Number>,
    pub delta_neutrality_fee_cap: Option<Number>,
    pub delta_neutrality_fee_tax: Option<Number>,
    pub limit_order_fee: Option<Number>,
    pub crank_fee_charged: Option<Number>,
    pub crank_fee_reward: Option<Number>,
    pub minimum_deposit_usd: Option<Number>,
    pub unpend_limit: Option<u32>,
    pub liquifunding_delay_fuzz_seconds: Option<u32>,
    pub max_liquidity: Option<MaxLiquidity>,
    pub disable_position_nft_exec: Option<bool>,
    pub liquidity_cooldown_seconds: Option<u32>,
    pub spot_price: Option<SpotPriceConfig>,
}

/// The given value, or the current one.
pub open spec fn or_keep<T>(new: Option<T>, current: T) -> T {
    match new {
        Some(v) => v,
        None => current,
    }
}

fn keep<T>(new: Option<T>, current: T) -> (r: T)
    ensures
        r == or_keep(new, current),
{
    match new {
        Some(v) => v,
        None => current,
    }
}

/// The configuration with an update applied (the spot price aside).
pub open spec fn spec_apply_update(c: Config, u: ConfigUpdate) -> Config {
    Config {
        trading_fee_notional_size: or_keep(u.trading_fee_notional_size, c.trading_fee_notional_size),
        trading_fee_counter_collateral: or_keep(u.trading_fee_counter_collateral, c.trading_fee_counter_collateral),
        crank_execs: or_keep(u.crank_execs, c.crank_execs),
        max_leverage: or_keep(u.max_leverage, c.max_leverage),
        carry_leverage: or_keep(u.carry_leverage, c.carry_leverage),
        mute_events: or_keep(u.mute_events, c.mute_events),
        liquifunding_delay_seconds: or_keep(u.liquifunding_delay_seconds, c.liquifunding_delay_seconds),
        price_update_too_old_seconds: or_keep(u.price_update_too_old_seconds, c.price_update_too_old_seconds),
        staleness_seconds: or_keep(u.staleness_seconds, c.staleness_seconds),
        unstake_period_seconds: or_keep(u.unstake_period_seconds, c.unstake_period_seconds),
        limit_order_fee: or_keep(u.limit_order_fee, c.limit_order_fee),
        minimum_deposit_usd: or_keep(u.minimum_deposit_usd, c.minimum_deposit_usd),
        unpend_limit: or_keep(u.unpend_limit, c.unpend_limit),
        liquifunding_delay_fuzz_seconds: or_keep(u.liquifunding_delay_fuzz_seconds, c.liquifunding_delay_fuzz_seconds),
        max_liquidity: or_keep(u.max_liquidity, c.max_liquidity),
        disable_position_nft_exec: or_keep(u.disable_position_nft_exec, c.disable_position_nft_exec),
        liquidity_cooldown_seconds: or_keep(u.liquidity_cooldown_seconds, c.liquidity_cooldown_seconds),
        delta_neutrality_fee_cap: or_keep(u.delta_neutrality_fee_cap, c.delta_neutrality_fee_cap),
        delta_neutrality_fee_sensitivity: or_keep(u.delta_neutrality_fee_sensitivity, c.delta_neutrality_fee_sensitivity),
        delta_neutrality_fee_tax: or_keep(u.delta_neutrality_fee_tax, c.delta_neutrality_fee_tax),
        funding_rate_max_annualized: or_keep(u.funding_rate_max_annualized, c.funding_rate_max_annualized),
        funding_rate_sensitivity: or_keep(u.funding_rate_sensitivity, c.funding_rate_sensitivity),
        borrow_fee_sensitivity: or_keep(u.borrow_fee_sensitivity, c.borrow_fee_sensitivity),
        borrow_fee_rate_min_annualized: or_keep(u.borrow_fee_rate_min_annualized, c.borrow_fee_rate_min_annualized),
        borrow_fee_rate_max_annualized: or_keep(u.borrow_fee_rate_max_annualized, c.borrow_fee_rate_max_annualized),
        target_utilization: or_keep(u.target_utilization, c.target_utilization),
        min_xlp_rewards_multiplier: or_keep(u.min_xlp_rewards_multiplier, c.min_xlp_rewards_multiplier),
        max_xlp_rewards_multiplier: or_keep(u.max_xlp_rewards_multiplier, c.max_xlp_rewards_multiplier),
        protocol_tax: or_keep(u.protocol_tax, c.protocol_tax),
        crank_fee_reward: or_keep(u.crank_fee_reward, c.crank_fee_reward),
        crank_fee_charged: or_keep(u.crank_fee_charged, c.crank_fee_charged),
        referral_reward_ratio: c.referral_reward_ratio,
    }
}

/// Why a configuration update was refused.
#[derive(Clone, Copy, Debug, PartialEq, Eq, Structural)]
pub enum ConfigError {
    /// The updated configuration breaks [`Config::wf`].
    InvalidConfig,
}

/// Applies an update: every field it gives replaces the current value,
/// the spot price source included; the result must then be well formed.
pub fn update_config(config: &mut Config, spot_price: &mut SpotPriceConfig, update: ConfigUpdate) -> (r: Result<(), ConfigError>)
    ensures
        *final(config) == spec_apply_update(*old(config), update),
        *final(spot_price) == or_keep(update.spot_price, *old(spot_price)),
        r is Ok <==> final(config).wf(),
        r is Err ==> r == Err::<(), ConfigError>(ConfigError::InvalidConfig),
{
    let c = *config;
    *config = Config {
        trading_fee_notional_size: keep(update.trading_fee_notional_size, c.trading_fee_notional_size),
        trading_fee_counter_collateral: keep(update.trading_fee_counter_collateral, c.trading_fee_counter_collateral),
        crank_execs: keep(update.crank_execs, c.crank_execs),
        max_leverage: keep(update.max_leverage, c.max_leverage),
        carry_leverage: keep(update.carry_leverage, c.carry_leverage),
        mute_events: keep(update.mute_events, c.mute_events),
        liquifunding_delay_seconds: keep(update.liquifunding_delay_seconds, c.liquifunding_delay_seconds),
        price_update_too_old_seconds: keep(update.price_update_too_old_seconds, c.price_update_too_old_seconds),
        staleness_seconds: keep(update.staleness_seconds, c.staleness_seconds),
        unstake_period_seconds: keep(update.unstake_period_seconds, c.unstake_period_seconds),
        limit_order_fee: keep(update.limit_order_fee, c.limit_order_fee),
        minimum_deposit_usd: keep(update.minimum_deposit_usd, c.minimum_deposit_usd),
        unpend_limit: keep(update.unpend_limit, c.unpend_limit),
        liquifunding_delay_fuzz_seconds: keep(update.liquifunding_delay_fuzz_seconds, c.liquifunding_delay_fuzz_seconds),
        max_liquidity: keep(update.max_liquidity, c.max_liquidity),
        disable_position_nft_exec: keep(update.disable_position_nft_exec, c.disable_position_nft_exec),
        liquidity_cooldown_seconds: keep(update.liquidity_cooldown_seconds, c.liquidity_cooldown_seconds),
        delta_neutrality_fee_cap: keep(update.delta_neutrality_fee_cap, c.delta_neutrality_fee_cap),
        delta_neutrality_fee_sensitivity: keep(update.delta_neutrality_fee_sensitivity, c.delta_neutrality_fee_sensitivity),
        delta_neutrality_fee_tax: keep(update.delta_neutrality_fee_tax, c.delta_neutrality_fee_tax),
        funding_rate_max_annualized: keep(update.funding_rate_max_annualized, c.funding_rate_max_annualized),
        funding_rate_sensitivity: keep(update.funding_rate_sensitivity, c.funding_rate_sensitivity),
        borrow_fee_sensitivity: keep(update.borrow_fee_sensitivity, c.borrow_fee_sensitivity),
        borrow_fee_rate_min_annualized: keep(update.borrow_fee_rate_min_annualized, c.borrow_fee_rate_min_annualized),
        borrow_fee_rate_max_annualized: keep(update.borrow_fee_rate_max_annualized, c.borrow_fee_rate_max_annualized),
        target_utilization: keep(update.target_utilization, c.target_utilization),
        min_xlp_rewards_multiplier: keep(update.min_xlp_rewards_multiplier, c.min_xlp_rewards_multiplier),
        max_xlp_rewards_multiplier: keep(update.max_xlp_rewards_multiplier, c.max_xlp_rewards_multiplier),
        protocol_tax: keep(update.protocol_tax, c.protocol_tax),
        crank_fee_reward: keep(update.crank_fee_reward, c.crank_fee_reward),
        crank_fee_charged: keep(update.crank_fee_charged, c.crank_fee_charged),
        referral_reward_ratio: c.referral_reward_ratio,
    };
    match update.spot_price {
        Some(s) => {
            *spot_price = s;
        },
        None => {},
    }
    if config.validate() {
        Ok(())
    } else {
        Err(ConfigError::InvalidConfig)
    }
}

/// An empty update changes nothing.
pub proof fn lemma_empty_update_keeps(c: Config, u: ConfigUpdate)
    requires
        u.trading_fee_notional_size is None && u.trading_fee_counter_collateral is None && u.crank_execs is None
            && u.max_leverage is None && u.carry_leverage is None && u.funding_rate_sensitivity is None
            && u.funding_rate_max_annualized is None && u.mute_events is None && u.liquifunding_delay_seconds is None
            && u.price_update_too_old_seconds is None && u.staleness_seconds is None && u.protocol_tax is None
            && u.unstake_period_seconds is None && u.target_utilization is None && u.borrow_fee_sensitivity is None
            && u.borrow_fee_rate_min_annualized is None && u.borrow_fee_rate_max_annualized is None
            && u.max_xlp_rewards_multiplier is None && u.min_xlp_rewards_multiplier is None
            && u.delta_neutrality_fee_sensitivity is None && u.delta_neutrality_fee_cap is None
            && u.delta_neutrality_fee_tax is None && u.limit_order_fee is None && u.crank_fee_charged is None
            && u.crank_fee_reward is None && u.minimum_deposit_usd is None && u.unpend_limit is None
            && u.liquifunding_delay_fuzz_seconds is None && u.max_liquidity is None
            && u.disable_position_nft_exec is None && u.liquidity_cooldown_seconds is None,
    ensures
        spec_apply_update(c, u) == c,
{
}

} // verus!
