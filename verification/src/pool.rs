//! Deposits into and withdrawals from the liquidity pool, and the price of
//! an LP token in collateral.
//!
//! An LP or xLP token is a share of the pool's collateral, locked and
//! unlocked alike. A token's price is the pool's collateral over its tokens;
//! the first deposit into an empty pool mints one token per unit.
use crate::config::MaxLiquidity;
use crate::dnf::approx_zero;
use crate::error::PerpError;
use crate::funding::LiquidityStats;
use crate::lock::{min_unlocked_liquidity, spec_min_unlocked_liquidity};
use crate::lp::{
    calculate_accrued_yield, calculate_unstaked_lp, ensure_liquidity_cooldown, get_liquidity_cooldown,
    liquidity_claim_yield, liquidity_stake_lp, lp_claim, perform_lp_book_keeping, spec_accrued, spec_book_keeping,
    spec_claim_ok, spec_claimed, spec_stake_ok, spec_total_yield, spec_unstaked_lp, LiquidityStatsByAddr,
    UnstakingXlp, YieldLedger, YieldPerToken,
};
use crate::number::in_range;
use crate::number::{checked, lemma_trunc_nonneg, number_of, odiv, omul, scale, trunc_div, trunc_mul, Number};
use crate::price::PricePoint;
use vstd::prelude::*;

verus! {

/// The pool's collateral, locked and unlocked, when representable.
pub open spec fn pool_collateral(s: LiquidityStats) -> Option<int> {
    checked(s.locked@ + s.unlocked@)
}

/// The pool's tokens, LP and xLP, when representable.
pub open spec fn pool_tokens(s: LiquidityStats) -> Option<int> {
    checked(s.total_lp@ + s.total_xlp@)
}

/// LP tokens minted for `amount` collateral: one per unit into a pool
/// without collateral or tokens, otherwise the tokens times the deposit over
/// the collateral. Refused when the deposit is worth no token.
pub open spec fn spec_collateral_to_lp(s: LiquidityStats, amount: int) -> Result<int, PerpError> {
    match pool_collateral(s) {
        None => Err(PerpError::Arithmetic),
        Some(c) => {
            let shares = if c == 0 {
                if s.total_lp@ == 0 && s.total_xlp@ == 0 {
                    Ok(amount)
                } else {
                    Err(PerpError::PoolWithoutCollateral)
                }
            } else {
                match pool_tokens(s) {
                    None => Err(PerpError::Arithmetic),
                    Some(t) => match odiv(omul(Some(t), Some(amount)), Some(c)) {
                        Some(x) => Ok(x),
                        None => Err(PerpError::Arithmetic),
                    },
                }
            };
            match shares {
                Ok(x) => if x == 0 {
                    Err(PerpError::ZeroShares)
                } else {
                    Ok(x)
                },
                Err(e) => Err(e),
            }
        },
    }
}

/// Collateral that `lp` tokens are worth: the collateral times the tokens
/// over all tokens. Refused for tokens of a pool without collateral.
pub open spec fn spec_lp_to_collateral(s: LiquidityStats, lp: int) -> Result<int, PerpError> {
    if lp == 0 {
        Ok(0)
    } else {
        match pool_collateral(s) {
            None => Err(PerpError::Arithmetic),
            Some(c) => if c == 0 {
                Err(PerpError::EmptyPool)
            } else {
                match pool_tokens(s) {
                    None => Err(PerpError::Arithmetic),
                    Some(t) => match odiv(omul(Some(c), Some(lp)), Some(t)) {
                        Some(v) => Ok(v),
                        None => Err(PerpError::Arithmetic),
                    },
                }
            },
        }
    }
}

fn lift(o: Option<Number>) -> (r: Result<Number, PerpError>)
    ensures
        match o {
            Some(v) => r == Ok::<Number, PerpError>(v),
            None => r == Err::<Number, PerpError>(PerpError::Arithmetic),
        },
{
    match o {
        Some(v) => Ok(v),
        None => Err(PerpError::Arithmetic),
    }
}

/// The LP tokens that a deposit of `amount` mints.
pub fn collateral_to_lp(s: &LiquidityStats, amount: &Number) -> (r: Result<Number, PerpError>)
    ensures
        match spec_collateral_to_lp(*s, amount@) {
            Ok(x) => r matches Ok(v) && v@ == x,
            Err(e) => r == Err::<Number, PerpError>(e),
        },
{
    let c = lift(s.locked.checked_add(&s.unlocked))?;
    let shares = if c.is_zero() {
        if s.total_lp.is_zero() && s.total_xlp.is_zero() {
            *amount
        } else {
            return Err(PerpError::PoolWithoutCollateral);
        }
    } else {
        let t = lift(s.total_lp.checked_add(&s.total_xlp))?;
        let product = lift(t.checked_mul(amount))?;
        lift(product.checked_div(&c))?
    };
    if shares.is_zero() {
        Err(PerpError::ZeroShares)
    } else {
        Ok(shares)
    }
}

/// The collateral that `lp` tokens are worth.
pub fn lp_to_collateral(s: &LiquidityStats, lp: &Number) -> (r: Result<Number, PerpError>)
    ensures
        match spec_lp_to_collateral(*s, lp@) {
            Ok(x) => r matches Ok(v) && v@ == x,
            Err(e) => r == Err::<Number, PerpError>(e),
        },
{
    if lp.is_zero() {
        return Ok(Number::zero());
    }
    let c = lift(s.locked.checked_add(&s.unlocked))?;
    if c.is_zero() {
        return Err(PerpError::EmptyPool);
    }
    let t = lift(s.total_lp.checked_add(&s.total_xlp))?;
    let product = lift(c.checked_mul(lp))?;
    lift(product.checked_div(&t))
}

/// Refusal of a deposit by the market's maximum liquidity, in USD at the
/// collateral's price: the pool's collateral and the deposit together may
/// not exceed it.
pub open spec fn spec_max_liquidity_check(
    max: MaxLiquidity,
    price: PricePoint,
    deposit: int,
    s: LiquidityStats,
) -> Result<(), PerpError> {
    match max {
        MaxLiquidity::Unlimited => Ok(()),
        MaxLiquidity::Usd { amount } => match (
            price.spec_collateral_to_usd(deposit),
            match pool_collateral(s) {
                Some(c) => price.spec_collateral_to_usd(c),
                None => None,
            },
        ) {
            (Some(d), Some(cur)) => match checked(cur + d) {
                Some(total) => if total > amount@ {
                    Err(
                        PerpError::MaxLiquidity {
                            price_collateral_in_usd: price.price_usd,
                            current: number_of(cur),
                            deposit: number_of(d),
                            max: amount,
                        },
                    )
                } else {
                    Ok(())
                },
                None => Err(PerpError::Arithmetic),
            },
            _ => Err(PerpError::Arithmetic),
        },
    }
}

/// Refuses a deposit that would take the pool above the market's maximum
/// liquidity.
pub fn ensure_max_liquidity(max: MaxLiquidity, price: &PricePoint, deposit: &Number, s: &LiquidityStats) -> (r: Result<
    (),
    PerpError,
>)
    ensures
        r == spec_max_liquidity_check(max, *price, deposit@, *s),
{
    broadcast use crate::number::group_number_of;

    let max_usd = match max {
        MaxLiquidity::Unlimited => return Ok(()),
        MaxLiquidity::Usd { amount } => amount,
    };
    let deposit_usd = lift(price.collateral_to_usd(deposit))?;
    let current = lift(s.locked.checked_add(&s.unlocked))?;
    let current_usd = lift(price.collateral_to_usd(&current))?;
    let total = lift(current_usd.checked_add(&deposit_usd))?;
    if max_usd.lt(&total) {
        Err(
            PerpError::MaxLiquidity {
                price_collateral_in_usd: price.price_usd,
                current: current_usd,
                deposit: deposit_usd,
                max: max_usd,
            },
        )
    } else {
        Ok(())
    }
}

/// Nanoseconds in a second.
pub const NS_PER_SECOND: u64 = 1_000_000_000u64;

/// Whether a provider's liquidity cooldown is still running at `now`.
pub open spec fn cooldown_active(a: LiquidityStatsByAddr, now: u64) -> bool {
    a.cooldown_ends matches Some(ends) && now < ends
}

/// A pool with nothing in it.
pub open spec fn empty_pool() -> LiquidityStats {
    LiquidityStats {
        locked: number_of(0),
        unlocked: number_of(0),
        total_lp: number_of(0),
        total_xlp: number_of(0),
    }
}

/// Whether a deposit succeeds: the market's maximum liquidity allows it, the
/// provider can be brought up to date, the deposit is worth some LP, and the
/// totals stay in range.
pub open spec fn spec_deposit_ok(
    ledger: Seq<YieldPerToken>,
    now: u64,
    max: MaxLiquidity,
    price: PricePoint,
    pool: LiquidityStats,
    a: LiquidityStatsByAddr,
    amount: int,
) -> bool {
    &&& spec_max_liquidity_check(max, price, amount, pool) is Ok
    &&& match (spec_book_keeping(ledger, now, a), spec_collateral_to_lp(pool, amount)) {
        (Ok(b), Ok(shares)) => in_range(pool.total_lp@ + shares) && in_range(pool.unlocked@ + amount) && in_range(
            b.lp@ + shares,
        ),
        _ => false,
    }
}

/// The pool after a deposit of `amount` minting `shares`.
pub open spec fn spec_deposited_pool(pool: LiquidityStats, amount: int, shares: int) -> LiquidityStats {
    LiquidityStats { total_lp: number_of(pool.total_lp@ + shares), unlocked: number_of(pool.unlocked@ + amount), ..pool }
}

/// The provider, brought up to date as `b`, after a deposit minting
/// `shares`, with its cooldown started when asked.
pub open spec fn spec_deposited(
    b: LiquidityStatsByAddr,
    shares: int,
    now: u64,
    cooldown_seconds: u32,
    start_cooldown: bool,
) -> LiquidityStatsByAddr {
    LiquidityStatsByAddr {
        lp: number_of(b.lp@ + shares),
        cooldown_ends: if start_cooldown {
            Some((now + cooldown_seconds * NS_PER_SECOND) as u64)
        } else {
            b.cooldown_ends
        },
        ..b
    }
}

/// Whether a deposit, staked into xLP when asked, succeeds.
pub open spec fn spec_liquidity_deposit_ok(
    ledger: Seq<YieldPerToken>,
    now: u64,
    max: MaxLiquidity,
    cooldown_seconds: u32,
    price: PricePoint,
    pool: LiquidityStats,
    a: LiquidityStatsByAddr,
    amount: int,
    stake_to_xlp: bool,
) -> bool {
    &&& spec_deposit_ok(ledger, now, max, price, pool, a, amount)
    &&& (stake_to_xlp ==> match (spec_book_keeping(ledger, now, a), spec_collateral_to_lp(pool, amount)) {
        (Ok(b), Ok(shares)) => spec_stake_ok(
            ledger,
            now,
            spec_deposited_pool(pool, amount, shares),
            spec_deposited(b, shares, now, cooldown_seconds, false),
            Some(number_of(shares)),
        ),
        _ => false,
    })
}

/// Whether reinvesting yield succeeds: there is yield to claim, at least
/// the amount asked, and depositing it (then staking, when asked) succeeds.
pub open spec fn spec_reinvest_ok(
    ledger: Seq<YieldPerToken>,
    now: u64,
    max: MaxLiquidity,
    price: PricePoint,
    pool: LiquidityStats,
    a: LiquidityStatsByAddr,
    amount: Option<Number>,
    stake_to_xlp: bool,
) -> bool {
    &&& spec_claim_ok(ledger, now, a)
    &&& match spec_book_keeping(ledger, now, a) {
        Err(_) => false,
        Ok(b) => match spec_total_yield(b) {
            None => false,
            Some(y) => {
                let c = spec_claimed(b);
                let d = match amount {
                    Some(x) => x@,
                    None => y,
                };
                &&& d <= y
                &&& spec_liquidity_deposit_ok(ledger, now, max, 0, price, pool, c, d, stake_to_xlp)
            },
        },
    }
}

/// Whether a withdrawal succeeds: the provider can be brought up to date,
/// is out of its cooldown and holds LP, at least the amount asked; the
/// tokens are worth some collateral; the unlocked liquidity keeps what the
/// open interest needs; the totals stay in range; and a pool left without
/// tokens keeps no more than dust.
pub open spec fn spec_withdraw_ok(
    ledger: Seq<YieldPerToken>,
    now: u64,
    pool: LiquidityStats,
    a: LiquidityStatsByAddr,
    lp_amount: Option<Number>,
    net_notional: int,
    price: PricePoint,
    carry_leverage: int,
) -> bool {
    match spec_book_keeping(ledger, now, a) {
        Err(_) => false,
        Ok(b) => {
            let shares = match lp_amount {
                Some(x) => x@,
                None => b.lp@,
            };
            &&& !cooldown_active(b, now)
            &&& b.lp@ != 0
            &&& shares <= b.lp@
            &&& match (spec_lp_to_collateral(pool, shares), spec_min_unlocked_liquidity(net_notional, price, carry_leverage)) {
                (Ok(c), Ok(m)) => {
                    &&& c > 0
                    &&& in_range(c + m)
                    &&& c + m <= pool.unlocked@
                    &&& pool.total_lp@ - shares >= 0
                    &&& pool.unlocked@ - c >= 0
                    &&& in_range(pool.total_lp@ - shares + pool.total_xlp@)
                    &&& (pool.total_lp@ - shares + pool.total_xlp@ == 0 ==> in_range(pool.locked@ + pool.unlocked@ - c)
                        && approx_zero(pool.locked@ + pool.unlocked@ - c))
                },
                _ => false,
            }
        },
    }
}

/// Deposits `amount` collateral for a provider, after bringing the
/// provider's yield and unstaking up to date: mints the LP tokens that
/// [`spec_collateral_to_lp`] gives, adds the collateral to the unlocked
/// liquidity, and, when asked, starts the provider's liquidity cooldown.
/// Refused above the market's maximum liquidity. Returns the LP tokens
/// minted.
pub fn liquidity_deposit_inner(
    ledger: &YieldLedger,
    now: u64,
    max: MaxLiquidity,
    cooldown_seconds: u32,
    price: &PricePoint,
    pool: &mut LiquidityStats,
    a: &mut LiquidityStatsByAddr,
    amount: Number,
    start_cooldown: bool,
) -> (r: Result<Number, PerpError>)
    requires
        ledger.wf(),
        old(a).wf(),
        old(a).last_accrue_key < ledger@.len(),
        old(pool).wf(),
        amount@ > 0,
        start_cooldown ==> now + cooldown_seconds * NS_PER_SECOND <= u64::MAX,
    ensures
        r is Err ==> *final(a) == *old(a) && *final(pool) == *old(pool),
        spec_max_liquidity_check(max, *price, amount@, *old(pool)) matches Err(e) ==> r == Err::<Number, PerpError>(
            e,
        ),
        spec_collateral_to_lp(*old(pool), amount@) is Err ==> r is Err,
        r is Ok <==> spec_deposit_ok(ledger@, now, max, *price, *old(pool), *old(a), amount@),
        r matches Ok(shares) ==> (spec_book_keeping(ledger@, now, *old(a)) matches Ok(b) && *final(a) == spec_deposited(
            b,
            shares@,
            now,
            cooldown_seconds,
            start_cooldown,
        ) && *final(pool) == spec_deposited_pool(*old(pool), amount@, shares@)),
        r matches Ok(shares) ==> {
            &&& spec_max_liquidity_check(max, *price, amount@, *old(pool)) is Ok
            &&& spec_collateral_to_lp(*old(pool), amount@) == Ok::<int, PerpError>(shares@)
            &&& final(pool).wf()
            &&& final(pool).total_lp@ == old(pool).total_lp@ + shares@
            &&& final(pool).unlocked@ == old(pool).unlocked@ + amount@
            &&& final(pool).locked == old(pool).locked && final(pool).total_xlp == old(pool).total_xlp
            &&& final(a).wf() && final(a).last_accrue_key == ledger@.len() - 1
            &&& lp_claim(*final(a)) == lp_claim(*old(a)) + shares@ && final(a).xlp == old(a).xlp
            &&& final(a).crank_rewards == old(a).crank_rewards && final(a).referrer_rewards == old(a).referrer_rewards
            &&& (old(a).last_accrue_key == ledger@.len() - 1 ==> final(a).lp_accrued_yield == old(a).lp_accrued_yield
                && final(a).xlp_accrued_yield == old(a).xlp_accrued_yield)
            &&& final(a).cooldown_ends == if start_cooldown {
                Some((now + cooldown_seconds * NS_PER_SECOND) as u64)
            } else {
                old(a).cooldown_ends
            }
        },
{
    broadcast use crate::number::group_number_of;

    ensure_max_liquidity(max, price, &amount, pool)?;
    let mut b = *a;
    perform_lp_book_keeping(ledger, now, &mut b)?;
    let shares = collateral_to_lp(pool, &amount)?;
    proof {
        let c = pool.locked@ + pool.unlocked@;
        let t = pool.total_lp@ + pool.total_xlp@;
        if c != 0 {
            lemma_trunc_nonneg(t, amount@);
            lemma_trunc_nonneg(trunc_mul(t, amount@), c);
        }
    }
    let total_lp = lift(pool.total_lp.checked_add(&shares))?;
    let unlocked = lift(pool.unlocked.checked_add(&amount))?;
    let lp = lift(b.lp.checked_add(&shares))?;
    if start_cooldown {
        b.cooldown_ends = Some(now + (cooldown_seconds as u64) * NS_PER_SECOND);
    }
    b.lp = lp;
    *a = b;
    pool.total_lp = total_lp;
    pool.unlocked = unlocked;
    Ok(shares)
}

/// The refusal a withdrawal meets once the provider is brought up to date
/// as `b`, when it is one of those the provider can act on: the cooldown,
/// no LP, more asked than held, or too little unlocked liquidity left.
pub open spec fn spec_withdraw_refusal(
    b: LiquidityStatsByAddr,
    now: u64,
    pool: LiquidityStats,
    lp_amount: Option<Number>,
    net_notional: int,
    price: PricePoint,
    carry_leverage: int,
) -> Option<PerpError> {
    let shares = match lp_amount {
        Some(x) => x@,
        None => b.lp@,
    };
    if cooldown_active(b, now) {
        Some(
            PerpError::LiquidityCooldown {
                ends_at: b.cooldown_ends->Some_0,
                seconds_remaining: ((b.cooldown_ends->Some_0 - now) / 1_000_000_000) as u64,
            },
        )
    } else if b.lp@ == 0 {
        Some(PerpError::NoLiquidityDeposited)
    } else if shares > b.lp@ {
        Some(PerpError::WithdrawTooMuch { requested: lp_amount->Some_0, available: b.lp })
    } else {
        match (spec_lp_to_collateral(pool, shares), spec_min_unlocked_liquidity(net_notional, price, carry_leverage)) {
            (Ok(c), Ok(m)) => if c > 0 && in_range(c + m) && c + m > pool.unlocked@ && in_range(pool.unlocked@ - m) {
                Some(
                    PerpError::InsufficientLiquidityForWithdrawal {
                        requested_lp: number_of(shares),
                        requested_collateral: number_of(c),
                        unlocked: number_of(crate::number::max_int(pool.unlocked@ - m, 0)),
                    },
                )
            } else {
                None
            },
            _ => None,
        }
    }
}

/// Withdraws `lp_amount` LP tokens, or all of the provider's, after
/// bringing the provider up to date and outside the liquidity cooldown. The
/// tokens are burned and the collateral that [`spec_lp_to_collateral`]
/// gives leaves the unlocked liquidity, which must keep what the open
/// interest needs ([`spec_min_unlocked_liquidity`]). When no tokens are left
/// the pool is emptied, which only dust of collateral may be. Returns the
/// tokens burned and the collateral to send to the provider.
pub fn liquidity_withdraw(
    ledger: &YieldLedger,
    now: u64,
    pool: &mut LiquidityStats,
    a: &mut LiquidityStatsByAddr,
    lp_amount: Option<Number>,
    net_notional: Number,
    price: &PricePoint,
    carry_leverage: Number,
) -> (r: Result<(Number, Number), PerpError>)
    requires
        ledger.wf(),
        old(a).wf(),
        old(a).last_accrue_key < ledger@.len(),
        old(pool).wf(),
        lp_amount matches Some(x) ==> x@ > 0,
    ensures
        r is Err ==> *final(a) == *old(a) && *final(pool) == *old(pool),
        cooldown_active(*old(a), now) ==> r is Err,
        old(a).unstaking is None && old(a).lp@ == 0 ==> r is Err,
        (old(a).unstaking is None && (lp_amount matches Some(x) && x@ > old(a).lp@)) ==> r is Err,
        r is Ok <==> spec_withdraw_ok(ledger@, now, *old(pool), *old(a), lp_amount, net_notional@, *price, carry_leverage@),
        spec_book_keeping(ledger@, now, *old(a)) matches Ok(b) ==> match spec_withdraw_refusal(
            b,
            now,
            *old(pool),
            lp_amount,
            net_notional@,
            *price,
            carry_leverage@,
        ) {
            Some(e) => r == Err::<(Number, Number), PerpError>(e),
            None => true,
        },
        r matches Ok((shares, collateral)) ==> {
            &&& !cooldown_active(*old(a), now)
            &&& shares@ > 0 && (lp_amount matches Some(x) ==> shares == x)
            &&& (lp_amount is None ==> final(a).lp@ == 0)
            &&& spec_lp_to_collateral(*old(pool), shares@) == Ok::<int, PerpError>(collateral@) && collateral@ > 0
            &&& spec_min_unlocked_liquidity(net_notional@, *price, carry_leverage@) matches Ok(m)
                && collateral@ + m <= old(pool).unlocked@
            &&& final(a).wf() && final(a).last_accrue_key == ledger@.len() - 1
            &&& lp_claim(*final(a)) == lp_claim(*old(a)) - shares@ && final(a).xlp == old(a).xlp
            &&& final(pool).wf()
            &&& if old(pool).total_lp@ - shares@ + old(pool).total_xlp@ == 0 {
                &&& approx_zero(old(pool).locked@ + old(pool).unlocked@ - collateral@)
                &&& *final(pool) == empty_pool()
            } else {
                &&& final(pool).total_lp@ == old(pool).total_lp@ - shares@
                &&& final(pool).unlocked@ == old(pool).unlocked@ - collateral@
                &&& final(pool).locked == old(pool).locked && final(pool).total_xlp == old(pool).total_xlp
            }
        },
{
    broadcast use crate::number::group_number_of;

    let mut b = *a;
    perform_lp_book_keeping(ledger, now, &mut b)?;
    ensure_liquidity_cooldown(now, &b)?;
    if b.lp.is_zero() {
        return Err(PerpError::NoLiquidityDeposited);
    }
    let shares = match lp_amount {
        None => b.lp,
        Some(x) => {
            if b.lp.lt(&x) {
                return Err(PerpError::WithdrawTooMuch { requested: x, available: b.lp });
            }
            x
        },
    };
    let lp = lift(b.lp.checked_sub(&shares))?;
    let collateral = lp_to_collateral(pool, &shares)?;
    if !collateral.is_strictly_positive() {
        return Err(PerpError::ZeroWithdrawal);
    }
    let min_unlocked = min_unlocked_liquidity(net_notional, price, carry_leverage)?;
    let needed = lift(collateral.checked_add(&min_unlocked))?;
    if pool.unlocked.lt(&needed) {
        let left = lift(pool.unlocked.checked_sub(&min_unlocked))?;
        return Err(
            PerpError::InsufficientLiquidityForWithdrawal {
                requested_lp: shares,
                requested_collateral: collateral,
                unlocked: left.max(&Number::zero()),
            },
        );
    }
    let total_lp = lift(pool.total_lp.checked_sub(&shares))?;
    let unlocked = lift(pool.unlocked.checked_sub(&collateral))?;
    if total_lp.is_negative() || unlocked.is_negative() {
        return Err(PerpError::Arithmetic);
    }
    let tokens_left = lift(total_lp.checked_add(&pool.total_xlp))?;
    let next = if tokens_left.is_zero() {
        let collateral_left = lift(pool.locked.checked_add(&unlocked))?;
        if !crate::dnf::is_approx_zero(&collateral_left) {
            return Err(PerpError::CollateralLeftWithoutTokens);
        }
        LiquidityStats {
            locked: Number::zero(),
            unlocked: Number::zero(),
            total_lp: Number::zero(),
            total_xlp: Number::zero(),
        }
    } else {
        LiquidityStats { total_lp, unlocked, ..*pool }
    };
    b.lp = lp;
    *a = b;
    *pool = next;
    Ok((shares, collateral))
}

/// Deposits `amount` collateral for a provider and, when asked, stakes the
/// LP tokens minted into xLP; a deposit kept as LP starts the provider's
/// liquidity cooldown. Returns the tokens minted.
pub fn liquidity_deposit(
    ledger: &YieldLedger,
    now: u64,
    max: MaxLiquidity,
    cooldown_seconds: u32,
    price: &PricePoint,
    pool: &mut LiquidityStats,
    a: &mut LiquidityStatsByAddr,
    amount: Number,
    stake_to_xlp: bool,
) -> (r: Result<Number, PerpError>)
    requires
        ledger.wf(),
        old(a).wf(),
        old(a).last_accrue_key < ledger@.len(),
        old(pool).wf(),
        amount@ > 0,
        !stake_to_xlp ==> now + cooldown_seconds * NS_PER_SECOND <= u64::MAX,
    ensures
        r is Err ==> *final(a) == *old(a) && *final(pool) == *old(pool),
        spec_max_liquidity_check(max, *price, amount@, *old(pool)) matches Err(e) ==> r == Err::<Number, PerpError>(
            e,
        ),
        spec_collateral_to_lp(*old(pool), amount@) is Err ==> r is Err,
        r is Ok <==> spec_liquidity_deposit_ok(
            ledger@,
            now,
            max,
            cooldown_seconds,
            *price,
            *old(pool),
            *old(a),
            amount@,
            stake_to_xlp,
        ),
        r matches Ok(shares) ==> {
            &&& spec_collateral_to_lp(*old(pool), amount@) == Ok::<int, PerpError>(shares@)
            &&& final(pool).wf() && final(a).wf()
            &&& final(pool).unlocked@ == old(pool).unlocked@ + amount@ && final(pool).locked == old(pool).locked
            &&& if stake_to_xlp {
                &&& final(a).xlp@ == old(a).xlp@ + shares@ && lp_claim(*final(a)) == lp_claim(*old(a))
                &&& final(pool).total_xlp@ == old(pool).total_xlp@ + shares@
                &&& final(pool).total_lp@ == old(pool).total_lp@
                &&& final(a).cooldown_ends == old(a).cooldown_ends
            } else {
                &&& final(a).xlp == old(a).xlp && lp_claim(*final(a)) == lp_claim(*old(a)) + shares@
                &&& final(pool).total_lp@ == old(pool).total_lp@ + shares@
                &&& final(pool).total_xlp@ == old(pool).total_xlp@
                &&& final(a).cooldown_ends == Some((now + cooldown_seconds * NS_PER_SECOND) as u64)
            }
        },
{
    broadcast use crate::number::group_number_of;

    let mut p = *pool;
    let mut b = *a;
    let shares = liquidity_deposit_inner(ledger, now, max, cooldown_seconds, price, &mut p, &mut b, amount, !stake_to_xlp)?;
    if stake_to_xlp {
        liquidity_stake_lp(ledger, now, &mut p, &mut b, Some(shares))?;
    }
    *pool = p;
    *a = b;
    Ok(shares)
}

/// Reinvests a provider's yield: all of it is claimed; `amount` of it, or
/// all, is deposited as LP, and staked into xLP when asked; the rest is to
/// be sent to the provider. Fails when there is no yield or less than
/// `amount`. Returns the tokens minted and the collateral to send back.
pub fn reinvest_yield(
    ledger: &YieldLedger,
    now: u64,
    max: MaxLiquidity,
    price: &PricePoint,
    pool: &mut LiquidityStats,
    a: &mut LiquidityStatsByAddr,
    amount: Option<Number>,
    stake_to_xlp: bool,
) -> (r: Result<(Number, Number), PerpError>)
    requires
        ledger.wf(),
        old(a).wf(),
        old(a).last_accrue_key < ledger@.len(),
        old(pool).wf(),
        amount matches Some(x) ==> x@ > 0,
    ensures
        r is Err ==> *final(a) == *old(a) && *final(pool) == *old(pool),
        r is Ok <==> spec_reinvest_ok(ledger@, now, max, *price, *old(pool), *old(a), amount, stake_to_xlp),
        r matches Ok((shares, remainder)) ==> {
            let owed = old(a).lp_accrued_yield@ + old(a).xlp_accrued_yield@ + old(a).crank_rewards@
                + old(a).referrer_rewards@;
            &&& remainder@ >= 0
            &&& match amount {
                Some(x) => spec_collateral_to_lp(*old(pool), x@) == Ok::<int, PerpError>(shares@) && x@
                    + remainder@ >= owed && final(pool).unlocked@ == old(pool).unlocked@ + x@,
                None => remainder@ == 0 && exists|y: int|
                    y >= owed && #[trigger] spec_collateral_to_lp(*old(pool), y) == Ok::<int, PerpError>(shares@)
                        && final(pool).unlocked@ == old(pool).unlocked@ + y,
            }
            &&& final(a).wf() && final(pool).wf()
            &&& final(a).lp_accrued_yield@ == 0 && final(a).xlp_accrued_yield@ == 0
            &&& final(a).crank_rewards@ == 0 && final(a).referrer_rewards@ == 0
            &&& final(a).cooldown_ends == old(a).cooldown_ends
            &&& final(pool).locked == old(pool).locked
            &&& if stake_to_xlp {
                final(a).xlp@ == old(a).xlp@ + shares@ && lp_claim(*final(a)) == lp_claim(*old(a))
                    && final(pool).total_xlp@ == old(pool).total_xlp@ + shares@ && final(pool).total_lp@
                    == old(pool).total_lp@
            } else {
                final(a).xlp == old(a).xlp && lp_claim(*final(a)) == lp_claim(*old(a)) + shares@
                    && final(pool).total_lp@ == old(pool).total_lp@ + shares@ && final(pool).total_xlp@
                    == old(pool).total_xlp@
            }
        },
{
    broadcast use crate::number::group_number_of;

    let mut p = *pool;
    let mut b = *a;
    let claimed = liquidity_claim_yield(ledger, now, &mut b)?;
    let (to_deposit, remainder) = match amount {
        None => (claimed, Number::zero()),
        Some(x) => {
            let rest = lift(claimed.checked_sub(&x))?;
            if rest.is_negative() {
                return Err(PerpError::InsufficientForReinvest { requested: x, available: claimed });
            }
            (x, rest)
        },
    };
    let shares = liquidity_deposit_inner(ledger, now, max, 0, price, &mut p, &mut b, to_deposit, false)?;
    if stake_to_xlp {
        liquidity_stake_lp(ledger, now, &mut p, &mut b, Some(shares))?;
    }
    *pool = p;
    *a = b;
    Ok((shares, remainder))
}

/// Where a provider's unstaking stands.
#[derive(Clone, Copy, Debug, PartialEq, Eq, Structural)]
pub struct UnstakingStatus {
    /// When it started and when it ends, in nanoseconds.
    pub start: u64,
    pub end: u64,
    /// xLP being unstaked, and its worth in collateral.
    pub xlp_unstaking: Number,
    pub xlp_unstaking_collateral: Number,
    /// LP collected so far.
    pub collected: Number,
    /// LP unstaked and ready to collect.
    pub available: Number,
    /// LP still to unstake.
    pub pending: Number,
}

/// An active liquidity cooldown: when it ends, and the whole seconds left.
#[derive(Clone, Copy, Debug, PartialEq, Eq, Structural)]
pub struct LiquidityCooldown {
    pub at: u64,
    pub seconds: u64,
}

/// A provider's holdings, their worth in collateral, and the yield it can
/// claim, as of `now`.
#[derive(Clone, Copy, Debug, PartialEq, Eq, Structural)]
pub struct LpInfo {
    /// LP, counting what has unstaked but is not collected yet.
    pub lp_amount: Number,
    pub lp_collateral: Number,
    /// xLP, counting what is unstaking and has not unstaked yet.
    pub xlp_amount: Number,
    pub xlp_collateral: Number,
    /// All yield and rewards that can be claimed, and its parts.
    pub available_yield: Number,
    pub available_yield_lp: Number,
    pub available_yield_xlp: Number,
    pub available_crank_rewards: Number,
    pub available_referrer_rewards: Number,
    pub unstaking: Option<UnstakingStatus>,
    /// The end of the liquidity cooldown and the seconds left, if active.
    pub liquidity_cooldown: Option<LiquidityCooldown>,
}

/// Yield accrued since the provider's last accrual, nothing when up to date.
pub open spec fn spec_accrued_now(ledger: Seq<YieldPerToken>, a: LiquidityStatsByAddr) -> Option<(int, int)> {
    if a.last_accrue_key == ledger.len() - 1 {
        Some((0, 0))
    } else {
        spec_accrued(ledger, a.last_accrue_key as int, ledger.len() - 1, lp_claim(a), a.xlp@)
    }
}

/// LP and xLP held, and the unstaking status, from the LP unstaked and not
/// collected yet.
pub open spec fn spec_unstaking_view(
    pool: LiquidityStats,
    a: LiquidityStatsByAddr,
    u: UnstakingXlp,
    unstaked: int,
) -> Result<(int, int, UnstakingStatus), PerpError> {
    match (checked(a.lp@ + unstaked), checked(a.xlp@ + u.xlp_amount@)) {
        (Some(lp), Some(x1)) => match checked(x1 - u.collected@) {
            None => Err(PerpError::Arithmetic),
            Some(x2) => match checked(x2 - unstaked) {
                None => Err(PerpError::Arithmetic),
                Some(xlp) => match spec_lp_to_collateral(pool, u.xlp_amount@) {
                    Err(e) => Err(e),
                    Ok(worth) => match checked(u.xlp_amount@ - unstaked) {
                        None => Err(PerpError::Arithmetic),
                        Some(p1) => match checked(p1 - u.collected@) {
                            None => Err(PerpError::Arithmetic),
                            Some(pending) => Ok(
                                (
                                    lp,
                                    xlp,
                                    UnstakingStatus {
                                        start: u.unstake_started,
                                        end: (u.unstake_started + u.unstake_duration) as u64,
                                        xlp_unstaking: u.xlp_amount,
                                        xlp_unstaking_collateral: number_of(worth),
                                        collected: u.collected,
                                        available: number_of(unstaked),
                                        pending: number_of(pending),
                                    },
                                ),
                            ),
                        },
                    },
                },
            },
        },
        _ => Err(PerpError::Arithmetic),
    }
}

/// The provider's information: yield owed plus what accrued since its last
/// accrual; holdings counting an unstaking as far as it has gone, all zero
/// when the pool holds no collateral; each valued by
/// [`spec_lp_to_collateral`].
pub open spec fn spec_lp_info(ledger: Seq<YieldPerToken>, now: u64, pool: LiquidityStats, a: LiquidityStatsByAddr) -> Result<
    LpInfo,
    PerpError,
> {
    match spec_accrued_now(ledger, a) {
        None => Err(PerpError::Arithmetic),
        Some((l, x)) => match (checked(a.lp_accrued_yield@ + l), checked(a.xlp_accrued_yield@ + x)) {
            (Some(yl), Some(yx)) => match checked(yl + yx) {
                None => Err(PerpError::Arithmetic),
                Some(y1) => match checked(y1 + a.crank_rewards@) {
                    None => Err(PerpError::Arithmetic),
                    Some(y2) => match checked(y2 + a.referrer_rewards@) {
                        None => Err(PerpError::Arithmetic),
                        Some(total) => {
                            let held: Result<(int, int, Option<UnstakingStatus>), PerpError> = match a.unstaking {
                                None => Ok((a.lp@, a.xlp@, None)),
                                Some(u) => match spec_unstaked_lp(now, u) {
                                    Err(e) => Err(e),
                                    Ok(unstaked) => match spec_unstaking_view(pool, a, u, unstaked) {
                                        Err(e) => Err(e),
                                        Ok((lp, xlp, st)) => Ok((lp, xlp, Some(st))),
                                    },
                                },
                            };
                            match (held, pool_collateral(pool)) {
                                (Err(e), _) => Err(e),
                                (Ok(_), None) => Err(PerpError::Arithmetic),
                                (Ok((lp0, xlp0, st0)), Some(c)) => {
                                    let (lp, xlp, st) = if c == 0 {
                                        (0, 0, None)
                                    } else {
                                        (lp0, xlp0, st0)
                                    };
                                    match (spec_lp_to_collateral(pool, lp), spec_lp_to_collateral(pool, xlp)) {
                                        (Err(e), _) => Err(e),
                                        (Ok(_), Err(e)) => Err(e),
                                        (Ok(lc), Ok(xc)) => Ok(
                                            LpInfo {
                                                lp_amount: number_of(lp),
                                                lp_collateral: number_of(lc),
                                                xlp_amount: number_of(xlp),
                                                xlp_collateral: number_of(xc),
                                                available_yield: number_of(total),
                                                available_yield_lp: number_of(yl),
                                                available_yield_xlp: number_of(yx),
                                                available_crank_rewards: a.crank_rewards,
                                                available_referrer_rewards: a.referrer_rewards,
                                                unstaking: st,
                                                liquidity_cooldown: match a.cooldown_ends {
                                                    Some(ends) => if ends <= now {
                                                        None
                                                    } else {
                                                        Some(LiquidityCooldown { at: ends, seconds: ((ends - now) / 1_000_000_000) as u64 })
                                                    },
                                                    None => None,
                                                },
                                            },
                                        ),
                                    }
                                },
                            }
                        },
                    },
                },
            },
            _ => Err(PerpError::Arithmetic),
        },
    }
}

fn unstaking_view(pool: &LiquidityStats, a: &LiquidityStatsByAddr, u: &UnstakingXlp, unstaked: Number) -> (r: Result<
    (Number, Number, UnstakingStatus),
    PerpError,
>)
    requires
        u.unstake_started + u.unstake_duration <= u64::MAX,
    ensures
        match spec_unstaking_view(*pool, *a, *u, unstaked@) {
            Ok((lp, xlp, st)) => r matches Ok((l, x, t)) && l@ == lp && x@ == xlp && t == st,
            Err(e) => r == Err::<(Number, Number, UnstakingStatus), PerpError>(e),
        },
{
    broadcast use crate::number::group_number_of;

    let lp = lift(a.lp.checked_add(&unstaked))?;
    let x1 = lift(a.xlp.checked_add(&u.xlp_amount))?;
    let x2 = lift(x1.checked_sub(&u.collected))?;
    let xlp = lift(x2.checked_sub(&unstaked))?;
    let worth = lp_to_collateral(pool, &u.xlp_amount)?;
    let p1 = lift(u.xlp_amount.checked_sub(&unstaked))?;
    let pending = lift(p1.checked_sub(&u.collected))?;
    Ok(
        (
            lp,
            xlp,
            UnstakingStatus {
                start: u.unstake_started,
                end: u.unstake_started + u.unstake_duration,
                xlp_unstaking: u.xlp_amount,
                xlp_unstaking_collateral: worth,
                collected: u.collected,
                available: unstaked,
                pending,
            },
        ),
    )
}

/// A provider's holdings, their worth and its claimable yield at `now`.
pub fn lp_info(ledger: &YieldLedger, now: u64, pool: &LiquidityStats, a: &LiquidityStatsByAddr) -> (r: Result<
    LpInfo,
    PerpError,
>)
    requires
        ledger.wf(),
        a.wf(),
        a.last_accrue_key < ledger@.len(),
        a.unstaking matches Some(u) ==> u.unstake_started + u.unstake_duration <= u64::MAX,
    ensures
        r == spec_lp_info(ledger@, now, *pool, *a),
{
    broadcast use crate::number::group_number_of;

    let liquidity_cooldown = match get_liquidity_cooldown(now, a) {
        Some((at, seconds)) => Some(LiquidityCooldown { at, seconds }),
        None => None,
    };
    let accrued = match calculate_accrued_yield(ledger, a)? {
        None => (Number::zero(), Number::zero()),
        Some((_, y)) => (y.lp, y.xlp),
    };
    let yl = lift(a.lp_accrued_yield.checked_add(&accrued.0))?;
    let yx = lift(a.xlp_accrued_yield.checked_add(&accrued.1))?;
    let y1 = lift(yl.checked_add(&yx))?;
    let y2 = lift(y1.checked_add(&a.crank_rewards))?;
    let total = lift(y2.checked_add(&a.referrer_rewards))?;
    let (lp0, xlp0, st0) = match a.unstaking {
        None => (a.lp, a.xlp, None),
        Some(u) => {
            let unstaked = calculate_unstaked_lp(now, &u)?;
            let (lp, xlp, st) = unstaking_view(pool, a, &u, unstaked)?;
            (lp, xlp, Some(st))
        },
    };
    let c = lift(pool.locked.checked_add(&pool.unlocked))?;
    let (lp, xlp, unstaking) = if c.is_zero() {
        (Number::zero(), Number::zero(), None)
    } else {
        (lp0, xlp0, st0)
    };
    let lp_collateral = lp_to_collateral(pool, &lp)?;
    let xlp_collateral = lp_to_collateral(pool, &xlp)?;
    Ok(
        LpInfo {
            lp_amount: lp,
            lp_collateral,
            xlp_amount: xlp,
            xlp_collateral,
            available_yield: total,
            available_yield_lp: yl,
            available_yield_xlp: yx,
            available_crank_rewards: a.crank_rewards,
            available_referrer_rewards: a.referrer_rewards,
            unstaking,
            liquidity_cooldown,
        },
    )
}

/// Floor division bounds, for nonnegative `a` and positive `b`.
proof fn lemma_floor_div(a: int, b: int)
    requires
        a >= 0,
        b > 0,
    ensures
        (a / b) * b <= a < (a / b) * b + b,
        a / b >= 0,
{
    assert((a / b) * b <= a < (a / b) * b + b && a / b >= 0) by (nonlinear_arith)
        requires
            a >= 0,
            b > 0,
    ;
}

/// A product scaled down, then divided up: `floor(floor(x * y / S) * S / z)`
/// times `z` is at most `x * y`, and when `z` is at least `S` it falls short
/// of `x * y / z * z` by less than two `z`.
proof fn lemma_mul_then_div(x: int, y: int, z: int)
    requires
        x >= 0,
        y >= 0,
        z > 0,
    ensures
        trunc_div(trunc_mul(x, y), z) >= 0,
        trunc_div(trunc_mul(x, y), z) * z <= x * y,
        z >= scale() ==> x * y < (trunc_div(trunc_mul(x, y), z) + 2) * z,
{
    let sc = scale();
    assert(x * y >= 0) by (nonlinear_arith)
        requires
            x >= 0,
            y >= 0,
    ;
    lemma_floor_div(x * y, sc);
    let m = x * y / sc;
    assert(trunc_mul(x, y) == m);
    assert(m * sc >= 0) by (nonlinear_arith)
        requires
            m >= 0,
            sc > 0,
    ;
    lemma_floor_div(m * sc, z);
    let v = m * sc / z;
    assert(trunc_div(m, z) == v);
    assert(v * z <= x * y) by (nonlinear_arith)
        requires
            v * z <= m * sc,
            m * sc <= x * y,
    ;
    if z >= sc {
        assert(x * y < (v + 2) * z) by (nonlinear_arith)
            requires
                x * y < m * sc + sc,
                m * sc < v * z + z,
                z >= sc,
        ;
    }
}

/// The first deposit into an empty pool mints one LP token per unit of
/// collateral.
pub proof fn lemma_first_deposit_one_to_one(s: LiquidityStats, amount: int)
    requires
        s.wf(),
        s.locked@ == 0 && s.unlocked@ == 0 && s.total_lp@ == 0 && s.total_xlp@ == 0,
        amount > 0,
    ensures
        spec_collateral_to_lp(s, amount) == Ok::<int, PerpError>(amount),
{
}

/// Rounding favours the pool on a deposit: the tokens minted are at most
/// the deposit's exact share, `shares / tokens <= amount / collateral`, so
/// a deposit never lowers the value of the tokens already out.
pub proof fn lemma_deposit_never_dilutes(s: LiquidityStats, amount: int)
    requires
        s.wf(),
        amount > 0,
        pool_collateral(s) matches Some(c) && c > 0,
        spec_collateral_to_lp(s, amount) is Ok,
    ensures
        spec_collateral_to_lp(s, amount) matches Ok(shares) && shares * (s.locked@ + s.unlocked@) <= amount * (
        s.total_lp@ + s.total_xlp@),
{
    let c = s.locked@ + s.unlocked@;
    let t = s.total_lp@ + s.total_xlp@;
    lemma_mul_then_div(t, amount, c);
    assert(t * amount == amount * t) by (nonlinear_arith);
}

/// Rounding favours the pool on a withdrawal: tokens are paid at most their
/// exact share of the collateral, `collateral / lp <= pool collateral /
/// tokens`.
pub proof fn lemma_withdrawal_never_overpays(s: LiquidityStats, lp: int)
    requires
        s.wf(),
        lp >= 0,
        spec_lp_to_collateral(s, lp) is Ok,
    ensures
        spec_lp_to_collateral(s, lp) matches Ok(v) && v * (s.total_lp@ + s.total_xlp@) <= lp * (s.locked@
            + s.unlocked@),
{
    let c = s.locked@ + s.unlocked@;
    let t = s.total_lp@ + s.total_xlp@;
    if lp != 0 {
        lemma_mul_then_div(c, lp, t);
        assert(c * lp == lp * c) by (nonlinear_arith);
        assert(trunc_div(trunc_mul(c, lp), t) * t <= lp * c);
    } else {
        assert(0 * t == 0);
    }
}

/// All of a pool's tokens are worth all of its collateral, but for at most
/// one atom lost to rounding, when there is at least one whole token.
pub proof fn lemma_all_tokens_worth_all_collateral(s: LiquidityStats)
    requires
        s.wf(),
        pool_collateral(s) matches Some(c) && c > 0,
        pool_tokens(s) matches Some(t) && t >= scale(),
        spec_lp_to_collateral(s, s.total_lp@ + s.total_xlp@) is Ok,
    ensures
        spec_lp_to_collateral(s, s.total_lp@ + s.total_xlp@) matches Ok(v) && s.locked@ + s.unlocked@ - 1 <= v
            <= s.locked@ + s.unlocked@,
{
    let c = s.locked@ + s.unlocked@;
    let t = s.total_lp@ + s.total_xlp@;
    lemma_mul_then_div(c, t, t);
    let v = trunc_div(trunc_mul(c, t), t);
    assert(c - 1 <= v <= c) by (nonlinear_arith)
        requires
            v * t <= c * t,
            c * t < (v + 2) * t,
            t > 0,
    ;
}

/// A deposit of at least one unit into an empty pool, withdrawn whole,
/// gives the deposit back but for at most one atom lost to rounding (left
/// in the pool as dust).
pub proof fn lemma_deposit_then_withdraw_all(s: LiquidityStats, amount: int)
    requires
        s.wf(),
        s.locked@ == 0 && s.unlocked@ == 0 && s.total_lp@ == 0 && s.total_xlp@ == 0,
        scale() <= amount <= crate::number::max_atoms(),
        spec_lp_to_collateral(LiquidityStats { unlocked: number_of(amount), total_lp: number_of(amount), ..s }, amount)
            is Ok,
    ensures
        spec_collateral_to_lp(s, amount) == Ok::<int, PerpError>(amount),
        spec_lp_to_collateral(LiquidityStats { unlocked: number_of(amount), total_lp: number_of(amount), ..s }, amount)
            matches Ok(v) && amount - 1 <= v <= amount,
{
    broadcast use crate::number::group_number_of;

    let after = LiquidityStats { unlocked: number_of(amount), total_lp: number_of(amount), ..s };
    lemma_all_tokens_worth_all_collateral(after);
}

} // verus!
