//! Liquidity provider accounting: yield per token, accrued yield, and the
//! staking of LP into xLP and the gradual unstaking back.
use crate::error::PerpError;
use crate::funding::{LiquidityStats, LpAndXlp};
use crate::number::{checked, in_range, lemma_trunc_nonneg, number_of, scale, trunc_div, trunc_mul, Number};
use vstd::prelude::*;

verus! {

/// Yield allocated per LP and xLP token, as running sums.
#[derive(Clone, Copy, Debug, PartialEq, Eq, Structural)]
pub struct YieldPerToken {
    pub lp: Number,
    pub xlp: Number,
}

/// The running sums of yield per token, by index; index 0 is all zero.
#[derive(Debug)]
pub struct YieldLedger {
    entries: Vec<YieldPerToken>,
}

impl View for YieldLedger {
    type V = Seq<YieldPerToken>;

    closed spec fn view(&self) -> Seq<YieldPerToken> {
        self.entries@
    }
}

/// An xLP unstaking in progress: `xlp_amount` turns back into LP linearly
/// over `unstake_duration` nanoseconds from `unstake_started`.
#[derive(Clone, Copy, Debug, PartialEq, Eq, Structural)]
pub struct UnstakingXlp {
    pub xlp_amount: Number,
    /// LP already collected.
    pub collected: Number,
    pub unstake_started: u64,
    pub unstake_duration: u64,
    pub last_collected: u64,
}

/// A liquidity provider's holdings and pending yield.
#[derive(Clone, Copy, Debug, PartialEq, Eq, Structural)]
pub struct LiquidityStatsByAddr {
    pub lp: Number,
    pub xlp: Number,
    /// Ledger index up to which yield has been accrued.
    pub last_accrue_key: u64,
    pub lp_accrued_yield: Number,
    pub xlp_accrued_yield: Number,
    pub crank_rewards: Number,
    pub referrer_rewards: Number,
    pub unstaking: Option<UnstakingXlp>,
    /// When the liquidity cooldown ends, if one is active.
    pub cooldown_ends: Option<u64>,
}

/// LP still to come from an unstaking.
pub open spec fn unstaking_remaining(u: Option<UnstakingXlp>) -> int {
    match u {
        Some(u) => u.xlp_amount@ - u.collected@,
        None => 0,
    }
}

/// The LP a provider counts for in the pool's totals: what it holds plus
/// what is still unstaking.
pub open spec fn lp_claim(a: LiquidityStatsByAddr) -> int {
    a.lp@ + unstaking_remaining(a.unstaking)
}

impl UnstakingXlp {
    /// Nothing more than was unstaked is collected, and collection never
    /// runs ahead of time: `collected / xlp_amount` is at most the share of
    /// the duration elapsed at the last collection.
    pub open spec fn wf(&self) -> bool {
        &&& self.xlp_amount@ > 0
        &&& 0 <= self.collected@ <= self.xlp_amount@
        &&& self.unstake_started <= self.last_collected
        &&& (self.last_collected - self.unstake_started < self.unstake_duration ==> self.collected@
            * self.unstake_duration <= self.xlp_amount@ * (self.last_collected - self.unstake_started))
    }
}

impl LiquidityStatsByAddr {
    pub open spec fn wf(&self) -> bool {
        &&& self.lp@ >= 0
        &&& self.xlp@ >= 0
        &&& self.lp_accrued_yield@ >= 0
        &&& self.xlp_accrued_yield@ >= 0
        &&& self.crank_rewards@ >= 0
        &&& self.referrer_rewards@ >= 0
        &&& (self.unstaking matches Some(u) ==> u.wf() && u.collected@ < u.xlp_amount@)
    }

    /// A provider with nothing, accruing from the ledger's latest index.
    pub fn new(ledger: &YieldLedger) -> (r: LiquidityStatsByAddr)
        requires
            ledger.wf(),
        ensures
            r.wf(),
            r.last_accrue_key == ledger@.len() - 1,
            r.lp@ == 0 && r.xlp@ == 0 && r.unstaking is None && r.cooldown_ends is None,
            r.lp_accrued_yield@ == 0 && r.xlp_accrued_yield@ == 0 && r.crank_rewards@ == 0 && r.referrer_rewards@ == 0,
    {
        let (key, _) = ledger.latest();
        LiquidityStatsByAddr {
            lp: Number::zero(),
            xlp: Number::zero(),
            last_accrue_key: key,
            lp_accrued_yield: Number::zero(),
            xlp_accrued_yield: Number::zero(),
            crank_rewards: Number::zero(),
            referrer_rewards: Number::zero(),
            unstaking: None,
            cooldown_ends: None,
        }
    }

    /// Whether the provider holds and is owed nothing.
    pub fn is_empty(&self) -> (r: bool)
        ensures
            r == (self.lp@ == 0 && self.xlp@ == 0 && self.unstaking is None && self.lp_accrued_yield@ == 0
                && self.xlp_accrued_yield@ == 0 && self.crank_rewards@ == 0 && self.referrer_rewards@ == 0),
    {
        self.lp.is_zero() && self.xlp.is_zero() && self.unstaking.is_none() && self.lp_accrued_yield.is_zero()
            && self.xlp_accrued_yield.is_zero() && self.crank_rewards.is_zero() && self.referrer_rewards.is_zero()
    }

    /// All the yield and rewards owed.
    pub fn total_yield(&self) -> (r: Option<Number>)
        requires
            self.wf(),
        ensures
            match checked(
                self.lp_accrued_yield@ + self.xlp_accrued_yield@ + self.crank_rewards@ + self.referrer_rewards@,
            ) {
                Some(v) => r matches Some(x) && x@ == v,
                None => r is None,
            },
    {
        self.lp_accrued_yield.range_fact();
        self.xlp_accrued_yield.range_fact();
        self.crank_rewards.range_fact();
        self.referrer_rewards.range_fact();
        match self.lp_accrued_yield.checked_add(&self.xlp_accrued_yield) {
            None => None,
            Some(a) => match a.checked_add(&self.crank_rewards) {
                None => None,
                Some(b) => b.checked_add(&self.referrer_rewards),
            },
        }
    }
}

fn lift(o: Option<Number>) -> (r: Result<Number, PerpError>)
    ensures
        match o {
            Some(v) => r == Ok::<Number, PerpError>(v),
            None => r == Err::<Number, PerpError>(PerpError::Arithmetic),
        },
{
    match o {
        Some(v) => Ok(v),
        None => Err(PerpError::Arithmetic),
    }
}

/// Yield per token for `amount` spread over `total` tokens (none when
/// there are no tokens).
pub open spec fn spec_per_token(amount: int, total: int) -> Option<int> {
    if total == 0 {
        Some(0)
    } else {
        checked(trunc_div(amount, total))
    }
}

/// The yield accrued from index `start` to `end` of the ledger on `lp` LP
/// and `xlp` xLP tokens.
pub open spec fn spec_accrued(ledger: Seq<YieldPerToken>, start: int, end: int, lp: int, xlp: int) -> Option<(int, int)> {
    let dl = ledger[end].lp@ - ledger[start].lp@;
    let dx = ledger[end].xlp@ - ledger[start].xlp@;
    if !in_range(dl) || !in_range(dx) || !in_range(lp) {
        None
    } else {
        match (checked(trunc_mul(dl, lp)), checked(trunc_mul(dx, xlp))) {
            (Some(a), Some(b)) => Some((a, b)),
            _ => None,
        }
    }
}

impl YieldLedger {
    /// Starts at zero and never decreases.
    pub open spec fn wf(&self) -> bool {
        &&& 1 <= self@.len() < u64::MAX
        &&& self@[0].lp@ == 0 && self@[0].xlp@ == 0
        &&& forall|i: int, j: int| 0 <= i <= j < self@.len() ==> self@[i].lp@ <= self@[j].lp@ && self@[i].xlp@ <= self@[j].xlp@
    }

    /// A ledger with the zero entry only.
    pub fn yield_init() -> (r: YieldLedger)
        ensures
            r.wf(),
            r@.len() == 1,
            r@[0].lp@ == 0 && r@[0].xlp@ == 0,
    {
        let mut entries = Vec::new();
        entries.push(YieldPerToken { lp: Number::zero(), xlp: Number::zero() });
        YieldLedger { entries }
    }

    /// The latest index and its sums.
    pub fn latest(&self) -> (r: (u64, YieldPerToken))
        requires
            self.wf(),
        ensures
            r.0 == self@.len() - 1,
            r.1 == self@[self@.len() - 1],
    {
        let n = self.entries.len();
        ((n - 1) as u64, self.entries[n - 1])
    }

    /// The sums at an index.
    pub fn get(&self, index: u64) -> (r: YieldPerToken)
        requires
            index < self@.len(),
        ensures
            r == self@[index as int],
    {
        let _len = self.entries.len();
        self.entries[index as usize]
    }

    /// The next entry for new yield: each part spread over the tokens of
    /// its kind and added to the latest sums.
    pub fn liquidity_process_new_yield(&self, total_lp: Number, total_xlp: Number, new_yield: LpAndXlp) -> (r: Result<
        YieldPerToken,
        PerpError,
    >)
        requires
            self.wf(),
        ensures
            ({
                let last = self@[self@.len() - 1];
                match (spec_per_token(new_yield.lp@, total_lp@), spec_per_token(new_yield.xlp@, total_xlp@)) {
                    (Some(pl), Some(px)) => match (checked(last.lp@ + pl), checked(last.xlp@ + px)) {
                        (Some(l), Some(x)) => r matches Ok(y) && y.lp@ == l && y.xlp@ == x,
                        _ => r == Err::<YieldPerToken, PerpError>(PerpError::Arithmetic),
                    },
                    _ => r == Err::<YieldPerToken, PerpError>(PerpError::Arithmetic),
                }
            }),
    {
        let lp_per = if total_lp.is_zero() {
            Number::zero()
        } else {
            lift(new_yield.lp.checked_div(&total_lp))?
        };
        let xlp_per = if total_xlp.is_zero() {
            Number::zero()
        } else {
            lift(new_yield.xlp.checked_div(&total_xlp))?
        };
        let (_, last) = self.latest();
        let lp = lift(last.lp.checked_add(&lp_per))?;
        let xlp = lift(last.xlp.checked_add(&xlp_per))?;
        Ok(YieldPerToken { lp, xlp })
    }

    /// Records the next entry.
    pub fn apply_new_yield(&mut self, entry: YieldPerToken)
        requires
            old(self).wf(),
            old(self)@.len() + 1 < u64::MAX,
            old(self)@[old(self)@.len() - 1].lp@ <= entry.lp@,
            old(self)@[old(self)@.len() - 1].xlp@ <= entry.xlp@,
        ensures
            final(self).wf(),
            final(self)@ == old(self)@.push(entry),
    {
        let ghost before = self.entries@;
        self.entries.push(entry);
        proof {
            assert forall|i: int, j: int| 0 <= i <= j < self@.len() implies self@[i].lp@ <= self@[j].lp@
                && self@[i].xlp@ <= self@[j].xlp@ by {
                if j == before.len() {
                    if i < j {
                        assert(before[i].lp@ <= before[before.len() - 1].lp@);
                        assert(before[i].xlp@ <= before[before.len() - 1].xlp@);
                    }
                }
            }
        }
    }
}

/// Yield accrued by a provider since its last accrual, and the index it
/// accrues to; `None` when it is up to date.
pub fn calculate_accrued_yield(ledger: &YieldLedger, a: &LiquidityStatsByAddr) -> (r: Result<Option<(u64, LpAndXlp)>, PerpError>)
    requires
        ledger.wf(),
        a.wf(),
        a.last_accrue_key < ledger@.len(),
    ensures
        a.last_accrue_key == ledger@.len() - 1 ==> r == Ok::<Option<(u64, LpAndXlp)>, PerpError>(None),
        a.last_accrue_key < ledger@.len() - 1 ==> match spec_accrued(
            ledger@,
            a.last_accrue_key as int,
            ledger@.len() - 1,
            lp_claim(*a),
            a.xlp@,
        ) {
            Some((l, x)) => r matches Ok(Some((k, y))) && k == ledger@.len() - 1 && y.lp@ == l && y.xlp@ == x,
            None => r == Err::<Option<(u64, LpAndXlp)>, PerpError>(PerpError::Arithmetic),
        },
{
    let (end_index, end_yield) = ledger.latest();
    if end_index == a.last_accrue_key {
        return Ok(None);
    }
    let start_yield = ledger.get(a.last_accrue_key);
    a.lp.range_fact();
    let lp_amount = match a.unstaking {
        Some(u) => {
            u.xlp_amount.range_fact();
            u.collected.range_fact();
            let remaining = lift(u.xlp_amount.checked_sub(&u.collected))?;
            lift(a.lp.checked_add(&remaining))?
        },
        None => a.lp,
    };
    let dl = lift(end_yield.lp.checked_sub(&start_yield.lp))?;
    let lp = lift(dl.checked_mul(&lp_amount))?;
    let dx = lift(end_yield.xlp.checked_sub(&start_yield.xlp))?;
    let xlp = lift(dx.checked_mul(&a.xlp))?;
    Ok(Some((end_index, LpAndXlp { lp, xlp })))
}

/// LP that has unstaked since the last collection: the rest when the
/// duration is over, else the elapsed share of the duration since the last
/// collection times the amount unstaking.
pub open spec fn spec_unstaked_lp(now: u64, u: UnstakingXlp) -> Result<int, PerpError> {
    if now < u.unstake_started {
        Err(PerpError::TimeWentBackwards)
    } else if now - u.unstake_started >= u.unstake_duration {
        match checked(u.xlp_amount@ - u.collected@) {
            None => Err(PerpError::Arithmetic),
            Some(v) => if v < 0 {
                Err(PerpError::NegativeAmount)
            } else {
                Ok(v)
            },
        }
    } else if now < u.last_collected {
        Err(PerpError::TimeWentBackwards)
    } else {
        let ratio = trunc_div((now - u.last_collected) * scale(), u.unstake_duration * scale());
        if !in_range(ratio) {
            Err(PerpError::Arithmetic)
        } else {
            match checked(trunc_mul(ratio, u.xlp_amount@)) {
                None => Err(PerpError::Arithmetic),
                Some(v) => if v < 0 {
                    Err(PerpError::NegativeAmount)
                } else {
                    Ok(v)
                },
            }
        }
    }
}

/// Over the duration, unstaking hands out at most what was unstaked: the
/// LP unstaked since the last collection, added to what was collected,
/// stays within the amount, and the collection stays on schedule.
pub proof fn lemma_unstaking_within_amount(now: u64, u: UnstakingXlp)
    requires
        u.wf(),
        spec_unstaked_lp(now, u) is Ok,
    ensures
        ({
            let amount = spec_unstaked_lp(now, u)->Ok_0;
            &&& 0 <= amount
            &&& u.collected@ + amount <= u.xlp_amount@
            &&& now - u.unstake_started < u.unstake_duration ==> (u.collected@ + amount) * u.unstake_duration
                <= u.xlp_amount@ * (now - u.unstake_started)
        }),
{
    if now - u.unstake_started < u.unstake_duration {
        let e: int = now - u.last_collected;
        let d: int = u.unstake_duration as int;
        let s = scale();
        let x = u.xlp_amount@;
        let c = u.collected@;
        let elapsed: int = u.last_collected - u.unstake_started;
        assert(d > 0);
        assert(e >= 0);
        let a = e * s;
        let b = d * s;
        assert(a >= 0 && b > 0) by (nonlinear_arith)
            requires
                e >= 0,
                d > 0,
                s > 0,
                a == e * s,
                b == d * s,
        ;
        let q = a * s / b;
        assert(trunc_div(a, b) == q);
        vstd::arithmetic::div_mod::lemma_fundamental_div_mod(a * s, b);
        vstd::arithmetic::div_mod::lemma_mod_pos_bound(a * s, b);
        assert(a * s >= 0) by (nonlinear_arith)
            requires
                a >= 0,
                s > 0,
        ;
        assert(q >= 0) by (nonlinear_arith)
            requires
                a * s >= 0,
                b > 0,
                q == a * s / b,
        ;
        assert(q * d <= e * s) by (nonlinear_arith)
            requires
                a * s == b * q + (a * s) % b,
                (a * s) % b >= 0,
                a == e * s,
                b == d * s,
                s > 0,
        ;
        let m = q * x / s;
        assert(trunc_mul(q, x) == m);
        vstd::arithmetic::div_mod::lemma_fundamental_div_mod(q * x, s);
        vstd::arithmetic::div_mod::lemma_mod_pos_bound(q * x, s);
        assert(q * x >= 0) by (nonlinear_arith)
            requires
                q >= 0,
                x > 0,
        ;
        assert(m * d <= e * x) by (nonlinear_arith)
            requires
                q * x == s * m + (q * x) % s,
                (q * x) % s >= 0,
                q * d <= e * s,
                s > 0,
                d > 0,
                x > 0,
                q >= 0,
        ;
        assert((c + m) * d <= x * (now - u.unstake_started)) by (nonlinear_arith)
            requires
                c * d <= x * elapsed,
                m * d <= e * x,
                elapsed + e == now - u.unstake_started,
                elapsed < d,
                elapsed >= 0,
        ;
        assert(c + m <= x) by (nonlinear_arith)
            requires
                (c + m) * d <= x * (now - u.unstake_started),
                now - u.unstake_started < d,
                x > 0,
                d > 0,
        ;
    }
}

/// LP that has unstaked since the last collection.
pub fn calculate_unstaked_lp(now: u64, u: &UnstakingXlp) -> (r: Result<Number, PerpError>)
    ensures
        match spec_unstaked_lp(now, *u) {
            Ok(v) => r matches Ok(x) && x@ == v,
            Err(e) => r == Err::<Number, PerpError>(e),
        },
{
    if now < u.unstake_started {
        return Err(PerpError::TimeWentBackwards);
    }
    let amount = if now - u.unstake_started >= u.unstake_duration {
        u.xlp_amount.range_fact();
        u.collected.range_fact();
        lift(u.xlp_amount.checked_sub(&u.collected))?
    } else {
        if now < u.last_collected {
            return Err(PerpError::TimeWentBackwards);
        }
        let elapsed = Number::from_u64(now - u.last_collected);
        let duration = Number::from_u64(u.unstake_duration);
        let ratio = lift(elapsed.checked_div(&duration))?;
        lift(ratio.checked_mul(&u.xlp_amount))?
    };
    if amount.is_negative() {
        return Err(PerpError::NegativeAmount);
    }
    Ok(amount)
}

/// The provider after accruing: yields added, accrual index at the end;
/// nothing else changes.
pub open spec fn accrued_to(before: LiquidityStatsByAddr, after: LiquidityStatsByAddr, ledger: Seq<YieldPerToken>) -> bool {
    &&& after.last_accrue_key == ledger.len() - 1
    &&& (before.last_accrue_key < ledger.len() - 1 ==> (spec_accrued(
        ledger,
        before.last_accrue_key as int,
        ledger.len() - 1,
        lp_claim(before),
        before.xlp@,
    ) matches Some((l, x)) && after.lp_accrued_yield@ == before.lp_accrued_yield@ + l && after.xlp_accrued_yield@
        == before.xlp_accrued_yield@ + x))
    &&& (before.last_accrue_key == ledger.len() - 1 ==> after == before)
    &&& after.lp == before.lp && after.xlp == before.xlp && after.unstaking == before.unstaking
    &&& after.crank_rewards == before.crank_rewards && after.referrer_rewards == before.referrer_rewards
    &&& after.cooldown_ends == before.cooldown_ends
}

/// The provider after accruing: the yield accrued since its last accrual
/// added, and the accrual index moved to the ledger's latest. Refused when
/// a sum leaves the range of numbers.
pub open spec fn spec_accrue(ledger: Seq<YieldPerToken>, a: LiquidityStatsByAddr) -> Result<LiquidityStatsByAddr, PerpError> {
    if a.last_accrue_key == ledger.len() - 1 {
        Ok(a)
    } else {
        match spec_accrued(ledger, a.last_accrue_key as int, ledger.len() - 1, lp_claim(a), a.xlp@) {
            None => Err(PerpError::Arithmetic),
            Some((l, x)) => if in_range(a.lp_accrued_yield@ + l) && in_range(a.xlp_accrued_yield@ + x) {
                Ok(
                    LiquidityStatsByAddr {
                        lp_accrued_yield: number_of(a.lp_accrued_yield@ + l),
                        xlp_accrued_yield: number_of(a.xlp_accrued_yield@ + x),
                        last_accrue_key: (ledger.len() - 1) as u64,
                        ..a
                    },
                )
            } else {
                Err(PerpError::Arithmetic)
            },
        }
    }
}

/// Collecting, from an accrued provider, the LP unstaked since the last
/// collection: it joins the provider's LP, and the unstaking ends once all
/// of it is collected.
pub open spec fn spec_collect(now: u64, b: LiquidityStatsByAddr) -> Result<LiquidityStatsByAddr, PerpError> {
    match b.unstaking {
        None => Ok(b),
        Some(u) => match spec_unstaked_lp(now, u) {
            Err(e) => Err(e),
            Ok(v) => if v == 0 {
                Ok(b)
            } else if !in_range(u.collected@ + v) || !in_range(b.lp@ + v) {
                Err(PerpError::Arithmetic)
            } else if u.xlp_amount@ < u.collected@ + v {
                Err(PerpError::InsufficientTokens)
            } else {
                Ok(
                    LiquidityStatsByAddr {
                        lp: number_of(b.lp@ + v),
                        unstaking: if u.collected@ + v < u.xlp_amount@ {
                            Some(UnstakingXlp { collected: number_of(u.collected@ + v), last_collected: now, ..u })
                        } else {
                            None
                        },
                        ..b
                    },
                )
            },
        },
    }
}

/// The provider brought up to date at `now`: yield accrued, then unstaked
/// LP collected.
pub open spec fn spec_book_keeping(ledger: Seq<YieldPerToken>, now: u64, a: LiquidityStatsByAddr) -> Result<
    LiquidityStatsByAddr,
    PerpError,
> {
    match spec_accrue(ledger, a) {
        Err(e) => Err(e),
        Ok(b) => spec_collect(now, b),
    }
}

/// Accrues a provider's pending yield.
pub fn update_accrued_yield(ledger: &YieldLedger, a: &mut LiquidityStatsByAddr) -> (r: Result<(), PerpError>)
    requires
        ledger.wf(),
        old(a).wf(),
        old(a).last_accrue_key < ledger@.len(),
    ensures
        r is Err ==> *final(a) == *old(a) && r == Err::<(), PerpError>(PerpError::Arithmetic),
        r is Ok ==> final(a).wf() && accrued_to(*old(a), *final(a), ledger@),
        r is Ok ==> spec_accrue(ledger@, *old(a)) == Ok::<LiquidityStatsByAddr, PerpError>(*final(a)),
        r is Err ==> spec_accrue(ledger@, *old(a)) is Err,
        r is Ok ==> final(a).lp_accrued_yield@ >= old(a).lp_accrued_yield@ && final(a).xlp_accrued_yield@
            >= old(a).xlp_accrued_yield@,
        r is Err <==> (old(a).last_accrue_key < ledger@.len() - 1 && match spec_accrued(
            ledger@,
            old(a).last_accrue_key as int,
            ledger@.len() - 1,
            lp_claim(*old(a)),
            old(a).xlp@,
        ) {
            None => true,
            Some((l, x)) => !in_range(old(a).lp_accrued_yield@ + l) || !in_range(old(a).xlp_accrued_yield@ + x),
        }),
{
    broadcast use crate::number::group_number_of;

    match calculate_accrued_yield(ledger, a)? {
        None => Ok(()),
        Some((key, accrued)) => {
            proof {
                let k = a.last_accrue_key as int;
                let n = ledger@.len() - 1;
                assert(ledger@[k].lp@ <= ledger@[n].lp@ && ledger@[k].xlp@ <= ledger@[n].xlp@);
                lemma_trunc_nonneg(ledger@[n].lp@ - ledger@[k].lp@, lp_claim(*a));
                lemma_trunc_nonneg(ledger@[n].xlp@ - ledger@[k].xlp@, a.xlp@);
            }
            a.lp_accrued_yield.range_fact();
            a.xlp_accrued_yield.range_fact();
            let lp = lift(a.lp_accrued_yield.checked_add(&accrued.lp))?;
            let xlp = lift(a.xlp_accrued_yield.checked_add(&accrued.xlp))?;
            a.lp_accrued_yield = lp;
            a.xlp_accrued_yield = xlp;
            a.last_accrue_key = key;
            Ok(())
        },
    }
}

/// Collects the LP unstaked since the last collection (accruing yield
/// first): it moves from the unstaking to the provider's LP, and the
/// unstaking ends once all of it is collected. Returns whether any LP was
/// collected. Nothing happens for a provider that is not unstaking.
pub fn collect_unstaked_lp(ledger: &YieldLedger, now: u64, a: &mut LiquidityStatsByAddr) -> (r: Result<bool, PerpError>)
    requires
        ledger.wf(),
        old(a).wf(),
        old(a).last_accrue_key < ledger@.len(),
    ensures
        r is Err ==> *final(a) == *old(a),
        old(a).unstaking is None ==> r == Ok::<bool, PerpError>(false) && *final(a) == *old(a),
        r is Ok ==> final(a).wf() && final(a).last_accrue_key < ledger@.len(),
        r is Ok && old(a).unstaking is Some ==> final(a).last_accrue_key == ledger@.len() - 1,
        r is Ok ==> final(a).cooldown_ends == old(a).cooldown_ends,
        r is Ok ==> final(a).lp_accrued_yield@ >= old(a).lp_accrued_yield@ && final(a).xlp_accrued_yield@
            >= old(a).xlp_accrued_yield@ && final(a).crank_rewards == old(a).crank_rewards
            && final(a).referrer_rewards == old(a).referrer_rewards,
        r is Ok && old(a).last_accrue_key == ledger@.len() - 1 ==> final(a).lp_accrued_yield == old(
            a,
        ).lp_accrued_yield && final(a).xlp_accrued_yield == old(a).xlp_accrued_yield,
        // Collecting moves LP and creates none.
        r is Ok ==> lp_claim(*final(a)) == lp_claim(*old(a)) && final(a).xlp == old(a).xlp,
        old(a).unstaking is Some ==> match spec_book_keeping(ledger@, now, *old(a)) {
            Ok(c) => r is Ok && *final(a) == c,
            Err(e) => r == Err::<bool, PerpError>(e),
        },
        r matches Ok(true) ==> old(a).unstaking matches Some(u) && spec_unstaked_lp(now, u) matches Ok(v) && v > 0
            && final(a).lp@ == old(a).lp@ + v,
        r matches Ok(false) && old(a).unstaking is Some ==> final(a).lp == old(a).lp && final(a).unstaking
            == old(a).unstaking,
{
    broadcast use crate::number::group_number_of;

    if a.unstaking.is_none() {
        return Ok(false);
    }
    let mut b = *a;
    update_accrued_yield(ledger, &mut b)?;
    let u = match b.unstaking {
        Some(u) => u,
        None => return Ok(false),
    };
    let amount = calculate_unstaked_lp(now, &u)?;
    if amount.is_zero() {
        *a = b;
        return Ok(false);
    }
    proof {
        lemma_unstaking_within_amount(now, u);
    }
    u.collected.range_fact();
    let collected = lift(u.collected.checked_add(&amount))?;
    b.lp.range_fact();
    let lp = lift(b.lp.checked_add(&amount))?;
    if u.xlp_amount.lt(&collected) {
        return Err(PerpError::InsufficientTokens);
    }
    let next = UnstakingXlp { collected, last_collected: now, ..u };
    b.unstaking = if collected.lt(&u.xlp_amount) {
        Some(next)
    } else {
        None
    };
    b.lp = lp;
    *a = b;
    Ok(true)
}

/// Brings a provider up to date: accrues yield and collects unstaked LP.
pub fn perform_lp_book_keeping(ledger: &YieldLedger, now: u64, a: &mut LiquidityStatsByAddr) -> (r: Result<(), PerpError>)
    requires
        ledger.wf(),
        old(a).wf(),
        old(a).last_accrue_key < ledger@.len(),
    ensures
        r is Err ==> *final(a) == *old(a),
        r is Ok ==> final(a).wf() && final(a).last_accrue_key == ledger@.len() - 1,
        r is Ok ==> lp_claim(*final(a)) == lp_claim(*old(a)) && final(a).xlp == old(a).xlp,
        r is Ok ==> (final(a).unstaking is None <== old(a).unstaking is None),
        r is Ok ==> final(a).cooldown_ends == old(a).cooldown_ends,
        r is Ok ==> final(a).lp_accrued_yield@ >= old(a).lp_accrued_yield@ && final(a).xlp_accrued_yield@
            >= old(a).xlp_accrued_yield@ && final(a).crank_rewards == old(a).crank_rewards
            && final(a).referrer_rewards == old(a).referrer_rewards,
        r is Ok && old(a).last_accrue_key == ledger@.len() - 1 ==> final(a).lp_accrued_yield == old(
            a,
        ).lp_accrued_yield && final(a).xlp_accrued_yield == old(a).xlp_accrued_yield,
        match spec_book_keeping(ledger@, now, *old(a)) {
            Ok(c) => r is Ok && *final(a) == c,
            Err(e) => r == Err::<(), PerpError>(e),
        },
{
    let mut b = *a;
    update_accrued_yield(ledger, &mut b)?;
    collect_unstaked_lp(ledger, now, &mut b)?;
    *a = b;
    Ok(())
}

/// The end of a provider's liquidity cooldown and the whole seconds left,
/// when one is active at `now`.
pub fn get_liquidity_cooldown(now: u64, a: &LiquidityStatsByAddr) -> (r: Option<(u64, u64)>)
    ensures
        match a.cooldown_ends {
            Some(ends) => if ends <= now {
                r is None
            } else {
                r == Some((ends, ((ends - now) / 1_000_000_000) as u64))
            },
            None => r is None,
        },
{
    match a.cooldown_ends {
        None => None,
        Some(ends) => if ends <= now {
            None
        } else {
            Some((ends, (ends - now) / 1_000_000_000))
        },
    }
}

/// Refuses while a provider's liquidity cooldown is active.
pub fn ensure_liquidity_cooldown(now: u64, a: &LiquidityStatsByAddr) -> (r: Result<(), PerpError>)
    ensures
        match a.cooldown_ends {
            Some(ends) => if ends <= now {
                r is Ok
            } else {
                r == Err::<(), PerpError>(
                    PerpError::LiquidityCooldown {
                        ends_at: ends,
                        seconds_remaining: ((ends - now) / 1_000_000_000) as u64,
                    },
                )
            },
            None => r is Ok,
        },
{
    match get_liquidity_cooldown(now, a) {
        Some((ends_at, seconds_remaining)) => Err(PerpError::LiquidityCooldown { ends_at, seconds_remaining }),
        None => Ok(()),
    }
}

/// The pool's token totals change exactly as the provider's holdings do:
/// LP (counting what is unstaking) and xLP.
pub open spec fn pool_moves_with(pool0: LiquidityStats, pool1: LiquidityStats, a0: LiquidityStatsByAddr, a1: LiquidityStatsByAddr) -> bool {
    &&& pool1.total_lp@ - pool0.total_lp@ == lp_claim(a1) - lp_claim(a0)
    &&& pool1.total_xlp@ - pool0.total_xlp@ == a1.xlp@ - a0.xlp@
    &&& pool1.locked == pool0.locked && pool1.unlocked == pool0.unlocked
}

/// The pool's LP total is the sum over its providers of their LP, counting
/// what is unstaking, and its xLP total the sum of their xLP. An operation
/// on one provider that moves the pool with it keeps both sums.
pub proof fn lemma_pool_totals_kept(
    pool0: LiquidityStats,
    pool1: LiquidityStats,
    a0: LiquidityStatsByAddr,
    a1: LiquidityStatsByAddr,
    others_lp: int,
    others_xlp: int,
)
    requires
        pool0.total_lp@ == others_lp + lp_claim(a0),
        pool0.total_xlp@ == others_xlp + a0.xlp@,
        pool_moves_with(pool0, pool1, a0, a1),
    ensures
        pool1.total_lp@ == others_lp + lp_claim(a1),
        pool1.total_xlp@ == others_xlp + a1.xlp@,
{
}

/// Whether staking succeeds: the provider can be brought up to date, holds
/// LP, at least the amount asked (all of it when none is), and every total
/// stays in range.
pub open spec fn spec_stake_ok(
    ledger: Seq<YieldPerToken>,
    now: u64,
    pool: LiquidityStats,
    a: LiquidityStatsByAddr,
    amount: Option<Number>,
) -> bool {
    match spec_book_keeping(ledger, now, a) {
        Err(_) => false,
        Ok(b) => {
            let amt = match amount {
                Some(x) => x@,
                None => b.lp@,
            };
            &&& b.lp@ != 0
            &&& amt <= b.lp@
            &&& in_range(b.xlp@ + amt)
            &&& in_range(pool.total_lp@ - amt)
            &&& in_range(pool.total_xlp@ + amt)
        },
    }
}

/// A provider with its unstaking stopped: what was not collected returns
/// to its xLP.
pub open spec fn spec_stopped(b: LiquidityStatsByAddr) -> LiquidityStatsByAddr {
    match b.unstaking {
        Some(u) => LiquidityStatsByAddr {
            xlp: number_of(b.xlp@ + (u.xlp_amount@ - u.collected@)),
            unstaking: None,
            ..b
        },
        None => b,
    }
}

/// The pool once the provider's unstaking is stopped: what was not
/// collected counts as xLP again.
pub open spec fn spec_stopped_pool(pool: LiquidityStats, b: LiquidityStatsByAddr) -> LiquidityStats {
    match b.unstaking {
        Some(u) => LiquidityStats {
            total_lp: number_of(pool.total_lp@ - (u.xlp_amount@ - u.collected@)),
            total_xlp: number_of(pool.total_xlp@ + (u.xlp_amount@ - u.collected@)),
            ..pool
        },
        None => pool,
    }
}

/// Whether stopping an unstaking succeeds: the provider can be brought up
/// to date, the totals stay in range, and, when asked to fail without one,
/// an unstaking is running.
pub open spec fn spec_stop_ok(
    ledger: Seq<YieldPerToken>,
    now: u64,
    pool: LiquidityStats,
    a: LiquidityStatsByAddr,
    fail_on_no_unstaking: bool,
) -> bool {
    match spec_book_keeping(ledger, now, a) {
        Err(_) => false,
        Ok(b) => match b.unstaking {
            Some(u) => {
                let restore = u.xlp_amount@ - u.collected@;
                &&& in_range(pool.total_lp@ - restore)
                &&& in_range(pool.total_xlp@ + restore)
                &&& in_range(b.xlp@ + restore)
            },
            None => !fail_on_no_unstaking,
        },
    }
}

/// Whether beginning an unstaking succeeds: a running one can be stopped,
/// the provider then holds xLP, at least the amount asked, and the totals
/// stay in range.
pub open spec fn spec_unstake_ok(
    ledger: Seq<YieldPerToken>,
    now: u64,
    pool: LiquidityStats,
    a: LiquidityStatsByAddr,
    amount: Option<Number>,
) -> bool {
    &&& spec_stop_ok(ledger, now, pool, a, false)
    &&& match spec_book_keeping(ledger, now, a) {
        Err(_) => false,
        Ok(b) => {
            let c = spec_stopped(b);
            let p = spec_stopped_pool(pool, b);
            let amt = match amount {
                Some(x) => x@,
                None => c.xlp@,
            };
            &&& c.xlp@ != 0
            &&& amt <= c.xlp@
            &&& in_range(p.total_lp@ + amt)
            &&& in_range(p.total_xlp@ - amt)
        },
    }
}

/// All the yield and rewards a provider is owed, when representable.
pub open spec fn spec_total_yield(b: LiquidityStatsByAddr) -> Option<int> {
    checked(b.lp_accrued_yield@ + b.xlp_accrued_yield@ + b.crank_rewards@ + b.referrer_rewards@)
}

/// A provider whose yield and rewards were all claimed.
pub open spec fn spec_claimed(b: LiquidityStatsByAddr) -> LiquidityStatsByAddr {
    LiquidityStatsByAddr {
        lp_accrued_yield: number_of(0),
        xlp_accrued_yield: number_of(0),
        crank_rewards: number_of(0),
        referrer_rewards: number_of(0),
        ..b
    }
}

/// Whether claiming succeeds: the provider can be brought up to date and is
/// owed something.
pub open spec fn spec_claim_ok(ledger: Seq<YieldPerToken>, now: u64, a: LiquidityStatsByAddr) -> bool {
    match spec_book_keeping(ledger, now, a) {
        Err(_) => false,
        Ok(b) => spec_total_yield(b) matches Some(t) && t != 0,
    }
}

/// Stakes LP into xLP: `amount`, or all the provider's LP.
pub fn liquidity_stake_lp(
    ledger: &YieldLedger,
    now: u64,
    pool: &mut LiquidityStats,
    a: &mut LiquidityStatsByAddr,
    amount: Option<Number>,
) -> (r: Result<(), PerpError>)
    requires
        ledger.wf(),
        old(a).wf(),
        old(a).last_accrue_key < ledger@.len(),
        old(pool).wf(),
        amount matches Some(x) ==> x@ > 0,
    ensures
        r is Err ==> *final(a) == *old(a) && *final(pool) == *old(pool),
        r is Ok ==> final(a).wf() && pool_moves_with(*old(pool), *final(pool), *old(a), *final(a)),
        r is Ok ==> final(a).last_accrue_key == ledger@.len() - 1 && final(a).cooldown_ends == old(a).cooldown_ends
            && final(a).crank_rewards == old(a).crank_rewards && final(a).referrer_rewards == old(a).referrer_rewards,
        r is Ok && old(a).last_accrue_key == ledger@.len() - 1 ==> final(a).lp_accrued_yield == old(
            a,
        ).lp_accrued_yield && final(a).xlp_accrued_yield == old(a).xlp_accrued_yield,
        r is Ok <==> spec_stake_ok(ledger@, now, *old(pool), *old(a), amount),
        r is Ok ==> match amount {
            Some(x) => final(a).xlp@ == old(a).xlp@ + x@ && lp_claim(*final(a)) == lp_claim(*old(a)) - x@,
            None => final(a).lp@ == 0 && final(a).xlp@ + lp_claim(*final(a)) == old(a).xlp@ + lp_claim(*old(a)),
        },
{
    let mut b = *a;
    perform_lp_book_keeping(ledger, now, &mut b)?;
    if b.lp.is_zero() {
        return Err(PerpError::NoLpTokens);
    }
    let amount = match amount {
        Some(x) => x,
        None => b.lp,
    };
    if b.lp.lt(&amount) {
        return Err(PerpError::InsufficientTokens);
    }
    b.lp.range_fact();
    b.xlp.range_fact();
    amount.range_fact();
    pool.total_lp.range_fact();
    pool.total_xlp.range_fact();
    let lp = lift(b.lp.checked_sub(&amount))?;
    let xlp = lift(b.xlp.checked_add(&amount))?;
    let total_lp = lift(pool.total_lp.checked_sub(&amount))?;
    let total_xlp = lift(pool.total_xlp.checked_add(&amount))?;
    b.lp = lp;
    b.xlp = xlp;
    *a = b;
    pool.total_lp = total_lp;
    pool.total_xlp = total_xlp;
    Ok(())
}

/// Ends an unstaking: what was not collected goes back to xLP. Fails when
/// asked to and there is no unstaking.
pub fn liquidity_stop_unstaking_xlp(
    ledger: &YieldLedger,
    now: u64,
    pool: &mut LiquidityStats,
    a: &mut LiquidityStatsByAddr,
    fail_on_no_unstaking: bool,
) -> (r: Result<(), PerpError>)
    requires
        ledger.wf(),
        old(a).wf(),
        old(a).last_accrue_key < ledger@.len(),
        old(pool).wf(),
    ensures
        r is Err ==> *final(a) == *old(a) && *final(pool) == *old(pool),
        r is Ok ==> final(a).wf() && final(a).unstaking is None && final(a).last_accrue_key == ledger@.len() - 1
            && pool_moves_with(*old(pool), *final(pool), *old(a), *final(a)),
        r is Ok ==> final(a).xlp@ + lp_claim(*final(a)) == old(a).xlp@ + lp_claim(*old(a)),
        old(a).unstaking is None && fail_on_no_unstaking ==> r is Err,
        r is Ok <==> spec_stop_ok(ledger@, now, *old(pool), *old(a), fail_on_no_unstaking),
        r is Ok ==> (spec_book_keeping(ledger@, now, *old(a)) matches Ok(b) && *final(a) == spec_stopped(b)
            && *final(pool) == spec_stopped_pool(*old(pool), b)),
{
    broadcast use crate::number::group_number_of;

    let mut b = *a;
    perform_lp_book_keeping(ledger, now, &mut b)?;
    match b.unstaking {
        Some(u) => {
            u.xlp_amount.range_fact();
            u.collected.range_fact();
            b.xlp.range_fact();
            pool.total_lp.range_fact();
            pool.total_xlp.range_fact();
            let restore = lift(u.xlp_amount.checked_sub(&u.collected))?;
            let total_lp = lift(pool.total_lp.checked_sub(&restore))?;
            let total_xlp = lift(pool.total_xlp.checked_add(&restore))?;
            let xlp = lift(b.xlp.checked_add(&restore))?;
            b.xlp = xlp;
            b.unstaking = None;
            *a = b;
            pool.total_lp = total_lp;
            pool.total_xlp = total_xlp;
        },
        None => {
            if fail_on_no_unstaking {
                return Err(PerpError::NotUnstaking);
            }
            *a = b;
        },
    }
    Ok(())
}

/// Begins unstaking `amount` xLP, or all of it, over the unstaking period;
/// an unstaking in progress is stopped first. The xLP counts as LP in the
/// totals from now on.
pub fn liquidity_unstake_xlp(
    ledger: &YieldLedger,
    now: u64,
    unstake_period_seconds: u32,
    pool: &mut LiquidityStats,
    a: &mut LiquidityStatsByAddr,
    amount: Option<Number>,
) -> (r: Result<(), PerpError>)
    requires
        ledger.wf(),
        old(a).wf(),
        old(a).last_accrue_key < ledger@.len(),
        old(pool).wf(),
        amount matches Some(x) ==> x@ > 0,
    ensures
        r is Err ==> *final(a) == *old(a) && *final(pool) == *old(pool),
        r is Ok ==> final(a).wf() && pool_moves_with(*old(pool), *final(pool), *old(a), *final(a)),
        r is Ok ==> (final(a).unstaking matches Some(u) && u.collected@ == 0 && u.unstake_started == now
            && u.last_collected == now && u.unstake_duration == unstake_period_seconds as u64 * 1_000_000_000
            && (amount matches Some(x) ==> u.xlp_amount == x)),
        r is Ok ==> final(a).xlp@ + lp_claim(*final(a)) == old(a).xlp@ + lp_claim(*old(a)),
        r is Ok <==> spec_unstake_ok(ledger@, now, *old(pool), *old(a), amount),
{
    let mut p = *pool;
    let mut b = *a;
    liquidity_stop_unstaking_xlp(ledger, now, &mut p, &mut b, false)?;
    if b.xlp.is_zero() {
        return Err(PerpError::NoXlpTokens);
    }
    let amount = match amount {
        Some(x) => x,
        None => b.xlp,
    };
    if b.xlp.lt(&amount) {
        return Err(PerpError::InsufficientTokens);
    }
    b.xlp.range_fact();
    amount.range_fact();
    p.total_lp.range_fact();
    p.total_xlp.range_fact();
    let xlp = lift(b.xlp.checked_sub(&amount))?;
    let total_lp = lift(p.total_lp.checked_add(&amount))?;
    let total_xlp = lift(p.total_xlp.checked_sub(&amount))?;
    let duration: u64 = (unstake_period_seconds as u64) * 1_000_000_000u64;
    b.unstaking = Some(
        UnstakingXlp {
            xlp_amount: amount,
            collected: Number::zero(),
            unstake_started: now,
            unstake_duration: duration,
            last_collected: now,
        },
    );
    b.xlp = xlp;
    p.total_lp = total_lp;
    p.total_xlp = total_xlp;
    *a = b;
    *pool = p;
    Ok(())
}

/// Claims all of a provider's yield and rewards (accruing first); there
/// must be some.
pub fn liquidity_claim_yield(ledger: &YieldLedger, now: u64, a: &mut LiquidityStatsByAddr) -> (r: Result<
    Number,
    PerpError,
>)
    requires
        ledger.wf(),
        old(a).wf(),
        old(a).last_accrue_key < ledger@.len(),
    ensures
        r is Err ==> *final(a) == *old(a),
        r matches Ok(y) ==> final(a).last_accrue_key == ledger@.len() - 1 && final(a).cooldown_ends == old(
            a,
        ).cooldown_ends,
        r matches Ok(y) ==> y@ > 0 && final(a).wf() && final(a).lp_accrued_yield@ == 0 && final(a).xlp_accrued_yield@
            == 0 && final(a).crank_rewards@ == 0 && final(a).referrer_rewards@ == 0 && lp_claim(*final(a))
            == lp_claim(*old(a)) && final(a).xlp == old(a).xlp,
        // Claiming takes no more than was owed once accrued: the yield owed
        // before, plus what accrued.
        r matches Ok(y) ==> y@ >= old(a).lp_accrued_yield@ + old(a).xlp_accrued_yield@ + old(a).crank_rewards@
            + old(a).referrer_rewards@,
        r is Ok <==> spec_claim_ok(ledger@, now, *old(a)),
        r matches Ok(y) ==> (spec_book_keeping(ledger@, now, *old(a)) matches Ok(b) && spec_total_yield(b) == Some(y@)
            && *final(a) == spec_claimed(b)),
{
    broadcast use crate::number::group_number_of;

    let mut b = *a;
    perform_lp_book_keeping(ledger, now, &mut b)?;
    let total = lift(b.total_yield())?;
    if total.is_zero() {
        return Err(PerpError::NoYieldToClaim);
    }
    b.lp_accrued_yield = Number::zero();
    b.xlp_accrued_yield = Number::zero();
    b.crank_rewards = Number::zero();
    b.referrer_rewards = Number::zero();
    *a = b;
    Ok(total)
}

} // verus!
