//! LVN rewards: part of each grant is transferable at once, the rest vests
//! linearly over the unlock duration.
use crate::number::{checked, in_range, lemma_mul_whole, lemma_trunc_nonneg, min_int, scale, trunc_div, trunc_mul, Number};
use vstd::prelude::*;

verus! {

/// Nanoseconds in a second.
pub const NS_PER_SECOND: u64 = 1_000_000_000u64;

/// Atoms per unit of a six-decimal native token.
pub const ATOMS_PER_NATIVE_UNIT: u128 = 1_000_000_000_000u128;

/// Why a rewards operation was refused.
#[derive(Clone, Copy, Debug, PartialEq, Eq, Structural)]
pub enum RewardsError {
    /// A step overflowed, went negative, or divided by zero.
    Arithmetic,
    /// A time is before the last claim.
    TimeBeforeLastClaim,
    /// The address has nothing to claim.
    NoOutstandingRewards,
    /// The amount to transfer is less than one unit of the token.
    TransferTooSmall,
}

/// Tokens from the current vesting period.
#[derive(Clone, Copy, Debug, PartialEq, Eq, Structural)]
pub struct VestingRewards {
    /// Tokens vesting in this period.
    pub amount: Number,
    /// Start of the period, in nanoseconds.
    pub start: u64,
    /// Length of the period, in nanoseconds.
    pub duration: u64,
    /// Tokens of this period already claimed.
    pub claimed: Number,
    /// Time of the last claim, in nanoseconds.
    pub last_claimed: u64,
}

/// An address's rewards.
#[derive(Clone, Copy, Debug, PartialEq, Eq, Structural)]
pub struct RewardsInfo {
    /// Tokens granted across all grants.
    pub total_rewards: Number,
    /// Tokens transferred across all grants.
    pub total_claimed: Number,
    pub vesting_rewards: Option<VestingRewards>,
}

impl VestingRewards {
    /// Token amounts are not negative.
    pub open spec fn wf(&self) -> bool {
        self.amount@ >= 0 && self.claimed@ >= 0
    }
}

impl RewardsInfo {
    /// Token amounts are not negative.
    pub open spec fn wf(&self) -> bool {
        &&& self.total_rewards@ >= 0
        &&& self.total_claimed@ >= 0
        &&& self.vesting_rewards matches Some(v) ==> v.wf()
    }
}

/// Tokens of a vesting period unlocked at `from` and not yet claimed: all
/// that remain once the period is over; otherwise the part of the amount
/// proportional to the time since the last claim, but no more than what
/// remains.
pub open spec fn spec_unlocked(v: VestingRewards, from: int) -> Option<int> {
    let remaining = v.amount@ - v.claimed@;
    if from >= v.start + v.duration {
        if remaining >= 0 && in_range(remaining) {
            Some(remaining)
        } else {
            None
        }
    } else if from < v.last_claimed {
        None
    } else if v.duration == 0 || remaining < 0 || !in_range(remaining) {
        None
    } else {
        match checked((from - v.last_claimed) * v.amount@) {
            None => None,
            Some(p) => match checked(trunc_div(p, v.duration * scale())) {
                None => None,
                Some(q) => Some(min_int(q, remaining)),
            },
        }
    }
}

impl VestingRewards {
    /// Tokens unlocked at `from` and not yet claimed.
    pub fn calculate_unlocked_rewards(&self, from: u64) -> (r: Result<Number, RewardsError>)
        ensures
            match spec_unlocked(*self, from as int) {
                Some(u) => r matches Ok(x) && x@ == u,
                None => r is Err,
            },
    {
        self.amount.range_fact();
        self.claimed.range_fact();
        let end: u128 = self.start as u128 + self.duration as u128;
        if from as u128 >= end {
            let remaining = match self.amount.checked_sub(&self.claimed) {
                Some(v) => v,
                None => return Err(RewardsError::Arithmetic),
            };
            if remaining.is_negative() {
                return Err(RewardsError::Arithmetic);
            }
            return Ok(remaining);
        }
        if from < self.last_claimed {
            return Err(RewardsError::TimeBeforeLastClaim);
        }
        let elapsed = from - self.last_claimed;
        proof {
            lemma_mul_whole(self.amount@, elapsed as int);
        }
        let product = match Number::from_u64(elapsed).checked_mul(&self.amount) {
            Some(v) => v,
            None => return Err(RewardsError::Arithmetic),
        };
        proof {
            assert(trunc_mul(elapsed * scale(), self.amount@) == trunc_mul(self.amount@, elapsed * scale())) by {
                assert(crate::number::abs(elapsed * scale()) * crate::number::abs(self.amount@) == crate::number::abs(
                    self.amount@,
                ) * crate::number::abs(elapsed * scale())) by (nonlinear_arith);
            }
        }
        let quotient = match product.checked_div(&Number::from_u64(self.duration)) {
            Some(v) => v,
            None => return Err(RewardsError::Arithmetic),
        };
        let remaining = match self.amount.checked_sub(&self.claimed) {
            Some(v) => v,
            None => return Err(RewardsError::Arithmetic),
        };
        if remaining.is_negative() {
            return Err(RewardsError::Arithmetic);
        }
        Ok(quotient.min(&remaining))
    }
}

/// Whole units of a six-decimal native token in an amount, truncated.
pub open spec fn spec_native_units(amount: int) -> int {
    amount / (ATOMS_PER_NATIVE_UNIT as int)
}

/// The units of a six-decimal native token to transfer for `amount`; a
/// transfer of less than one unit is refused.
pub fn native_transfer_units(amount: Number) -> (r: Result<u128, RewardsError>)
    requires
        amount@ >= 0,
    ensures
        spec_native_units(amount@) == 0 ==> r == Err::<u128, RewardsError>(RewardsError::TransferTooSmall),
        0 < spec_native_units(amount@) <= u128::MAX ==> r == Ok::<u128, RewardsError>(
            spec_native_units(amount@) as u128,
        ),
        spec_native_units(amount@) > u128::MAX ==> r == Err::<u128, RewardsError>(RewardsError::Arithmetic),
{
    let units = match amount.units(ATOMS_PER_NATIVE_UNIT) {
        Some(u) => u,
        None => return Err(RewardsError::Arithmetic),
    };
    if units == 0 {
        Err(RewardsError::TransferTooSmall)
    } else {
        Ok(units)
    }
}

/// The outcome of granting or claiming rewards.
#[derive(Clone, Copy, Debug, PartialEq, Eq, Structural)]
pub struct RewardsUpdate {
    /// The address's rewards afterwards.
    pub info: RewardsInfo,
    /// Tokens transferred now.
    pub transfer_amount: Number,
    /// Native token units transferred now.
    pub transfer_units: u128,
}

fn lift(o: Option<Number>) -> (r: Result<Number, RewardsError>)
    ensures
        match o {
            Some(v) => r == Ok::<Number, RewardsError>(v),
            None => r == Err::<Number, RewardsError>(RewardsError::Arithmetic),
        },
{
    match o {
        Some(v) => Ok(v),
        None => Err(RewardsError::Arithmetic),
    }
}

fn non_negative(x: Number) -> (r: Result<Number, RewardsError>)
    ensures
        x@ >= 0 ==> r == Ok::<Number, RewardsError>(x),
        x@ < 0 ==> r == Err::<Number, RewardsError>(RewardsError::Arithmetic),
{
    if x.is_negative() {
        Err(RewardsError::Arithmetic)
    } else {
        Ok(x)
    }
}

/// Whether a grant succeeds: every step stays in range, the share
/// transferred at once is within the amount, what had unlocked (when a
/// period was running) can be computed and is within what was left of it,
/// and at least one native unit is transferred.
pub open spec fn spec_grant_ok(existing: Option<RewardsInfo>, amount: int, immediately_transferable: int, now: u64) -> bool {
    let t = trunc_mul(amount, immediately_transferable);
    &&& in_range(t)
    &&& t <= amount
    &&& match existing {
        None => 0 < spec_native_units(t) <= u128::MAX,
        Some(i) => {
            &&& in_range(amount + i.total_rewards@)
            &&& in_range(t + i.total_claimed@)
            &&& match i.vesting_rewards {
                None => 0 < spec_native_units(t) <= u128::MAX,
                Some(v) => match spec_unlocked(v, now as int) {
                    None => false,
                    Some(u) => {
                        &&& in_range(t + u)
                        &&& v.amount@ - u >= 0
                        &&& v.amount@ - u - v.claimed@ >= 0
                        &&& in_range(v.amount@ - u - v.claimed@ + (amount - t))
                        &&& in_range(t + i.total_claimed@ + u)
                        &&& 0 < spec_native_units(t + u) <= u128::MAX
                    },
                },
            }
        },
    }
}

/// Grants `amount` tokens to an address at `now`.
///
/// The immediately transferable share is transferred at once, together with
/// whatever had unlocked from a previous vesting period; the rest of that
/// period joins the locked part of the grant in a new period that starts now
/// and lasts `unlock_duration_seconds`.
pub fn grant_rewards(
    existing: Option<RewardsInfo>,
    amount: Number,
    immediately_transferable: Number,
    unlock_duration_seconds: u32,
    now: u64,
) -> (r: Result<RewardsUpdate, RewardsError>)
    requires
        amount@ > 0,
        immediately_transferable@ >= 0,
        existing matches Some(i) ==> i.wf(),
    ensures
        r matches Ok(u) ==> ({
            let transfer = trunc_mul(amount@, immediately_transferable@);
            let unlocked = match existing {
                Some(RewardsInfo { vesting_rewards: Some(v), .. }) => spec_unlocked(v, now as int)->Some_0,
                _ => 0,
            };
            let carried = match existing {
                Some(RewardsInfo { vesting_rewards: Some(v), .. }) => v.amount@ - unlocked - v.claimed@,
                _ => 0,
            };
            &&& u.transfer_amount@ == transfer + unlocked
            &&& u.transfer_units == spec_native_units(transfer + unlocked) > 0
            &&& u.info.total_rewards@ == amount@ + match existing {
                Some(i) => i.total_rewards@,
                None => 0,
            }
            &&& u.info.total_claimed@ == transfer + unlocked + match existing {
                Some(i) => i.total_claimed@,
                None => 0,
            }
            &&& u.info.vesting_rewards matches Some(v) && v.amount@ == amount@ - transfer + carried && v.start == now
                && v.duration == unlock_duration_seconds * NS_PER_SECOND && v.claimed@ == 0 && v.last_claimed
                == now
            &&& transfer <= amount@
            &&& carried >= 0
        }),
        // The grant fails exactly when a step fails.
        r is Ok <==> spec_grant_ok(existing, amount@, immediately_transferable@, now),
        ({
            let transfer = trunc_mul(amount@, immediately_transferable@);
            (transfer > amount@ || !in_range(transfer)) ==> r is Err
        }),
{
    proof {
        lemma_trunc_nonneg(amount@, immediately_transferable@);
    }
    let transfer = lift(amount.checked_mul(&immediately_transferable))?;
    amount.range_fact();
    transfer.range_fact();
    let locked = non_negative(lift(amount.checked_sub(&transfer))?)?;
    let mut transfer_amount = transfer;
    let mut locked_amount = locked;
    let mut total_rewards = amount;
    let mut total_claimed = transfer;
    match existing {
        Some(info) => {
            total_rewards = lift(total_rewards.checked_add(&info.total_rewards))?;
            total_claimed = lift(total_claimed.checked_add(&info.total_claimed))?;
            match info.vesting_rewards {
                Some(v) => {
                    let unlocked = match v.calculate_unlocked_rewards(now) {
                        Ok(u) => u,
                        Err(e) => return Err(e),
                    };
                    transfer_amount = lift(transfer_amount.checked_add(&unlocked))?;
                    v.amount.range_fact();
                    v.claimed.range_fact();
                    unlocked.range_fact();
                    let a = non_negative(lift(v.amount.checked_sub(&unlocked))?)?;
                    let b = non_negative(lift(a.checked_sub(&v.claimed))?)?;
                    locked_amount = lift(b.checked_add(&locked_amount))?;
                    total_claimed = lift(total_claimed.checked_add(&unlocked))?;
                },
                None => {},
            }
        },
        None => {},
    }
    let units = native_transfer_units(transfer_amount)?;
    let vesting = VestingRewards {
        amount: locked_amount,
        start: now,
        duration: (unlock_duration_seconds as u64) * NS_PER_SECOND,
        claimed: Number::zero(),
        last_claimed: now,
    };
    Ok(
        RewardsUpdate {
            info: RewardsInfo { total_rewards, total_claimed, vesting_rewards: Some(vesting) },
            transfer_amount,
            transfer_units: units,
        },
    )
}

/// Claims what has unlocked from an address's vesting rewards at `now`;
/// there must be something. The period ends once all of it is claimed.
pub fn claim_rewards(existing: Option<RewardsInfo>, now: u64) -> (r: Result<RewardsUpdate, RewardsError>)
    requires
        existing matches Some(i) ==> i.wf(),
    ensures
        match existing {
            None => r == Err::<RewardsUpdate, RewardsError>(RewardsError::NoOutstandingRewards),
            Some(RewardsInfo { vesting_rewards: None, .. }) => r == Err::<RewardsUpdate, RewardsError>(
                RewardsError::NoOutstandingRewards,
            ),
            Some(i) => match spec_unlocked(i.vesting_rewards->Some_0, now as int) {
                None => r is Err,
                Some(u) => if u == 0 {
                    r == Err::<RewardsUpdate, RewardsError>(RewardsError::NoOutstandingRewards)
                } else {
                    let v = i.vesting_rewards->Some_0;
                    (r matches Ok(up) ==> (up.transfer_amount@ == u && up.info.total_claimed@ == i.total_claimed@ + u
                        && up.info.total_rewards == i.total_rewards && up.transfer_units == spec_native_units(u)
                        && (v.claimed@ + u >= v.amount@ ==> up.info.vesting_rewards is None) && (v.claimed@ + u
                        < v.amount@ ==> up.info.vesting_rewards == Some(
                        VestingRewards {
                            claimed: up.info.vesting_rewards->Some_0.claimed,
                            last_claimed: now,
                            ..v
                        },
                    ) && up.info.vesting_rewards->Some_0.claimed@ == v.claimed@ + u)))
                        && (in_range(i.total_claimed@ + u) && in_range(v.claimed@ + u) && spec_native_units(u) > 0
                        && spec_native_units(u) <= u128::MAX ==> r is Ok)
                },
            },
        },
{
    let info = match existing {
        None => return Err(RewardsError::NoOutstandingRewards),
        Some(i) => i,
    };
    let mut vesting = match info.vesting_rewards {
        None => return Err(RewardsError::NoOutstandingRewards),
        Some(v) => v,
    };
    let unlocked = vesting.calculate_unlocked_rewards(now)?;
    if unlocked.is_zero() {
        return Err(RewardsError::NoOutstandingRewards);
    }
    let total_claimed = lift(info.total_claimed.checked_add(&unlocked))?;
    vesting.claimed = lift(vesting.claimed.checked_add(&unlocked))?;
    vesting.last_claimed = now;
    let vesting_rewards = if vesting.amount.le(&vesting.claimed) {
        None
    } else {
        Some(vesting)
    };
    let units = native_transfer_units(unlocked)?;
    Ok(
        RewardsUpdate {
            info: RewardsInfo { total_rewards: info.total_rewards, total_claimed, vesting_rewards },
            transfer_amount: unlocked,
            transfer_units: units,
        },
    )
}

/// A vesting period never unlocks more than what remains of it, nor less
/// than nothing.
pub proof fn lemma_unlocked_within_remaining(v: VestingRewards, from: int)
    requires
        spec_unlocked(v, from) is Some,
        v.amount@ >= 0,
    ensures
        0 <= spec_unlocked(v, from)->Some_0 <= v.amount@ - v.claimed@,
{
    if from < v.start + v.duration {
        let p = (from - v.last_claimed) * v.amount@;
        assert(p >= 0) by (nonlinear_arith)
            requires
                from >= v.last_claimed,
                v.amount@ >= 0,
                p == (from - v.last_claimed) * v.amount@,
        ;
        let d = v.duration * scale();
        assert(d > 0) by (nonlinear_arith)
            requires
                v.duration > 0,
                d == v.duration * scale(),
        ;
        assert(trunc_div(p, d) >= 0) by (nonlinear_arith)
            requires
                p >= 0,
                d > 0,
        ;
    }
}

/// Once a vesting period is over, everything that remains of it is
/// unlocked.
pub proof fn lemma_unlocked_after_period(v: VestingRewards, from: int)
    requires
        from >= v.start + v.duration,
        0 <= v.claimed@ <= v.amount@,
        in_range(v.amount@),
    ensures
        spec_unlocked(v, from) == Some(v.amount@ - v.claimed@),
{
}

} // verus!
