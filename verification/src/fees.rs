//! The market's fee ledger: how collected fees are split between liquidity
//! providers, the protocol, referrers and crankers.
use crate::error::PerpError;
use crate::funding::LpAndXlp;
use crate::number::{checked, in_range, min_int, scale, trunc_div, trunc_mul, Number};
use vstd::prelude::*;

verus! {

fn lift(o: Option<Number>) -> (r: Result<Number, PerpError>)
    ensures
        match o {
            Some(v) => r == Ok::<Number, PerpError>(v),
            None => r == Err::<Number, PerpError>(PerpError::Arithmetic),
        },
{
    match o {
        Some(v) => Ok(v),
        None => Err(PerpError::Arithmetic),
    }
}

/// Collateral earmarked for each recipient of fees.
#[derive(Clone, Copy, Debug, PartialEq, Eq, Structural)]
pub struct Fees {
    /// Owed to liquidity providers' wallets (yield and crank rewards).
    pub wallets: Number,
    /// Owed to the protocol.
    pub protocol: Number,
    /// Available to pay crankers.
    pub crank: Number,
    /// Owed to referrers.
    pub referral: Number,
}

/// The sum of all earmarked collateral.
pub open spec fn fees_total(f: Fees) -> int {
    f.wallets@ + f.protocol@ + f.crank@ + f.referral@
}

/// A borrow fee split between LP, xLP and the protocol.
#[derive(Clone, Copy, Debug, PartialEq, Eq, Structural)]
pub struct BorrowFeeCollection {
    pub lp_amount: Number,
    pub xlp_amount: Number,
    pub protocol_amount: Number,
}

/// A trading fee split between LP, xLP and the protocol.
#[derive(Clone, Copy, Debug, PartialEq, Eq, Structural)]
pub struct TradingFeeSplit {
    pub lp_amount: Number,
    pub xlp_amount: Number,
    pub protocol_amount: Number,
}

impl Fees {
    pub open spec fn wf(&self) -> bool {
        self.wallets@ >= 0 && self.protocol@ >= 0 && self.crank@ >= 0 && self.referral@ >= 0
    }

    /// Nothing earmarked.
    pub fn fees_init() -> (r: Fees)
        ensures
            r.wf(),
            fees_total(r) == 0,
            r.wallets@ == 0 && r.protocol@ == 0 && r.crank@ == 0 && r.referral@ == 0,
    {
        Fees { wallets: Number::zero(), protocol: Number::zero(), crank: Number::zero(), referral: Number::zero() }
    }
}

/// Splits a borrow fee: the protocol takes `protocol_tax` of each of the LP
/// and xLP parts, and the rest stays with them.
pub fn collect_borrow_fee(amount: LpAndXlp, protocol_tax: Number) -> (r: Result<BorrowFeeCollection, PerpError>)
    requires
        amount.lp@ >= 0,
        amount.xlp@ >= 0,
        protocol_tax@ >= 0,
    ensures
        match (checked(trunc_mul(amount.lp@, protocol_tax@)), checked(trunc_mul(amount.xlp@, protocol_tax@))) {
            (Some(pl), Some(px)) => if amount.lp@ - pl >= 0 && amount.xlp@ - px >= 0 && in_range(pl + px) {
                r matches Ok(c) && c.lp_amount@ == amount.lp@ - pl && c.xlp_amount@ == amount.xlp@ - px
                    && c.protocol_amount@ == pl + px
            } else {
                r == Err::<BorrowFeeCollection, PerpError>(PerpError::Arithmetic)
            },
            _ => r == Err::<BorrowFeeCollection, PerpError>(PerpError::Arithmetic),
        },
        // Nothing is lost or created by the split.
        r matches Ok(c) ==> c.lp_amount@ + c.xlp_amount@ + c.protocol_amount@ == amount.lp@ + amount.xlp@,
{
    amount.lp.range_fact();
    amount.xlp.range_fact();
    let protocol_lp = lift(amount.lp.checked_mul(&protocol_tax))?;
    let protocol_xlp = lift(amount.xlp.checked_mul(&protocol_tax))?;
    let lp = lift(amount.lp.checked_sub(&protocol_lp))?;
    if lp.is_negative() {
        return Err(PerpError::Arithmetic);
    }
    let xlp = lift(amount.xlp.checked_sub(&protocol_xlp))?;
    if xlp.is_negative() {
        return Err(PerpError::Arithmetic);
    }
    let protocol = lift(protocol_lp.checked_add(&protocol_xlp))?;
    Ok(BorrowFeeCollection { lp_amount: lp, xlp_amount: xlp, protocol_amount: protocol })
}

/// Splits a trading fee: the protocol takes `protocol_tax`, and the rest
/// goes to LP and xLP in proportion to their current borrow fee rates (all
/// to one side when the other's rate is zero). At least one rate must be
/// strictly positive, and neither may be negative.
pub fn split_trading_fee(amount: Number, protocol_tax: Number, lp_rate: Number, xlp_rate: Number) -> (r: Result<TradingFeeSplit, PerpError>)
    requires
        amount@ >= 0,
        protocol_tax@ >= 0,
    ensures
        lp_rate@ < 0 || xlp_rate@ < 0 ==> r is Err,
        match checked(trunc_mul(amount@, protocol_tax@)) {
            None => r is Err,
            Some(p) => if amount@ - p < 0 {
                r is Err
            } else if lp_rate@ < 0 || xlp_rate@ < 0 {
                r == Err::<TradingFeeSplit, PerpError>(PerpError::NegativeBorrowRate)
            } else if lp_rate@ == 0 && xlp_rate@ == 0 {
                r == Err::<TradingFeeSplit, PerpError>(PerpError::NoLiquidity)
            } else {
                let rest = amount@ - p;
                if lp_rate@ == 0 {
                    r matches Ok(s) && s.lp_amount@ == 0 && s.xlp_amount@ == rest && s.protocol_amount@ == p
                } else if xlp_rate@ == 0 {
                    r matches Ok(s) && s.lp_amount@ == rest && s.xlp_amount@ == 0 && s.protocol_amount@ == p
                } else {
                    match (checked(trunc_mul(rest, lp_rate@)), checked(lp_rate@ + xlp_rate@)) {
                        (Some(m), Some(t)) => match checked(trunc_div(m, t)) {
                            Some(l) => if rest - l >= 0 {
                                r matches Ok(s) && s.lp_amount@ == l && s.xlp_amount@ == rest - l
                                    && s.protocol_amount@ == p
                            } else {
                                r is Err
                            },
                            None => r is Err,
                        },
                        _ => r is Err,
                    }
                }
            },
        },
        // Nothing is lost or created by the split.
        r matches Ok(s) ==> s.lp_amount@ + s.xlp_amount@ + s.protocol_amount@ == amount@,
{
    amount.range_fact();
    let protocol = lift(amount.checked_mul(&protocol_tax))?;
    let rest = lift(amount.checked_sub(&protocol))?;
    if rest.is_negative() {
        return Err(PerpError::Arithmetic);
    }
    if lp_rate.is_negative() || xlp_rate.is_negative() {
        return Err(PerpError::NegativeBorrowRate);
    }
    if lp_rate.is_zero() && xlp_rate.is_zero() {
        return Err(PerpError::NoLiquidity);
    }
    if lp_rate.is_zero() {
        Ok(TradingFeeSplit { lp_amount: Number::zero(), xlp_amount: rest, protocol_amount: protocol })
    } else if xlp_rate.is_zero() {
        Ok(TradingFeeSplit { lp_amount: rest, xlp_amount: Number::zero(), protocol_amount: protocol })
    } else {
        let m = lift(rest.checked_mul(&lp_rate))?;
        let t = lift(lp_rate.checked_add(&xlp_rate))?;
        let lp = lift(m.checked_div(&t))?;
        let xlp = lift(rest.checked_sub(&lp))?;
        if xlp.is_negative() {
            return Err(PerpError::Arithmetic);
        }
        Ok(TradingFeeSplit { lp_amount: lp, xlp_amount: xlp, protocol_amount: protocol })
    }
}

/// Adds `a` and `b`, reporting an overflow as an error.
fn add_checked(a: Number, b: Number) -> (r: Result<Number, PerpError>)
    ensures
        in_range(a@ + b@) ==> (r matches Ok(x) && x@ == a@ + b@),
        !in_range(a@ + b@) ==> r == Err::<Number, PerpError>(PerpError::Arithmetic),
{
    lift(a.checked_add(&b))
}

impl Fees {
    /// Records a collected borrow fee: LP and xLP parts to wallets, the rest
    /// to the protocol.
    pub fn apply_borrow_fee_collection(&mut self, c: &BorrowFeeCollection) -> (r: Result<(), PerpError>)
        requires
            old(self).wf(),
            c.lp_amount@ >= 0,
            c.xlp_amount@ >= 0,
            c.protocol_amount@ >= 0,
        ensures
            final(self).wf(),
            r is Ok ==> final(self).wallets@ == old(self).wallets@ + c.lp_amount@ + c.xlp_amount@
                && final(self).protocol@ == old(self).protocol@ + c.protocol_amount@
                && final(self).crank == old(self).crank && final(self).referral == old(self).referral,
            r is Ok <==> in_range(c.lp_amount@ + c.xlp_amount@) && in_range(
                old(self).wallets@ + c.lp_amount@ + c.xlp_amount@,
            ) && in_range(old(self).protocol@ + c.protocol_amount@),
            r is Err ==> *final(self) == *old(self),
            r is Ok ==> fees_total(*final(self)) == fees_total(*old(self)) + c.lp_amount@ + c.xlp_amount@
                + c.protocol_amount@,
    {
        let both = add_checked(c.lp_amount, c.xlp_amount)?;
        let wallets = add_checked(self.wallets, both)?;
        let protocol = add_checked(self.protocol, c.protocol_amount)?;
        self.wallets = wallets;
        self.protocol = protocol;
        Ok(())
    }

    /// Records a collected trading fee.
    pub fn apply_trading_fee(&mut self, s: &TradingFeeSplit) -> (r: Result<(), PerpError>)
        requires
            old(self).wf(),
            s.lp_amount@ >= 0,
            s.xlp_amount@ >= 0,
            s.protocol_amount@ >= 0,
        ensures
            final(self).wf(),
            r is Ok <==> in_range(s.lp_amount@ + s.xlp_amount@) && in_range(
                old(self).wallets@ + s.lp_amount@ + s.xlp_amount@,
            ) && in_range(old(self).protocol@ + s.protocol_amount@),
            r is Ok ==> final(self).wallets@ == old(self).wallets@ + s.lp_amount@ + s.xlp_amount@
                && final(self).protocol@ == old(self).protocol@ + s.protocol_amount@
                && final(self).crank == old(self).crank && final(self).referral == old(self).referral,
            r is Err ==> *final(self) == *old(self),
    {
        let both = add_checked(s.lp_amount, s.xlp_amount)?;
        let wallets = add_checked(self.wallets, both)?;
        let protocol = add_checked(self.protocol, s.protocol_amount)?;
        self.wallets = wallets;
        self.protocol = protocol;
        Ok(())
    }

    /// Takes the referrer's reward `amount * ratio` out of a trading fee and
    /// earmarks it for referrers; returns the rest of the fee.
    pub fn take_referral_reward(&mut self, amount: Number, ratio: Number) -> (r: Result<(Number, Number), PerpError>)
        requires
            old(self).wf(),
            amount@ >= 0,
            ratio@ >= 0,
        ensures
            final(self).wf(),
            match checked(trunc_mul(amount@, ratio@)) {
                None => r is Err,
                Some(reward) => if in_range(old(self).referral@ + reward) && amount@ - reward >= 0 {
                    r matches Ok((rest, rw)) && rw@ == reward && rest@ == amount@ - reward
                        && final(self).referral@ == old(self).referral@ + reward
                        && final(self).wallets == old(self).wallets && final(self).protocol == old(self).protocol
                        && final(self).crank == old(self).crank
                } else {
                    r is Err
                },
            },
            r is Err ==> *final(self) == *old(self),
    {
        amount.range_fact();
        let reward = lift(amount.checked_mul(&ratio))?;
        let referral = add_checked(self.referral, reward)?;
        let rest = lift(amount.checked_sub(&reward))?;
        if rest.is_negative() {
            return Err(PerpError::Arithmetic);
        }
        self.referral = referral;
        Ok((rest, reward))
    }

    /// Records yield claimed by a liquidity provider.
    pub fn register_lp_claimed_yield(&mut self, amount: Number) -> (r: Result<(), PerpError>)
        requires
            old(self).wf(),
            amount@ > 0,
        ensures
            final(self).wf(),
            old(self).wallets@ >= amount@ ==> r is Ok && final(self).wallets@ == old(self).wallets@ - amount@
                && final(self).protocol == old(self).protocol && final(self).crank == old(self).crank
                && final(self).referral == old(self).referral,
            old(self).wallets@ < amount@ ==> r == Err::<(), PerpError>(PerpError::Arithmetic) && *final(self)
                == *old(self),
    {
        self.wallets.range_fact();
        amount.range_fact();
        if self.wallets.lt(&amount) {
            return Err(PerpError::Arithmetic);
        }
        self.wallets = self.wallets.checked_sub(&amount).unwrap();
        Ok(())
    }

    /// Empties the protocol's fees for transfer to the DAO; there must be
    /// some.
    pub fn transfer_fees_to_dao(&mut self) -> (r: Result<Number, PerpError>)
        requires
            old(self).wf(),
        ensures
            final(self).wf(),
            old(self).protocol@ == 0 ==> r == Err::<Number, PerpError>(PerpError::NoDaoFees) && *final(self)
                == *old(self),
            old(self).protocol@ > 0 ==> r == Ok::<Number, PerpError>(old(self).protocol)
                && final(self).protocol@ == 0 && final(self).wallets == old(self).wallets
                && final(self).crank == old(self).crank && final(self).referral == old(self).referral,
    {
        if self.protocol.is_zero() {
            return Err(PerpError::NoDaoFees);
        }
        let amount = self.protocol;
        self.protocol = Number::zero();
        Ok(amount)
    }

    /// Adds funds for paying crankers.
    pub fn provide_crank_funds(&mut self, added: Number) -> (r: Result<(), PerpError>)
        requires
            old(self).wf(),
            added@ > 0,
        ensures
            final(self).wf(),
            in_range(old(self).crank@ + added@) ==> r is Ok && final(self).crank@ == old(self).crank@ + added@
                && final(self).wallets == old(self).wallets && final(self).protocol == old(self).protocol
                && final(self).referral == old(self).referral,
            !in_range(old(self).crank@ + added@) ==> r is Err && *final(self) == *old(self),
    {
        let crank = add_checked(self.crank, added)?;
        self.crank = crank;
        Ok(())
    }

    /// Pays crankers for `cranks` executions, `crank_fee_reward` each, as far
    /// as the crank funds allow: the payment moves from the crank funds to
    /// the wallets and is returned.
    pub fn allocate_crank_fees(&mut self, cranks: u32, crank_fee_reward: Number) -> (r: Result<Number, PerpError>)
        requires
            old(self).wf(),
            crank_fee_reward@ >= 0,
        ensures
            final(self).wf(),
            cranks == 0 ==> (r matches Ok(p) && p@ == 0 && *final(self) == *old(self)),
            cranks > 0 ==> match checked(crank_fee_reward@ * cranks) {
                None => r == Err::<Number, PerpError>(PerpError::Arithmetic),
                Some(max) => {
                    let payment = min_int(max, old(self).crank@);
                    if in_range(old(self).wallets@ + payment) {
                        r matches Ok(p) && p@ == payment && final(self).crank@ == old(self).crank@ - payment
                            && final(self).wallets@ == old(self).wallets@ + payment
                            && final(self).protocol == old(self).protocol
                            && final(self).referral == old(self).referral
                    } else {
                        r == Err::<Number, PerpError>(PerpError::Arithmetic)
                    }
                },
            },
            // Paying crankers only moves collateral between earmarks.
            r is Ok ==> fees_total(*final(self)) == fees_total(*old(self)),
            r is Err ==> *final(self) == *old(self),
    {
        if cranks == 0 {
            return Ok(Number::zero());
        }
        proof {
            crate::number::lemma_mul_whole(crank_fee_reward@, cranks as int);
        }
        let max = lift(crank_fee_reward.checked_mul(&Number::from_u64(cranks as u64)))?;
        let payment = max.min(&self.crank);
        self.wallets.range_fact();
        if payment.is_zero() {
            return Ok(payment);
        }
        let wallets = add_checked(self.wallets, payment)?;
        self.crank.range_fact();
        payment.range_fact();
        self.crank = self.crank.checked_sub(&payment).unwrap();
        self.wallets = wallets;
        Ok(payment)
    }

    /// Returns over-paid crank fees to a user's wallet balance.
    pub fn return_funds_to_user(&mut self, amount: Number) -> (r: Result<(), PerpError>)
        requires
            old(self).wf(),
            amount@ > 0,
        ensures
            final(self).wf(),
            in_range(old(self).wallets@ + amount@) ==> r is Ok && final(self).wallets@ == old(self).wallets@
                + amount@ && final(self).protocol == old(self).protocol && final(self).crank == old(self).crank
                && final(self).referral == old(self).referral,
            !in_range(old(self).wallets@ + amount@) ==> r is Err && *final(self) == *old(self),
    {
        let wallets = add_checked(self.wallets, amount)?;
        self.wallets = wallets;
        Ok(())
    }

    /// Adds a charged crank fee to the crank funds; returns the balance
    /// before and after.
    pub fn apply_crank_fee(&mut self, amount: Number) -> (r: Result<(Number, Number), PerpError>)
        requires
            old(self).wf(),
            amount@ >= 0,
        ensures
            final(self).wf(),
            in_range(old(self).crank@ + amount@) ==> (r matches Ok((before, after)) && before == old(self).crank
                && after@ == old(self).crank@ + amount@ && final(self).crank == after
                && final(self).wallets == old(self).wallets && final(self).protocol == old(self).protocol
                && final(self).referral == old(self).referral),
            !in_range(old(self).crank@ + amount@) ==> r is Err && *final(self) == *old(self),
    {
        let before = self.crank;
        let after = add_checked(self.crank, amount)?;
        self.crank = after;
        Ok((before, after))
    }
}

} // verus!
