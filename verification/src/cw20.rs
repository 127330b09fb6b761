//! The liquidity tokens (LP and xLP) as CW20 tokens: allowances and
//! balance moves between providers.
use crate::error::PerpError;
use crate::lp::{
    ensure_liquidity_cooldown, lp_claim, perform_lp_book_keeping, spec_book_keeping, LiquidityStatsByAddr, YieldLedger,
    YieldPerToken,
};
use crate::number::{in_range, Number};
use crate::pool::{lp_info, spec_lp_info};
use crate::funding::LiquidityStats;
use vstd::prelude::*;

verus! {

/// Which liquidity token.
#[derive(Clone, Copy, Debug, PartialEq, Eq, Structural)]
pub enum LiquidityTokenKind {
    Lp,
    Xlp,
}

/// When an allowance expires.
#[derive(Clone, Copy, Debug, PartialEq, Eq, Structural)]
pub enum Expiration {
    /// At the given block height.
    AtHeight(u64),
    /// At the given time, in nanoseconds.
    AtTime(u64),
    Never,
}

/// Whether an expiration has passed at a block of `height` and `time`.
pub open spec fn spec_is_expired(e: Expiration, height: u64, time: u64) -> bool {
    match e {
        Expiration::AtHeight(h) => height >= h,
        Expiration::AtTime(t) => time >= t,
        Expiration::Never => false,
    }
}

/// Asks `cw_utils::Expiration::is_expired` whether the expiration has
/// passed at a block of `height` and `time` (nanoseconds). Its source: a
/// height expiration passes once the block height reaches it, a time
/// expiration once the block time reaches it, and `Never` never does.
#[verifier::external_body]
pub(crate) fn expiration_is_expired(e: Expiration, height: u64, time: u64) -> (r: bool)
    ensures
        r == spec_is_expired(e, height, time),
{
    let e = match e {
        Expiration::AtHeight(h) => cw_utils::Expiration::AtHeight(h),
        Expiration::AtTime(t) => cw_utils::Expiration::AtTime(cosmwasm_std::Timestamp::from_nanos(t)),
        Expiration::Never => cw_utils::Expiration::Never {},
    };
    let block = cosmwasm_std::BlockInfo { height, time: cosmwasm_std::Timestamp::from_nanos(time), chain_id: String::new() };
    e.is_expired(&block)
}

/// What a spender may still move for an owner.
#[derive(Clone, Copy, Debug, PartialEq, Eq, Structural)]
pub struct Allowance {
    pub allowance: u128,
    pub expires: Expiration,
}

/// Allowances of one token, by owner and spender; each pair at most once.
#[derive(Debug)]
pub struct Allowances {
    pub entries: Vec<(String, String, Allowance)>,
}

/// Index of the allowance of `owner` to `spender`, or -1.
pub open spec fn allowance_index(entries: Seq<(String, String, Allowance)>, owner: Seq<char>, spender: Seq<char>) -> int {
    if exists|i: int| 0 <= i < entries.len() && entries[i].0@ == owner && entries[i].1@ == spender {
        choose|i: int| 0 <= i < entries.len() && entries[i].0@ == owner && entries[i].1@ == spender
    } else {
        -1
    }
}

/// The allowance of `owner` to `spender`: none is zero, never expiring.
pub open spec fn allowance_of(entries: Seq<(String, String, Allowance)>, owner: Seq<char>, spender: Seq<char>) -> Allowance {
    let i = allowance_index(entries, owner, spender);
    if i >= 0 {
        entries[i].2
    } else {
        Allowance { allowance: 0, expires: Expiration::Never }
    }
}

impl Allowances {
    /// Each owner and spender pair appears once.
    pub open spec fn wf(&self) -> bool {
        forall|i: int, j: int|
            0 <= i < j < self.entries@.len() ==> !(self.entries@[i].0@ == self.entries@[j].0@
                && self.entries@[i].1@ == self.entries@[j].1@)
    }

    pub fn new() -> (r: Allowances)
        ensures
            r.wf(),
            r.entries@.len() == 0,
    {
        Allowances { entries: Vec::new() }
    }

    fn find(&self, owner: &String, spender: &String) -> (r: Option<usize>)
        requires
            self.wf(),
        ensures
            match r {
                Some(i) => i == allowance_index(self.entries@, owner@, spender@) && i < self.entries@.len(),
                None => allowance_index(self.entries@, owner@, spender@) == -1,
            },
    {
        let mut i: usize = 0;
        while i < self.entries.len()
            invariant
                self.wf(),
                i <= self.entries@.len(),
                forall|k: int| 0 <= k < i ==> !(self.entries@[k].0@ == owner@ && self.entries@[k].1@ == spender@),
            decreases self.entries@.len() - i,
        {
            if self.entries[i].0 == *owner && self.entries[i].1 == *spender {
                proof {
                    let j = allowance_index(self.entries@, owner@, spender@);
                    assert(self.entries@[i as int].0@ == owner@ && self.entries@[i as int].1@ == spender@);
                    if j != i as int {
                        if j < i as int {
                            assert(!(self.entries@[j].0@ == owner@ && self.entries@[j].1@ == spender@));
                        } else {
                            assert(!(self.entries@[i as int].0@ == self.entries@[j].0@ && self.entries@[i as int].1@
                                == self.entries@[j].1@));
                        }
                    }
                }
                return Some(i);
            }
            i += 1;
        }
        None
    }

    /// The allowance of `owner` to `spender`.
    pub fn allowance(&self, owner: &String, spender: &String) -> (r: Allowance)
        requires
            self.wf(),
        ensures
            r == allowance_of(self.entries@, owner@, spender@),
    {
        match self.find(owner, spender) {
            Some(i) => self.entries[i].2,
            None => Allowance { allowance: 0, expires: Expiration::Never },
        }
    }

    /// Raises an allowance (and replaces its expiration when one is
    /// given); an owner gives none to itself.
    pub fn increase_allowance(&mut self, owner: &String, spender: &String, amount: u128, expires: Option<Expiration>) -> (r: Result<
        (),
        PerpError,
    >)
        requires
            old(self).wf(),
        ensures
            final(self).wf(),
            r is Err ==> *final(self) == *old(self),
            owner@ == spender@ ==> r == Err::<(), PerpError>(PerpError::OwnAllowance),
            ({
                let before = allowance_of(old(self).entries@, owner@, spender@);
                owner@ != spender@ ==> if before.allowance + amount > u128::MAX {
                    r == Err::<(), PerpError>(PerpError::Arithmetic)
                } else {
                    &&& r is Ok
                    &&& allowance_of(final(self).entries@, owner@, spender@) == (Allowance {
                        allowance: (before.allowance + amount) as u128,
                        expires: match expires {
                            Some(e) => e,
                            None => before.expires,
                        },
                    })
                    &&& forall|o: Seq<char>, s: Seq<char>|
                        !(o == owner@ && s == spender@) ==> #[trigger] allowance_of(final(self).entries@, o, s)
                            == allowance_of(old(self).entries@, o, s)
                }
            }),
    {
        if *owner == *spender {
            return Err(PerpError::OwnAllowance);
        }
        match self.find(owner, spender) {
            Some(i) => {
                let current = self.entries[i].2;
                let total = match current.allowance.checked_add(amount) {
                    Some(t) => t,
                    None => return Err(PerpError::Arithmetic),
                };
                let updated = Allowance {
                    allowance: total,
                    expires: match expires {
                        Some(e) => e,
                        None => current.expires,
                    },
                };
                let ghost before = self.entries@;
                let (o, s, _) = self.entries.remove(i);
                self.entries.insert(i, (o, s, updated));
                proof {
                    assert(self.entries@ =~= before.update(i as int, self.entries@[i as int]));
                    lemma_update_allowance(before, i as int, self.entries@[i as int], owner@, spender@);
                }
            },
            None => {
                let updated = Allowance {
                    allowance: amount,
                    expires: match expires {
                        Some(e) => e,
                        None => Expiration::Never,
                    },
                };
                let ghost before = self.entries@;
                self.entries.push((owner.clone(), spender.clone(), updated));
                proof {
                    lemma_push_allowance(before, self.entries@[before.len() as int], owner@, spender@);
                }
            },
        }
        Ok(())
    }

    /// Lowers an allowance that exists (replacing its expiration when one
    /// is given), removing it when the decrease covers all of it.
    pub fn decrease_allowance(&mut self, owner: &String, spender: &String, amount: u128, expires: Option<Expiration>) -> (r: Result<
        (),
        PerpError,
    >)
        requires
            old(self).wf(),
        ensures
            final(self).wf(),
            r is Err ==> *final(self) == *old(self),
            owner@ == spender@ ==> r == Err::<(), PerpError>(PerpError::OwnAllowance),
            owner@ != spender@ && allowance_index(old(self).entries@, owner@, spender@) < 0 ==> r == Err::<
                (),
                PerpError,
            >(PerpError::NoAllowance),
            ({
                let before = allowance_of(old(self).entries@, owner@, spender@);
                (owner@ != spender@ && allowance_index(old(self).entries@, owner@, spender@) >= 0) ==> {
                    &&& r is Ok
                    &&& allowance_of(final(self).entries@, owner@, spender@) == (if amount < before.allowance {
                        Allowance {
                            allowance: (before.allowance - amount) as u128,
                            expires: match expires {
                                Some(e) => e,
                                None => before.expires,
                            },
                        }
                    } else {
                        Allowance { allowance: 0, expires: Expiration::Never }
                    })
                    &&& forall|o: Seq<char>, s: Seq<char>|
                        !(o == owner@ && s == spender@) ==> #[trigger] allowance_of(final(self).entries@, o, s)
                            == allowance_of(old(self).entries@, o, s)
                }
            }),
    {
        if *owner == *spender {
            return Err(PerpError::OwnAllowance);
        }
        let i = match self.find(owner, spender) {
            Some(i) => i,
            None => return Err(PerpError::NoAllowance),
        };
        let current = self.entries[i].2;
        let ghost before = self.entries@;
        if amount < current.allowance {
            let updated = Allowance {
                allowance: current.allowance - amount,
                expires: match expires {
                    Some(e) => e,
                    None => current.expires,
                },
            };
            let (o, s, _) = self.entries.remove(i);
            self.entries.insert(i, (o, s, updated));
            proof {
                assert(self.entries@ =~= before.update(i as int, self.entries@[i as int]));
                lemma_update_allowance(before, i as int, self.entries@[i as int], owner@, spender@);
            }
        } else {
            self.entries.remove(i);
            proof {
                lemma_remove_allowance(before, i as int, owner@, spender@);
            }
        }
        Ok(())
    }

    /// Spends `amount` of an allowance at a block of `height` and `time`:
    /// it must exist, not have expired, and cover the amount.
    pub fn deduct_allowance(&mut self, owner: &String, spender: &String, amount: u128, height: u64, time: u64) -> (r: Result<
        (),
        PerpError,
    >)
        requires
            old(self).wf(),
        ensures
            final(self).wf(),
            r is Err ==> *final(self) == *old(self),
            ({
                let before = allowance_of(old(self).entries@, owner@, spender@);
                if allowance_index(old(self).entries@, owner@, spender@) < 0 {
                    r == Err::<(), PerpError>(PerpError::NoAllowance)
                } else if spec_is_expired(before.expires, height, time) {
                    r == Err::<(), PerpError>(PerpError::AllowanceExpired)
                } else if before.allowance < amount {
                    r == Err::<(), PerpError>(PerpError::InsufficientAllowance)
                } else {
                    &&& r is Ok
                    &&& allowance_of(final(self).entries@, owner@, spender@) == (Allowance {
                        allowance: (before.allowance - amount) as u128,
                        expires: before.expires,
                    })
                    &&& forall|o: Seq<char>, s: Seq<char>|
                        !(o == owner@ && s == spender@) ==> #[trigger] allowance_of(final(self).entries@, o, s)
                            == allowance_of(old(self).entries@, o, s)
                }
            }),
    {
        let i = match self.find(owner, spender) {
            Some(i) => i,
            None => return Err(PerpError::NoAllowance),
        };
        let current = self.entries[i].2;
        if expiration_is_expired(current.expires, height, time) {
            return Err(PerpError::AllowanceExpired);
        }
        if current.allowance < amount {
            return Err(PerpError::InsufficientAllowance);
        }
        let updated = Allowance { allowance: current.allowance - amount, expires: current.expires };
        let ghost before = self.entries@;
        let (o, s, _) = self.entries.remove(i);
        self.entries.insert(i, (o, s, updated));
        proof {
            assert(self.entries@ =~= before.update(i as int, self.entries@[i as int]));
            lemma_update_allowance(before, i as int, self.entries@[i as int], owner@, spender@);
        }
        Ok(())
    }
}

proof fn lemma_update_allowance(
    before: Seq<(String, String, Allowance)>,
    i: int,
    e: (String, String, Allowance),
    owner: Seq<char>,
    spender: Seq<char>,
)
    requires
        0 <= i < before.len(),
        i == allowance_index(before, owner, spender),
        e.0@ == owner && e.1@ == spender,
        forall|a: int, b: int|
            0 <= a < b < before.len() ==> !(before[a].0@ == before[b].0@ && before[a].1@ == before[b].1@),
    ensures
        forall|a: int, b: int|
            0 <= a < b < before.update(i, e).len() ==> !(before.update(i, e)[a].0@ == before.update(i, e)[b].0@
                && before.update(i, e)[a].1@ == before.update(i, e)[b].1@),
        allowance_of(before.update(i, e), owner, spender) == e.2,
        forall|o: Seq<char>, s: Seq<char>|
            !(o == owner && s == spender) ==> #[trigger] allowance_of(before.update(i, e), o, s) == allowance_of(
                before,
                o,
                s,
            ),
{
    let after = before.update(i, e);
    assert(after[i].0@ == owner && after[i].1@ == spender);
    let k = allowance_index(after, owner, spender);
    if k != i {
        assert(after[k] == before[k]);
    }
    assert forall|o: Seq<char>, s: Seq<char>| !(o == owner && s == spender) implies #[trigger] allowance_of(
        after,
        o,
        s,
    ) == allowance_of(before, o, s) by {
        let ka = allowance_index(after, o, s);
        let kb = allowance_index(before, o, s);
        if ka >= 0 {
            assert(after[ka] == before[ka]);
            if kb != ka {
                assert(before[ka].0@ == o && before[ka].1@ == s);
            }
        } else if kb >= 0 {
            assert(after[kb] == before[kb]);
        }
    }
}

proof fn lemma_push_allowance(
    before: Seq<(String, String, Allowance)>,
    e: (String, String, Allowance),
    owner: Seq<char>,
    spender: Seq<char>,
)
    requires
        allowance_index(before, owner, spender) == -1,
        e.0@ == owner && e.1@ == spender,
        forall|a: int, b: int|
            0 <= a < b < before.len() ==> !(before[a].0@ == before[b].0@ && before[a].1@ == before[b].1@),
    ensures
        forall|a: int, b: int|
            0 <= a < b < before.push(e).len() ==> !(before.push(e)[a].0@ == before.push(e)[b].0@
                && before.push(e)[a].1@ == before.push(e)[b].1@),
        allowance_of(before.push(e), owner, spender) == e.2,
        forall|o: Seq<char>, s: Seq<char>|
            !(o == owner && s == spender) ==> #[trigger] allowance_of(before.push(e), o, s) == allowance_of(
                before,
                o,
                s,
            ),
{
    let after = before.push(e);
    let n = before.len() as int;
    assert(after[n] == e);
    assert forall|a: int, b: int| 0 <= a < b < after.len() implies !(after[a].0@ == after[b].0@ && after[a].1@
        == after[b].1@) by {
        if b == n {
            assert(after[a] == before[a]);
        }
    }
    let k = allowance_index(after, owner, spender);
    if k < n {
        assert(after[k] == before[k]);
    }
    assert forall|o: Seq<char>, s: Seq<char>| !(o == owner && s == spender) implies #[trigger] allowance_of(
        after,
        o,
        s,
    ) == allowance_of(before, o, s) by {
        let ka = allowance_index(after, o, s);
        let kb = allowance_index(before, o, s);
        if ka >= 0 && ka < n {
            assert(after[ka] == before[ka]);
        }
        if kb >= 0 {
            assert(after[kb] == before[kb]);
        }
    }
}

proof fn lemma_remove_allowance(before: Seq<(String, String, Allowance)>, i: int, owner: Seq<char>, spender: Seq<char>)
    requires
        0 <= i < before.len(),
        i == allowance_index(before, owner, spender),
        forall|a: int, b: int|
            0 <= a < b < before.len() ==> !(before[a].0@ == before[b].0@ && before[a].1@ == before[b].1@),
    ensures
        forall|a: int, b: int|
            0 <= a < b < before.remove(i).len() ==> !(before.remove(i)[a].0@ == before.remove(i)[b].0@
                && before.remove(i)[a].1@ == before.remove(i)[b].1@),
        allowance_index(before.remove(i), owner, spender) == -1,
        forall|o: Seq<char>, s: Seq<char>|
            !(o == owner && s == spender) ==> #[trigger] allowance_of(before.remove(i), o, s) == allowance_of(
                before,
                o,
                s,
            ),
{
    let after = before.remove(i);
    assert(before[i].0@ == owner && before[i].1@ == spender);
    assert forall|a: int, b: int| 0 <= a < b < after.len() implies !(after[a].0@ == after[b].0@ && after[a].1@
        == after[b].1@) by {
        let a2 = if a < i { a } else { a + 1 };
        let b2 = if b < i { b } else { b + 1 };
        assert(after[a] == before[a2]);
        assert(after[b] == before[b2]);
    }
    if allowance_index(after, owner, spender) >= 0 {
        let k = allowance_index(after, owner, spender);
        let k2 = if k < i { k } else { k + 1 };
        assert(after[k] == before[k2]);
        if k2 < i {
            assert(false);
        } else {
            assert(!(before[i].0@ == before[k2].0@ && before[i].1@ == before[k2].1@));
        }
    }
    assert forall|o: Seq<char>, s: Seq<char>| !(o == owner && s == spender) implies #[trigger] allowance_of(
        after,
        o,
        s,
    ) == allowance_of(before, o, s) by {
        let ka = allowance_index(after, o, s);
        let kb = allowance_index(before, o, s);
        if ka >= 0 {
            let k2 = if ka < i { ka } else { ka + 1 };
            assert(after[ka] == before[k2]);
            if kb != k2 {
                assert(before[k2].0@ == o && before[k2].1@ == s);
            }
        } else if kb >= 0 {
            if kb == i {
                assert(before[i].0@ == owner && before[i].1@ == spender);
            } else {
                let k1 = if kb < i { kb } else { kb - 1 };
                assert(after[k1] == before[kb]);
            }
        }
    }
}

/// Atoms of a liquidity token per unit of its CW20 amount (six decimals).
pub const ATOMS_PER_TOKEN_UNIT: u128 = 1_000_000_000_000u128;

/// A CW20 amount (six decimals) as a token number; every amount is in
/// range.
pub fn token_units_to_number(amount: u128) -> (r: Option<Number>)
    ensures
        match r {
            Some(n) => n@ == amount * 1_000_000_000_000,
            None => !in_range(amount * 1_000_000_000_000),
        },
        r is Some,
{
    proof {
        crate::number::lemma_mul_whole(amount as int, 1_000_000_000_000);
    }
    Number::from_unsigned_atoms(amount).checked_mul(&Number::from_u64(1_000_000_000_000))
}

/// Whether changing a provider's balance by `delta` succeeds: the provider
/// can be brought up to date, LP does not leave during its liquidity
/// cooldown, and the balance stays in range and not negative.
pub open spec fn spec_balance_change_ok(
    ledger: Seq<YieldPerToken>,
    now: u64,
    a: LiquidityStatsByAddr,
    delta: int,
    kind: LiquidityTokenKind,
) -> bool {
    match spec_book_keeping(ledger, now, a) {
        Err(_) => false,
        Ok(b) => {
            &&& !(delta < 0 && kind == LiquidityTokenKind::Lp && (b.cooldown_ends matches Some(ends) && now < ends))
            &&& match kind {
                LiquidityTokenKind::Lp => in_range(b.lp@ + delta) && b.lp@ + delta >= 0,
                LiquidityTokenKind::Xlp => in_range(b.xlp@ + delta) && b.xlp@ + delta >= 0,
            }
        },
    }
}

/// Whether moving `amount` CW20 units between two providers succeeds: the
/// amount is a token number, it can leave the one and reach the other.
pub open spec fn spec_transfer_ok(
    ledger: Seq<YieldPerToken>,
    now: u64,
    owner: LiquidityStatsByAddr,
    recipient: LiquidityStatsByAddr,
    amount: u128,
    kind: LiquidityTokenKind,
) -> bool {
    &&& in_range(amount * 1_000_000_000_000)
    &&& spec_balance_change_ok(ledger, now, owner, -(amount * 1_000_000_000_000), kind)
    &&& spec_balance_change_ok(ledger, now, recipient, amount * 1_000_000_000_000, kind)
}

/// The provider's balance of a token: LP (not counting what is
/// unstaking) or xLP.
pub open spec fn balance_of(a: LiquidityStatsByAddr, kind: LiquidityTokenKind) -> int {
    match kind {
        LiquidityTokenKind::Lp => a.lp@,
        LiquidityTokenKind::Xlp => a.xlp@,
    }
}

/// Changes a provider's balance of a token by `delta`, after bringing the
/// provider up to date; LP may leave only outside the liquidity cooldown,
/// and no balance may become negative.
pub fn liquidity_token_balance_change(
    ledger: &YieldLedger,
    now: u64,
    a: &mut LiquidityStatsByAddr,
    delta: Number,
    kind: LiquidityTokenKind,
) -> (r: Result<(), PerpError>)
    requires
        ledger.wf(),
        old(a).wf(),
        old(a).last_accrue_key < ledger@.len(),
    ensures
        r is Err ==> *final(a) == *old(a),
        r is Ok ==> final(a).wf() && final(a).last_accrue_key == ledger@.len() - 1,
        r is Ok ==> match kind {
            LiquidityTokenKind::Lp => lp_claim(*final(a)) == lp_claim(*old(a)) + delta@ && final(a).xlp
                == old(a).xlp,
            LiquidityTokenKind::Xlp => final(a).xlp@ == old(a).xlp@ + delta@ && lp_claim(*final(a)) == lp_claim(
                *old(a),
            ),
        },
        delta@ < 0 && kind == LiquidityTokenKind::Lp && (old(a).cooldown_ends matches Some(ends) && now < ends)
            ==> r is Err,
        r is Ok <==> spec_balance_change_ok(ledger@, now, *old(a), delta@, kind),
        r is Ok ==> (spec_book_keeping(ledger@, now, *old(a)) matches Ok(b) && match kind {
            LiquidityTokenKind::Lp => final(a).lp@ == b.lp@ + delta@ && *final(a) == LiquidityStatsByAddr {
                lp: final(a).lp,
                ..b
            },
            LiquidityTokenKind::Xlp => final(a).xlp@ == b.xlp@ + delta@ && *final(a) == LiquidityStatsByAddr {
                xlp: final(a).xlp,
                ..b
            },
        }),
{
    let mut b = *a;
    perform_lp_book_keeping(ledger, now, &mut b)?;
    if delta.is_negative() && kind == LiquidityTokenKind::Lp {
        ensure_liquidity_cooldown(now, &b)?;
    }
    delta.range_fact();
    match kind {
        LiquidityTokenKind::Lp => {
            b.lp.range_fact();
            let n = match b.lp.checked_add(&delta) {
                Some(n) => n,
                None => return Err(PerpError::Arithmetic),
            };
            if n.is_negative() {
                return Err(PerpError::InsufficientTokens);
            }
            b.lp = n;
        },
        LiquidityTokenKind::Xlp => {
            b.xlp.range_fact();
            let n = match b.xlp.checked_add(&delta) {
                Some(n) => n,
                None => return Err(PerpError::Arithmetic),
            };
            if n.is_negative() {
                return Err(PerpError::InsufficientTokens);
            }
            b.xlp = n;
        },
    }
    *a = b;
    Ok(())
}

/// Moves `amount` (CW20 units) of a token from one provider to another;
/// the tokens leave one balance and reach the other.
pub fn liquidity_token_transfer(
    ledger: &YieldLedger,
    now: u64,
    owner: &mut LiquidityStatsByAddr,
    recipient: &mut LiquidityStatsByAddr,
    amount: u128,
    kind: LiquidityTokenKind,
) -> (r: Result<(), PerpError>)
    requires
        ledger.wf(),
        old(owner).wf(),
        old(owner).last_accrue_key < ledger@.len(),
        old(recipient).wf(),
        old(recipient).last_accrue_key < ledger@.len(),
    ensures
        r is Err ==> *final(owner) == *old(owner) && *final(recipient) == *old(recipient),
        r is Ok ==> final(owner).wf() && final(recipient).wf(),
        // Transfers neither create nor destroy tokens.
        r is Ok ==> match kind {
            LiquidityTokenKind::Lp => lp_claim(*final(owner)) + lp_claim(*final(recipient)) == lp_claim(
                *old(owner),
            ) + lp_claim(*old(recipient)) && lp_claim(*final(owner)) == lp_claim(*old(owner)) - amount
                * 1_000_000_000_000,
            LiquidityTokenKind::Xlp => final(owner).xlp@ + final(recipient).xlp@ == old(owner).xlp@ + old(
                recipient,
            ).xlp@ && final(owner).xlp@ == old(owner).xlp@ - amount * 1_000_000_000_000,
        },
        r is Ok <==> spec_transfer_ok(ledger@, now, *old(owner), *old(recipient), amount, kind),
{
    let amount = match token_units_to_number(amount) {
        Some(n) => n,
        None => return Err(PerpError::Arithmetic),
    };
    amount.range_fact();
    let mut from = *owner;
    let mut to = *recipient;
    liquidity_token_balance_change(ledger, now, &mut from, amount.neg(), kind)?;
    liquidity_token_balance_change(ledger, now, &mut to, amount, kind)?;
    *owner = from;
    *recipient = to;
    Ok(())
}

/// Why spending `amount` of an allowance is refused, if it is.
pub open spec fn spec_allowance_refusal(
    entries: Seq<(String, String, Allowance)>,
    owner: Seq<char>,
    spender: Seq<char>,
    amount: u128,
    height: u64,
    time: u64,
) -> Option<PerpError> {
    let before = allowance_of(entries, owner, spender);
    if allowance_index(entries, owner, spender) < 0 {
        Some(PerpError::NoAllowance)
    } else if spec_is_expired(before.expires, height, time) {
        Some(PerpError::AllowanceExpired)
    } else if before.allowance < amount {
        Some(PerpError::InsufficientAllowance)
    } else {
        None
    }
}

/// Moves `amount` (CW20 units) of a token from `owner` to `recipient` on
/// behalf of `sender`, spending the allowance the owner gave the sender:
/// the allowance is spent first, then the tokens move as in
/// [`liquidity_token_transfer`]. When the move itself fails the allowance
/// has been spent already; the transaction is then discarded whole.
pub fn liquidity_token_transfer_from(
    ledger: &YieldLedger,
    now: u64,
    height: u64,
    allowances: &mut Allowances,
    sender: &String,
    owner_addr: &String,
    owner: &mut LiquidityStatsByAddr,
    recipient: &mut LiquidityStatsByAddr,
    amount: u128,
    kind: LiquidityTokenKind,
) -> (r: Result<(), PerpError>)
    requires
        ledger.wf(),
        old(allowances).wf(),
        old(owner).wf(),
        old(owner).last_accrue_key < ledger@.len(),
        old(recipient).wf(),
        old(recipient).last_accrue_key < ledger@.len(),
    ensures
        final(allowances).wf(),
        match spec_allowance_refusal(old(allowances).entries@, owner_addr@, sender@, amount, height, now) {
            Some(e) => r == Err::<(), PerpError>(e) && *final(allowances) == *old(allowances) && *final(owner) == *old(owner)
                && *final(recipient) == *old(recipient),
            None => {
                &&& allowance_of(final(allowances).entries@, owner_addr@, sender@).allowance == allowance_of(
                    old(allowances).entries@,
                    owner_addr@,
                    sender@,
                ).allowance - amount
                &&& (r is Err ==> *final(owner) == *old(owner) && *final(recipient) == *old(recipient))
                &&& (r is Ok <==> spec_transfer_ok(ledger@, now, *old(owner), *old(recipient), amount, kind))
                &&& (r is Ok ==> match kind {
                    LiquidityTokenKind::Lp => lp_claim(*final(owner)) + lp_claim(*final(recipient)) == lp_claim(*old(owner))
                        + lp_claim(*old(recipient)) && lp_claim(*final(owner)) == lp_claim(*old(owner)) - amount
                        * 1_000_000_000_000,
                    LiquidityTokenKind::Xlp => final(owner).xlp@ + final(recipient).xlp@ == old(owner).xlp@ + old(
                        recipient,
                    ).xlp@ && final(owner).xlp@ == old(owner).xlp@ - amount * 1_000_000_000_000,
                })
            },
        },
{
    allowances.deduct_allowance(owner_addr, sender, amount, height, now)?;
    liquidity_token_transfer(ledger, now, owner, recipient, amount, kind)
}

/// A token number as a CW20 amount (six decimals), truncated; nothing for
/// a negative number.
pub open spec fn spec_token_units(atoms: int) -> int {
    if atoms >= 0 {
        atoms / 1_000_000_000_000
    } else {
        0
    }
}

/// A token number as a CW20 amount (six decimals), truncated.
pub fn number_to_token_units(amount: &Number) -> (r: Option<u128>)
    ensures
        match r {
            Some(u) => u == spec_token_units(amount@),
            None => spec_token_units(amount@) > u128::MAX,
        },
{
    if amount.is_negative() {
        Some(0)
    } else {
        amount.units(ATOMS_PER_TOKEN_UNIT)
    }
}

/// A provider's CW20 balance of a token: for LP, its LP counting what has
/// unstaked and is not collected yet ([`spec_lp_info`]); for xLP, the xLP it
/// holds, not counting what is unstaking, which cannot move.
pub fn liquidity_token_balance(
    ledger: &YieldLedger,
    now: u64,
    pool: &LiquidityStats,
    a: &LiquidityStatsByAddr,
    kind: LiquidityTokenKind,
) -> (r: Result<u128, PerpError>)
    requires
        ledger.wf(),
        a.wf(),
        a.last_accrue_key < ledger@.len(),
        a.unstaking matches Some(u) ==> u.unstake_started + u.unstake_duration <= u64::MAX,
    ensures
        match kind {
            LiquidityTokenKind::Lp => match spec_lp_info(ledger@, now, *pool, *a) {
                Ok(info) => if spec_token_units(info.lp_amount@) <= u128::MAX {
                    r == Ok::<u128, PerpError>(spec_token_units(info.lp_amount@) as u128)
                } else {
                    r == Err::<u128, PerpError>(PerpError::Arithmetic)
                },
                Err(e) => r == Err::<u128, PerpError>(e),
            },
            LiquidityTokenKind::Xlp => if spec_token_units(a.xlp@) <= u128::MAX {
                r == Ok::<u128, PerpError>(spec_token_units(a.xlp@) as u128)
            } else {
                r == Err::<u128, PerpError>(PerpError::Arithmetic)
            },
        },
{
    match kind {
        LiquidityTokenKind::Lp => {
            let info = lp_info(ledger, now, pool, a)?;
            match number_to_token_units(&info.lp_amount) {
                Some(u) => Ok(u),
                None => Err(PerpError::Arithmetic),
            }
        },
        LiquidityTokenKind::Xlp => match number_to_token_units(&a.xlp) {
            Some(u) => Ok(u),
            None => Err(PerpError::Arithmetic),
        },
    }
}

/// The message a contract receives with tokens sent to it.
#[derive(Clone, Debug)]
pub struct Cw20Receive {
    /// Who sent the tokens.
    pub sender: String,
    pub amount: u128,
}

/// Sends `amount` of the owner's tokens to a contract: moved as by
/// [`liquidity_token_transfer`], with the message the contract receives.
pub fn liquidity_token_send(
    ledger: &YieldLedger,
    now: u64,
    owner_addr: &String,
    owner: &mut LiquidityStatsByAddr,
    contract: &mut LiquidityStatsByAddr,
    amount: u128,
    kind: LiquidityTokenKind,
) -> (r: Result<Cw20Receive, PerpError>)
    requires
        ledger.wf(),
        old(owner).wf(),
        old(owner).last_accrue_key < ledger@.len(),
        old(contract).wf(),
        old(contract).last_accrue_key < ledger@.len(),
    ensures
        r is Err ==> *final(owner) == *old(owner) && *final(contract) == *old(contract),
        r matches Ok(m) ==> m.sender@ == owner_addr@ && m.amount == amount,
        r is Ok <==> spec_transfer_ok(ledger@, now, *old(owner), *old(contract), amount, kind),
        r is Ok ==> final(owner).wf() && final(contract).wf(),
        r is Ok ==> match kind {
            LiquidityTokenKind::Lp => lp_claim(*final(owner)) + lp_claim(*final(contract)) == lp_claim(
                *old(owner),
            ) + lp_claim(*old(contract)) && lp_claim(*final(owner)) == lp_claim(*old(owner)) - amount
                * 1_000_000_000_000,
            LiquidityTokenKind::Xlp => final(owner).xlp@ + final(contract).xlp@ == old(owner).xlp@ + old(
                contract,
            ).xlp@ && final(owner).xlp@ == old(owner).xlp@ - amount * 1_000_000_000_000,
        },
{
    liquidity_token_transfer(ledger, now, owner, contract, amount, kind)?;
    Ok(Cw20Receive { sender: owner_addr.clone(), amount })
}

/// Sends `amount` of the owner's tokens to a contract on the owner's
/// behalf: spent from the sender's allowance and moved as by
/// [`liquidity_token_transfer_from`], with the message the contract
/// receives, which names the sender.
pub fn liquidity_token_send_from(
    ledger: &YieldLedger,
    now: u64,
    height: u64,
    allowances: &mut Allowances,
    sender: &String,
    owner_addr: &String,
    owner: &mut LiquidityStatsByAddr,
    contract: &mut LiquidityStatsByAddr,
    amount: u128,
    kind: LiquidityTokenKind,
) -> (r: Result<Cw20Receive, PerpError>)
    requires
        ledger.wf(),
        old(allowances).wf(),
        old(owner).wf(),
        old(owner).last_accrue_key < ledger@.len(),
        old(contract).wf(),
        old(contract).last_accrue_key < ledger@.len(),
    ensures
        final(allowances).wf(),
        match spec_allowance_refusal(old(allowances).entries@, owner_addr@, sender@, amount, height, now) {
            Some(e) => r matches Err(f) && f == e && *final(allowances) == *old(allowances) && *final(owner) == *old(owner)
                && *final(contract) == *old(contract),
            None => {
                &&& allowance_of(final(allowances).entries@, owner_addr@, sender@).allowance == allowance_of(
                    old(allowances).entries@,
                    owner_addr@,
                    sender@,
                ).allowance - amount
                &&& (r is Err ==> *final(owner) == *old(owner) && *final(contract) == *old(contract))
                &&& (r is Ok <==> spec_transfer_ok(ledger@, now, *old(owner), *old(contract), amount, kind))
                &&& (r matches Ok(m) ==> m.sender@ == sender@ && m.amount == amount)
                &&& (r is Ok ==> match kind {
                    LiquidityTokenKind::Lp => lp_claim(*final(owner)) + lp_claim(*final(contract)) == lp_claim(*old(owner))
                        + lp_claim(*old(contract)) && lp_claim(*final(owner)) == lp_claim(*old(owner)) - amount
                        * 1_000_000_000_000,
                    LiquidityTokenKind::Xlp => final(owner).xlp@ + final(contract).xlp@ == old(owner).xlp@ + old(
                        contract,
                    ).xlp@ && final(owner).xlp@ == old(owner).xlp@ - amount * 1_000_000_000_000,
                })
            },
        },
{
    liquidity_token_transfer_from(ledger, now, height, allowances, sender, owner_addr, owner, contract, amount, kind)?;
    Ok(Cw20Receive { sender: sender.clone(), amount })
}

} // verus!
