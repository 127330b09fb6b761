//! The price triggers of open positions: the notional prices at which a
//! position is liquidated, reaches its maximum gains, or hits its stop loss
//! or take profit.
//!
//! Triggers that fire when the price falls to them are kept on the
//! descending side (a long's liquidation and stop loss, a short's maximum
//! gains and take profit); those that fire when the price rises to them on
//! the ascending side. Each side is keyed by price and position.
use crate::crank::LiquidationReason;
use crate::number::Number;
use crate::price::{into_notional_price, spec_into_notional_price, DirectionToNotional, MarketType};
use vstd::prelude::*;

verus! {

/// A trigger: a price, the position, and why the position closes there.
#[derive(Clone, Copy, Debug, PartialEq, Eq, Structural)]
pub struct TriggerEntry {
    pub price: Number,
    pub id: u64,
    pub reason: LiquidationReason,
}

/// The triggers of one side, each price and position at most once.
#[derive(Debug)]
pub struct TriggerSide {
    pub entries: Vec<TriggerEntry>,
}

/// Whether the entry has the key `(price, id)`.
pub open spec fn has_key(e: TriggerEntry, price: int, id: u64) -> bool {
    e.price@ == price && e.id == id
}

/// Keys are unique.
pub open spec fn unique_keys(s: Seq<TriggerEntry>) -> bool {
    forall|a: int, b: int|
        0 <= a < b < s.len() ==> !(#[trigger] s[a].price@ == #[trigger] s[b].price@ && s[a].id == s[b].id)
}

/// Index of the entry keyed `(price, id)`, or -1.
pub open spec fn key_index(s: Seq<TriggerEntry>, price: int, id: u64) -> int {
    if exists|i: int| 0 <= i < s.len() && has_key(s[i], price, id) {
        choose|i: int| 0 <= i < s.len() && has_key(s[i], price, id)
    } else {
        -1
    }
}

/// The reason stored under `(price, id)`, if any.
pub open spec fn reason_at(s: Seq<TriggerEntry>, price: int, id: u64) -> Option<LiquidationReason> {
    let i = key_index(s, price, id);
    if i >= 0 {
        Some(s[i].reason)
    } else {
        None
    }
}

/// Lexicographic order on keys: by price, then by position.
pub open spec fn key_le(a: TriggerEntry, b: TriggerEntry) -> bool {
    a.price@ < b.price@ || (a.price@ == b.price@ && a.id <= b.id)
}

/// Entry `i` has the largest key among those priced at or above `price`.
pub open spec fn is_top_at_or_above(s: Seq<TriggerEntry>, price: int, i: int) -> bool {
    &&& 0 <= i < s.len()
    &&& s[i].price@ >= price
    &&& forall|j: int| 0 <= j < s.len() && #[trigger] s[j].price@ >= price ==> key_le(s[j], s[i])
}

/// Entry `i` has the smallest key among those priced at or below `price`.
pub open spec fn is_bottom_at_or_below(s: Seq<TriggerEntry>, price: int, i: int) -> bool {
    &&& 0 <= i < s.len()
    &&& s[i].price@ <= price
    &&& forall|j: int| 0 <= j < s.len() && #[trigger] s[j].price@ <= price ==> key_le(s[i], s[j])
}

/// With unique keys, the entry found under a key is the one at `i`.
proof fn lemma_key_index_at(s: Seq<TriggerEntry>, price: int, id: u64, i: int)
    requires
        unique_keys(s),
        0 <= i < s.len(),
        has_key(s[i], price, id),
    ensures
        key_index(s, price, id) == i,
{
    let j = key_index(s, price, id);
    if j != i {
        if j < i {
            assert(!(s[j].price@ == s[i].price@ && s[j].id == s[i].id));
        } else {
            assert(!(s[i].price@ == s[j].price@ && s[i].id == s[j].id));
        }
    }
}

impl TriggerSide {
    pub open spec fn wf(&self) -> bool {
        unique_keys(self.entries@)
    }

    /// The reason stored under `(price, id)`, if any.
    pub open spec fn lookup(&self, price: int, id: u64) -> Option<LiquidationReason> {
        reason_at(self.entries@, price, id)
    }

    pub fn new() -> (r: TriggerSide)
        ensures
            r.wf(),
            r.entries@.len() == 0,
            forall|p: int, i: u64| #[trigger] r.lookup(p, i) is None,
    {
        TriggerSide { entries: Vec::new() }
    }

    fn find(&self, price: &Number, id: u64) -> (r: Option<usize>)
        requires
            self.wf(),
        ensures
            match r {
                Some(i) => i == key_index(self.entries@, price@, id) && i < self.entries@.len(),
                None => key_index(self.entries@, price@, id) == -1,
            },
    {
        let mut i: usize = 0;
        while i < self.entries.len()
            invariant
                self.wf(),
                i <= self.entries@.len(),
                forall|k: int| 0 <= k < i ==> !has_key(#[trigger] self.entries@[k], price@, id),
            decreases self.entries@.len() - i,
        {
            if self.entries[i].price.eq(price) && self.entries[i].id == id {
                proof {
                    lemma_key_index_at(self.entries@, price@, id, i as int);
                }
                return Some(i);
            }
            i += 1;
        }
        None
    }

    /// Stores `reason` under `(price, id)`, replacing what was there.
    pub fn upsert(&mut self, price: Number, id: u64, reason: LiquidationReason)
        requires
            old(self).wf(),
        ensures
            final(self).wf(),
            forall|p: int, i: u64|
                #[trigger] final(self).lookup(p, i) == if p == price@ && i == id {
                    Some(reason)
                } else {
                    old(self).lookup(p, i)
                },
    {
        let e = TriggerEntry { price, id, reason };
        let ghost s = self.entries@;
        match self.find(&price, id) {
            Some(k) => {
                self.entries.set(k, e);
                proof {
                    let n = self.entries@;
                    assert forall|a: int, b: int| 0 <= a < b < n.len() implies !(#[trigger] n[a].price@
                        == #[trigger] n[b].price@ && n[a].id == n[b].id) by {
                        assert(has_key(n[a], s[a].price@, s[a].id) && has_key(n[b], s[b].price@, s[b].id));
                    }
                    lemma_key_index_at(n, price@, id, k as int);
                    assert forall|p: int, i: u64| !(p == price@ && i == id) implies #[trigger] reason_at(n, p, i)
                        == reason_at(s, p, i) by {
                        if exists|j: int| 0 <= j < s.len() && has_key(s[j], p, i) {
                            let j = choose|j: int| 0 <= j < s.len() && has_key(s[j], p, i);
                            lemma_key_index_at(s, p, i, j);
                            assert(j != k);
                            lemma_key_index_at(n, p, i, j);
                        } else {
                            assert(!exists|j: int| 0 <= j < n.len() && has_key(n[j], p, i)) by {
                                if exists|j: int| 0 <= j < n.len() && has_key(n[j], p, i) {
                                    let j = choose|j: int| 0 <= j < n.len() && has_key(n[j], p, i);
                                    assert(has_key(s[j], p, i));
                                }
                            }
                        }
                    }
                }
            },
            None => {
                self.entries.push(e);
                proof {
                    let n = self.entries@;
                    assert forall|a: int, b: int| 0 <= a < b < n.len() implies !(#[trigger] n[a].price@
                        == #[trigger] n[b].price@ && n[a].id == n[b].id) by {
                        if b == s.len() {
                            assert(!(0 <= a < s.len() && has_key(s[a], price@, id)));
                        }
                    }
                    lemma_key_index_at(n, price@, id, s.len() as int);
                    assert forall|p: int, i: u64| !(p == price@ && i == id) implies #[trigger] reason_at(n, p, i)
                        == reason_at(s, p, i) by {
                        if exists|j: int| 0 <= j < s.len() && has_key(s[j], p, i) {
                            let j = choose|j: int| 0 <= j < s.len() && has_key(s[j], p, i);
                            lemma_key_index_at(s, p, i, j);
                            lemma_key_index_at(n, p, i, j);
                        } else {
                            assert(!exists|j: int| 0 <= j < n.len() && has_key(n[j], p, i)) by {
                                if exists|j: int| 0 <= j < n.len() && has_key(n[j], p, i) {
                                    let j = choose|j: int| 0 <= j < n.len() && has_key(n[j], p, i);
                                    assert(j < s.len());
                                }
                            }
                        }
                    }
                }
            },
        }
    }

    /// Removes what is stored under `(price, id)`.
    pub fn remove_key(&mut self, price: &Number, id: u64)
        requires
            old(self).wf(),
        ensures
            final(self).wf(),
            forall|p: int, i: u64|
                #[trigger] final(self).lookup(p, i) == if p == price@ && i == id {
                    None
                } else {
                    old(self).lookup(p, i)
                },
    {
        let ghost s = self.entries@;
        match self.find(price, id) {
            Some(k) => {
                self.entries.remove(k);
                proof {
                    let n = self.entries@;
                    assert(n =~= s.remove(k as int));
                    assert forall|a: int, b: int| 0 <= a < b < n.len() implies !(#[trigger] n[a].price@
                        == #[trigger] n[b].price@ && n[a].id == n[b].id) by {
                        let a0 = if a < k { a } else { a + 1 };
                        let b0 = if b < k { b } else { b + 1 };
                        assert(n[a] == s[a0] && n[b] == s[b0]);
                    }
                    assert(!exists|j: int| 0 <= j < n.len() && has_key(n[j], price@, id)) by {
                        if exists|j: int| 0 <= j < n.len() && has_key(n[j], price@, id) {
                            let j = choose|j: int| 0 <= j < n.len() && has_key(n[j], price@, id);
                            let j0 = if j < k { j } else { j + 1 };
                            assert(n[j] == s[j0]);
                            lemma_key_index_at(s, price@, id, j0);
                        }
                    }
                    assert forall|p: int, i: u64| !(p == price@ && i == id) implies #[trigger] reason_at(n, p, i)
                        == reason_at(s, p, i) by {
                        if exists|j: int| 0 <= j < s.len() && has_key(s[j], p, i) {
                            let j = choose|j: int| 0 <= j < s.len() && has_key(s[j], p, i);
                            lemma_key_index_at(s, p, i, j);
                            assert(j != k);
                            let j1 = if j < k { j } else { j - 1 };
                            assert(n[j1] == s[j]);
                            lemma_key_index_at(n, p, i, j1);
                        } else {
                            assert(!exists|j: int| 0 <= j < n.len() && has_key(n[j], p, i)) by {
                                if exists|j: int| 0 <= j < n.len() && has_key(n[j], p, i) {
                                    let j = choose|j: int| 0 <= j < n.len() && has_key(n[j], p, i);
                                    let j0 = if j < k { j } else { j + 1 };
                                    assert(n[j] == s[j0]);
                                }
                            }
                        }
                    }
                }
            },
            None => {},
        }
    }
}

/// The prices at which a position closes, in notional: liquidation,
/// maximum gains, and the trader's stop loss and take profit.
#[derive(Clone, Copy, Debug, PartialEq, Eq, Structural)]
pub struct TriggerPrices {
    pub liquidation_price: Option<Number>,
    pub take_profit_price: Option<Number>,
    pub stop_loss_override: Option<Number>,
    pub take_profit_override: Option<Number>,
}

/// The triggers of all open positions.
#[derive(Debug)]
pub struct PriceTriggers {
    /// Triggers that fire when the price falls to them.
    pub desc: TriggerSide,
    /// Triggers that fire when the price rises to them.
    pub asc: TriggerSide,
}

/// The two triggers that a position keeps on one side, in the order they
/// are stored: a long keeps its liquidation and stop loss on the falling
/// side, its maximum gains and take profit on the rising one; a short the
/// other way round.
pub open spec fn side_triggers(dir: DirectionToNotional, prices: TriggerPrices, falling: bool) -> (
    (Option<Number>, LiquidationReason),
    (Option<Number>, LiquidationReason),
) {
    let losses = (
        (prices.liquidation_price, LiquidationReason::Liquidated),
        (prices.stop_loss_override, LiquidationReason::StopLoss),
    );
    let gains = (
        (prices.take_profit_price, LiquidationReason::MaxGains),
        (prices.take_profit_override, LiquidationReason::TakeProfit),
    );
    if (dir == DirectionToNotional::Long) == falling {
        losses
    } else {
        gains
    }
}

/// Whether an optional trigger price is `price`.
pub open spec fn priced_at(o: Option<Number>, price: int) -> bool {
    o matches Some(x) && x@ == price
}

/// What storing the position's triggers puts under `(price, i)` on one side:
/// the later of its two triggers wins when both have that price.
pub open spec fn stored_reason(
    id: u64,
    dir: DirectionToNotional,
    prices: TriggerPrices,
    falling: bool,
    price: int,
    i: u64,
) -> Option<LiquidationReason> {
    let (first, second) = side_triggers(dir, prices, falling);
    if i != id {
        None
    } else if priced_at(second.0, price) {
        Some(second.1)
    } else if priced_at(first.0, price) {
        Some(first.1)
    } else {
        None
    }
}

impl TriggerSide {
    fn store_pair(
        &mut self,
        id: u64,
        first: (Option<Number>, LiquidationReason),
        second: (Option<Number>, LiquidationReason),
    )
        requires
            old(self).wf(),
        ensures
            final(self).wf(),
            forall|p: int, i: u64|
                #[trigger] final(self).lookup(p, i) == if i == id && priced_at(second.0, p) {
                    Some(second.1)
                } else if i == id && priced_at(first.0, p) {
                    Some(first.1)
                } else {
                    old(self).lookup(p, i)
                },
    {
        if let Some(x) = first.0 {
            self.upsert(x, id, first.1);
        }
        if let Some(x) = second.0 {
            self.upsert(x, id, second.1);
        }
    }

    fn remove_pair(&mut self, id: u64, first: Option<Number>, second: Option<Number>)
        requires
            old(self).wf(),
        ensures
            final(self).wf(),
            forall|p: int, i: u64|
                #[trigger] final(self).lookup(p, i) == if i == id && (priced_at(second, p) || priced_at(first, p)) {
                    None
                } else {
                    old(self).lookup(p, i)
                },
    {
        if let Some(x) = first {
            self.remove_key(&x, id);
        }
        if let Some(x) = second {
            self.remove_key(&x, id);
        }
    }

    /// The entry with the largest key priced at or above `price`.
    fn top_at_or_above(&self, price: &Number) -> (r: Option<usize>)
        ensures
            match r {
                Some(i) => is_top_at_or_above(self.entries@, price@, i as int),
                None => forall|j: int| 0 <= j < self.entries@.len() ==> #[trigger] self.entries@[j].price@ < price@,
            },
    {
        let mut best: Option<usize> = None;
        let mut i: usize = 0;
        while i < self.entries.len()
            invariant
                i <= self.entries@.len(),
                match best {
                    Some(b) => b < i && self.entries@[b as int].price@ >= price@ && forall|j: int|
                        0 <= j < i && #[trigger] self.entries@[j].price@ >= price@ ==> key_le(
                            self.entries@[j],
                            self.entries@[b as int],
                        ),
                    None => forall|j: int| 0 <= j < i ==> #[trigger] self.entries@[j].price@ < price@,
                },
            decreases self.entries@.len() - i,
        {
            let e = self.entries[i];
            if price.le(&e.price) {
                match best {
                    None => {
                        best = Some(i);
                    },
                    Some(b) => {
                        let c = self.entries[b];
                        if c.price.lt(&e.price) || (c.price.eq(&e.price) && c.id <= e.id) {
                            best = Some(i);
                        }
                    },
                }
            }
            i += 1;
        }
        best
    }

    /// The entry with the smallest key priced at or below `price`.
    fn bottom_at_or_below(&self, price: &Number) -> (r: Option<usize>)
        ensures
            match r {
                Some(i) => is_bottom_at_or_below(self.entries@, price@, i as int),
                None => forall|j: int| 0 <= j < self.entries@.len() ==> #[trigger] self.entries@[j].price@ > price@,
            },
    {
        let mut best: Option<usize> = None;
        let mut i: usize = 0;
        while i < self.entries.len()
            invariant
                i <= self.entries@.len(),
                match best {
                    Some(b) => b < i && self.entries@[b as int].price@ <= price@ && forall|j: int|
                        0 <= j < i && #[trigger] self.entries@[j].price@ <= price@ ==> key_le(
                            self.entries@[b as int],
                            self.entries@[j],
                        ),
                    None => forall|j: int| 0 <= j < i ==> #[trigger] self.entries@[j].price@ > price@,
                },
            decreases self.entries@.len() - i,
        {
            let e = self.entries[i];
            if e.price.le(price) {
                match best {
                    None => {
                        best = Some(i);
                    },
                    Some(b) => {
                        let c = self.entries[b];
                        if e.price.lt(&c.price) || (e.price.eq(&c.price) && e.id <= c.id) {
                            best = Some(i);
                        }
                    },
                }
            }
            i += 1;
        }
        best
    }

    /// Whether some trigger is priced in `[low, high)` (`high_inclusive`
    /// false) or `(low, high]` (true).
    fn any_between(&self, low: &Number, high: &Number, high_inclusive: bool) -> (r: bool)
        ensures
            r == exists|j: int|
                0 <= j < self.entries@.len() && #[trigger] in_window(self.entries@[j].price@, low@, high@, high_inclusive),
    {
        let mut i: usize = 0;
        while i < self.entries.len()
            invariant
                i <= self.entries@.len(),
                forall|j: int| 0 <= j < i ==> !#[trigger] in_window(self.entries@[j].price@, low@, high@, high_inclusive),
            decreases self.entries@.len() - i,
        {
            let x = self.entries[i].price;
            let inside = if high_inclusive {
                low.lt(&x) && x.le(high)
            } else {
                low.le(&x) && x.lt(high)
            };
            if inside {
                proof {
                    assert(in_window(self.entries@[i as int].price@, low@, high@, high_inclusive));
                }
                return true;
            }
            i += 1;
        }
        false
    }
}

/// Whether `x` lies in `[low, high)` or, when `high_inclusive`, `(low, high]`.
pub open spec fn in_window(x: int, low: int, high: int, high_inclusive: bool) -> bool {
    if high_inclusive {
        low < x <= high
    } else {
        low <= x < high
    }
}

impl PriceTriggers {
    pub open spec fn wf(&self) -> bool {
        self.desc.wf() && self.asc.wf()
    }

    /// No triggers.
    pub fn new() -> (r: PriceTriggers)
        ensures
            r.wf(),
            r.desc.entries@.len() == 0 && r.asc.entries@.len() == 0,
    {
        PriceTriggers { desc: TriggerSide::new(), asc: TriggerSide::new() }
    }

    /// Stores the position's triggers on their sides.
    pub fn store_liquidation_prices(&mut self, id: u64, dir: DirectionToNotional, prices: TriggerPrices)
        requires
            old(self).wf(),
        ensures
            final(self).wf(),
            forall|p: int, i: u64|
                #[trigger] final(self).desc.lookup(p, i) == match stored_reason(id, dir, prices, true, p, i) {
                    Some(r) => Some(r),
                    None => old(self).desc.lookup(p, i),
                },
            forall|p: int, i: u64|
                #[trigger] final(self).asc.lookup(p, i) == match stored_reason(id, dir, prices, false, p, i) {
                    Some(r) => Some(r),
                    None => old(self).asc.lookup(p, i),
                },
    {
        let losses = (
            (prices.liquidation_price, LiquidationReason::Liquidated),
            (prices.stop_loss_override, LiquidationReason::StopLoss),
        );
        let gains = (
            (prices.take_profit_price, LiquidationReason::MaxGains),
            (prices.take_profit_override, LiquidationReason::TakeProfit),
        );
        match dir {
            DirectionToNotional::Long => {
                self.desc.store_pair(id, losses.0, losses.1);
                self.asc.store_pair(id, gains.0, gains.1);
            },
            DirectionToNotional::Short => {
                self.asc.store_pair(id, losses.0, losses.1);
                self.desc.store_pair(id, gains.0, gains.1);
            },
        }
    }

    /// Removes the position's triggers from their sides.
    pub fn remove_liquidation_prices(&mut self, id: u64, dir: DirectionToNotional, prices: TriggerPrices)
        requires
            old(self).wf(),
        ensures
            final(self).wf(),
            forall|p: int, i: u64|
                #[trigger] final(self).desc.lookup(p, i) == if stored_reason(id, dir, prices, true, p, i) is Some {
                    None
                } else {
                    old(self).desc.lookup(p, i)
                },
            forall|p: int, i: u64|
                #[trigger] final(self).asc.lookup(p, i) == if stored_reason(id, dir, prices, false, p, i) is Some {
                    None
                } else {
                    old(self).asc.lookup(p, i)
                },
    {
        match dir {
            DirectionToNotional::Long => {
                self.desc.remove_pair(id, prices.liquidation_price, prices.stop_loss_override);
                self.asc.remove_pair(id, prices.take_profit_price, prices.take_profit_override);
            },
            DirectionToNotional::Short => {
                self.asc.remove_pair(id, prices.liquidation_price, prices.stop_loss_override);
                self.desc.remove_pair(id, prices.take_profit_price, prices.take_profit_override);
            },
        }
    }

    /// The position to close at `price`: the falling-side trigger with the
    /// largest key at or above the price, else the rising-side trigger with
    /// the smallest key at or below it.
    pub fn liquidatable_position(&self, price: &Number) -> (r: Option<(u64, LiquidationReason)>)
        ensures
            (exists|j: int| 0 <= j < self.desc.entries@.len() && #[trigger] self.desc.entries@[j].price@ >= price@)
                ==> exists|i: int|
                is_top_at_or_above(self.desc.entries@, price@, i) && r == Some(
                    (#[trigger] self.desc.entries@[i].id, self.desc.entries@[i].reason),
                ),
            !(exists|j: int| 0 <= j < self.desc.entries@.len() && #[trigger] self.desc.entries@[j].price@ >= price@)
                && (exists|j: int| 0 <= j < self.asc.entries@.len() && #[trigger] self.asc.entries@[j].price@ <= price@)
                ==> exists|i: int|
                is_bottom_at_or_below(self.asc.entries@, price@, i) && r == Some(
                    (#[trigger] self.asc.entries@[i].id, self.asc.entries@[i].reason),
                ),
            !(exists|j: int| 0 <= j < self.desc.entries@.len() && #[trigger] self.desc.entries@[j].price@ >= price@)
                && !(exists|j: int| 0 <= j < self.asc.entries@.len() && #[trigger] self.asc.entries@[j].price@ <= price@)
                ==> r is None,
    {
        if let Some(i) = self.desc.top_at_or_above(price) {
            let e = self.desc.entries[i];
            return Some((e.id, e.reason));
        }
        if let Some(i) = self.asc.bottom_at_or_below(price) {
            let e = self.asc.entries[i];
            return Some((e.id, e.reason));
        }
        None
    }

    /// Whether moving from the oracle price to a new one would reach a
    /// trigger not yet reached: a falling-side trigger in
    /// `[new_price, oracle_price)` or a rising-side one in
    /// `(oracle_price, new_price]`.
    pub open spec fn newly_reached(&self, oracle_price: int, new_price: int) -> bool {
        (exists|j: int|
            0 <= j < self.desc.entries@.len() && #[trigger] in_window(
                self.desc.entries@[j].price@,
                new_price,
                oracle_price,
                false,
            )) || (exists|j: int|
            0 <= j < self.asc.entries@.len() && #[trigger] in_window(
                self.asc.entries@[j].price@,
                oracle_price,
                new_price,
                true,
            ))
    }

    /// Whether moving from the oracle price to `new_price` would reach a
    /// trigger not yet reached.
    pub fn newly_liquidatable_position(&self, oracle_price: &Number, new_price: &Number) -> (r: bool)
        ensures
            r == self.newly_reached(oracle_price@, new_price@),
    {
        self.desc.any_between(new_price, oracle_price, false) || self.asc.any_between(oracle_price, new_price, true)
    }

    /// Whether a new price, given in base, would reach a trigger from the
    /// current oracle price (in notional); `None` when the new price has no
    /// notional value.
    pub fn price_would_trigger(&self, oracle_price: &Number, new_price_base: &Number, market_type: MarketType) -> (r:
        Option<bool>)
        ensures
            match spec_into_notional_price(new_price_base@, market_type) {
                None => r is None,
                Some(n) => r == Some(self.newly_reached(oracle_price@, n)),
            },
    {
        match into_notional_price(new_price_base, market_type) {
            None => None,
            Some(n) => Some(self.newly_liquidatable_position(oracle_price, &n)),
        }
    }
}

/// The trigger picked at a price is determined: with unique keys, only one
/// entry has the largest key at or above the price, and only one the
/// smallest at or below it.
pub proof fn lemma_pick_unique(s: Seq<TriggerEntry>, price: int, i: int, j: int)
    requires
        unique_keys(s),
    ensures
        is_top_at_or_above(s, price, i) && is_top_at_or_above(s, price, j) ==> i == j,
        is_bottom_at_or_below(s, price, i) && is_bottom_at_or_below(s, price, j) ==> i == j,
{
    if i != j && 0 <= i < s.len() && 0 <= j < s.len() {
        if i < j {
            assert(!(s[i].price@ == s[j].price@ && s[i].id == s[j].id));
        } else {
            assert(!(s[j].price@ == s[i].price@ && s[j].id == s[i].id));
        }
    }
}

/// Removing a position's triggers undoes storing them, when the position
/// had none at those prices before: every side reads as it did.
pub proof fn lemma_remove_undoes_store(
    before: PriceTriggers,
    stored: PriceTriggers,
    removed: PriceTriggers,
    id: u64,
    dir: DirectionToNotional,
    prices: TriggerPrices,
)
    requires
        forall|p: int, i: u64|
            #[trigger] stored_reason(id, dir, prices, true, p, i) is Some ==> before.desc.lookup(p, i) is None,
        forall|p: int, i: u64|
            #[trigger] stored_reason(id, dir, prices, false, p, i) is Some ==> before.asc.lookup(p, i) is None,
        forall|p: int, i: u64|
            #[trigger] stored.desc.lookup(p, i) == match stored_reason(id, dir, prices, true, p, i) {
                Some(r) => Some(r),
                None => before.desc.lookup(p, i),
            },
        forall|p: int, i: u64|
            #[trigger] stored.asc.lookup(p, i) == match stored_reason(id, dir, prices, false, p, i) {
                Some(r) => Some(r),
                None => before.asc.lookup(p, i),
            },
        forall|p: int, i: u64|
            #[trigger] removed.desc.lookup(p, i) == if stored_reason(id, dir, prices, true, p, i) is Some {
                None
            } else {
                stored.desc.lookup(p, i)
            },
        forall|p: int, i: u64|
            #[trigger] removed.asc.lookup(p, i) == if stored_reason(id, dir, prices, false, p, i) is Some {
                None
            } else {
                stored.asc.lookup(p, i)
            },
    ensures
        forall|p: int, i: u64| #[trigger] removed.desc.lookup(p, i) == before.desc.lookup(p, i),
        forall|p: int, i: u64| #[trigger] removed.asc.lookup(p, i) == before.asc.lookup(p, i),
{
    assert forall|p: int, i: u64| #[trigger] removed.desc.lookup(p, i) == before.desc.lookup(p, i) by {
        assert(stored.desc.lookup(p, i) == stored.desc.lookup(p, i));
        assert(stored_reason(id, dir, prices, true, p, i) == stored_reason(id, dir, prices, true, p, i));
    }
    assert forall|p: int, i: u64| #[trigger] removed.asc.lookup(p, i) == before.asc.lookup(p, i) by {
        assert(stored.asc.lookup(p, i) == stored.asc.lookup(p, i));
        assert(stored_reason(id, dir, prices, false, p, i) == stored_reason(id, dir, prices, false, p, i));
    }
}

} // verus!
