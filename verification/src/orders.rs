//! Limit orders: collateral set aside with a trigger price, opened as a
//! position once the price reaches it.
use crate::error::PerpError;
use crate::number::{checked, number_of, opt_view, Number};
use crate::open::OpenPositionParams;
use crate::position::FeeAccount;
use crate::price::{
    into_notional_price, spec_into_base, spec_into_notional_price, DirectionToNotional, MarketType, PricePoint,
};
use crate::take_profit::TakeProfitTrader;
use vstd::prelude::*;

verus! {

broadcast use crate::number::group_number_of;

/// A limit order waiting for its trigger price.
#[derive(Clone, Debug, PartialEq, Eq)]
pub struct LimitOrder {
    pub order_id: u64,
    pub owner: String,
    /// The trigger price, base in quote.
    pub trigger_price: Number,
    /// The trigger price as a notional price, by which orders are ranked.
    pub trigger_notional: Number,
    /// Collateral for the position, net of the crank fee.
    pub collateral: Number,
    /// Leverage to base, as a magnitude.
    pub leverage: Number,
    pub direction: DirectionToNotional,
    pub stop_loss_override: Option<Number>,
    pub take_profit: TakeProfitTrader,
    /// Crank fees paid for the order, in collateral and in USD.
    pub crank_fee_collateral: Number,
    pub crank_fee_usd: Number,
}

/// A field-by-field copy of an order.
fn copy_order(o: &LimitOrder) -> (r: LimitOrder)
    ensures
        r == *o,
{
    LimitOrder {
        order_id: o.order_id,
        owner: o.owner.clone(),
        trigger_price: o.trigger_price,
        trigger_notional: o.trigger_notional,
        collateral: o.collateral,
        leverage: o.leverage,
        direction: o.direction,
        stop_loss_override: o.stop_loss_override,
        take_profit: o.take_profit,
        crank_fee_collateral: o.crank_fee_collateral,
        crank_fee_usd: o.crank_fee_usd,
    }
}

/// The limit orders waiting, and the last order identifier handed out.
pub struct LimitOrderBook {
    pub orders: Vec<LimitOrder>,
    pub last_order_id: u64,
}

/// No order identifier occurs twice.
pub open spec fn order_ids_unique(s: Seq<LimitOrder>) -> bool {
    forall|i: int, j: int| 0 <= i < j < s.len() ==> s[i].order_id != s[j].order_id
}

/// Whether some order has the identifier.
pub open spec fn has_order(s: Seq<LimitOrder>, id: u64) -> bool {
    exists|i: int| 0 <= i < s.len() && #[trigger] s[i].order_id == id
}

impl LimitOrderBook {
    /// Identifiers are unique and never above the last one handed out.
    pub open spec fn wf(&self) -> bool {
        &&& order_ids_unique(self.orders@)
        &&& forall|i: int| 0 <= i < self.orders@.len() ==> #[trigger] self.orders@[i].order_id <= self.last_order_id
    }
}

/// An empty book.
pub fn limit_orders_init() -> (r: LimitOrderBook)
    ensures
        r.wf(),
        r.orders@.len() == 0,
        r.last_order_id == 0,
{
    LimitOrderBook { orders: Vec::new(), last_order_id: 0 }
}

/// Index of the order with the identifier.
fn order_index(book: &LimitOrderBook, id: u64) -> (r: Option<usize>)
    ensures
        match r {
            Some(i) => i < book.orders@.len() && book.orders@[i as int].order_id == id,
            None => !has_order(book.orders@, id),
        },
{
    let mut i: usize = 0;
    while i < book.orders.len()
        invariant
            i <= book.orders@.len(),
            forall|k: int| 0 <= k < i ==> book.orders@[k].order_id != id,
        decreases book.orders@.len() - i,
    {
        if book.orders[i].order_id == id {
            return Some(i);
        }
        i += 1;
    }
    None
}

/// The order with the identifier; refused when there is none.
pub fn limit_order_load(book: &LimitOrderBook, id: u64) -> (r: Result<LimitOrder, PerpError>)
    requires
        book.wf(),
    ensures
        !has_order(book.orders@, id) ==> r == Err::<LimitOrder, PerpError>(PerpError::MissingLimitOrder { id }),
        has_order(book.orders@, id) ==> (r matches Ok(o) && exists|i: int|
            0 <= i < book.orders@.len() && #[trigger] book.orders@[i] == o && o.order_id == id),
{
    match order_index(book, id) {
        Some(i) => Ok(copy_order(&book.orders[i])),
        None => Err(PerpError::MissingLimitOrder { id }),
    }
}

/// Checks that the order exists and belongs to `owner`.
pub fn limit_order_assert_owner(book: &LimitOrderBook, owner: &String, id: u64) -> (r: Result<(), PerpError>)
    requires
        book.wf(),
    ensures
        r is Ok <==> exists|i: int|
            0 <= i < book.orders@.len() && #[trigger] book.orders@[i].order_id == id && book.orders@[i].owner@ == owner@,
        r is Err ==> r == Err::<(), PerpError>(PerpError::NotOwner),
{
    match order_index(book, id) {
        Some(i) => {
            if book.orders[i].owner == *owner {
                Ok(())
            } else {
                proof {
                    assert forall|k: int|
                        0 <= k < book.orders@.len() && #[trigger] book.orders@[k].order_id == id implies book.orders@[k].owner@
                        != owner@ by {
                        if k != i as int {
                            assert(book.orders@[k].order_id != book.orders@[i as int].order_id);
                        }
                    }
                }
                Err(PerpError::NotOwner)
            }
        },
        None => Err(PerpError::NotOwner),
    }
}

/// Removes the order with the identifier and gives it back; refused when
/// there is none. The other orders keep their order.
pub fn limit_order_remove(book: &mut LimitOrderBook, id: u64) -> (r: Result<LimitOrder, PerpError>)
    requires
        old(book).wf(),
    ensures
        final(book).wf(),
        final(book).last_order_id == old(book).last_order_id,
        !has_order(old(book).orders@, id) ==> r == Err::<LimitOrder, PerpError>(PerpError::MissingLimitOrder { id })
            && final(book).orders@ == old(book).orders@,
        has_order(old(book).orders@, id) ==> (r matches Ok(o) && o.order_id == id && exists|i: int|
            0 <= i < old(book).orders@.len() && old(book).orders@[i] == o && final(book).orders@ == old(
                book,
            ).orders@.remove(i)),
        !has_order(final(book).orders@, id),
{
    match order_index(book, id) {
        Some(i) => {
            let ghost before = book.orders@;
            let o = book.orders.remove(i);
            proof {
                let after = book.orders@;
                assert forall|k: int| 0 <= k < after.len() implies #[trigger] after[k].order_id != id by {
                    if k < i {
                        assert(after[k] == before[k]);
                        assert(before[k].order_id != before[i as int].order_id);
                    } else {
                        assert(after[k] == before[k + 1]);
                        assert(before[i as int].order_id != before[k + 1].order_id);
                    }
                }
                assert forall|x: int, y: int| 0 <= x < y < after.len() implies after[x].order_id != after[y].order_id by {
                    let bx = if x < i { x } else { x + 1 };
                    let by = if y < i { y } else { y + 1 };
                    assert(after[x] == before[bx]);
                    assert(after[y] == before[by]);
                }
                assert forall|x: int| 0 <= x < after.len() implies #[trigger] after[x].order_id <= book.last_order_id by {
                    if x < i {
                        assert(after[x] == before[x]);
                    } else {
                        assert(after[x] == before[x + 1]);
                    }
                }
            }
            Ok(o)
        },
        None => Err(PerpError::MissingLimitOrder { id }),
    }
}

/// A long order triggers at or below its trigger price.
pub open spec fn long_triggered(o: LimitOrder, price: int) -> bool {
    o.direction == DirectionToNotional::Long && o.trigger_notional@ >= price
}

/// A short order triggers at or above its trigger price.
pub open spec fn short_triggered(o: LimitOrder, price: int) -> bool {
    o.direction == DirectionToNotional::Short && o.trigger_notional@ <= price
}

/// Whether `a` comes at or after `b` by trigger price, then identifier.
pub open spec fn ranks_at_or_above(a: LimitOrder, b: LimitOrder) -> bool {
    a.trigger_notional@ > b.trigger_notional@ || (a.trigger_notional@ == b.trigger_notional@ && a.order_id >= b.order_id)
}

/// The order the crank executes next at `price`: among the triggered long
/// orders the one with the highest trigger price (the furthest from the
/// price, then the latest); when no long order is triggered, the triggered
/// short order with the lowest trigger price (then the earliest).
pub open spec fn is_next_triggered(s: Seq<LimitOrder>, price: int, i: int) -> bool {
    &&& 0 <= i < s.len()
    &&& ({
        ||| (long_triggered(s[i], price) && forall|j: int|
            0 <= j < s.len() && #[trigger] long_triggered(s[j], price) ==> ranks_at_or_above(s[i], s[j]))
        ||| ((forall|j: int| 0 <= j < s.len() ==> !#[trigger] long_triggered(s[j], price)) && short_triggered(s[i], price)
            && forall|j: int| 0 <= j < s.len() && #[trigger] short_triggered(s[j], price) ==> ranks_at_or_above(s[j], s[i]))
    })
}

/// The identifier of the next order to execute at `price`, if any order is
/// triggered.
pub fn limit_order_triggered_order(book: &LimitOrderBook, price: Number) -> (r: Option<u64>)
    ensures
        match r {
            Some(id) => exists|i: int| #[trigger] is_next_triggered(book.orders@, price@, i) && book.orders@[i].order_id == id,
            None => forall|j: int|
                0 <= j < book.orders@.len() ==> !long_triggered(#[trigger] book.orders@[j], price@) && !short_triggered(
                    book.orders@[j],
                    price@,
                ),
        },
{
    let s = Ghost(book.orders@);
    let mut best: Option<usize> = None;
    let mut i: usize = 0;
    while i < book.orders.len()
        invariant
            s@ == book.orders@,
            i <= s@.len(),
            match best {
                Some(b) => b < i && long_triggered(s@[b as int], price@) && forall|j: int|
                    0 <= j < i && #[trigger] long_triggered(s@[j], price@) ==> ranks_at_or_above(s@[b as int], s@[j]),
                None => forall|j: int| 0 <= j < i ==> !#[trigger] long_triggered(s@[j], price@),
            },
        decreases s@.len() - i,
    {
        let o = &book.orders[i];
        if o.direction == DirectionToNotional::Long && price.le(&o.trigger_notional) {
            let better = match best {
                None => true,
                Some(b) => {
                    let cur = &book.orders[b];
                    cur.trigger_notional.lt(&o.trigger_notional) || (cur.trigger_notional.eq(&o.trigger_notional)
                        && cur.order_id <= o.order_id)
                },
            };
            if better {
                best = Some(i);
            }
        }
        i += 1;
    }
    if let Some(b) = best {
        proof {
            assert(is_next_triggered(s@, price@, b as int));
        }
        return Some(book.orders[b].order_id);
    }
    let mut i: usize = 0;
    while i < book.orders.len()
        invariant
            s@ == book.orders@,
            i <= s@.len(),
            forall|j: int| 0 <= j < s@.len() ==> !#[trigger] long_triggered(s@[j], price@),
            match best {
                Some(b) => b < i && short_triggered(s@[b as int], price@) && forall|j: int|
                    0 <= j < i && #[trigger] short_triggered(s@[j], price@) ==> ranks_at_or_above(s@[j], s@[b as int]),
                None => forall|j: int| 0 <= j < i ==> !#[trigger] short_triggered(s@[j], price@),
            },
        decreases s@.len() - i,
    {
        let o = &book.orders[i];
        if o.direction == DirectionToNotional::Short && o.trigger_notional.le(&price) {
            let better = match best {
                None => true,
                Some(b) => {
                    let cur = &book.orders[b];
                    o.trigger_notional.lt(&cur.trigger_notional) || (cur.trigger_notional.eq(&o.trigger_notional)
                        && o.order_id <= cur.order_id)
                },
            };
            if better {
                best = Some(i);
            }
        }
        i += 1;
    }
    match best {
        Some(b) => {
            proof {
                assert(is_next_triggered(s@, price@, b as int));
            }
            Some(book.orders[b].order_id)
        },
        None => None,
    }
}

/// Whether moving the price from `oracle_price` to `new_price` would
/// trigger an order not triggered before: a long order with a trigger price
/// from the new price up to (not including) the oracle price, or a short
/// order above the oracle price up to the new price.
pub open spec fn newly_triggered(o: LimitOrder, oracle_price: int, new_price: int) -> bool {
    ||| (o.direction == DirectionToNotional::Long && new_price <= o.trigger_notional@ && o.trigger_notional@ < oracle_price)
    ||| (o.direction == DirectionToNotional::Short && oracle_price < o.trigger_notional@ && o.trigger_notional@ <= new_price)
}

/// Whether some order would be newly triggered by the price move.
pub fn limit_order_newly_triggered_order(book: &LimitOrderBook, oracle_price: Number, new_price: Number) -> (r: bool)
    ensures
        r <==> exists|i: int| 0 <= i < book.orders@.len() && #[trigger] newly_triggered(book.orders@[i], oracle_price@, new_price@),
{
    let mut i: usize = 0;
    while i < book.orders.len()
        invariant
            i <= book.orders@.len(),
            forall|j: int| 0 <= j < i ==> !#[trigger] newly_triggered(book.orders@[j], oracle_price@, new_price@),
        decreases book.orders@.len() - i,
    {
        let o = &book.orders[i];
        let t = o.trigger_notional;
        let hit = match o.direction {
            DirectionToNotional::Long => new_price.le(&t) && t.lt(&oracle_price),
            DirectionToNotional::Short => oracle_price.lt(&t) && t.le(&new_price),
        };
        if hit {
            proof {
                assert(newly_triggered(book.orders@[i as int], oracle_price@, new_price@));
            }
            return true;
        }
        i += 1;
    }
    false
}

/// A validated new limit order, yet to be stored.
#[derive(Clone, Debug)]
pub struct PlaceLimitOrderExec {
    pub order: LimitOrder,
    /// The crank fee charged for placing it, in collateral and in USD.
    pub crank_fee: FeeAccount,
    pub price_point: PricePoint,
}

/// What placing an order charges and keeps: the crank fee in collateral
/// (the configured USD fee at the price), the collateral left for the
/// position, which must be strictly positive, the crank fees recorded on
/// the order (this one and any already paid for queueing it), and the
/// trigger price as a notional price.
pub open spec fn spec_place_figures(
    crank_fee_charged: int,
    collateral: int,
    trigger_price: int,
    deferred_fee: int,
    deferred_fee_usd: int,
    price: PricePoint,
    market_type: MarketType,
) -> Result<(int, int, int, int, int), PerpError> {
    match price.spec_usd_to_collateral(crank_fee_charged) {
        None => Err(PerpError::Arithmetic),
        Some(fee) => match checked(collateral - fee) {
            None => Err(PerpError::Arithmetic),
            Some(left) => if left <= 0 {
                Err(PerpError::InsufficientFundsForCrankFee)
            } else {
                match (checked(fee + deferred_fee), checked(crank_fee_charged + deferred_fee_usd)) {
                    (Some(fc), Some(fu)) => match spec_into_notional_price(trigger_price, market_type) {
                        None => Err(PerpError::Arithmetic),
                        Some(t) => Ok((fee, left, fc, fu, t)),
                    },
                    _ => Err(PerpError::Arithmetic),
                }
            },
        },
    }
}

impl PlaceLimitOrderExec {
    /// Validates a new limit order for `owner` (see [`spec_place_figures`]);
    /// it gets the identifier after the last one handed out.
    pub fn new(
        book: &LimitOrderBook,
        crank_fee_charged: Number,
        owner: String,
        trigger_price: Number,
        collateral: Number,
        leverage: Number,
        direction: DirectionToNotional,
        stop_loss_override: Option<Number>,
        take_profit: TakeProfitTrader,
        deferred_exec_crank_fee: Number,
        deferred_exec_crank_fee_usd: Number,
        price: &PricePoint,
        market_type: MarketType,
    ) -> (r: Result<PlaceLimitOrderExec, PerpError>)
        requires
            price.wf(),
            book.last_order_id < u64::MAX,
        ensures
            match spec_place_figures(
                crank_fee_charged@,
                collateral@,
                trigger_price@,
                deferred_exec_crank_fee@,
                deferred_exec_crank_fee_usd@,
                *price,
                market_type,
            ) {
                Err(e) => r == Err::<PlaceLimitOrderExec, PerpError>(e),
                Ok((fee, left, fc, fu, t)) => r matches Ok(x) && x.order == (LimitOrder {
                    order_id: (book.last_order_id + 1) as u64,
                    owner,
                    trigger_price,
                    trigger_notional: number_of(t),
                    collateral: number_of(left),
                    leverage,
                    direction,
                    stop_loss_override,
                    take_profit,
                    crank_fee_collateral: number_of(fc),
                    crank_fee_usd: number_of(fu),
                }) && x.crank_fee == (FeeAccount { collateral: number_of(fee), usd: crank_fee_charged }) && x.price_point == *price,
            },
    {
        let fee = match price.usd_to_collateral(&crank_fee_charged) {
            Some(f) => f,
            None => return Err(PerpError::Arithmetic),
        };
        let left = match collateral.checked_sub(&fee) {
            Some(l) => l,
            None => return Err(PerpError::Arithmetic),
        };
        if !left.is_strictly_positive() {
            return Err(PerpError::InsufficientFundsForCrankFee);
        }
        let fee_collateral = fee.checked_add(&deferred_exec_crank_fee);
        let fee_usd = crank_fee_charged.checked_add(&deferred_exec_crank_fee_usd);
        let (fee_collateral, fee_usd) = match (fee_collateral, fee_usd) {
            (Some(a), Some(b)) => (a, b),
            _ => return Err(PerpError::Arithmetic),
        };
        let trigger_notional = match into_notional_price(&trigger_price, market_type) {
            Some(t) => t,
            None => return Err(PerpError::Arithmetic),
        };
        let order = LimitOrder {
            order_id: book.last_order_id + 1,
            owner,
            trigger_price,
            trigger_notional,
            collateral: left,
            leverage,
            direction,
            stop_loss_override,
            take_profit,
            crank_fee_collateral: fee_collateral,
            crank_fee_usd: fee_usd,
        };
        Ok(PlaceLimitOrderExec { order, crank_fee: FeeAccount { collateral: fee, usd: crank_fee_charged }, price_point: *price })
    }

    /// Stores the order under its identifier, which becomes the last one
    /// handed out.
    pub fn apply(self, book: &mut LimitOrderBook) -> (r: u64)
        requires
            old(book).wf(),
            self.order.order_id == old(book).last_order_id + 1,
        ensures
            final(book).wf(),
            r == self.order.order_id,
            final(book).last_order_id == r,
            final(book).orders@ == old(book).orders@.push(self.order),
    {
        let id = self.order.order_id;
        let ghost before = book.orders@;
        book.last_order_id = id;
        book.orders.push(self.order);
        proof {
            let after = book.orders@;
            assert forall|x: int, y: int| 0 <= x < y < after.len() implies after[x].order_id != after[y].order_id by {
                if y == before.len() {
                    assert(before[x].order_id <= old(book).last_order_id);
                }
            }
            assert forall|x: int| 0 <= x < after.len() implies #[trigger] after[x].order_id <= book.last_order_id by {
                if x < before.len() {
                    assert(after[x] == before[x]);
                }
            }
        }
        id
    }
}

/// The parameters of the position that a limit order opens: its collateral
/// and leverage, its direction to base, its crank fees, and its take profit
/// price; no slippage is asserted.
pub open spec fn spec_open_params(order: LimitOrder, market_type: MarketType) -> OpenPositionParams {
    OpenPositionParams {
        collateral: order.collateral,
        crank_fee: FeeAccount { collateral: order.crank_fee_collateral, usd: order.crank_fee_usd },
        leverage: order.leverage,
        direction: spec_into_base(order.direction, market_type),
        slippage_assert: None,
        take_profit_trader: order.take_profit,
    }
}

/// Takes a triggered order out of the book for execution, giving the order
/// and the parameters of the position to open for it.
pub fn limit_order_execute_order(book: &mut LimitOrderBook, order_id: u64, market_type: MarketType) -> (r: Result<
    (LimitOrder, OpenPositionParams),
    PerpError,
>)
    requires
        old(book).wf(),
    ensures
        final(book).wf(),
        !has_order(final(book).orders@, order_id),
        !has_order(old(book).orders@, order_id) ==> r == Err::<(LimitOrder, OpenPositionParams), PerpError>(
            PerpError::MissingLimitOrder { id: order_id },
        ),
        r matches Ok((o, p)) ==> o.order_id == order_id && p == spec_open_params(o, market_type) && exists|i: int|
            0 <= i < old(book).orders@.len() && old(book).orders@[i] == o && final(book).orders@ == old(book).orders@.remove(i),
        has_order(old(book).orders@, order_id) ==> r is Ok,
{
    let order = limit_order_remove(book, order_id)?;
    let params = OpenPositionParams {
        collateral: order.collateral,
        crank_fee: FeeAccount { collateral: order.crank_fee_collateral, usd: order.crank_fee_usd },
        leverage: order.leverage,
        direction: order.direction.into_base(market_type),
        slippage_assert: None,
        take_profit_trader: order.take_profit,
    };
    Ok((order, params))
}

/// What became of an executed limit order: the position it opened, or why
/// it failed, with the collateral then returned to its owner.
#[derive(Debug)]
pub struct ExecutedLimitOrder {
    pub order: LimitOrder,
    pub result: Result<u64, PerpError>,
    pub refund: Option<Number>,
}

/// Records the outcome of opening the position of an executed order: on
/// failure the order's collateral is returned to its owner.
pub fn limit_order_outcome(order: LimitOrder, opened: Result<u64, PerpError>) -> (r: ExecutedLimitOrder)
    ensures
        r.order == order,
        r.result == opened,
        r.refund == (match opened {
            Ok(_) => None,
            Err(_) => Some(order.collateral),
        }),
{
    let refund = match opened {
        Ok(_) => None,
        Err(_) => Some(order.collateral),
    };
    ExecutedLimitOrder { order, result: opened, refund }
}

/// Cancelling an order takes it out of the book and returns its collateral
/// to its owner.
pub fn cancel_limit_order(book: &mut LimitOrderBook, order_id: u64) -> (r: Result<(String, Number), PerpError>)
    requires
        old(book).wf(),
    ensures
        final(book).wf(),
        !has_order(final(book).orders@, order_id),
        !has_order(old(book).orders@, order_id) ==> r == Err::<(String, Number), PerpError>(
            PerpError::MissingLimitOrder { id: order_id },
        ),
        r matches Ok((owner, refund)) ==> exists|i: int|
            0 <= i < old(book).orders@.len() && old(book).orders@[i].order_id == order_id && owner == old(
                book,
            ).orders@[i].owner && refund == old(book).orders@[i].collateral && final(book).orders@ == old(
                book,
            ).orders@.remove(i),
        has_order(old(book).orders@, order_id) ==> r is Ok,
{
    let order = limit_order_remove(book, order_id)?;
    Ok((order.owner, order.collateral))
}

} // verus!
