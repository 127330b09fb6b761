//! The queue of deferred executions: trader requests that wait for the
//! next price before they run.
use crate::error::PerpError;
use crate::number::{checked, lemma_trunc_nonneg, oadd, scale, trunc_mul, Number};
use crate::price::PricePoint;
use vstd::prelude::*;

verus! {

/// A queued request, with what the queue needs of it.
#[derive(Clone, Copy, Debug, PartialEq, Eq, Structural)]
pub enum DeferredExecItem {
    OpenPosition { amount: Number, crank_fee: Number, crank_fee_usd: Number },
    PlaceLimitOrder { amount: Number, crank_fee: Number, crank_fee_usd: Number },
    UpdatePositionAddCollateralImpactLeverage { id: u64, amount: Number },
    UpdatePositionAddCollateralImpactSize { id: u64, amount: Number },
    UpdatePositionRemoveCollateralImpactLeverage { id: u64 },
    UpdatePositionRemoveCollateralImpactSize { id: u64 },
    UpdatePositionLeverage { id: u64 },
    UpdatePositionMaxGains { id: u64 },
    SetTriggerOrder { id: u64 },
    ClosePosition { id: u64 },
    CancelLimitOrder { order_id: u64 },
}

/// What a queued request acts on.
#[derive(Clone, Copy, Debug, PartialEq, Eq, Structural)]
pub enum DeferredExecTarget {
    DoesNotExist,
    Position(u64),
    Order(u64),
}

pub open spec fn spec_target(item: DeferredExecItem) -> DeferredExecTarget {
    match item {
        DeferredExecItem::OpenPosition { .. } => DeferredExecTarget::DoesNotExist,
        DeferredExecItem::PlaceLimitOrder { .. } => DeferredExecTarget::DoesNotExist,
        DeferredExecItem::UpdatePositionAddCollateralImpactLeverage { id, .. } => DeferredExecTarget::Position(id),
        DeferredExecItem::UpdatePositionAddCollateralImpactSize { id, .. } => DeferredExecTarget::Position(id),
        DeferredExecItem::UpdatePositionRemoveCollateralImpactLeverage { id } => DeferredExecTarget::Position(id),
        DeferredExecItem::UpdatePositionRemoveCollateralImpactSize { id } => DeferredExecTarget::Position(id),
        DeferredExecItem::UpdatePositionLeverage { id } => DeferredExecTarget::Position(id),
        DeferredExecItem::UpdatePositionMaxGains { id } => DeferredExecTarget::Position(id),
        DeferredExecItem::SetTriggerOrder { id } => DeferredExecTarget::Position(id),
        DeferredExecItem::ClosePosition { id } => DeferredExecTarget::Position(id),
        DeferredExecItem::CancelLimitOrder { order_id } => DeferredExecTarget::Order(order_id),
    }
}

/// Collateral sent with a request, zero when none.
pub open spec fn spec_deposited(item: DeferredExecItem) -> int {
    match item {
        DeferredExecItem::OpenPosition { amount, .. } => amount@,
        DeferredExecItem::PlaceLimitOrder { amount, .. } => amount@,
        DeferredExecItem::UpdatePositionAddCollateralImpactLeverage { amount, .. } => amount@,
        DeferredExecItem::UpdatePositionAddCollateralImpactSize { amount, .. } => amount@,
        _ => 0,
    }
}

impl DeferredExecItem {
    pub fn target(&self) -> (r: DeferredExecTarget)
        ensures
            r == spec_target(*self),
    {
        match *self {
            DeferredExecItem::OpenPosition { .. } => DeferredExecTarget::DoesNotExist,
            DeferredExecItem::PlaceLimitOrder { .. } => DeferredExecTarget::DoesNotExist,
            DeferredExecItem::UpdatePositionAddCollateralImpactLeverage { id, .. } => DeferredExecTarget::Position(id),
            DeferredExecItem::UpdatePositionAddCollateralImpactSize { id, .. } => DeferredExecTarget::Position(id),
            DeferredExecItem::UpdatePositionRemoveCollateralImpactLeverage { id } => DeferredExecTarget::Position(id),
            DeferredExecItem::UpdatePositionRemoveCollateralImpactSize { id } => DeferredExecTarget::Position(id),
            DeferredExecItem::UpdatePositionLeverage { id } => DeferredExecTarget::Position(id),
            DeferredExecItem::UpdatePositionMaxGains { id } => DeferredExecTarget::Position(id),
            DeferredExecItem::SetTriggerOrder { id } => DeferredExecTarget::Position(id),
            DeferredExecItem::ClosePosition { id } => DeferredExecTarget::Position(id),
            DeferredExecItem::CancelLimitOrder { order_id } => DeferredExecTarget::Order(order_id),
        }
    }

    /// Collateral sent with the request, zero when none.
    pub fn deposited_amount(&self) -> (r: Number)
        ensures
            r@ == spec_deposited(*self),
    {
        match *self {
            DeferredExecItem::OpenPosition { amount, .. } => amount,
            DeferredExecItem::PlaceLimitOrder { amount, .. } => amount,
            DeferredExecItem::UpdatePositionAddCollateralImpactLeverage { amount, .. } => amount,
            DeferredExecItem::UpdatePositionAddCollateralImpactSize { amount, .. } => amount,
            _ => Number::zero(),
        }
    }
}

/// Where a queued request stands.
#[derive(Clone, Copy, Debug, PartialEq, Eq, Structural)]
pub enum DeferredExecStatus {
    Pending,
    /// Executed at the given time.
    Success { executed: u64 },
    /// Failed at the given time.
    Failure { executed: u64 },
}

/// A queued request.
#[derive(Debug)]
pub struct DeferredExec {
    pub id: u64,
    pub owner: String,
    /// Time queued, in nanoseconds.
    pub created: u64,
    pub status: DeferredExecStatus,
    pub item: DeferredExecItem,
}

/// The last identifier issued and the last processed.
#[derive(Clone, Copy, Debug, PartialEq, Eq, Structural)]
pub struct LatestIds {
    pub issued: u64,
    pub processed: Option<u64>,
}

/// How the crank fee of a queued request is charged.
#[derive(Clone, Copy, Debug, PartialEq, Eq, Structural)]
pub enum CrankFeeCharge {
    /// Taken from the funds sent and collected now.
    Collect { amount: Number, amount_usd: Number },
    /// Taken from the funds sent and recorded on the position.
    ChargePosition { id: u64, amount: Number, amount_usd: Number },
    /// Charged to the position at its next liquifunding.
    PendingOnPosition { id: u64, amount_usd: Number },
    NoCharge,
}

/// A request queued.
#[derive(Clone, Copy, Debug, PartialEq, Eq, Structural)]
pub struct Deferred {
    pub id: u64,
    pub crank_fee: Number,
    pub crank_fee_usd: Number,
    pub charge: CrankFeeCharge,
}

/// The queue, with its markers: updates pending per position and per
/// order, positions being closed, orders being canceled.
#[derive(Debug)]
pub struct DeferredQueue {
    pub latest: Option<LatestIds>,
    /// By identifier: the item with identifier `i` is at index `i - 1`.
    pub execs: Vec<DeferredExec>,
    /// Pairs of position and queued identifier.
    pub pending_for_position: Vec<(u64, u64)>,
    /// Pairs of order and queued identifier.
    pub pending_for_order: Vec<(u64, u64)>,
    pub closing: Vec<u64>,
    pub canceling: Vec<u64>,
}

/// Requests waiting: issued less processed.
pub open spec fn spec_queue_size(latest: Option<LatestIds>) -> int {
    match latest {
        None => 0,
        Some(l) => l.issued - match l.processed {
            Some(p) => p as int,
            None => 0,
        },
    }
}

/// The identifier the next request gets.
pub open spec fn spec_new_id(latest: Option<LatestIds>) -> int {
    match latest {
        None => 1,
        Some(l) => l.issued + 1,
    }
}

/// The crank fee in USD: the fee charged plus the surcharge for each full
/// ten requests waiting.
pub open spec fn spec_crank_fee_usd(charged: int, surcharge: int, queue_size: int) -> Option<int> {
    oadd(Some(charged), checked(trunc_mul(surcharge, (queue_size / 10) * scale())))
}

/// Whether a position has an update queued.
pub open spec fn has_pending(pending: Seq<(u64, u64)>, id: u64) -> bool {
    exists|i: int| 0 <= i < pending.len() && pending[i].0 == id
}

/// The identifier, crank fee in USD and in collateral of a new request, or
/// why it is refused.
pub open spec fn spec_defer_check(
    q: DeferredQueue,
    trader: Seq<char>,
    item: DeferredExecItem,
    charged: int,
    surcharge: int,
    price: Option<PricePoint>,
    target_owner: Option<String>,
) -> Result<(int, int, int), PerpError> {
    if q.latest matches Some(l) && l.issued == u64::MAX {
        Err(PerpError::Arithmetic)
    } else {
        match spec_crank_fee_usd(charged, surcharge, spec_queue_size(q.latest)) {
            None => Err(PerpError::Arithmetic),
            Some(fee_usd) => match price {
                None => Err(PerpError::MissingSpotPrice),
                Some(p) => match p.spec_usd_to_collateral(fee_usd) {
                    None => Err(PerpError::Arithmetic),
                    Some(fee) => {
                        let item_check = match item {
                            DeferredExecItem::OpenPosition { amount, .. } | DeferredExecItem::PlaceLimitOrder {
                                amount,
                                ..
                            } | DeferredExecItem::UpdatePositionAddCollateralImpactLeverage {
                                amount,
                                ..
                            } | DeferredExecItem::UpdatePositionAddCollateralImpactSize {
                                amount,
                                ..
                            } => if amount@ - fee <= 0 {
                                Some(PerpError::InsufficientFundsForCrankFee)
                            } else {
                                None
                            },
                            DeferredExecItem::UpdatePositionRemoveCollateralImpactLeverage { id }
                            | DeferredExecItem::UpdatePositionRemoveCollateralImpactSize { id }
                            | DeferredExecItem::UpdatePositionLeverage { id }
                            | DeferredExecItem::UpdatePositionMaxGains { id }
                            | DeferredExecItem::SetTriggerOrder { id } => if has_pending(
                                q.pending_for_position@,
                                id,
                            ) {
                                Some(PerpError::PositionUpdateAlreadyPending)
                            } else {
                                None
                            },
                            DeferredExecItem::ClosePosition { id } => if q.closing@.contains(id) {
                                Some(PerpError::PositionAlreadyClosing)
                            } else {
                                None
                            },
                            DeferredExecItem::CancelLimitOrder { order_id } => if q.canceling@.contains(order_id) {
                                Some(PerpError::LimitOrderAlreadyCanceling)
                            } else {
                                None
                            },
                        };
                        match item_check {
                            Some(e) => Err(e),
                            None => if spec_target(item) is DoesNotExist {
                                Ok((spec_new_id(q.latest), fee_usd, fee))
                            } else {
                                match target_owner {
                                    None => Err(PerpError::TargetNotFound),
                                    Some(o) => if o@ != trader {
                                        Err(PerpError::NotOwner)
                                    } else {
                                        Ok((spec_new_id(q.latest), fee_usd, fee))
                                    },
                                }
                            },
                        }
                    },
                },
            },
        }
    }
}

/// The request as queued, after its crank fee is taken.
pub open spec fn spec_item_after_fee(item: DeferredExecItem, after: DeferredExecItem, fee: int, fee_usd: int) -> bool {
    match item {
        DeferredExecItem::OpenPosition { amount, .. } => after matches DeferredExecItem::OpenPosition {
            amount: a,
            crank_fee: c,
            crank_fee_usd: u,
        } && a@ == amount@ - fee && c@ == fee && u@ == fee_usd,
        DeferredExecItem::PlaceLimitOrder { amount, .. } => after matches DeferredExecItem::PlaceLimitOrder {
            amount: a,
            crank_fee: c,
            crank_fee_usd: u,
        } && a@ == amount@ - fee && c@ == fee && u@ == fee_usd,
        DeferredExecItem::UpdatePositionAddCollateralImpactLeverage { id, amount } => after matches DeferredExecItem::UpdatePositionAddCollateralImpactLeverage {
            id: i,
            amount: a,
        } && i == id && a@ == amount@ - fee,
        DeferredExecItem::UpdatePositionAddCollateralImpactSize { id, amount } => after matches DeferredExecItem::UpdatePositionAddCollateralImpactSize {
            id: i,
            amount: a,
        } && i == id && a@ == amount@ - fee,
        _ => after == item,
    }
}

/// How the crank fee of the request is charged.
pub open spec fn spec_charge(item: DeferredExecItem, charge: CrankFeeCharge, fee: int, fee_usd: int) -> bool {
    match item {
        DeferredExecItem::OpenPosition { .. } | DeferredExecItem::PlaceLimitOrder { .. } => charge matches CrankFeeCharge::Collect {
            amount,
            amount_usd,
        } && amount@ == fee && amount_usd@ == fee_usd,
        DeferredExecItem::UpdatePositionAddCollateralImpactLeverage { id, .. }
        | DeferredExecItem::UpdatePositionAddCollateralImpactSize { id, .. } => charge matches CrankFeeCharge::ChargePosition {
            id: i,
            amount,
            amount_usd,
        } && i == id && amount@ == fee && amount_usd@ == fee_usd,
        DeferredExecItem::UpdatePositionRemoveCollateralImpactLeverage { id }
        | DeferredExecItem::UpdatePositionRemoveCollateralImpactSize { id }
        | DeferredExecItem::UpdatePositionLeverage { id }
        | DeferredExecItem::UpdatePositionMaxGains { id }
        | DeferredExecItem::SetTriggerOrder { id } => charge matches CrankFeeCharge::PendingOnPosition {
            id: i,
            amount_usd,
        } && i == id && amount_usd@ == fee_usd,
        DeferredExecItem::ClosePosition { .. } | DeferredExecItem::CancelLimitOrder { .. } => charge is NoCharge,
    }
}

/// The next request to run, if any.
pub open spec fn spec_next_id(latest: Option<LatestIds>) -> Option<u64> {
    match latest {
        None => None,
        Some(l) => match l.processed {
            None => Some(1u64),
            Some(p) => if p >= l.issued {
                None
            } else {
                Some((p + 1) as u64)
            },
        },
    }
}

fn contains_id(v: &Vec<u64>, x: u64) -> (r: bool)
    ensures
        r == v@.contains(x),
{
    let mut i: usize = 0;
    while i < v.len()
        invariant
            i <= v@.len(),
            forall|k: int| 0 <= k < i ==> v@[k] != x,
        decreases v@.len() - i,
    {
        if v[i] == x {
            assert(v@[i as int] == x);
            return true;
        }
        i += 1;
    }
    false
}

fn has_pending_exec(v: &Vec<(u64, u64)>, id: u64) -> (r: bool)
    ensures
        r == has_pending(v@, id),
{
    let mut i: usize = 0;
    while i < v.len()
        invariant
            i <= v@.len(),
            forall|k: int| 0 <= k < i ==> v@[k].0 != id,
        decreases v@.len() - i,
    {
        if v[i].0 == id {
            assert(v@[i as int].0 == id);
            return true;
        }
        i += 1;
    }
    false
}

fn lift(o: Option<Number>) -> (r: Result<Number, PerpError>)
    ensures
        match o {
            Some(v) => r == Ok::<Number, PerpError>(v),
            None => r == Err::<Number, PerpError>(PerpError::Arithmetic),
        },
{
    match o {
        Some(v) => Ok(v),
        None => Err(PerpError::Arithmetic),
    }
}

impl DeferredQueue {
    /// Identifiers run from one and match positions; none is processed
    /// before it is issued.
    pub open spec fn wf(&self) -> bool {
        &&& match self.latest {
            None => self.execs@.len() == 0,
            Some(l) => l.issued >= 1 && self.execs@.len() == l.issued && (l.processed matches Some(p) ==> 1 <= p
                <= l.issued),
        }
        &&& forall|i: int| 0 <= i < self.execs@.len() ==> #[trigger] self.execs@[i].id == i + 1
    }

    /// An empty queue.
    pub fn new() -> (r: DeferredQueue)
        ensures
            r.wf(),
            r.latest is None,
            r.execs@.len() == 0,
            r.pending_for_position@.len() == 0,
            r.pending_for_order@.len() == 0,
            r.closing@.len() == 0,
            r.canceling@.len() == 0,
    {
        DeferredQueue {
            latest: None,
            execs: Vec::new(),
            pending_for_position: Vec::new(),
            pending_for_order: Vec::new(),
            closing: Vec::new(),
            canceling: Vec::new(),
        }
    }

    /// How many requests wait, at most `u32::MAX`.
    pub fn deferred_execution_items(&self) -> (r: u32)
        requires
            self.wf(),
        ensures
            r == (if spec_queue_size(self.latest) > u32::MAX {
                u32::MAX as int
            } else {
                spec_queue_size(self.latest)
            }),
    {
        match self.latest {
            None => 0,
            Some(l) => {
                let processed = match l.processed {
                    Some(p) => p,
                    None => 0,
                };
                let n = l.issued - processed;
                if n > u32::MAX as u64 {
                    u32::MAX
                } else {
                    n as u32
                }
            },
        }
    }

    /// The identifier of the next request to run, if any.
    pub fn get_next_deferred_execution(&self) -> (r: Option<u64>)
        requires
            self.wf(),
        ensures
            r == spec_next_id(self.latest),
            r matches Some(id) ==> 1 <= id <= self.execs@.len(),
    {
        match self.latest {
            None => None,
            Some(l) => match l.processed {
                None => Some(1),
                Some(p) => if p >= l.issued {
                    None
                } else {
                    Some(p + 1)
                },
            },
        }
    }

    /// The next request, when it was queued before `publish_time`: only a
    /// price published after a request may run it.
    pub fn next_crankable_deferred_exec_id(&self, publish_time: u64) -> (r: Option<(u64, DeferredExecTarget)>)
        requires
            self.wf(),
        ensures
            match spec_next_id(self.latest) {
                None => r is None,
                Some(id) => if self.execs@[id - 1].created < publish_time {
                    r == Some((id, spec_target(self.execs@[id - 1].item)))
                } else {
                    r is None
                },
            },
    {
        match self.get_next_deferred_execution() {
            None => None,
            Some(id) => {
                let _len = self.execs.len();
                let idx: usize = (id - 1) as usize;
                let e = &self.execs[idx];
                let target = e.item.target();
                if e.created < publish_time {
                    Some((id, target))
                } else {
                    None
                }
            },
        }
    }

    /// Queues a request from `trader`: it gets the next identifier and pays
    /// the crank fee (with a surcharge for each full ten requests waiting)
    /// from the funds it carries, or from the position it updates. A
    /// position may have one update queued, be queued for closing once,
    /// and an order be queued for canceling once; a request on a position
    /// or order must come from its owner (`target_owner`, when it exists).
    pub fn defer_execution(
        &mut self,
        trader: String,
        item: DeferredExecItem,
        now: u64,
        crank_fee_charged: Number,
        crank_fee_surcharge: Number,
        price: Option<PricePoint>,
        target_owner: Option<String>,
    ) -> (r: Result<Deferred, PerpError>)
        requires
            old(self).wf(),
            price matches Some(p) ==> p.wf(),
            crank_fee_charged@ >= 0,
            crank_fee_surcharge@ >= 0,
            spec_deposited(item) >= 0,
        ensures
            final(self).wf(),
            match spec_defer_check(
                *old(self),
                trader@,
                item,
                crank_fee_charged@,
                crank_fee_surcharge@,
                price,
                target_owner,
            ) {
                Err(e) => r == Err::<Deferred, PerpError>(e) && *final(self) == *old(self),
                Ok((id, fee_usd, fee)) => r matches Ok(d) && d.id == id && d.crank_fee@ == fee && d.crank_fee_usd@
                    == fee_usd && spec_charge(item, d.charge, fee, fee_usd) && final(self).latest == Some(
                    LatestIds {
                        issued: d.id,
                        processed: match old(self).latest {
                            Some(l) => l.processed,
                            None => None,
                        },
                    },
                ) && final(self).execs@.len() == old(self).execs@.len() + 1 && final(self).execs@.drop_last()
                    == old(self).execs@ && final(self).execs@.last().id == d.id
                    && final(self).execs@.last().owner@ == trader@ && final(self).execs@.last().created == now
                    && final(self).execs@.last().status == DeferredExecStatus::Pending && spec_item_after_fee(
                    item,
                    final(self).execs@.last().item,
                    fee,
                    fee_usd,
                ) && final(self).pending_for_position@ == (match spec_target(item) {
                    DeferredExecTarget::Position(p) => old(self).pending_for_position@.push((p, d.id)),
                    _ => old(self).pending_for_position@,
                }) && final(self).pending_for_order@ == (match spec_target(item) {
                    DeferredExecTarget::Order(o) => old(self).pending_for_order@.push((o, d.id)),
                    _ => old(self).pending_for_order@,
                }) && final(self).closing@ == (match item {
                    DeferredExecItem::ClosePosition { id } => old(self).closing@.push(id),
                    _ => old(self).closing@,
                }) && final(self).canceling@ == (match item {
                    DeferredExecItem::CancelLimitOrder { order_id } => old(self).canceling@.push(order_id),
                    _ => old(self).canceling@,
                }),
            },
    {
        let (new_id, queue_size) = match self.latest {
            None => (1u64, 0u64),
            Some(l) => {
                if l.issued == u64::MAX {
                    return Err(PerpError::Arithmetic);
                }
                let processed = match l.processed {
                    Some(p) => p,
                    None => 0,
                };
                (l.issued + 1, l.issued - processed)
            },
        };
        let steps = Number::from_u64(queue_size / 10);
        let surcharge = lift(crank_fee_surcharge.checked_mul(&steps))?;
        let fee_usd = lift(crank_fee_charged.checked_add(&surcharge))?;
        let p = match price {
            Some(p) => p,
            None => return Err(PerpError::MissingSpotPrice),
        };
        let fee = lift(p.usd_to_collateral(&fee_usd))?;
        proof {
            lemma_trunc_nonneg(crank_fee_surcharge@, steps@);
            lemma_trunc_nonneg(fee_usd@, p.price_usd@);
        }
        let (queued, charge) = match item {
            DeferredExecItem::OpenPosition { amount, .. } => {
                amount.range_fact();
                fee.range_fact();
                let left = lift(amount.checked_sub(&fee))?;
                if !left.is_strictly_positive() {
                    return Err(PerpError::InsufficientFundsForCrankFee);
                }
                (
                    DeferredExecItem::OpenPosition { amount: left, crank_fee: fee, crank_fee_usd: fee_usd },
                    CrankFeeCharge::Collect { amount: fee, amount_usd: fee_usd },
                )
            },
            DeferredExecItem::PlaceLimitOrder { amount, .. } => {
                amount.range_fact();
                fee.range_fact();
                let left = lift(amount.checked_sub(&fee))?;
                if !left.is_strictly_positive() {
                    return Err(PerpError::InsufficientFundsForCrankFee);
                }
                (
                    DeferredExecItem::PlaceLimitOrder { amount: left, crank_fee: fee, crank_fee_usd: fee_usd },
                    CrankFeeCharge::Collect { amount: fee, amount_usd: fee_usd },
                )
            },
            DeferredExecItem::UpdatePositionAddCollateralImpactLeverage { id, amount } => {
                amount.range_fact();
                fee.range_fact();
                let left = lift(amount.checked_sub(&fee))?;
                if !left.is_strictly_positive() {
                    return Err(PerpError::InsufficientFundsForCrankFee);
                }
                (
                    DeferredExecItem::UpdatePositionAddCollateralImpactLeverage { id, amount: left },
                    CrankFeeCharge::ChargePosition { id, amount: fee, amount_usd: fee_usd },
                )
            },
            DeferredExecItem::UpdatePositionAddCollateralImpactSize { id, amount } => {
                amount.range_fact();
                fee.range_fact();
                let left = lift(amount.checked_sub(&fee))?;
                if !left.is_strictly_positive() {
                    return Err(PerpError::InsufficientFundsForCrankFee);
                }
                (
                    DeferredExecItem::UpdatePositionAddCollateralImpactSize { id, amount: left },
                    CrankFeeCharge::ChargePosition { id, amount: fee, amount_usd: fee_usd },
                )
            },
            DeferredExecItem::UpdatePositionRemoveCollateralImpactLeverage { id }
            | DeferredExecItem::UpdatePositionRemoveCollateralImpactSize { id }
            | DeferredExecItem::UpdatePositionLeverage { id }
            | DeferredExecItem::UpdatePositionMaxGains { id }
            | DeferredExecItem::SetTriggerOrder { id } => {
                if has_pending_exec(&self.pending_for_position, id) {
                    return Err(PerpError::PositionUpdateAlreadyPending);
                }
                (item, CrankFeeCharge::PendingOnPosition { id, amount_usd: fee_usd })
            },
            DeferredExecItem::ClosePosition { id } => {
                if contains_id(&self.closing, id) {
                    return Err(PerpError::PositionAlreadyClosing);
                }
                (item, CrankFeeCharge::NoCharge)
            },
            DeferredExecItem::CancelLimitOrder { order_id } => {
                if contains_id(&self.canceling, order_id) {
                    return Err(PerpError::LimitOrderAlreadyCanceling);
                }
                (item, CrankFeeCharge::NoCharge)
            },
        };
        let target = item.target();
        match target {
            DeferredExecTarget::DoesNotExist => {},
            _ => match &target_owner {
                None => return Err(PerpError::TargetNotFound),
                Some(o) => {
                    if *o != trader {
                        return Err(PerpError::NotOwner);
                    }
                },
            },
        }
        let processed = match self.latest {
            Some(l) => l.processed,
            None => None,
        };
        let ghost old_execs = self.execs@;
        self.latest = Some(LatestIds { issued: new_id, processed });
        self.execs.push(
            DeferredExec { id: new_id, owner: trader, created: now, status: DeferredExecStatus::Pending, item: queued },
        );
        proof {
            assert(self.execs@.drop_last() =~= old_execs);
            assert forall|i: int| 0 <= i < self.execs@.len() implies #[trigger] self.execs@[i].id == i + 1 by {
                if i < old_execs.len() {
                    assert(self.execs@[i] == old_execs[i]);
                }
            }
        }
        match target {
            DeferredExecTarget::DoesNotExist => {},
            DeferredExecTarget::Position(p) => {
                self.pending_for_position.push((p, new_id));
            },
            DeferredExecTarget::Order(o) => {
                self.pending_for_order.push((o, new_id));
            },
        }
        match item {
            DeferredExecItem::ClosePosition { id } => {
                self.closing.push(id);
            },
            DeferredExecItem::CancelLimitOrder { order_id } => {
                self.canceling.push(order_id);
            },
            _ => {},
        }
        Ok(Deferred { id: new_id, crank_fee: fee, crank_fee_usd: fee_usd, charge })
    }
}

/// The reply a queued request gets once run.
#[derive(Clone, Debug)]
pub struct DeferredReply {
    pub success: bool,
    pub target: DeferredExecTarget,
    /// Collateral to send back to the owner, after a failure.
    pub refund: Option<(String, Number)>,
}

fn pending_index(v: &Vec<(u64, u64)>, key: u64, id: u64) -> (r: Option<usize>)
    ensures
        match r {
            Some(i) => i < v@.len() && v@[i as int] == (key, id),
            None => !v@.contains((key, id)),
        },
{
    let mut i: usize = 0;
    while i < v.len()
        invariant
            i <= v@.len(),
            forall|k: int| 0 <= k < i ==> v@[k] != (key, id),
        decreases v@.len() - i,
    {
        if v[i].0 == key && v[i].1 == id {
            return Some(i);
        }
        i += 1;
    }
    None
}

impl DeferredQueue {
    /// Marks the next request as processed, once handed to execution.
    pub fn process_deferred_exec(&mut self, id: u64)
        requires
            old(self).wf(),
            spec_next_id(old(self).latest) == Some(id),
        ensures
            final(self).wf(),
            final(self).latest == Some(LatestIds { issued: old(self).latest->Some_0.issued, processed: Some(id) }),
            spec_queue_size(final(self).latest) == spec_queue_size(old(self).latest) - 1,
            final(self).execs@ == old(self).execs@,
            final(self).pending_for_position@ == old(self).pending_for_position@,
            final(self).pending_for_order@ == old(self).pending_for_order@,
            final(self).closing@ == old(self).closing@,
            final(self).canceling@ == old(self).canceling@,
    {
        match self.latest {
            Some(l) => {
                self.latest = Some(LatestIds { issued: l.issued, processed: Some(id) });
            },
            None => {},
        }
    }

    /// Records that the request ran successfully at `now`.
    pub fn mark_deferred_exec_success(&mut self, id: u64, now: u64)
        requires
            old(self).wf(),
            1 <= id <= old(self).execs@.len(),
        ensures
            final(self).wf(),
            final(self).latest == old(self).latest,
            final(self).execs@.len() == old(self).execs@.len(),
            forall|i: int| 0 <= i < old(self).execs@.len() && i != id - 1 ==> final(self).execs@[i] == old(self).execs@[i],
            final(self).execs@[id - 1].status == (DeferredExecStatus::Success { executed: now }),
            final(self).execs@[id - 1].item == old(self).execs@[id - 1].item,
            final(self).execs@[id - 1].owner == old(self).execs@[id - 1].owner,
            final(self).execs@[id - 1].id == id,
            final(self).pending_for_position@ == old(self).pending_for_position@,
            final(self).pending_for_order@ == old(self).pending_for_order@,
            final(self).closing@ == old(self).closing@,
            final(self).canceling@ == old(self).canceling@,
    {
        let _len = self.execs.len();
        let idx: usize = (id - 1) as usize;
        let ghost before = self.execs@;
        let old_exec = self.execs.remove(idx);
        let exec = DeferredExec {
            id: old_exec.id,
            owner: old_exec.owner,
            created: old_exec.created,
            status: DeferredExecStatus::Success { executed: now },
            item: old_exec.item,
        };
        self.execs.insert(idx, exec);
        proof {
            assert(self.execs@ =~= before.update(idx as int, self.execs@[idx as int]));
            assert forall|i: int| 0 <= i < self.execs@.len() implies #[trigger] self.execs@[i].id == i + 1 by {
                if i != idx as int {
                    assert(self.execs@[i] == before[i]);
                }
            }
        }
    }

    /// Handles the reply of a queued request that ran: a success must
    /// already be recorded; a failure is recorded at `now` (the request
    /// must still be pending) and the collateral sent with it goes back
    /// to its owner. Either way the request no longer counts as pending
    /// for its position or order, where it must have counted.
    pub fn handle_deferred_exec_reply(&mut self, id: u64, success: bool, now: u64) -> (r: Result<DeferredReply, PerpError>)
        requires
            old(self).wf(),
            1 <= id <= old(self).execs@.len(),
        ensures
            final(self).wf(),
            ({
                let e = old(self).execs@[id - 1];
                let target = spec_target(e.item);
                let status_ok = if success {
                    e.status is Success
                } else {
                    e.status is Pending
                };
                let marker_ok = match target {
                    DeferredExecTarget::DoesNotExist => true,
                    DeferredExecTarget::Position(p) => old(self).pending_for_position@.contains((p, id)),
                    DeferredExecTarget::Order(o) => old(self).pending_for_order@.contains((o, id)),
                };
                if !status_ok {
                    r == Err::<DeferredReply, PerpError>(PerpError::UnexpectedDeferredStatus) && *final(self)
                        == *old(self)
                } else if !marker_ok {
                    r == Err::<DeferredReply, PerpError>(PerpError::UnexpectedDeferredStatus) && *final(self)
                        == *old(self)
                } else {
                    &&& r matches Ok(reply)
                    &&& reply.success == success
                    &&& reply.target == target
                    &&& (success || spec_deposited(e.item) <= 0) ==> reply.refund is None
                    &&& (!success && spec_deposited(e.item) > 0) ==> (reply.refund matches Some((o, a)) && o@
                        == e.owner@ && a@ == spec_deposited(e.item))
                    &&& final(self).latest == old(self).latest
                    &&& final(self).execs@.len() == old(self).execs@.len()
                    &&& forall|i: int|
                        0 <= i < old(self).execs@.len() && i != id - 1 ==> final(self).execs@[i] == old(self).execs@[i]
                    &&& final(self).execs@[id - 1].status == (if success {
                        e.status
                    } else {
                        DeferredExecStatus::Failure { executed: now }
                    })
                    &&& final(self).execs@[id - 1].item == e.item
                    &&& match target {
                        DeferredExecTarget::Position(p) => final(self).pending_for_position@.len()
                            == old(self).pending_for_position@.len() - 1,
                        _ => final(self).pending_for_position@ == old(self).pending_for_position@,
                    }
                    &&& match target {
                        DeferredExecTarget::Order(o) => final(self).pending_for_order@.len()
                            == old(self).pending_for_order@.len() - 1,
                        _ => final(self).pending_for_order@ == old(self).pending_for_order@,
                    }
                    &&& final(self).closing@ == old(self).closing@
                    &&& final(self).canceling@ == old(self).canceling@
                }
            }),
    {
        let _len = self.execs.len();
        let idx: usize = (id - 1) as usize;
        let status = self.execs[idx].status;
        let item = self.execs[idx].item;
        let status_ok = if success {
            match status {
                DeferredExecStatus::Success { .. } => true,
                _ => false,
            }
        } else {
            match status {
                DeferredExecStatus::Pending => true,
                _ => false,
            }
        };
        if !status_ok {
            return Err(PerpError::UnexpectedDeferredStatus);
        }
        let target = item.target();
        let marker = match target {
            DeferredExecTarget::DoesNotExist => None,
            DeferredExecTarget::Position(p) => match pending_index(&self.pending_for_position, p, id) {
                Some(i) => Some(i),
                None => return Err(PerpError::UnexpectedDeferredStatus),
            },
            DeferredExecTarget::Order(o) => match pending_index(&self.pending_for_order, o, id) {
                Some(i) => Some(i),
                None => return Err(PerpError::UnexpectedDeferredStatus),
            },
        };
        let refund = if success {
            None
        } else {
            let amount = item.deposited_amount();
            let refund = if amount.is_strictly_positive() {
                Some((self.execs[idx].owner.clone(), amount))
            } else {
                None
            };
            let ghost before = self.execs@;
            let old_exec = self.execs.remove(idx);
            let exec = DeferredExec {
                id: old_exec.id,
                owner: old_exec.owner,
                created: old_exec.created,
                status: DeferredExecStatus::Failure { executed: now },
                item: old_exec.item,
            };
            self.execs.insert(idx, exec);
            proof {
                assert(self.execs@ =~= before.update(idx as int, self.execs@[idx as int]));
                assert forall|i: int| 0 <= i < self.execs@.len() implies #[trigger] self.execs@[i].id == i + 1 by {
                    if i != idx as int {
                        assert(self.execs@[i] == before[i]);
                    }
                }
            }
            refund
        };
        match (target, marker) {
            (DeferredExecTarget::Position(_), Some(i)) => {
                self.pending_for_position.remove(i);
            },
            (DeferredExecTarget::Order(_), Some(i)) => {
                self.pending_for_order.remove(i);
            },
            _ => {},
        }
        Ok(DeferredReply { success, target, refund })
    }
}

/// When every queued request has been processed, a newly queued request is
/// the next to run.
pub proof fn lemma_deferred_runs_next(latest: Option<LatestIds>)
    requires
        spec_next_id(latest) is None,
        latest matches Some(l) ==> l.issued < u64::MAX && (l.processed matches Some(p) ==> p <= l.issued),
    ensures
        spec_next_id(
            Some(
                LatestIds {
                    issued: spec_new_id(latest) as u64,
                    processed: match latest {
                        Some(l) => l.processed,
                        None => None,
                    },
                },
            ),
        ) == Some(spec_new_id(latest) as u64),
{
}

/// A position is queued for closing at most once: once it is marked as
/// closing, another request to close it is refused.
pub proof fn lemma_close_queued_once(
    q: DeferredQueue,
    trader: Seq<char>,
    id: u64,
    charged: int,
    surcharge: int,
    price: Option<PricePoint>,
    target_owner: Option<String>,
)
    requires
        q.closing@.contains(id),
    ensures
        spec_defer_check(q, trader, DeferredExecItem::ClosePosition { id }, charged, surcharge, price, target_owner) is Err,
{
}

} // verus!
