//! The crank: choosing the next piece of work at a price point, and running
//! a batch of work within a weight budget.
use crate::book::PositionBook;
use crate::deferred::{spec_next_id, spec_target, DeferredExecTarget, DeferredQueue};
use crate::orders::{is_next_triggered, limit_order_triggered_order, long_triggered, short_triggered, LimitOrderBook};
use crate::position::Position;
use crate::price::PricePoint;
use vstd::prelude::*;

verus! {

/// Why a position is liquidated.
#[derive(Clone, Copy, Debug, PartialEq, Eq, Structural)]
pub enum LiquidationReason {
    Liquidated,
    MaxGains,
    StopLoss,
    TakeProfit,
}

/// A piece of work for the crank.
#[derive(Clone, Copy, Debug, PartialEq, Eq, Structural)]
pub enum CrankWorkInfo {
    ResetLpBalances,
    Liquifunding { position: u64 },
    CloseAllPositions { position: u64 },
    Liquidation { position: u64, liquidation_reason: LiquidationReason },
    DeferredExec { deferred_exec_id: u64, target: DeferredExecTarget },
    LimitOrder { order_id: u64 },
    Completed,
}

/// Whether the work earns the cranker a reward: settling positions,
/// running queued requests and executing orders do; resetting balances,
/// closing everything and completing a price point do not.
pub open spec fn spec_receives_crank_rewards(w: CrankWorkInfo) -> bool {
    match w {
        CrankWorkInfo::Liquifunding { .. } | CrankWorkInfo::Liquidation { .. } | CrankWorkInfo::DeferredExec { .. }
        | CrankWorkInfo::LimitOrder { .. } => true,
        _ => false,
    }
}

impl CrankWorkInfo {
    /// Whether the work earns the cranker a reward.
    pub fn receives_crank_rewards(&self) -> (r: bool)
        ensures
            r == spec_receives_crank_rewards(*self),
    {
        match self {
            CrankWorkInfo::Liquifunding { .. } | CrankWorkInfo::Liquidation { .. } | CrankWorkInfo::DeferredExec { .. }
            | CrankWorkInfo::LimitOrder { .. } => true,
            _ => false,
        }
    }
}

/// The smallest identifier of an open position, when there is one.
pub open spec fn is_first_position(s: Seq<Position>, id: u64) -> bool {
    (exists|i: int| 0 <= i < s.len() && #[trigger] s[i].id == id) && forall|j: int| 0 <= j < s.len() ==> id <= #[trigger] s[j].id
}

/// The open position closed first when every position is being closed:
/// the one with the smallest identifier, or none when the flag is off or
/// no position is open.
pub fn get_close_all_positions_work(close_all_positions: bool, book: &PositionBook) -> (r: Option<u64>)
    ensures
        !close_all_positions ==> r is None,
        close_all_positions && book.positions@.len() == 0 ==> r is None,
        close_all_positions && book.positions@.len() > 0 ==> (r matches Some(id) && is_first_position(book.positions@, id)),
{
    if !close_all_positions || book.positions.len() == 0 {
        return None;
    }
    let mut best: u64 = book.positions[0].id;
    let mut i: usize = 1;
    while i < book.positions.len()
        invariant
            1 <= i <= book.positions@.len(),
            exists|k: int| 0 <= k < i && #[trigger] book.positions@[k].id == best,
            forall|j: int| 0 <= j < i ==> best <= #[trigger] book.positions@[j].id,
        decreases book.positions@.len() - i,
    {
        if book.positions[i].id < best {
            best = book.positions[i].id;
            proof {
                assert(book.positions@[i as int].id == best);
            }
        }
        i += 1;
    }
    Some(best)
}

/// The next piece of work at a price point, by priority: resetting the
/// liquidity providers' balances; settling the position whose liquifunding
/// is due soonest; closing positions when all are being closed;
/// liquidating a position whose trigger is hit; running the next queued
/// request published before the price; executing the next triggered limit
/// order; and otherwise completing the price point. The caller finds the
/// position due for liquifunding and the liquidatable position from the
/// indices it keeps.
pub fn crank_work(
    reset_lp_balances: bool,
    next_liquifunding: Option<u64>,
    close_all_positions: bool,
    positions: &PositionBook,
    liquidatable: Option<(u64, LiquidationReason)>,
    queue: &DeferredQueue,
    orders: &LimitOrderBook,
    price_point: &PricePoint,
) -> (r: CrankWorkInfo)
    requires
        queue.wf(),
    ensures
        ({
            let s = positions.positions@;
            let o = orders.orders@;
            let price = price_point.price_notional@;
            let deferred = match spec_next_id(queue.latest) {
                None => None,
                Some(id) => if queue.execs@[id - 1].created < price_point.timestamp {
                    Some((id, spec_target(queue.execs@[id - 1].item)))
                } else {
                    None
                },
            };
            let any_order = exists|j: int| 0 <= j < o.len() && (long_triggered(#[trigger] o[j], price) || short_triggered(o[j], price));
            if reset_lp_balances {
                r == CrankWorkInfo::ResetLpBalances
            } else if next_liquifunding is Some {
                r == CrankWorkInfo::Liquifunding { position: next_liquifunding->0 }
            } else if close_all_positions && s.len() > 0 {
                r matches CrankWorkInfo::CloseAllPositions { position } && is_first_position(s, position)
            } else {
                match (liquidatable, deferred) {
                    (Some((position, liquidation_reason)), _) => r == CrankWorkInfo::Liquidation { position, liquidation_reason },
                    (None, Some((deferred_exec_id, target))) => r == CrankWorkInfo::DeferredExec { deferred_exec_id, target },
                    (None, None) => if any_order {
                        r matches CrankWorkInfo::LimitOrder { order_id } && exists|i: int| #[trigger] is_next_triggered(o, price, i) && o[i].order_id == order_id
                    } else {
                        r == CrankWorkInfo::Completed
                    },
                }
            }
        }),
{
    if reset_lp_balances {
        return CrankWorkInfo::ResetLpBalances;
    }
    if let Some(position) = next_liquifunding {
        return CrankWorkInfo::Liquifunding { position };
    }
    if let Some(position) = get_close_all_positions_work(close_all_positions, positions) {
        return CrankWorkInfo::CloseAllPositions { position };
    }
    if let Some((position, liquidation_reason)) = liquidatable {
        return CrankWorkInfo::Liquidation { position, liquidation_reason };
    }
    if let Some((deferred_exec_id, target)) = queue.next_crankable_deferred_exec_id(price_point.timestamp) {
        return CrankWorkInfo::DeferredExec { deferred_exec_id, target };
    }
    match limit_order_triggered_order(orders, price_point.price_notional) {
        Some(order_id) => CrankWorkInfo::LimitOrder { order_id },
        None => CrankWorkInfo::Completed,
    }
}

/// Weight of a regular piece of work in a batch.
pub const REGULAR_WEIGHT: u32 = 5;

/// Weight of completing a price point.
pub const COMPLETED_WEIGHT: u32 = 1;

/// The weight of a piece of work.
pub open spec fn spec_weight(w: CrankWorkInfo) -> int {
    match w {
        CrankWorkInfo::Completed => COMPLETED_WEIGHT as int,
        _ => REGULAR_WEIGHT as int,
    }
}

/// A batch of crank work under way.
#[derive(Debug)]
pub struct CrankProgress {
    /// Weight still to spend.
    pub weight_budget_left: u32,
    /// Pieces of work done that earn a reward.
    pub paying_work_done: u32,
    /// Pieces of work requested.
    pub requested: u32,
    /// The work done, with the price point of each.
    pub actual: Vec<(CrankWorkInfo, PricePoint)>,
}

impl CrankProgress {
    /// The weight spent on paying work and the weight left never exceed
    /// the budget the batch started with.
    pub open spec fn wf(&self) -> bool {
        self.paying_work_done * REGULAR_WEIGHT + self.weight_budget_left <= self.requested * REGULAR_WEIGHT
    }
}

/// Starts a batch of `requested` pieces of work: a budget of the regular
/// weight for each.
pub fn crank_progress_start(requested: u32) -> (r: CrankProgress)
    requires
        requested * REGULAR_WEIGHT <= u32::MAX,
    ensures
        r.wf(),
        r.weight_budget_left == requested * REGULAR_WEIGHT,
        r.paying_work_done == 0,
        r.requested == requested,
        r.actual@.len() == 0,
{
    CrankProgress { weight_budget_left: requested * REGULAR_WEIGHT, paying_work_done: 0, requested, actual: Vec::new() }
}

/// What a batch does with the next piece of work.
#[derive(Clone, Copy, Debug, PartialEq, Eq, Structural)]
pub enum CrankStep {
    /// Do the work, which has been recorded.
    Execute,
    /// The budget cannot pay for it: the batch ends.
    OutOfBudget,
}

/// Charges the next piece of work to the batch: when the budget covers its
/// weight, the weight is spent, the work is recorded and counted if it
/// earns a reward; otherwise the batch ends unchanged.
pub fn crank_batch_step(progress: &mut CrankProgress, work: CrankWorkInfo, price_point: PricePoint) -> (r: CrankStep)
    requires
        old(progress).wf(),
    ensures
        final(progress).wf(),
        final(progress).requested == old(progress).requested,
        old(progress).weight_budget_left < spec_weight(work) ==> r == CrankStep::OutOfBudget && final(progress).weight_budget_left
            == old(progress).weight_budget_left && final(progress).paying_work_done == old(progress).paying_work_done
            && final(progress).actual@ == old(progress).actual@,
        old(progress).weight_budget_left >= spec_weight(work) ==> r == CrankStep::Execute
            && final(progress).weight_budget_left == old(progress).weight_budget_left - spec_weight(work)
            && final(progress).paying_work_done == old(progress).paying_work_done + (if spec_receives_crank_rewards(work) {
            1int
        } else {
            0int
        }) && final(progress).actual@ == old(progress).actual@.push((work, price_point)),
{
    let weight = match work {
        CrankWorkInfo::Completed => COMPLETED_WEIGHT,
        _ => REGULAR_WEIGHT,
    };
    if progress.weight_budget_left < weight {
        return CrankStep::OutOfBudget;
    }
    progress.weight_budget_left = progress.weight_budget_left - weight;
    progress.actual.push((work, price_point));
    if work.receives_crank_rewards() {
        progress.paying_work_done = progress.paying_work_done + 1;
    }
    CrankStep::Execute
}

/// A batch never pays for more work than was requested.
pub proof fn lemma_paying_work_within_request(progress: CrankProgress)
    requires
        progress.wf(),
    ensures
        progress.paying_work_done <= progress.requested,
{
}

} // verus!
