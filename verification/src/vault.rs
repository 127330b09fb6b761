//! The USDC vault: liquidity providers deposit USDC for vault LP tokens,
//! request withdrawals into a queue that is paid out as funds allow, and
//! governance spreads the excess over the markets.
use crate::keyed::{get_value, keys_unique, lemma_key_index, set_value, total_of, value_of, has_key, find};
use crate::number::mul_ratio_u128;
use vstd::prelude::*;

verus! {

/// Basis points in one hundred percent.
pub const MAX_BPS: u64 = 10_000;

/// Markets considered by one redistribution or yield collection at most.
pub const MAX_BATCH: u32 = 50;

/// Markets considered when no batch limit is given.
pub const DEFAULT_BATCH: u32 = 20;

/// Withdrawal requests paid by one processing at most.
pub const WITHDRAWALS_PER_PROCESS: usize = 20;

/// Why the vault refused an operation.
#[derive(Clone, Copy, Debug, PartialEq, Eq, Structural)]
pub enum VaultError {
    /// The allocation percentages add up to more than one hundred percent.
    AllocationExceeds100,
    /// Operations are paused.
    Paused,
    /// Only governance may do this.
    Unauthorized,
    /// A deposit must send exactly one coin, in the vault's denomination.
    InvalidFunds,
    /// An amount does not fit.
    Overflow,
    /// Minting against zero total assets.
    ZeroTotalAssets,
    /// The sender has fewer LP tokens than requested.
    InsufficientBalance,
    /// The LP supply is less than the withdrawal.
    InsufficientSupply,
    /// The pending withdrawals total is less than what was paid.
    PendingWithdrawalsUnderflow,
    /// The vault holds nothing beyond pending withdrawals.
    NoExcess,
    /// No allocation percentages are defined.
    NoAllocation,
    /// The market has no allocation.
    UnknownMarket,
    /// The market's allocation is less than the withdrawal.
    InsufficientAllocation,
    /// The amount must not be zero.
    ZeroAmount,
    /// The number of allocations differs from the number of markets.
    AllocationCountMismatch,
}

/// The query a market answers for the vault.
#[derive(Clone, Copy, Debug, PartialEq, Eq, Structural)]
pub enum MarketQueryMsg {
    /// The market's utilization.
    GetUtilization,
}

/// The message a token transfer to the vault carries.
#[derive(Clone, Copy, Debug, PartialEq, Eq, Structural)]
pub enum Cw20HookMsg {
    /// Deposit the transferred tokens.
    Deposit,
}

/// The vault's configuration.
#[derive(Clone, Debug)]
pub struct VaultConfig {
    /// The address allowed to manage the vault.
    pub governance: String,
    /// Share of each redistribution per market rank, in basis points.
    pub markets_allocation_bps: Vec<u16>,
    /// Denomination of the USDC coin.
    pub usdc_denom: String,
    pub paused: bool,
}

/// A queued withdrawal of vault LP tokens.
#[derive(Clone, Debug)]
pub struct WithdrawalRequest {
    pub user: String,
    pub amount: u128,
}

/// A coin sent with a message.
#[derive(Clone, Debug)]
pub struct Coin {
    pub denom: String,
    pub amount: u128,
}

/// The vault's state.
#[derive(Clone, Debug)]
pub struct Vault {
    pub config: VaultConfig,
    /// Vault LP tokens outstanding.
    pub total_lp_supply: u128,
    /// USDC owed to queued withdrawals.
    pub total_pending_withdrawals: u128,
    /// Vault LP tokens per address.
    pub lp_balances: Vec<(String, u128)>,
    /// Identifier the next withdrawal request gets.
    pub queue_id: u64,
    /// Queued withdrawal requests by identifier, oldest first.
    pub withdrawal_queue: Vec<(u64, WithdrawalRequest)>,
    /// USDC allocated to each market, by market.
    pub market_allocations: Vec<(String, u128)>,
}

/// The sum of allocation percentages.
pub open spec fn bps_total(bps: Seq<u16>) -> int
    decreases bps.len(),
{
    if bps.len() == 0 {
        0
    } else {
        bps[0] + bps_total(bps.drop_first())
    }
}

/// Sum of the first `n` withdrawal amounts of a queue.
pub open spec fn queue_prefix_total(queue: Seq<(u64, WithdrawalRequest)>, n: int) -> int
    decreases n,
{
    if n <= 0 {
        0
    } else {
        queue_prefix_total(queue, n - 1) + queue[n - 1].1.amount
    }
}

impl Vault {
    /// Balances are keyed by address, allocations by market, queue
    /// identifiers increase and stay below the next one, and the LP supply is
    /// the sum of the balances.
    pub open spec fn wf(&self) -> bool {
        &&& keys_unique(self.lp_balances@)
        &&& keys_unique(self.market_allocations@)
        &&& forall|i: int, j: int|
            0 <= i < j < self.withdrawal_queue@.len() ==> self.withdrawal_queue@[i].0 < self.withdrawal_queue@[j].0
        &&& forall|i: int| 0 <= i < self.withdrawal_queue@.len() ==> self.withdrawal_queue@[i].0 < self.queue_id
        &&& self.total_lp_supply == total_of(self.lp_balances@)
    }
}

fn sum_bps(bps: &Vec<u16>) -> (r: u64)
    requires
        bps@.len() <= u32::MAX,
    ensures
        r == bps_total(bps@),
{
    let mut total: u64 = 0;
    let mut i: usize = bps.len();
    while i > 0
        invariant
            i <= bps@.len() <= u32::MAX,
            total == bps_total(bps@.skip(i as int)),
            total <= (bps@.len() - i) * 65535,
        decreases i,
    {
        proof {
            assert(bps@.skip(i as int - 1).drop_first() =~= bps@.skip(i as int));
        }
        total = total + bps[i - 1] as u64;
        i -= 1;
    }
    proof {
        assert(bps@.skip(0) =~= bps@);
    }
    total
}

/// Whether operations are paused.
pub fn check_not_paused(config: &VaultConfig) -> (r: Result<(), VaultError>)
    ensures
        config.paused ==> r == Err::<(), VaultError>(VaultError::Paused),
        !config.paused ==> r is Ok,
{
    if config.paused {
        return Err(VaultError::Paused);
    }
    Ok(())
}

/// What a balance query reports.
#[derive(Clone, Copy, Debug, PartialEq, Eq, Structural)]
pub struct VaultBalanceResponse {
    /// USDC held by the vault.
    pub vault_balance: u128,
    /// USDC allocated to markets.
    pub allocated_amount: u128,
    pub pending_withdrawals: u128,
    /// Held plus allocated.
    pub total_allocated: u128,
}

/// A market and its allocation.
#[derive(Clone, Debug)]
pub struct MarketAllocation {
    pub market_id: String,
    pub amount: u128,
}

/// What processing withdrawals did.
#[derive(Clone, Debug)]
pub struct ProcessWithdrawalResult {
    /// Payments to make: recipient and USDC amount, in queue order.
    pub transfers: Vec<(String, u128)>,
    /// Total USDC paid.
    pub processed_amount: u128,
}

/// How many requests from the front of the queue are paid with `balance`,
/// looking at no more than `limit`: requests are taken in order until one
/// would bring the total above the balance.
pub open spec fn spec_paid_count(queue: Seq<(u64, WithdrawalRequest)>, balance: int, limit: int, i: int) -> int
    decreases limit - i,
{
    if i >= limit || i >= queue.len() {
        i
    } else if queue_prefix_total(queue, i + 1) > balance {
        i
    } else {
        spec_paid_count(queue, balance, limit, i + 1)
    }
}

/// Whether a running total overflows before processing stops.
pub open spec fn spec_paid_overflows(queue: Seq<(u64, WithdrawalRequest)>, balance: int, limit: int, i: int) -> bool
    decreases limit - i,
{
    if i >= limit || i >= queue.len() {
        false
    } else if queue_prefix_total(queue, i + 1) > u128::MAX {
        true
    } else if queue_prefix_total(queue, i + 1) > balance {
        false
    } else {
        spec_paid_overflows(queue, balance, limit, i + 1)
    }
}

proof fn lemma_paid_count(queue: Seq<(u64, WithdrawalRequest)>, balance: int, limit: int, i: int)
    requires
        0 <= i <= limit,
        i <= queue.len(),
        queue_prefix_total(queue, i) <= balance,
    ensures
        i <= spec_paid_count(queue, balance, limit, i) <= limit,
        spec_paid_count(queue, balance, limit, i) <= queue.len(),
        queue_prefix_total(queue, spec_paid_count(queue, balance, limit, i)) <= balance,
    decreases limit - i,
{
    if i < limit && i < queue.len() && queue_prefix_total(queue, i + 1) <= balance {
        lemma_paid_count(queue, balance, limit, i + 1);
    }
}

impl Vault {
    /// Creates the vault; the allocation percentages may not add up to more
    /// than one hundred percent.
    pub fn instantiate(governance: String, markets_allocation_bps: Vec<u16>, usdc_denom: String) -> (r: Result<Vault, VaultError>)
        requires
            markets_allocation_bps@.len() <= u32::MAX,
        ensures
            bps_total(markets_allocation_bps@) > MAX_BPS ==> r == Err::<Vault, VaultError>(VaultError::AllocationExceeds100),
            bps_total(markets_allocation_bps@) <= MAX_BPS ==> (r matches Ok(v) && v.wf() && v.config.governance
                == governance && v.config.markets_allocation_bps@ == markets_allocation_bps@
                && v.config.usdc_denom == usdc_denom && !v.config.paused && v.total_lp_supply == 0
                && v.total_pending_withdrawals == 0 && v.lp_balances@.len() == 0 && v.queue_id == 0
                && v.withdrawal_queue@.len() == 0 && v.market_allocations@.len() == 0),
    {
        let total = sum_bps(&markets_allocation_bps);
        if total > MAX_BPS {
            return Err(VaultError::AllocationExceeds100);
        }
        Ok(
            Vault {
                config: VaultConfig { governance, markets_allocation_bps, usdc_denom, paused: false },
                total_lp_supply: 0,
                total_pending_withdrawals: 0,
                lp_balances: Vec::new(),
                queue_id: 0,
                withdrawal_queue: Vec::new(),
                market_allocations: Vec::new(),
            },
        )
    }

    /// Hands out the next withdrawal request identifier.
    pub fn get_and_increment_queue_id(&mut self) -> (r: u64)
        requires
            old(self).queue_id < u64::MAX,
        ensures
            r == old(self).queue_id,
            final(self).queue_id == old(self).queue_id + 1,
            final(self).config == old(self).config,
            final(self).total_lp_supply == old(self).total_lp_supply,
            final(self).total_pending_withdrawals == old(self).total_pending_withdrawals,
            final(self).lp_balances == old(self).lp_balances,
            final(self).withdrawal_queue == old(self).withdrawal_queue,
            final(self).market_allocations == old(self).market_allocations,
    {
        let current = self.queue_id;
        self.queue_id = current + 1;
        current
    }

    /// The vault's USDC balance plus what is allocated to markets.
    pub fn get_total_assets(&self, vault_balance: u128) -> (r: Result<u128, VaultError>)
        ensures
            vault_balance + total_of(self.market_allocations@) <= u128::MAX ==> r == Ok::<u128, VaultError>(
                (vault_balance + total_of(self.market_allocations@)) as u128,
            ),
            vault_balance + total_of(self.market_allocations@) > u128::MAX ==> r == Err::<u128, VaultError>(
                VaultError::Overflow,
            ),
    {
        let allocated = match self.allocated_amount() {
            Some(a) => a,
            None => {
                proof {
                    lemma_total_nonneg(self.market_allocations@);
                }
                return Err(VaultError::Overflow);
            },
        };
        proof {
            lemma_total_nonneg(self.market_allocations@);
        }
        match vault_balance.checked_add(allocated) {
            Some(t) => Ok(t),
            None => Err(VaultError::Overflow),
        }
    }

    /// The total allocated to markets, if it fits.
    fn allocated_amount(&self) -> (r: Option<u128>)
        ensures
            total_of(self.market_allocations@) <= u128::MAX ==> r == Some(total_of(self.market_allocations@) as u128),
            total_of(self.market_allocations@) > u128::MAX ==> r is None,
    {
        let mut total: u128 = 0;
        let mut i: usize = 0;
        let n = self.market_allocations.len();
        while i < n
            invariant
                i <= n == self.market_allocations@.len(),
                total == total_of(self.market_allocations@.take(i as int)),
            decreases n - i,
        {
            proof {
                assert(self.market_allocations@.take(i as int + 1).drop_last() =~= self.market_allocations@.take(i as int));
                lemma_total_prefix_monotone(self.market_allocations@, i as int + 1);
            }
            match total.checked_add(self.market_allocations[i].1) {
                Some(t) => total = t,
                None => return None,
            }
            i += 1;
        }
        proof {
            assert(self.market_allocations@.take(n as int) =~= self.market_allocations@);
        }
        Some(total)
    }

    /// Balances and totals of the vault.
    pub fn get_vault_balance(&self, vault_balance: u128) -> (r: Result<VaultBalanceResponse, VaultError>)
        ensures
            vault_balance + total_of(self.market_allocations@) <= u128::MAX ==> (r matches Ok(b)
                && b.vault_balance == vault_balance && b.allocated_amount == total_of(self.market_allocations@)
                && b.pending_withdrawals == self.total_pending_withdrawals && b.total_allocated == vault_balance
                + total_of(self.market_allocations@)),
            vault_balance + total_of(self.market_allocations@) > u128::MAX ==> r == Err::<
                VaultBalanceResponse,
                VaultError,
            >(VaultError::Overflow),
    {
        proof {
            lemma_total_nonneg(self.market_allocations@);
        }
        let allocated = match self.allocated_amount() {
            Some(a) => a,
            None => return Err(VaultError::Overflow),
        };
        let total = match vault_balance.checked_add(allocated) {
            Some(t) => t,
            None => return Err(VaultError::Overflow),
        };
        Ok(
            VaultBalanceResponse {
                vault_balance,
                allocated_amount: allocated,
                pending_withdrawals: self.total_pending_withdrawals,
                total_allocated: total,
            },
        )
    }

    /// Deposits USDC: exactly one coin, in the vault's denomination, must be
    /// sent. LP tokens are minted one for one into an empty vault, and
    /// otherwise in proportion `amount * supply / total_assets`, where the
    /// vault's balance already includes the deposit. Returns the LP minted.
    pub fn execute_deposit(&mut self, sender: &String, funds: &Vec<Coin>, vault_balance: u128) -> (r: Result<u128, VaultError>)
        requires
            old(self).wf(),
        ensures
            final(self).wf(),
            old(self).config.paused ==> r == Err::<u128, VaultError>(VaultError::Paused),
            !old(self).config.paused && (funds@.len() != 1 || funds@[0].denom@ != old(self).config.usdc_denom@)
                ==> r == Err::<u128, VaultError>(VaultError::InvalidFunds),
            r is Err ==> *final(self) == *old(self),
            r is Ok ==> !old(self).config.paused && funds@.len() == 1 && funds@[0].denom@ == old(self).config.usdc_denom@,
            r matches Ok(minted) ==> minted == (if old(self).total_lp_supply == 0 {
                funds@[0].amount as int
            } else {
                funds@[0].amount * old(self).total_lp_supply / (vault_balance + total_of(old(self).market_allocations@))
            }),
            r matches Ok(minted) ==> final(self).total_lp_supply == old(self).total_lp_supply + minted,
            r matches Ok(minted) ==> value_of(final(self).lp_balances@, sender@) == value_of(old(self).lp_balances@, sender@) + minted,
            r is Ok ==> forall|k: Seq<char>| k != sender@ ==> value_of(#[trigger] final(self).lp_balances@, k) == value_of(
                old(self).lp_balances@,
                k,
            ),
            r is Ok ==> final(self).config == old(self).config && final(self).withdrawal_queue == old(self).withdrawal_queue
                && final(self).market_allocations == old(self).market_allocations && final(self).queue_id == old(self).queue_id
                && final(self).total_pending_withdrawals == old(self).total_pending_withdrawals,
            // Success is owed whenever the funds are right and the amounts fit.
            (!old(self).config.paused && funds@.len() == 1 && funds@[0].denom@ == old(self).config.usdc_denom@
                && vault_balance + total_of(old(self).market_allocations@) <= u128::MAX && (old(self).total_lp_supply
                == 0 || vault_balance + total_of(old(self).market_allocations@) > 0) && ({
                let amount = funds@[0].amount;
                let total_assets = vault_balance + total_of(old(self).market_allocations@);
                let minted = if old(self).total_lp_supply == 0 {
                    amount as int
                } else {
                    amount * old(self).total_lp_supply / total_assets
                };
                old(self).total_lp_supply + minted <= u128::MAX
            })) ==> r is Ok,
    {
        check_not_paused(&self.config)?;
        if funds.len() != 1 || funds[0].denom != self.config.usdc_denom {
            return Err(VaultError::InvalidFunds);
        }
        let amount = funds[0].amount;
        proof {
            lemma_total_nonneg(self.market_allocations@);
        }
        let total_assets = self.get_total_assets(vault_balance)?;
        let lp_amount = if self.total_lp_supply == 0 {
            amount
        } else {
            if total_assets == 0 {
                return Err(VaultError::ZeroTotalAssets);
            }
            match mul_ratio_u128(amount, self.total_lp_supply, total_assets) {
                Some(v) => {
                    assert(total_assets == vault_balance + total_of(self.market_allocations@));
                    assert(v == amount * self.total_lp_supply / (total_assets as int));
                    v
                },
                None => return Err(VaultError::Overflow),
            }
        };
        let new_supply = match self.total_lp_supply.checked_add(lp_amount) {
            Some(v) => v,
            None => return Err(VaultError::Overflow),
        };
        let balance = get_value(&self.lp_balances, sender);
        proof {
            lemma_value_le_total(self.lp_balances@, sender@);
        }
        let new_balance = balance + lp_amount;
        set_value(&mut self.lp_balances, sender, new_balance);
        self.total_lp_supply = new_supply;
        Ok(lp_amount)
    }

    /// Requests a withdrawal of `amount` vault LP tokens: they are burned
    /// from the sender's balance and the supply, and the request is queued.
    pub fn execute_request_withdrawal(&mut self, sender: &String, amount: u128) -> (r: Result<(), VaultError>)
        requires
            old(self).wf(),
            old(self).queue_id < u64::MAX,
        ensures
            final(self).wf(),
            old(self).config.paused ==> r == Err::<(), VaultError>(VaultError::Paused),
            !old(self).config.paused && value_of(old(self).lp_balances@, sender@) < amount ==> r == Err::<
                (),
                VaultError,
            >(VaultError::InsufficientBalance),
            !old(self).config.paused && value_of(old(self).lp_balances@, sender@) >= amount
                && old(self).total_pending_withdrawals + amount > u128::MAX ==> r == Err::<(), VaultError>(
                VaultError::Overflow,
            ),
            !old(self).config.paused && value_of(old(self).lp_balances@, sender@) >= amount
                && old(self).total_pending_withdrawals + amount <= u128::MAX ==> r is Ok,
            r is Err ==> *final(self) == *old(self),
            r is Ok ==> ({
                &&& value_of(final(self).lp_balances@, sender@) == value_of(old(self).lp_balances@, sender@) - amount
                &&& forall|k: Seq<char>| k != sender@ ==> value_of(#[trigger] final(self).lp_balances@, k) == value_of(
                    old(self).lp_balances@,
                    k,
                )
                &&& final(self).total_lp_supply == old(self).total_lp_supply - amount
                &&& final(self).queue_id == old(self).queue_id + 1
                &&& final(self).withdrawal_queue@.len() == old(self).withdrawal_queue@.len() + 1
                &&& final(self).withdrawal_queue@.drop_last() == old(self).withdrawal_queue@
                &&& final(self).withdrawal_queue@.last().0 == old(self).queue_id
                &&& final(self).withdrawal_queue@.last().1.user@ == sender@
                &&& final(self).withdrawal_queue@.last().1.amount == amount
                &&& final(self).config == old(self).config
                &&& final(self).market_allocations == old(self).market_allocations
                &&& final(self).total_pending_withdrawals == old(self).total_pending_withdrawals + amount
            }),
    {
        check_not_paused(&self.config)?;
        let balance = get_value(&self.lp_balances, sender);
        if balance < amount {
            return Err(VaultError::InsufficientBalance);
        }
        let pending = match self.total_pending_withdrawals.checked_add(amount) {
            Some(p) => p,
            None => return Err(VaultError::Overflow),
        };
        proof {
            lemma_value_le_total(self.lp_balances@, sender@);
        }
        if self.total_lp_supply < amount {
            return Err(VaultError::InsufficientSupply);
        }
        set_value(&mut self.lp_balances, sender, balance - amount);
        let id = self.get_and_increment_queue_id();
        let ghost before = self.withdrawal_queue@;
        self.withdrawal_queue.push((id, WithdrawalRequest { user: sender.clone(), amount }));
        self.total_lp_supply = self.total_lp_supply - amount;
        self.total_pending_withdrawals = pending;
        proof {
            assert(self.withdrawal_queue@.drop_last() =~= before);
        }
        Ok(())
    }

    /// Pays queued withdrawals, oldest first, no more than twenty, stopping
    /// before the first one that the vault's USDC balance cannot cover with
    /// those before it. Paid requests leave the queue, and the amount paid
    /// is taken from the pending withdrawals total, which must cover it.
    pub fn execute_process_withdrawal(&mut self, vault_balance: u128) -> (r: Result<ProcessWithdrawalResult, VaultError>)
        requires
            old(self).wf(),
        ensures
            final(self).wf(),
            old(self).config.paused ==> r is Err,
            r is Err ==> *final(self) == *old(self),
            ({
                let q = old(self).withdrawal_queue@;
                let limit = WITHDRAWALS_PER_PROCESS as int;
                let k = spec_paid_count(q, vault_balance as int, limit, 0);
                let paid = queue_prefix_total(q, k);
                !old(self).config.paused ==> if spec_paid_overflows(q, vault_balance as int, limit, 0) {
                    r == Err::<ProcessWithdrawalResult, VaultError>(VaultError::Overflow)
                } else if paid > 0 && old(self).total_pending_withdrawals < paid {
                    r == Err::<ProcessWithdrawalResult, VaultError>(VaultError::PendingWithdrawalsUnderflow)
                } else {
                    r matches Ok(res) && res.processed_amount == paid && paid <= vault_balance
                        && res.transfers@.len() == k && (forall|i: int|
                        0 <= i < k ==> #[trigger] res.transfers@[i].0@ == q[i].1.user@ && res.transfers@[i].1
                            == q[i].1.amount) && final(self).withdrawal_queue@ == q.skip(k)
                        && final(self).total_pending_withdrawals == old(self).total_pending_withdrawals - paid
                        && final(self).lp_balances == old(self).lp_balances
                        && final(self).total_lp_supply == old(self).total_lp_supply
                        && final(self).market_allocations == old(self).market_allocations
                        && final(self).config == old(self).config && final(self).queue_id == old(self).queue_id
                }
            }),
    {
        if self.config.paused {
            return Err(VaultError::Paused);
        }
        let ghost q = self.withdrawal_queue@;
        let limit = WITHDRAWALS_PER_PROCESS;
        let mut transfers: Vec<(String, u128)> = Vec::new();
        let mut processed: u128 = 0;
        let mut i: usize = 0;
        let n = self.withdrawal_queue.len();
        proof {
            lemma_paid_count(q, vault_balance as int, limit as int, 0);
        }
        while i < n && i < limit
            invariant_except_break
                *self == *old(self),
                self.wf(),
                n == q.len(),
                q == self.withdrawal_queue@,
                i <= n,
                i <= limit,
                limit == WITHDRAWALS_PER_PROCESS,
                processed == queue_prefix_total(q, i as int),
                processed <= vault_balance,
                spec_paid_count(q, vault_balance as int, limit as int, 0) == spec_paid_count(
                    q,
                    vault_balance as int,
                    limit as int,
                    i as int,
                ),
                spec_paid_overflows(q, vault_balance as int, limit as int, 0) == spec_paid_overflows(
                    q,
                    vault_balance as int,
                    limit as int,
                    i as int,
                ),
                transfers@.len() == i,
                forall|j: int| #![trigger transfers@[j]] 0 <= j < i ==> transfers@[j].0@ == q[j].1.user@ && transfers@[j].1 == q[j].1.amount,
            ensures
                *self == *old(self),
                q == self.withdrawal_queue@,
                processed == queue_prefix_total(q, i as int),
                processed <= vault_balance,
                i == spec_paid_count(q, vault_balance as int, limit as int, 0),
                !spec_paid_overflows(q, vault_balance as int, limit as int, 0),
                transfers@.len() == i,
                forall|j: int| #![trigger transfers@[j]] 0 <= j < i ==> transfers@[j].0@ == q[j].1.user@ && transfers@[j].1 == q[j].1.amount,
            decreases n - i,
        {
            let amount = self.withdrawal_queue[i].1.amount;
            let total = match processed.checked_add(amount) {
                Some(t) => t,
                None => return Err(VaultError::Overflow),
            };
            if total > vault_balance {
                break;
            }
            processed = total;
            transfers.push((self.withdrawal_queue[i].1.user.clone(), amount));
            i += 1;
        }
        if processed != 0 {
            if self.total_pending_withdrawals < processed {
                return Err(VaultError::PendingWithdrawalsUnderflow);
            }
        }
        let rest = self.withdrawal_queue.split_off(i);
        proof {
            assert(rest@ =~= q.skip(i as int));
        }
        self.withdrawal_queue = rest;
        if processed != 0 {
            self.total_pending_withdrawals = self.total_pending_withdrawals - processed;
        }
        Ok(ProcessWithdrawalResult { transfers, processed_amount: processed })
    }
}

/// Amounts in a table add up to no less than zero.
pub proof fn lemma_total_nonneg(entries: Seq<(String, u128)>)
    ensures
        total_of(entries) >= 0,
    decreases entries.len(),
{
    if entries.len() > 0 {
        lemma_total_nonneg(entries.drop_last());
    }
}

proof fn lemma_total_prefix_monotone(entries: Seq<(String, u128)>, n: int)
    requires
        0 <= n <= entries.len(),
    ensures
        total_of(entries.take(n)) <= total_of(entries),
    decreases entries.len(),
{
    if n < entries.len() {
        assert(entries.drop_last().take(n) =~= entries.take(n));
        lemma_total_prefix_monotone(entries.drop_last(), n);
    } else {
        assert(entries.take(n) =~= entries);
    }
}

/// With unique keys, one key's amount is at most the total.
pub proof fn lemma_value_le_total(entries: Seq<(String, u128)>, key: Seq<char>)
    requires
        keys_unique(entries),
    ensures
        value_of(entries, key) <= total_of(entries),
    decreases entries.len(),
{
    lemma_total_nonneg(entries);
    if entries.len() > 0 {
        let init = entries.drop_last();
        assert(keys_unique(init));
        lemma_value_le_total(init, key);
        lemma_total_nonneg(init);
        lemma_key_index(entries, key);
        lemma_key_index(init, key);
        if entries.last().0@ == key {
            if crate::keyed::key_index(init, key) >= 0 {
                let k = crate::keyed::key_index(init, key);
                assert(entries[k].0@ == entries[entries.len() - 1].0@);
            }
            crate::keyed::lemma_unique_index(entries, entries.len() - 1);
        } else {
            let k = crate::keyed::key_index(entries, key);
            if k >= 0 {
                crate::keyed::lemma_unique_index(entries, k);
                crate::keyed::lemma_unique_index(init, k);
            } else {
                if crate::keyed::key_index(init, key) >= 0 {
                    let m = crate::keyed::key_index(init, key);
                    assert(entries[m].0@ == key);
                }
            }
        }
    }
}


/// What the status queries of a market reported.
#[derive(Clone, Debug)]
pub struct MarketStatus {
    /// `None` when the first status query failed; `Some(None)` when the
    /// market's collateral is not a native coin; otherwise the native coin's
    /// denomination.
    pub collateral_denom: Option<Option<String>>,
    /// Liquidity tokens (LP plus xLP) from a second status query, `None` when
    /// it failed.
    pub utilization: Option<u128>,
}

/// Whether a market's collateral is the vault's USDC.
pub open spec fn is_usdc_market(status: MarketStatus, usdc: Seq<char>) -> bool {
    match status.collateral_denom {
        Some(Some(d)) => d@ == usdc,
        _ => false,
    }
}

/// The first `limit` markets, from index `i` on, whose collateral is USDC,
/// with their utilization.
pub open spec fn spec_select(
    markets: Seq<(String, u128)>,
    statuses: Seq<MarketStatus>,
    usdc: Seq<char>,
    limit: int,
    i: int,
) -> Seq<(String, Option<u128>)>
    decreases markets.len() - i,
{
    if i < 0 || i >= markets.len() || limit <= 0 {
        Seq::empty()
    } else if is_usdc_market(statuses[i], usdc) {
        seq![(markets[i].0, statuses[i].utilization)] + spec_select(markets, statuses, usdc, limit - 1, i + 1)
    } else {
        spec_select(markets, statuses, usdc, limit, i + 1)
    }
}

/// The selected markets whose utilization is known.
pub open spec fn spec_with_utilization(selected: Seq<(String, Option<u128>)>) -> Seq<(String, u128)>
    decreases selected.len(),
{
    if selected.len() == 0 {
        Seq::empty()
    } else {
        let rest = spec_with_utilization(selected.drop_last());
        match selected.last().1 {
            Some(u) => rest.push((selected.last().0, u)),
            None => rest,
        }
    }
}

/// Utilizations in non-increasing order.
pub open spec fn sorted_desc(s: Seq<(String, u128)>) -> bool {
    forall|i: int, j: int| 0 <= i < j < s.len() ==> s[i].1 >= s[j].1
}

/// The share of `excess` for rank `i`, zero beyond the ranking.
pub open spec fn spec_share(excess: int, bps: Seq<u16>, total_bps: int, ranking_len: int, i: int) -> int {
    if i < ranking_len {
        excess * (bps[i] as int) / total_bps
    } else {
        0
    }
}

/// The deposits for ranks from `i` on: each ranked market with a non-zero
/// share of the excess, in rank order.
pub open spec fn spec_deposits(ranking: Seq<(String, u128)>, bps: Seq<u16>, excess: int, total_bps: int, i: int) -> Seq<(String, u128)>
    decreases bps.len() - i,
{
    if i < 0 || i >= bps.len() {
        Seq::empty()
    } else {
        let a = spec_share(excess, bps, total_bps, ranking.len() as int, i);
        if a != 0 {
            seq![(ranking[i].0, a as u128)] + spec_deposits(ranking, bps, excess, total_bps, i + 1)
        } else {
            spec_deposits(ranking, bps, excess, total_bps, i + 1)
        }
    }
}

/// The sum of a list of amounts.
pub open spec fn amounts_total(s: Seq<(String, u128)>) -> int
    decreases s.len(),
{
    if s.len() == 0 {
        0
    } else {
        amounts_total(s.drop_last()) + s.last().1
    }
}

/// A withdrawal of liquidity to ask of a market.
#[derive(Clone, Debug)]
pub struct MarketWithdrawal {
    /// The market's contract.
    pub market: String,
    /// LP tokens to withdraw.
    pub lp_amount: u128,
    /// Whether to claim the yield too.
    pub claim_yield: bool,
}

/// What a redistribution did.
#[derive(Clone, Debug)]
pub struct RedistributeResult {
    /// USDC beyond pending withdrawals.
    pub excess: u128,
    /// Selected markets ordered by decreasing utilization.
    pub ranking: Vec<(String, u128)>,
    /// Deposits made: market and USDC amount.
    pub deposits: Vec<(String, u128)>,
    /// USDC sent back to governance.
    pub remaining: u128,
}

/// Selects the first `limit` markets whose collateral is USDC.
fn select_markets(
    markets: &Vec<(String, u128)>,
    statuses: &Vec<MarketStatus>,
    usdc: &String,
    limit: u32,
) -> (r: Vec<(String, Option<u128>)>)
    requires
        markets@.len() == statuses@.len(),
    ensures
        r@ == spec_select(markets@, statuses@, usdc@, limit as int, 0),
{
    let mut out: Vec<(String, Option<u128>)> = Vec::new();
    let mut taken: u32 = 0;
    let mut i: usize = 0;
    while i < markets.len() && taken < limit
        invariant
            markets@.len() == statuses@.len(),
            i <= markets@.len(),
            taken <= limit,
            out@ + spec_select(markets@, statuses@, usdc@, (limit - taken) as int, i as int) == spec_select(
                markets@,
                statuses@,
                usdc@,
                limit as int,
                0,
            ),
        decreases markets@.len() - i,
    {
        let usdc_market = match &statuses[i].collateral_denom {
            Some(Some(d)) => *d == *usdc,
            _ => false,
        };
        if usdc_market {
            let ghost before = out@;
            out.push((markets[i].0.clone(), statuses[i].utilization));
            proof {
                let rest = spec_select(markets@, statuses@, usdc@, (limit - taken - 1) as int, i as int + 1);
                assert(before + spec_select(markets@, statuses@, usdc@, (limit - taken) as int, i as int) == out@ + rest) by {
                    assert(before + (seq![(markets@[i as int].0, statuses@[i as int].utilization)] + rest) =~= out@ + rest);
                }
            }
            taken += 1;
        }
        i += 1;
    }
    proof {
        assert(spec_select(markets@, statuses@, usdc@, (limit - taken) as int, i as int) =~= Seq::empty());
        assert(out@ + Seq::<(String, Option<u128>)>::empty() =~= out@);
    }
    out
}

/// Keeps the selected markets whose utilization is known.
fn keep_known(selected: Vec<(String, Option<u128>)>) -> (r: Vec<(String, u128)>)
    ensures
        r@ == spec_with_utilization(selected@),
{
    let ghost all = selected@;
    let total_len = selected.len();
    let mut out: Vec<(String, u128)> = Vec::new();
    let mut rest = selected;
    let mut i: usize = 0;
    while rest.len() > 0
        invariant
            all.len() == total_len,
            i + rest@.len() == all.len(),
            rest@ == all.skip(i as int),
            out@ == spec_with_utilization(all.take(i as int)),
        decreases rest@.len(),
    {
        let (market, utilization) = rest.remove(0);
        proof {
            assert(all.take(i as int + 1).drop_last() =~= all.take(i as int));
            assert(all[i as int] == (market, utilization));
        }
        match utilization {
            Some(u) => out.push((market, u)),
            None => {},
        }
        i += 1;
        proof {
            assert(rest@ =~= all.skip(i as int));
        }
    }
    proof {
        assert(all.take(i as int) =~= all);
    }
    out
}

/// Orders markets by decreasing utilization; markets of equal utilization
/// keep their order.
/// `x` inserted into a ranking after every market whose utilization is at
/// least its own.
pub open spec fn insert_desc(s: Seq<(String, u128)>, x: (String, u128)) -> Seq<(String, u128)>
    decreases s.len(),
{
    if s.len() == 0 {
        seq![x]
    } else if s[0].1 >= x.1 {
        seq![s[0]] + insert_desc(s.subrange(1, s.len() as int), x)
    } else {
        seq![x] + s
    }
}

/// The markets ranked by utilization, highest first; markets of equal
/// utilization keep their order (a stable sort).
pub open spec fn spec_sort_desc(s: Seq<(String, u128)>) -> Seq<(String, u128)>
    decreases s.len(),
{
    if s.len() == 0 {
        Seq::empty()
    } else {
        insert_desc(spec_sort_desc(s.drop_last()), s.last())
    }
}

/// Inserting at the first place whose utilization is below `x`'s is
/// [`insert_desc`].
proof fn lemma_insert_at(s: Seq<(String, u128)>, x: (String, u128), pos: int)
    requires
        0 <= pos <= s.len(),
        forall|k: int| 0 <= k < pos ==> s[k].1 >= x.1,
        pos < s.len() ==> s[pos].1 < x.1,
    ensures
        insert_desc(s, x) == s.insert(pos, x),
    decreases pos,
{
    if pos == 0 {
        if s.len() == 0 {
            assert(s.insert(0, x) =~= seq![x]);
        } else {
            assert(s.insert(0, x) =~= seq![x] + s);
        }
    } else {
        let t = s.subrange(1, s.len() as int);
        lemma_insert_at(t, x, pos - 1);
        assert(s.insert(pos, x) =~= seq![s[0]] + t.insert(pos - 1, x));
    }
}

/// The markets ranked by utilization, highest first, stably.
pub fn sort_by_utilization_desc(markets: Vec<(String, u128)>) -> (r: Vec<(String, u128)>)
    ensures
        sorted_desc(r@),
        r@.to_multiset() == markets@.to_multiset(),
        r@ == spec_sort_desc(markets@),
{
    broadcast use vstd::seq_lib::group_to_multiset_ensures;

    let ghost all = markets@;
    let mut out: Vec<(String, u128)> = Vec::new();
    let mut rest = markets;
    let ghost mut done: int = 0;
    proof {
        assert(all.take(0) =~= Seq::<(String, u128)>::empty());
        assert(rest@ =~= all.skip(0));
    }
    while rest.len() > 0
        invariant
            sorted_desc(out@),
            out@.to_multiset().add(rest@.to_multiset()) == all.to_multiset(),
            0 <= done <= all.len(),
            rest@ == all.skip(done),
            out@ == spec_sort_desc(all.take(done)),
        decreases rest@.len(),
    {
        let ghost before_rest = rest@;
        let item = rest.remove(0);
        proof {
            vstd::seq_lib::to_multiset_remove(before_rest, 0);
            before_rest.to_multiset_ensures();
            assert(before_rest.contains(item)) by {
                assert(before_rest[0] == item);
            }
            assert(before_rest.to_multiset().count(item) > 0);
        }
        let mut pos: usize = 0;
        while pos < out.len() && out[pos].1 >= item.1
            invariant
                pos <= out@.len(),
                forall|k: int| 0 <= k < pos ==> out@[k].1 >= item.1,
            decreases out@.len() - pos,
        {
            pos += 1;
        }
        let ghost before = out@;
        proof {
            vstd::seq_lib::to_multiset_insert(before, pos as int, item);
            lemma_insert_at(before, item, pos as int);
            assert(item == all[done]);
            assert(all.take(done + 1).drop_last() =~= all.take(done));
            assert(all.take(done + 1).last() == all[done]);
        }
        out.insert(pos, item);
        proof {
            assert(rest@ =~= all.skip(done + 1));
            done = done + 1;
            assert forall|i: int, j: int| 0 <= i < j < out@.len() implies out@[i].1 >= out@[j].1 by {
                if j < pos {
                } else if j == pos {
                } else if i < pos {
                    assert(before[j - 1].1 <= before[i].1 || before[j - 1].1 <= item.1);
                    if pos < before.len() {
                        assert(before[pos as int].1 < item.1);
                    }
                } else if i == pos {
                    assert(before[pos as int].1 < item.1);
                    assert(before[j - 1].1 <= before[pos as int].1);
                } else {
                }
            }
            assert(out@.to_multiset().add(rest@.to_multiset()) =~= all.to_multiset());
        }
    }
    proof {
        assert(out@.to_multiset().add(rest@.to_multiset()) =~= out@.to_multiset());
        assert(done == all.len());
        assert(all.take(done) =~= all);
    }
    out
}


/// Amounts deposited to `market` by a list of deposits.
pub open spec fn deposited_to(deposits: Seq<(String, u128)>, market: Seq<char>) -> int
    decreases deposits.len(),
{
    if deposits.len() == 0 {
        0
    } else {
        deposited_to(deposits.drop_last(), market) + (if deposits.last().0@ == market {
            deposits.last().1 as int
        } else {
            0
        })
    }
}

/// Index of the first deposit that makes its market's allocation
/// overflow, or -1.
pub open spec fn first_overflow(allocations: Seq<(String, u128)>, deposits: Seq<(String, u128)>, j: int) -> int
    decreases deposits.len() - j,
{
    if j < 0 || j >= deposits.len() {
        -1
    } else if value_of(allocations, deposits[j].0@) + deposited_to(deposits.take(j + 1), deposits[j].0@) > u128::MAX {
        j
    } else {
        first_overflow(allocations, deposits, j + 1)
    }
}

proof fn lemma_bps_le_total(bps: Seq<u16>, i: int)
    requires
        0 <= i < bps.len(),
    ensures
        bps[i] <= bps_total(bps),
        bps_total(bps) >= 0,
    decreases bps.len(),
{
    lemma_bps_total_nonneg(bps.drop_first());
    if i > 0 {
        lemma_bps_le_total(bps.drop_first(), i - 1);
    }
}

proof fn lemma_bps_total_nonneg(bps: Seq<u16>)
    ensures
        bps_total(bps) >= 0,
    decreases bps.len(),
{
    if bps.len() > 0 {
        lemma_bps_total_nonneg(bps.drop_first());
    }
}

proof fn lemma_amounts_total_concat(a: Seq<(String, u128)>, b: Seq<(String, u128)>)
    ensures
        amounts_total(a + b) == amounts_total(a) + amounts_total(b),
    decreases b.len(),
{
    if b.len() == 0 {
        assert(a + b =~= a);
    } else {
        lemma_amounts_total_concat(a, b.drop_last());
        assert((a + b).drop_last() =~= a + b.drop_last());
    }
}

proof fn lemma_amounts_total_nonneg(a: Seq<(String, u128)>)
    ensures
        amounts_total(a) >= 0,
    decreases a.len(),
{
    if a.len() > 0 {
        lemma_amounts_total_nonneg(a.drop_last());
    }
}

/// The deposits from rank `i` on, times the percentage total, are at most
/// the excess times the percentages from rank `i` on.
proof fn lemma_deposits_bounded(ranking: Seq<(String, u128)>, bps: Seq<u16>, excess: int, total_bps: int, i: int)
    requires
        0 <= i <= bps.len(),
        excess >= 0,
        total_bps == bps_total(bps) > 0,
        excess <= u128::MAX,
    ensures
        amounts_total(spec_deposits(ranking, bps, excess, total_bps, i)) * total_bps <= excess * bps_total(bps.skip(i)),
        amounts_total(spec_deposits(ranking, bps, excess, total_bps, i)) >= 0,
    decreases bps.len() - i,
{
    if i >= bps.len() {
        assert(bps.skip(i) =~= Seq::<u16>::empty());
    } else {
        lemma_deposits_bounded(ranking, bps, excess, total_bps, i + 1);
        assert(bps.skip(i).drop_first() =~= bps.skip(i + 1));
        let rest = spec_deposits(ranking, bps, excess, total_bps, i + 1);
        let a = spec_share(excess, bps, total_bps, ranking.len() as int, i);
        let b = bps[i] as int;
        lemma_bps_le_total(bps, i);
        assert(a * total_bps <= excess * b && 0 <= a <= excess) by {
            if i < ranking.len() {
                vstd::arithmetic::div_mod::lemma_fundamental_div_mod(excess * b, total_bps);
                assert(excess * b >= 0) by (nonlinear_arith)
                    requires
                        excess >= 0,
                        b >= 0,
                ;
                assert(excess * b <= excess * total_bps) by (nonlinear_arith)
                    requires
                        excess >= 0,
                        b <= total_bps,
                ;
                assert((excess * b) / total_bps <= excess) by {
                    vstd::arithmetic::div_mod::lemma_div_is_ordered(excess * b, excess * total_bps, total_bps);
                    vstd::arithmetic::div_mod::lemma_div_by_multiple(excess, total_bps);
                }
                assert((excess * b) / total_bps >= 0) by {
                    vstd::arithmetic::div_mod::lemma_div_pos_is_pos(excess * b, total_bps);
                }
                assert(((excess * b) / total_bps) * total_bps <= excess * b) by {
                    vstd::arithmetic::div_mod::lemma_fundamental_div_mod(excess * b, total_bps);
                    vstd::arithmetic::div_mod::lemma_mod_pos_bound(excess * b, total_bps);
                    vstd::arithmetic::mul::lemma_mul_is_commutative(total_bps, (excess * b) / total_bps);
                }
                assert(a == (excess * b) / total_bps);
                assert(a * total_bps <= excess * b);
            } else {
                assert(0 <= excess * b) by (nonlinear_arith)
                    requires
                        excess >= 0,
                        b >= 0,
                ;
                assert(a == 0);
                assert(a * total_bps == 0);
            }
        }
        if a != 0 {
            let d = seq![(ranking[i].0, a as u128)];
            lemma_amounts_total_concat(d, rest);
            assert(d.drop_last() =~= Seq::<(String, u128)>::empty());
            assert(d.last().1 == a as u128);
            assert((a as u128) as int == a);
            assert(amounts_total(d) == amounts_total(d.drop_last()) + d.last().1);
            assert(amounts_total(d.drop_last()) == 0);
            assert(amounts_total(d) == a);
            assert(spec_deposits(ranking, bps, excess, total_bps, i) == d + rest);
            assert(amounts_total(spec_deposits(ranking, bps, excess, total_bps, i)) == amounts_total(rest) + a);
        } else {
            assert(spec_deposits(ranking, bps, excess, total_bps, i) == rest);
        }
        assert(excess * bps_total(bps.skip(i)) == excess * b + excess * bps_total(bps.skip(i + 1))) by (nonlinear_arith)
            requires
                bps_total(bps.skip(i)) == b + bps_total(bps.skip(i + 1)),
        ;
        assert((amounts_total(rest) + a) * total_bps == amounts_total(rest) * total_bps + a * total_bps) by (nonlinear_arith);
    }
}

/// What a redistribution deposits adds up to at most the excess.
pub proof fn lemma_deposits_within_excess(ranking: Seq<(String, u128)>, bps: Seq<u16>, excess: int)
    requires
        bps_total(bps) > 0,
        0 <= excess <= u128::MAX,
    ensures
        0 <= amounts_total(spec_deposits(ranking, bps, excess, bps_total(bps), 0)) <= excess,
{
    let t = bps_total(bps);
    lemma_deposits_bounded(ranking, bps, excess, t, 0);
    assert(bps.skip(0) =~= bps);
    let d = amounts_total(spec_deposits(ranking, bps, excess, t, 0));
    assert(d <= excess) by (nonlinear_arith)
        requires
            d * t <= excess * t,
            t > 0,
    ;
}

/// Computes the deposit of each ranked market.
fn compute_deposits(ranking: &Vec<(String, u128)>, bps: &Vec<u16>, excess: u128, total_bps: u64) -> (r: Vec<(String, u128)>)
    requires
        total_bps == bps_total(bps@) > 0,
    ensures
        r@ == spec_deposits(ranking@, bps@, excess as int, total_bps as int, 0),
{
    let mut out: Vec<(String, u128)> = Vec::new();
    let mut i: usize = 0;
    while i < bps.len()
        invariant
            total_bps == bps_total(bps@) > 0,
            i <= bps@.len(),
            out@ + spec_deposits(ranking@, bps@, excess as int, total_bps as int, i as int) == spec_deposits(
                ranking@,
                bps@,
                excess as int,
                total_bps as int,
                0,
            ),
        decreases bps@.len() - i,
    {
        if i < ranking.len() {
            proof {
                lemma_bps_le_total(bps@, i as int);
            }
            let amount = match mul_ratio_u128(excess, bps[i] as u128, total_bps as u128) {
                Some(v) => v,
                None => {
                    proof {
                        assert(excess * (bps@[i as int] as int) <= excess * (total_bps as int)) by (nonlinear_arith)
                            requires
                                bps@[i as int] <= total_bps,
                        ;
                        vstd::arithmetic::div_mod::lemma_div_is_ordered(
                            excess * (bps@[i as int] as int),
                            excess * (total_bps as int),
                            total_bps as int,
                        );
                        vstd::arithmetic::div_mod::lemma_div_by_multiple(excess as int, total_bps as int);
                    }
                    0
                },
            };
            if amount != 0 {
                let ghost before = out@;
                out.push((ranking[i].0.clone(), amount));
                proof {
                    let rest = spec_deposits(ranking@, bps@, excess as int, total_bps as int, i as int + 1);
                    assert(before + spec_deposits(ranking@, bps@, excess as int, total_bps as int, i as int) =~= out@ + rest);
                }
            }
        }
        i += 1;
    }
    proof {
        assert(out@ + Seq::<(String, u128)>::empty() =~= out@);
    }
    out
}


/// Adds each deposit to its market's allocation.
fn apply_deposits(allocations: &mut Vec<(String, u128)>, deposits: &Vec<(String, u128)>) -> (r: Result<(), VaultError>)
    requires
        keys_unique(old(allocations)@),
    ensures
        keys_unique(final(allocations)@),
        first_overflow(old(allocations)@, deposits@, 0) >= 0 ==> r == Err::<(), VaultError>(VaultError::Overflow),
        first_overflow(old(allocations)@, deposits@, 0) < 0 ==> r is Ok,
        r is Ok ==> forall|k: Seq<char>| #[trigger] value_of(final(allocations)@, k) == value_of(old(allocations)@, k)
            + deposited_to(deposits@, k),
{
    let ghost initial = allocations@;
    let mut j: usize = 0;
    while j < deposits.len()
        invariant
            initial == old(allocations)@,
            j <= deposits@.len(),
            keys_unique(allocations@),
            forall|k: Seq<char>| #[trigger] value_of(allocations@, k) == value_of(initial, k) + deposited_to(
                deposits@.take(j as int),
                k,
            ),
            first_overflow(initial, deposits@, 0) == first_overflow(initial, deposits@, j as int),
        decreases deposits@.len() - j,
    {
        let market = &deposits[j].0;
        let amount = deposits[j].1;
        let current = get_value(allocations, market);
        proof {
            assert(deposits@.take(j as int + 1).drop_last() =~= deposits@.take(j as int));
            assert(value_of(allocations@, market@) == value_of(initial, market@) + deposited_to(
                deposits@.take(j as int),
                market@,
            ));
            assert(deposits@.take(j as int + 1).last() == deposits@[j as int]);
            assert(deposited_to(deposits@.take(j as int + 1), market@) == deposited_to(deposits@.take(j as int), market@)
                + amount);
        }
        let new_value = match current.checked_add(amount) {
            Some(v) => v,
            None => {
                assert(value_of(initial, deposits@[j as int].0@) + deposited_to(deposits@.take(j as int + 1), deposits@[j as int].0@) > u128::MAX);
                assert(first_overflow(initial, deposits@, j as int) == j as int);
                return Err(VaultError::Overflow);
            },
        };
        set_value(allocations, market, new_value);
        proof {
            assert forall|k: Seq<char>| #[trigger] value_of(allocations@, k) == value_of(initial, k) + deposited_to(
                deposits@.take(j as int + 1),
                k,
            ) by {
                if k != market@ {
                }
            }
        }
        j += 1;
    }
    proof {
        assert(deposits@.take(j as int) =~= deposits@);
    }
    Ok(())
}

/// The batch size for a requested limit.
pub open spec fn spec_batch_limit(batch_limit: Option<u32>) -> int {
    let l = match batch_limit {
        Some(l) => l as int,
        None => DEFAULT_BATCH as int,
    };
    if l < MAX_BATCH {
        l
    } else {
        MAX_BATCH as int
    }
}

/// The number of markets a batch handles: the limit asked for, or the
/// default, at most the maximum.
pub fn batch_limit_of(batch_limit: Option<u32>) -> (r: u32)
    ensures
        r == spec_batch_limit(batch_limit),
{
    let l = match batch_limit {
        Some(l) => l,
        None => DEFAULT_BATCH,
    };
    if l < MAX_BATCH {
        l
    } else {
        MAX_BATCH
    }
}

/// USDC held beyond pending withdrawals.
pub open spec fn spec_excess(vault_balance: u128, pending: u128) -> int {
    if vault_balance > pending {
        vault_balance - pending
    } else {
        0
    }
}

impl Vault {
    /// Spreads the USDC beyond pending withdrawals over the markets.
    ///
    /// Governance only. The first `batch_limit` (default twenty, at most
    /// fifty) markets whose collateral is USDC are ranked by decreasing
    /// utilization; the market at rank `i` receives `excess * bps[i] /
    /// total_bps` (nothing when zero), its allocation grows by that much,
    /// and what is left is sent back to governance. When an allocation would
    /// overflow, the operation fails part-way through the allocations; like
    /// any failed operation, its state is then discarded by the caller.
    pub fn execute_redistribute_funds(
        &mut self,
        sender: &String,
        batch_limit: Option<u32>,
        vault_balance: u128,
        statuses: &Vec<MarketStatus>,
    ) -> (r: Result<RedistributeResult, VaultError>)
        requires
            old(self).wf(),
            statuses@.len() == old(self).market_allocations@.len(),
            old(self).config.markets_allocation_bps@.len() <= u32::MAX,
        ensures
            final(self).wf(),
            old(self).config.paused ==> r == Err::<RedistributeResult, VaultError>(VaultError::Paused),
            !old(self).config.paused && old(self).config.governance@ != sender@ ==> r == Err::<
                RedistributeResult,
                VaultError,
            >(VaultError::Unauthorized),
            !old(self).config.paused && old(self).config.governance@ == sender@ && spec_excess(
                vault_balance,
                old(self).total_pending_withdrawals,
            ) == 0 ==> r == Err::<RedistributeResult, VaultError>(VaultError::NoExcess),
            (!old(self).config.paused && old(self).config.governance@ == sender@ && spec_excess(
                vault_balance,
                old(self).total_pending_withdrawals,
            ) > 0 && bps_total(old(self).config.markets_allocation_bps@) == 0) ==> r == Err::<
                RedistributeResult,
                VaultError,
            >(VaultError::NoAllocation),
            (!old(self).config.paused && old(self).config.governance@ == sender@ && spec_excess(
                vault_balance,
                old(self).total_pending_withdrawals,
            ) > 0 && bps_total(old(self).config.markets_allocation_bps@) > u16::MAX) ==> r == Err::<
                RedistributeResult,
                VaultError,
            >(VaultError::Overflow),
            r matches Ok(res) ==> ({
                let bps = old(self).config.markets_allocation_bps@;
                let known = spec_with_utilization(
                    spec_select(
                        old(self).market_allocations@,
                        statuses@,
                        old(self).config.usdc_denom@,
                        spec_batch_limit(batch_limit),
                        0,
                    ),
                );
                &&& !old(self).config.paused && old(self).config.governance@ == sender@
                &&& res.excess == spec_excess(vault_balance, old(self).total_pending_withdrawals) > 0
                &&& 0 < bps_total(bps) <= u16::MAX
                &&& sorted_desc(res.ranking@)
                &&& res.ranking@.to_multiset() == known.to_multiset()
                &&& res.ranking@ == spec_sort_desc(known)
                &&& res.deposits@ == spec_deposits(res.ranking@, bps, res.excess as int, bps_total(bps), 0)
                &&& res.remaining == res.excess - amounts_total(res.deposits@)
                &&& first_overflow(old(self).market_allocations@, res.deposits@, 0) < 0
                &&& forall|k: Seq<char>| #[trigger] value_of(final(self).market_allocations@, k) == value_of(
                    old(self).market_allocations@,
                    k,
                ) + deposited_to(res.deposits@, k)
                &&& final(self).config == old(self).config
                &&& final(self).lp_balances == old(self).lp_balances
                &&& final(self).total_lp_supply == old(self).total_lp_supply
                &&& final(self).withdrawal_queue == old(self).withdrawal_queue
                &&& final(self).queue_id == old(self).queue_id
                &&& final(self).total_pending_withdrawals == old(self).total_pending_withdrawals
            }),
            r matches Err(e) ==> e != VaultError::Overflow ==> *final(self) == *old(self),
            // Success is owed exactly when no market's allocation overflows.
            ({
                let bps = old(self).config.markets_allocation_bps@;
                let excess = spec_excess(vault_balance, old(self).total_pending_withdrawals);
                let known = spec_with_utilization(
                    spec_select(
                        old(self).market_allocations@,
                        statuses@,
                        old(self).config.usdc_denom@,
                        spec_batch_limit(batch_limit),
                        0,
                    ),
                );
                (!old(self).config.paused && old(self).config.governance@ == sender@ && excess > 0 && 0 < bps_total(bps)
                    <= u16::MAX) ==> (r is Ok <==> first_overflow(
                    old(self).market_allocations@,
                    spec_deposits(spec_sort_desc(known), bps, excess as int, bps_total(bps), 0),
                    0,
                ) < 0)
            }),
    {
        check_not_paused(&self.config)?;
        if self.config.governance != *sender {
            return Err(VaultError::Unauthorized);
        }
        let pending = self.total_pending_withdrawals;
        let excess: u128 = if vault_balance > pending {
            vault_balance - pending
        } else {
            0
        };
        if excess == 0 {
            return Err(VaultError::NoExcess);
        }
        let limit = batch_limit_of(batch_limit);
        let selected = select_markets(&self.market_allocations, statuses, &self.config.usdc_denom, limit);
        let known = keep_known(selected);
        let ranking = sort_by_utilization_desc(known);
        let total_bps = sum_bps(&self.config.markets_allocation_bps);
        if total_bps > 65535 {
            return Err(VaultError::Overflow);
        }
        if total_bps == 0 {
            return Err(VaultError::NoAllocation);
        }
        let deposits = compute_deposits(&ranking, &self.config.markets_allocation_bps, excess, total_bps);
        proof {
            lemma_deposits_within_excess(ranking@, self.config.markets_allocation_bps@, excess as int);
        }
        let deposited = total_amounts(&deposits, excess);
        apply_deposits(&mut self.market_allocations, &deposits)?;
        Ok(RedistributeResult { excess, ranking, deposits, remaining: excess - deposited })
    }
}

/// The sum of amounts known to be at most `bound`.
fn total_amounts(s: &Vec<(String, u128)>, bound: u128) -> (r: u128)
    requires
        amounts_total(s@) <= bound,
    ensures
        r == amounts_total(s@),
{
    let mut total: u128 = 0;
    let mut i: usize = 0;
    proof {
        lemma_amounts_total_prefix(s@, 0);
    }
    while i < s.len()
        invariant
            i <= s@.len(),
            total == amounts_total(s@.take(i as int)),
            amounts_total(s@) <= bound,
        decreases s@.len() - i,
    {
        proof {
            assert(s@.take(i as int + 1).drop_last() =~= s@.take(i as int));
            lemma_amounts_total_prefix(s@, i as int + 1);
        }
        total = total + s[i].1;
        i += 1;
    }
    proof {
        assert(s@.take(i as int) =~= s@);
    }
    total
}

proof fn lemma_amounts_total_prefix(s: Seq<(String, u128)>, n: int)
    requires
        0 <= n <= s.len(),
    ensures
        0 <= amounts_total(s.take(n)) <= amounts_total(s),
{
    lemma_amounts_total_concat(s.take(n), s.skip(n));
    assert(s.take(n) + s.skip(n) =~= s);
    lemma_amounts_total_nonneg(s.take(n));
    lemma_amounts_total_nonneg(s.skip(n));
}


/// Lexicographic order of character sequences by code point (which is the
/// byte order of their UTF-8 encodings).
pub open spec fn seq_lt(a: Seq<char>, b: Seq<char>) -> bool
    decreases a.len(),
{
    if b.len() == 0 {
        false
    } else if a.len() == 0 {
        true
    } else if a[0] != b[0] {
        (a[0] as u32) < (b[0] as u32)
    } else {
        seq_lt(a.drop_first(), b.drop_first())
    }
}

proof fn lemma_seq_lt_skip(a: Seq<char>, b: Seq<char>, i: int)
    requires
        0 <= i <= a.len(),
        i <= b.len(),
        a.take(i) == b.take(i),
    ensures
        seq_lt(a, b) == seq_lt(a.skip(i), b.skip(i)),
    decreases i,
{
    if i > 0 {
        assert(a[0] == a.take(i)[0]);
        assert(b[0] == b.take(i)[0]);
        assert(a.drop_first().take(i - 1) =~= a.take(i).drop_first());
        assert(b.drop_first().take(i - 1) =~= b.take(i).drop_first());
        lemma_seq_lt_skip(a.drop_first(), b.drop_first(), i - 1);
        assert(a.drop_first().skip(i - 1) =~= a.skip(i));
        assert(b.drop_first().skip(i - 1) =~= b.skip(i));
    } else {
        assert(a.skip(0) =~= a);
        assert(b.skip(0) =~= b);
    }
}

/// Whether `a` sorts strictly before `b`.
pub fn str_lt(a: &str, b: &str) -> (r: bool)
    ensures
        r == seq_lt(a@, b@),
{
    let n = a.unicode_len();
    let m = b.unicode_len();
    let mut i: usize = 0;
    while i < n && i < m
        invariant
            n == a@.len(),
            m == b@.len(),
            i <= n,
            i <= m,
            a@.take(i as int) == b@.take(i as int),
        decreases n - i,
    {
        let ca = a.get_char(i);
        let cb = b.get_char(i);
        if ca != cb {
            proof {
                lemma_seq_lt_skip(a@, b@, i as int);
                assert(a@.skip(i as int)[0] == ca);
                assert(b@.skip(i as int)[0] == cb);
            }
            return (ca as u32) < (cb as u32);
        }
        proof {
            assert(a@.take(i as int + 1) =~= a@.take(i as int).push(ca));
            assert(b@.take(i as int + 1) =~= b@.take(i as int).push(cb));
        }
        i += 1;
    }
    proof {
        lemma_seq_lt_skip(a@, b@, i as int);
    }
    i < m
}

/// Whether a market is listed after `start_after`.
pub open spec fn listed_after(start_after: Option<Seq<char>>, market: Seq<char>) -> bool {
    match start_after {
        None => true,
        Some(s) => seq_lt(s, market),
    }
}

/// The allocations listed after `start_after`, in table order.
pub open spec fn spec_allocations_after(entries: Seq<(String, u128)>, start_after: Option<Seq<char>>) -> Seq<(String, u128)>
    decreases entries.len(),
{
    if entries.len() == 0 {
        entries
    } else {
        let sub = spec_allocations_after(entries.drop_last(), start_after);
        if listed_after(start_after, entries.last().0@) {
            sub.push(entries.last())
        } else {
            sub
        }
    }
}

pub open spec fn opt_string_view(o: Option<String>) -> Option<Seq<char>> {
    match o {
        Some(s) => Some(s@),
        None => None,
    }
}

impl Vault {
    /// The markets' allocations, after the market `start_after` when given.
    pub fn get_market_allocations(&self, start_after: Option<String>) -> (r: Vec<MarketAllocation>)
        ensures
            r@.len() == spec_allocations_after(self.market_allocations@, opt_string_view(start_after)).len(),
            forall|i: int| #![trigger r@[i]] 0 <= i < r@.len() ==> r@[i].market_id@ == spec_allocations_after(
                self.market_allocations@,
                opt_string_view(start_after),
            )[i].0@ && r@[i].amount == spec_allocations_after(
                self.market_allocations@,
                opt_string_view(start_after),
            )[i].1,
    {
        let ghost all = self.market_allocations@;
        let ghost sa = opt_string_view(start_after);
        let mut out: Vec<MarketAllocation> = Vec::new();
        let mut i: usize = 0;
        proof {
            assert(all.take(0) =~= Seq::<(String, u128)>::empty());
        }
        while i < self.market_allocations.len()
            invariant
                all == self.market_allocations@,
                sa == opt_string_view(start_after),
                i <= all.len(),
                out@.len() == spec_allocations_after(all.take(i as int), sa).len(),
                forall|k: int| #![trigger out@[k]] 0 <= k < out@.len() ==> out@[k].market_id@ == spec_allocations_after(
                    all.take(i as int),
                    sa,
                )[k].0@ && out@[k].amount == spec_allocations_after(all.take(i as int), sa)[k].1,
            decreases all.len() - i,
        {
            let keep = match &start_after {
                None => true,
                Some(s) => str_lt(s.as_str(), self.market_allocations[i].0.as_str()),
            };
            proof {
                assert(all.take(i as int + 1).drop_last() =~= all.take(i as int));
                assert(all.take(i as int + 1).last() == all[i as int]);
            }
            if keep {
                out.push(
                    MarketAllocation {
                        market_id: self.market_allocations[i].0.clone(),
                        amount: self.market_allocations[i].1,
                    },
                );
            }
            i += 1;
        }
        proof {
            assert(all.take(i as int) =~= all);
        }
        out
    }

    /// The first `batch_limit` (default twenty, at most fifty) markets whose
    /// collateral is USDC, from which governance collects yield.
    pub fn execute_collect_yield(&self, sender: &String, batch_limit: Option<u32>, statuses: &Vec<MarketStatus>) -> (r: Result<Vec<String>, VaultError>)
        requires
            statuses@.len() == self.market_allocations@.len(),
        ensures
            self.config.paused ==> r == Err::<Vec<String>, VaultError>(VaultError::Paused),
            !self.config.paused && self.config.governance@ != sender@ ==> r == Err::<Vec<String>, VaultError>(
                VaultError::Unauthorized,
            ),
            !self.config.paused && self.config.governance@ == sender@ ==> r is Ok,
            r matches Ok(markets) ==> ({
                let sel = spec_select(
                    self.market_allocations@,
                    statuses@,
                    self.config.usdc_denom@,
                    spec_batch_limit(batch_limit),
                    0,
                );
                markets@.len() == sel.len() && forall|i: int| #![trigger markets@[i]] 0 <= i < sel.len() ==> markets@[i]@ == sel[i].0@
            }),
    {
        check_not_paused(&self.config)?;
        if self.config.governance != *sender {
            return Err(VaultError::Unauthorized);
        }
        let limit = batch_limit_of(batch_limit);
        let selected = select_markets(&self.market_allocations, statuses, &self.config.usdc_denom, limit);
        let mut out: Vec<String> = Vec::new();
        let mut i: usize = 0;
        while i < selected.len()
            invariant
                i <= selected@.len(),
                out@.len() == i,
                forall|k: int| #![trigger out@[k]] 0 <= k < i ==> out@[k]@ == selected@[k].0@,
            decreases selected@.len() - i,
        {
            out.push(selected[i].0.clone());
            i += 1;
        }
        Ok(out)
    }

    /// Withdraws `amount` of a market's allocation back to the vault
    /// (governance only); returns the withdrawal to ask of the market: that
    /// many LP tokens, without claiming yield.
    pub fn execute_withdraw_from_market(&mut self, sender: &String, market: &String, amount: u128) -> (r: Result<
        MarketWithdrawal,
        VaultError,
    >)
        requires
            old(self).wf(),
        ensures
            final(self).wf(),
            r is Err ==> *final(self) == *old(self),
            old(self).config.paused ==> r == Err::<MarketWithdrawal, VaultError>(VaultError::Paused),
            !old(self).config.paused && old(self).config.governance@ != sender@ ==> r == Err::<MarketWithdrawal, VaultError>(
                VaultError::Unauthorized,
            ),
            !old(self).config.paused && old(self).config.governance@ == sender@ ==> ({
                let allocs = old(self).market_allocations@;
                if !has_key(allocs, market@) {
                    r == Err::<MarketWithdrawal, VaultError>(VaultError::UnknownMarket)
                } else if value_of(allocs, market@) < amount {
                    r == Err::<MarketWithdrawal, VaultError>(VaultError::InsufficientAllocation)
                } else if amount == 0 {
                    r == Err::<MarketWithdrawal, VaultError>(VaultError::ZeroAmount)
                } else {
                    r matches Ok(w) && w.market@ == market@ && w.lp_amount == amount && !w.claim_yield
                        && value_of(final(self).market_allocations@, market@) == value_of(allocs, market@) - amount
                        && (forall|k: Seq<char>| k != market@ ==> value_of(#[trigger] final(self).market_allocations@, k)
                        == value_of(allocs, k)) && final(self).config == old(self).config
                        && final(self).lp_balances == old(self).lp_balances
                        && final(self).total_lp_supply == old(self).total_lp_supply
                        && final(self).withdrawal_queue == old(self).withdrawal_queue
                        && final(self).queue_id == old(self).queue_id
                        && final(self).total_pending_withdrawals == old(self).total_pending_withdrawals
                }
            }),
    {
        check_not_paused(&self.config)?;
        if self.config.governance != *sender {
            return Err(VaultError::Unauthorized);
        }
        if find(&self.market_allocations, market).is_none() {
            return Err(VaultError::UnknownMarket);
        }
        let current = get_value(&self.market_allocations, market);
        if current < amount {
            return Err(VaultError::InsufficientAllocation);
        }
        if amount == 0 {
            return Err(VaultError::ZeroAmount);
        }
        set_value(&mut self.market_allocations, market, current - amount);
        Ok(MarketWithdrawal { market: market.clone(), lp_amount: amount, claim_yield: false })
    }

    /// Pauses operations (governance only).
    pub fn execute_emergency_pause(&mut self, sender: &String) -> (r: Result<(), VaultError>)
        requires
            old(self).wf(),
        ensures
            final(self).wf(),
            old(self).config.governance@ != sender@ ==> r == Err::<(), VaultError>(VaultError::Unauthorized)
                && *final(self) == *old(self),
            old(self).config.governance@ == sender@ ==> r is Ok && final(self).config.paused
                && final(self).config.governance == old(self).config.governance
                && final(self).config.usdc_denom == old(self).config.usdc_denom
                && final(self).config.markets_allocation_bps == old(self).config.markets_allocation_bps
                && final(self).lp_balances == old(self).lp_balances
                && final(self).total_lp_supply == old(self).total_lp_supply
                && final(self).withdrawal_queue == old(self).withdrawal_queue
                && final(self).queue_id == old(self).queue_id
                && final(self).market_allocations == old(self).market_allocations
                && final(self).total_pending_withdrawals == old(self).total_pending_withdrawals,
    {
        if *sender != self.config.governance {
            return Err(VaultError::Unauthorized);
        }
        self.config.paused = true;
        Ok(())
    }

    /// Resumes operations (governance only).
    pub fn execute_resume_operations(&mut self, sender: &String) -> (r: Result<(), VaultError>)
        requires
            old(self).wf(),
        ensures
            final(self).wf(),
            old(self).config.governance@ != sender@ ==> r == Err::<(), VaultError>(VaultError::Unauthorized)
                && *final(self) == *old(self),
            old(self).config.governance@ == sender@ ==> r is Ok && !final(self).config.paused
                && final(self).config.governance == old(self).config.governance
                && final(self).config.usdc_denom == old(self).config.usdc_denom
                && final(self).config.markets_allocation_bps == old(self).config.markets_allocation_bps
                && final(self).lp_balances == old(self).lp_balances
                && final(self).total_lp_supply == old(self).total_lp_supply
                && final(self).withdrawal_queue == old(self).withdrawal_queue
                && final(self).queue_id == old(self).queue_id
                && final(self).market_allocations == old(self).market_allocations
                && final(self).total_pending_withdrawals == old(self).total_pending_withdrawals,
    {
        if *sender != self.config.governance {
            return Err(VaultError::Unauthorized);
        }
        self.config.paused = false;
        Ok(())
    }

    /// Replaces the allocation percentages (governance only): one per
    /// market (counting at most fifty markets), adding up to at most one
    /// hundred percent.
    pub fn execute_update_allocations(&mut self, sender: &String, new_allocations: Vec<u16>) -> (r: Result<(), VaultError>)
        requires
            old(self).wf(),
            new_allocations@.len() <= u32::MAX,
        ensures
            final(self).wf(),
            r is Err ==> *final(self) == *old(self),
            old(self).config.governance@ != sender@ ==> r == Err::<(), VaultError>(VaultError::Unauthorized),
            ({
                let count = if old(self).market_allocations@.len() < MAX_BATCH {
                    old(self).market_allocations@.len() as int
                } else {
                    MAX_BATCH as int
                };
                old(self).config.governance@ == sender@ ==> if new_allocations@.len() != count {
                    r == Err::<(), VaultError>(VaultError::AllocationCountMismatch)
                } else if bps_total(new_allocations@) > MAX_BPS {
                    r == Err::<(), VaultError>(VaultError::AllocationExceeds100)
                } else {
                    r is Ok && final(self).config.markets_allocation_bps@ == new_allocations@
                        && final(self).config.paused == old(self).config.paused
                        && final(self).config.governance == old(self).config.governance
                        && final(self).config.usdc_denom == old(self).config.usdc_denom
                        && final(self).lp_balances == old(self).lp_balances
                        && final(self).total_lp_supply == old(self).total_lp_supply
                        && final(self).withdrawal_queue == old(self).withdrawal_queue
                        && final(self).queue_id == old(self).queue_id
                        && final(self).market_allocations == old(self).market_allocations
                        && final(self).total_pending_withdrawals == old(self).total_pending_withdrawals
                }
            }),
    {
        if *sender != self.config.governance {
            return Err(VaultError::Unauthorized);
        }
        let n = self.market_allocations.len();
        let count = if n < MAX_BATCH as usize {
            n
        } else {
            MAX_BATCH as usize
        };
        if new_allocations.len() != count {
            return Err(VaultError::AllocationCountMismatch);
        }
        let total = sum_bps(&new_allocations);
        if total > MAX_BPS {
            return Err(VaultError::AllocationExceeds100);
        }
        self.config.markets_allocation_bps = new_allocations;
        Ok(())
    }
}

} // verus!
