use levana_perps::vault::{sort_by_utilization_desc, Coin, MarketStatus, Vault, VaultError};

fn usdc(amount: u128) -> Vec<Coin> {
    vec![Coin { denom: "uusdc".to_string(), amount }]
}

fn vault() -> Vault {
    Vault::instantiate("gov".to_string(), vec![6000, 4000], "uusdc".to_string()).unwrap()
}

fn balance_of(v: &Vault, who: &str) -> u128 {
    v.lp_balances.iter().find(|(k, _)| k == who).map(|(_, b)| *b).unwrap_or(0)
}

#[test]
fn vault_refuses_over_full_allocation() {
    let r = Vault::instantiate("gov".to_string(), vec![6000, 4001], "uusdc".to_string());
    assert_eq!(r.unwrap_err(), VaultError::AllocationExceeds100);
}

#[test]
fn vault_deposit_mints_in_proportion() {
    let mut v = vault();
    let alice = "alice".to_string();
    let bob = "bob".to_string();
    // Into an empty vault, one for one.
    assert_eq!(v.execute_deposit(&alice, &usdc(100), 100).unwrap(), 100);
    assert_eq!(v.total_lp_supply, 100);
    // The balance includes the new deposit: 50 * 100 / 150.
    assert_eq!(v.execute_deposit(&bob, &usdc(50), 150).unwrap(), 33);
    assert_eq!(balance_of(&v, "bob"), 33);
    assert_eq!(v.total_lp_supply, 133);
}

#[test]
fn vault_deposit_needs_one_usdc_coin() {
    let mut v = vault();
    let alice = "alice".to_string();
    let other = vec![Coin { denom: "uatom".to_string(), amount: 5 }];
    assert_eq!(v.execute_deposit(&alice, &other, 5).unwrap_err(), VaultError::InvalidFunds);
    let two = vec![Coin { denom: "uusdc".to_string(), amount: 5 }, Coin { denom: "uusdc".to_string(), amount: 5 }];
    assert_eq!(v.execute_deposit(&alice, &two, 10).unwrap_err(), VaultError::InvalidFunds);
}

#[test]
fn vault_pause_blocks_and_resume_restores() {
    let mut v = vault();
    let gov = "gov".to_string();
    let alice = "alice".to_string();
    assert_eq!(v.execute_emergency_pause(&alice).unwrap_err(), VaultError::Unauthorized);
    v.execute_emergency_pause(&gov).unwrap();
    assert_eq!(v.execute_deposit(&alice, &usdc(1), 1).unwrap_err(), VaultError::Paused);
    v.execute_resume_operations(&gov).unwrap();
    assert_eq!(v.execute_deposit(&alice, &usdc(1), 1).unwrap(), 1);
}

#[test]
fn vault_withdrawal_queue_pays_in_order() {
    let mut v = vault();
    let alice = "alice".to_string();
    let bob = "bob".to_string();
    v.execute_deposit(&alice, &usdc(100), 100).unwrap();
    // The balance of 200 includes the deposit: 100 * 100 / 200.
    assert_eq!(v.execute_deposit(&bob, &usdc(100), 200).unwrap(), 50);
    assert_eq!(v.execute_request_withdrawal(&alice, 101).unwrap_err(), VaultError::InsufficientBalance);
    v.execute_request_withdrawal(&alice, 60).unwrap();
    v.execute_request_withdrawal(&bob, 50).unwrap();
    assert_eq!(balance_of(&v, "alice"), 40);
    assert_eq!(v.total_lp_supply, 40);
    assert_eq!(v.withdrawal_queue.len(), 2);
    // The pending total counts both requests.
    assert_eq!(v.total_pending_withdrawals, 110);
    // 100 covers the first request only.
    let r = v.execute_process_withdrawal(100).unwrap();
    assert_eq!(r.transfers, vec![("alice".to_string(), 60)]);
    assert_eq!(r.processed_amount, 60);
    assert_eq!(v.withdrawal_queue.len(), 1);
    assert_eq!(v.total_pending_withdrawals, 50);
}

#[test]
fn vault_redistributes_excess_by_utilization() {
    let mut v = vault();
    let gov = "gov".to_string();
    v.market_allocations = vec![("m1".to_string(), 0), ("m2".to_string(), 0)];
    let statuses = vec![
        MarketStatus { collateral_denom: Some(Some("uusdc".to_string())), utilization: Some(10) },
        MarketStatus { collateral_denom: Some(Some("uusdc".to_string())), utilization: Some(20) },
    ];
    let r = v.execute_redistribute_funds(&gov, None, 1000, &statuses).unwrap();
    assert_eq!(r.excess, 1000);
    assert_eq!(r.ranking, vec![("m2".to_string(), 20), ("m1".to_string(), 10)]);
    assert_eq!(r.deposits, vec![("m2".to_string(), 600), ("m1".to_string(), 400)]);
    assert_eq!(r.remaining, 0);
    let allocations = v.get_market_allocations(None);
    assert_eq!(allocations.len(), 2);
    assert_eq!(v.execute_redistribute_funds(&gov, None, 0, &statuses).unwrap_err(), VaultError::NoExcess);
}

#[test]
fn vault_withdraws_from_market() {
    let mut v = vault();
    let gov = "gov".to_string();
    v.market_allocations = vec![("m1".to_string(), 100)];
    let m1 = "m1".to_string();
    let m9 = "m9".to_string();
    assert_eq!(v.execute_withdraw_from_market(&gov, &m9, 1).unwrap_err(), VaultError::UnknownMarket);
    assert_eq!(v.execute_withdraw_from_market(&gov, &m1, 101).unwrap_err(), VaultError::InsufficientAllocation);
    v.execute_withdraw_from_market(&gov, &m1, 40).unwrap();
    assert_eq!(v.market_allocations[0].1, 60);
}

#[test]
fn vault_updates_allocations() {
    let mut v = vault();
    let gov = "gov".to_string();
    v.market_allocations = vec![("m1".to_string(), 0), ("m2".to_string(), 0)];
    assert_eq!(v.execute_update_allocations(&gov, vec![10000]).unwrap_err(), VaultError::AllocationCountMismatch);
    v.execute_update_allocations(&gov, vec![5000, 5000]).unwrap();
    assert_eq!(v.config.markets_allocation_bps, vec![5000, 5000]);
    assert_eq!(v.execute_update_allocations(&gov, vec![9000, 5000]).unwrap_err(), VaultError::AllocationExceeds100);
}

#[test]
fn vault_sorts_by_utilization() {
    let sorted = sort_by_utilization_desc(vec![("a".to_string(), 1), ("b".to_string(), 3), ("c".to_string(), 2)]);
    assert_eq!(sorted, vec![("b".to_string(), 3), ("c".to_string(), 2), ("a".to_string(), 1)]);
}

#[test]
fn vault_sort_keeps_order_of_equal_utilization() {
    let s = |x: &str, u: u128| (x.to_string(), u);
    let sorted = sort_by_utilization_desc(vec![s("a", 2), s("b", 5), s("c", 2), s("d", 5), s("e", 1)]);
    assert_eq!(sorted, vec![s("b", 5), s("d", 5), s("a", 2), s("c", 2), s("e", 1)]);
}
