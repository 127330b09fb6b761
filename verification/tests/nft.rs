use levana_perps::cw20::Expiration;
use levana_perps::error::PerpError;
use levana_perps::nft::NftRegistry;

fn s(x: &str) -> String {
    x.to_string()
}

fn registry() -> NftRegistry {
    let mut r = NftRegistry::new();
    r.nft_mint(s("alice"), 1);
    r.nft_mint(s("bob"), 2);
    r
}

#[test]
fn minted_tokens_are_owned_and_counted() {
    let mut r = registry();
    assert_eq!(r.nft_num_tokens(), 2);
    let (owner, approvals) = r.nft_owner_of(1, false, 10, 0).unwrap();
    assert_eq!(owner, "alice");
    assert!(approvals.is_empty());
    r.nft_burn(1);
    assert_eq!(r.nft_num_tokens(), 1);
    assert_eq!(r.nft_owner_of(1, false, 10, 0).unwrap_err(), PerpError::MissingPosition { id: 1 });
}

#[test]
fn only_owner_or_operator_may_approve() {
    let mut r = registry();
    assert_eq!(r.nft_approve(&s("carol"), &s("dave"), 1, None, 10, 0).unwrap_err(), PerpError::Unauthorized);
    assert_eq!(r.nft_approve(&s("alice"), &s("dave"), 9, None, 10, 0).unwrap_err(), PerpError::MissingPosition { id: 9 });
    r.nft_approve(&s("alice"), &s("dave"), 1, None, 10, 0).unwrap();
    let a = r.nft_approval(1, &s("dave"), false, 10, 0).unwrap();
    assert_eq!(a.spender, "dave");
    assert_eq!(a.expires, Expiration::Never);
    // Operators of the owner may approve too.
    r.nft_approve_all(&s("alice"), &s("carol"), Some(Expiration::AtHeight(20)), 10, 0).unwrap();
    r.nft_approve(&s("carol"), &s("erin"), 1, None, 10, 0).unwrap();
    assert_eq!(r.nft_approvals(1, false, 10, 0).unwrap().len(), 2);
    // Not once the operator has expired.
    assert_eq!(r.nft_approve(&s("carol"), &s("frank"), 1, None, 20, 0).unwrap_err(), PerpError::Unauthorized);
}

#[test]
fn approval_already_expired_refused() {
    let mut r = registry();
    assert_eq!(
        r.nft_approve(&s("alice"), &s("dave"), 1, Some(Expiration::AtHeight(5)), 10, 0).unwrap_err(),
        PerpError::Expired
    );
    assert_eq!(
        r.nft_approve_all(&s("alice"), &s("dave"), Some(Expiration::AtTime(100)), 10, 100).unwrap_err(),
        PerpError::Expired
    );
}

#[test]
fn approved_spender_transfers_and_approvals_clear() {
    let mut r = registry();
    r.nft_approve(&s("alice"), &s("dave"), 1, Some(Expiration::AtHeight(50)), 10, 0).unwrap();
    assert_eq!(r.nft_transfer(&s("erin"), &s("market"), s("erin"), 1, 10, 0).unwrap_err(), PerpError::Unauthorized);
    r.nft_transfer(&s("dave"), &s("market"), s("dave"), 1, 10, 0).unwrap();
    let (owner, approvals) = r.nft_owner_of(1, true, 10, 0).unwrap();
    assert_eq!(owner, "dave");
    assert!(approvals.is_empty());
    // Alice no longer owns it and holds no approval.
    assert_eq!(r.nft_transfer(&s("alice"), &s("market"), s("alice"), 1, 10, 0).unwrap_err(), PerpError::Unauthorized);
    // The market can always move a token.
    r.nft_transfer(&s("market"), &s("market"), s("alice"), 1, 10, 0).unwrap();
    assert_eq!(r.nft_owner_of(1, false, 10, 0).unwrap().0, "alice");
}

#[test]
fn expired_approval_does_not_allow_transfer() {
    let mut r = registry();
    r.nft_approve(&s("alice"), &s("dave"), 1, Some(Expiration::AtHeight(50)), 10, 0).unwrap();
    assert_eq!(r.nft_transfer(&s("dave"), &s("market"), s("dave"), 1, 50, 0).unwrap_err(), PerpError::Unauthorized);
    // Expired approvals are shown only when asked.
    assert!(r.nft_approvals(1, false, 50, 0).unwrap().is_empty());
    assert_eq!(r.nft_approvals(1, true, 50, 0).unwrap().len(), 1);
    assert_eq!(r.nft_approval(1, &s("dave"), false, 50, 0).unwrap_err(), PerpError::ApprovalNotFound);
    assert_eq!(r.nft_approval(1, &s("dave"), true, 50, 0).unwrap().expires, Expiration::AtHeight(50));
}

#[test]
fn revoke_and_reapprove_keep_one_approval_per_spender() {
    let mut r = registry();
    r.nft_approve(&s("alice"), &s("dave"), 1, Some(Expiration::AtHeight(50)), 10, 0).unwrap();
    r.nft_approve(&s("alice"), &s("dave"), 1, Some(Expiration::AtHeight(60)), 10, 0).unwrap();
    let approvals = r.nft_approvals(1, true, 10, 0).unwrap();
    assert_eq!(approvals.len(), 1);
    assert_eq!(approvals[0].expires, Expiration::AtHeight(60));
    r.nft_revoke(&s("alice"), &s("dave"), 1, 10, 0).unwrap();
    assert!(r.nft_approvals(1, true, 10, 0).unwrap().is_empty());
    assert_eq!(r.nft_transfer(&s("dave"), &s("market"), s("dave"), 1, 10, 0).unwrap_err(), PerpError::Unauthorized);
}

#[test]
fn operators_may_send_until_revoked() {
    let mut r = registry();
    r.nft_approve_all(&s("bob"), &s("olga"), None, 10, 0).unwrap();
    r.nft_transfer(&s("olga"), &s("market"), s("olga"), 2, 10, 0).unwrap();
    assert_eq!(r.nft_owner_of(2, false, 10, 0).unwrap().0, "olga");
    // Olga is no operator of alice.
    assert_eq!(r.nft_transfer(&s("olga"), &s("market"), s("olga"), 1, 10, 0).unwrap_err(), PerpError::Unauthorized);
    r.nft_approve_all(&s("alice"), &s("olga"), None, 10, 0).unwrap();
    r.nft_revoke_all(&s("alice"), &s("olga"));
    assert_eq!(r.nft_transfer(&s("olga"), &s("market"), s("olga"), 1, 10, 0).unwrap_err(), PerpError::Unauthorized);
    // The owner's own approval never expires.
    assert_eq!(r.nft_approval(1, &s("alice"), false, 10, 0).unwrap().expires, Expiration::Never);
}
