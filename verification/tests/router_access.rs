use stellar_router::plugin_interface::AccountId;
use stellar_router::router_access::{AccessError, AccessEvent, RoleId, RouterAccess};

fn setup() -> (AccountId, RouterAccess) {
    let admin = AccountId(1);
    let mut access = RouterAccess::new();
    access.initialize(admin).unwrap();
    (admin, access)
}

const OPERATOR: RoleId = RoleId(100);

#[test]
fn grant_role_supports_permanent_and_expiring_grants() {
    let (admin, mut c) = setup();
    let expiring = AccountId(2);
    let permanent = AccountId(3);
    c.grant_role(admin, OPERATOR, expiring, Some(50), 0).unwrap();
    c.grant_role(admin, OPERATOR, permanent, None, 0).unwrap();
    assert!(c.has_role(OPERATOR, expiring, 0));
    assert!(c.has_role(OPERATOR, permanent, 0));
    assert_eq!(c.get_role_expiry(OPERATOR, expiring), Some(50));
    assert_eq!(c.get_role_expiry(OPERATOR, permanent), None);
    assert!(!c.has_role(OPERATOR, expiring, 51));
    assert!(c.has_role(OPERATOR, permanent, 51));
    assert!(c.is_role_expired(OPERATOR, expiring, 51));
}

#[test]
fn role_granted_event_includes_expiry_field() {
    let (admin, mut c) = setup();
    let user = AccountId(2);
    let ev = c.grant_role(admin, RoleId(7), user, Some(123), 0).unwrap();
    assert_eq!(ev, AccessEvent::RoleGranted { role: RoleId(7), account: user, expires_at: Some(123) });
}

#[test]
fn expired_grant_can_be_regranted() {
    let (admin, mut c) = setup();
    let user = AccountId(2);
    c.grant_role(admin, OPERATOR, user, Some(10), 0).unwrap();
    assert!(!c.has_role(OPERATOR, user, 11));
    assert!(c.grant_role(admin, OPERATOR, user, Some(100), 11).is_ok());
    assert!(c.has_role(OPERATOR, user, 11));
}

#[test]
fn role_hierarchy_respects_expiring_parent_grants() {
    let (admin, mut c) = setup();
    let viewer = RoleId(1);
    let editor = RoleId(2);
    let user = AccountId(2);
    c.set_role_parent(admin, viewer, editor).unwrap();
    c.grant_role(admin, editor, user, Some(20), 0).unwrap();
    assert!(c.has_role(editor, user, 0));
    assert!(c.has_role(viewer, user, 0));
    assert!(!c.has_role(editor, user, 21));
    assert!(!c.has_role(viewer, user, 21));
}

#[test]
fn blacklisted_accounts_cannot_receive_or_use_roles() {
    let (admin, mut c) = setup();
    let user = AccountId(2);
    c.grant_role(admin, OPERATOR, user, None, 0).unwrap();
    assert!(c.has_role(OPERATOR, user, 0));
    c.blacklist(admin, user, None, None).unwrap();
    assert!(!c.has_role(OPERATOR, user, 0));
    assert_eq!(c.grant_role(admin, OPERATOR, user, None, 0), Err(AccessError::Blacklisted));
    c.unblacklist(admin, user).unwrap();
    assert!(c.has_role(OPERATOR, user, 0));
}

#[test]
fn blacklist_expiry_allows_future_role_grants() {
    let (admin, mut c) = setup();
    let user = AccountId(2);
    c.blacklist(admin, user, None, Some(25)).unwrap();
    assert!(c.is_blacklisted(user, 0));
    assert!(!c.is_blacklisted(user, 26));
    assert!(c.grant_role(admin, OPERATOR, user, None, 26).is_ok());
}

#[test]
fn role_admin_must_not_be_blacklisted() {
    let (admin, mut c) = setup();
    let role_admin = AccountId(5);
    let user = AccountId(6);
    c.set_role_admin(admin, OPERATOR, role_admin, 0).unwrap();
    assert!(c.is_role_admin(OPERATOR, role_admin));
    c.blacklist(admin, role_admin, None, None).unwrap();
    assert_eq!(c.grant_role(role_admin, OPERATOR, user, None, 0), Err(AccessError::Blacklisted));
    assert_eq!(c.revoke_role(role_admin, OPERATOR, user, 0), Err(AccessError::Blacklisted));
    assert_eq!(c.set_role_admin(admin, RoleId(9), role_admin, 0), Err(AccessError::Blacklisted));
}

#[test]
fn revoke_removes_role_and_allows_regrant() {
    let (admin, mut c) = setup();
    let user = AccountId(2);
    c.grant_role(admin, OPERATOR, user, Some(100), 0).unwrap();
    c.revoke_role(admin, OPERATOR, user, 0).unwrap();
    assert!(!c.has_role(OPERATOR, user, 0));
    assert_eq!(c.get_role_expiry(OPERATOR, user), None);
    assert!(c.grant_role(admin, OPERATOR, user, None, 0).is_ok());
    assert_eq!(c.revoke_role(admin, RoleId(55), user, 0), Err(AccessError::RoleNotFound));
}

#[test]
fn role_member_and_address_indexes_filter_inactive_grants() {
    let (admin, mut c) = setup();
    let active = AccountId(2);
    let expired = AccountId(3);
    c.grant_role(admin, OPERATOR, active, None, 0).unwrap();
    c.grant_role(admin, OPERATOR, expired, Some(5), 0).unwrap();
    let members = c.get_role_members(OPERATOR, 0, 50, 6);
    assert_eq!(members, vec![active]);
    assert!(c.get_roles_for_address(expired, 6).is_empty());
    assert_eq!(c.get_roles_for_address(active, 6), vec![OPERATOR]);
}

#[test]
fn batch_grants_report_partial_results() {
    let (admin, mut c) = setup();
    let u1 = AccountId(2);
    let u2 = AccountId(3);
    c.grant_role(admin, OPERATOR, u1, None, 0).unwrap();
    let (results, events) = c.grant_role_batch(admin, OPERATOR, &vec![u1, u2], None, 0).unwrap();
    assert_eq!(results[0], Err(AccessError::AlreadyHasRole));
    assert_eq!(results[1], Ok(()));
    assert_eq!(events, vec![AccessEvent::RoleGranted { role: OPERATOR, account: u2, expires_at: None }]);
}

#[test]
fn role_parent_cycle_is_rejected() {
    let (admin, mut c) = setup();
    let a = RoleId(1);
    let b = RoleId(2);
    c.set_role_parent(admin, b, a).unwrap();
    assert_eq!(c.set_role_parent(admin, a, b), Err(AccessError::HierarchyCycle));
    assert_eq!(c.set_role_parent(admin, a, a), Err(AccessError::HierarchyCycle));
}

#[test]
fn only_the_super_admin_administers() {
    let (admin, mut c) = setup();
    let other = AccountId(9);
    assert_eq!(c.initialize(other), Err(AccessError::AlreadyInitialized));
    assert_eq!(c.blacklist(other, AccountId(3), None, None), Err(AccessError::Unauthorized));
    assert_eq!(c.blacklist(admin, admin, None, None), Err(AccessError::CannotBlacklistAdmin));
    assert_eq!(c.grant_role(other, OPERATOR, AccountId(3), None, 0), Err(AccessError::Unauthorized));
    assert_eq!(c.transfer_super_admin(admin, other), Ok(AccessEvent::AdminTransferred { old_admin: admin, new_admin: other }));
    assert_eq!(c.super_admin(), Ok(other));
    assert_eq!(RouterAccess::new().super_admin(), Err(AccessError::NotInitialized));
}

#[test]
fn member_pages_skip_and_limit() {
    let (admin, mut c) = setup();
    for i in 2..7 {
        c.grant_role(admin, OPERATOR, AccountId(i), None, 0).unwrap();
    }
    assert_eq!(c.get_role_members(OPERATOR, 1, 2, 0), vec![AccountId(3), AccountId(4)]);
    assert_eq!(c.get_role_members(OPERATOR, 4, 10, 0), vec![AccountId(6)]);
    assert!(c.get_role_members(OPERATOR, 5, 10, 0).is_empty());
    assert!(c.get_role_members(OPERATOR, 0, 0, 0).is_empty());
}

#[test]
fn bulk_revoke_is_all_or_nothing() {
    let (admin, mut c) = setup();
    c.grant_role(admin, OPERATOR, AccountId(2), None, 0).unwrap();
    c.grant_role(admin, OPERATOR, AccountId(3), None, 0).unwrap();
    assert_eq!(c.bulk_revoke_role(admin, OPERATOR, &vec![AccountId(2), AccountId(4)], 0), Err(AccessError::RoleNotFound));
    assert!(c.has_role(OPERATOR, AccountId(2), 0));
    assert_eq!(c.bulk_revoke_role(admin, OPERATOR, &vec![AccountId(2), AccountId(2)], 0), Err(AccessError::RoleNotFound));
    let events = c.bulk_revoke_role(admin, OPERATOR, &vec![AccountId(2), AccountId(3)], 0).unwrap();
    assert_eq!(events.len(), 2);
    assert!(!c.has_role(OPERATOR, AccountId(2), 0));
    let (results, _) = c.revoke_role_batch(admin, OPERATOR, &vec![AccountId(3)], 0).unwrap();
    assert_eq!(results, vec![Err(AccessError::RoleNotFound)]);
}

#[test]
fn expire_role_and_parent_removal() {
    let (admin, mut c) = setup();
    c.grant_role(admin, OPERATOR, AccountId(2), None, 0).unwrap();
    assert_eq!(c.expire_role(admin, OPERATOR, AccountId(2)), Ok(AccessEvent::RoleExpired { role: OPERATOR, account: AccountId(2) }));
    assert!(!c.has_role(OPERATOR, AccountId(2), 0));
    c.set_role_parent(admin, RoleId(1), RoleId(2)).unwrap();
    assert_eq!(c.get_role_parent(RoleId(1)), Some(RoleId(2)));
    c.remove_role_parent(admin, RoleId(1)).unwrap();
    assert_eq!(c.get_role_parent(RoleId(1)), None);
    assert_eq!(AccessError::HierarchyCycle.code(), 8);
}
