//! Role-based access control for the router suite.
//!
//! A role grant can be permanent or expire at an absolute ledger timestamp.
//! Role checks respect the blacklist and parent-role inheritance, followed
//! at most [`MAX_HIERARCHY_DEPTH`] levels up. The contract storage is
//! modelled by [`RouterAccess`]; every entry point takes the ledger
//! timestamp `now`, and the host has checked the caller's authorization
//! before it runs. An entry point that answers an error leaves the storage
//! as it was, as the host rolls a failed call back.

use vstd::prelude::*;
use crate::plugin_interface::AccountId;
use crate::table::{Table, TableKey};

verus! {

/// Depth at which the walk up the role hierarchy stops.
pub const MAX_HIERARCHY_DEPTH: u32 = 16;

/// A role name.
#[derive(Debug, Clone, Copy, PartialEq, Eq, Structural)]
pub struct RoleId(pub u64);

/// A grant of a role to an account.
#[derive(Debug, Clone, Copy, PartialEq, Eq, Structural)]
pub struct GrantKey {
    pub role: RoleId,
    pub account: AccountId,
}

impl TableKey for RoleId {
    fn same(&self, other: &Self) -> (b: bool) {
        self.0 == other.0
    }
}

impl TableKey for AccountId {
    fn same(&self, other: &Self) -> (b: bool) {
        self.0 == other.0
    }
}

impl TableKey for GrantKey {
    fn same(&self, other: &Self) -> (b: bool) {
        self.role.0 == other.role.0 && self.account.0 == other.account.0
    }
}

/// Errors of the access-control contract.
#[derive(Debug, Clone, Copy, PartialEq, Eq, Structural)]
pub enum AccessError {
    AlreadyInitialized,
    NotInitialized,
    Unauthorized,
    AlreadyHasRole,
    RoleNotFound,
    Blacklisted,
    CannotBlacklistAdmin,
    HierarchyCycle,
}

impl AccessError {
    /// The numeric code of the error.
    pub fn code(&self) -> (r: u32)
        ensures
            r == (match self {
                AccessError::AlreadyInitialized => 1u32,
                AccessError::NotInitialized => 2u32,
                AccessError::Unauthorized => 3u32,
                AccessError::AlreadyHasRole => 4u32,
                AccessError::RoleNotFound => 5u32,
                AccessError::Blacklisted => 6u32,
                AccessError::CannotBlacklistAdmin => 7u32,
                AccessError::HierarchyCycle => 8u32,
            }),
    {
        match self {
            AccessError::AlreadyInitialized => 1,
            AccessError::NotInitialized => 2,
            AccessError::Unauthorized => 3,
            AccessError::AlreadyHasRole => 4,
            AccessError::RoleNotFound => 5,
            AccessError::Blacklisted => 6,
            AccessError::CannotBlacklistAdmin => 7,
            AccessError::HierarchyCycle => 8,
        }
    }
}

/// A blacklist entry: the reason given and when it lapses.
#[derive(Debug, Clone, Copy, PartialEq, Eq, Structural)]
pub struct BlacklistEntry {
    pub reason: Option<u64>,
    pub expires_at: Option<u64>,
}

/// The storage of the contract, as maps.
pub struct AccessState {
    pub super_admin: Option<AccountId>,
    /// Granted roles, with their expiry.
    pub grants: Map<GrantKey, Option<u64>>,
    pub role_admins: Map<RoleId, AccountId>,
    pub role_parents: Map<RoleId, RoleId>,
    /// Per role, the accounts in the order they joined the member index.
    pub members: Map<RoleId, Seq<AccountId>>,
    /// Per grant, its position in the member index.
    pub member_index: Map<GrantKey, u32>,
    /// Per account, the roles it was granted, in order.
    pub address_roles: Map<AccountId, Seq<RoleId>>,
    pub blacklist: Map<AccountId, BlacklistEntry>,
}

/// An event the contract publishes.
#[derive(Debug, Clone, Copy, PartialEq, Eq, Structural)]
pub enum AccessEvent {
    AdminTransferred { old_admin: AccountId, new_admin: AccountId },
    RoleGranted { role: RoleId, account: AccountId, expires_at: Option<u64> },
    RoleRevoked { role: RoleId, account: AccountId },
    RoleExpired { role: RoleId, account: AccountId },
    RoleAdminSet { role: RoleId, admin: AccountId },
    RoleParentSet { role: RoleId, parent: RoleId },
    RoleParentRemoved { role: RoleId },
    AddressBlacklisted { target: AccountId, reason: Option<u64>, expires_at: Option<u64> },
    AddressUnblacklisted { target: AccountId },
}

/// Whether `a` is blacklisted at `now`: listed, and not past its expiry.
pub open spec fn spec_blacklisted(s: AccessState, a: AccountId, now: u64) -> bool {
    s.blacklist.contains_key(a) && !(s.blacklist[a].expires_at matches Some(e) && now >= e)
}

/// The storage after checking the blacklist for `a`: a lapsed entry is
/// dropped.
pub open spec fn spec_clean(s: AccessState, a: AccountId, now: u64) -> AccessState {
    if s.blacklist.contains_key(a) && !spec_blacklisted(s, a, now) {
        AccessState { blacklist: s.blacklist.remove(a), ..s }
    } else {
        s
    }
}

/// Whether the grant of `role` to `a` is in force at `now`.
pub open spec fn spec_direct_active(s: AccessState, role: RoleId, a: AccountId, now: u64) -> bool {
    let k = GrantKey { role, account: a };
    s.grants.contains_key(k) && !(s.grants[k] matches Some(e) && now >= e)
}

/// Whether `a` holds `role` directly or through the parents of `role`,
/// walking at most up to depth [`MAX_HIERARCHY_DEPTH`] from `depth`.
pub open spec fn spec_has_role_from(s: AccessState, role: RoleId, a: AccountId, now: u64, depth: nat) -> bool
    decreases MAX_HIERARCHY_DEPTH - depth,
{
    if spec_direct_active(s, role, a, now) {
        true
    } else if s.role_parents.contains_key(role) && depth + 1 < MAX_HIERARCHY_DEPTH {
        spec_has_role_from(s, s.role_parents[role], a, now, depth + 1)
    } else {
        false
    }
}

/// Whether `ancestor` is `role` or one of its parents, walking at most up
/// to depth [`MAX_HIERARCHY_DEPTH`] from `depth`.
pub open spec fn spec_is_ancestor_from(s: AccessState, role: RoleId, ancestor: RoleId, depth: nat) -> bool
    decreases MAX_HIERARCHY_DEPTH - depth,
{
    if role == ancestor {
        true
    } else if s.role_parents.contains_key(role) && depth + 1 < MAX_HIERARCHY_DEPTH {
        spec_is_ancestor_from(s, s.role_parents[role], ancestor, depth + 1)
    } else {
        false
    }
}

/// The member list of `role`.
pub open spec fn members_of(s: AccessState, role: RoleId) -> Seq<AccountId> {
    if s.members.contains_key(role) {
        s.members[role]
    } else {
        Seq::empty()
    }
}

/// The role list of `a`.
pub open spec fn roles_of(s: AccessState, a: AccountId) -> Seq<RoleId> {
    if s.address_roles.contains_key(a) {
        s.address_roles[a]
    } else {
        Seq::empty()
    }
}

/// The storage after recording a grant of `role` to `a` expiring at
/// `expires_at`: the grant is set, the account joins the member index of
/// the role unless it has a position there, and the role joins the role
/// list of the account unless it is there.
pub open spec fn spec_record_grant(s: AccessState, role: RoleId, a: AccountId, expires_at: Option<u64>) -> AccessState {
    let k = GrantKey { role, account: a };
    let indexed = s.member_index.contains_key(k);
    let members = members_of(s, role);
    let roles = roles_of(s, a);
    AccessState {
        grants: s.grants.insert(k, expires_at),
        members: if indexed { s.members } else { s.members.insert(role, members.push(a)) },
        member_index: if indexed { s.member_index } else { s.member_index.insert(k, members.len() as u32) },
        address_roles: s.address_roles.insert(a, if roles.contains(role) { roles } else { roles.push(role) }),
        ..s
    }
}

/// The storage after removing the grant of `role` to `a`: the grant, its
/// expiry and its member position go, and the role leaves the role list of
/// the account.
pub open spec fn spec_remove_grant(s: AccessState, role: RoleId, a: AccountId) -> AccessState {
    let k = GrantKey { role, account: a };
    let roles = roles_of(s, a);
    AccessState {
        grants: s.grants.remove(k),
        member_index: s.member_index.remove(k),
        address_roles: if roles.contains(role) {
            s.address_roles.insert(a, roles.remove(roles.index_of_first(role).unwrap()))
        } else {
            s.address_roles
        },
        ..s
    }
}

/// What granting `role` to `a` does, after the manager check: refused for
/// a blacklisted account or a grant in force.
pub open spec fn spec_grant_internal(s: AccessState, role: RoleId, a: AccountId, expires_at: Option<u64>, now: u64) -> (AccessState, Result<AccessEvent, AccessError>) {
    let s1 = spec_clean(s, a, now);
    if spec_blacklisted(s, a, now) {
        (s1, Err(AccessError::Blacklisted))
    } else if spec_direct_active(s1, role, a, now) {
        (s1, Err(AccessError::AlreadyHasRole))
    } else {
        (spec_record_grant(s1, role, a, expires_at), Ok(AccessEvent::RoleGranted { role, account: a, expires_at }))
    }
}

/// What revoking `role` from `a` does: refused when there is no grant.
pub open spec fn spec_revoke_internal(s: AccessState, role: RoleId, a: AccountId) -> (AccessState, Result<AccessEvent, AccessError>) {
    if !s.grants.contains_key(GrantKey { role, account: a }) {
        (s, Err(AccessError::RoleNotFound))
    } else {
        (spec_remove_grant(s, role, a), Ok(AccessEvent::RoleRevoked { role, account: a }))
    }
}

/// The super-admin check.
pub open spec fn spec_require_super_admin(s: AccessState, caller: AccountId) -> Result<(), AccessError> {
    match s.super_admin {
        None => Err(AccessError::NotInitialized),
        Some(a) => if a == caller {
            Ok(())
        } else {
            Err(AccessError::Unauthorized)
        },
    }
}

/// The manager check of `role`: a blacklisted caller is refused; the super
/// admin and the admin of the role may manage it.
pub open spec fn spec_require_role_manager(s: AccessState, caller: AccountId, role: RoleId, now: u64) -> Result<(), AccessError> {
    if spec_blacklisted(s, caller, now) {
        Err(AccessError::Blacklisted)
    } else if s.super_admin == Some(caller) {
        Ok(())
    } else if s.role_admins.contains_key(role) && s.role_admins[role] == caller {
        Ok(())
    } else {
        Err(AccessError::Unauthorized)
    }
}

/// The grants of `list` in force at `now`, in order.
pub open spec fn active_members(s: AccessState, role: RoleId, list: Seq<AccountId>, now: u64) -> Seq<AccountId>
    decreases list.len(),
{
    if list.len() == 0 {
        Seq::empty()
    } else {
        let rest = active_members(s, role, list.drop_last(), now);
        if spec_direct_active(s, role, list.last(), now) {
            rest.push(list.last())
        } else {
            rest
        }
    }
}

/// The roles of `list` that `a` holds directly at `now`, in order.
pub open spec fn active_roles(s: AccessState, a: AccountId, list: Seq<RoleId>, now: u64) -> Seq<RoleId>
    decreases list.len(),
{
    if list.len() == 0 {
        Seq::empty()
    } else {
        let rest = active_roles(s, a, list.drop_last(), now);
        if spec_direct_active(s, list.last(), a, now) {
            rest.push(list.last())
        } else {
            rest
        }
    }
}

/// The page of `items` that skips `offset` items and holds at most `limit`.
pub open spec fn page<A>(items: Seq<A>, offset: nat, limit: nat) -> Seq<A> {
    if offset >= items.len() {
        Seq::empty()
    } else if offset + limit <= items.len() {
        items.subrange(offset as int, (offset + limit) as int)
    } else {
        items.subrange(offset as int, items.len() as int)
    }
}

/// Granting `role` to each of `accounts` in turn: the storage after, the
/// answer for each account, and the events of the grants made.
pub open spec fn spec_grant_batch(s: AccessState, role: RoleId, accounts: Seq<AccountId>, expires_at: Option<u64>, now: u64) -> (AccessState, Seq<Result<(), AccessError>>, Seq<AccessEvent>)
    decreases accounts.len(),
{
    if accounts.len() == 0 {
        (s, Seq::empty(), Seq::empty())
    } else {
        let (s1, results, events) = spec_grant_batch(s, role, accounts.drop_last(), expires_at, now);
        let (s2, r) = spec_grant_internal(s1, role, accounts.last(), expires_at, now);
        match r {
            Ok(ev) => (s2, results.push(Ok(())), events.push(ev)),
            Err(e) => (s2, results.push(Err(e)), events),
        }
    }
}

/// Revoking `role` from each of `accounts` in turn.
pub open spec fn spec_revoke_batch(s: AccessState, role: RoleId, accounts: Seq<AccountId>) -> (AccessState, Seq<Result<(), AccessError>>, Seq<AccessEvent>)
    decreases accounts.len(),
{
    if accounts.len() == 0 {
        (s, Seq::empty(), Seq::empty())
    } else {
        let (s1, results, events) = spec_revoke_batch(s, role, accounts.drop_last());
        let (s2, r) = spec_revoke_internal(s1, role, accounts.last());
        match r {
            Ok(ev) => (s2, results.push(Ok(())), events.push(ev)),
            Err(e) => (s2, results.push(Err(e)), events),
        }
    }
}

/// Whether every revocation of a batch succeeded.
pub open spec fn all_ok(results: Seq<Result<(), AccessError>>) -> bool {
    forall|j: int| 0 <= j < results.len() ==> #[trigger] results[j] is Ok
}

/// A batch of revocations removes exactly the grants of `role` to the
/// accounts of the batch, and succeeds throughout exactly when each
/// account held a grant at the start and appears once.
pub proof fn lemma_revoke_batch(s: AccessState, role: RoleId, accounts: Seq<AccountId>)
    ensures
        spec_revoke_batch(s, role, accounts).1.len() == accounts.len(),
        forall|k: GrantKey| #[trigger] spec_revoke_batch(s, role, accounts).0.grants.contains_key(k) <==> (s.grants.contains_key(k)
            && !(k.role == role && accounts.contains(k.account))),
        all_ok(spec_revoke_batch(s, role, accounts).1) <==> ((forall|i: int| 0 <= i < accounts.len() ==> s.grants.contains_key(
            GrantKey { role, account: #[trigger] accounts[i] })) && accounts.no_duplicates()),
    decreases accounts.len(),
{
    if accounts.len() > 0 {
        let init = accounts.drop_last();
        let last = accounts.last();
        lemma_revoke_batch(s, role, init);
        let (s1, rs1, ev1) = spec_revoke_batch(s, role, init);
        let (s2, r) = spec_revoke_internal(s1, role, last);
        let rs = spec_revoke_batch(s, role, accounts).1;
        assert(accounts == init.push(last));
        assert forall|a: AccountId| #[trigger] accounts.contains(a) <==> (init.contains(a) || a == last) by {
            if accounts.contains(a) {
                let i = choose|i: int| 0 <= i < accounts.len() && accounts[i] == a;
                if i < init.len() {
                    assert(init[i] == a);
                }
            }
            if init.contains(a) {
                let i = choose|i: int| 0 <= i < init.len() && init[i] == a;
                assert(accounts[i] == a);
            }
            if a == last {
                assert(accounts[accounts.len() - 1] == a);
            }
        }
        if all_ok(rs) {
            assert forall|j: int| 0 <= j < rs1.len() implies #[trigger] rs1[j] is Ok by {
                assert(rs[j] == rs1[j]);
            }
            assert(rs[rs.len() - 1] is Ok);
            assert forall|i: int| 0 <= i < accounts.len() implies s.grants.contains_key(GrantKey { role, account: #[trigger] accounts[i] }) by {
                if i < init.len() {
                    assert(accounts[i] == init[i]);
                }
            }
            assert forall|i: int, j: int| 0 <= i < accounts.len() && 0 <= j < accounts.len() && i != j implies accounts[i] != accounts[j] by {
                if i < init.len() && j < init.len() {
                    assert(init[i] == accounts[i] && init[j] == accounts[j]);
                } else if i < init.len() {
                    assert(init.contains(accounts[i]));
                } else if j < init.len() {
                    assert(init.contains(accounts[j]));
                }
            }
        }
        if (forall|i: int| 0 <= i < accounts.len() ==> s.grants.contains_key(GrantKey { role, account: #[trigger] accounts[i] })) && accounts.no_duplicates() {
            assert forall|i: int| 0 <= i < init.len() implies s.grants.contains_key(GrantKey { role, account: #[trigger] init[i] }) by {
                assert(init[i] == accounts[i]);
            }
            assert(init.no_duplicates()) by {
                assert forall|i: int, j: int| 0 <= i < init.len() && 0 <= j < init.len() && i != j implies init[i] != init[j] by {
                    assert(init[i] == accounts[i] && init[j] == accounts[j]);
                }
            }
            assert(!init.contains(last)) by {
                if init.contains(last) {
                    let i = choose|i: int| 0 <= i < init.len() && init[i] == last;
                    assert(accounts[i] == accounts[accounts.len() - 1]);
                }
            }
            assert(s.grants.contains_key(GrantKey { role, account: accounts[accounts.len() - 1] }));
            assert(s1.grants.contains_key(GrantKey { role, account: last }));
            assert forall|j: int| 0 <= j < rs.len() implies #[trigger] rs[j] is Ok by {
                if j < rs1.len() {
                    assert(rs[j] == rs1[j]);
                }
            }
        }
    }
}

/// The contract storage.
pub struct RouterAccess {
    super_admin: Option<AccountId>,
    grants: Table<GrantKey, Option<u64>>,
    role_admins: Table<RoleId, AccountId>,
    role_parents: Table<RoleId, RoleId>,
    members: Table<RoleId, Vec<AccountId>>,
    member_index: Table<GrantKey, u32>,
    address_roles: Table<AccountId, Vec<RoleId>>,
    blacklist: Table<AccountId, BlacklistEntry>,
}

impl RouterAccess {
    pub closed spec fn wf(&self) -> bool {
        &&& self.grants.wf()
        &&& self.role_admins.wf()
        &&& self.role_parents.wf()
        &&& self.members.wf()
        &&& self.member_index.wf()
        &&& self.address_roles.wf()
        &&& self.blacklist.wf()
    }

    /// The storage as maps.
    pub closed spec fn state(&self) -> AccessState {
        AccessState {
            super_admin: self.super_admin,
            grants: self.grants.view(),
            role_admins: self.role_admins.view(),
            role_parents: self.role_parents.view(),
            members: self.members.view().map_values(|v: Vec<AccountId>| v@),
            member_index: self.member_index.view(),
            address_roles: self.address_roles.view().map_values(|v: Vec<RoleId>| v@),
            blacklist: self.blacklist.view(),
        }
    }

    /// A freshly deployed contract: nothing stored.
    pub fn new() -> (r: Self)
        ensures
            r.wf(),
            r.state().super_admin is None,
            r.state().grants == Map::<GrantKey, Option<u64>>::empty(),
            r.state().role_admins == Map::<RoleId, AccountId>::empty(),
            r.state().role_parents == Map::<RoleId, RoleId>::empty(),
            r.state().members == Map::<RoleId, Seq<AccountId>>::empty(),
            r.state().member_index == Map::<GrantKey, u32>::empty(),
            r.state().address_roles == Map::<AccountId, Seq<RoleId>>::empty(),
            r.state().blacklist == Map::<AccountId, BlacklistEntry>::empty(),
    {
        let r = RouterAccess {
            super_admin: None,
            grants: Table::new(),
            role_admins: Table::new(),
            role_parents: Table::new(),
            members: Table::new(),
            member_index: Table::new(),
            address_roles: Table::new(),
            blacklist: Table::new(),
        };
        assert(r.state().members =~= Map::<RoleId, Seq<AccountId>>::empty());
        assert(r.state().address_roles =~= Map::<AccountId, Seq<RoleId>>::empty());
        r
    }

    /// Sets the super admin, once.
    pub fn initialize(&mut self, super_admin: AccountId) -> (r: Result<(), AccessError>)
        requires
            old(self).wf(),
        ensures
            final(self).wf(),
            old(self).state().super_admin is Some ==> r == Err::<(), AccessError>(AccessError::AlreadyInitialized)
                && final(self).state() == old(self).state(),
            old(self).state().super_admin is None ==> r is Ok
                && final(self).state() == (AccessState { super_admin: Some(super_admin), ..old(self).state() }),
    {
        if self.super_admin.is_some() {
            return Err(AccessError::AlreadyInitialized);
        }
        self.super_admin = Some(super_admin);
        Ok(())
    }

    /// The super admin.
    pub fn super_admin(&self) -> (r: Result<AccountId, AccessError>)
        ensures
            match self.state().super_admin {
                Some(a) => r == Ok::<AccountId, AccessError>(a),
                None => r == Err::<AccountId, AccessError>(AccessError::NotInitialized),
            },
    {
        match self.super_admin {
            Some(a) => Ok(a),
            None => Err(AccessError::NotInitialized),
        }
    }

    fn require_super_admin(&self, caller: AccountId) -> (r: Result<(), AccessError>)
        ensures
            r == spec_require_super_admin(self.state(), caller),
    {
        match self.super_admin {
            None => Err(AccessError::NotInitialized),
            Some(a) => if a == caller {
                Ok(())
            } else {
                Err(AccessError::Unauthorized)
            },
        }
    }

    /// Hands the super-admin role from `current` to `new_admin`.
    pub fn transfer_super_admin(&mut self, current: AccountId, new_admin: AccountId) -> (r: Result<AccessEvent, AccessError>)
        requires
            old(self).wf(),
        ensures
            final(self).wf(),
            match spec_require_super_admin(old(self).state(), current) {
                Err(e) => r == Err::<AccessEvent, AccessError>(e) && final(self).state() == old(self).state(),
                Ok(_) => r == Ok::<AccessEvent, AccessError>(AccessEvent::AdminTransferred { old_admin: current, new_admin })
                    && final(self).state() == (AccessState { super_admin: Some(new_admin), ..old(self).state() }),
            },
    {
        match self.require_super_admin(current) {
            Err(e) => return Err(e),
            Ok(()) => {},
        }
        self.super_admin = Some(new_admin);
        Ok(AccessEvent::AdminTransferred { old_admin: current, new_admin })
    }

    /// Whether `a` is blacklisted at `now`, without touching the storage.
    fn blacklisted_at(&self, a: AccountId, now: u64) -> (b: bool)
        requires
            self.wf(),
        ensures
            b == spec_blacklisted(self.state(), a, now),
    {
        match self.blacklist.get(&a) {
            None => false,
            Some(entry) => match entry.expires_at {
                Some(e) => now < e,
                None => true,
            },
        }
    }

    /// Drops the blacklist entry of `a` when it has lapsed at `now`.
    fn clean(&mut self, a: AccountId, now: u64)
        requires
            old(self).wf(),
        ensures
            final(self).wf(),
            final(self).state() == spec_clean(old(self).state(), a, now),
    {
        let lapsed = match self.blacklist.get(&a) {
            None => false,
            Some(entry) => match entry.expires_at {
                Some(e) => now >= e,
                None => false,
            },
        };
        if lapsed {
            self.blacklist.remove(&a);
        }
    }

    /// Whether `a` is blacklisted at `now`; a lapsed entry is dropped.
    pub fn is_blacklisted(&mut self, a: AccountId, now: u64) -> (b: bool)
        requires
            old(self).wf(),
        ensures
            final(self).wf(),
            b == spec_blacklisted(old(self).state(), a, now),
            final(self).state() == spec_clean(old(self).state(), a, now),
    {
        let b = self.blacklisted_at(a, now);
        self.clean(a, now);
        b
    }

    fn direct_active(&self, role: RoleId, a: AccountId, now: u64) -> (b: bool)
        requires
            self.wf(),
        ensures
            b == spec_direct_active(self.state(), role, a, now),
    {
        match self.grants.get(&GrantKey { role, account: a }) {
            None => false,
            Some(expiry) => match expiry {
                Some(e) => now < *e,
                None => true,
            },
        }
    }

    fn has_role_internal(&self, role: RoleId, a: AccountId, now: u64) -> (b: bool)
        requires
            self.wf(),
        ensures
            b == spec_has_role_from(self.state(), role, a, now, 0),
    {
        let mut current = role;
        let mut depth: u32 = 0;
        loop
            invariant
                self.wf(),
                depth < MAX_HIERARCHY_DEPTH,
                spec_has_role_from(self.state(), role, a, now, 0) == spec_has_role_from(self.state(), current, a, now, depth as nat),
            decreases MAX_HIERARCHY_DEPTH - depth,
        {
            if self.direct_active(current, a, now) {
                return true;
            }
            match self.role_parents.get(&current) {
                Some(parent) => {
                    if depth + 1 >= MAX_HIERARCHY_DEPTH {
                        return false;
                    }
                    depth = depth + 1;
                    current = *parent;
                },
                None => return false,
            }
        }
    }

    /// Whether `a` holds `role` at `now`, directly or through a parent role:
    /// never while `a` is blacklisted. A lapsed blacklist entry is dropped.
    pub fn has_role(&mut self, role: RoleId, a: AccountId, now: u64) -> (b: bool)
        requires
            old(self).wf(),
        ensures
            final(self).wf(),
            final(self).state() == spec_clean(old(self).state(), a, now),
            b == (!spec_blacklisted(old(self).state(), a, now) && spec_has_role_from(old(self).state(), role, a, now, 0)),
    {
        if self.blacklisted_at(a, now) {
            return false;
        }
        let r = self.has_role_internal(role, a, now);
        self.clean(a, now);
        r
    }

    /// Whether the grant of `role` to `a` has an expiry that has passed.
    pub fn is_role_expired(&self, role: RoleId, a: AccountId, now: u64) -> (b: bool)
        requires
            self.wf(),
        ensures
            b == (self.state().grants.contains_key(GrantKey { role, account: a })
                && (self.state().grants[GrantKey { role, account: a }] matches Some(e) && now >= e)),
    {
        match self.grants.get(&GrantKey { role, account: a }) {
            Some(Some(e)) => now >= *e,
            _ => false,
        }
    }

    /// The expiry of the grant of `role` to `a`.
    pub fn get_role_expiry(&self, role: RoleId, a: AccountId) -> (r: Option<u64>)
        requires
            self.wf(),
        ensures
            r == (if self.state().grants.contains_key(GrantKey { role, account: a }) {
                self.state().grants[GrantKey { role, account: a }]
            } else {
                None
            }),
    {
        match self.grants.get(&GrantKey { role, account: a }) {
            Some(e) => *e,
            None => None,
        }
    }

    fn require_role_manager(&self, caller: AccountId, role: RoleId, now: u64) -> (r: Result<(), AccessError>)
        requires
            self.wf(),
        ensures
            r == spec_require_role_manager(self.state(), caller, role, now),
    {
        if self.blacklisted_at(caller, now) {
            return Err(AccessError::Blacklisted);
        }
        if self.super_admin == Some(caller) {
            return Ok(());
        }
        match self.role_admins.get(&role) {
            Some(admin) => if *admin == caller {
                Ok(())
            } else {
                Err(AccessError::Unauthorized)
            },
            None => Err(AccessError::Unauthorized),
        }
    }

    fn index_role_member(&mut self, role: RoleId, a: AccountId)
        requires
            old(self).wf(),
            members_of(old(self).state(), role).len() < u32::MAX,
        ensures
            final(self).wf(),
            ({
                let s = old(self).state();
                let k = GrantKey { role, account: a };
                let indexed = s.member_index.contains_key(k);
                let members = members_of(s, role);
                final(self).state() == AccessState {
                    members: if indexed { s.members } else { s.members.insert(role, members.push(a)) },
                    member_index: if indexed { s.member_index } else { s.member_index.insert(k, members.len() as u32) },
                    ..s
                }
            }),
    {
        let k = GrantKey { role, account: a };
        if self.member_index.contains(&k) {
            return;
        }
        let mut list: Vec<AccountId> = match self.members.get(&role) {
            Some(v) => v.clone(),
            None => Vec::new(),
        };
        let count = list.len();
        list.push(a);
        proof {
            assert(list@ == members_of(old(self).state(), role).push(a));
        }
        self.members.set(role, list);
        self.member_index.set(k, count as u32);
        proof {
            assert(self.state().members =~= old(self).state().members.insert(role, members_of(old(self).state(), role).push(a)));
        }
    }

    fn index_address_role(&mut self, role: RoleId, a: AccountId)
        requires
            old(self).wf(),
        ensures
            final(self).wf(),
            ({
                let s = old(self).state();
                let roles = roles_of(s, a);
                final(self).state() == AccessState {
                    address_roles: s.address_roles.insert(a, if roles.contains(role) { roles } else { roles.push(role) }),
                    ..s
                }
            }),
    {
        let mut list: Vec<RoleId> = match self.address_roles.get(&a) {
            Some(v) => v.clone(),
            None => Vec::new(),
        };
        let ghost roles = list@;
        assert(roles == roles_of(old(self).state(), a));
        let mut found = false;
        for i in 0..list.len()
            invariant
                list@ == roles,
                found == (exists|j: int| 0 <= j < i && list@[j] == role),
        {
            if list[i] == role {
                found = true;
            }
        }
        proof {
            if roles.contains(role) {
                let j = choose|j: int| 0 <= j < roles.len() && roles[j] == role;
                assert(list@[j] == role);
            }
        }
        if !found {
            list.push(role);
        }
        self.address_roles.set(a, list);
        proof {
            assert(self.state().address_roles =~= old(self).state().address_roles.insert(
                a,
                if roles.contains(role) { roles } else { roles.push(role) },
            ));
        }
    }

    fn remove_address_role(&mut self, role: RoleId, a: AccountId)
        requires
            old(self).wf(),
        ensures
            final(self).wf(),
            ({
                let s = old(self).state();
                let roles = roles_of(s, a);
                final(self).state() == AccessState {
                    address_roles: if roles.contains(role) {
                        s.address_roles.insert(a, roles.remove(roles.index_of_first(role).unwrap()))
                    } else {
                        s.address_roles
                    },
                    ..s
                }
            }),
    {
        let mut list: Vec<RoleId> = match self.address_roles.get(&a) {
            Some(v) => v.clone(),
            None => Vec::new(),
        };
        let ghost roles = list@;
        assert(roles == roles_of(old(self).state(), a));
        let mut pos: Option<usize> = None;
        let mut i: usize = 0;
        while i < list.len()
            invariant
                list@ == roles,
                i <= list@.len(),
                pos is None ==> forall|j: int| 0 <= j < i ==> list@[j] != role,
                pos matches Some(p) ==> p < list@.len() && list@[p as int] == role && forall|j: int| 0 <= j < p ==> list@[j] != role,
            decreases list@.len() - i,
        {
            if pos.is_none() && list[i] == role {
                pos = Some(i);
            }
            i = i + 1;
        }
        match pos {
            Some(p) => {
                proof {
                    assert(roles.contains(role));
                    roles.index_of_first_ensures(role);
                    let q = roles.index_of_first(role).unwrap();
                    assert(q == p) by {
                        if q < p {
                            assert(list@[q] == role);
                        } else if p < q {
                            assert(roles[p as int] == role);
                        }
                    }
                }
                let _ = list.remove(p);
                self.address_roles.set(a, list);
                proof {
                    assert(self.state().address_roles =~= old(self).state().address_roles.insert(a, roles.remove(roles.index_of_first(role).unwrap())));
                }
            },
            None => {
                proof {
                    assert(!roles.contains(role));
                }
            },
        }
    }

    fn remove_role_grant(&mut self, role: RoleId, a: AccountId)
        requires
            old(self).wf(),
        ensures
            final(self).wf(),
            final(self).state() == spec_remove_grant(old(self).state(), role, a),
    {
        let k = GrantKey { role, account: a };
        self.grants.remove(&k);
        self.member_index.remove(&k);
        self.remove_address_role(role, a);
    }

    fn grant_role_internal(&mut self, role: RoleId, a: AccountId, expires_at: Option<u64>, now: u64) -> (r: Result<AccessEvent, AccessError>)
        requires
            old(self).wf(),
            members_of(old(self).state(), role).len() < u32::MAX,
        ensures
            final(self).wf(),
            (final(self).state(), r) == spec_grant_internal(old(self).state(), role, a, expires_at, now),
    {
        let black = self.blacklisted_at(a, now);
        self.clean(a, now);
        if black {
            return Err(AccessError::Blacklisted);
        }
        if self.direct_active(role, a, now) {
            return Err(AccessError::AlreadyHasRole);
        }
        let ghost s1 = self.state();
        self.grants.set(GrantKey { role, account: a }, expires_at);
        self.index_role_member(role, a);
        self.index_address_role(role, a);
        proof {
            assert(self.state() == spec_record_grant(s1, role, a, expires_at));
        }
        Ok(AccessEvent::RoleGranted { role, account: a, expires_at })
    }

    fn revoke_role_internal(&mut self, role: RoleId, a: AccountId) -> (r: Result<AccessEvent, AccessError>)
        requires
            old(self).wf(),
        ensures
            final(self).wf(),
            (final(self).state(), r) == spec_revoke_internal(old(self).state(), role, a),
    {
        if !self.grants.contains(&GrantKey { role, account: a }) {
            return Err(AccessError::RoleNotFound);
        }
        self.remove_role_grant(role, a);
        Ok(AccessEvent::RoleRevoked { role, account: a })
    }

    /// Grants `role` to `account`, permanently or until `expires_at`. The
    /// caller must manage the role; the account must not be blacklisted and
    /// must not hold the grant in force already.
    pub fn grant_role(&mut self, caller: AccountId, role: RoleId, account: AccountId, expires_at: Option<u64>, now: u64) -> (r: Result<AccessEvent, AccessError>)
        requires
            old(self).wf(),
            members_of(old(self).state(), role).len() < u32::MAX,
        ensures
            final(self).wf(),
            match spec_require_role_manager(old(self).state(), caller, role, now) {
                Err(e) => r == Err::<AccessEvent, AccessError>(e) && final(self).state() == old(self).state(),
                Ok(_) => {
                    let (after, res) = spec_grant_internal(spec_clean(old(self).state(), caller, now), role, account, expires_at, now);
                    &&& r == res
                    &&& r is Ok ==> final(self).state() == after
                    &&& r is Err ==> final(self).state() == old(self).state()
                },
            },
    {
        match self.require_role_manager(caller, role, now) {
            Err(e) => return Err(e),
            Ok(()) => {},
        }
        if self.blacklisted_at(account, now) {
            return Err(AccessError::Blacklisted);
        }
        if self.direct_active(role, account, now) {
            return Err(AccessError::AlreadyHasRole);
        }
        let ghost s0 = self.state();
        self.clean(caller, now);
        assert(members_of(self.state(), role) == members_of(s0, role));
        self.grant_role_internal(role, account, expires_at, now)
    }

    /// Revokes `role` from `account`. The caller must manage the role; the
    /// account must hold a grant.
    pub fn revoke_role(&mut self, caller: AccountId, role: RoleId, account: AccountId, now: u64) -> (r: Result<AccessEvent, AccessError>)
        requires
            old(self).wf(),
        ensures
            final(self).wf(),
            match spec_require_role_manager(old(self).state(), caller, role, now) {
                Err(e) => r == Err::<AccessEvent, AccessError>(e) && final(self).state() == old(self).state(),
                Ok(_) => {
                    let (after, res) = spec_revoke_internal(spec_clean(old(self).state(), caller, now), role, account);
                    &&& r == res
                    &&& r is Ok ==> final(self).state() == after
                    &&& r is Err ==> final(self).state() == old(self).state()
                },
            },
    {
        match self.require_role_manager(caller, role, now) {
            Err(e) => return Err(e),
            Ok(()) => {},
        }
        if !self.grants.contains(&GrantKey { role, account }) {
            return Err(AccessError::RoleNotFound);
        }
        self.clean(caller, now);
        self.revoke_role_internal(role, account)
    }

    /// Removes the grant of `role` to `account`, whatever its state; only
    /// the super admin may.
    pub fn expire_role(&mut self, caller: AccountId, role: RoleId, account: AccountId) -> (r: Result<AccessEvent, AccessError>)
        requires
            old(self).wf(),
        ensures
            final(self).wf(),
            match spec_require_super_admin(old(self).state(), caller) {
                Err(e) => r == Err::<AccessEvent, AccessError>(e) && final(self).state() == old(self).state(),
                Ok(_) => r == Ok::<AccessEvent, AccessError>(AccessEvent::RoleExpired { role, account })
                    && final(self).state() == spec_remove_grant(old(self).state(), role, account),
            },
    {
        match self.require_super_admin(caller) {
            Err(e) => return Err(e),
            Ok(()) => {},
        }
        self.remove_role_grant(role, account);
        Ok(AccessEvent::RoleExpired { role, account })
    }

    /// Makes `admin` the admin of `role`; only the super admin may, and
    /// not for a blacklisted account.
    pub fn set_role_admin(&mut self, caller: AccountId, role: RoleId, admin: AccountId, now: u64) -> (r: Result<AccessEvent, AccessError>)
        requires
            old(self).wf(),
        ensures
            final(self).wf(),
            match spec_require_super_admin(old(self).state(), caller) {
                Err(e) => r == Err::<AccessEvent, AccessError>(e) && final(self).state() == old(self).state(),
                Ok(_) => if spec_blacklisted(old(self).state(), admin, now) {
                    r == Err::<AccessEvent, AccessError>(AccessError::Blacklisted) && final(self).state() == old(self).state()
                } else {
                    let s1 = spec_clean(old(self).state(), admin, now);
                    r == Ok::<AccessEvent, AccessError>(AccessEvent::RoleAdminSet { role, admin })
                        && final(self).state() == (AccessState { role_admins: s1.role_admins.insert(role, admin), ..s1 })
                },
            },
    {
        match self.require_super_admin(caller) {
            Err(e) => return Err(e),
            Ok(()) => {},
        }
        if self.blacklisted_at(admin, now) {
            return Err(AccessError::Blacklisted);
        }
        self.clean(admin, now);
        self.role_admins.set(role, admin);
        Ok(AccessEvent::RoleAdminSet { role, admin })
    }

    /// The admin of `role`.
    pub fn get_role_admin(&self, role: RoleId) -> (r: Option<AccountId>)
        requires
            self.wf(),
        ensures
            r == (if self.state().role_admins.contains_key(role) {
                Some(self.state().role_admins[role])
            } else {
                None
            }),
    {
        match self.role_admins.get(&role) {
            Some(a) => Some(*a),
            None => None,
        }
    }

    /// Whether `addr` is the admin of `role`.
    pub fn is_role_admin(&self, role: RoleId, addr: AccountId) -> (b: bool)
        requires
            self.wf(),
        ensures
            b == (self.state().role_admins.contains_key(role) && self.state().role_admins[role] == addr),
    {
        match self.role_admins.get(&role) {
            Some(a) => *a == addr,
            None => false,
        }
    }

    fn is_ancestor(&self, role: RoleId, ancestor: RoleId) -> (b: bool)
        requires
            self.wf(),
        ensures
            b == spec_is_ancestor_from(self.state(), role, ancestor, 0),
    {
        let mut current = role;
        let mut depth: u32 = 0;
        loop
            invariant
                self.wf(),
                depth < MAX_HIERARCHY_DEPTH,
                spec_is_ancestor_from(self.state(), role, ancestor, 0) == spec_is_ancestor_from(self.state(), current, ancestor, depth as nat),
            decreases MAX_HIERARCHY_DEPTH - depth,
        {
            if current == ancestor {
                return true;
            }
            match self.role_parents.get(&current) {
                Some(parent) => {
                    if depth + 1 >= MAX_HIERARCHY_DEPTH {
                        return false;
                    }
                    depth = depth + 1;
                    current = *parent;
                },
                None => return false,
            }
        }
    }

    /// Makes `parent` the parent of `role`; only the super admin may, and
    /// not when `role` is `parent` or an ancestor of it.
    pub fn set_role_parent(&mut self, caller: AccountId, role: RoleId, parent: RoleId) -> (r: Result<AccessEvent, AccessError>)
        requires
            old(self).wf(),
        ensures
            final(self).wf(),
            match spec_require_super_admin(old(self).state(), caller) {
                Err(e) => r == Err::<AccessEvent, AccessError>(e) && final(self).state() == old(self).state(),
                Ok(_) => if role == parent || spec_is_ancestor_from(old(self).state(), parent, role, 0) {
                    r == Err::<AccessEvent, AccessError>(AccessError::HierarchyCycle) && final(self).state() == old(self).state()
                } else {
                    r == Ok::<AccessEvent, AccessError>(AccessEvent::RoleParentSet { role, parent })
                        && final(self).state() == (AccessState {
                            role_parents: old(self).state().role_parents.insert(role, parent),
                            ..old(self).state()
                        })
                },
            },
    {
        match self.require_super_admin(caller) {
            Err(e) => return Err(e),
            Ok(()) => {},
        }
        if role == parent || self.is_ancestor(parent, role) {
            return Err(AccessError::HierarchyCycle);
        }
        self.role_parents.set(role, parent);
        Ok(AccessEvent::RoleParentSet { role, parent })
    }

    /// Removes the parent of `role`; only the super admin may.
    pub fn remove_role_parent(&mut self, caller: AccountId, role: RoleId) -> (r: Result<AccessEvent, AccessError>)
        requires
            old(self).wf(),
        ensures
            final(self).wf(),
            match spec_require_super_admin(old(self).state(), caller) {
                Err(e) => r == Err::<AccessEvent, AccessError>(e) && final(self).state() == old(self).state(),
                Ok(_) => r == Ok::<AccessEvent, AccessError>(AccessEvent::RoleParentRemoved { role })
                    && final(self).state() == (AccessState {
                        role_parents: old(self).state().role_parents.remove(role),
                        ..old(self).state()
                    }),
            },
    {
        match self.require_super_admin(caller) {
            Err(e) => return Err(e),
            Ok(()) => {},
        }
        self.role_parents.remove(&role);
        Ok(AccessEvent::RoleParentRemoved { role })
    }

    /// The parent of `role`.
    pub fn get_role_parent(&self, role: RoleId) -> (r: Option<RoleId>)
        requires
            self.wf(),
        ensures
            r == (if self.state().role_parents.contains_key(role) {
                Some(self.state().role_parents[role])
            } else {
                None
            }),
    {
        match self.role_parents.get(&role) {
            Some(p) => Some(*p),
            None => None,
        }
    }

    /// Blacklists `target` with an optional reason and expiry; only the
    /// super admin may, and never against the super admin.
    pub fn blacklist(&mut self, caller: AccountId, target: AccountId, reason: Option<u64>, expires_at: Option<u64>) -> (r: Result<AccessEvent, AccessError>)
        requires
            old(self).wf(),
        ensures
            final(self).wf(),
            match spec_require_super_admin(old(self).state(), caller) {
                Err(e) => r == Err::<AccessEvent, AccessError>(e) && final(self).state() == old(self).state(),
                Ok(_) => if old(self).state().super_admin == Some(target) {
                    r == Err::<AccessEvent, AccessError>(AccessError::CannotBlacklistAdmin) && final(self).state() == old(self).state()
                } else {
                    r == Ok::<AccessEvent, AccessError>(AccessEvent::AddressBlacklisted { target, reason, expires_at })
                        && final(self).state() == (AccessState {
                            blacklist: old(self).state().blacklist.insert(target, BlacklistEntry { reason, expires_at }),
                            ..old(self).state()
                        })
                },
            },
    {
        match self.require_super_admin(caller) {
            Err(e) => return Err(e),
            Ok(()) => {},
        }
        if self.super_admin == Some(target) {
            return Err(AccessError::CannotBlacklistAdmin);
        }
        self.blacklist.set(target, BlacklistEntry { reason, expires_at });
        Ok(AccessEvent::AddressBlacklisted { target, reason, expires_at })
    }

    /// Lifts the blacklisting of `target`; only the super admin may.
    pub fn unblacklist(&mut self, caller: AccountId, target: AccountId) -> (r: Result<AccessEvent, AccessError>)
        requires
            old(self).wf(),
        ensures
            final(self).wf(),
            match spec_require_super_admin(old(self).state(), caller) {
                Err(e) => r == Err::<AccessEvent, AccessError>(e) && final(self).state() == old(self).state(),
                Ok(_) => r == Ok::<AccessEvent, AccessError>(AccessEvent::AddressUnblacklisted { target })
                    && final(self).state() == (AccessState {
                        blacklist: old(self).state().blacklist.remove(target),
                        ..old(self).state()
                    }),
            },
    {
        match self.require_super_admin(caller) {
            Err(e) => return Err(e),
            Ok(()) => {},
        }
        self.blacklist.remove(&target);
        Ok(AccessEvent::AddressUnblacklisted { target })
    }

    /// The members of `role` whose grant is in force at `now`, in the order
    /// they joined, skipping `offset` of them and at most `limit`.
    pub fn get_role_members(&self, role: RoleId, offset: u32, limit: u32, now: u64) -> (r: Vec<AccountId>)
        requires
            self.wf(),
            members_of(self.state(), role).len() <= u32::MAX,
        ensures
            r@ == page(active_members(self.state(), role, members_of(self.state(), role), now), offset as nat, limit as nat),
    {
        let mut out: Vec<AccountId> = Vec::new();
        if limit == 0 {
            return out;
        }
        let list: Vec<AccountId> = match self.members.get(&role) {
            Some(v) => v.clone(),
            None => Vec::new(),
        };
        let ghost full = list@;
        assert(full == members_of(self.state(), role));
        let total = list.len();
        let mut seen: u32 = 0;
        let mut i: usize = 0;
        while i < total && out.len() < limit as usize
            invariant
                self.wf(),
                list@ == full,
                total == full.len(),
                total <= u32::MAX,
                i <= total,
                limit > 0,
                out@.len() <= limit,
                seen == active_members(self.state(), role, full.take(i as int), now).len(),
                seen <= i,
                out@ == page(active_members(self.state(), role, full.take(i as int), now), offset as nat, limit as nat),
            decreases total - i,
        {
            let member = list[i];
            let ghost before = active_members(self.state(), role, full.take(i as int), now);
            assert(full.take(i + 1).drop_last() == full.take(i as int));
            assert(full.take(i + 1).last() == member);
            if self.direct_active(role, member, now) {
                if seen >= offset {
                    out.push(member);
                }
                seen = seen + 1;
            }
            i = i + 1;
            proof {
                let after = active_members(self.state(), role, full.take(i as int), now);
                if after.len() > before.len() {
                    assert(after == before.push(member));
                    if before.len() >= offset {
                        assert(before.len() < offset + limit);
                        assert(after.subrange(offset as int, after.len() as int) == before.subrange(offset as int, before.len() as int).push(member));
                    }
                }
            }
        }
        proof {
            let act_i = active_members(self.state(), role, full.take(i as int), now);
            lemma_active_members_prefix(self.state(), role, full, i as int, now);
            assert(full.take(full.len() as int) == full);
            let act = active_members(self.state(), role, full, now);
            if i < total {
                assert(out@.len() == limit);
                assert(act_i.len() >= offset + limit);
                assert(act_i.subrange(offset as int, offset + limit) == act.subrange(offset as int, offset + limit));
            }
        }
        out
    }

    /// The roles `account` holds directly at `now`, in the order they were
    /// granted.
    pub fn get_roles_for_address(&self, account: AccountId, now: u64) -> (r: Vec<RoleId>)
        requires
            self.wf(),
        ensures
            r@ == active_roles(self.state(), account, roles_of(self.state(), account), now),
    {
        let list: Vec<RoleId> = match self.address_roles.get(&account) {
            Some(v) => v.clone(),
            None => Vec::new(),
        };
        let ghost full = list@;
        assert(full == roles_of(self.state(), account));
        let mut out: Vec<RoleId> = Vec::new();
        for i in 0..list.len()
            invariant
                self.wf(),
                list@ == full,
                out@ == active_roles(self.state(), account, full.take(i as int), now),
        {
            let role = list[i];
            assert(full.take(i + 1).drop_last() == full.take(i as int));
            if self.direct_active(role, account, now) {
                out.push(role);
            }
        }
        assert(full.take(full.len() as int) == full);
        out
    }

    /// Grants `role` to each of `accounts`, reporting each result; the
    /// caller must manage the role.
    pub fn grant_role_batch(&mut self, caller: AccountId, role: RoleId, accounts: &Vec<AccountId>, expires_at: Option<u64>, now: u64) -> (r: Result<(Vec<Result<(), AccessError>>, Vec<AccessEvent>), AccessError>)
        requires
            old(self).wf(),
            members_of(old(self).state(), role).len() + accounts@.len() < u32::MAX,
        ensures
            final(self).wf(),
            match spec_require_role_manager(old(self).state(), caller, role, now) {
                Err(e) => r == Err::<(Vec<Result<(), AccessError>>, Vec<AccessEvent>), AccessError>(e) && final(self).state() == old(self).state(),
                Ok(_) => {
                    let (after, results, events) = spec_grant_batch(spec_clean(old(self).state(), caller, now), role, accounts@, expires_at, now);
                    &&& r matches Ok((rs, evs))
                    &&& rs@ == results
                    &&& evs@ == events
                    &&& final(self).state() == after
                },
            },
    {
        match self.require_role_manager(caller, role, now) {
            Err(e) => return Err(e),
            Ok(()) => {},
        }
        self.clean(caller, now);
        let ghost start = self.state();
        let mut results: Vec<Result<(), AccessError>> = Vec::new();
        let mut events: Vec<AccessEvent> = Vec::new();
        for i in 0..accounts.len()
            invariant
                self.wf(),
                ({
                    let (st, rs, evs) = spec_grant_batch(start, role, accounts@.take(i as int), expires_at, now);
                    &&& self.state() == st
                    &&& results@ == rs
                    &&& events@ == evs
                }),
                members_of(start, role).len() + accounts@.len() < u32::MAX,
                members_of(self.state(), role).len() <= members_of(start, role).len() + i,
        {
            assert(accounts@.take(i + 1).drop_last() == accounts@.take(i as int));
            let a = accounts[i];
            proof {
                lemma_grant_grows_members_by_one(self.state(), role, a, expires_at, now);
            }
            match self.grant_role_internal(role, a, expires_at, now) {
                Ok(ev) => {
                    results.push(Ok(()));
                    events.push(ev);
                },
                Err(e) => {
                    results.push(Err(e));
                },
            }
        }
        assert(accounts@.take(accounts@.len() as int) == accounts@);
        Ok((results, events))
    }

    /// Revokes `role` from each of `accounts`, reporting each result; the
    /// caller must manage the role.
    pub fn revoke_role_batch(&mut self, caller: AccountId, role: RoleId, accounts: &Vec<AccountId>, now: u64) -> (r: Result<(Vec<Result<(), AccessError>>, Vec<AccessEvent>), AccessError>)
        requires
            old(self).wf(),
        ensures
            final(self).wf(),
            match spec_require_role_manager(old(self).state(), caller, role, now) {
                Err(e) => r == Err::<(Vec<Result<(), AccessError>>, Vec<AccessEvent>), AccessError>(e) && final(self).state() == old(self).state(),
                Ok(_) => {
                    let (after, results, events) = spec_revoke_batch(spec_clean(old(self).state(), caller, now), role, accounts@);
                    &&& r matches Ok((rs, evs))
                    &&& rs@ == results
                    &&& evs@ == events
                    &&& final(self).state() == after
                },
            },
    {
        match self.require_role_manager(caller, role, now) {
            Err(e) => return Err(e),
            Ok(()) => {},
        }
        self.clean(caller, now);
        let ghost start = self.state();
        let mut results: Vec<Result<(), AccessError>> = Vec::new();
        let mut events: Vec<AccessEvent> = Vec::new();
        for i in 0..accounts.len()
            invariant
                self.wf(),
                ({
                    let (st, rs, evs) = spec_revoke_batch(start, role, accounts@.take(i as int));
                    &&& self.state() == st
                    &&& results@ == rs
                    &&& events@ == evs
                }),
        {
            assert(accounts@.take(i + 1).drop_last() == accounts@.take(i as int));
            let a = accounts[i];
            match self.revoke_role_internal(role, a) {
                Ok(ev) => {
                    results.push(Ok(()));
                    events.push(ev);
                },
                Err(e) => {
                    results.push(Err(e));
                },
            }
        }
        assert(accounts@.take(accounts@.len() as int) == accounts@);
        Ok((results, events))
    }

    /// Revokes `role` from each of `accounts`; the caller must manage the
    /// role, and the call fails as a whole, changing nothing, unless every
    /// account holds a grant when its turn comes.
    pub fn bulk_revoke_role(&mut self, caller: AccountId, role: RoleId, accounts: &Vec<AccountId>, now: u64) -> (r: Result<Vec<AccessEvent>, AccessError>)
        requires
            old(self).wf(),
        ensures
            final(self).wf(),
            match spec_require_role_manager(old(self).state(), caller, role, now) {
                Err(e) => r == Err::<Vec<AccessEvent>, AccessError>(e) && final(self).state() == old(self).state(),
                Ok(_) => {
                    let (after, results, events) = spec_revoke_batch(spec_clean(old(self).state(), caller, now), role, accounts@);
                    if all_ok(results) {
                        r matches Ok(evs) && evs@ == events && final(self).state() == after
                    } else {
                        r == Err::<Vec<AccessEvent>, AccessError>(AccessError::RoleNotFound) && final(self).state() == old(self).state()
                    }
                },
            },
    {
        match self.require_role_manager(caller, role, now) {
            Err(e) => return Err(e),
            Ok(()) => {},
        }
        let n = accounts.len();
        let mut ok = true;
        let mut i: usize = 0;
        while i < n
            invariant
                self.wf(),
                n == accounts@.len(),
                i <= n,
                ok == ((forall|j: int| 0 <= j < i ==> self.state().grants.contains_key(GrantKey { role, account: #[trigger] accounts@[j] }))
                    && accounts@.take(i as int).no_duplicates()),
            decreases n - i,
        {
            let a = accounts[i];
            let held = self.grants.contains(&GrantKey { role, account: a });
            let mut repeated = false;
            for j in 0..i
                invariant
                    i < n,
                    n == accounts@.len(),
                    a == accounts@[i as int],
                    repeated == (exists|m: int| 0 <= m < j && accounts@[m] == a),
            {
                if accounts[j] == a {
                    repeated = true;
                }
            }
            proof {
                let t = accounts@.take(i as int);
                let t1 = accounts@.take(i + 1);
                assert(t1 == t.push(a));
                if t1.no_duplicates() {
                    assert forall|m: int| 0 <= m < i implies accounts@[m] != a by {
                        assert(t1[m] == accounts@[m] && t1[i as int] == a);
                    }
                    assert(t.no_duplicates()) by {
                        assert forall|x: int, y: int| 0 <= x < t.len() && 0 <= y < t.len() && x != y implies t[x] != t[y] by {
                            assert(t1[x] == t[x] && t1[y] == t[y]);
                        }
                    }
                }
                if t.no_duplicates() && !repeated {
                    assert forall|x: int, y: int| 0 <= x < t1.len() && 0 <= y < t1.len() && x != y implies t1[x] != t1[y] by {
                        if x < i && y < i {
                            assert(t1[x] == t[x] && t1[y] == t[y]);
                        } else if x < i {
                            assert(t1[x] == accounts@[x]);
                        } else {
                            assert(t1[y] == accounts@[y]);
                        }
                    }
                }
            }
            ok = ok && held && !repeated;
            i = i + 1;
        }
        proof {
            assert(accounts@.take(n as int) == accounts@);
            lemma_revoke_batch(spec_clean(old(self).state(), caller, now), role, accounts@);
        }
        if !ok {
            return Err(AccessError::RoleNotFound);
        }
        self.clean(caller, now);
        let ghost start = self.state();
        let mut events: Vec<AccessEvent> = Vec::new();
        let ghost mut results: Seq<Result<(), AccessError>> = Seq::empty();
        for k in 0..n
            invariant
                self.wf(),
                n == accounts@.len(),
                ({
                    let (st, rs, evs) = spec_revoke_batch(start, role, accounts@.take(k as int));
                    &&& self.state() == st
                    &&& results == rs
                    &&& events@ == evs
                }),
        {
            assert(accounts@.take(k + 1).drop_last() == accounts@.take(k as int));
            let a = accounts[k];
            match self.revoke_role_internal(role, a) {
                Ok(ev) => {
                    events.push(ev);
                    proof {
                        results = results.push(Ok(()));
                    }
                },
                Err(e) => {
                    proof {
                        results = results.push(Err(e));
                    }
                },
            }
        }
        assert(accounts@.take(n as int) == accounts@);
        Ok(events)
    }
}

/// The active members of a prefix are a prefix of the active members.
pub proof fn lemma_active_members_prefix(s: AccessState, role: RoleId, list: Seq<AccountId>, i: int, now: u64)
    requires
        0 <= i <= list.len(),
    ensures
        active_members(s, role, list.take(i), now).len() <= active_members(s, role, list, now).len(),
        active_members(s, role, list, now).take(active_members(s, role, list.take(i), now).len() as int)
            == active_members(s, role, list.take(i), now),
    decreases list.len() - i,
{
    if i < list.len() {
        lemma_active_members_prefix(s, role, list, i + 1, now);
        assert(list.take(i + 1).drop_last() == list.take(i));
        let a = active_members(s, role, list.take(i), now);
        let b = active_members(s, role, list.take(i + 1), now);
        let c = active_members(s, role, list, now);
        assert(c.take(b.len() as int) == b);
        if b.len() > a.len() {
            assert(b == a.push(list[i]));
            assert(c.take(a.len() as int) == b.take(a.len() as int));
        } else {
            assert(b == a);
        }
    } else {
        assert(list.take(i) == list);
    }
}

/// A grant adds at most one member to the member list of the role.
pub proof fn lemma_grant_grows_members_by_one(s: AccessState, role: RoleId, a: AccountId, expires_at: Option<u64>, now: u64)
    ensures
        members_of(spec_grant_internal(s, role, a, expires_at, now).0, role).len() <= members_of(s, role).len() + 1,
{
}

/// A successful grant with no expiry, or one still ahead, gives the account
/// the role at once, unless it is blacklisted.
pub proof fn lemma_grant_gives_role(s: AccessState, role: RoleId, a: AccountId, expires_at: Option<u64>, now: u64)
    requires
        spec_grant_internal(s, role, a, expires_at, now).1 is Ok,
        !(expires_at matches Some(e) && now >= e),
    ensures
        spec_direct_active(spec_grant_internal(s, role, a, expires_at, now).0, role, a, now),
        spec_has_role_from(spec_grant_internal(s, role, a, expires_at, now).0, role, a, now, 0),
        !spec_blacklisted(spec_grant_internal(s, role, a, expires_at, now).0, a, now),
{
}

/// A successful revocation leaves no grant of the role to the account.
pub proof fn lemma_revoke_removes_grant(s: AccessState, role: RoleId, a: AccountId, now: u64)
    requires
        spec_revoke_internal(s, role, a).1 is Ok,
    ensures
        !spec_direct_active(spec_revoke_internal(s, role, a).0, role, a, now),
        !spec_revoke_internal(s, role, a).0.grants.contains_key(GrantKey { role, account: a }),
{
}

/// A grant whose expiry has passed is not in force, so the account may be
/// granted the role again (when it is not blacklisted).
pub proof fn lemma_expired_grant_can_be_regranted(s: AccessState, role: RoleId, a: AccountId, expires_at: Option<u64>, now: u64)
    requires
        s.grants.contains_key(GrantKey { role, account: a }),
        s.grants[GrantKey { role, account: a }] matches Some(e) && now >= e,
        !spec_blacklisted(s, a, now),
    ensures
        spec_grant_internal(s, role, a, expires_at, now).1 is Ok,
{
}

/// A blacklisted account is refused a grant.
pub proof fn lemma_blacklisted_cannot_receive_role(s: AccessState, role: RoleId, a: AccountId, expires_at: Option<u64>, now: u64)
    requires
        spec_blacklisted(s, a, now),
    ensures
        spec_grant_internal(s, role, a, expires_at, now).1 == Err::<AccessEvent, AccessError>(AccessError::Blacklisted),
{
}

/// After a successful grant expiring at `expires_at` (as `grant_role` makes
/// it, from the storage `s` cleaned of the caller's lapsed blacklist entry):
/// `get_role_expiry` reads `expires_at`; `has_role` answers `true` at once
/// when the expiry is absent or still ahead; at any later time the account
/// holds the role directly exactly while the expiry is absent or ahead; and a
/// second grant, by any manager, is refused as `AlreadyHasRole` while the
/// first is in force and succeeds once it has expired (for an account that is
/// not blacklisted then).
pub proof fn lemma_grant_expiry_governs_regrant(
    s: AccessState,
    caller: AccountId,
    role: RoleId,
    a: AccountId,
    expires_at: Option<u64>,
    now: u64,
    later: u64,
    caller2: AccountId,
    again: Option<u64>,
)
    requires
        spec_grant_internal(spec_clean(s, caller, now), role, a, expires_at, now).1 is Ok,
        !spec_blacklisted(spec_grant_internal(spec_clean(s, caller, now), role, a, expires_at, now).0, a, later),
    ensures
        ({
            let s1 = spec_grant_internal(spec_clean(s, caller, now), role, a, expires_at, now).0;
            let k = GrantKey { role, account: a };
            let lapsed = expires_at matches Some(e) && later >= e;
            &&& s1.grants.contains_key(k) && s1.grants[k] == expires_at
            &&& !(expires_at matches Some(e) && now >= e) ==> !spec_blacklisted(s1, a, now)
                && spec_has_role_from(s1, role, a, now, 0)
            &&& spec_direct_active(s1, role, a, later) == !lapsed
            &&& spec_grant_internal(spec_clean(s1, caller2, later), role, a, again, later).1 == if lapsed {
                Ok::<AccessEvent, AccessError>(AccessEvent::RoleGranted { role, account: a, expires_at: again })
            } else {
                Err::<AccessEvent, AccessError>(AccessError::AlreadyHasRole)
            }
        }),
{
    let s1 = spec_grant_internal(spec_clean(s, caller, now), role, a, expires_at, now).0;
    let s2 = spec_clean(s1, caller2, later);
    assert(s2.grants == s1.grants);
    assert(spec_blacklisted(s2, a, later) == spec_blacklisted(s1, a, later));
}

/// The role reached from `role` by following `k` parent links, if the chain
/// is that long.
pub open spec fn ancestor_at(s: AccessState, role: RoleId, k: nat) -> Option<RoleId>
    decreases k,
{
    if k == 0 {
        Some(role)
    } else if s.role_parents.contains_key(role) {
        ancestor_at(s, s.role_parents[role], (k - 1) as nat)
    } else {
        None
    }
}

/// Whether `a` holds a grant in force, at `now`, of the role `k` parent links
/// up from `role`.
pub open spec fn granted_at_link(s: AccessState, role: RoleId, a: AccountId, now: u64, k: nat) -> bool {
    match ancestor_at(s, role, k) {
        Some(p) => spec_direct_active(s, p, a, now),
        None => false,
    }
}

proof fn lemma_has_role_from_ancestor(s: AccessState, role: RoleId, a: AccountId, now: u64, d: nat, k: nat, p: RoleId)
    requires
        ancestor_at(s, role, k) == Some(p),
        d + k < MAX_HIERARCHY_DEPTH,
        spec_direct_active(s, p, a, now),
    ensures
        spec_has_role_from(s, role, a, now, d),
    decreases k,
{
    if k > 0 && !spec_direct_active(s, role, a, now) {
        lemma_has_role_from_ancestor(s, s.role_parents[role], a, now, d + 1, (k - 1) as nat, p);
    }
}

proof fn lemma_ancestor_of_has_role_from(s: AccessState, role: RoleId, a: AccountId, now: u64, d: nat)
    requires
        d < MAX_HIERARCHY_DEPTH,
        spec_has_role_from(s, role, a, now, d),
    ensures
        exists|k: nat| d + k < MAX_HIERARCHY_DEPTH && #[trigger] granted_at_link(s, role, a, now, k),
    decreases MAX_HIERARCHY_DEPTH - d,
{
    if spec_direct_active(s, role, a, now) {
        assert(ancestor_at(s, role, 0) == Some(role));
        assert(granted_at_link(s, role, a, now, 0));
    } else {
        let parent = s.role_parents[role];
        lemma_ancestor_of_has_role_from(s, parent, a, now, d + 1);
        let k = choose|k: nat| d + 1 + k < MAX_HIERARCHY_DEPTH && #[trigger] granted_at_link(s, parent, a, now, k);
        assert(ancestor_at(s, role, k + 1) == ancestor_at(s, parent, k));
        assert(granted_at_link(s, role, a, now, k + 1));
    }
}

/// Roles are inherited through parents: an account holds `role` (before the
/// blacklist is consulted) exactly when it holds a grant in force of `role`
/// itself or of an ancestor of `role` fewer than [`MAX_HIERARCHY_DEPTH`]
/// parent links up. So an account granted the grandparent of a role holds the
/// role.
pub proof fn lemma_role_is_inherited_from_ancestors(s: AccessState, role: RoleId, a: AccountId, now: u64)
    ensures
        spec_has_role_from(s, role, a, now, 0) <==> exists|k: nat| k < MAX_HIERARCHY_DEPTH
            && #[trigger] granted_at_link(s, role, a, now, k),
{
    if spec_has_role_from(s, role, a, now, 0) {
        lemma_ancestor_of_has_role_from(s, role, a, now, 0);
    }
    if exists|k: nat| k < MAX_HIERARCHY_DEPTH && #[trigger] granted_at_link(s, role, a, now, k) {
        let k = choose|k: nat| k < MAX_HIERARCHY_DEPTH && #[trigger] granted_at_link(s, role, a, now, k);
        lemma_has_role_from_ancestor(s, role, a, now, 0, k, ancestor_at(s, role, k).unwrap());
    }
}

proof fn lemma_is_ancestor_from_chain(s: AccessState, role: RoleId, ancestor: RoleId, d: nat, k: nat)
    requires
        ancestor_at(s, role, k) == Some(ancestor),
        d + k < MAX_HIERARCHY_DEPTH,
    ensures
        spec_is_ancestor_from(s, role, ancestor, d),
    decreases k,
{
    if k > 0 && role != ancestor {
        lemma_is_ancestor_from_chain(s, s.role_parents[role], ancestor, d + 1, (k - 1) as nat);
    }
}

proof fn lemma_chain_of_is_ancestor_from(s: AccessState, role: RoleId, ancestor: RoleId, d: nat)
    requires
        d < MAX_HIERARCHY_DEPTH,
        spec_is_ancestor_from(s, role, ancestor, d),
    ensures
        exists|k: nat| d + k < MAX_HIERARCHY_DEPTH && #[trigger] ancestor_at(s, role, k) == Some(ancestor),
    decreases MAX_HIERARCHY_DEPTH - d,
{
    if role == ancestor {
        assert(ancestor_at(s, role, 0) == Some(role));
    } else {
        let parent = s.role_parents[role];
        lemma_chain_of_is_ancestor_from(s, parent, ancestor, d + 1);
        let k = choose|k: nat| d + 1 + k < MAX_HIERARCHY_DEPTH && #[trigger] ancestor_at(s, parent, k) == Some(ancestor);
        assert(ancestor_at(s, role, k + 1) == ancestor_at(s, parent, k));
    }
}

/// `ancestor` counts as an ancestor of `role` exactly when following fewer
/// than [`MAX_HIERARCHY_DEPTH`] parent links from `role` reaches it (no link
/// for `role` itself).
pub proof fn lemma_ancestor_is_reachable_parent(s: AccessState, role: RoleId, ancestor: RoleId)
    ensures
        spec_is_ancestor_from(s, role, ancestor, 0) <==> exists|k: nat| k < MAX_HIERARCHY_DEPTH
            && #[trigger] ancestor_at(s, role, k) == Some(ancestor),
{
    if spec_is_ancestor_from(s, role, ancestor, 0) {
        lemma_chain_of_is_ancestor_from(s, role, ancestor, 0);
    }
    if exists|k: nat| k < MAX_HIERARCHY_DEPTH && #[trigger] ancestor_at(s, role, k) == Some(ancestor) {
        let k = choose|k: nat| k < MAX_HIERARCHY_DEPTH && #[trigger] ancestor_at(s, role, k) == Some(ancestor);
        lemma_is_ancestor_from_chain(s, role, ancestor, 0, k);
    }
}

proof fn lemma_chain_avoiding_role(s: AccessState, s2: AccessState, role: RoleId, parent: RoleId, x: RoleId, j: nat)
    requires
        s2.role_parents == s.role_parents.insert(role, parent),
        forall|i: nat| i < j ==> #[trigger] ancestor_at(s, x, i) != Some(role),
    ensures
        ancestor_at(s2, x, j) == ancestor_at(s, x, j),
    decreases j,
{
    if j > 0 {
        assert(ancestor_at(s, x, 0) != Some(role));
        if s.role_parents.contains_key(x) {
            let next = s.role_parents[x];
            assert forall|i: nat| i < (j - 1) as nat implies #[trigger] ancestor_at(s, next, i) != Some(role) by {
                assert(ancestor_at(s, x, i + 1) == ancestor_at(s, next, i));
            }
            lemma_chain_avoiding_role(s, s2, role, parent, next, (j - 1) as nat);
        }
    }
}

/// Setting a parent never closes a cycle: when `set_role_parent(role,
/// parent)` is accepted (`role` is neither `parent` nor an ancestor of it),
/// following parent links from `role` in the new hierarchy does not come
/// back to `role` within [`MAX_HIERARCHY_DEPTH`] links. And when `role` can
/// be reached from `parent` in fewer links, the request is refused.
pub proof fn lemma_set_role_parent_keeps_hierarchy_acyclic(s: AccessState, role: RoleId, parent: RoleId, k: nat)
    ensures
        k < MAX_HIERARCHY_DEPTH && ancestor_at(s, parent, k) == Some(role) ==> spec_is_ancestor_from(s, parent, role, 0),
        role != parent && !spec_is_ancestor_from(s, parent, role, 0) && 1 <= k <= MAX_HIERARCHY_DEPTH ==> ancestor_at(
            AccessState { role_parents: s.role_parents.insert(role, parent), ..s },
            role,
            k,
        ) != Some(role),
{
    lemma_ancestor_is_reachable_parent(s, parent, role);
    if role != parent && !spec_is_ancestor_from(s, parent, role, 0) && 1 <= k <= MAX_HIERARCHY_DEPTH {
        let s2 = AccessState { role_parents: s.role_parents.insert(role, parent), ..s };
        assert forall|i: nat| i < (k - 1) as nat implies #[trigger] ancestor_at(s, parent, i) != Some(role) by {
            if ancestor_at(s, parent, i) == Some(role) {
                assert(i < MAX_HIERARCHY_DEPTH);
            }
        }
        lemma_chain_avoiding_role(s, s2, role, parent, parent, (k - 1) as nat);
        assert(ancestor_at(s2, role, k) == ancestor_at(s2, parent, (k - 1) as nat));
        if ancestor_at(s, parent, (k - 1) as nat) == Some(role) {
            assert((k - 1) < MAX_HIERARCHY_DEPTH);
        }
    }
}

} // verus!
