//! Who may manage the collection: the permissions of each principal, and the guard that lets
//! one management call run at a time.
use vstd::prelude::*;

use crate::account::{copy_bytes, same_bytes};
use crate::assoc::AssocList;

verus! {

/// What a principal may do.
#[derive(Clone, Copy, Debug, PartialEq, Eq, Structural)]
pub enum Permission {
    Minting,
    UpdateMetadata,
    UpdateCollectionMetadata,
    ManageAuthorities,
    ReadUploads,
    UpdateUploads,
}

/// The position of a permission in a principal's flags.
pub open spec fn slot_of(p: Permission) -> int {
    match p {
        Permission::Minting => 0,
        Permission::UpdateMetadata => 1,
        Permission::UpdateCollectionMetadata => 2,
        Permission::ManageAuthorities => 3,
        Permission::ReadUploads => 4,
        Permission::UpdateUploads => 5,
    }
}

fn slot(p: Permission) -> (r: usize)
    ensures
        r == slot_of(p),
{
    match p {
        Permission::Minting => 0,
        Permission::UpdateMetadata => 1,
        Permission::UpdateCollectionMetadata => 2,
        Permission::ManageAuthorities => 3,
        Permission::ReadUploads => 4,
        Permission::UpdateUploads => 5,
    }
}

/// The permission at a position of the flags.
pub open spec fn permission_at(i: int) -> Permission {
    if i == 0 {
        Permission::Minting
    } else if i == 1 {
        Permission::UpdateMetadata
    } else if i == 2 {
        Permission::UpdateCollectionMetadata
    } else if i == 3 {
        Permission::ManageAuthorities
    } else if i == 4 {
        Permission::ReadUploads
    } else {
        Permission::UpdateUploads
    }
}

fn permission_of_slot(i: usize) -> (r: Permission)
    requires
        i < 6,
    ensures
        r == permission_at(i as int),
        slot_of(r) == i,
{
    if i == 0 {
        Permission::Minting
    } else if i == 1 {
        Permission::UpdateMetadata
    } else if i == 2 {
        Permission::UpdateCollectionMetadata
    } else if i == 3 {
        Permission::ManageAuthorities
    } else if i == 4 {
        Permission::ReadUploads
    } else {
        Permission::UpdateUploads
    }
}

/// The permissions whose flags are set.
pub open spec fn flagged(flags: Seq<bool>) -> Set<Permission> {
    Set::new(|p: Permission| flags[slot_of(p)])
}

/// The permissions of each principal (by the bytes of the principal): one flag per permission.
pub struct Permissions {
    pub entries: AssocList<Vec<u8>, Vec<bool>>,
}

impl View for Permissions {
    type V = Map<Seq<u8>, Set<Permission>>;

    open spec fn view(&self) -> Map<Seq<u8>, Set<Permission>> {
        self.entries@.map_values(|f: Seq<bool>| flagged(f))
    }
}

/// Whether `principal` holds `permission`.
pub open spec fn holds(m: Map<Seq<u8>, Set<Permission>>, principal: Seq<u8>, permission: Permission) -> bool {
    m.contains_key(principal) && m[principal].contains(permission)
}

impl Permissions {
    /// The entries are consistent, with six flags each.
    pub open spec fn wf(&self) -> bool {
        &&& self.entries.wf()
        &&& forall|p: Seq<u8>| #[trigger] self.entries@.contains_key(p) ==> self.entries@[p].len() == 6
    }

    /// No one holds any permission.
    pub fn new() -> (r: Permissions)
        ensures
            r.wf(),
            r@ == Map::<Seq<u8>, Set<Permission>>::empty(),
    {
        let r = Permissions { entries: AssocList::new() };
        assert(r@ =~= Map::<Seq<u8>, Set<Permission>>::empty());
        r
    }

    /// The permissions of `principal` in the order of `Permission`, where it has an entry.
    pub fn get_permissions(&self, principal: &Vec<u8>) -> (r: Option<Vec<Permission>>)
        requires
            self.wf(),
        ensures
            r is Some <==> self@.contains_key(principal@),
            r matches Some(l) ==> (forall|p: Permission| l@.contains(p) <==> self@[principal@].contains(p))
                && (forall|i: int, j: int| 0 <= i < j < l@.len() ==> slot_of(l@[i]) < slot_of(l@[j])),
    {
        match self.entries.get(principal) {
            Some(flags) => {
                let mut l: Vec<Permission> = Vec::new();
                let mut i: usize = 0;
                while i < 6
                    invariant
                        flags@.len() == 6,
                        i <= 6,
                        forall|p: Permission| l@.contains(p) <==> (slot_of(p) < i && flags@[slot_of(p)]),
                        forall|a: int, b: int| 0 <= a < b < l@.len() ==> slot_of(l@[a]) < slot_of(l@[b]),
                        forall|a: int| 0 <= a < l@.len() ==> slot_of(#[trigger] l@[a]) < i,
                    decreases 6 - i,
                {
                    if flags[i] {
                        let p = permission_of_slot(i);
                        let ghost before = l@;
                        l.push(p);
                        proof {
                            assert forall|q: Permission| l@.contains(q) <==> (slot_of(q) < i + 1 && flags@[slot_of(q)]) by {
                                if slot_of(q) == i {
                                    lemma_slot_unique(q, p);
                                    assert(l@[before.len() as int] == p);
                                }
                                if l@.contains(q) && q != p {
                                    let k = choose|k: int| 0 <= k < l@.len() && l@[k] == q;
                                    assert(before[k] == q);
                                }
                                if before.contains(q) {
                                    let k = choose|k: int| 0 <= k < before.len() && before[k] == q;
                                    assert(l@[k] == q);
                                }
                            }
                        }
                    } else {
                        proof {
                            assert forall|q: Permission| l@.contains(q) <==> (slot_of(q) < i + 1 && flags@[slot_of(q)]) by {
                                if slot_of(q) == i {
                                    if l@.contains(q) {
                                        let k = choose|k: int| 0 <= k < l@.len() && l@[k] == q;
                                    }
                                }
                            }
                        }
                    }
                    i = i + 1;
                }
                Some(l)
            },
            None => None,
        }
    }

    /// Whether `principal` holds `permission`.
    pub fn has_permission(&self, principal: &Vec<u8>, permission: Permission) -> (r: bool)
        requires
            self.wf(),
        ensures
            r == holds(self@, principal@, permission),
    {
        match self.entries.get(principal) {
            Some(flags) => flags[slot(permission)],
            None => false,
        }
    }

    /// Sets or clears the flag of `permission` for `principal`, giving it an entry where it
    /// has none.
    fn set_flag(&mut self, principal: Vec<u8>, permission: Permission, on: bool)
        requires
            old(self).wf(),
        ensures
            final(self).wf(),
            final(self)@ == old(self)@.insert(
                principal@,
                if on {
                    if old(self)@.contains_key(principal@) { old(self)@[principal@] } else { Set::empty() }.insert(permission)
                } else {
                    if old(self)@.contains_key(principal@) { old(self)@[principal@] } else { Set::empty() }.remove(permission)
                },
            ),
    {
        let mut flags: Vec<bool> = match self.entries.get(&principal) {
            Some(f) => f.clone(),
            None => {
                let mut f: Vec<bool> = Vec::new();
                let mut k: usize = 0;
                while k < 6
                    invariant
                        k <= 6,
                        f@.len() == k,
                        forall|j: int| 0 <= j < k ==> !f@[j],
                    decreases 6 - k,
                {
                    f.push(false);
                    k = k + 1;
                }
                assert(flagged(f@) =~= Set::<Permission>::empty());
                f
            },
        };
        let ghost before = flags@;
        flags.set(slot(permission), on);
        proof {
            assert forall|q: Permission| flagged(flags@).contains(q) <==> (if on { flagged(before).insert(permission) } else { flagged(before).remove(permission) }).contains(q) by {
                if q != permission {
                    lemma_slot_unique(q, permission);
                }
            }
            assert(flagged(flags@) =~= (if on { flagged(before).insert(permission) } else { flagged(before).remove(permission) }));
        }
        let ghost old_entries = self.entries@;
        self.entries.insert(principal, flags);
        proof {
            assert(self@ =~= old(self)@.insert(
                principal@,
                if on {
                    if old(self)@.contains_key(principal@) { old(self)@[principal@] } else { Set::empty() }.insert(permission)
                } else {
                    if old(self)@.contains_key(principal@) { old(self)@[principal@] } else { Set::empty() }.remove(permission)
                },
            ));
        }
    }

    /// Gives `permission` to `principal`.
    pub fn grant_permission(&mut self, principal: Vec<u8>, permission: Permission)
        requires
            old(self).wf(),
        ensures
            final(self).wf(),
            final(self)@ == old(self)@.insert(
                principal@,
                if old(self)@.contains_key(principal@) { old(self)@[principal@] } else { Set::empty() }.insert(permission),
            ),
    {
        self.set_flag(principal, permission, true);
    }

    /// Takes `permission` from `principal`, where it has an entry; its entry stays.
    pub fn revoke_permission(&mut self, principal: &Vec<u8>, permission: Permission)
        requires
            old(self).wf(),
        ensures
            final(self).wf(),
            old(self)@.contains_key(principal@) ==> final(self)@ == old(self)@.insert(
                principal@,
                old(self)@[principal@].remove(permission),
            ),
            !old(self)@.contains_key(principal@) ==> final(self)@ == old(self)@,
    {
        if self.entries.get(principal).is_some() {
            self.set_flag(copy_bytes(principal), permission, false);
        }
    }
}

/// Why a grant is refused.
#[derive(Debug)]
pub enum GrantPermissionError {
    ConcurrentManagementCall,
    DefaultError(String),
}

/// Why a revocation is refused.
#[derive(Debug)]
pub enum RevokePermissionError {
    ConcurrentManagementCall,
    DefaultError(String),
}

/// Why the permissions of a principal cannot be given.
#[derive(Debug)]
pub enum GetUserPermissionsError {
    UserNotFound,
    DefaultError(String),
}

/// Why a permission cannot be checked.
#[derive(Debug)]
pub enum HasPermissionError {
    DefaultError(String),
}

/// Gives `permission` to `principal`.
pub fn grant_permission(permissions: &mut Permissions, principal: Vec<u8>, permission: Permission) -> (r: Result<(), GrantPermissionError>)
    requires
        old(permissions).wf(),
    ensures
        final(permissions).wf(),
        r is Ok,
        final(permissions)@ == old(permissions)@.insert(
            principal@,
            if old(permissions)@.contains_key(principal@) { old(permissions)@[principal@] } else { Set::empty() }.insert(permission),
        ),
{
    permissions.grant_permission(principal, permission);
    Ok(())
}

/// Takes `permission` from `principal`.
pub fn revoke_permission(permissions: &mut Permissions, principal: &Vec<u8>, permission: Permission) -> (r: Result<(), RevokePermissionError>)
    requires
        old(permissions).wf(),
    ensures
        final(permissions).wf(),
        r is Ok,
        old(permissions)@.contains_key(principal@) ==> final(permissions)@ == old(permissions)@.insert(
            principal@,
            old(permissions)@[principal@].remove(permission),
        ),
        !old(permissions)@.contains_key(principal@) ==> final(permissions)@ == old(permissions)@,
{
    permissions.revoke_permission(principal, permission);
    Ok(())
}

/// The permissions of `principal`, in the order of `Permission`; refused for a principal with
/// no entry.
pub fn get_user_permissions(permissions: &Permissions, principal: &Vec<u8>) -> (r: Result<Vec<Permission>, GetUserPermissionsError>)
    requires
        permissions.wf(),
    ensures
        !permissions@.contains_key(principal@) ==> r matches Err(GetUserPermissionsError::UserNotFound),
        permissions@.contains_key(principal@) ==> (r matches Ok(l) && (forall|p: Permission| l@.contains(p) <==> permissions@[principal@].contains(p))
            && (forall|i: int, j: int| 0 <= i < j < l@.len() ==> slot_of(l@[i]) < slot_of(l@[j]))),
{
    match permissions.get_permissions(principal) {
        Some(l) => Ok(l),
        None => Err(GetUserPermissionsError::UserNotFound),
    }
}

/// Whether `principal` holds `permission`.
pub fn has_permission(permissions: &Permissions, principal: &Vec<u8>, permission: Permission) -> (r: Result<bool, HasPermissionError>)
    requires
        permissions.wf(),
    ensures
        r == Ok::<bool, HasPermissionError>(holds(permissions@, principal@, permission)),
{
    Ok(permissions.has_permission(principal, permission))
}

/// The message that refuses a caller without `permission`.
pub open spec fn denial(permission: Permission) -> Seq<char> {
    match permission {
        Permission::Minting => "Caller does not have minting permission"@,
        Permission::UpdateMetadata => "Caller does not have update metadata permission"@,
        Permission::UpdateCollectionMetadata => "Caller does not have update collection metadata permission"@,
        Permission::ManageAuthorities => "Caller does not have manage authorities permission"@,
        Permission::ReadUploads => "Caller does not have read uploads permission"@,
        Permission::UpdateUploads => "Caller does not have update uploads permission"@,
    }
}

/// Lets a call of `caller` through where it holds `permission`, else refuses it.
pub fn check_permission(permissions: &Permissions, caller: &Vec<u8>, permission: Permission) -> (r: Result<(), String>)
    requires
        permissions.wf(),
    ensures
        holds(permissions@, caller@, permission) ==> r is Ok,
        !holds(permissions@, caller@, permission) ==> (r matches Err(m) && m@ == denial(permission)),
{
    if permissions.has_permission(caller, permission) {
        return Ok(());
    }
    let m = match permission {
        Permission::Minting => String::from_str("Caller does not have minting permission"),
        Permission::UpdateMetadata => String::from_str("Caller does not have update metadata permission"),
        Permission::UpdateCollectionMetadata => String::from_str("Caller does not have update collection metadata permission"),
        Permission::ManageAuthorities => String::from_str("Caller does not have manage authorities permission"),
        Permission::ReadUploads => String::from_str("Caller does not have read uploads permission"),
        Permission::UpdateUploads => String::from_str("Caller does not have update uploads permission"),
    };
    proof {
        reveal_strlit("Caller does not have minting permission");
        reveal_strlit("Caller does not have update metadata permission");
        reveal_strlit("Caller does not have update collection metadata permission");
        reveal_strlit("Caller does not have manage authorities permission");
        reveal_strlit("Caller does not have read uploads permission");
        reveal_strlit("Caller does not have update uploads permission");
    }
    Err(m)
}

proof fn lemma_slot_unique(a: Permission, b: Permission)
    ensures
        slot_of(a) == slot_of(b) ==> a == b,
        0 <= slot_of(a) < 6,
{
}

/// The most management calls that may run at once.
pub const MAX_CONCURRENT: usize = 1;

/// The principals whose management calls are running, each once.
pub struct ManagementGuards {
    pub running: Vec<Vec<u8>>,
}

impl View for ManagementGuards {
    type V = Set<Seq<u8>>;

    open spec fn view(&self) -> Set<Seq<u8>> {
        self.running@.map_values(|p: Vec<u8>| p@).to_set()
    }
}

/// The message of a refused guard.
pub open spec fn busy_message() -> Seq<char> {
    "Service is already running a management query, try again shortly"@
}

impl ManagementGuards {
    /// Each principal is listed once.
    pub open spec fn wf(&self) -> bool {
        self.running@.map_values(|p: Vec<u8>| p@).no_duplicates()
    }

    /// No call running.
    pub fn new() -> (r: ManagementGuards)
        ensures
            r.wf(),
            r@ == Set::<Seq<u8>>::empty(),
            r@.len() == 0,
    {
        let r = ManagementGuards { running: Vec::new() };
        assert(r.running@.map_values(|p: Vec<u8>| p@) =~= Seq::<Seq<u8>>::empty());
        assert(r@ =~= Set::<Seq<u8>>::empty());
        r
    }

    /// The number of calls running.
    pub fn count(&self) -> (r: usize)
        requires
            self.wf(),
        ensures
            r == self@.len(),
    {
        proof {
            self.running@.map_values(|p: Vec<u8>| p@).unique_seq_to_set();
        }
        self.running.len()
    }
}

/// A running management call of one principal.
pub struct GuardManagement {
    pub principal: Vec<u8>,
}

/// The position of `principal` among the running calls.
fn running_position(guards: &ManagementGuards, principal: &Vec<u8>) -> (r: Option<usize>)
    ensures
        r is Some <==> guards@.contains(principal@),
        r matches Some(i) ==> i < guards.running@.len() && guards.running@[i as int]@ == principal@,
{
    let ghost names = guards.running@.map_values(|p: Vec<u8>| p@);
    let mut i: usize = 0;
    while i < guards.running.len()
        invariant
            i <= guards.running@.len(),
            names == guards.running@.map_values(|p: Vec<u8>| p@),
            forall|j: int| 0 <= j < i ==> names[j] != principal@,
        decreases guards.running@.len() - i,
    {
        if same_bytes(&guards.running[i], principal) {
            assert(names[i as int] == principal@);
            return Some(i);
        }
        i = i + 1;
    }
    proof {
        if names.to_set().contains(principal@) {
            let j = choose|j: int| 0 <= j < names.len() && names[j] == principal@;
        }
    }
    None
}

impl GuardManagement {
    /// Lets a management call of `principal` start, unless `MAX_CONCURRENT` calls are running
    /// already.
    pub fn new(guards: &mut ManagementGuards, principal: Vec<u8>) -> (r: Result<GuardManagement, String>)
        requires
            old(guards).wf(),
        ensures
            final(guards).wf(),
            old(guards)@.len() >= MAX_CONCURRENT ==> (r matches Err(m) && m@ == busy_message() && final(guards)@ == old(guards)@),
            old(guards)@.len() < MAX_CONCURRENT ==> (r matches Ok(g) && g.principal@ == principal@
                && final(guards)@ == old(guards)@.insert(principal@)),
    {
        if guards.count() >= MAX_CONCURRENT {
            proof {
                reveal_strlit("Service is already running a management query, try again shortly");
            }
            return Err(String::from_str("Service is already running a management query, try again shortly"));
        }
        let ghost before = guards.running@.map_values(|p: Vec<u8>| p@);
        match running_position(guards, &principal) {
            Some(_) => {
                assert(before.to_set() =~= before.to_set().insert(principal@));
            },
            None => {
                guards.running.push(copy_bytes(&principal));
                proof {
                    let after = guards.running@.map_values(|p: Vec<u8>| p@);
                    assert(after =~= before.push(principal@));
                    before.lemma_push_to_set_commute(principal@);
                    assert forall|a: int, b: int| 0 <= a < after.len() && 0 <= b < after.len() && a != b implies after[a] != after[b] by {
                        if a == before.len() as int {
                            assert(before.contains(before[b]));
                        } else if b == before.len() as int {
                            assert(before.contains(before[a]));
                        }
                    }
                }
            },
        }
        Ok(GuardManagement { principal })
    }

    /// Ends the call: its principal is no longer running one.
    pub fn release(self, guards: &mut ManagementGuards)
        requires
            old(guards).wf(),
        ensures
            final(guards).wf(),
            final(guards)@ == old(guards)@.remove(self.principal@),
    {
        let ghost before = guards.running@.map_values(|p: Vec<u8>| p@);
        match running_position(guards, &self.principal) {
            Some(i) => {
                guards.running.remove(i);
                proof {
                    let after = guards.running@.map_values(|p: Vec<u8>| p@);
                    assert(after =~= before.remove(i as int));
                    assert(before[i as int] == self.principal@);
                    assert forall|q: Seq<u8>| after.to_set().contains(q) <==> before.to_set().remove(self.principal@).contains(q) by {
                        if before.contains(q) && q != self.principal@ {
                            let j = choose|j: int| 0 <= j < before.len() && before[j] == q;
                            if j < i {
                                assert(after[j] == q);
                            } else {
                                assert(after[j - 1] == q);
                            }
                        }
                        if after.contains(q) {
                            let j = choose|j: int| 0 <= j < after.len() && after[j] == q;
                            if j < i {
                                assert(before[j] == q);
                            } else {
                                assert(before[j + 1] == q);
                            }
                            assert(before.contains(q));
                        }
                    }
                    assert(after.to_set() =~= before.to_set().remove(self.principal@));
                }
            },
            None => {
                assert(before.to_set() =~= before.to_set().remove(self.principal@));
            },
        }
    }
}

/// A granted permission is held; a revoked one is not; the others are as they were.
pub proof fn law_grant_and_revoke(m: Map<Seq<u8>, Set<Permission>>, principal: Seq<u8>, permission: Permission, other: Permission)
    requires
        other != permission,
    ensures
        ({
            let base = if m.contains_key(principal) { m[principal] } else { Set::empty() };
            let granted = m.insert(principal, base.insert(permission));
            let revoked = m.insert(principal, base.remove(permission));
            &&& holds(granted, principal, permission)
            &&& !holds(revoked, principal, permission)
            &&& holds(granted, principal, other) == holds(m, principal, other)
            &&& holds(revoked, principal, other) == holds(m, principal, other)
        }),
{
}

/// The guard never lets more than `MAX_CONCURRENT` management calls run: where that many
/// run, a new one is refused and nothing changes; else the new one joins.
pub proof fn law_guard_bound(running: Set<Seq<u8>>, principal: Seq<u8>)
    requires
        running.finite(),
        running.len() <= MAX_CONCURRENT,
    ensures
        running.len() < MAX_CONCURRENT ==> running.insert(principal).len() <= MAX_CONCURRENT,
{
    if running.len() < MAX_CONCURRENT {
        if running.contains(principal) {
            assert(running.insert(principal) =~= running);
        }
    }
}

} // verus!
