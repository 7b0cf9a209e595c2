//! Roles and the authorization model: permission bits per role, the
//! default "everyone" role, role assignment, and the permission check
//! every privileged endpoint goes through. The owner bypasses checks;
//! everyone else gets the union of assigned role bits plus the default
//! role, with admin implying the rest.

use vstd::prelude::*;
use crate::errors::ApiError;
use crate::keyidx::{has_key, lemma_no_key, lemma_push_fresh, lemma_index_of_at};
use crate::models::{Role, UserRole};
use crate::perms::{Permissions, compute_user_permissions, effective_bits, or_fold, PERM_ALL};
use crate::state::ServerDb;
use crate::trusted::new_uuid_string;
use crate::util::str_eq;

verus! {

#[derive(Debug)]
pub struct RoleResponse {
    pub id: String,
    pub name: String,
    pub permissions: u32,
    pub color: Option<String>,
    pub position: i64,
    pub is_default: bool,
}

#[derive(Debug)]
pub struct RoleListResponse {
    pub roles: Vec<RoleResponse>,
}

pub struct CreateRoleRequest {
    pub name: String,
    pub permissions: u32,
    pub color: Option<String>,
}

pub struct UpdateRoleRequest {
    pub name: Option<String>,
    pub permissions: Option<u32>,
    pub color: Option<String>,
}

pub struct AssignRoleRequest {
    pub user_id: String,
    pub role_id: String,
}

pub struct RemoveRoleRequest {
    pub user_id: String,
    pub role_id: String,
}

#[derive(Debug)]
pub struct UserRolesResponse {
    pub roles: Vec<RoleResponse>,
}

/// The permission bits of one role id, zero when unknown.
pub open spec fn role_perm_of(roles: Seq<Role>, rid: Seq<char>) -> u32 {
    if has_key(roles.map_values(|r: Role| r.id@), rid) {
        roles[crate::keyidx::index_of(roles.map_values(|r: Role| r.id@), rid)].permissions
    } else {
        0
    }
}

/// The permission bits of the roles assigned to one user, in assignment
/// row order.
pub open spec fn assigned_bits(rows: Seq<UserRole>, roles: Seq<Role>, uid: Seq<char>) -> Seq<u32>
    decreases rows.len(),
{
    if rows.len() == 0 {
        Seq::empty()
    } else if rows.last().user_id@ == uid {
        assigned_bits(rows.drop_last(), roles, uid).push(role_perm_of(roles, rows.last().role_id@))
    } else {
        assigned_bits(rows.drop_last(), roles, uid)
    }
}

/// The bits of the default role, zero when none exists.
pub open spec fn default_bits(roles: Seq<Role>) -> u32 {
    if exists|i: int| 0 <= i < roles.len() && (#[trigger] roles[i]).is_default {
        roles[choose|i: int| 0 <= i < roles.len() && (#[trigger] roles[i]).is_default].permissions
    } else {
        0
    }
}

/// Whether a user holds a permission: the owner always; anyone else when
/// the union of assigned and default role bits, with admin implying all,
/// covers the requirement.
pub open spec fn perm_granted(db: ServerDb, uid: Seq<char>, is_owner: bool, required: u32) -> bool {
    is_owner || (effective_bits(
        (or_fold(assigned_bits(db.user_roles@, db.roles@, uid)) | default_bits(db.roles@))
            & PERM_ALL,
    ) & required) == required
}

/// Check a permission against the live role tables (not the token), so a
/// role change takes effect immediately.
pub fn require_permission(db: &ServerDb, user_id: &str, is_owner: bool, required: Permissions) -> (r:
    Result<(), ApiError>)
    requires
        db.wf(),
    ensures
        r is Ok <==> perm_granted(*db, user_id@, is_owner, required.bits),
        r matches Err(e) ==> e == ApiError::Forbidden,
{
    if is_owner {
        return Ok(());
    }
    let mut acc: u32 = 0;
    let mut i: usize = 0;
    let n = db.user_roles.len();
    proof {
        assert(db.user_roles@.take(0) =~= Seq::<UserRole>::empty());
    }
    #[verifier::loop_isolation(false)]
    while i < n
        invariant
            i <= n,
            n == db.user_roles@.len(),
            acc == or_fold(assigned_bits(db.user_roles@.take(i as int), db.roles@, user_id@)),
        decreases n - i,
    {
        proof {
            assert(db.user_roles@.take(i as int + 1).drop_last() =~= db.user_roles@.take(i as int));
            assert(db.user_roles@.take(i as int + 1).last() == db.user_roles@[i as int]);
        }
        let row = &db.user_roles[i];
        if str_eq(row.user_id.as_str(), user_id) {
            let p = role_permissions(db, row.role_id.as_str());
            proof {
                let s0 = assigned_bits(db.user_roles@.take(i as int), db.roles@, user_id@);
                let x = role_perm_of(db.roles@, db.user_roles@[i as int].role_id@);
                assert(assigned_bits(db.user_roles@.take(i as int + 1), db.roles@, user_id@)
                    == s0.push(x));
                assert(s0.push(x).drop_last() =~= s0);
                assert(or_fold(s0.push(x)) == or_fold(s0) | x);
            }
            acc = acc | p;
        }
        i = i + 1;
    }
    proof {
        assert(db.user_roles@.take(n as int) =~= db.user_roles@);
    }
    let dflt = default_role_bits(db);
    let granted = (acc | dflt) & PERM_ALL;
    let eff = Permissions::from_bits_truncate(granted).effective();
    proof {
        assert(granted & PERM_ALL == granted) by (bit_vector)
            requires granted == (acc | dflt) & 31u32;
    }
    if eff.contains(required) {
        Ok(())
    } else {
        Err(ApiError::Forbidden)
    }
}

fn role_permissions(db: &ServerDb, role_id: &str) -> (r: u32)
    requires
        db.wf(),
    ensures
        r == role_perm_of(db.roles@, role_id@),
{
    let mut i: usize = 0;
    let n = db.roles.len();
    #[verifier::loop_isolation(false)]
    while i < n
        invariant
            i <= n,
            n == db.roles@.len(),
            forall|j: int| 0 <= j < i ==> db.role_ids()[j] != role_id@,
        decreases n - i,
    {
        if str_eq(db.roles[i].id.as_str(), role_id) {
            proof {
                assert(db.role_ids()[i as int] == role_id@);
                lemma_index_of_at(db.role_ids(), i as int);
                assert(db.roles@.map_values(|r: Role| r.id@) =~= db.role_ids());
            }
            return db.roles[i].permissions;
        }
        i = i + 1;
    }
    proof {
        lemma_no_key(db.role_ids(), role_id@);
        assert(db.roles@.map_values(|r: Role| r.id@) =~= db.role_ids());
    }
    0
}

fn default_role_bits(db: &ServerDb) -> (r: u32)
    requires
        db.wf(),
    ensures
        r == default_bits(db.roles@),
{
    let mut i: usize = 0;
    let n = db.roles.len();
    #[verifier::loop_isolation(false)]
    while i < n
        invariant
            i <= n,
            n == db.roles@.len(),
            forall|j: int| 0 <= j < i ==> !(#[trigger] db.roles@[j]).is_default,
        decreases n - i,
    {
        if db.roles[i].is_default {
            proof {
                let w = choose|w: int| 0 <= w < db.roles@.len() && (#[trigger] db.roles@[w]).is_default;
                if w != i as int {
                    if w < i as int {
                        assert(!db.roles@[w].is_default);
                    } else {
                        assert(!(db.roles@[i as int].is_default && db.roles@[w].is_default));
                    }
                }
            }
            return db.roles[i].permissions;
        }
        i = i + 1;
    }
    0
}

/// Create a role with a fresh id; non-default, placed at the end.
pub fn create_role(db: &mut ServerDb, req: &CreateRoleRequest, now: i64) -> (r: Result<
    RoleResponse,
    ApiError,
>)
    requires
        old(db).wf(),
    ensures
        final(db).wf(),
        r matches Err(_) ==> *final(db) == *old(db),
        r is Ok || r == Err::<RoleResponse, ApiError>(ApiError::Internal),
        r matches Ok(out) ==> {
            &&& final(db).roles@.len() == old(db).roles@.len() + 1
            &&& final(db).roles@.last().name@ == req.name@
            &&& final(db).roles@.last().permissions == req.permissions
            &&& !final(db).roles@.last().is_default
            &&& out.id@ == final(db).roles@.last().id@
            &&& out.permissions == req.permissions
        },
        final(db).users@ == old(db).users@,
        final(db).user_roles@ == old(db).user_roles@,
        final(db).refresh_tokens@ == old(db).refresh_tokens@,
        final(db).rotation_records@ == old(db).rotation_records@,
        final(db).bans@ == old(db).bans@,
        final(db).messages@ == old(db).messages@,
{
    let ghost db0 = *db;
    let id = new_uuid_string();
    let mut i: usize = 0;
    let n = db.roles.len();
    #[verifier::loop_isolation(false)]
    while i < n
        invariant
            *db == db0,
            n == db.roles@.len(),
            i <= n,
            forall|j: int| 0 <= j < i ==> db0.role_ids()[j] != id@,
        decreases n - i,
    {
        if str_eq(db.roles[i].id.as_str(), id.as_str()) {
            return Err(ApiError::Internal);
        }
        i = i + 1;
    }
    proof {
        lemma_no_key(db0.role_ids(), id@);
    }
    let position = db.roles.len();
    db.roles.push(
        Role {
            id: id.clone(),
            name: req.name.clone(),
            permissions: req.permissions,
            color: crate::util::opt_string_clone(&req.color),
            position: position as i64,
            is_default: false,
            created_at: now,
            updated_at: now,
        },
    );
    proof {
        assert(db.role_ids() =~= db0.role_ids().push(id@));
        lemma_push_fresh(db0.role_ids(), id@);
        assert forall|x: int, y: int|
            0 <= x < y < db.roles@.len() implies !((#[trigger] db.roles@[x]).is_default
            && (#[trigger] db.roles@[y]).is_default) by {
            if y < db.roles@.len() - 1 {
                assert(db.roles@[x] == db0.roles@[x]);
                assert(db.roles@[y] == db0.roles@[y]);
            } else {
                assert(!db.roles@[y].is_default);
            }
        }
    }
    Ok(
        RoleResponse {
            id,
            name: req.name.clone(),
            permissions: req.permissions,
            color: crate::util::opt_string_clone(&req.color),
            position: position as i64,
            is_default: false,
        },
    )
}

/// Assign a role to a user; both must exist. Re-assigning is a no-op.
pub fn assign_role(db: &mut ServerDb, req: &AssignRoleRequest, now: i64) -> (r: Result<(), ApiError>)
    requires
        old(db).wf(),
    ensures
        final(db).wf(),
        r matches Err(_) ==> *final(db) == *old(db),
        r is Ok <==> (has_key(old(db).user_ids(), req.user_id@) && has_key(
            old(db).role_ids(),
            req.role_id@,
        )),
        r matches Err(e) ==> e == ApiError::NotFound,
        r is Ok ==> exists|i: int|
            {
                &&& 0 <= i < final(db).user_roles@.len()
                &&& (#[trigger] final(db).user_roles@[i]).user_id@ == req.user_id@
                &&& final(db).user_roles@[i].role_id@ == req.role_id@
            },
        final(db).users@ == old(db).users@,
        final(db).roles@ == old(db).roles@,
        final(db).refresh_tokens@ == old(db).refresh_tokens@,
        final(db).rotation_records@ == old(db).rotation_records@,
        final(db).bans@ == old(db).bans@,
        final(db).messages@ == old(db).messages@,
{
    let ghost db0 = *db;
    match db.user_idx_by_id(req.user_id.as_str()) {
        Some(u) => {
            proof {
                assert(db.user_ids()[u as int] == req.user_id@);
            }
        },
        None => {
            return Err(ApiError::NotFound);
        },
    }
    let mut found_role = false;
    let mut i: usize = 0;
    let n = db.roles.len();
    #[verifier::loop_isolation(false)]
    while i < n
        invariant
            *db == db0,
            n == db.roles@.len(),
            i <= n,
            found_role <==> exists|j: int| 0 <= j < i && db0.role_ids()[j] == req.role_id@,
        decreases n - i,
    {
        if str_eq(db.roles[i].id.as_str(), req.role_id.as_str()) {
            proof {
                assert(db0.role_ids()[i as int] == req.role_id@);
            }
            found_role = true;
        }
        i = i + 1;
    }
    if !found_role {
        return Err(ApiError::NotFound);
    }
    let mut k: usize = 0;
    let m = db.user_roles.len();
    #[verifier::loop_isolation(false)]
    while k < m
        invariant
            *db == db0,
            m == db.user_roles@.len(),
            k <= m,
        decreases m - k,
    {
        let row = &db.user_roles[k];
        if str_eq(row.user_id.as_str(), req.user_id.as_str()) && str_eq(
            row.role_id.as_str(),
            req.role_id.as_str(),
        ) {
            proof {
                assert(db.user_roles@[k as int].user_id@ == req.user_id@);
            }
            return Ok(());
        }
        k = k + 1;
    }
    db.user_roles.push(
        UserRole { user_id: req.user_id.clone(), role_id: req.role_id.clone(), assigned_at: now },
    );
    proof {
        assert(db.user_roles@.last().user_id@ == req.user_id@);
    }
    Ok(())
}

/// Remove one role assignment from a user.
pub fn remove_role(db: &mut ServerDb, req: &RemoveRoleRequest) -> (r: Result<(), ApiError>)
    requires
        old(db).wf(),
    ensures
        final(db).wf(),
        r matches Err(_) ==> *final(db) == *old(db),
        r is Ok <==> exists|j: int|
            0 <= j < old(db).user_roles@.len() && (#[trigger] old(db).user_roles@[j]).user_id@
                == req.user_id@ && old(db).user_roles@[j].role_id@ == req.role_id@,
        r matches Err(e) ==> e == ApiError::NotFound,
        r is Ok ==> exists|j: int|
            {
                &&& 0 <= j < old(db).user_roles@.len()
                &&& (#[trigger] old(db).user_roles@[j]).user_id@ == req.user_id@
                &&& old(db).user_roles@[j].role_id@ == req.role_id@
                &&& final(db).user_roles@ == old(db).user_roles@.remove(j)
            },
        final(db).users@ == old(db).users@,
        final(db).roles@ == old(db).roles@,
        final(db).refresh_tokens@ == old(db).refresh_tokens@,
        final(db).rotation_records@ == old(db).rotation_records@,
        final(db).bans@ == old(db).bans@,
        final(db).messages@ == old(db).messages@,
{
    let ghost db0 = *db;
    let mut k: usize = 0;
    let m = db.user_roles.len();
    #[verifier::loop_isolation(false)]
    while k < m
        invariant
            *db == db0,
            m == db.user_roles@.len(),
            k <= m,
            forall|j: int|
                0 <= j < k ==> !((#[trigger] db.user_roles@[j]).user_id@ == req.user_id@
                    && db.user_roles@[j].role_id@ == req.role_id@),
        decreases m - k,
    {
        let row = &db.user_roles[k];
        if str_eq(row.user_id.as_str(), req.user_id.as_str()) && str_eq(
            row.role_id.as_str(),
            req.role_id.as_str(),
        ) {
            proof {
                assert(db0.user_roles@[k as int].user_id@ == req.user_id@);
            }
            db.user_roles.remove(k);
            return Ok(());
        }
        k = k + 1;
    }
    Err(ApiError::NotFound)
}

/// Update a role's name, permission bits or color; absent fields stay.
/// Success is owed exactly when the role exists.
pub fn update_role(db: &mut ServerDb, role_id: &str, req: &UpdateRoleRequest, now: i64) -> (r: Result<
    (),
    ApiError,
>)
    requires
        old(db).wf(),
    ensures
        final(db).wf(),
        r matches Err(e) ==> e == ApiError::NotFound && *final(db) == *old(db),
        r is Ok <==> has_key(old(db).role_ids(), role_id@),
        r is Ok ==> exists|i: int|
            {
                &&& 0 <= i < old(db).roles@.len()
                &&& (#[trigger] old(db).roles@[i]).id@ == role_id@
                &&& final(db).roles@.len() == old(db).roles@.len()
                &&& final(db).roles@[i].id@ == role_id@
                &&& final(db).roles@[i].name@ == (match req.name {
                    Some(t) => t@,
                    None => old(db).roles@[i].name@,
                })
                &&& final(db).roles@[i].permissions == (match req.permissions {
                    Some(p) => p,
                    None => old(db).roles@[i].permissions,
                })
                &&& final(db).roles@[i].is_default == old(db).roles@[i].is_default
                &&& forall|j: int|
                    0 <= j < old(db).roles@.len() && j != i ==> final(db).roles@[j] == old(db).roles@[j]
            },
        final(db).users@ == old(db).users@,
        final(db).user_roles@ == old(db).user_roles@,
        final(db).refresh_tokens@ == old(db).refresh_tokens@,
        final(db).rotation_records@ == old(db).rotation_records@,
        final(db).bans@ == old(db).bans@,
        final(db).messages@ == old(db).messages@,
{
    let ghost db0 = *db;
    let mut i: usize = 0;
    let n = db.roles.len();
    #[verifier::loop_isolation(false)]
    while i < n
        invariant
            *db == db0,
            n == db.roles@.len(),
            i <= n,
            forall|j: int| 0 <= j < i ==> db0.role_ids()[j] != role_id@,
        decreases n - i,
    {
        if str_eq(db.roles[i].id.as_str(), role_id) {
            let role = &db.roles[i];
            let name = match &req.name {
                Some(t) => t.clone(),
                None => role.name.clone(),
            };
            let permissions = match req.permissions {
                Some(p) => p,
                None => role.permissions,
            };
            let color = match &req.color {
                Some(t) => Some(t.clone()),
                None => crate::util::opt_string_clone(&role.color),
            };
            let updated = Role {
                id: role.id.clone(),
                name,
                permissions,
                color,
                position: role.position,
                is_default: role.is_default,
                created_at: role.created_at,
                updated_at: now,
            };
            db.roles.set(i, updated);
            proof {
                assert(db.role_ids() =~= db0.role_ids());
                assert(db0.role_ids()[i as int] == role_id@);
                assert forall|x: int, y: int|
                    0 <= x < y < db.roles@.len() implies !((#[trigger] db.roles@[x]).is_default
                    && (#[trigger] db.roles@[y]).is_default) by {
                    assert(db.roles@[x].is_default == db0.roles@[x].is_default);
                    assert(db.roles@[y].is_default == db0.roles@[y].is_default);
                }
            }
            return Ok(());
        }
        i = i + 1;
    }
    proof {
        lemma_no_key(db0.role_ids(), role_id@);
    }
    Err(ApiError::NotFound)
}

/// Delete a role and every assignment of it; the default role cannot be
/// deleted. Success is owed exactly when a non-default role with this id
/// exists.
pub fn delete_role(db: &mut ServerDb, role_id: &str) -> (r: Result<(), ApiError>)
    requires
        old(db).wf(),
    ensures
        final(db).wf(),
        r matches Err(_) ==> *final(db) == *old(db),
        ({
            let target = has_key(old(db).role_ids(), role_id@);
            let dflt = target && old(db).roles@[crate::keyidx::index_of(
                old(db).role_ids(),
                role_id@,
            )].is_default;
            &&& (r is Ok <==> (target && !dflt))
            &&& (!target ==> r == Err::<(), ApiError>(ApiError::NotFound))
            &&& (dflt ==> r == Err::<(), ApiError>(ApiError::BadRequest))
        }),
        !has_key(final(db).role_ids(), role_id@) || r is Err,
        r is Ok ==> forall|j: int|
            0 <= j < final(db).user_roles@.len() ==> (#[trigger] final(db).user_roles@[j]).role_id@
                != role_id@,
        final(db).users@ == old(db).users@,
        final(db).refresh_tokens@ == old(db).refresh_tokens@,
        final(db).rotation_records@ == old(db).rotation_records@,
        final(db).bans@ == old(db).bans@,
        final(db).messages@ == old(db).messages@,
{
    let ghost db0 = *db;
    let mut i: usize = 0;
    let n = db.roles.len();
    #[verifier::loop_isolation(false)]
    while i < n
        invariant
            *db == db0,
            n == db.roles@.len(),
            i <= n,
            forall|j: int| 0 <= j < i ==> db0.role_ids()[j] != role_id@,
        decreases n - i,
    {
        if str_eq(db.roles[i].id.as_str(), role_id) {
            proof {
                assert(db0.role_ids()[i as int] == role_id@);
                lemma_index_of_at(db0.role_ids(), i as int);
            }
            if db.roles[i].is_default {
                return Err(ApiError::BadRequest);
            }
            db.roles.remove(i);
            proof {
                assert(db.role_ids() =~= db0.role_ids().remove(i as int));
                crate::keyidx::lemma_remove_at(db0.role_ids(), i as int);
                assert forall|x: int, y: int|
                    0 <= x < y < db.roles@.len() implies !((#[trigger] db.roles@[x]).is_default
                    && (#[trigger] db.roles@[y]).is_default) by {
                    let x0 = if x < i as int { x } else { x + 1 };
                    let y0 = if y < i as int { y } else { y + 1 };
                    assert(db.roles@[x] == db0.roles@[x0]);
                    assert(db.roles@[y] == db0.roles@[y0]);
                }
            }
            // drop every assignment of the deleted role
            let mut kept: Vec<UserRole> = Vec::new();
            let mut k: usize = 0;
            let ghost mid = *db;
            let m = db.user_roles.len();
            #[verifier::loop_isolation(false)]
            while k < m
                invariant
                    *db == mid,
                    m == db.user_roles@.len(),
                    k <= m,
                    forall|j: int|
                        0 <= j < kept@.len() ==> (#[trigger] kept@[j]).role_id@ != role_id@,
                decreases m - k,
            {
                let row = &db.user_roles[k];
                if !str_eq(row.role_id.as_str(), role_id) {
                    kept.push(
                        UserRole {
                            user_id: row.user_id.clone(),
                            role_id: row.role_id.clone(),
                            assigned_at: row.assigned_at,
                        },
                    );
                }
                k = k + 1;
            }
            db.user_roles = kept;
            return Ok(());
        }
        i = i + 1;
    }
    proof {
        lemma_no_key(db0.role_ids(), role_id@);
    }
    Err(ApiError::NotFound)
}

/// Every role, in row order.
pub fn list_roles(db: &ServerDb) -> (r: RoleListResponse)
    ensures
        r.roles@.len() == db.roles@.len(),
        forall|i: int|
            0 <= i < r.roles@.len() ==> {
                &&& (#[trigger] r.roles@[i]).id@ == db.roles@[i].id@
                &&& r.roles@[i].permissions == db.roles@[i].permissions
                &&& r.roles@[i].is_default == db.roles@[i].is_default
                &&& r.roles@[i].name@ == db.roles@[i].name@
            },
{
    let mut out: Vec<RoleResponse> = Vec::new();
    let mut i: usize = 0;
    let n = db.roles.len();
    #[verifier::loop_isolation(false)]
    while i < n
        invariant
            n == db.roles@.len(),
            i <= n,
            out@.len() == i,
            forall|j: int|
                0 <= j < i ==> {
                    &&& (#[trigger] out@[j]).id@ == db.roles@[j].id@
                    &&& out@[j].permissions == db.roles@[j].permissions
                    &&& out@[j].is_default == db.roles@[j].is_default
                    &&& out@[j].name@ == db.roles@[j].name@
                },
        decreases n - i,
    {
        let role = &db.roles[i];
        out.push(
            RoleResponse {
                id: role.id.clone(),
                name: role.name.clone(),
                permissions: role.permissions,
                color: crate::util::opt_string_clone(&role.color),
                position: role.position,
                is_default: role.is_default,
            },
        );
        i = i + 1;
    }
    RoleListResponse { roles: out }
}

/// The roles a user holds: every assigned role plus the default one.
pub fn get_user_roles(db: &ServerDb, user_id: &str) -> (r: UserRolesResponse)
    requires
        db.wf(),
{
    let mut out: Vec<RoleResponse> = Vec::new();
    let mut i: usize = 0;
    let n = db.roles.len();
    #[verifier::loop_isolation(false)]
    while i < n
        invariant
            n == db.roles@.len(),
            i <= n,
        decreases n - i,
    {
        let role = &db.roles[i];
        let mut take = role.is_default;
        let mut k: usize = 0;
        let m = db.user_roles.len();
        #[verifier::loop_isolation(false)]
        while k < m
            invariant
                m == db.user_roles@.len(),
                k <= m,
                0 <= (i as int) < db.roles@.len(),
            decreases m - k,
        {
            let row = &db.user_roles[k];
            if str_eq(row.user_id.as_str(), user_id) && str_eq(
                row.role_id.as_str(),
                db.roles[i].id.as_str(),
            ) {
                take = true;
            }
            k = k + 1;
        }
        if take {
            out.push(
                RoleResponse {
                    id: role.id.clone(),
                    name: role.name.clone(),
                    permissions: role.permissions,
                    color: crate::util::opt_string_clone(&role.color),
                    position: role.position,
                    is_default: role.is_default,
                },
            );
        }
        i = i + 1;
    }
    UserRolesResponse { roles: out }
}

} // verus!
