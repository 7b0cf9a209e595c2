//! Permission bits and their evaluation. The owner bypasses every check;
//! otherwise a user's effective permissions are the union of the bits of all
//! assigned roles, with the admin bit implying every other bit.

use vstd::prelude::*;

verus! {

pub const PERM_SEND_MESSAGES: u32 = 1;
pub const PERM_MANAGE_CHANNELS: u32 = 2;
pub const PERM_KICK_MEMBERS: u32 = 4;
pub const PERM_BAN_MEMBERS: u32 = 8;
pub const PERM_ADMIN: u32 = 16;
pub const PERM_ALL: u32 = 31;

/// A set of permission bits.
#[derive(PartialEq, Eq, Structural, Clone, Copy, Debug)]
pub struct Permissions {
    pub bits: u32,
}

/// The bits a permission set resolves to: the admin bit grants everything.
pub open spec fn effective_bits(bits: u32) -> u32 {
    if bits & PERM_ADMIN == PERM_ADMIN {
        PERM_ALL
    } else {
        bits
    }
}

impl Permissions {
    pub open spec fn spec_contains(self, required: Permissions) -> bool {
        self.bits & required.bits == required.bits
    }

    pub fn all() -> (r: Permissions)
        ensures
            r.bits == PERM_ALL,
    {
        Permissions { bits: PERM_ALL }
    }

    pub fn from_bits_truncate(bits: u32) -> (r: Permissions)
        ensures
            r.bits == bits & PERM_ALL,
    {
        Permissions { bits: bits & PERM_ALL }
    }

    pub fn contains(&self, required: Permissions) -> (r: bool)
        ensures
            r == self.spec_contains(required),
    {
        self.bits & required.bits == required.bits
    }

    /// The admin bit implies all other permissions.
    pub fn effective(self) -> (r: Permissions)
        ensures
            r.bits == effective_bits(self.bits),
    {
        if self.bits & PERM_ADMIN == PERM_ADMIN {
            Permissions { bits: PERM_ALL }
        } else {
            self
        }
    }
}

/// The union of a sequence of permission bit sets.
pub open spec fn or_fold(perms: Seq<u32>) -> u32
    decreases perms.len(),
{
    if perms.len() == 0 {
        0
    } else {
        or_fold(perms.drop_last()) | perms.last()
    }
}

/// Effective permissions of a user: everything for the owner, otherwise the
/// union of all assigned role bits with admin implying the rest.
pub fn compute_user_permissions(is_owner: bool, role_permissions: &Vec<u32>) -> (r: Permissions)
    ensures
        is_owner ==> r.bits == PERM_ALL,
        !is_owner ==> r.bits == effective_bits(or_fold(role_permissions@) & PERM_ALL),
{
    if is_owner {
        return Permissions::all();
    }
    let mut combined: u32 = 0;
    let mut i: usize = 0;
    while i < role_permissions.len()
        invariant
            i <= role_permissions@.len(),
            combined == or_fold(role_permissions@.take(i as int)),
        decreases role_permissions@.len() - i,
    {
        proof {
            assert(role_permissions@.take(i as int + 1).drop_last() =~= role_permissions@.take(
                i as int));
        }
        combined = combined | role_permissions[i];
        i = i + 1;
    }
    proof {
        assert(role_permissions@.take(role_permissions@.len() as int) =~= role_permissions@);
    }
    Permissions::from_bits_truncate(combined).effective()
}

/// An effective permission set that holds the admin bit holds every bit.
pub proof fn lemma_admin_implies_all(bits: u32, req: u32)
    requires
        req & PERM_ALL == req,
        effective_bits(bits) & PERM_ADMIN == PERM_ADMIN,
    ensures
        effective_bits(bits) & req == req,
{
    if bits & PERM_ADMIN == PERM_ADMIN {
        assert(effective_bits(bits) == PERM_ALL);
        assert(req & 31u32 == req ==> 31u32 & req == req) by (bit_vector);
    }
}

} // verus!
