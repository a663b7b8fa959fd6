//! Permission decisions over raw permission bitsets.
//!
//! The remote platform's permission set is carried as a `u64` bit mask;
//! an administrator implicitly holds every permission.

use vstd::prelude::*;

verus! {

/// The administrator bit of the remote platform's permission mask.
pub const ADMINISTRATOR_BIT: u64 = 0x8;

/// The ban-members bit.
pub const BAN_MEMBERS_BIT: u64 = 0x4;

/// The manage-messages bit.
pub const MANAGE_MESSAGES_BIT: u64 = 0x2000;

/// The moderate-members (timeout) bit.
pub const MODERATE_MEMBERS_BIT: u64 = 0x10000000000;

/// Whether a holder of `perms` may act where `required` is demanded:
/// all required bits present, or the administrator bit.
pub open spec fn spec_permission_allows(perms: u64, required: u64) -> bool {
    perms & ADMINISTRATOR_BIT == ADMINISTRATOR_BIT || perms & required == required
}

/// Check whether a permission mask meets a requirement (or holds
/// administrator, which implicitly grants everything).
pub fn permission_allows(perms: u64, required: u64) -> (r: bool)
    ensures
        r == spec_permission_allows(perms, required),
{
    perms & ADMINISTRATOR_BIT == ADMINISTRATOR_BIT || perms & required == required
}

/// The bitwise union of a sequence of permission masks.
pub open spec fn spec_union_of(masks: Seq<u64>) -> u64
    decreases masks.len(),
{
    if masks.len() == 0 {
        0u64
    } else {
        spec_union_of(masks.drop_last()) | masks.last()
    }
}

/// The union of permission masks granted by a member's roles: exactly
/// the bitwise or of all of them, so every granted bit is kept.
pub fn combine_role_permissions(role_permissions: &Vec<u64>) -> (r: u64)
    ensures
        r == spec_union_of(role_permissions@),
        forall|i: int|
            0 <= i < role_permissions@.len() ==> (r & #[trigger] role_permissions@[i])
                == role_permissions@[i],
{
    let mut resolved: u64 = 0;
    let n = role_permissions.len();
    let mut i: usize = 0;
    proof {
        assert(role_permissions@.take(0) =~= Seq::<u64>::empty());
    }
    while i < n
        invariant
            0 <= i <= n,
            n == role_permissions@.len(),
            resolved == spec_union_of(role_permissions@.take(i as int)),
            forall|j: int|
                0 <= j < i ==> (resolved & #[trigger] role_permissions@[j])
                    == role_permissions@[j],
        decreases n - i,
    {
        let p = role_permissions[i];
        let next = resolved | p;
        proof {
            assert(next & p == p) by (bit_vector)
                requires
                    next == resolved | p,
            ;
            assert forall|j: int|
                0 <= j < i implies (next & #[trigger] role_permissions@[j])
                == role_permissions@[j] by {
                let q = role_permissions@[j];
                assert(resolved & q == q ==> next & q == q) by (bit_vector)
                    requires
                        next == resolved | p,
                ;
            }
        }
        proof {
            assert(role_permissions@.take(i as int + 1).drop_last() =~= role_permissions@.take(
                i as int,
            ));
            assert(role_permissions@.take(i as int + 1).last() == role_permissions@[i as int]);
        }
        resolved = next;
        i += 1;
    }
    proof {
        assert(role_permissions@.take(n as int) =~= role_permissions@);
    }
    resolved
}

} // verus!
