//! Which permission a call needs, and whether a user has it.
//!
//! Permissions in use:
//! "admin.read"             -> Read-access to the NodeAdmin Service
//! "admin.write"            -> Write-access to the NodeAdmin Service
//! "admin.logs"             -> Read-access to all logs
//! "wallet.create"          -> Create a wallet on a node
//! "wallet.{id}.sign"       -> Write.access to a wallet with {id}
//! "wallet.{id}.manage"     -> Edit.access to a wallet with {id}
//! "wallet.{id}.unlock"     -> Write.access to a wallet with {id}
//! "superadmin"             -> Access to everything
use vstd::prelude::*;

verus! {

broadcast use vstd::string::group_string_axioms;

/// Why a call was refused.
#[derive(Debug, Clone, Copy, PartialEq, Eq)]
pub enum PermissionError {
    /// "Metadata could not be found": the request was not authenticated
    MetadataMissing,
    /// "No permissions"
    NoPermissions,
}

/// The permission that grants everything.
pub open spec fn superadmin() -> Seq<char> {
    seq!['s', 'u', 'p', 'e', 'r', 'a', 'd', 'm', 'i', 'n']
}

/// The user's permissions include `p`.
pub open spec fn has_permission(permissions: Seq<String>, p: Seq<char>) -> bool {
    exists|i: int| 0 <= i < permissions.len() && (#[trigger] permissions[i])@ == p
}

/// A user with `permissions` may make a call that needs `needs`.
pub open spec fn allows(permissions: Seq<String>, needs: Seq<char>) -> bool {
    has_permission(permissions, superadmin()) || has_permission(permissions, needs)
}

/// Whether `permissions` hold `p`.
fn contains_permission(permissions: &Vec<String>, p: &str) -> (r: bool)
    ensures
        r == has_permission(permissions@, p@),
{
    let wanted = p.to_string();
    let mut i: usize = 0;
    while i < permissions.len()
        invariant
            i <= permissions@.len(),
            wanted@ == p@,
            forall|j: int| 0 <= j < i ==> (#[trigger] permissions@[j])@ != p@,
        decreases permissions@.len() - i,
    {
        if permissions[i] == wanted {
            return true;
        }
        i = i + 1;
    }
    false
}

/// Allows a call that needs the permission `needs` for the user whose
/// permissions an authenticated request carries (`None`: the request was not
/// authenticated). A superadmin may do everything.
pub fn verify_perms(permissions: Option<&Vec<String>>, needs: &str) -> (r: Result<(), PermissionError>)
    ensures
        match permissions {
            None => r == Err::<(), PermissionError>(PermissionError::MetadataMissing),
            Some(p) => {
                &&& r is Ok <==> allows(p@, needs@)
                &&& r is Err ==> r == Err::<(), PermissionError>(PermissionError::NoPermissions)
            },
        },
{
    match permissions {
        None => Err(PermissionError::MetadataMissing),
        Some(p) => {
            let admin = "superadmin";
            proof {
                reveal_strlit("superadmin");
            }
            assert(admin@ =~= superadmin());
            if contains_permission(p, admin) {
                return Ok(());
            }
            if contains_permission(p, needs) {
                return Ok(());
            }
            Err(PermissionError::NoPermissions)
        },
    }
}

/// A superadmin may make every call.
pub proof fn law_superadmin_allows_everything(permissions: Seq<String>, needs: Seq<char>)
    requires
        has_permission(permissions, superadmin()),
    ensures
        allows(permissions, needs),
{
}

/// Holding a permission allows the calls that need it; holding no
/// permission at all allows nothing.
pub proof fn law_allowed_exactly_by_held_permissions(permissions: Seq<String>, needs: Seq<char>)
    ensures
        has_permission(permissions, needs) ==> allows(permissions, needs),
        permissions.len() == 0 ==> !allows(permissions, needs),
{
}

} // verus!
