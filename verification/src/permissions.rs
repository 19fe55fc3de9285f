//! The permission matrix: the static mapping from a role to the
//! (resource type, action type) pairs it may perform. Loaded once at
//! startup, immutable afterwards; an unknown role simply has no grants.

use vstd::prelude::*;

verus! {

#[derive(Clone, Copy, Debug, PartialEq, Eq, Structural)]
pub enum ResourceType {
    Application,
    Authorization,
    Profile,
    Scope,
    Secret,
}

#[allow(non_camel_case_types)]
#[derive(Clone, Copy, Debug, PartialEq, Eq, Structural)]
pub enum ActionType {
    CREATE,
    SELECT,
    UPDATE,
    DELETE,
}

/// One configured permission: a role may perform an action on a resource type.
#[derive(Clone, Copy, Debug, PartialEq, Eq, Structural)]
pub struct Grant {
    pub role_id: u64,
    pub resource: ResourceType,
    pub action: ActionType,
}

/// The static grant set, read-only at request time.
pub struct PermissionMatrix {
    grants: Vec<Grant>,
}

impl View for PermissionMatrix {
    type V = Seq<Grant>;

    closed spec fn view(&self) -> Seq<Grant> {
        self.grants@
    }
}

/// Whether the grant set holds exactly this (role, resource, action) triple.
pub open spec fn spec_contains(
    m: Seq<Grant>,
    role_id: u64,
    resource: ResourceType,
    action: ActionType,
) -> bool {
    exists|i: int|
        0 <= i < m.len() && #[trigger] m[i] == (Grant { role_id, resource, action })
}

impl PermissionMatrix {
    pub fn new() -> (r: Self)
        ensures
            r@ == Seq::<Grant>::empty(),
    {
        PermissionMatrix { grants: Vec::new() }
    }

    /// Adds one grant; used only while the matrix is built at startup.
    pub fn grant(&mut self, role_id: u64, resource: ResourceType, action: ActionType)
        ensures
            final(self)@ == old(self)@.push((Grant { role_id, resource, action })),
    {
        self.grants.push(Grant { role_id, resource, action });
    }

    /// Pure lookup: true exactly where the triple was configured. An
    /// unknown role id yields false rather than an error, since an unknown
    /// role has, by definition, no grants.
    pub fn contains(&self, role_id: u64, resource: ResourceType, action: ActionType) -> (r:
        bool)
        ensures
            r == spec_contains(self@, role_id, resource, action),
    {
        let ghost target = Grant { role_id, resource, action };
        let mut i: usize = 0;
        while i < self.grants.len()
            invariant
                i <= self.grants@.len(),
                self.grants@ == self@,
                target == (Grant { role_id, resource, action }),
                forall|j: int| 0 <= j < i ==> #[trigger] self.grants@[j] != target,
            decreases self.grants@.len() - i,
        {
            let g = self.grants[i];
            if g.role_id == role_id && g.resource == resource && g.action == action {
                return true;
            }
            i += 1;
        }
        false
    }
}

/// A role for which no grant at all is configured holds no permission: the
/// matrix denies it every (resource, action) pair.
pub proof fn lemma_ungranted_role_denied(
    m: Seq<Grant>,
    role_id: u64,
    resource: ResourceType,
    action: ActionType,
)
    requires
        forall|i: int| 0 <= i < m.len() ==> (#[trigger] m[i]).role_id != role_id,
    ensures
        !spec_contains(m, role_id, resource, action),
{
}

} // verus!
