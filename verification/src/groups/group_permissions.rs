//! Who may change what in a group.

use vstd::prelude::*;

verus! {

/// Why the permissions of a group could not be had.
#[derive(Clone, Copy, Debug, PartialEq, Eq, Structural)]
pub enum GroupMutablePermissionsError {
    /// The group carries no permissions.
    MissingExtension,
}

/// The standing of a member in a group. A super admin counts as an admin
/// too.
#[derive(Clone, Copy, Debug, PartialEq, Eq, Structural)]
pub enum Role {
    Member,
    Admin,
    SuperAdmin,
}

/// Whom a rule lets through.
#[derive(Clone, Copy, Debug, PartialEq, Eq, Structural)]
pub enum Policy {
    /// Every member.
    Allow,
    /// Nobody.
    Deny,
    /// Admins and super admins.
    AllowIfAdminOrSuperAdmin,
    /// Super admins only.
    AllowIfSuperAdmin,
}

impl Policy {
    /// Whether the rule lets a member of the given role through.
    pub open spec fn permits(&self, role: Role) -> bool {
        match self {
            Policy::Allow => true,
            Policy::Deny => false,
            Policy::AllowIfAdminOrSuperAdmin => role == Role::Admin || role == Role::SuperAdmin,
            Policy::AllowIfSuperAdmin => role == Role::SuperAdmin,
        }
    }

    /// Whether the rule lets a member of the given role through.
    pub fn evaluate(&self, role: Role) -> (ok: bool)
        ensures
            ok == self.permits(role),
    {
        match self {
            Policy::Allow => true,
            Policy::Deny => false,
            Policy::AllowIfAdminOrSuperAdmin => match role {
                Role::Member => false,
                _ => true,
            },
            Policy::AllowIfSuperAdmin => match role {
                Role::SuperAdmin => true,
                _ => false,
            },
        }
    }
}

/// A change that the rules of a group speak of.
#[derive(Clone, Copy, Debug, PartialEq, Eq, Structural)]
pub enum Mutation {
    AddMember,
    RemoveMember,
    UpdateMetadata,
    AddAdmin,
    RemoveAdmin,
    AddSuperAdmin,
    RemoveSuperAdmin,
}

/// The rules of a group, one for each sort of change.
#[derive(Clone, Copy, Debug, PartialEq, Eq, Structural)]
pub struct PolicySet {
    pub add_member_policy: Policy,
    pub remove_member_policy: Policy,
    pub update_metadata_policy: Policy,
    pub add_admin_policy: Policy,
    pub remove_admin_policy: Policy,
    pub add_super_admin_policy: Policy,
    pub remove_super_admin_policy: Policy,
}

impl PolicySet {
    /// The rule for a sort of change.
    pub open spec fn rule_for(&self, mutation: Mutation) -> Policy {
        match mutation {
            Mutation::AddMember => self.add_member_policy,
            Mutation::RemoveMember => self.remove_member_policy,
            Mutation::UpdateMetadata => self.update_metadata_policy,
            Mutation::AddAdmin => self.add_admin_policy,
            Mutation::RemoveAdmin => self.remove_admin_policy,
            Mutation::AddSuperAdmin => self.add_super_admin_policy,
            Mutation::RemoveSuperAdmin => self.remove_super_admin_policy,
        }
    }

    /// Whether a member of the given role may make the change.
    pub open spec fn permits(&self, mutation: Mutation, role: Role) -> bool {
        self.rule_for(mutation).permits(role)
    }

    /// Whether a member of the given role may make the change.
    pub fn evaluate(&self, mutation: Mutation, role: Role) -> (ok: bool)
        ensures
            ok == self.permits(mutation, role),
    {
        let rule = match mutation {
            Mutation::AddMember => self.add_member_policy,
            Mutation::RemoveMember => self.remove_member_policy,
            Mutation::UpdateMetadata => self.update_metadata_policy,
            Mutation::AddAdmin => self.add_admin_policy,
            Mutation::RemoveAdmin => self.remove_admin_policy,
            Mutation::AddSuperAdmin => self.add_super_admin_policy,
            Mutation::RemoveSuperAdmin => self.remove_super_admin_policy,
        };
        rule.evaluate(role)
    }
}

/// The two sets of rules that a group can be created with.
#[derive(Clone, Copy, Debug, PartialEq, Eq, Structural)]
pub enum PreconfiguredPolicies {
    /// Every member may add members and change the metadata; removing
    /// members takes an admin.
    AllMembers,
    /// Adding and removing members and changing the metadata take an admin.
    AdminsOnly,
}

/// The rules of the preset where every member may add members. Changes to
/// the lists of admins take a super admin.
pub open spec fn all_members_policies() -> PolicySet {
    PolicySet {
        add_member_policy: Policy::Allow,
        remove_member_policy: Policy::AllowIfAdminOrSuperAdmin,
        update_metadata_policy: Policy::Allow,
        add_admin_policy: Policy::AllowIfSuperAdmin,
        remove_admin_policy: Policy::AllowIfSuperAdmin,
        add_super_admin_policy: Policy::AllowIfSuperAdmin,
        remove_super_admin_policy: Policy::AllowIfSuperAdmin,
    }
}

/// The rules of the preset where membership and metadata are for admins.
/// Changes to the lists of admins take a super admin.
pub open spec fn admins_only_policies() -> PolicySet {
    PolicySet {
        add_member_policy: Policy::AllowIfAdminOrSuperAdmin,
        remove_member_policy: Policy::AllowIfAdminOrSuperAdmin,
        update_metadata_policy: Policy::AllowIfAdminOrSuperAdmin,
        add_admin_policy: Policy::AllowIfSuperAdmin,
        remove_admin_policy: Policy::AllowIfSuperAdmin,
        add_super_admin_policy: Policy::AllowIfSuperAdmin,
        remove_super_admin_policy: Policy::AllowIfSuperAdmin,
    }
}

impl PreconfiguredPolicies {
    /// The rules that the preset stands for.
    pub open spec fn policies(&self) -> PolicySet {
        match self {
            PreconfiguredPolicies::AllMembers => all_members_policies(),
            PreconfiguredPolicies::AdminsOnly => admins_only_policies(),
        }
    }

    /// The rules that the preset stands for.
    pub fn to_policy_set(&self) -> (p: PolicySet)
        ensures
            p == self.policies(),
    {
        match self {
            PreconfiguredPolicies::AllMembers => PolicySet {
                add_member_policy: Policy::Allow,
                remove_member_policy: Policy::AllowIfAdminOrSuperAdmin,
                update_metadata_policy: Policy::Allow,
                add_admin_policy: Policy::AllowIfSuperAdmin,
                remove_admin_policy: Policy::AllowIfSuperAdmin,
                add_super_admin_policy: Policy::AllowIfSuperAdmin,
                remove_super_admin_policy: Policy::AllowIfSuperAdmin,
            },
            PreconfiguredPolicies::AdminsOnly => PolicySet {
                add_member_policy: Policy::AllowIfAdminOrSuperAdmin,
                remove_member_policy: Policy::AllowIfAdminOrSuperAdmin,
                update_metadata_policy: Policy::AllowIfAdminOrSuperAdmin,
                add_admin_policy: Policy::AllowIfSuperAdmin,
                remove_admin_policy: Policy::AllowIfSuperAdmin,
                add_super_admin_policy: Policy::AllowIfSuperAdmin,
                remove_super_admin_policy: Policy::AllowIfSuperAdmin,
            },
        }
    }
}

impl Default for PreconfiguredPolicies {
    fn default() -> (p: Self)
        ensures
            p == PreconfiguredPolicies::AllMembers,
    {
        PreconfiguredPolicies::AllMembers
    }
}

/// The permissions that a group carries.
#[derive(Clone, Copy, Debug, PartialEq, Eq, Structural)]
pub struct GroupMutablePermissions {
    pub policies: PolicySet,
}

impl GroupMutablePermissions {
    pub fn new(policies: PolicySet) -> (p: Self)
        ensures
            p.policies == policies,
    {
        GroupMutablePermissions { policies }
    }
}

} // verus!
