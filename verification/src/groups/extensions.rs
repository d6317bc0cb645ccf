//! What a group carries in its context: at most one extension of each
//! type.

use vstd::prelude::*;
use crate::configuration::{
    GROUP_MEMBERSHIP_EXTENSION_ID, GROUP_PERMISSIONS_EXTENSION_ID, MUTABLE_METADATA_EXTENSION_ID,
};
use crate::groups::group_membership::GroupMembership;
use crate::groups::group_metadata::{GroupMetadata, GroupMetadataView};
use crate::groups::group_mutable_metadata::{GroupMutableMetadata, MutableMetadataView};
use crate::groups::group_permissions::GroupMutablePermissions;

verus! {

/// The type of an extension.
#[derive(Clone, Copy, Debug, PartialEq, Eq, Structural)]
pub enum ExtensionType {
    ApplicationId,
    RatchetTree,
    RequiredCapabilities,
    ExternalPub,
    ExternalSenders,
    LastResort,
    ImmutableMetadata,
    Unknown(u16),
}

/// The type of a proposal.
#[derive(Clone, Copy, Debug, PartialEq, Eq, Structural)]
pub enum ProposalType {
    Add,
    Update,
    Remove,
    PreSharedKey,
    Reinit,
    ExternalInit,
    GroupContextExtensions,
    AppAck,
}

/// The type of a credential.
#[derive(Clone, Copy, Debug, PartialEq, Eq, Structural)]
pub enum CredentialType {
    Basic,
    X509,
}

/// What every member of a group has to support.
#[derive(Debug, PartialEq, Eq)]
pub struct RequiredCapabilitiesExtension {
    pub extension_types: Vec<ExtensionType>,
    pub proposal_types: Vec<ProposalType>,
    pub credential_types: Vec<CredentialType>,
}

/// The mathematical value of the required capabilities.
pub struct RequiredCapabilitiesView {
    pub extension_types: Seq<ExtensionType>,
    pub proposal_types: Seq<ProposalType>,
    pub credential_types: Seq<CredentialType>,
}

impl View for RequiredCapabilitiesExtension {
    type V = RequiredCapabilitiesView;

    open spec fn view(&self) -> RequiredCapabilitiesView {
        RequiredCapabilitiesView {
            extension_types: self.extension_types@,
            proposal_types: self.proposal_types@,
            credential_types: self.credential_types@,
        }
    }
}

/// Copies a list of extension types.
pub fn copy_extension_types(list: &Vec<ExtensionType>) -> (copy: Vec<ExtensionType>)
    ensures
        copy@ == list@,
{
    let mut copy: Vec<ExtensionType> = Vec::new();
    let mut i: usize = 0;
    while i < list.len()
        invariant
            0 <= i <= list@.len(),
            copy@ == list@.subrange(0, i as int),
        decreases list@.len() - i,
    {
        copy.push(list[i]);
        assert(list@.subrange(0, i as int).push(list@[i as int]) =~= list@.subrange(0, i + 1));
        i += 1;
    }
    assert(list@.subrange(0, list@.len() as int) =~= list@);
    copy
}

/// Copies a list of proposal types.
pub fn copy_proposal_types(list: &Vec<ProposalType>) -> (copy: Vec<ProposalType>)
    ensures
        copy@ == list@,
{
    let mut copy: Vec<ProposalType> = Vec::new();
    let mut i: usize = 0;
    while i < list.len()
        invariant
            0 <= i <= list@.len(),
            copy@ == list@.subrange(0, i as int),
        decreases list@.len() - i,
    {
        copy.push(list[i]);
        assert(list@.subrange(0, i as int).push(list@[i as int]) =~= list@.subrange(0, i + 1));
        i += 1;
    }
    assert(list@.subrange(0, list@.len() as int) =~= list@);
    copy
}

/// Copies a list of credential types.
pub fn copy_credential_types(list: &Vec<CredentialType>) -> (copy: Vec<CredentialType>)
    ensures
        copy@ == list@,
{
    let mut copy: Vec<CredentialType> = Vec::new();
    let mut i: usize = 0;
    while i < list.len()
        invariant
            0 <= i <= list@.len(),
            copy@ == list@.subrange(0, i as int),
        decreases list@.len() - i,
    {
        copy.push(list[i]);
        assert(list@.subrange(0, i as int).push(list@[i as int]) =~= list@.subrange(0, i + 1));
        i += 1;
    }
    assert(list@.subrange(0, list@.len() as int) =~= list@);
    copy
}

impl Clone for RequiredCapabilitiesExtension {
    fn clone(&self) -> (copy: Self)
        ensures
            copy@ == self@,
    {
        RequiredCapabilitiesExtension {
            extension_types: copy_extension_types(&self.extension_types),
            proposal_types: copy_proposal_types(&self.proposal_types),
            credential_types: copy_credential_types(&self.credential_types),
        }
    }
}

impl RequiredCapabilitiesExtension {
    /// The required capabilities from their parts.
    pub fn new(
        extension_types: &Vec<ExtensionType>,
        proposal_types: &Vec<ProposalType>,
        credential_types: &Vec<CredentialType>,
    ) -> (r: Self)
        ensures
            r@.extension_types == extension_types@,
            r@.proposal_types == proposal_types@,
            r@.credential_types == credential_types@,
    {
        RequiredCapabilitiesExtension {
            extension_types: copy_extension_types(extension_types),
            proposal_types: copy_proposal_types(proposal_types),
            credential_types: copy_credential_types(credential_types),
        }
    }
}

/// One extension of a group's context.
#[derive(Debug, PartialEq, Eq)]
pub enum Extension {
    /// What the group is for and who created it.
    ImmutableMetadata(GroupMetadata),
    /// The attributes and the lists of admins.
    MutableMetadata(GroupMutableMetadata),
    /// The inboxes of the group.
    GroupMembership(GroupMembership),
    /// Who may change what.
    MutablePermissions(GroupMutablePermissions),
    /// What every member has to support.
    RequiredCapabilities(RequiredCapabilitiesExtension),
}

impl Extension {
    /// The type of the extension.
    pub open spec fn kind(&self) -> ExtensionType {
        match self {
            Extension::ImmutableMetadata(_) => ExtensionType::ImmutableMetadata,
            Extension::MutableMetadata(_) => ExtensionType::Unknown(MUTABLE_METADATA_EXTENSION_ID),
            Extension::GroupMembership(_) => ExtensionType::Unknown(GROUP_MEMBERSHIP_EXTENSION_ID),
            Extension::MutablePermissions(_) => ExtensionType::Unknown(
                GROUP_PERMISSIONS_EXTENSION_ID,
            ),
            Extension::RequiredCapabilities(_) => ExtensionType::RequiredCapabilities,
        }
    }

    /// The type of the extension.
    pub fn extension_type(&self) -> (t: ExtensionType)
        ensures
            t == self.kind(),
    {
        match self {
            Extension::ImmutableMetadata(_) => ExtensionType::ImmutableMetadata,
            Extension::MutableMetadata(_) => ExtensionType::Unknown(MUTABLE_METADATA_EXTENSION_ID),
            Extension::GroupMembership(_) => ExtensionType::Unknown(GROUP_MEMBERSHIP_EXTENSION_ID),
            Extension::MutablePermissions(_) => ExtensionType::Unknown(
                GROUP_PERMISSIONS_EXTENSION_ID,
            ),
            Extension::RequiredCapabilities(_) => ExtensionType::RequiredCapabilities,
        }
    }
}

/// The extensions of a group's context, at most one of each type.
#[derive(Debug, PartialEq, Eq)]
pub struct Extensions {
    pub immutable_metadata: Option<GroupMetadata>,
    pub mutable_metadata: Option<GroupMutableMetadata>,
    pub group_membership: Option<GroupMembership>,
    pub mutable_permissions: Option<GroupMutablePermissions>,
    pub required_capabilities: Option<RequiredCapabilitiesExtension>,
}

/// The mathematical value of a group's extensions.
pub struct ExtensionsView {
    pub immutable_metadata: Option<GroupMetadataView>,
    pub mutable_metadata: Option<MutableMetadataView>,
    pub group_membership: Option<Map<Seq<char>, u64>>,
    pub member_order: Seq<Seq<char>>,
    pub mutable_permissions: Option<GroupMutablePermissions>,
    pub required_capabilities: Option<RequiredCapabilitiesView>,
}

impl View for Extensions {
    type V = ExtensionsView;

    open spec fn view(&self) -> ExtensionsView {
        ExtensionsView {
            immutable_metadata: match self.immutable_metadata {
                Some(m) => Some(m@),
                None => None,
            },
            mutable_metadata: match self.mutable_metadata {
                Some(m) => Some(m@),
                None => None,
            },
            group_membership: match self.group_membership {
                Some(m) => Some(m@),
                None => None,
            },
            member_order: match self.group_membership {
                Some(m) => m.inbox_ids(),
                None => Seq::empty(),
            },
            mutable_permissions: self.mutable_permissions,
            required_capabilities: match self.required_capabilities {
                Some(r) => Some(r@),
                None => None,
            },
        }
    }
}

/// No extension at all.
pub open spec fn no_extensions() -> ExtensionsView {
    ExtensionsView {
        immutable_metadata: None,
        mutable_metadata: None,
        group_membership: None,
        member_order: Seq::empty(),
        mutable_permissions: None,
        required_capabilities: None,
    }
}

/// The extensions with one more, which takes the place of the extension of
/// its type that was there, if any.
pub open spec fn with_extension(all: ExtensionsView, extension: Extension) -> ExtensionsView {
    match extension {
        Extension::ImmutableMetadata(m) => ExtensionsView { immutable_metadata: Some(m@), ..all },
        Extension::MutableMetadata(m) => ExtensionsView { mutable_metadata: Some(m@), ..all },
        Extension::GroupMembership(m) => ExtensionsView {
            group_membership: Some(m@),
            member_order: m.inbox_ids(),
            ..all
        },
        Extension::MutablePermissions(p) => ExtensionsView { mutable_permissions: Some(p), ..all },
        Extension::RequiredCapabilities(r) => ExtensionsView {
            required_capabilities: Some(r@),
            ..all
        },
    }
}

/// Whether the extensions hold one of the given type.
pub open spec fn holds_type(all: ExtensionsView, t: ExtensionType) -> bool {
    ||| t == ExtensionType::ImmutableMetadata && all.immutable_metadata is Some
    ||| t == ExtensionType::Unknown(MUTABLE_METADATA_EXTENSION_ID) && all.mutable_metadata is Some
    ||| t == ExtensionType::Unknown(GROUP_MEMBERSHIP_EXTENSION_ID) && all.group_membership is Some
    ||| t == ExtensionType::Unknown(GROUP_PERMISSIONS_EXTENSION_ID) && all.mutable_permissions
        is Some
    ||| t == ExtensionType::RequiredCapabilities && all.required_capabilities is Some
}

/// The extensions that a list gives when its entries are taken in one after
/// the other, or nothing where two entries are of one type.
pub open spec fn collect_extensions(list: Seq<Extension>) -> Option<ExtensionsView>
    decreases list.len(),
{
    if list.len() == 0 {
        Some(no_extensions())
    } else {
        match collect_extensions(list.drop_last()) {
            None => None,
            Some(all) => if holds_type(all, list.last().kind()) {
                None
            } else {
                Some(with_extension(all, list.last()))
            },
        }
    }
}

/// An extension list that cannot stand: two of its entries are of one type.
#[derive(Clone, Copy, Debug, PartialEq, Eq, Structural)]
pub enum InvalidExtensionError {
    Duplicate,
}

impl Clone for Extensions {
    fn clone(&self) -> (copy: Self)
        ensures
            copy@ == self@,
    {
        Extensions {
            immutable_metadata: match &self.immutable_metadata {
                Some(m) => Some(m.clone()),
                None => None,
            },
            mutable_metadata: match &self.mutable_metadata {
                Some(m) => Some(m.clone()),
                None => None,
            },
            group_membership: match &self.group_membership {
                Some(m) => Some(m.clone()),
                None => None,
            },
            mutable_permissions: self.mutable_permissions,
            required_capabilities: match &self.required_capabilities {
                Some(r) => Some(r.clone()),
                None => None,
            },
        }
    }
}

impl Extensions {
    /// No extension at all.
    pub fn empty() -> (e: Extensions)
        ensures
            e@ == no_extensions(),
    {
        Extensions {
            immutable_metadata: None,
            mutable_metadata: None,
            group_membership: None,
            mutable_permissions: None,
            required_capabilities: None,
        }
    }

    /// Whether an extension of the given type is held.
    pub fn contains(&self, t: ExtensionType) -> (has: bool)
        ensures
            has == holds_type(self@, t),
    {
        match t {
            ExtensionType::ImmutableMetadata => self.immutable_metadata.is_some(),
            ExtensionType::RequiredCapabilities => self.required_capabilities.is_some(),
            ExtensionType::Unknown(id) => {
                if id == MUTABLE_METADATA_EXTENSION_ID {
                    self.mutable_metadata.is_some()
                } else if id == GROUP_MEMBERSHIP_EXTENSION_ID {
                    self.group_membership.is_some()
                } else if id == GROUP_PERMISSIONS_EXTENSION_ID {
                    self.mutable_permissions.is_some()
                } else {
                    false
                }
            },
            _ => false,
        }
    }

    /// Takes the extension in, in place of the one of its type if there is
    /// one.
    pub fn add_or_replace(&mut self, extension: Extension)
        ensures
            final(self)@ == with_extension(old(self)@, extension),
    {
        match extension {
            Extension::ImmutableMetadata(m) => {
                self.immutable_metadata = Some(m);
            },
            Extension::MutableMetadata(m) => {
                self.mutable_metadata = Some(m);
            },
            Extension::GroupMembership(m) => {
                self.group_membership = Some(m);
            },
            Extension::MutablePermissions(p) => {
                self.mutable_permissions = Some(p);
            },
            Extension::RequiredCapabilities(r) => {
                self.required_capabilities = Some(r);
            },
        }
    }

    /// The extensions of a list; a list with two entries of one type is
    /// refused.
    pub fn from_vec(list: Vec<Extension>) -> (r: Result<Extensions, InvalidExtensionError>)
        ensures
            match r {
                Ok(e) => collect_extensions(list@) == Some(e@),
                Err(_) => collect_extensions(list@) is None,
            },
    {
        let ghost all = list@;
        let mut rest = list;
        let mut taken: Vec<Extension> = Vec::new();
        // The entries are taken from the end, so they are put back in order first.
        while rest.len() > 0
            invariant
                rest@.len() + taken@.len() == all.len(),
                forall|k: int| 0 <= k < rest@.len() ==> rest@[k] == all[k],
                forall|k: int|
                    0 <= k < taken@.len() ==> taken@[k] == all[all.len() - 1 - k],
            decreases rest@.len(),
        {
            let e = rest.pop().unwrap();
            taken.push(e);
        }
        let mut out = Extensions::empty();
        let ghost mut done: int = 0;
        while taken.len() > 0
            invariant
                all == list@,
                0 <= done <= all.len(),
                taken@.len() == all.len() - done,
                forall|k: int|
                    0 <= k < taken@.len() ==> taken@[k] == all[all.len() - 1 - k],
                collect_extensions(all.subrange(0, done)) == Some(out@),
            decreases taken@.len(),
        {
            let e = taken.pop().unwrap();
            assert(e == all[done]);
            proof {
                assert(all.subrange(0, done + 1).drop_last() =~= all.subrange(0, done));
                assert(all.subrange(0, done + 1).last() == all[done]);
            }
            if out.contains(e.extension_type()) {
                proof {
                    lemma_collect_refusal_stays(all, done + 1);
                }
                return Err(InvalidExtensionError::Duplicate);
            }
            out.add_or_replace(e);
            proof {
                done = done + 1;
            }
        }
        proof {
            assert(all.subrange(0, done) =~= all);
        }
        Ok(out)
    }
}

/// Once a list of extensions holds two of one type, more entries do not
/// mend it.
pub proof fn lemma_collect_refusal_stays(list: Seq<Extension>, upto: int)
    requires
        0 <= upto <= list.len(),
        collect_extensions(list.subrange(0, upto)) is None,
    ensures
        collect_extensions(list) is None,
    decreases list.len(),
{
    if upto == list.len() {
        assert(list.subrange(0, upto) =~= list);
    } else {
        assert(list.drop_last().subrange(0, upto) =~= list.subrange(0, upto));
        lemma_collect_refusal_stays(list.drop_last(), upto);
    }
}

} // verus!
