//! The metadata of a group that commits may change: its attributes and its
//! lists of admins and super admins.

use vstd::prelude::*;
use crate::groups::intents::AdminListActionType;
use crate::text_map::{without_text, TextMap};
use crate::util::{clone_strings, list_contains, list_without, text_views};

verus! {

/// Why the mutable metadata of a group could not be had.
#[derive(Clone, Copy, Debug, PartialEq, Eq, Structural)]
pub enum GroupMutableMetadataError {
    /// The group carries no mutable metadata, or not the field asked for.
    MissingExtension,
}

/// The attributes that every group carries.
#[derive(Clone, Copy, Debug, PartialEq, Eq, Structural)]
pub enum MetadataField {
    GroupName,
    Description,
}

/// The key of the attribute that holds the group's name.
pub open spec fn group_name_key() -> Seq<char> {
    "group_name"@
}

/// The key of the attribute that holds the group's description.
pub open spec fn description_key() -> Seq<char> {
    "description"@
}

/// The name of a group that was given none.
pub open spec fn default_group_name() -> Seq<char> {
    "New Group"@
}

/// The description of a group that was given none.
pub open spec fn default_group_description() -> Seq<char> {
    "New Group Description"@
}

impl MetadataField {
    /// The key under which the field is kept.
    pub open spec fn key(&self) -> Seq<char> {
        match self {
            MetadataField::GroupName => group_name_key(),
            MetadataField::Description => description_key(),
        }
    }

    /// The key under which the field is kept.
    pub fn as_str(&self) -> (key: &'static str)
        ensures
            key@ == self.key(),
    {
        match self {
            MetadataField::GroupName => "group_name",
            MetadataField::Description => "description",
        }
    }

    /// The key under which the field is kept, as an owned text.
    pub fn to_string(&self) -> (key: String)
        ensures
            key@ == self.key(),
    {
        self.as_str().to_owned()
    }
}

/// The mutable metadata of a group.
#[derive(Debug, PartialEq, Eq)]
pub struct GroupMutableMetadata {
    pub attributes: TextMap<String>,
    pub admin_list: Vec<String>,
    pub super_admin_list: Vec<String>,
}

/// The mathematical value of a group's mutable metadata.
pub struct MutableMetadataView {
    pub attributes: Map<Seq<char>, Seq<char>>,
    pub admin_list: Seq<Seq<char>>,
    pub super_admin_list: Seq<Seq<char>>,
}

impl View for GroupMutableMetadata {
    type V = MutableMetadataView;

    open spec fn view(&self) -> MutableMetadataView {
        MutableMetadataView {
            attributes: self.attributes@,
            admin_list: text_views(self.admin_list@),
            super_admin_list: text_views(self.super_admin_list@),
        }
    }
}

/// The list with the text at its end, unless it holds the text already.
pub open spec fn with_text(list: Seq<Seq<char>>, text: Seq<char>) -> Seq<Seq<char>> {
    if list.contains(text) {
        list
    } else {
        list.push(text)
    }
}

/// The metadata after a change to the lists of admins. Adding somebody who
/// is on the list already and removing somebody who is not change nothing.
pub open spec fn after_admin_list_update(
    metadata: MutableMetadataView,
    action: AdminListActionType,
    inbox_id: Seq<char>,
) -> MutableMetadataView {
    match action {
        AdminListActionType::AddAdmin => MutableMetadataView {
            admin_list: with_text(metadata.admin_list, inbox_id),
            ..metadata
        },
        AdminListActionType::RemoveAdmin => MutableMetadataView {
            admin_list: without_text(metadata.admin_list, inbox_id),
            ..metadata
        },
        AdminListActionType::AddSuperAdmin => MutableMetadataView {
            super_admin_list: with_text(metadata.super_admin_list, inbox_id),
            ..metadata
        },
        AdminListActionType::RemoveSuperAdmin => MutableMetadataView {
            super_admin_list: without_text(metadata.super_admin_list, inbox_id),
            ..metadata
        },
    }
}

/// The metadata of a new group: the default name and description, and its
/// creator as the only admin and the only super admin.
pub open spec fn default_metadata(creator_inbox_id: Seq<char>) -> MutableMetadataView {
    MutableMetadataView {
        attributes: Map::<Seq<char>, Seq<char>>::empty().insert(
            group_name_key(),
            default_group_name(),
        ).insert(description_key(), default_group_description()),
        admin_list: seq![creator_inbox_id],
        super_admin_list: seq![creator_inbox_id],
    }
}

impl Clone for GroupMutableMetadata {
    fn clone(&self) -> (copy: Self)
        ensures
            copy@ == self@,
    {
        GroupMutableMetadata {
            attributes: self.attributes.copy(),
            admin_list: clone_strings(&self.admin_list),
            super_admin_list: clone_strings(&self.super_admin_list),
        }
    }
}

impl GroupMutableMetadata {
    /// The metadata from its parts.
    pub fn new(
        attributes: TextMap<String>,
        admin_list: Vec<String>,
        super_admin_list: Vec<String>,
    ) -> (m: GroupMutableMetadata)
        ensures
            m.attributes == attributes,
            m.admin_list == admin_list,
            m.super_admin_list == super_admin_list,
    {
        GroupMutableMetadata { attributes, admin_list, super_admin_list }
    }

    /// The metadata of a new group.
    pub fn new_default(creator_inbox_id: &String) -> (m: GroupMutableMetadata)
        ensures
            m@ == default_metadata(creator_inbox_id@),
    {
        let attributes: TextMap<String> = TextMap::new();
        let attributes = attributes.insert(
            MetadataField::GroupName.to_string(),
            "New Group".to_owned(),
        );
        let attributes = attributes.insert(
            MetadataField::Description.to_string(),
            "New Group Description".to_owned(),
        );
        let mut admin_list: Vec<String> = Vec::new();
        admin_list.push(creator_inbox_id.clone());
        let mut super_admin_list: Vec<String> = Vec::new();
        super_admin_list.push(creator_inbox_id.clone());
        let m = GroupMutableMetadata { attributes, admin_list, super_admin_list };
        assert(m@.admin_list =~= seq![creator_inbox_id@]);
        assert(m@.super_admin_list =~= seq![creator_inbox_id@]);
        m
    }

    /// Whether the inbox is on the list of admins.
    pub fn is_admin(&self, inbox_id: &String) -> (is: bool)
        ensures
            is == self@.admin_list.contains(inbox_id@),
    {
        list_contains(&self.admin_list, inbox_id)
    }

    /// Whether the inbox is on the list of super admins.
    pub fn is_super_admin(&self, inbox_id: &String) -> (is: bool)
        ensures
            is == self@.super_admin_list.contains(inbox_id@),
    {
        list_contains(&self.super_admin_list, inbox_id)
    }

    /// The metadata with one attribute set and the lists of admins as they
    /// were.
    pub fn with_attribute(self, field_name: String, field_value: String) -> (m: GroupMutableMetadata)
        ensures
            m@ == (MutableMetadataView {
                attributes: self@.attributes.insert(field_name@, field_value@),
                ..self@
            }),
    {
        GroupMutableMetadata {
            attributes: self.attributes.insert(field_name, field_value),
            admin_list: self.admin_list,
            super_admin_list: self.super_admin_list,
        }
    }

    /// The metadata after a change to the lists of admins.
    pub fn with_admin_list_update(self, action: AdminListActionType, inbox_id: String) -> (m:
        GroupMutableMetadata)
        ensures
            m@ == after_admin_list_update(self@, action, inbox_id@),
    {
        let GroupMutableMetadata { attributes, mut admin_list, mut super_admin_list } = self;
        match action {
            AdminListActionType::AddAdmin => {
                if !list_contains(&admin_list, &inbox_id) {
                    let ghost before = text_views(admin_list@);
                    admin_list.push(inbox_id);
                    assert(text_views(admin_list@) =~= before.push(inbox_id@));
                }
            },
            AdminListActionType::RemoveAdmin => {
                admin_list = list_without(&admin_list, &inbox_id);
            },
            AdminListActionType::AddSuperAdmin => {
                if !list_contains(&super_admin_list, &inbox_id) {
                    let ghost before = text_views(super_admin_list@);
                    super_admin_list.push(inbox_id);
                    assert(text_views(super_admin_list@) =~= before.push(inbox_id@));
                }
            },
            AdminListActionType::RemoveSuperAdmin => {
                super_admin_list = list_without(&super_admin_list, &inbox_id);
            },
        }
        GroupMutableMetadata { attributes, admin_list, super_admin_list }
    }

    /// The lists of admins, copied.
    pub fn copy_admin_lists(&self) -> (lists: (Vec<String>, Vec<String>))
        ensures
            text_views(lists.0@) == self@.admin_list,
            text_views(lists.1@) == self@.super_admin_list,
    {
        (clone_strings(&self.admin_list), clone_strings(&self.super_admin_list))
    }
}

} // verus!
