//! What the intents of each kind carry.

use vstd::prelude::*;
use vstd::string::*;
use vstd::utf8::{decode_utf8, encode_utf8, encode_utf8_decode_utf8, encode_utf8_valid_utf8, valid_utf8};
use crate::codec::{
    framed, framed_all, framed_text, lemma_framed_all_round_trip, lemma_framed_round_trip,
    lemma_framed_text_round_trip, lemma_varint_len, lemma_varint_round_trip, max_varint_len,
    parse_framed, parse_framed_all, parse_framed_text, parse_varint, put_framed, put_framed_all,
    put_framed_text, put_varint, read_framed, read_framed_all, read_framed_text, read_varint,
    text_of_bytes, varint_bytes,
};
use crate::util::{bytes_views, text_views};

verus! {

/// Why the payload of an intent could not be used.
#[derive(Clone, Copy, Debug, PartialEq, Eq, Structural)]
pub enum IntentError {
    /// The bytes are not the payload of an intent of the kind expected.
    Decode,
}

/// The mathematical value of a list of members named by an intent.
pub enum MembersView {
    AccountAddresses(Seq<Seq<char>>),
    InstallationIds(Seq<Seq<u8>>),
}

impl View for AddressesOrInstallationIds {
    type V = MembersView;

    open spec fn view(&self) -> MembersView {
        match self {
            AddressesOrInstallationIds::AccountAddresses(a) => MembersView::AccountAddresses(
                text_views(a@),
            ),
            AddressesOrInstallationIds::InstallationIds(k) => MembersView::InstallationIds(
                bytes_views(k@),
            ),
        }
    }
}

/// The bytes of each text of a list.
pub open spec fn encoded_texts(texts: Seq<Seq<char>>) -> Seq<Seq<u8>> {
    texts.map_values(|t: Seq<char>| encode_utf8(t))
}

/// The texts that a list of byte strings encodes, where each encodes one.
pub open spec fn decoded_texts(items: Seq<Seq<u8>>) -> Option<Seq<Seq<char>>> {
    if forall|i: int| 0 <= i < items.len() ==> valid_utf8(#[trigger] items[i]) {
        Some(items.map_values(|b: Seq<u8>| decode_utf8(b)))
    } else {
        None
    }
}

/// The payload that names a list of members: a byte that says how they are
/// named, their number, and then each with its length in front.
pub open spec fn members_payload(members: MembersView) -> Seq<u8> {
    match members {
        MembersView::AccountAddresses(a) => seq![1u8] + varint_bytes(a.len() as u64) + framed_all(
            encoded_texts(a),
        ),
        MembersView::InstallationIds(k) => seq![2u8] + varint_bytes(k.len() as u64) + framed_all(k),
    }
}

/// The list of members that a payload names, where it names one and holds
/// nothing besides.
pub open spec fn parse_members_payload(bytes: Seq<u8>) -> Option<MembersView> {
    if bytes.len() == 0 {
        None
    } else {
        match parse_varint(bytes.skip(1)) {
            None => None,
            Some((count, n)) => match parse_framed_all(bytes.skip((1 + n) as int), count as nat) {
                None => None,
                Some((items, m)) => if 1 + n + m != bytes.len() {
                    None
                } else if bytes[0] == 1 {
                    match decoded_texts(items) {
                        Some(texts) => Some(MembersView::AccountAddresses(texts)),
                        None => None,
                    }
                } else if bytes[0] == 2 {
                    Some(MembersView::InstallationIds(items))
                } else {
                    None
                },
            },
        }
    }
}

/// Whether a list of members can be written out: the count and the length
/// of each name fit the format.
pub open spec fn members_fit(members: MembersView) -> bool {
    match members {
        MembersView::AccountAddresses(a) => a.len() <= u64::MAX && forall|i: int|
            0 <= i < a.len() ==> encode_utf8(#[trigger] a[i]).len() <= u64::MAX,
        MembersView::InstallationIds(k) => k.len() <= u64::MAX && forall|i: int|
            0 <= i < k.len() ==> (#[trigger] k[i]).len() <= u64::MAX,
    }
}

/// The payload of a list of members is read back as the list.
pub proof fn law_members_payload_is_read_back(members: MembersView)
    requires
        members_fit(members),
    ensures
        parse_members_payload(members_payload(members)) == Some(members),
{
    broadcast use encode_utf8_valid_utf8, encode_utf8_decode_utf8;

    let bytes = members_payload(members);
    match members {
        MembersView::AccountAddresses(a) => {
            let items = encoded_texts(a);
            let count = varint_bytes(a.len() as u64);
            lemma_varint_len(a.len() as u64);
            assert(bytes.skip(1) =~= count + (framed_all(items) + Seq::<u8>::empty()));
            lemma_varint_round_trip(
                a.len() as u64,
                framed_all(items) + Seq::<u8>::empty(),
                max_varint_len(),
            );
            assert(bytes.skip((1 + count.len()) as int) =~= framed_all(items) + Seq::<u8>::empty());
            assert forall|i: int| 0 <= i < items.len() implies (#[trigger] items[i]).len()
                <= u64::MAX by {
                assert(items[i] == encode_utf8(a[i]));
            }
            lemma_framed_all_round_trip(items, Seq::<u8>::empty());
            assert(bytes[0] == 1);
            assert forall|i: int| 0 <= i < items.len() implies valid_utf8(#[trigger] items[i]) by {
                assert(items[i] == encode_utf8(a[i]));
            }
            assert(items.map_values(|b: Seq<u8>| decode_utf8(b)) =~= a) by {
                assert forall|i: int| 0 <= i < a.len() implies items.map_values(
                    |b: Seq<u8>| decode_utf8(b),
                )[i] == a[i] by {
                    assert(items[i] == encode_utf8(a[i]));
                }
            }
        },
        MembersView::InstallationIds(k) => {
            let count = varint_bytes(k.len() as u64);
            lemma_varint_len(k.len() as u64);
            assert(bytes.skip(1) =~= count + (framed_all(k) + Seq::<u8>::empty()));
            lemma_varint_round_trip(
                k.len() as u64,
                framed_all(k) + Seq::<u8>::empty(),
                max_varint_len(),
            );
            assert(bytes.skip((1 + count.len()) as int) =~= framed_all(k) + Seq::<u8>::empty());
            lemma_framed_all_round_trip(k, Seq::<u8>::empty());
            assert(bytes[0] == 2);
        },
    }
}

/// The bytes of each text of a list.
pub fn texts_to_bytes(texts: &Vec<String>) -> (items: Vec<Vec<u8>>)
    ensures
        bytes_views(items@) == encoded_texts(text_views(texts@)),
{
    let mut items: Vec<Vec<u8>> = Vec::new();
    let mut i: usize = 0;
    while i < texts.len()
        invariant
            0 <= i <= texts@.len(),
            items@.len() == i,
            forall|k: int| 0 <= k < i ==> (#[trigger] items@[k])@ == encode_utf8(texts@[k]@),
        decreases texts@.len() - i,
    {
        items.push(texts[i].as_str().as_bytes_vec());
        i += 1;
    }
    assert(bytes_views(items@) =~= encoded_texts(text_views(texts@)));
    items
}

/// The texts that a list of byte strings encodes, where each encodes one.
pub fn bytes_to_texts(items: Vec<Vec<u8>>) -> (texts: Option<Vec<String>>)
    ensures
        match texts {
            Some(t) => decoded_texts(bytes_views(items@)) == Some(text_views(t@)),
            None => decoded_texts(bytes_views(items@)) is None,
        },
{
    let ghost all = bytes_views(items@);
    let mut texts: Vec<String> = Vec::new();
    let mut i: usize = 0;
    while i < items.len()
        invariant
            all == bytes_views(items@),
            0 <= i <= items@.len(),
            texts@.len() == i,
            forall|k: int| 0 <= k < i ==> valid_utf8(#[trigger] all[k]),
            forall|k: int| 0 <= k < i ==> (#[trigger] texts@[k])@ == decode_utf8(all[k]),
        decreases items@.len() - i,
    {
        assert(all[i as int] == items@[i as int]@);
        match text_of_bytes(crate::util::clone_bytes(&items[i])) {
            Some(t) => {
                texts.push(t);
            },
            None => {
                assert(!valid_utf8(all[i as int]));
                return None;
            },
        }
        i += 1;
    }
    assert(text_views(texts@) =~= all.map_values(|b: Seq<u8>| decode_utf8(b)));
    Some(texts)
}

impl AddressesOrInstallationIds {
    /// The payload that names the members.
    pub fn to_bytes(&self) -> (bytes: Vec<u8>)
        ensures
            bytes@ == members_payload(self@),
    {
        let mut buf: Vec<u8> = Vec::new();
        match self {
            AddressesOrInstallationIds::AccountAddresses(a) => {
                buf.push(1u8);
                put_varint(a.len() as u64, &mut buf);
                let items = texts_to_bytes(a);
                put_framed_all(&items, &mut buf);
                assert(text_views(a@).len() == a@.len());
                assert(buf@ =~= members_payload(self@));
            },
            AddressesOrInstallationIds::InstallationIds(k) => {
                buf.push(2u8);
                put_varint(k.len() as u64, &mut buf);
                put_framed_all(k, &mut buf);
                assert(bytes_views(k@).len() == k@.len());
                assert(buf@ =~= members_payload(self@));
            },
        }
        buf
    }

    /// The members that a payload names.
    pub fn from_bytes(data: &Vec<u8>) -> (r: Result<Self, IntentError>)
        ensures
            match r {
                Ok(m) => parse_members_payload(data@) == Some(m@),
                Err(_) => parse_members_payload(data@) is None,
            },
    {
        if data.len() == 0 {
            return Err(IntentError::Decode);
        }
        let tag = data[0];
        let (count, at) = match read_varint(data, 1) {
            Some(pair) => pair,
            None => {
                return Err(IntentError::Decode);
            },
        };
        let (items, next) = match read_framed_all(data, at, count) {
            Some(pair) => pair,
            None => {
                return Err(IntentError::Decode);
            },
        };
        if next != data.len() {
            return Err(IntentError::Decode);
        }
        if tag == 1 {
            match bytes_to_texts(items) {
                Some(texts) => Ok(AddressesOrInstallationIds::AccountAddresses(texts)),
                None => Err(IntentError::Decode),
            }
        } else if tag == 2 {
            Ok(AddressesOrInstallationIds::InstallationIds(items))
        } else {
            Err(IntentError::Decode)
        }
    }
}

/// The members that an intent names: by account address or by installation.
#[derive(Debug, PartialEq, Eq)]
pub enum AddressesOrInstallationIds {
    AccountAddresses(Vec<String>),
    InstallationIds(Vec<Vec<u8>>),
}

/// A message to send.
#[derive(Debug, PartialEq, Eq)]
pub struct SendMessageIntentData {
    pub message: Vec<u8>,
}

/// The message that a payload holds, where it holds one and nothing
/// besides.
pub open spec fn parse_message_payload(bytes: Seq<u8>) -> Option<Seq<u8>> {
    match parse_framed(bytes) {
        Some((message, n)) => if n == bytes.len() {
            Some(message)
        } else {
            None
        },
        None => None,
    }
}

/// The payload of a message is read back as the message.
pub proof fn law_message_payload_is_read_back(message: Seq<u8>)
    requires
        message.len() <= u64::MAX,
    ensures
        parse_message_payload(framed(message)) == Some(message),
{
    lemma_framed_round_trip(message, Seq::<u8>::empty());
    assert(framed(message) + Seq::<u8>::empty() =~= framed(message));
}

impl SendMessageIntentData {
    /// The data of an intent to send the message.
    pub fn new(message: Vec<u8>) -> (d: Self)
        ensures
            d.message == message,
    {
        SendMessageIntentData { message }
    }

    /// The payload of the intent: the message with its length in front.
    pub fn to_bytes(&self) -> (bytes: Vec<u8>)
        ensures
            bytes@ == framed(self.message@),
            parse_message_payload(bytes@) == Some(self.message@),
    {
        let mut buf: Vec<u8> = Vec::new();
        let length = self.message.len();
        put_framed(&self.message, &mut buf);
        proof {
            assert(self.message@.len() == length);
            assert(buf@ =~= framed(self.message@));
            law_message_payload_is_read_back(self.message@);
        }
        buf
    }

    /// The data that a payload holds.
    pub fn from_bytes(data: &Vec<u8>) -> (r: Result<Self, IntentError>)
        ensures
            match r {
                Ok(d) => parse_message_payload(data@) == Some(d.message@),
                Err(_) => parse_message_payload(data@) is None,
            },
    {
        assert(data@.skip(0) =~= data@);
        match read_framed(data, 0) {
            Some((message, next)) => {
                if next == data.len() {
                    Ok(SendMessageIntentData { message })
                } else {
                    Err(IntentError::Decode)
                }
            },
            None => Err(IntentError::Decode),
        }
    }
}

/// Members to add.
#[derive(Debug, PartialEq, Eq)]
pub struct AddMembersIntentData {
    pub address_or_id: AddressesOrInstallationIds,
}

impl AddMembersIntentData {
    /// The data of an intent to add the members.
    pub fn new(address_or_id: AddressesOrInstallationIds) -> (d: Self)
        ensures
            d.address_or_id == address_or_id,
    {
        AddMembersIntentData { address_or_id }
    }

    /// The payload of the intent.
    pub fn to_bytes(&self) -> (bytes: Vec<u8>)
        ensures
            bytes@ == members_payload(self.address_or_id@),
    {
        self.address_or_id.to_bytes()
    }

    /// The data that a payload holds.
    pub fn from_bytes(data: &Vec<u8>) -> (r: Result<Self, IntentError>)
        ensures
            match r {
                Ok(d) => parse_members_payload(data@) == Some(d.address_or_id@),
                Err(_) => parse_members_payload(data@) is None,
            },
    {
        match AddressesOrInstallationIds::from_bytes(data) {
            Ok(address_or_id) => Ok(AddMembersIntentData { address_or_id }),
            Err(e) => Err(e),
        }
    }
}

/// Members to remove.
#[derive(Debug, PartialEq, Eq)]
pub struct RemoveMembersIntentData {
    pub address_or_id: AddressesOrInstallationIds,
}

impl RemoveMembersIntentData {
    /// The data of an intent to remove the members.
    pub fn new(address_or_id: AddressesOrInstallationIds) -> (d: Self)
        ensures
            d.address_or_id == address_or_id,
    {
        RemoveMembersIntentData { address_or_id }
    }

    /// The payload of the intent.
    pub fn to_bytes(&self) -> (bytes: Vec<u8>)
        ensures
            bytes@ == members_payload(self.address_or_id@),
    {
        self.address_or_id.to_bytes()
    }

    /// The data that a payload holds.
    pub fn from_bytes(data: &Vec<u8>) -> (r: Result<Self, IntentError>)
        ensures
            match r {
                Ok(d) => parse_members_payload(data@) == Some(d.address_or_id@),
                Err(_) => parse_members_payload(data@) is None,
            },
    {
        match AddressesOrInstallationIds::from_bytes(data) {
            Ok(address_or_id) => Ok(RemoveMembersIntentData { address_or_id }),
            Err(e) => Err(e),
        }
    }
}

/// A metadata field to set.
#[derive(Debug, PartialEq, Eq)]
pub struct UpdateMetadataIntentData {
    pub field_name: String,
    pub field_value: String,
}

/// The payload that sets a metadata field: its name and its value, each
/// with its length in front.
pub open spec fn metadata_payload(field_name: Seq<char>, field_value: Seq<char>) -> Seq<u8> {
    framed_text(field_name) + framed_text(field_value)
}

/// The name and the value that a payload holds, where it holds both and
/// nothing besides.
pub open spec fn parse_metadata_payload(bytes: Seq<u8>) -> Option<(Seq<char>, Seq<char>)> {
    match parse_framed_text(bytes) {
        None => None,
        Some((name, n)) => match parse_framed_text(bytes.skip(n as int)) {
            None => None,
            Some((value, m)) => if n + m == bytes.len() {
                Some((name, value))
            } else {
                None
            },
        },
    }
}

/// The payload of a metadata update is read back as it was.
pub proof fn law_metadata_payload_is_read_back(field_name: Seq<char>, field_value: Seq<char>)
    requires
        encode_utf8(field_name).len() <= u64::MAX,
        encode_utf8(field_value).len() <= u64::MAX,
    ensures
        parse_metadata_payload(metadata_payload(field_name, field_value)) == Some(
            (field_name, field_value),
        ),
{
    let bytes = metadata_payload(field_name, field_value);
    lemma_framed_text_round_trip(field_name, framed_text(field_value));
    assert(bytes.skip(framed_text(field_name).len() as int) =~= framed_text(field_value)
        + Seq::<u8>::empty());
    lemma_framed_text_round_trip(field_value, Seq::<u8>::empty());
}

impl UpdateMetadataIntentData {
    /// The data of an intent to set a metadata field.
    pub fn new(field_name: String, field_value: String) -> (d: Self)
        ensures
            d.field_name == field_name,
            d.field_value == field_value,
    {
        UpdateMetadataIntentData { field_name, field_value }
    }

    /// The data of an intent to give the group another name.
    pub fn new_update_group_name(group_name: String) -> (d: Self)
        ensures
            d.field_name@ == crate::groups::group_mutable_metadata::group_name_key(),
            d.field_value == group_name,
    {
        UpdateMetadataIntentData { field_name: "group_name".to_owned(), field_value: group_name }
    }

    /// The payload of the intent.
    pub fn to_bytes(&self) -> (bytes: Vec<u8>)
        ensures
            bytes@ == metadata_payload(self.field_name@, self.field_value@),
    {
        let mut buf: Vec<u8> = Vec::new();
        put_framed_text(&self.field_name, &mut buf);
        put_framed_text(&self.field_value, &mut buf);
        assert(buf@ =~= metadata_payload(self.field_name@, self.field_value@));
        buf
    }

    /// The data that a payload holds.
    pub fn from_bytes(data: &Vec<u8>) -> (r: Result<Self, IntentError>)
        ensures
            match r {
                Ok(d) => parse_metadata_payload(data@) == Some((d.field_name@, d.field_value@)),
                Err(_) => parse_metadata_payload(data@) is None,
            },
    {
        assert(data@.skip(0) =~= data@);
        let (field_name, at) = match read_framed_text(data, 0) {
            Some(pair) => pair,
            None => {
                return Err(IntentError::Decode);
            },
        };
        let (field_value, next) = match read_framed_text(data, at) {
            Some(pair) => pair,
            None => {
                return Err(IntentError::Decode);
            },
        };
        if next != data.len() {
            return Err(IntentError::Decode);
        }
        Ok(UpdateMetadataIntentData { field_name, field_value })
    }
}

/// What to do to the lists of admins.
#[derive(Clone, Copy, Debug, PartialEq, Eq, Structural)]
pub enum AdminListActionType {
    AddAdmin,
    RemoveAdmin,
    AddSuperAdmin,
    RemoveSuperAdmin,
}

/// A change to the lists of admins.
#[derive(Debug, PartialEq, Eq)]
pub struct UpdateAdminListIntentData {
    pub action_type: AdminListActionType,
    pub inbox_id: String,
}

impl AdminListActionType {
    /// The byte that stands for the action in a payload.
    pub open spec fn code(&self) -> u8 {
        match self {
            AdminListActionType::AddAdmin => 1,
            AdminListActionType::RemoveAdmin => 2,
            AdminListActionType::AddSuperAdmin => 3,
            AdminListActionType::RemoveSuperAdmin => 4,
        }
    }
}

/// The action that a byte stands for.
pub open spec fn action_of_code(code: u8) -> Option<AdminListActionType> {
    if code == 1 {
        Some(AdminListActionType::AddAdmin)
    } else if code == 2 {
        Some(AdminListActionType::RemoveAdmin)
    } else if code == 3 {
        Some(AdminListActionType::AddSuperAdmin)
    } else if code == 4 {
        Some(AdminListActionType::RemoveSuperAdmin)
    } else {
        None
    }
}

/// The payload that changes the lists of admins: the byte of the action and
/// the inbox with its length in front.
pub open spec fn admin_list_payload(action: AdminListActionType, inbox_id: Seq<char>) -> Seq<u8> {
    seq![action.code()] + framed_text(inbox_id)
}

/// The action and the inbox that a payload holds, where it holds both and
/// nothing besides.
pub open spec fn parse_admin_list_payload(bytes: Seq<u8>) -> Option<(AdminListActionType, Seq<char>)> {
    if bytes.len() == 0 {
        None
    } else {
        match (action_of_code(bytes[0]), parse_framed_text(bytes.skip(1))) {
            (Some(action), Some((inbox_id, n))) => if 1 + n == bytes.len() {
                Some((action, inbox_id))
            } else {
                None
            },
            _ => None,
        }
    }
}

/// The payload of a change to the lists of admins is read back as it was.
pub proof fn law_admin_list_payload_is_read_back(action: AdminListActionType, inbox_id: Seq<char>)
    requires
        encode_utf8(inbox_id).len() <= u64::MAX,
    ensures
        parse_admin_list_payload(admin_list_payload(action, inbox_id)) == Some((action, inbox_id)),
{
    let bytes = admin_list_payload(action, inbox_id);
    assert(bytes.skip(1) =~= framed_text(inbox_id) + Seq::<u8>::empty());
    lemma_framed_text_round_trip(inbox_id, Seq::<u8>::empty());
    assert(bytes[0] == action.code());
}

impl UpdateAdminListIntentData {
    /// The data of an intent to change the lists of admins.
    pub fn new(action_type: AdminListActionType, inbox_id: String) -> (d: Self)
        ensures
            d.action_type == action_type,
            d.inbox_id == inbox_id,
    {
        UpdateAdminListIntentData { action_type, inbox_id }
    }

    /// The payload of the intent.
    pub fn to_bytes(&self) -> (bytes: Vec<u8>)
        ensures
            bytes@ == admin_list_payload(self.action_type, self.inbox_id@),
    {
        let mut buf: Vec<u8> = Vec::new();
        let code: u8 = match self.action_type {
            AdminListActionType::AddAdmin => 1,
            AdminListActionType::RemoveAdmin => 2,
            AdminListActionType::AddSuperAdmin => 3,
            AdminListActionType::RemoveSuperAdmin => 4,
        };
        buf.push(code);
        put_framed_text(&self.inbox_id, &mut buf);
        assert(buf@ =~= admin_list_payload(self.action_type, self.inbox_id@));
        buf
    }

    /// The data that a payload holds.
    pub fn from_bytes(data: &Vec<u8>) -> (r: Result<Self, IntentError>)
        ensures
            match r {
                Ok(d) => parse_admin_list_payload(data@) == Some((d.action_type, d.inbox_id@)),
                Err(_) => parse_admin_list_payload(data@) is None,
            },
    {
        if data.len() == 0 {
            return Err(IntentError::Decode);
        }
        let code = data[0];
        let action_type = if code == 1 {
            AdminListActionType::AddAdmin
        } else if code == 2 {
            AdminListActionType::RemoveAdmin
        } else if code == 3 {
            AdminListActionType::AddSuperAdmin
        } else if code == 4 {
            AdminListActionType::RemoveSuperAdmin
        } else {
            return Err(IntentError::Decode);
        };
        let (inbox_id, next) = match read_framed_text(data, 1) {
            Some(pair) => pair,
            None => {
                return Err(IntentError::Decode);
            },
        };
        if next != data.len() {
            return Err(IntentError::Decode);
        }
        Ok(UpdateAdminListIntentData { action_type, inbox_id })
    }
}

} // verus!
