use xmtp_core::codec::{
    put_framed, put_framed_all, put_framed_text, read_framed, read_framed_all, read_framed_text,
    read_varint, varint_encoding, varint_size,
};
use xmtp_core::identity::{parse_credential, IdentityError};
use xmtp_core::groups::intents::{
    AddMembersIntentData, AddressesOrInstallationIds, AdminListActionType, IntentError,
    RemoveMembersIntentData, SendMessageIntentData, UpdateAdminListIntentData,
    UpdateMetadataIntentData,
};
use xmtp_core::proto::plaintext::{decimal_digits, PlaintextEnvelope};

#[test]
fn varint_of_small_number_is_one_byte() {
    assert_eq!(varint_encoding(5), vec![0x05]);
    assert_eq!(varint_encoding(0), vec![0x00]);
    assert_eq!(varint_encoding(127), vec![0x7F]);
}

#[test]
fn varint_of_300_has_two_bytes() {
    assert_eq!(varint_encoding(300), vec![0xAC, 0x02]);
    assert_eq!(varint_encoding(128), vec![0x80, 0x01]);
}

#[test]
fn varint_of_largest_number_has_ten_bytes() {
    let buf = varint_encoding(u64::MAX);
    assert_eq!(
        buf,
        vec![0xFF, 0xFF, 0xFF, 0xFF, 0xFF, 0xFF, 0xFF, 0xFF, 0xFF, 0x01]
    );
    assert_eq!(read_varint(&buf, 0), Some((u64::MAX, 10)));
}

#[test]
fn varint_size_matches_what_is_written() {
    for value in [0u64, 1, 127, 128, 300, 16383, 16384, u32::MAX as u64, u64::MAX] {
        assert_eq!(varint_size(value), varint_encoding(value).len() as u64);
    }
    assert_eq!(varint_size(0), 1);
    assert_eq!(varint_size(127), 1);
    assert_eq!(varint_size(128), 2);
    assert_eq!(varint_size(u64::MAX), 10);
}

#[test]
fn varint_is_read_back() {
    let mut buf = vec![9u8, 9];
    buf.extend(varint_encoding(123_456_789));
    buf.push(7);
    let (value, next) = read_varint(&buf, 2).unwrap();
    assert_eq!(value, 123_456_789);
    assert_eq!(buf[next], 7);
}

#[test]
fn varint_that_ends_too_early_is_refused() {
    assert_eq!(read_varint(&vec![0x80], 0), None);
    assert_eq!(read_varint(&vec![], 0), None);
}

#[test]
fn varint_that_is_too_long_is_refused() {
    let eleven = vec![0x80, 0x80, 0x80, 0x80, 0x80, 0x80, 0x80, 0x80, 0x80, 0x80, 0x00];
    assert_eq!(read_varint(&eleven, 0), None);
}

#[test]
fn varint_that_does_not_fit_is_refused() {
    let too_big = vec![0xFF, 0xFF, 0xFF, 0xFF, 0xFF, 0xFF, 0xFF, 0xFF, 0xFF, 0x02];
    assert_eq!(read_varint(&too_big, 0), None);
}

#[test]
fn framed_bytes_carry_their_length() {
    let mut buf = Vec::new();
    put_framed(&vec![1, 2, 3], &mut buf);
    assert_eq!(buf, vec![3, 1, 2, 3]);
    assert_eq!(read_framed(&buf, 0), Some((vec![1, 2, 3], 4)));
}

#[test]
fn framed_bytes_that_are_cut_short_are_refused() {
    assert_eq!(read_framed(&vec![3, 1, 2], 0), None);
}

#[test]
fn framed_text_is_read_back() {
    let mut buf = Vec::new();
    put_framed_text(&"héllo".to_string(), &mut buf);
    assert_eq!(buf[0], 6);
    assert_eq!(read_framed_text(&buf, 0), Some(("héllo".to_string(), 7)));
}

#[test]
fn framed_text_that_is_not_a_text_is_refused() {
    assert_eq!(read_framed_text(&vec![2, 0xC3, 0x28], 0), None);
}

#[test]
fn bytes_are_read_as_utf8() {
    assert_eq!(parse_credential(&vec![0x68, 0x69]), Ok("hi".to_string()));
    assert_eq!(parse_credential(&vec![]), Ok(String::new()));
    assert_eq!(parse_credential(&vec![0xE2, 0x82, 0xAC]), Ok("\u{20AC}".to_string()));
    assert_eq!(parse_credential(&vec![0xFF]), Err(IdentityError::InvalidCredential));
    assert_eq!(parse_credential(&vec![0xE2, 0x82]), Err(IdentityError::InvalidCredential));
}

#[test]
fn long_framed_bytes_carry_a_longer_length() {
    let data = vec![7u8; 300];
    let mut buf = Vec::new();
    put_framed(&data, &mut buf);
    assert_eq!(buf.len(), 302);
    assert_eq!(&buf[..2], &[0xAC, 0x02]);
    assert_eq!(read_framed(&buf, 0), Some((data, 302)));
}

#[test]
fn framed_list_is_read_back() {
    let items = vec![vec![1u8], vec![], vec![2, 3]];
    let mut buf = Vec::new();
    put_framed_all(&items, &mut buf);
    assert_eq!(buf, vec![1, 1, 0, 2, 2, 3]);
    assert_eq!(read_framed_all(&buf, 0, 3), Some((items, 6)));
    assert_eq!(read_framed_all(&buf, 0, 4), None);
}

#[test]
fn decimal_digits_of_times() {
    assert_eq!(decimal_digits(0), b"0".to_vec());
    assert_eq!(decimal_digits(7), b"7".to_vec());
    assert_eq!(decimal_digits(1_700_000_000_123), b"1700000000123".to_vec());
    assert_eq!(decimal_digits(-42), b"-42".to_vec());
    assert_eq!(decimal_digits(i64::MAX), b"9223372036854775807".to_vec());
    assert_eq!(decimal_digits(i64::MIN), b"-9223372036854775808".to_vec());
}

#[test]
fn plaintext_envelope_has_the_wire_format() {
    let envelope = PlaintextEnvelope::new(b"hello".to_vec(), b"17".to_vec());
    let bytes = envelope.encode();
    assert_eq!(
        bytes,
        vec![0x0A, 11, 0x0A, 5, b'h', b'e', b'l', b'l', b'o', 0x12, 2, b'1', b'7']
    );
    assert_eq!(PlaintextEnvelope::decode(&bytes), Some(envelope));
}

#[test]
fn plaintext_envelope_with_trailing_bytes_is_refused() {
    let mut bytes = PlaintextEnvelope::new(b"x".to_vec(), b"1".to_vec()).encode();
    bytes.push(0);
    assert_eq!(PlaintextEnvelope::decode(&bytes), None);
    assert_eq!(PlaintextEnvelope::decode(&vec![]), None);
    assert_eq!(PlaintextEnvelope::decode(&vec![0x12, 0]), None);
}

#[test]
fn send_message_payload_round_trip() {
    let data = SendMessageIntentData::new(vec![1, 2, 3]);
    let bytes = data.to_bytes();
    assert_eq!(bytes, vec![3, 1, 2, 3]);
    assert_eq!(SendMessageIntentData::from_bytes(&bytes), Ok(data));
    assert_eq!(SendMessageIntentData::from_bytes(&vec![3, 1, 2]), Err(IntentError::Decode));
    assert_eq!(SendMessageIntentData::from_bytes(&vec![1, 1, 2]), Err(IntentError::Decode));
}

#[test]
fn members_payload_round_trip() {
    let by_address = AddMembersIntentData::new(AddressesOrInstallationIds::AccountAddresses(vec![
        "inbox-b".to_string(),
        "inbox-c".to_string(),
    ]));
    let bytes = by_address.to_bytes();
    assert_eq!(bytes[0], 1);
    assert_eq!(bytes[1], 2);
    assert_eq!(AddMembersIntentData::from_bytes(&bytes), Ok(by_address));

    let by_key = RemoveMembersIntentData::new(AddressesOrInstallationIds::InstallationIds(vec![
        vec![7u8; 32],
    ]));
    let bytes = by_key.to_bytes();
    assert_eq!(bytes[0], 2);
    assert_eq!(bytes[1], 1);
    assert_eq!(bytes[2], 32);
    assert_eq!(RemoveMembersIntentData::from_bytes(&bytes), Ok(by_key));
}

#[test]
fn members_payload_with_wrong_tag_or_count_is_refused() {
    assert_eq!(AddMembersIntentData::from_bytes(&vec![]), Err(IntentError::Decode));
    assert_eq!(AddMembersIntentData::from_bytes(&vec![3, 0]), Err(IntentError::Decode));
    assert_eq!(AddMembersIntentData::from_bytes(&vec![1, 2, 1, b'a']), Err(IntentError::Decode));
    assert_eq!(AddMembersIntentData::from_bytes(&vec![1, 1, 1, 0xFF]), Err(IntentError::Decode));
    assert_eq!(
        AddMembersIntentData::from_bytes(&vec![1, 0]),
        Ok(AddMembersIntentData::new(AddressesOrInstallationIds::AccountAddresses(vec![])))
    );
}

#[test]
fn metadata_payload_round_trip() {
    let data = UpdateMetadataIntentData::new_update_group_name("N1".to_string());
    assert_eq!(data.field_name, "group_name");
    let bytes = data.to_bytes();
    assert_eq!(UpdateMetadataIntentData::from_bytes(&bytes), Ok(data));
    assert_eq!(UpdateMetadataIntentData::from_bytes(&vec![1, b'a']), Err(IntentError::Decode));
}

#[test]
fn admin_list_payload_round_trip() {
    for (action, code) in [
        (AdminListActionType::AddAdmin, 1u8),
        (AdminListActionType::RemoveAdmin, 2),
        (AdminListActionType::AddSuperAdmin, 3),
        (AdminListActionType::RemoveSuperAdmin, 4),
    ] {
        let data = UpdateAdminListIntentData::new(action, "inbox-b".to_string());
        let bytes = data.to_bytes();
        assert_eq!(bytes[0], code);
        assert_eq!(UpdateAdminListIntentData::from_bytes(&bytes), Ok(data));
    }
    assert_eq!(UpdateAdminListIntentData::from_bytes(&vec![5, 0]), Err(IntentError::Decode));
    assert_eq!(UpdateAdminListIntentData::from_bytes(&vec![]), Err(IntentError::Decode));
}
