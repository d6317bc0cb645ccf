//! Rows of the table of identity updates.

use vstd::prelude::*;

verus! {

/// One identity update as the store knows it.
#[derive(Debug, PartialEq, Eq)]
pub struct StoredIdentityUpdate {
    pub inbox_id: String,
    pub sequence_id: i64,
    pub server_timestamp_ns: i64,
    pub payload: Vec<u8>,
}

/// The mathematical value of an identity update row.
pub struct IdentityUpdateRow {
    pub inbox_id: Seq<char>,
    pub sequence_id: i64,
    pub server_timestamp_ns: i64,
    pub payload: Seq<u8>,
}

impl View for StoredIdentityUpdate {
    type V = IdentityUpdateRow;

    open spec fn view(&self) -> IdentityUpdateRow {
        IdentityUpdateRow {
            inbox_id: self.inbox_id@,
            sequence_id: self.sequence_id,
            server_timestamp_ns: self.server_timestamp_ns,
            payload: self.payload@,
        }
    }
}

impl StoredIdentityUpdate {
    /// A row from its parts.
    pub fn new(inbox_id: String, sequence_id: i64, server_timestamp_ns: i64, payload: Vec<u8>) -> (u:
        Self)
        ensures
            u.inbox_id == inbox_id,
            u.sequence_id == sequence_id,
            u.server_timestamp_ns == server_timestamp_ns,
            u.payload == payload,
    {
        StoredIdentityUpdate { inbox_id, sequence_id, server_timestamp_ns, payload }
    }
}

/// The highest sequence number that the rows hold for an inbox, and 0 where
/// they hold none.
pub open spec fn latest_sequence_id(rows: Seq<IdentityUpdateRow>, inbox_id: Seq<char>) -> i64
    decreases rows.len(),
{
    if rows.len() == 0 {
        0
    } else {
        let before = latest_sequence_id(rows.drop_last(), inbox_id);
        if rows.last().inbox_id == inbox_id && rows.last().sequence_id > before {
            rows.last().sequence_id
        } else {
            before
        }
    }
}

/// The latest sequence number is never negative.
pub proof fn lemma_latest_sequence_id_not_negative(rows: Seq<IdentityUpdateRow>, inbox_id: Seq<char>)
    ensures
        latest_sequence_id(rows, inbox_id) >= 0,
    decreases rows.len(),
{
    if rows.len() > 0 {
        lemma_latest_sequence_id_not_negative(rows.drop_last(), inbox_id);
    }
}

} // verus!
