//! The constants of the protocol.

use vstd::prelude::*;

verus! {

/// Largest number of inboxes a group may hold.
pub const MAX_GROUP_SIZE: usize = 250;

/// The number under which a group carries its mutable metadata.
pub const MUTABLE_METADATA_EXTENSION_ID: u16 = 0xff00;

/// The number under which a group carries its membership.
pub const GROUP_MEMBERSHIP_EXTENSION_ID: u16 = 0xff01;

/// The number under which a group carries its permissions.
pub const GROUP_PERMISSIONS_EXTENSION_ID: u16 = 0xff02;

/// How many past epochs a group keeps the keys of.
pub const MAX_PAST_EPOCHS: usize = 3;

/// How often an intent is published before it is given up.
pub const MAX_INTENT_PUBLISH_ATTEMPTS: i32 = 5;

/// How many rounds of publishing and pulling are made for one intent.
pub const MAX_SYNC_ROUNDS: usize = 10;

/// How long, in nanoseconds, the list of installations of a group is taken
/// as fresh before a message is sent.
pub const INSTALLATION_UPDATE_INTERVAL_NS: i64 = 5_000_000;

} // verus!
