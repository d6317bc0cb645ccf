//! The local store: its tables, its rows and its faults.

pub mod errors;
pub mod group;
pub mod group_intent;
pub mod group_message;
pub mod identity_update;
pub mod refresh_state;
pub mod store;
