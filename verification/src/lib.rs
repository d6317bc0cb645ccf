//! Client-side core of an end-to-end encrypted group messaging protocol:
//! the identity association log, the local store model, the intent queue
//! and the group state machine, each with its contract.

pub mod util;
pub mod text_map;
pub mod configuration;
pub mod codec;
pub mod associations;
pub mod proto;
pub mod storage;
pub mod groups;
pub mod identity;
pub mod keystore;
pub mod client;
