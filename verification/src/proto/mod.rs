//! Message contents that travel inside envelopes.

pub mod content;
pub mod composite;
pub mod plaintext;
pub mod wire;
