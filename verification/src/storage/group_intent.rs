//! Rows of the queue of intents: pending local changes to a group.

use vstd::prelude::*;
use crate::configuration::MAX_INTENT_PUBLISH_ATTEMPTS;
use crate::util::clone_bytes;

verus! {

/// What an intent asks for.
#[derive(Clone, Copy, Debug, PartialEq, Eq, Structural)]
pub enum IntentKind {
    SendMessage,
    KeyUpdate,
    AddMembers,
    RemoveMembers,
    MetadataUpdate,
    AdminListUpdate,
}

/// How far an intent has come.
#[derive(Clone, Copy, Debug, PartialEq, Eq, Structural)]
pub enum IntentState {
    /// Created, not sent yet.
    ToPublish,
    /// Sent; its commit has not been seen on the inbound stream yet.
    Published,
    /// Its commit has been seen and merged.
    Committed,
    /// It failed for good.
    Error,
}

/// An intent that is yet to be stored.
#[derive(Debug, PartialEq, Eq)]
pub struct NewGroupIntent {
    pub kind: IntentKind,
    pub group_id: Vec<u8>,
    pub data: Vec<u8>,
}

impl NewGroupIntent {
    /// An intent from its parts.
    pub fn new(kind: IntentKind, group_id: Vec<u8>, data: Vec<u8>) -> (n: NewGroupIntent)
        ensures
            n.kind == kind,
            n.group_id == group_id,
            n.data == data,
    {
        NewGroupIntent { kind, group_id, data }
    }
}

/// An intent as the store knows it.
#[derive(Debug, PartialEq, Eq)]
pub struct StoredGroupIntent {
    pub id: i32,
    pub kind: IntentKind,
    pub group_id: Vec<u8>,
    pub data: Vec<u8>,
    pub state: IntentState,
    pub payload_hash: Option<Vec<u8>>,
    pub post_commit_data: Option<Vec<u8>>,
    pub publish_attempts: i32,
}

/// The view of an optional byte string.
pub open spec fn opt_bytes_view(b: Option<Vec<u8>>) -> Option<Seq<u8>> {
    match b {
        Some(v) => Some(v@),
        None => None,
    }
}

/// The mathematical value of an intent row.
pub struct IntentRow {
    pub id: i32,
    pub kind: IntentKind,
    pub group_id: Seq<u8>,
    pub data: Seq<u8>,
    pub state: IntentState,
    pub payload_hash: Option<Seq<u8>>,
    pub post_commit_data: Option<Seq<u8>>,
    pub publish_attempts: i32,
}

impl View for StoredGroupIntent {
    type V = IntentRow;

    open spec fn view(&self) -> IntentRow {
        IntentRow {
            id: self.id,
            kind: self.kind,
            group_id: self.group_id@,
            data: self.data@,
            state: self.state,
            payload_hash: opt_bytes_view(self.payload_hash),
            post_commit_data: opt_bytes_view(self.post_commit_data),
            publish_attempts: self.publish_attempts,
        }
    }
}

/// Copies an optional byte string.
pub fn clone_opt_bytes(b: &Option<Vec<u8>>) -> (copy: Option<Vec<u8>>)
    ensures
        opt_bytes_view(copy) == opt_bytes_view(*b),
{
    match b {
        Some(v) => Some(clone_bytes(v)),
        None => None,
    }
}

impl Clone for StoredGroupIntent {
    fn clone(&self) -> (copy: Self)
        ensures
            copy@ == self@,
    {
        StoredGroupIntent {
            id: self.id,
            kind: self.kind,
            group_id: clone_bytes(&self.group_id),
            data: clone_bytes(&self.data),
            state: self.state,
            payload_hash: clone_opt_bytes(&self.payload_hash),
            post_commit_data: clone_opt_bytes(&self.post_commit_data),
            publish_attempts: self.publish_attempts,
        }
    }
}

/// What can happen to an intent.
#[derive(Debug, PartialEq, Eq)]
pub enum IntentEvent {
    /// Its commit was sent, with the hash by which the commit will be known
    /// again and with what is to be sent once the commit is merged.
    Published { payload_hash: Vec<u8>, post_commit_data: Option<Vec<u8>> },
    /// Its commit was seen on the inbound stream and merged.
    CommitObserved,
    /// Its commit was overtaken: the group moved on before the commit was
    /// sequenced.
    Republish,
    /// It failed for good.
    Fatal,
    /// What it asks for holds already, before anything was sent.
    AlreadyInEffect,
}

/// The mathematical value of an event.
pub enum IntentEventView {
    Published { payload_hash: Seq<u8>, post_commit_data: Option<Seq<u8>> },
    CommitObserved,
    Republish,
    Fatal,
    AlreadyInEffect,
}

impl View for IntentEvent {
    type V = IntentEventView;

    open spec fn view(&self) -> IntentEventView {
        match self {
            IntentEvent::Published { payload_hash, post_commit_data } => IntentEventView::Published {
                payload_hash: payload_hash@,
                post_commit_data: opt_bytes_view(*post_commit_data),
            },
            IntentEvent::CommitObserved => IntentEventView::CommitObserved,
            IntentEvent::Republish => IntentEventView::Republish,
            IntentEvent::Fatal => IntentEventView::Fatal,
            IntentEvent::AlreadyInEffect => IntentEventView::AlreadyInEffect,
        }
    }
}

/// The count of attempts after one more, which stops at the largest number.
pub open spec fn one_more_attempt(attempts: i32) -> i32 {
    if attempts < i32::MAX {
        (attempts + 1) as i32
    } else {
        attempts
    }
}

/// The row of an intent after an event, or nothing where the event cannot
/// happen to an intent in that state. A new intent is published, fails, or
/// is committed at once where what it asks for holds already. A published
/// intent is committed, fails, or goes back to be published again; each
/// time it goes back its attempts are counted, and once they reach the
/// bound it fails instead. A committed or failed intent stays as it is.
pub open spec fn intent_step(row: IntentRow, event: IntentEventView) -> Option<IntentRow> {
    match (row.state, event) {
        (IntentState::ToPublish, IntentEventView::Published { payload_hash, post_commit_data }) => Some(
            IntentRow {
                state: IntentState::Published,
                payload_hash: Some(payload_hash),
                post_commit_data,
                ..row
            },
        ),
        (IntentState::Published, IntentEventView::CommitObserved) => Some(
            IntentRow { state: IntentState::Committed, ..row },
        ),
        (IntentState::Published, IntentEventView::Republish) => Some(
            IntentRow {
                state: if one_more_attempt(row.publish_attempts) >= MAX_INTENT_PUBLISH_ATTEMPTS {
                    IntentState::Error
                } else {
                    IntentState::ToPublish
                },
                payload_hash: None,
                post_commit_data: None,
                publish_attempts: one_more_attempt(row.publish_attempts),
                ..row
            },
        ),
        (IntentState::ToPublish, IntentEventView::Fatal) => Some(
            IntentRow { state: IntentState::Error, ..row },
        ),
        (IntentState::Published, IntentEventView::Fatal) => Some(
            IntentRow { state: IntentState::Error, ..row },
        ),
        (IntentState::ToPublish, IntentEventView::AlreadyInEffect) => Some(
            IntentRow { state: IntentState::Committed, ..row },
        ),
        _ => None,
    }
}

impl StoredGroupIntent {
    /// The intent after an event, or nothing where the event cannot happen
    /// to it.
    pub fn after(&self, event: IntentEvent) -> (next: Option<StoredGroupIntent>)
        ensures
            match next {
                Some(n) => intent_step(self@, event@) == Some(n@),
                None => intent_step(self@, event@) is None,
            },
    {
        match (self.state, event) {
            (IntentState::ToPublish, IntentEvent::Published { payload_hash, post_commit_data }) => {
                let mut n = self.clone();
                n.state = IntentState::Published;
                n.payload_hash = Some(payload_hash);
                n.post_commit_data = post_commit_data;
                Some(n)
            },
            (IntentState::Published, IntentEvent::CommitObserved) => {
                let mut n = self.clone();
                n.state = IntentState::Committed;
                Some(n)
            },
            (IntentState::Published, IntentEvent::Republish) => {
                let mut n = self.clone();
                let attempts = if self.publish_attempts < i32::MAX {
                    self.publish_attempts + 1
                } else {
                    self.publish_attempts
                };
                n.state = if attempts >= MAX_INTENT_PUBLISH_ATTEMPTS {
                    IntentState::Error
                } else {
                    IntentState::ToPublish
                };
                n.payload_hash = None;
                n.post_commit_data = None;
                n.publish_attempts = attempts;
                Some(n)
            },
            (IntentState::ToPublish, IntentEvent::Fatal) => {
                let mut n = self.clone();
                n.state = IntentState::Error;
                Some(n)
            },
            (IntentState::Published, IntentEvent::Fatal) => {
                let mut n = self.clone();
                n.state = IntentState::Error;
                Some(n)
            },
            (IntentState::ToPublish, IntentEvent::AlreadyInEffect) => {
                let mut n = self.clone();
                n.state = IntentState::Committed;
                Some(n)
            },
            _ => None,
        }
    }
}

/// Nothing happens to an intent that is committed or has failed, and to
/// every other intent something can.
pub proof fn law_intent_ends_committed_or_failed(row: IntentRow)
    ensures
        (row.state == IntentState::Committed || row.state == IntentState::Error) <==> forall|
            event: IntentEventView,
        | #[trigger] intent_step(row, event) is None,
{
    if !(row.state == IntentState::Committed || row.state == IntentState::Error) {
        assert(intent_step(row, IntentEventView::Fatal) is Some);
    }
}

/// An intent whose commit is observed does not stay published: it is
/// committed.
pub proof fn law_observed_commit_settles_intent(row: IntentRow)
    requires
        row.state == IntentState::Published,
    ensures
        intent_step(row, IntentEventView::CommitObserved) is Some,
        intent_step(row, IntentEventView::CommitObserved).unwrap().state == IntentState::Committed,
{
}

/// An intent does not go back to be published for ever: each return adds
/// to its attempts, and at the bound it fails.
pub proof fn law_republishing_is_bounded(row: IntentRow)
    requires
        row.state == IntentState::Published,
    ensures
        intent_step(row, IntentEventView::Republish) is Some,
        ({
            let next = intent_step(row, IntentEventView::Republish).unwrap();
            &&& row.publish_attempts < i32::MAX ==> next.publish_attempts == row.publish_attempts + 1
            &&& next.state == IntentState::ToPublish ==> next.publish_attempts
                < MAX_INTENT_PUBLISH_ATTEMPTS
            &&& next.publish_attempts >= MAX_INTENT_PUBLISH_ATTEMPTS ==> next.state
                == IntentState::Error
        }),
{
}

} // verus!
