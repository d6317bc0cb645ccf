//! What can go wrong in the local store, and which of those faults are
//! worth another attempt.

use vstd::prelude::*;

verus! {

/// Why a connection to the database could not be made.
#[derive(Debug, PartialEq, Eq)]
pub enum ConnectionError {
    /// The connection was refused, dropped or could not be reached.
    BadConnection(String),
    /// The connection URL cannot be used.
    InvalidConnectionUrl(String),
    /// Anything else.
    Other(String),
}

/// A fault of the local store.
#[derive(Debug, PartialEq, Eq)]
pub enum StorageError {
    /// No connection to the database.
    DieselConnect(ConnectionError),
    /// A statement failed.
    DieselResult(String),
    /// The connection pool gave no connection.
    Pool(String),
    /// Wrong encryption key, or the file is not a database.
    DbInit(String),
    /// A row could not be stored.
    Store(String),
    /// A value could not be written out.
    Serialization(String),
    /// A value could not be read back.
    Deserialization(String),
    /// No row with that key.
    NotFound,
    /// A lock was poisoned.
    Lock(String),
}

impl StorageError {
    /// Whether another attempt may succeed: a bad connection and an
    /// exhausted pool pass, nothing else does.
    pub open spec fn retryable(&self) -> bool {
        match self {
            StorageError::DieselConnect(ConnectionError::BadConnection(_)) => true,
            StorageError::Pool(_) => true,
            _ => false,
        }
    }

    /// Whether another attempt may succeed.
    pub fn is_retryable(&self) -> (r: bool)
        ensures
            r == self.retryable(),
    {
        match self {
            StorageError::DieselConnect(connection) => match connection {
                ConnectionError::BadConnection(_) => true,
                _ => false,
            },
            StorageError::Pool(_) => true,
            _ => false,
        }
    }

    /// The fault in words.
    pub open spec fn describe(&self) -> Seq<char> {
        match self {
            StorageError::DieselConnect(_) => "Diesel connection error"@,
            StorageError::DieselResult(_) => "Diesel result error"@,
            StorageError::Pool(_) => "Pool error"@,
            StorageError::DbInit(_) => "Either incorrect encryptionkey or file is not a db"@,
            StorageError::Store(_) => "Store Error"@,
            StorageError::Serialization(_) => "serialization error"@,
            StorageError::Deserialization(_) => "deserialization error"@,
            StorageError::NotFound => "not found"@,
            StorageError::Lock(_) => "lock"@,
        }
    }

    /// The fault in words.
    pub fn message(&self) -> (text: &'static str)
        ensures
            text@ == self.describe(),
    {
        match self {
            StorageError::DieselConnect(_) => "Diesel connection error",
            StorageError::DieselResult(_) => "Diesel result error",
            StorageError::Pool(_) => "Pool error",
            StorageError::DbInit(_) => "Either incorrect encryptionkey or file is not a db",
            StorageError::Store(_) => "Store Error",
            StorageError::Serialization(_) => "serialization error",
            StorageError::Deserialization(_) => "deserialization error",
            StorageError::NotFound => "not found",
            StorageError::Lock(_) => "lock",
        }
    }
}

/// Why a key package could not be made.
#[derive(Debug, PartialEq, Eq)]
pub enum KeyPackageNewError {
    /// The key store refused the new keys.
    StorageError,
    /// Anything else.
    Other,
}

impl KeyPackageNewError {
    /// Whether another attempt may succeed: only a fault of the key store
    /// passes.
    pub open spec fn retryable(&self) -> bool {
        self is StorageError
    }

    /// Whether another attempt may succeed: only a fault of the key store
    /// passes.
    pub fn is_retryable(&self) -> (r: bool)
        ensures
            r == self.retryable(),
    {
        match self {
            KeyPackageNewError::StorageError => true,
            KeyPackageNewError::Other => false,
        }
    }
}

/// Why a commit could not be made.
#[derive(Debug, PartialEq, Eq)]
pub enum CreateCommitError {
    /// The key store failed.
    KeyStoreError(StorageError),
    /// A key package for the commit could not be made.
    KeyPackageGenerationError(KeyPackageNewError),
    /// Anything else.
    Other,
}

impl CreateCommitError {
    /// Whether another attempt may succeed: as the fault beneath says.
    pub open spec fn retryable(&self) -> bool {
        match self {
            CreateCommitError::KeyStoreError(storage) => storage.retryable(),
            CreateCommitError::KeyPackageGenerationError(generation) => generation.retryable(),
            CreateCommitError::Other => false,
        }
    }

    /// Whether another attempt may succeed: as the fault beneath says.
    pub fn is_retryable(&self) -> (r: bool)
        ensures
            r == self.retryable(),
    {
        match self {
            CreateCommitError::KeyStoreError(storage) => storage.is_retryable(),
            CreateCommitError::KeyPackageGenerationError(generation) => generation.is_retryable(),
            CreateCommitError::Other => false,
        }
    }
}

/// Why members could not be added.
#[derive(Debug, PartialEq, Eq)]
pub enum AddMembersError {
    CreateCommitError(CreateCommitError),
    Other,
}

impl AddMembersError {
    /// Whether another attempt may succeed: as the commit's fault says.
    pub open spec fn retryable(&self) -> bool {
        match self {
            AddMembersError::CreateCommitError(commit) => commit.retryable(),
            AddMembersError::Other => false,
        }
    }

    /// Whether another attempt may succeed: as the commit's fault says.
    pub fn is_retryable(&self) -> (r: bool)
        ensures
            r == self.retryable(),
    {
        match self {
            AddMembersError::CreateCommitError(commit) => commit.is_retryable(),
            AddMembersError::Other => false,
        }
    }
}

/// Why members could not be removed.
#[derive(Debug, PartialEq, Eq)]
pub enum RemoveMembersError {
    CreateCommitError(CreateCommitError),
    Other,
}

impl RemoveMembersError {
    /// Whether another attempt may succeed: as the commit's fault says.
    pub open spec fn retryable(&self) -> bool {
        match self {
            RemoveMembersError::CreateCommitError(commit) => commit.retryable(),
            RemoveMembersError::Other => false,
        }
    }

    /// Whether another attempt may succeed: as the commit's fault says.
    pub fn is_retryable(&self) -> (r: bool)
        ensures
            r == self.retryable(),
    {
        match self {
            RemoveMembersError::CreateCommitError(commit) => commit.is_retryable(),
            RemoveMembersError::Other => false,
        }
    }
}

/// Why a group could not be created.
#[derive(Debug, PartialEq, Eq)]
pub enum NewGroupError {
    StorageError(StorageError),
    Other,
}

impl NewGroupError {
    /// Whether another attempt may succeed: as the store's fault says.
    pub open spec fn retryable(&self) -> bool {
        match self {
            NewGroupError::StorageError(storage) => storage.retryable(),
            NewGroupError::Other => false,
        }
    }

    /// Whether another attempt may succeed: as the store's fault says.
    pub fn is_retryable(&self) -> (r: bool)
        ensures
            r == self.retryable(),
    {
        match self {
            NewGroupError::StorageError(storage) => storage.is_retryable(),
            NewGroupError::Other => false,
        }
    }
}

/// Why the own leaf could not be updated.
#[derive(Debug, PartialEq, Eq)]
pub enum SelfUpdateError {
    CreateCommitError(CreateCommitError),
    StorageError(StorageError),
    Other,
}

impl SelfUpdateError {
    /// Whether another attempt may succeed: as the fault beneath says.
    pub open spec fn retryable(&self) -> bool {
        match self {
            SelfUpdateError::CreateCommitError(commit) => commit.retryable(),
            SelfUpdateError::StorageError(storage) => storage.retryable(),
            SelfUpdateError::Other => false,
        }
    }

    /// Whether another attempt may succeed: as the fault beneath says.
    pub fn is_retryable(&self) -> (r: bool)
        ensures
            r == self.retryable(),
    {
        match self {
            SelfUpdateError::CreateCommitError(commit) => commit.is_retryable(),
            SelfUpdateError::StorageError(storage) => storage.is_retryable(),
            SelfUpdateError::Other => false,
        }
    }
}

/// Why a welcome could not be taken up.
#[derive(Debug, PartialEq, Eq)]
pub enum WelcomeError {
    StorageError(StorageError),
    Other,
}

impl WelcomeError {
    /// Whether another attempt may succeed: as the store's fault says.
    pub open spec fn retryable(&self) -> bool {
        match self {
            WelcomeError::StorageError(storage) => storage.retryable(),
            WelcomeError::Other => false,
        }
    }

    /// Whether another attempt may succeed: as the store's fault says.
    pub fn is_retryable(&self) -> (r: bool)
        ensures
            r == self.retryable(),
    {
        match self {
            WelcomeError::StorageError(storage) => storage.is_retryable(),
            WelcomeError::Other => false,
        }
    }
}

} // verus!
