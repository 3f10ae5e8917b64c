use crate::identifier::{to_text, uuid_text};
use vstd::prelude::*;
use vstd::string::StringExecFns;

verus! {

/// Everything that can go wrong in the engine and in the storage around it.
#[derive(Copy, Clone, Eq, PartialEq, Debug, Structural)]
pub enum RedDbErrorKind {
    /// The log holds a line that does not parse as an envelope.
    DataCorruption,
    /// The compacted log could not be written.
    Compact,
    Storagepersist,
    /// The log file could not be rewritten.
    FlushData,
    /// An append to the log failed.
    AppendData,
    StorageInit,
    /// The log file could not be opened or created.
    StorageOpen,
    StorageData,
    ReadContent,
    ContentLoad,
    Datapersist,
    /// No live record has this identifier.
    NotFound { uuid: u128 },
    Deletekey,
    Mutex,
    /// The lock around the index was poisoned by a panic.
    Poisoned,
    PoisonedValue,
    /// A stored payload does not parse in the store's format.
    Deserialization,
    /// A value cannot be written in the store's format.
    Serialization,
}

impl RedDbErrorKind {
    /// The text that describes the failure.
    pub open spec fn spec_message(self) -> Seq<char> {
        match self {
            RedDbErrorKind::DataCorruption => "Data corrupted!"@,
            RedDbErrorKind::Compact => "Data compacted corrupted!"@,
            RedDbErrorKind::Storagepersist => "Could not compact storage"@,
            RedDbErrorKind::FlushData => "Could not flush data into storage"@,
            RedDbErrorKind::AppendData => "Could not flush data"@,
            RedDbErrorKind::StorageInit => "Could not append data "@,
            RedDbErrorKind::StorageOpen => "Could not open storage"@,
            RedDbErrorKind::StorageData => "Could not init storage"@,
            RedDbErrorKind::ReadContent => "Could not read storage data"@,
            RedDbErrorKind::ContentLoad => "Could not load storage content"@,
            RedDbErrorKind::Datapersist => "Could not persist data into storage"@,
            RedDbErrorKind::Deletekey => "Could not delete _id"@,
            RedDbErrorKind::Mutex => "Could not unlock mutex"@,
            RedDbErrorKind::Poisoned => "Database poisoned!"@,
            RedDbErrorKind::PoisonedValue => "data poisoned!"@,
            RedDbErrorKind::Deserialization => "Could not deserialize data"@,
            RedDbErrorKind::Serialization => "Could not serialize data"@,
            RedDbErrorKind::NotFound { uuid } => "Could not find _id "@ + uuid_text(uuid),
        }
    }

    /// The text that describes the failure; for a record that was not found
    /// it names the identifier.
    pub fn message(&self) -> (text: String)
        ensures
            text@ == self.spec_message(),
    {
        match self {
            RedDbErrorKind::DataCorruption => String::from_str("Data corrupted!"),
            RedDbErrorKind::Compact => String::from_str("Data compacted corrupted!"),
            RedDbErrorKind::Storagepersist => String::from_str("Could not compact storage"),
            RedDbErrorKind::FlushData => String::from_str("Could not flush data into storage"),
            RedDbErrorKind::AppendData => String::from_str("Could not flush data"),
            RedDbErrorKind::StorageInit => String::from_str("Could not append data "),
            RedDbErrorKind::StorageOpen => String::from_str("Could not open storage"),
            RedDbErrorKind::StorageData => String::from_str("Could not init storage"),
            RedDbErrorKind::ReadContent => String::from_str("Could not read storage data"),
            RedDbErrorKind::ContentLoad => String::from_str("Could not load storage content"),
            RedDbErrorKind::Datapersist => String::from_str("Could not persist data into storage"),
            RedDbErrorKind::Deletekey => String::from_str("Could not delete _id"),
            RedDbErrorKind::Mutex => String::from_str("Could not unlock mutex"),
            RedDbErrorKind::Poisoned => String::from_str("Database poisoned!"),
            RedDbErrorKind::PoisonedValue => String::from_str("data poisoned!"),
            RedDbErrorKind::Deserialization => String::from_str("Could not deserialize data"),
            RedDbErrorKind::Serialization => String::from_str("Could not serialize data"),
            RedDbErrorKind::NotFound { uuid } => {
                let mut text = String::from_str("Could not find _id ");
                text.append(to_text(*uuid).as_str());
                text
            },
        }
    }
}

/// An error of the engine; it wraps the kind of failure.
#[derive(Copy, Clone, Eq, PartialEq, Debug, Structural)]
pub struct RedDbError {
    pub err: RedDbErrorKind,
}

impl RedDbError {
    /// The kind of failure.
    pub fn kind(&self) -> (kind: RedDbErrorKind)
        ensures
            kind == self.err,
    {
        self.err
    }

    /// The text that describes the failure.
    pub fn message(&self) -> (text: String)
        ensures
            text@ == self.err.spec_message(),
    {
        self.err.message()
    }
}

impl From<RedDbErrorKind> for RedDbError {
    fn from(kind: RedDbErrorKind) -> (e: RedDbError) {
        RedDbError { err: kind }
    }
}

impl vstd::std_specs::convert::FromSpecImpl<RedDbErrorKind> for RedDbError {
    open spec fn obeys_from_spec() -> bool {
        true
    }

    open spec fn from_spec(kind: RedDbErrorKind) -> RedDbError {
        RedDbError { err: kind }
    }
}

} // verus!
