use vstd::prelude::*;

verus! {

/// Failure of a storage operation.
#[derive(Debug, Clone, PartialEq, Eq)]
pub enum StorageError {
    /// The backing store could not be read or written.
    Io(String),
    /// A stored value could not be encoded or decoded.
    Serialization(String),
    /// A journal line at this position is not a JSON document.
    MalformedWalEntry(u64),
    /// Optimistic concurrency gave up, or a conditional write lost its race.
    Lock(String),
    /// A strict operation found nothing at its key.
    NotFound(String),
    /// Source registration or upload failed.
    Sync(String),
    /// External change detection failed.
    Watch(String),
}

} // verus!

verus! {

use crate::text::join2;

pub open spec fn storage_message_of(e: StorageError) -> Seq<char> {
    match e {
        StorageError::Io(m) => "I/O error: "@ + m@,
        StorageError::Serialization(m) => "Serialization error: "@ + m@,
        StorageError::MalformedWalEntry(_) => "Failed to parse WAL entry"@,
        StorageError::Lock(m) => "Lock error: "@ + m@,
        StorageError::NotFound(m) => "Not found: "@ + m@,
        StorageError::Sync(m) => "Sync error: "@ + m@,
        StorageError::Watch(m) => "Watch error: "@ + m@,
    }
}

impl StorageError {
    /// The error as text.
    pub fn message(&self) -> (r: String)
        ensures
            r@ == storage_message_of(*self),
            r@.len() > 0,
    {
        proof {
            reveal_strlit("I/O error: ");
            reveal_strlit("Serialization error: ");
            reveal_strlit("Failed to parse WAL entry");
            reveal_strlit("Lock error: ");
            reveal_strlit("Not found: ");
            reveal_strlit("Sync error: ");
            reveal_strlit("Watch error: ");
        }
        match self {
            StorageError::Io(m) => join2("I/O error: ", m.as_str()),
            StorageError::Serialization(m) => join2("Serialization error: ", m.as_str()),
            StorageError::MalformedWalEntry(_) => String::from_str("Failed to parse WAL entry"),
            StorageError::Lock(m) => join2("Lock error: ", m.as_str()),
            StorageError::NotFound(m) => join2("Not found: ", m.as_str()),
            StorageError::Sync(m) => join2("Sync error: ", m.as_str()),
            StorageError::Watch(m) => join2("Watch error: ", m.as_str()),
        }
    }
}

} // verus!
