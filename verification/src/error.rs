//! The failures that the queue reports.

use vstd::prelude::*;
use vstd::string::StringExecFns;

verus! {

/// The update of the request table that found no row to change.
#[derive(Debug, Clone, Copy, PartialEq, Eq, Structural)]
pub enum Update {
    SetError,
    SetCompleted,
    SetExecuted,
}

/// Why an operation of the queue failed.
#[derive(Debug)]
pub enum QueueError {
    /// The store could not be reached, or refused a statement.
    Store(String),
    /// A request with this id is stored already.
    DuplicateId,
    /// An update that should have changed one row changed none: the request
    /// is unknown, or not in the state that the update starts from.
    NoRowsUpdated(Update),
    /// The backup itself failed; the text is what the capability reported.
    Backup(String),
    /// The request waited longer than the staleness threshold.
    TooOld,
    /// An artifact file could not be written or deleted.
    Artifact(String),
    /// A text that should name a request is no UUID.
    InvalidId,
    /// A text that should name a status names none.
    InvalidStatus(String),
    /// The daemon was configured with no worker.
    NoWorkers,
    /// Rows that should make up a request table break a rule of the table.
    InvalidTable,
    /// A listing of the music service goes on, but not forward.
    ListingStalled,
}

impl QueueError {
    /// The human-readable description of the failure: what is stored as a
    /// request's `last_error` when its backup fails.
    pub open spec fn spec_message(&self) -> Seq<char> {
        match self {
            QueueError::Store(m) => m@,
            QueueError::DuplicateId => "a backup request with this id exists already"@,
            QueueError::NoRowsUpdated(Update::SetError) =>
                "could not set error on BackupRequest, updated 0 rows"@,
            QueueError::NoRowsUpdated(Update::SetCompleted) =>
                "could set BackupRequest to executed, updated 0 rows"@,
            QueueError::NoRowsUpdated(Update::SetExecuted) =>
                "could complete BackupRequest, updated 0 rows"@,
            QueueError::Backup(m) => m@,
            QueueError::TooOld => "pending job is too old"@,
            QueueError::Artifact(m) => m@,
            QueueError::InvalidId => "invalid UUID"@,
            QueueError::InvalidStatus(s) => "Could not parse RequestStatus: "@ + s@,
            QueueError::NoWorkers => "worker count must be at least 1"@,
            QueueError::InvalidTable => "the backup requests are inconsistent"@,
            QueueError::ListingStalled => "the listing does not advance"@,
        }
    }

    pub fn message(&self) -> (res: String)
        ensures
            res@ == self.spec_message(),
    {
        match self {
            QueueError::Store(m) => m.clone(),
            QueueError::DuplicateId => "a backup request with this id exists already".to_owned(),
            QueueError::NoRowsUpdated(Update::SetError) =>
                "could not set error on BackupRequest, updated 0 rows".to_owned(),
            QueueError::NoRowsUpdated(Update::SetCompleted) =>
                "could set BackupRequest to executed, updated 0 rows".to_owned(),
            QueueError::NoRowsUpdated(Update::SetExecuted) =>
                "could complete BackupRequest, updated 0 rows".to_owned(),
            QueueError::Backup(m) => m.clone(),
            QueueError::TooOld => "pending job is too old".to_owned(),
            QueueError::Artifact(m) => m.clone(),
            QueueError::InvalidId => "invalid UUID".to_owned(),
            QueueError::InvalidStatus(s) => {
                let mut text = "Could not parse RequestStatus: ".to_owned();
                text.append(s.as_str());
                text
            },
            QueueError::NoWorkers => "worker count must be at least 1".to_owned(),
            QueueError::InvalidTable => "the backup requests are inconsistent".to_owned(),
            QueueError::ListingStalled => "the listing does not advance".to_owned(),
        }
    }
}

} // verus!
