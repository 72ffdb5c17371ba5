//! The request entity and its lifecycle.

use crate::error::QueueError;
use crate::request_id::{parsed_uuid, RequestId};
use crate::timespec::Timespec;
use crate::token::{TokenInfo, TokenInfoView};
use vstd::prelude::*;

verus! {

/// A request for one backup, as the request table holds it.
#[derive(Debug)]
pub struct BackupRequest {
    /// Names the request, and decides which worker thread it belongs to.
    pub id: RequestId,
    /// The credential that the backup runs with.
    pub token: TokenInfo,
    /// When the request was made. Requests are worked off, timed out and
    /// retired by this.
    pub time_created: Timespec,
    /// Where the backup lies, once it has been made.
    pub file: Option<String>,
    /// Why the backup failed, if it did.
    pub last_error: Option<String>,
}

/// What a `BackupRequest` holds.
pub ghost struct BackupRequestView {
    pub id: u128,
    pub token: TokenInfoView,
    pub time_created: Timespec,
    pub file: Option<Seq<char>>,
    pub last_error: Option<Seq<char>>,
}

/// What an optional text holds.
pub open spec fn text_view(text: Option<String>) -> Option<Seq<char>> {
    match text {
        Some(t) => Some(t@),
        None => None,
    }
}

impl View for BackupRequest {
    type V = BackupRequestView;

    open spec fn view(&self) -> BackupRequestView {
        BackupRequestView {
            id: self.id.value,
            token: self.token@,
            time_created: self.time_created,
            file: text_view(self.file),
            last_error: text_view(self.last_error),
        }
    }
}

/// A copy of an optional text.
pub fn clone_text(text: &Option<String>) -> (res: Option<String>)
    ensures
        text_view(res) == text_view(*text),
{
    match text {
        Some(t) => Some(t.clone()),
        None => None,
    }
}

impl Clone for BackupRequest {
    fn clone(&self) -> (res: BackupRequest)
        ensures
            res@ == self@,
    {
        BackupRequest {
            id: self.id,
            token: self.token.clone(),
            time_created: self.time_created,
            file: clone_text(&self.file),
            last_error: clone_text(&self.last_error),
        }
    }
}

/// A row of the request table as the database hands it out, the identifier
/// still as the text of its column.
#[derive(Debug)]
pub struct Row {
    pub id: String,
    pub token: TokenInfo,
    pub time_created: Timespec,
    pub file: Option<String>,
    pub last_error: Option<String>,
}

/// The request that the row `row` holds, given the identifier `id` that its
/// text stands for.
pub fn request_in(row: Row, id: RequestId) -> (res: BackupRequest)
    ensures
        res@ == (BackupRequestView {
            id: id.value,
            token: row.token@,
            time_created: row.time_created,
            file: text_view(row.file),
            last_error: text_view(row.last_error),
        }),
{
    BackupRequest {
        id,
        token: row.token,
        time_created: row.time_created,
        file: row.file,
        last_error: row.last_error,
    }
}

/// Reads a request out of a row. The row is refused where its identifier is
/// no UUID.
pub fn from_row(row: Row) -> (res: Result<BackupRequest, QueueError>)
    ensures
        match parsed_uuid(row.id@) {
            Some(value) => res matches Ok(req) && req@ == (BackupRequestView {
                id: value,
                token: row.token@,
                time_created: row.time_created,
                file: text_view(row.file),
                last_error: text_view(row.last_error),
            }),
            None => res matches Err(QueueError::InvalidId),
        },
{
    let id = RequestId::parse_str(row.id.as_str())?;
    Ok(request_in(row, id))
}

/// Where a backup request stands in its lifecycle.
///
/// ```text
/// Pending +--> Executed --> (grace period) --> CompletedOk
///         |
///         +--> Error    --> (grace period) --> CompletedError
/// ```
#[derive(Debug, Clone, Copy, PartialEq, Eq, Structural)]
pub enum RequestStatus {
    Pending,
    Executed,
    Error,
    CompletedOk,
    CompletedError,
}

impl RequestStatus {
    /// The worker is done with the request, and the sweep has not retired it yet.
    pub open spec fn spec_executed(&self) -> bool {
        *self == RequestStatus::Executed || *self == RequestStatus::Error
    }

    /// The request has been retired.
    pub open spec fn spec_completed(&self) -> bool {
        *self == RequestStatus::CompletedOk || *self == RequestStatus::CompletedError
    }

    #[verifier::when_used_as_spec(spec_executed)]
    pub fn executed(&self) -> (res: bool)
        ensures
            res == self.spec_executed(),
    {
        match self {
            Self::Executed | Self::Error => true,
            _ => false,
        }
    }

    #[verifier::when_used_as_spec(spec_completed)]
    pub fn completed(&self) -> (res: bool)
        ensures
            res == self.spec_completed(),
    {
        match self {
            Self::CompletedOk | Self::CompletedError => true,
            _ => false,
        }
    }

    /// The text that stands for the status in the request table.
    pub open spec fn spec_name(&self) -> Seq<char> {
        match self {
            RequestStatus::Pending => "Pending"@,
            RequestStatus::Executed => "Executed"@,
            RequestStatus::Error => "Error"@,
            RequestStatus::CompletedOk => "CompletedOk"@,
            RequestStatus::CompletedError => "CompletedError"@,
        }
    }

    pub fn name(&self) -> (res: &'static str)
        ensures
            res@ == self.spec_name(),
    {
        match self {
            RequestStatus::Pending => "Pending",
            RequestStatus::Executed => "Executed",
            RequestStatus::Error => "Error",
            RequestStatus::CompletedOk => "CompletedOk",
            RequestStatus::CompletedError => "CompletedError",
        }
    }

    /// Reads a status from its text in the request table. Any other text is
    /// refused, and the failure quotes it.
    pub fn parse(text: &str) -> (res: Result<RequestStatus, QueueError>)
        ensures
            match res {
                Ok(status) => text@ == status.spec_name(),
                Err(e) => e matches QueueError::InvalidStatus(quoted) && quoted@ == text@
                    && forall|status: RequestStatus| text@ != #[trigger] status.spec_name(),
            },
    {
        let given = text.to_owned();
        if given == "Pending".to_owned() {
            Ok(RequestStatus::Pending)
        } else if given == "Executed".to_owned() {
            Ok(RequestStatus::Executed)
        } else if given == "Error".to_owned() {
            Ok(RequestStatus::Error)
        } else if given == "CompletedOk".to_owned() {
            Ok(RequestStatus::CompletedOk)
        } else if given == "CompletedError".to_owned() {
            Ok(RequestStatus::CompletedError)
        } else {
            Err(QueueError::InvalidStatus(given))
        }
    }
}

/// No two statuses share a text: what `parse` reads from the `name` of a
/// status is that status.
pub proof fn lemma_names_differ(a: RequestStatus, b: RequestStatus)
    ensures
        a.spec_name() == b.spec_name() ==> a == b,
{
    reveal_strlit("Pending");
    reveal_strlit("Executed");
    reveal_strlit("Error");
    reveal_strlit("CompletedOk");
    reveal_strlit("CompletedError");
    if a.spec_name() == b.spec_name() {
        assert(a.spec_name().len() == b.spec_name().len());
    }
}

} // verus!
