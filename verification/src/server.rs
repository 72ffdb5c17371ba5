//! What the front end says of a backup request.

use crate::db::{clone_text, text_view, BackupRequest, BackupRequestView, RequestStatus};
use crate::request_id::{hyphenated, RequestId};
use crate::timespec::Timespec;
use crate::token::TokenInfo;
use vstd::prelude::*;
use vstd::string::StringExecFns;

verus! {

/// What a client is told of a backup request.
#[derive(Debug)]
pub struct BackupResponse {
    pub backup_id: RequestId,
    /// No such request is stored.
    pub missing: bool,
    /// The backup was made or has failed, and the request is not retired.
    pub executed: bool,
    /// The request is retired.
    pub completed: bool,
    pub error: Option<String>,
}

/// The request that the front end stores for a user who has just granted
/// access: nothing made of it yet, and nothing gone wrong.
pub fn new_backup_request(id: RequestId, token: TokenInfo, time_created: Timespec) -> (res:
    BackupRequest)
    ensures
        res@ == (BackupRequestView {
            id: id.value,
            token: token@,
            time_created,
            file: None,
            last_error: None,
        }),
{
    BackupRequest { id, token, time_created, file: None, last_error: None }
}

/// What is said of the request `uuid`, given what the request table holds of
/// it: of a stored request where it stands and its last error, and of any
/// other that it is missing.
pub fn backup_response(uuid: RequestId, found: &Option<(BackupRequest, RequestStatus)>) -> (res:
    BackupResponse)
    ensures
        res.backup_id == uuid,
        match *found {
            Some((backup, status)) => {
                &&& !res.missing
                &&& res.executed == status.spec_executed()
                &&& res.completed == status.spec_completed()
                &&& text_view(res.error) == text_view(backup.last_error)
            },
            None => {
                &&& res.missing
                &&& !res.executed
                &&& !res.completed
                &&& text_view(res.error) == Some("backup does not exist"@)
            },
        },
{
    match found {
        Some((backup, status)) => BackupResponse {
            backup_id: uuid,
            missing: false,
            executed: status.executed(),
            completed: status.completed(),
            error: clone_text(&backup.last_error),
        },
        None => BackupResponse {
            backup_id: uuid,
            missing: true,
            executed: false,
            completed: false,
            error: Some("backup does not exist".to_owned()),
        },
    }
}

/// Where the page of the request `id` lies under `base_path`.
pub open spec fn spec_backup_location(base_path: Seq<char>, id: u128) -> Seq<char> {
    base_path + "/backups/"@ + hyphenated(id)
}

/// The address that a user is sent to once the request `id` is stored.
pub fn backup_location(base_path: &str, id: &RequestId) -> (res: String)
    ensures
        res@ == spec_backup_location(base_path@, id.value),
{
    let mut location = base_path.to_owned();
    location.append("/backups/");
    location.append(id.text().as_str());
    location
}

} // verus!
