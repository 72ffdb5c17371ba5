//! The request table as a mathematical object: a sequence of records, in the
//! order in which they were stored, and what each operation of the store
//! means on it.

use crate::db::{BackupRequestView, RequestStatus};
use crate::shard::spec_thread_id;
use crate::timespec::Timespec;
use crate::token::TokenInfoView;
use vstd::prelude::*;

verus! {

/// A row of the request table: a request, and where it stands.
pub ghost struct Record {
    pub request: BackupRequestView,
    pub status: RequestStatus,
}

/// The request table: its rows, the one stored first at the front.
pub type Table = Seq<Record>;

/// What a status allows in a record's optional columns. A backup file is on
/// record exactly while the request is `Executed`, an error is on record on
/// every `Error` and on no `Pending` or `Executed` request, and a retired
/// request has lost its credential.
pub open spec fn record_wf(r: Record) -> bool {
    match r.status {
        RequestStatus::Pending => r.request.file is None && r.request.last_error is None,
        RequestStatus::Executed => r.request.file is Some && r.request.last_error is None,
        RequestStatus::Error => r.request.file is None && r.request.last_error is Some,
        RequestStatus::CompletedOk | RequestStatus::CompletedError => r.request.file is None
            && r.request.token == TokenInfoView::empty(),
    }
}

/// No two rows share an identifier.
pub open spec fn unique_ids(t: Table) -> bool {
    forall|i: int, j: int| 0 <= i < j < t.len() ==> t[i].request.id != t[j].request.id
}

/// The table is one that the store can hold.
pub open spec fn table_wf(t: Table) -> bool {
    &&& unique_ids(t)
    &&& forall|i: int| 0 <= i < t.len() ==> record_wf(#[trigger] t[i])
}

/// Some row has the identifier `id`.
pub open spec fn contains_id(t: Table, id: u128) -> bool {
    exists|i: int| 0 <= i < t.len() && (#[trigger] t[i]).request.id == id
}

/// The row of the request `id`, if the table has one.
pub open spec fn record_of(t: Table, id: u128) -> Option<Record> {
    if contains_id(t, id) {
        Some(t[choose|i: int| 0 <= i < t.len() && (#[trigger] t[i]).request.id == id])
    } else {
        None
    }
}

/// The request `id` is stored and waits for its backup.
pub open spec fn is_pending(t: Table, id: u128) -> bool {
    exists|i: int|
        0 <= i < t.len() && (#[trigger] t[i]).request.id == id && t[i].status
            == RequestStatus::Pending
}

/// The request `id` is stored, its backup was made or has failed, and it has
/// not been retired.
pub open spec fn is_executed(t: Table, id: u128) -> bool {
    exists|i: int|
        0 <= i < t.len() && (#[trigger] t[i]).request.id == id && t[i].status.spec_executed()
}

/// The record of a request that has just been stored: `Pending`, with no
/// file and no error, whatever the request handed in held there.
pub open spec fn pending_record(req: BackupRequestView) -> Record {
    Record {
        request: BackupRequestView { file: None, last_error: None, ..req },
        status: RequestStatus::Pending,
    }
}

/// The record after its backup failed with `error`.
pub open spec fn failed_record(r: Record, error: Seq<char>) -> Record {
    Record {
        request: BackupRequestView { last_error: Some(error), ..r.request },
        status: RequestStatus::Error,
    }
}

/// The record after its backup was written to `file`.
pub open spec fn executed_record(r: Record, file: Seq<char>) -> Record {
    Record {
        request: BackupRequestView { file: Some(file), ..r.request },
        status: RequestStatus::Executed,
    }
}

/// The record after it was retired: the file forgotten, the credential erased.
pub open spec fn retired_record(r: Record, with_error: bool) -> Record {
    Record {
        request: BackupRequestView { file: None, token: TokenInfoView::empty(), ..r.request },
        status: if with_error {
            RequestStatus::CompletedError
        } else {
            RequestStatus::CompletedOk
        },
    }
}

/// The table with `change` applied to the row of `id`, and every other row
/// as it was.
pub open spec fn updated(t: Table, id: u128, change: spec_fn(Record) -> Record) -> Table {
    Seq::new(
        t.len(),
        |i: int|
            if t[i].request.id == id {
                change(t[i])
            } else {
                t[i]
            },
    )
}

/// The table after the backup of the request `id` failed with `error`.
pub open spec fn with_error_set(t: Table, id: u128, error: Seq<char>) -> Table {
    updated(t, id, |r: Record| failed_record(r, error))
}

/// The table after the backup of the request `id` was written to `file`.
pub open spec fn with_executed_set(t: Table, id: u128, file: Seq<char>) -> Table {
    updated(t, id, |r: Record| executed_record(r, file))
}

/// The table after the request `id` was retired.
pub open spec fn with_completed_set(t: Table, id: u128, with_error: bool) -> Table {
    updated(t, id, |r: Record| retired_record(r, with_error))
}

/// The record waits for the worker thread `thread_id`: it is `Pending`, and
/// its identifier belongs to that thread.
pub open spec fn waits_for(r: Record, thread_id: u32, total_thread_count: u32) -> bool {
    r.status == RequestStatus::Pending && spec_thread_id(r.request.id, total_thread_count)
        == thread_id
}

/// Row `k` is the one that the thread claims next: of the rows that wait for
/// the thread it is the one created first, and of several created at the
/// same time the one stored first.
pub open spec fn is_oldest_pending(
    t: Table,
    k: int,
    thread_id: u32,
    total_thread_count: u32,
) -> bool {
    &&& 0 <= k < t.len()
    &&& waits_for(t[k], thread_id, total_thread_count)
    &&& forall|j: int|
        0 <= j < t.len() && waits_for(#[trigger] t[j], thread_id, total_thread_count) ==> {
            &&& !t[j].request.time_created.spec_before(&t[k].request.time_created)
            &&& j < k ==> t[k].request.time_created.spec_before(&t[j].request.time_created)
        }
}

/// The request that the thread claims next, if any waits for it.
pub open spec fn oldest_pending_of(t: Table, thread_id: u32, total_thread_count: u32) -> Option<
    BackupRequestView,
> {
    if exists|k: int| is_oldest_pending(t, k, thread_id, total_thread_count) {
        Some(t[choose|k: int| is_oldest_pending(t, k, thread_id, total_thread_count)].request)
    } else {
        None
    }
}

/// The record is due for retirement: its backup was made or has failed, and
/// it was created before `older_than`.
pub open spec fn is_candidate(r: Record, older_than: Timespec) -> bool {
    r.status.spec_executed() && r.request.time_created.spec_before(&older_than)
}

/// Row `i` comes before row `j` where rows are listed newest first: it was
/// created later, or at the same time and stored first.
pub open spec fn newer(t: Table, i: int, j: int) -> bool {
    t[j].request.time_created.spec_before(&t[i].request.time_created) || (
    t[i].request.time_created == t[j].request.time_created && i < j)
}

/// `picks` are the rows that a retirement sweep is handed: rows due for
/// retirement, newest first, at most `limit` of them, and none left out that
/// comes before one that is in.
pub open spec fn is_selection(t: Table, older_than: Timespec, limit: nat, picks: Seq<int>) -> bool {
    &&& picks.len() <= limit
    &&& forall|k: int|
        0 <= k < picks.len() ==> 0 <= #[trigger] picks[k] < t.len() && is_candidate(
            t[picks[k]],
            older_than,
        )
    &&& forall|k: int, l: int|
        0 <= k < l < picks.len() ==> newer(t, #[trigger] picks[k], #[trigger] picks[l])
    &&& forall|j: int|
        0 <= j < t.len() && is_candidate(#[trigger] t[j], older_than) && !picks.contains(j) ==> {
            &&& picks.len() == limit
            &&& forall|k: int| 0 <= k < picks.len() ==> newer(t, #[trigger] picks[k], j)
        }
}

/// The requests in the rows `picks`, in that order.
pub open spec fn requests_at(t: Table, picks: Seq<int>) -> Seq<BackupRequestView> {
    Seq::new(picks.len(), |k: int| t[picks[k]].request)
}

/// A status may only move forward: from `Pending` to `Executed` or `Error`,
/// and from either of those to `CompletedOk` or `CompletedError`.
pub open spec fn may_follow(from: RequestStatus, to: RequestStatus) -> bool {
    ||| from == to
    ||| from == RequestStatus::Pending && to.spec_executed()
    ||| from.spec_executed() && to.spec_completed()
}

/// `after` is what `before` may become: every request is still there, in its
/// row, created when it was, its status has only moved forward, and it has
/// its credential for as long as it is not retired.
pub open spec fn evolves(before: Table, after: Table) -> bool {
    &&& before.len() <= after.len()
    &&& forall|i: int|
        0 <= i < before.len() ==> {
            &&& (#[trigger] after[i]).request.id == before[i].request.id
            &&& after[i].request.time_created == before[i].request.time_created
            &&& may_follow(before[i].status, after[i].status)
            &&& !after[i].status.spec_completed() ==> after[i].request.token
                == before[i].request.token
        }
}

} // verus!
