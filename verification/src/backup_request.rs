//! The request store: the table of backup requests, and the operations that
//! the front end, the worker threads and the retirement sweep work it with.
//!
//! The table is held in memory. Keeping it on disk is the caller's business:
//! `RequestStore::restore` takes the rows that were read, and
//! `RequestStore::writes` hands out what is to be written after a step.

use crate::db::{clone_text, BackupRequest, BackupRequestView, RequestStatus};
use crate::error::{QueueError, Update};
use crate::laws::{lemma_completed_evolves, lemma_error_evolves, lemma_executed_evolves};
use crate::request_id::RequestId;
use crate::table::{
    contains_id, evolves, is_candidate, is_executed, is_oldest_pending, is_pending, is_selection, newer,
    oldest_pending_of, pending_record, record_of, record_wf, requests_at, table_wf, waits_for,
    with_completed_set, with_error_set, with_executed_set, Record, Table,
};
use crate::timespec::Timespec;
use crate::token::{same_text, TokenInfo};
use vstd::prelude::*;
use vstd::seq_lib::lemma_seq_contains_after_push;

verus! {

/// A row of the request table.
#[derive(Debug)]
pub struct StoredRequest {
    pub request: BackupRequest,
    pub status: RequestStatus,
}

impl View for StoredRequest {
    type V = Record;

    open spec fn view(&self) -> Record {
        Record { request: self.request@, status: self.status }
    }
}

impl Clone for StoredRequest {
    fn clone(&self) -> (res: StoredRequest)
        ensures
            res@ == self@,
    {
        StoredRequest { request: self.request.clone(), status: self.status }
    }
}

/// The two rows hold the same.
pub fn same_row(a: &StoredRequest, b: &StoredRequest) -> (res: bool)
    ensures
        res == (a@ == b@),
{
    a.request.id.value == b.request.id.value && a.request.token.same(&b.request.token)
        && a.request.time_created == b.request.time_created && same_text(
        &a.request.file,
        &b.request.file,
    ) && same_text(&a.request.last_error, &b.request.last_error) && a.status == b.status
}

/// What is to be written to bring what is kept of a table up to date.
#[derive(Debug)]
pub enum Write {
    /// The row is new.
    Insert(StoredRequest),
    /// The row of this request has changed, and is now this.
    Update(StoredRequest),
}

/// What a `Write` holds.
pub ghost enum WriteView {
    Insert(Record),
    Update(Record),
}

impl View for Write {
    type V = WriteView;

    open spec fn view(&self) -> WriteView {
        match self {
            Write::Insert(row) => WriteView::Insert(row@),
            Write::Update(row) => WriteView::Update(row@),
        }
    }
}

/// What a list of writes holds.
pub open spec fn writes_view(writes: Seq<Write>) -> Seq<WriteView> {
    Seq::new(writes.len(), |i: int| writes[i]@)
}

/// What is to be written of the first `n` rows of the table `after` where
/// the table `before` is what is kept: in the order of the rows, an insert
/// for every row that `before` has not, and an update for every row that
/// differs from the one that `before` has in its place.
pub open spec fn writes_upto(before: Table, after: Table, n: int) -> Seq<WriteView>
    decreases n,
{
    if n <= 0 {
        Seq::empty()
    } else {
        let rest = writes_upto(before, after, n - 1);
        if n - 1 >= before.len() {
            rest.push(WriteView::Insert(after[n - 1]))
        } else if after[n - 1] != before[n - 1] {
            rest.push(WriteView::Update(after[n - 1]))
        } else {
            rest
        }
    }
}

/// The update that brings a row to the status `status`. No update brings a
/// row to `Pending`: a request is pending from the start.
pub open spec fn update_to(status: RequestStatus) -> Option<Update> {
    match status {
        RequestStatus::Pending => None,
        RequestStatus::Executed => Some(Update::SetExecuted),
        RequestStatus::Error => Some(Update::SetError),
        RequestStatus::CompletedOk | RequestStatus::CompletedError => Some(Update::SetCompleted),
    }
}

/// An update that was to bring one row to the status `status` has changed
/// `count` rows: none is a failure, and is never passed over. No row is
/// updated to `Pending`, so that is a failure, too.
pub fn rows_updated(count: usize, status: RequestStatus) -> (res: Result<(), QueueError>)
    ensures
        match res {
            Ok(_) => count > 0 && update_to(status) is Some,
            Err(e) => match update_to(status) {
                Some(update) => count == 0 && e == QueueError::NoRowsUpdated(update),
                None => e is InvalidTable,
            },
        },
{
    let update = match status {
        RequestStatus::Pending => {
            return Err(QueueError::InvalidTable);
        },
        RequestStatus::Executed => Update::SetExecuted,
        RequestStatus::Error => Update::SetError,
        RequestStatus::CompletedOk | RequestStatus::CompletedError => Update::SetCompleted,
    };
    if count > 0 {
        Ok(())
    } else {
        Err(QueueError::NoRowsUpdated(update))
    }
}

/// What a list of rows holds.
pub open spec fn rows_view(rows: Seq<StoredRequest>) -> Table {
    Seq::new(rows.len(), |i: int| rows[i]@)
}

/// What an optional request holds.
pub open spec fn request_view(found: Option<BackupRequest>) -> Option<BackupRequestView> {
    match found {
        Some(req) => Some(req@),
        None => None,
    }
}

/// What a list of requests holds.
pub open spec fn requests_view(found: Seq<BackupRequest>) -> Seq<BackupRequestView> {
    Seq::new(found.len(), |k: int| found[k]@)
}

/// What an optional request with its status holds.
pub open spec fn stored_view(found: Option<(BackupRequest, RequestStatus)>) -> Option<Record> {
    match found {
        Some((request, status)) => Some(Record { request: request@, status }),
        None => None,
    }
}

/// The row holds only what its status allows.
pub fn row_allowed(row: &StoredRequest) -> (res: bool)
    ensures
        res == record_wf(row@),
{
    match row.status {
        RequestStatus::Pending => row.request.file.is_none() && row.request.last_error.is_none(),
        RequestStatus::Executed => row.request.file.is_some() && row.request.last_error.is_none(),
        RequestStatus::Error => row.request.file.is_none() && row.request.last_error.is_some(),
        RequestStatus::CompletedOk | RequestStatus::CompletedError => row.request.file.is_none()
            && row.request.token.is_empty(),
    }
}

/// The request table. Every operation keeps it well-formed (`table_wf`):
/// every request is stored under its own identifier, and every row holds
/// only what its status allows.
pub struct RequestStore {
    rows: Vec<StoredRequest>,
}

impl View for RequestStore {
    type V = Table;

    closed spec fn view(&self) -> Table {
        rows_view(self.rows@)
    }
}

impl RequestStore {
    /// What holds of every request table.
    #[verifier::type_invariant]
    pub open spec fn inv(&self) -> bool {
        table_wf(self@)
    }

    /// The empty table.
    pub fn new() -> (res: RequestStore)
        ensures
            res@ == Seq::<Record>::empty(),
            table_wf(res@),
    {
        RequestStore { rows: Vec::new() }
    }

    /// The table that holds `rows`. They are refused where two of them share
    /// an identifier, or one holds what its status does not allow.
    pub fn restore(rows: Vec<StoredRequest>) -> (res: Result<RequestStore, QueueError>)
        ensures
            match res {
                Ok(store) => table_wf(store@) && store@ == rows_view(rows@),
                Err(e) => !table_wf(rows_view(rows@)) && e is InvalidTable,
            },
    {
        let ghost t = rows_view(rows@);
        let mut i: usize = 0;
        while i < rows.len()
            invariant
                i <= rows.len(),
                t == rows_view(rows@),
                forall|k: int| 0 <= k < i ==> record_wf(#[trigger] t[k]),
                forall|k: int, l: int|
                    0 <= k < l < i ==> (#[trigger] t[k]).request.id != (#[trigger] t[l]).request.id,
            decreases rows.len() - i,
        {
            if !row_allowed(&rows[i]) {
                return Err(QueueError::InvalidTable);
            }
            let mut j: usize = 0;
            while j < i
                invariant
                    j <= i < rows.len(),
                    t == rows_view(rows@),
                    forall|k: int|
                        0 <= k < j ==> (#[trigger] t[k]).request.id != t[i as int].request.id,
                decreases i - j,
            {
                if rows[j].request.id.value == rows[i].request.id.value {
                    assert(t[j as int].request.id == t[i as int].request.id);
                    return Err(QueueError::InvalidTable);
                }
                j += 1;
            }
            i += 1;
        }
        Ok(RequestStore { rows })
    }

    /// The rows of the table, the one stored first at the front.
    pub fn rows(&self) -> (res: &Vec<StoredRequest>)
        ensures
            rows_view(res@) == self@,
    {
        &self.rows
    }

    /// What is to be written to bring a copy of the table that holds `before`
    /// up to date with the table.
    pub fn writes(&self, before: &Vec<StoredRequest>) -> (res: Vec<Write>)
        ensures
            writes_view(res@) == writes_upto(rows_view(before@), self@, self@.len() as int),
    {
        let mut res: Vec<Write> = Vec::new();
        let mut i: usize = 0;
        while i < self.rows.len()
            invariant
                i <= self.rows.len(),
                writes_view(res@) == writes_upto(rows_view(before@), self@, i as int),
            decreases self.rows.len() - i,
        {
            let ghost so_far = res@;
            if i >= before.len() {
                res.push(Write::Insert(self.rows[i].clone()));
            } else if !same_row(&self.rows[i], &before[i]) {
                res.push(Write::Update(self.rows[i].clone()));
            }
            assert(forall|k: int|
                0 <= k < so_far.len() ==> writes_view(res@)[k] == writes_view(so_far)[k]);
            i += 1;
        }
        res
    }

    /// The number of rows.
    pub fn len(&self) -> (res: usize)
        ensures
            res == self@.len(),
    {
        self.rows.len()
    }

    /// Puts `row` in the place of row `i`.
    fn put(&mut self, i: usize, row: StoredRequest)
        requires
            i < old(self)@.len(),
            table_wf(old(self)@.update(i as int, row@)),
        ensures
            final(self)@ == old(self)@.update(i as int, row@),
    {
        let mut rows: Vec<StoredRequest> = Vec::new();
        std::mem::swap(&mut self.rows, &mut rows);
        rows[i] = row;
        assert(rows_view(rows@) =~= old(self)@.update(i as int, row@));
        self.rows = rows;
    }

    /// The index of the row of `id`.
    fn position(&self, id: RequestId) -> (res: Option<usize>)
        ensures
            match res {
                Some(i) => i < self@.len() && self@[i as int].request.id == id.value,
                None => !contains_id(self@, id.value),
            },
    {
        let mut i: usize = 0;
        while i < self.rows.len()
            invariant
                i <= self.rows.len(),
                forall|j: int| 0 <= j < i ==> (#[trigger] self@[j]).request.id != id.value,
            decreases self.rows.len() - i,
        {
            if self.rows[i].request.id.value == id.value {
                return Some(i);
            }
            i += 1;
        }
        None
    }
}

/// Stores the request `req` as a pending one, under its identifier and with
/// its credential and its time of creation. A file or an error that `req`
/// holds is not stored. Where a request with the identifier is stored
/// already, nothing changes and the call fails.
pub fn create(c: &mut RequestStore, req: &BackupRequest) -> (res: Result<RequestId, QueueError>)
    ensures
        table_wf(final(c)@),
        evolves(old(c)@, final(c)@),
        match res {
            Ok(id) => !contains_id(old(c)@, req.id.value) && id == req.id && final(c)@ == old(
                c,
            )@.push(pending_record(req@)),
            Err(e) => contains_id(old(c)@, req.id.value) && e is DuplicateId
                && final(c)@ == old(c)@,
        },
{
    proof {
        use_type_invariant(&*c);
    }
    match c.position(req.id) {
        Some(_) => Err(QueueError::DuplicateId),
        None => {
            let row = StoredRequest {
                request: BackupRequest {
                    id: req.id,
                    token: req.token.clone(),
                    time_created: req.time_created,
                    file: None,
                    last_error: None,
                },
                status: RequestStatus::Pending,
            };
            let mut rows: Vec<StoredRequest> = Vec::new();
            std::mem::swap(&mut c.rows, &mut rows);
            rows.push(row);
            assert(rows_view(rows@) =~= old(c)@.push(pending_record(req@)));
            c.rows = rows;
            Ok(req.id)
        },
    }
}

/// Records that the backup of the request `id` failed with `error`. Only a
/// pending request can fail: on any other, and on an unknown one, nothing
/// changes and the call fails.
pub fn set_error(c: &mut RequestStore, id: RequestId, error: &str) -> (res: Result<(), QueueError>)
    ensures
        table_wf(final(c)@),
        evolves(old(c)@, final(c)@),
        match res {
            Ok(_) => is_pending(old(c)@, id.value) && final(c)@ == with_error_set(
                old(c)@,
                id.value,
                error@,
            ),
            Err(e) => !is_pending(old(c)@, id.value) && e == QueueError::NoRowsUpdated(
                Update::SetError,
            ) && final(c)@ == old(c)@,
        },
{
    proof {
        use_type_invariant(&*c);
    }
    match c.position(id) {
        Some(i) => {
            if c.rows[i].status == RequestStatus::Pending {
                let row = StoredRequest {
                    request: BackupRequest {
                        id,
                        token: c.rows[i].request.token.clone(),
                        time_created: c.rows[i].request.time_created,
                        file: clone_text(&c.rows[i].request.file),
                        last_error: Some(error.to_owned()),
                    },
                    status: RequestStatus::Error,
                };
                c.put(i, row);
                proof {
                    lemma_error_evolves(old(c)@, id.value, error@);
                }
                Ok(())
            } else {
                Err(QueueError::NoRowsUpdated(Update::SetError))
            }
        },
        None => Err(QueueError::NoRowsUpdated(Update::SetError)),
    }
}

/// Retires the request `id`: it becomes `CompletedError` if `with_error`,
/// else `CompletedOk`, and loses its backup file and its credential. Only a
/// request whose backup was made or has failed can be retired: on any other,
/// and on an unknown one, nothing changes and the call fails.
pub fn set_completed(c: &mut RequestStore, id: RequestId, with_error: bool) -> (res: Result<
    (),
    QueueError,
>)
    ensures
        table_wf(final(c)@),
        evolves(old(c)@, final(c)@),
        match res {
            Ok(_) => is_executed(old(c)@, id.value) && final(c)@ == with_completed_set(
                old(c)@,
                id.value,
                with_error,
            ),
            Err(e) => !is_executed(old(c)@, id.value) && e == QueueError::NoRowsUpdated(
                Update::SetCompleted,
            ) && final(c)@ == old(c)@,
        },
{
    let final_status = if with_error {
        RequestStatus::CompletedError
    } else {
        RequestStatus::CompletedOk
    };
    proof {
        use_type_invariant(&*c);
    }
    match c.position(id) {
        Some(i) => {
            if c.rows[i].status.executed() {
                let row = StoredRequest {
                    request: BackupRequest {
                        id,
                        token: TokenInfo::default(),
                        time_created: c.rows[i].request.time_created,
                        file: None,
                        last_error: clone_text(&c.rows[i].request.last_error),
                    },
                    status: final_status,
                };
                c.put(i, row);
                proof {
                    lemma_completed_evolves(old(c)@, id.value, with_error);
                }
                Ok(())
            } else {
                Err(QueueError::NoRowsUpdated(Update::SetCompleted))
            }
        },
        None => Err(QueueError::NoRowsUpdated(Update::SetCompleted)),
    }
}

/// Records that the backup of the request `id` was made and lies in `file`.
/// Only a pending request can be executed: on any other, and on an unknown
/// one, nothing changes and the call fails.
pub fn set_executed(c: &mut RequestStore, id: RequestId, file: &str) -> (res: Result<
    (),
    QueueError,
>)
    ensures
        table_wf(final(c)@),
        evolves(old(c)@, final(c)@),
        match res {
            Ok(_) => is_pending(old(c)@, id.value) && final(c)@ == with_executed_set(
                old(c)@,
                id.value,
                file@,
            ),
            Err(e) => !is_pending(old(c)@, id.value) && e == QueueError::NoRowsUpdated(
                Update::SetExecuted,
            ) && final(c)@ == old(c)@,
        },
{
    proof {
        use_type_invariant(&*c);
    }
    match c.position(id) {
        Some(i) => {
            if c.rows[i].status == RequestStatus::Pending {
                let row = StoredRequest {
                    request: BackupRequest {
                        id,
                        token: c.rows[i].request.token.clone(),
                        time_created: c.rows[i].request.time_created,
                        file: Some(file.to_owned()),
                        last_error: clone_text(&c.rows[i].request.last_error),
                    },
                    status: RequestStatus::Executed,
                };
                c.put(i, row);
                proof {
                    lemma_executed_evolves(old(c)@, id.value, file@);
                }
                Ok(())
            } else {
                Err(QueueError::NoRowsUpdated(Update::SetExecuted))
            }
        },
        None => Err(QueueError::NoRowsUpdated(Update::SetExecuted)),
    }
}

/// The request with the identifier `id` and its status, if it is stored.
pub fn find_with_status(c: &RequestStore, id: RequestId) -> (res: Option<
    (BackupRequest, RequestStatus),
>)
    ensures
        stored_view(res) == record_of(c@, id.value),
{
    proof {
        use_type_invariant(c);
    }
    match c.position(id) {
        Some(i) => Some((c.rows[i].request.clone(), c.rows[i].status)),
        None => None,
    }
}

/// At most one row is the one that a thread claims next.
pub proof fn lemma_oldest_pending_is_one(
    t: Table,
    k: int,
    l: int,
    thread_id: u32,
    total_thread_count: u32,
)
    requires
        is_oldest_pending(t, k, thread_id, total_thread_count),
        is_oldest_pending(t, l, thread_id, total_thread_count),
    ensures
        k == l,
{
    // were `k` before `l`, row `l` would have been created before row `k`,
    // and row `k` not after row `l`
}

/// The request that the worker thread `thread_id`, one of
/// `total_thread_count`, is to work on next: of the pending requests that
/// belong to the thread the one created first. Nothing is changed by the
/// claim: the request stays pending until its outcome is recorded. With no
/// thread at all the call fails.
pub fn oldest_pending(c: &RequestStore, thread_id: u32, total_thread_count: u32) -> (res: Result<
    Option<BackupRequest>,
    QueueError,
>)
    ensures
        match res {
            Ok(found) => total_thread_count > 0 && request_view(found) == oldest_pending_of(
                c@,
                thread_id,
                total_thread_count,
            ),
            Err(e) => total_thread_count == 0 && e is NoWorkers,
        },
{
    if total_thread_count == 0 {
        return Err(QueueError::NoWorkers);
    }
    let mut best: Option<usize> = None;
    let mut i: usize = 0;
    while i < c.rows.len()
        invariant
            i <= c.rows.len(),
            total_thread_count > 0,
            match best {
                Some(b) => is_oldest_pending(
                    c@.take(i as int),
                    b as int,
                    thread_id,
                    total_thread_count,
                ),
                None => forall|j: int|
                    0 <= j < i ==> !waits_for(#[trigger] c@[j], thread_id, total_thread_count),
            },
        decreases c.rows.len() - i,
    {
        let row = &c.rows[i];
        if row.status == RequestStatus::Pending && crate::shard::thread_id(
            &row.request.id,
            total_thread_count,
        ) == thread_id {
            match best {
                Some(b) => {
                    if row.request.time_created.before(&c.rows[b].request.time_created) {
                        best = Some(i);
                    }
                },
                None => {
                    best = Some(i);
                },
            }
        }
        i += 1;
    }
    assert(c@.take(i as int) =~= c@);
    match best {
        Some(b) => {
            proof {
                let chosen = choose|k: int|
                    is_oldest_pending(c@, k, thread_id, total_thread_count);
                lemma_oldest_pending_is_one(c@, b as int, chosen, thread_id, total_thread_count);
            }
            Ok(Some(c.rows[b].request.clone()))
        },
        None => Ok(None),
    }
}

/// Row `m` is due for retirement and comes after row `last`, if there is
/// one, where rows are listed newest first.
spec fn follows(t: Table, older_than: Timespec, last: Option<usize>, m: int) -> bool {
    is_candidate(t[m], older_than) && match last {
        Some(l) => newer(t, l as int, m),
        None => true,
    }
}

/// The requests that a retirement sweep is to retire: those whose backup
/// was made or has failed and that were created before `older_than`, the
/// newest first, and no more than `limit` of them. Where more than `limit`
/// are due, the newest `limit` are handed out.
pub fn find_executed(c: &RequestStore, older_than: Timespec, limit: usize) -> (res: Vec<
    BackupRequest,
>)
    ensures
        exists|picks: Seq<int>| #[trigger]
            is_selection(c@, older_than, limit as nat, picks) && requests_view(res@)
                == requests_at(c@, picks),
{
    let mut result: Vec<BackupRequest> = Vec::new();
    let mut last: Option<usize> = None;
    let ghost mut picks: Seq<int> = Seq::empty();
    let ghost t = c@;
    while result.len() < limit
        invariant
            t == c@,
            picks.len() == result.len(),
            result.len() <= limit,
            requests_view(result@) == requests_at(t, picks),
            match last {
                Some(l) => picks.len() > 0 && picks.last() == l,
                None => picks.len() == 0,
            },
            forall|k: int|
                0 <= k < picks.len() ==> 0 <= #[trigger] picks[k] < t.len() && is_candidate(
                    t[picks[k]],
                    older_than,
                ),
            forall|k: int, l: int|
                0 <= k < l < picks.len() ==> newer(t, #[trigger] picks[k], #[trigger] picks[l]),
            forall|j: int|
                0 <= j < t.len() && is_candidate(#[trigger] t[j], older_than) && !picks.contains(
                    j,
                ) ==> forall|k: int| 0 <= k < picks.len() ==> newer(t, #[trigger] picks[k], j),
        ensures
            is_selection(t, older_than, limit as nat, picks),
            requests_view(result@) == requests_at(t, picks),
        decreases limit - result.len(),
    {
        let mut next: Option<usize> = None;
        let mut j: usize = 0;
        while j < c.rows.len()
            invariant
                t == c@,
                j <= c.rows.len(),
                match last {
                    Some(l) => picks.len() > 0 && picks.last() == l && l < t.len(),
                    None => picks.len() == 0,
                },
                match next {
                    Some(n) => n < j && follows(t, older_than, last, n as int),
                    None => true,
                },
                forall|m: int|
                    0 <= m < j && #[trigger] follows(t, older_than, last, m) ==> next is Some && (m
                        == next.unwrap() || newer(t, next.unwrap() as int, m)),
            decreases c.rows.len() - j,
        {
            let row = &c.rows[j];
            let due = row.status.executed() && row.request.time_created.before(&older_than);
            let after_last = match last {
                Some(l) => {
                    let at = &c.rows[l].request.time_created;
                    row.request.time_created.before(at) || (*at == row.request.time_created && l
                        < j)
                },
                None => true,
            };
            if due && after_last {
                match next {
                    Some(n) => {
                        if c.rows[n].request.time_created.before(&row.request.time_created) {
                            next = Some(j);
                        }
                    },
                    None => {
                        next = Some(j);
                    },
                }
            }
            j += 1;
        }
        match next {
            Some(n) => {
                let ghost grown = picks.push(n as int);
                let ghost found = result@;
                result.push(c.rows[n].request.clone());
                proof {
                    // a row that is due and still left out comes after the
                    // last row picked before, and so after row `n`
                    assert forall|j: int|
                        0 <= j < t.len() && is_candidate(#[trigger] t[j], older_than)
                            && !grown.contains(j) implies j != n && follows(
                        t,
                        older_than,
                        last,
                        j,
                    ) by {
                        lemma_seq_contains_after_push(picks, n as int, j);
                        if picks.len() > 0 {
                            assert(newer(t, picks.last(), j));
                        }
                    }
                    assert forall|k: int| 0 <= k < grown.len() implies requests_view(result@)[k]
                        == requests_at(t, grown)[k] by {
                        if k < picks.len() {
                            assert(requests_view(found)[k] == requests_at(t, picks)[k]);
                        }
                    }
                    picks = grown;
                }
                last = Some(n);
            },
            None => {
                proof {
                    // no row that is due is left out
                    assert forall|j: int|
                        0 <= j < t.len() && is_candidate(#[trigger] t[j], older_than) implies
                        picks.contains(j) by {
                        if picks.len() > 0 && !picks.contains(j) {
                            assert(newer(t, picks.last(), j));
                        }
                        assert(!follows(t, older_than, last, j));
                    }
                }
                break ;
            },
        }
    }
    result
}

} // verus!
