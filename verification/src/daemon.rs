//! What the daemon does with the request table: a worker thread's turn, and
//! the sweep that retires the requests that are done.

use crate::backup_fn::{ArtifactStore, BackupFn};
use crate::backup_request::{
    find_executed, oldest_pending, requests_view, set_completed, set_error, set_executed,
    RequestStore,
};
use crate::db::{BackupRequest, BackupRequestView, RequestStatus};
use crate::error::{QueueError, Update};
use crate::laws::lemma_sweep_evolves;
use crate::request_id::{hyphenated, RequestId};
use crate::serialize::Backup;
use crate::shard::spec_thread_id;
use crate::table::{
    evolves, is_executed, is_oldest_pending, is_pending, is_selection, newer,
    oldest_pending_of, requests_at, retired_record, table_wf, with_completed_set,
    with_error_set, with_executed_set, Table,
};
use crate::timespec::Timespec;
use crate::token::TokenInfo;
use vstd::prelude::*;
use vstd::seq_lib::lemma_seq_contains_after_push;
use vstd::string::StringExecFns;

verus! {

/// A pending request older than this many seconds is failed, not run.
pub const STALE_AFTER_SECS: u32 = 3600;

/// A request is retired once it is older than this many seconds.
pub const GRACE_SECS: u32 = 3600;

/// The number of requests that one sweep retires at most.
pub const SWEEP_BATCH: usize = 5;

/// The seconds that a worker thread rests after a turn that found nothing to
/// do.
pub const IDLE_PAUSE_SECS: u64 = 1;

/// The seconds that a worker thread rests after a turn in which the request
/// table could not be asked.
pub const BACKOFF_SECS: u64 = 5;

/// The seconds between two retirement sweeps.
pub const SWEEP_PAUSE_SECS: u64 = 5;

/// The request has waited too long for its backup to be worth making.
pub open spec fn spec_too_old(time_created: Timespec, now: Timespec) -> bool {
    time_created.spec_before(&now.spec_earlier_by(STALE_AFTER_SECS))
}

#[verifier::when_used_as_spec(spec_too_old)]
pub fn too_old(time_created: Timespec, now: Timespec) -> (res: bool)
    ensures
        res == spec_too_old(time_created, now),
{
    time_created.before(&now.earlier_by(STALE_AFTER_SECS))
}

/// Where the backup of the request `id` lies in the directory `backups_dir`.
pub open spec fn spec_backup_path(backups_dir: Seq<char>, id: u128) -> Seq<char> {
    backups_dir + "/"@ + hyphenated(id) + ".json"@
}

pub fn backup_path(backups_dir: &str, id: &RequestId) -> (res: String)
    ensures
        res@ == spec_backup_path(backups_dir@, id.value),
{
    let mut path = backups_dir.to_owned();
    path.append("/");
    path.append(id.text().as_str());
    path.append(".json");
    path
}

/// Hands `backup` to the artifact store under the path of the request. What
/// the store answers decides: where it has kept the backup, the path comes
/// back, and where it has failed, its failure.
pub fn write_backup<A: ArtifactStore>(
    artifacts: &mut A,
    req: &BackupRequest,
    backup: &Backup,
    backups_dir: &str,
) -> (res: Result<String, QueueError>)
    ensures
        res matches Ok(path) ==> path@ == spec_backup_path(backups_dir@, req.id.value),
        exists|store: &mut A, path: &str, written: Result<(), QueueError>|
            {
                &&& *store == *old(artifacts)
                &&& *final(store) == *final(artifacts)
                &&& path@ == spec_backup_path(backups_dir@, req.id.value)
                &&& #[trigger] call_ensures(A::write, (store, path, backup), written)
                &&& match written {
                    Ok(_) => res is Ok,
                    Err(e) => res == Err::<String, QueueError>(e),
                }
            },
{
    let path = backup_path(backups_dir, &req.id);
    match artifacts.write(path.as_str(), backup) {
        Ok(_) => Ok(path),
        Err(e) => Err(e),
    }
}

/// Makes the backup of the request `req` and hands it to the artifact
/// store, unless the request is too old: then nothing is asked of
/// `backup_fn`, nothing is written, and the request fails as too old.
///
/// Of a request that is not too old, `backup_fn` is asked for the backup
/// that the credential of the request gives access to. Where it fails, its
/// failure comes back, and nothing is written. Where it has made the backup,
/// the artifact store is asked to keep it under the path of the request:
/// where it has, that path comes back, and where it has failed, its failure.
pub fn make_backup<B: BackupFn, A: ArtifactStore>(
    backup_fn: &B,
    artifacts: &mut A,
    req: &BackupRequest,
    backups_dir: &str,
    now: Timespec,
) -> (res: Result<String, QueueError>)
    ensures
        spec_too_old(req.time_created, now) ==> (res matches Err(QueueError::TooOld))
            && *final(artifacts) == *old(artifacts),
        res matches Ok(path) ==> path@ == spec_backup_path(backups_dir@, req.id.value),
        !spec_too_old(req.time_created, now) ==> exists|
            token: TokenInfo,
            made: Result<Backup, QueueError>,
        |
            {
                &&& token@ == req.token@
                &&& #[trigger] call_ensures(B::apply, (backup_fn, token), made)
                &&& match made {
                    Err(e) => res == Err::<String, QueueError>(e)
                        && *final(artifacts) == *old(artifacts),
                    Ok(backup) => exists|
                        store: &mut A,
                        path: &str,
                        written: Result<(), QueueError>,
                    |
                        {
                            &&& *store == *old(artifacts)
                            &&& *final(store) == *final(artifacts)
                            &&& path@ == spec_backup_path(backups_dir@, req.id.value)
                            &&& #[trigger] call_ensures(A::write, (store, path, &backup), written)
                            &&& match written {
                                Ok(_) => res is Ok,
                                Err(e) => res == Err::<String, QueueError>(e),
                            }
                        },
                }
            },
{
    if too_old(req.time_created, now) {
        Err(QueueError::TooOld)
    } else {
        match backup_fn.apply(req.token.clone()) {
            Ok(backup) => write_backup(artifacts, req, &backup, backups_dir),
            Err(e) => Err(e),
        }
    }
}

/// What the table is left with once the attempt at the backup of the request
/// `id` has come to `made`: with the backup in `file`, the request is set to
/// `Executed`, if it is pending; with a failure, nothing is changed.
pub open spec fn backup_recorded(t: Table, id: u128, made: Result<String, QueueError>) -> Table {
    match made {
        Ok(file) if is_pending(t, id) => with_executed_set(t, id, file@),
        _ => t,
    }
}

/// Records what the attempt at the backup of the request `id` has come to.
/// A backup that was made is put on record, and the request is `Executed`.
/// A failure is handed on, and the table left as it is: it is the caller that
/// records the failure. A backup of a request that is not pending fails, too.
pub fn record_backup(c: &mut RequestStore, id: RequestId, made: Result<String, QueueError>) -> (res:
    Result<RequestId, QueueError>)
    ensures
        table_wf(final(c)@),
        evolves(old(c)@, final(c)@),
        final(c)@ == backup_recorded(old(c)@, id.value, made),
        match made {
            Ok(_) => if is_pending(old(c)@, id.value) {
                res == Ok::<RequestId, QueueError>(id)
            } else {
                res == Err::<RequestId, QueueError>(
                    QueueError::NoRowsUpdated(Update::SetExecuted),
                )
            },
            Err(e) => res == Err::<RequestId, QueueError>(e),
        },
{
    proof {
        use_type_invariant(&*c);
    }
    match made {
        Ok(file) => {
            set_executed(c, id, file.as_str())?;
            Ok(id)
        },
        Err(err) => Err(err),
    }
}

/// Makes the backup of a claimed request and records where it lies.
///
/// A request that is too old is refused before anything is asked of
/// `backup_fn`. Else `backup_fn` is asked for the backup that the credential
/// of the request gives access to, the artifact store is asked to keep it
/// under the path of the request, and the request is set to `Executed`:
/// its identifier comes back. Where `backup_fn` or the artifact store fails,
/// that failure comes back. Whatever fails, the table is left as it was: it
/// is the caller that records the failure.
pub fn process_backup_request<B: BackupFn, A: ArtifactStore>(
    c: &mut RequestStore,
    backup_fn: &B,
    artifacts: &mut A,
    req: &BackupRequest,
    backups_dir: &str,
    now: Timespec,
) -> (res: Result<RequestId, QueueError>)
    ensures
        table_wf(final(c)@),
        evolves(old(c)@, final(c)@),
        spec_too_old(req.time_created, now) ==> (res matches Err(QueueError::TooOld))
            && *final(artifacts) == *old(artifacts),
        match res {
            Ok(id) => id == req.id && !spec_too_old(req.time_created, now) && is_pending(
                old(c)@,
                id.value,
            ) && final(c)@ == with_executed_set(
                old(c)@,
                id.value,
                spec_backup_path(backups_dir@, id.value),
            ),
            Err(_) => final(c)@ == old(c)@,
        },
        !spec_too_old(req.time_created, now) ==> exists|
            token: TokenInfo,
            made: Result<Backup, QueueError>,
        |
            {
                &&& token@ == req.token@
                &&& #[trigger] call_ensures(B::apply, (backup_fn, token), made)
                &&& match made {
                    Err(e) => res == Err::<RequestId, QueueError>(e)
                        && *final(artifacts) == *old(artifacts),
                    Ok(backup) => exists|
                        store: &mut A,
                        path: &str,
                        written: Result<(), QueueError>,
                    |
                        {
                            &&& *store == *old(artifacts)
                            &&& *final(store) == *final(artifacts)
                            &&& path@ == spec_backup_path(backups_dir@, req.id.value)
                            &&& #[trigger] call_ensures(A::write, (store, path, &backup), written)
                            &&& match written {
                                Ok(_) => res == if is_pending(old(c)@, req.id.value) {
                                    Ok::<RequestId, QueueError>(req.id)
                                } else {
                                    Err::<RequestId, QueueError>(
                                        QueueError::NoRowsUpdated(Update::SetExecuted),
                                    )
                                },
                                Err(e) => res == Err::<RequestId, QueueError>(e),
                            }
                        },
                }
            },
{
    let made = make_backup(backup_fn, artifacts, req, backups_dir, now);
    record_backup(c, req.id, made)
}

/// What the table is left with once the turn for the claimed request `id`
/// has come to `outcome`: a failure is on record, with its message, if the
/// request is pending.
pub open spec fn failure_recorded(t: Table, id: u128, outcome: Result<RequestId, QueueError>) -> Table {
    match outcome {
        Err(e) if is_pending(t, id) => with_error_set(t, id, e.spec_message()),
        _ => t,
    }
}

/// Closes the turn for the claimed request `id`: where the turn has failed,
/// the failure's message is put on record and the request is in `Error`.
/// The outcome is handed on.
pub fn record_failure(c: &mut RequestStore, id: RequestId, outcome: Result<RequestId, QueueError>) -> (res:
    Result<Option<RequestId>, QueueError>)
    ensures
        table_wf(final(c)@),
        evolves(old(c)@, final(c)@),
        final(c)@ == failure_recorded(old(c)@, id.value, outcome),
        res == match outcome {
            Ok(done) => Ok::<Option<RequestId>, QueueError>(Some(done)),
            Err(e) => Err::<Option<RequestId>, QueueError>(e),
        },
{
    proof {
        use_type_invariant(&*c);
    }
    match outcome {
        Err(err) => {
            let message = err.message();
            let _ = set_error(c, id, message.as_str());
            Err(err)
        },
        Ok(done) => Ok(Some(done)),
    }
}

/// One turn of the worker thread `thread_id`, one of `total_thread_count`.
///
/// The thread claims the oldest pending request that belongs to it. With
/// none there, nothing happens. Else the request leaves `Pending` in this
/// turn. A request that is too old fails as such, without its backup being
/// tried. Of any other, `backup_fn` is asked for the backup that the
/// credential of the request gives access to, and the artifact store is
/// asked to keep it under the path of the request. Where both have done so,
/// the request is `Executed`, with that path on record, and its identifier
/// comes back. Where one of them has failed, that failure comes back, and
/// the request is in `Error` with the failure's message on record.
pub fn process_oldest_backup_request<B: BackupFn, A: ArtifactStore>(
    c: &mut RequestStore,
    backup_fn: &B,
    artifacts: &mut A,
    backups_dir: &str,
    thread_id: u32,
    total_thread_count: u32,
    now: Timespec,
) -> (res: Result<Option<RequestId>, QueueError>)
    ensures
        table_wf(final(c)@),
        evolves(old(c)@, final(c)@),
        total_thread_count == 0 ==> (res matches Err(QueueError::NoWorkers))
            && final(c)@ == old(c)@ && *final(artifacts) == *old(artifacts),
        total_thread_count > 0 ==> match oldest_pending_of(
            old(c)@,
            thread_id,
            total_thread_count,
        ) {
            None => (res matches Ok(None)) && final(c)@ == old(c)@
                && *final(artifacts) == *old(artifacts),
            Some(req) => {
                &&& (spec_too_old(req.time_created, now) ==> (res matches Err(
                    QueueError::TooOld,
                )) && *final(artifacts) == *old(artifacts))
                &&& (!spec_too_old(req.time_created, now) ==> exists|
                    token: TokenInfo,
                    made: Result<Backup, QueueError>,
                |
                    {
                        &&& token@ == req.token
                        &&& #[trigger] call_ensures(B::apply, (backup_fn, token), made)
                        &&& match made {
                            Err(e) => res == Err::<Option<RequestId>, QueueError>(e)
                                && *final(artifacts) == *old(artifacts),
                            Ok(backup) => exists|
                                store: &mut A,
                                path: &str,
                                written: Result<(), QueueError>,
                            |
                                {
                                    &&& *store == *old(artifacts)
                                    &&& *final(store) == *final(artifacts)
                                    &&& path@ == spec_backup_path(backups_dir@, req.id)
                                    &&& #[trigger] call_ensures(
                                        A::write,
                                        (store, path, &backup),
                                        written,
                                    )
                                    &&& match written {
                                        Ok(_) => res == Ok::<Option<RequestId>, QueueError>(
                                            Some(RequestId { value: req.id }),
                                        ),
                                        Err(e) => res == Err::<Option<RequestId>, QueueError>(e),
                                    }
                                },
                        }
                    })
                &&& match res {
                    Ok(done) => done == Some(RequestId { value: req.id }) && !spec_too_old(
                        req.time_created,
                        now,
                    ) && final(c)@ == with_executed_set(
                        old(c)@,
                        req.id,
                        spec_backup_path(backups_dir@, req.id),
                    ),
                    Err(e) => final(c)@ == with_error_set(old(c)@, req.id, e.spec_message()),
                }
            },
        },
{
    proof {
        use_type_invariant(&*c);
    }
    match oldest_pending(c, thread_id, total_thread_count) {
        Ok(Some(req)) => {
            proof {
                // what was claimed is pending
                let k = choose|k: int|
                    is_oldest_pending(c@, k, thread_id, total_thread_count);
                assert(c@[k].request.id == req.id.value);
            }
            let outcome = process_backup_request(
                c,
                backup_fn,
                artifacts,
                &req,
                backups_dir,
                now,
            );
            record_failure(c, req.id, outcome)
        },
        Ok(None) => Ok(None),
        Err(err) => Err(err),
    }
}

/// The table after the first `n` of the rows `picks` were retired, each for
/// `CompletedError` if it stood at `Error` and for `CompletedOk` if it stood
/// at `Executed`.
pub open spec fn retired_rows(t: Table, picks: Seq<int>, n: int) -> Table {
    Seq::new(
        t.len(),
        |i: int|
            if picks.take(n).contains(i) {
                retired_record(t[i], t[i].status == RequestStatus::Error)
            } else {
                t[i]
            },
    )
}

/// The identifiers of the rows `picks`, in that order.
pub open spec fn ids_at(t: Table, picks: Seq<int>) -> Seq<RequestId> {
    Seq::new(picks.len(), |k: int| RequestId { value: t[picks[k]].request.id })
}

/// Deletes the backup file of the request `req`, if it has one: the
/// artifact store is asked to delete what is kept under the path on record,
/// and its answer is handed on. Of a request without a file nothing is asked,
/// and nothing can fail.
pub fn delete_backup<A: ArtifactStore>(artifacts: &mut A, req: &BackupRequest) -> (res: Result<
    (),
    QueueError,
>)
    ensures
        match req.file {
            Some(file) => exists|store: &mut A, path: &str|
                {
                    &&& *store == *old(artifacts)
                    &&& *final(store) == *final(artifacts)
                    &&& path@ == file@
                    &&& #[trigger] call_ensures(A::delete, (store, path), res)
                },
            None => res is Ok && *final(artifacts) == *old(artifacts),
        },
{
    match &req.file {
        Some(file) => artifacts.delete(file.as_str()),
        None => Ok(()),
    }
}

/// What the table is left with once the attempt to delete the backup file of
/// the request `req` has come to `deleted`: with the file out of the way, the
/// request is retired, if its backup was made or has failed, for
/// `CompletedError` if it has an error on record and else for `CompletedOk`;
/// with a failure, nothing is changed.
pub open spec fn retirement_recorded(
    t: Table,
    req: BackupRequestView,
    deleted: Result<(), QueueError>,
) -> Table {
    match deleted {
        Ok(_) if is_executed(t, req.id) => with_completed_set(t, req.id, req.last_error is Some),
        _ => t,
    }
}

/// Retires the request `req` once its backup file is out of the way. A
/// failure to delete the file is handed on, and the request left as it is.
/// A request whose backup was neither made nor has failed is not retired
/// either.
pub fn retire(c: &mut RequestStore, req: &BackupRequest, deleted: Result<(), QueueError>) -> (res:
    Result<RequestId, QueueError>)
    ensures
        table_wf(final(c)@),
        evolves(old(c)@, final(c)@),
        final(c)@ == retirement_recorded(old(c)@, req@, deleted),
        match deleted {
            Ok(_) => if is_executed(old(c)@, req.id.value) {
                res == Ok::<RequestId, QueueError>(req.id)
            } else {
                res == Err::<RequestId, QueueError>(
                    QueueError::NoRowsUpdated(Update::SetCompleted),
                )
            },
            Err(e) => res == Err::<RequestId, QueueError>(e),
        },
{
    proof {
        use_type_invariant(&*c);
    }
    match deleted {
        Ok(_) => {
            set_completed(c, req.id, req.last_error.is_some())?;
            Ok(req.id)
        },
        Err(err) => Err(err),
    }
}

/// One retirement sweep at the time `now`.
///
/// The sweep takes the requests that `find_executed` hands out for the
/// requests older than the grace period, `SWEEP_BATCH` at most. In that order
/// it asks the artifact store to delete each one's backup file, if it has
/// one, and retires the request once the store has done so. Where the store
/// fails to delete a file the sweep stops there, with that failure: the
/// requests before are retired, that one and those after it are left for the
/// next sweep.
///
/// `stores` in the contract are the states that the artifact store goes
/// through: one before the sweep, and one after each request is dealt with.
pub fn delete_executed<A: ArtifactStore>(c: &mut RequestStore, artifacts: &mut A, now: Timespec) -> (res:
    Result<Vec<RequestId>, QueueError>)
    ensures
        table_wf(final(c)@),
        evolves(old(c)@, final(c)@),
        exists|picks: Seq<int>| #[trigger]
            is_selection(old(c)@, now.spec_earlier_by(GRACE_SECS), SWEEP_BATCH as nat, picks)
                && match res {
                Ok(ids) => ids@ == ids_at(old(c)@, picks) && final(c)@ == retired_rows(
                    old(c)@,
                    picks,
                    picks.len() as int,
                ) && exists|stores: Seq<A>|
                    {
                        &&& #[trigger] stores.len() == picks.len() + 1
                        &&& stores[0] == *old(artifacts)
                        &&& stores[picks.len() as int] == *final(artifacts)
                        &&& forall|k: int|
                            0 <= k < picks.len() ==> match old(c)@[#[trigger] picks[k]].request.file {
                                Some(file) => exists|
                                    store: &mut A,
                                    path: &str,
                                    answer: Result<(), QueueError>,
                                |
                                    *store == stores[k] && *final(store) == stores[k + 1] && path@
                                        == file && answer is Ok && #[trigger] call_ensures(
                                        A::delete,
                                        (store, path),
                                        answer,
                                    ),
                                None => stores[k + 1] == stores[k],
                            }
                    },
                Err(e) => exists|n: int|
                    0 <= n < picks.len() && old(c)@[picks[n]].request.file is Some && final(c)@
                        == #[trigger] retired_rows(old(c)@, picks, n) && exists|stores: Seq<A>|
                        {
                            &&& #[trigger] stores.len() == n + 1
                            &&& stores[0] == *old(artifacts)
                            &&& forall|k: int|
                                0 <= k < n ==> match old(c)@[#[trigger] picks[k]].request.file {
                                    Some(file) => exists|
                                        store: &mut A,
                                        path: &str,
                                        answer: Result<(), QueueError>,
                                    |
                                        *store == stores[k] && *final(store) == stores[k + 1]
                                            && path@ == file && answer is Ok
                                            && #[trigger] call_ensures(
                                            A::delete,
                                            (store, path),
                                            answer,
                                        ),
                                    None => stores[k + 1] == stores[k],
                                }
                            &&& exists|store: &mut A, path: &str|
                                *store == stores[n] && *final(store) == *final(artifacts)
                                    && old(c)@[picks[n]].request.file == Some(path@)
                                    && #[trigger] call_ensures(
                                    A::delete,
                                    (store, path),
                                    Err::<(), QueueError>(e),
                                )
                        },
            },
{
    proof {
        use_type_invariant(&*c);
    }
    let older_than = now.earlier_by(GRACE_SECS);
    let executed = find_executed(c, older_than, SWEEP_BATCH);
    let ghost t = c@;
    let ghost picks = choose|picks: Seq<int>| #[trigger]
        is_selection(t, older_than, SWEEP_BATCH as nat, picks) && requests_view(executed@)
            == requests_at(t, picks);
    let mut ids: Vec<RequestId> = Vec::new();
    let mut k: usize = 0;
    let ghost mut stores: Seq<A> = seq![*artifacts];
    assert(requests_view(executed@).len() == requests_at(t, picks).len());
    while k < executed.len()
        invariant
            k <= executed.len(),
            executed.len() == picks.len(),
            t == old(c)@,
            older_than == now.spec_earlier_by(GRACE_SECS),
            table_wf(t),
            table_wf(c@),
            is_selection(t, older_than, SWEEP_BATCH as nat, picks),
            requests_view(executed@) == requests_at(t, picks),
            c@ == retired_rows(t, picks, k as int),
            ids@ == ids_at(t, picks.take(k as int)),
            stores.len() == k + 1,
            stores[0] == *old(artifacts),
            stores[k as int] == *artifacts,
            forall|j: int|
                0 <= j < k ==> match t[#[trigger] picks[j]].request.file {
                    Some(file) => exists|store: &mut A, path: &str, answer: Result<(), QueueError>|
                        *store == stores[j] && *final(store) == stores[j + 1] && path@ == file
                            && answer is Ok && #[trigger] call_ensures(
                            A::delete,
                            (store, path),
                            answer,
                        ),
                    None => stores[j + 1] == stores[j],
                },
        decreases executed.len() - k,
    {
        let req = &executed[k];
        let ghost row = picks[k as int];
        let ghost taken = picks.take(k as int);
        proof {
            // the request at hand is in a row that no turn before has retired
            assert(req@ == requests_view(executed@)[k as int]);
            lemma_picks_differ(t, older_than, SWEEP_BATCH as nat, picks);
            assert(!taken.contains(row));
            assert(c@[row] == t[row]);
        }
        let deleted = delete_backup(artifacts, req);
        let ghost answer = deleted;
        let ghost kept = stores;
        proof {
            stores = stores.push(*artifacts);
        }
        if let Err(err) = retire(c, req, deleted) {
            proof {
                lemma_sweep_evolves(t, older_than, SWEEP_BATCH as nat, picks, k as int);
                assert(answer == Err::<(), QueueError>(err));
                assert(kept.len() == k + 1);
            }
            return Err(err);
        }
        proof {
            // the rows retired by now are those retired before, and this one
            assert(picks.take(k + 1) =~= taken.push(row));
            assert forall|i: int| picks.take(k + 1).contains(i) <==> taken.contains(i) || i
                == row by {
                lemma_seq_contains_after_push(taken, row, i);
            }
            assert(c@ =~= retired_rows(t, picks, k + 1));
            assert(answer is Ok);
            assert forall|j: int| 0 <= j < k + 1 implies match t[#[trigger] picks[j]].request.file {
                Some(file) => exists|store: &mut A, path: &str, answer: Result<(), QueueError>|
                    *store == stores[j] && *final(store) == stores[j + 1] && path@ == file
                        && answer is Ok && #[trigger] call_ensures(
                        A::delete,
                        (store, path),
                        answer,
                    ),
                None => stores[j + 1] == stores[j],
            } by {
                if j < k {
                    assert(stores[j] == kept[j] && stores[j + 1] == kept[j + 1]);
                }
            }
        }
        ids.push(req.id);
        k += 1;
    }
    proof {
        lemma_sweep_evolves(t, older_than, SWEEP_BATCH as nat, picks, k as int);
    }
    Ok(ids)
}

/// No row is picked twice.
pub proof fn lemma_picks_differ(t: Table, older_than: Timespec, limit: nat, picks: Seq<int>)
    requires
        is_selection(t, older_than, limit, picks),
    ensures
        forall|k: int, l: int|
            0 <= k < l < picks.len() ==> #[trigger] picks[k] != #[trigger] picks[l],
{
    assert forall|k: int, l: int| 0 <= k < l < picks.len() implies #[trigger] picks[k]
        != #[trigger] picks[l] by {
        assert(newer(t, picks[k], picks[l]));
    }
}

/// A worker thread's place among the worker threads.
#[derive(Debug, Clone, Copy, PartialEq, Eq, Structural)]
pub struct Worker {
    pub thread_id: u32,
    pub total_thread_count: u32,
}

/// The worker threads that a daemon with `worker_count` workers starts: one
/// for each thread number below `worker_count`, so that every request
/// belongs to exactly one of them. A daemon without workers is refused.
pub fn workers(worker_count: u32) -> (res: Result<Vec<Worker>, QueueError>)
    ensures
        match res {
            Ok(started) => worker_count > 0 && started.len() == worker_count && forall|i: int|
                0 <= i < started.len() ==> #[trigger] started[i] == (Worker {
                    thread_id: i as u32,
                    total_thread_count: worker_count,
                }),
            Err(e) => worker_count == 0 && e is NoWorkers,
        },
{
    if worker_count == 0 {
        return Err(QueueError::NoWorkers);
    }
    let mut started: Vec<Worker> = Vec::new();
    let mut tid: u32 = 0;
    while tid < worker_count
        invariant
            tid <= worker_count,
            started.len() == tid,
            forall|i: int|
                0 <= i < started.len() ==> #[trigger] started[i] == (Worker {
                    thread_id: i as u32,
                    total_thread_count: worker_count,
                }),
        decreases worker_count - tid,
    {
        started.push(Worker { thread_id: tid, total_thread_count: worker_count });
        tid += 1;
    }
    Ok(started)
}

/// Whatever its identifier, a request has exactly one of the started workers
/// to claim it.
pub proof fn lemma_one_worker_claims(started: Seq<Worker>, worker_count: u32, id: u128)
    requires
        worker_count > 0,
        started.len() == worker_count,
        forall|i: int|
            0 <= i < started.len() ==> #[trigger] started[i] == (Worker {
                thread_id: i as u32,
                total_thread_count: worker_count,
            }),
    ensures
        exists|i: int|
            0 <= i < started.len() && owns(#[trigger] started[i], id) && forall|j: int|
                0 <= j < started.len() && owns(#[trigger] started[j], id) ==> j == i,
{
    let i = spec_thread_id(id, worker_count);
    assert(owns(started[i], id));
}

/// The worker is the one that the request `id` belongs to.
pub open spec fn owns(worker: Worker, id: u128) -> bool {
    worker.total_thread_count > 0 && spec_thread_id(id, worker.total_thread_count)
        == worker.thread_id
}

/// The connections to the request table that a daemon with `worker_count`
/// workers holds at once: one for each worker, and one for the sweep.
pub fn connections_needed(worker_count: u32) -> (res: u64)
    ensures
        res == worker_count + 1,
{
    worker_count as u64 + 1
}

/// The seconds that a worker thread rests after a turn with the outcome
/// `outcome`. After a request, done or failed, it goes on at once; with
/// nothing to do it rests for `IDLE_PAUSE_SECS`; and where the table could
/// not be asked, it rests for `BACKOFF_SECS`.
pub open spec fn spec_worker_pause(outcome: Result<Option<RequestId>, QueueError>) -> u64 {
    match outcome {
        Ok(Some(_)) => 0,
        Ok(None) => IDLE_PAUSE_SECS,
        Err(QueueError::Store(_)) => BACKOFF_SECS,
        Err(QueueError::NoWorkers) => BACKOFF_SECS,
        Err(_) => 0,
    }
}

pub fn worker_pause(outcome: &Result<Option<RequestId>, QueueError>) -> (res: u64)
    ensures
        res == spec_worker_pause(*outcome),
{
    match outcome {
        Ok(Some(_)) => 0,
        Ok(None) => IDLE_PAUSE_SECS,
        Err(QueueError::Store(_)) => BACKOFF_SECS,
        Err(QueueError::NoWorkers) => BACKOFF_SECS,
        Err(_) => 0,
    }
}

} // verus!
