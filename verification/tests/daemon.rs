use std::cell::Cell;

use spotify_backup::backup_fn::{ArtifactStore, BackupFn};
use spotify_backup::backup_request::{create, find_executed, find_with_status, RequestStore};
use spotify_backup::backup_request::{set_error, set_executed};
use spotify_backup::daemon::{
    backup_path, connections_needed, delete_backup, delete_executed, make_backup,
    process_backup_request, process_oldest_backup_request, record_backup, record_failure, retire,
    too_old, worker_pause, workers, write_backup, Worker, BACKOFF_SECS, GRACE_SECS,
    IDLE_PAUSE_SECS, STALE_AFTER_SECS, SWEEP_BATCH, SWEEP_PAUSE_SECS,
};
use spotify_backup::db::{BackupRequest, RequestStatus};
use spotify_backup::error::{QueueError, Update};
use spotify_backup::request_id::RequestId;
use spotify_backup::serialize::Backup;
use spotify_backup::shard::thread_id;
use spotify_backup::timespec::Timespec;
use spotify_backup::token::TokenInfo;

const T0: i64 = 1_600_000_000;
const TEST_BACKUP_DIR: &str = "/tmp/backups";

fn at(sec: i64) -> Timespec {
    Timespec::new(sec, 0)
}

/// The time at which the requests of these tests are made.
fn now() -> Timespec {
    at(T0)
}

/// 61 minutes after `now()`: a request made at `now()` is then past the
/// grace period.
fn later() -> Timespec {
    at(T0 + 61 * 60)
}

fn past() -> Timespec {
    later().earlier_by(GRACE_SECS)
}

fn new_req() -> BackupRequest {
    BackupRequest {
        id: RequestId::from_u128(uuid::Uuid::new_v4().as_u128()),
        token: TokenInfo::default(),
        time_created: now(),
        file: None,
        last_error: None,
    }
}

struct EmptyBackup;

impl BackupFn for EmptyBackup {
    fn apply(&self, _token_info: TokenInfo) -> Result<Backup, QueueError> {
        Ok(Backup { albums: vec![], playlists: vec![] })
    }
}

struct ErrorBackup;

impl BackupFn for ErrorBackup {
    fn apply(&self, _token_info: TokenInfo) -> Result<Backup, QueueError> {
        Err(QueueError::Backup("[test] error backup".to_string()))
    }
}

/// A backup that must not be asked for.
struct NeverBackup;

impl BackupFn for NeverBackup {
    fn apply(&self, _token_info: TokenInfo) -> Result<Backup, QueueError> {
        panic!("the backup was run")
    }
}

/// A backup that counts how often it is asked for, and remembers the token.
struct CountingBackup {
    calls: Cell<u32>,
    seen: Cell<u32>,
}

impl BackupFn for CountingBackup {
    fn apply(&self, token_info: TokenInfo) -> Result<Backup, QueueError> {
        self.calls.set(self.calls.get() + 1);
        self.seen.set(token_info.expires_in);
        Ok(Backup { albums: vec![], playlists: vec![] })
    }
}

/// Backups kept in memory.
struct Shelf {
    files: Vec<(String, Backup)>,
    broken: bool,
}

impl Shelf {
    fn new() -> Shelf {
        Shelf { files: vec![], broken: false }
    }

    fn holds(&self, path: &str) -> bool {
        self.files.iter().any(|(p, _)| p == path)
    }

    fn read(&self, path: &str) -> Option<&Backup> {
        self.files.iter().find(|(p, _)| p == path).map(|(_, b)| b)
    }
}

impl ArtifactStore for Shelf {
    fn write(&mut self, path: &str, backup: &Backup) -> Result<(), QueueError> {
        if self.broken {
            return Err(QueueError::Artifact("[test] disk full".to_string()));
        }
        self.files.retain(|(p, _)| p != path);
        self.files.push((path.to_string(), backup.clone()));
        Ok(())
    }

    fn delete(&mut self, path: &str) -> Result<(), QueueError> {
        if self.broken {
            return Err(QueueError::Artifact("[test] cannot delete".to_string()));
        }
        let before = self.files.len();
        self.files.retain(|(p, _)| p != path);
        if self.files.len() < before {
            Ok(())
        } else {
            Err(QueueError::Artifact("[test] no such file".to_string()))
        }
    }
}

#[test]
fn test_processes_existing_backup_request() {
    let mut store = RequestStore::new();
    let mut shelf = Shelf::new();
    let req = new_req();
    create(&mut store, &req).unwrap();

    let existing = process_oldest_backup_request(
        &mut store,
        &EmptyBackup,
        &mut shelf,
        TEST_BACKUP_DIR,
        0,
        1,
        now(),
    )
    .unwrap();

    assert_eq!(existing.unwrap(), req.id);

    let all_executed = find_executed(&store, past(), 5);
    let executed = all_executed.first().unwrap();

    assert_eq!(executed.id, req.id);
    assert!(executed.file.is_some());
    assert!(executed.last_error.is_none());
}

#[test]
fn test_writes_backup_to_file() {
    let mut store = RequestStore::new();
    let mut shelf = Shelf::new();
    let req = new_req();
    create(&mut store, &req).unwrap();

    let existing =
        process_backup_request(&mut store, &EmptyBackup, &mut shelf, &req, TEST_BACKUP_DIR, now())
            .unwrap();

    assert_eq!(existing, req.id);

    let db_saved = find_with_status(&store, req.id).unwrap();

    let backup = shelf.read(&db_saved.0.file.unwrap()).unwrap();

    assert_eq!(backup.albums.len(), 0);
    assert_eq!(backup.playlists.len(), 0);
}

#[test]
fn test_sets_error_if_backup_fails() {
    let mut store = RequestStore::new();
    let mut shelf = Shelf::new();
    let req = new_req();
    create(&mut store, &req).unwrap();

    let res = process_oldest_backup_request(
        &mut store,
        &ErrorBackup,
        &mut shelf,
        TEST_BACKUP_DIR,
        0,
        1,
        now(),
    );
    let err_msg = res.err().unwrap().message();

    assert_eq!(err_msg, "[test] error backup");

    let all_executed = find_executed(&store, past(), 5);
    let executed = all_executed.first().unwrap();

    assert_eq!(executed.id, req.id);
    assert!(executed.file.is_none());
    assert_eq!(executed.last_error.as_ref().unwrap(), "[test] error backup");
}

#[test]
fn test_ok_if_no_backups() {
    let mut store = RequestStore::new();
    let mut shelf = Shelf::new();
    let existing = process_oldest_backup_request(
        &mut store,
        &NeverBackup,
        &mut shelf,
        TEST_BACKUP_DIR,
        0,
        1,
        now(),
    )
    .unwrap();
    assert_eq!(existing, None);
}

#[test]
fn test_deletes_success_expired_backups() {
    let mut store = RequestStore::new();
    let mut shelf = Shelf::new();
    let req = new_req();
    create(&mut store, &req).unwrap();

    process_backup_request(&mut store, &EmptyBackup, &mut shelf, &req, TEST_BACKUP_DIR, now())
        .unwrap();
    let executed = find_with_status(&store, req.id).unwrap().0;
    assert!(shelf.holds(executed.file.as_ref().unwrap()));

    let before = find_executed(&store, past(), 5);
    assert_eq!(before.first().unwrap().id, req.id);

    let deleted = delete_executed(&mut store, &mut shelf, later()).unwrap();
    assert_eq!(*deleted.first().unwrap(), req.id);
    assert!(!shelf.holds(&executed.file.unwrap()));

    let after = find_executed(&store, past(), 5);
    assert!(after.is_empty());

    let (retired, status) = find_with_status(&store, req.id).unwrap();
    assert_eq!(status, RequestStatus::CompletedOk);
    assert_eq!(retired.file, None);
    assert!(retired.token.is_empty());
}

#[test]
fn test_deletes_error_expired_backups() {
    let mut store = RequestStore::new();
    let mut shelf = Shelf::new();
    let req = new_req();
    create(&mut store, &req).unwrap();

    let _ = process_oldest_backup_request(
        &mut store,
        &ErrorBackup,
        &mut shelf,
        TEST_BACKUP_DIR,
        0,
        1,
        now(),
    );

    let before = find_executed(&store, past(), 5);
    assert_eq!(before.first().unwrap().id, req.id);

    let deleted = delete_executed(&mut store, &mut shelf, later()).unwrap();
    assert_eq!(*deleted.first().unwrap(), req.id);

    let after = find_executed(&store, past(), 5);
    assert!(after.is_empty());

    let (retired, status) = find_with_status(&store, req.id).unwrap();
    assert_eq!(status, RequestStatus::CompletedError);
    assert_eq!(retired.last_error.as_deref(), Some("[test] error backup"));
}

#[test]
fn test_does_not_run_very_old_backups() {
    let mut store = RequestStore::new();
    let mut shelf = Shelf::new();
    let req = new_req();
    create(&mut store, &req).unwrap();

    let two_hours_on = at(T0 + 2 * 3600);

    let res = process_oldest_backup_request(
        &mut store,
        &NeverBackup,
        &mut shelf,
        TEST_BACKUP_DIR,
        0,
        1,
        two_hours_on,
    );
    assert!(matches!(res, Err(QueueError::TooOld)));

    let (after_req, after_status) = find_with_status(&store, req.id).unwrap();
    assert_eq!(after_status, RequestStatus::Error);
    assert_eq!(after_req.last_error.unwrap(), "pending job is too old");
    assert!(shelf.files.is_empty());

    let after = find_executed(&store, two_hours_on.earlier_by(GRACE_SECS), 5);
    assert_eq!(after.first().unwrap().id, req.id);
}

#[test]
fn a_request_is_stale_after_an_hour_and_not_before() {
    assert_eq!(STALE_AFTER_SECS, 3600);
    let created = Timespec::new(T0, 500);

    assert!(!too_old(created, created));
    assert!(!too_old(created, Timespec::new(T0 + 3599, 999_999_999)));
    assert!(!too_old(created, Timespec::new(T0 + 3600, 500)));
    assert!(too_old(created, Timespec::new(T0 + 3600, 501)));
    assert!(too_old(created, Timespec::new(T0 + 7200, 0)));
    assert!(!too_old(created, Timespec::new(T0 - 10, 0)));
    assert!(!too_old(Timespec::new(i64::MIN, 0), Timespec::new(i64::MIN + 10, 0)));
}

#[test]
fn a_point_before_the_range_of_time_is_the_least() {
    let early = Timespec::new(i64::MIN + 10, 7);

    assert_eq!(early.earlier_by(10), Timespec::new(i64::MIN, 7));
    assert_eq!(early.earlier_by(11), Timespec::new(i64::MIN, i32::MIN));
    assert_eq!(at(T0).earlier_by(3600), at(T0 - 3600));
    assert!(at(1).before(&at(2)));
    assert!(Timespec::new(1, 1).before(&Timespec::new(1, 2)));
    assert!(!Timespec::new(1, 2).before(&Timespec::new(1, 2)));
    assert!(!Timespec::new(2, 0).before(&Timespec::new(1, 9)));
}

#[test]
fn the_backup_lies_under_the_request_id() {
    let id = RequestId::parse_str("35027614-7cc0-4d51-81f5-fbcc5eeae2e5").unwrap();

    assert_eq!(
        backup_path("/var/data/downloads", &id),
        "/var/data/downloads/35027614-7cc0-4d51-81f5-fbcc5eeae2e5.json"
    );
}

#[test]
fn write_backup_hands_the_backup_to_the_store_under_its_path() {
    let mut shelf = Shelf::new();
    let req = new_req();
    let backup = Backup { albums: vec![], playlists: vec![] };

    let path = write_backup(&mut shelf, &req, &backup, TEST_BACKUP_DIR).unwrap();

    assert_eq!(path, format!("{}/{}.json", TEST_BACKUP_DIR, req.id.text()));
    assert_eq!(shelf.read(&path), Some(&backup));
}

#[test]
fn executed_request_is_reported_with_its_file() {
    let mut store = RequestStore::new();
    let mut shelf = Shelf::new();
    let mut req = new_req();
    req.token.expires_in = 77;
    create(&mut store, &req).unwrap();
    let backup = CountingBackup { calls: Cell::new(0), seen: Cell::new(0) };

    let done =
        process_oldest_backup_request(&mut store, &backup, &mut shelf, TEST_BACKUP_DIR, 0, 1, now())
            .unwrap();

    assert_eq!(done, Some(req.id));
    assert_eq!(backup.calls.get(), 1);
    assert_eq!(backup.seen.get(), 77);
    let (found, status) = find_with_status(&store, req.id).unwrap();
    assert_eq!(status, RequestStatus::Executed);
    assert!(status.executed());
    assert!(!status.completed());
    assert_eq!(found.last_error, None);
    assert_eq!(found.file.unwrap(), backup_path(TEST_BACKUP_DIR, &req.id));
    assert!(shelf.holds(&backup_path(TEST_BACKUP_DIR, &req.id)));
}

#[test]
fn failed_request_is_reported_with_its_error() {
    struct RateLimited;
    impl BackupFn for RateLimited {
        fn apply(&self, _token_info: TokenInfo) -> Result<Backup, QueueError> {
            Err(QueueError::Backup("rate limited".to_string()))
        }
    }
    let mut store = RequestStore::new();
    let mut shelf = Shelf::new();
    let req = new_req();
    create(&mut store, &req).unwrap();

    let res = process_oldest_backup_request(
        &mut store,
        &RateLimited,
        &mut shelf,
        TEST_BACKUP_DIR,
        0,
        1,
        now(),
    );

    assert!(matches!(res, Err(QueueError::Backup(_))));
    let (found, status) = find_with_status(&store, req.id).unwrap();
    assert_eq!(status, RequestStatus::Error);
    assert!(status.executed());
    assert!(!status.completed());
    assert_eq!(found.last_error.as_deref(), Some("rate limited"));
    assert_eq!(found.file, None);

    // a failed request is not tried again
    let next = process_oldest_backup_request(
        &mut store,
        &NeverBackup,
        &mut shelf,
        TEST_BACKUP_DIR,
        0,
        1,
        now(),
    )
    .unwrap();
    assert_eq!(next, None);
}

#[test]
fn a_backup_that_cannot_be_written_fails_the_request() {
    let mut store = RequestStore::new();
    let mut shelf = Shelf::new();
    shelf.broken = true;
    let req = new_req();
    create(&mut store, &req).unwrap();

    let res = process_oldest_backup_request(
        &mut store,
        &EmptyBackup,
        &mut shelf,
        TEST_BACKUP_DIR,
        0,
        1,
        now(),
    );

    assert!(matches!(res, Err(QueueError::Artifact(_))));
    let (found, status) = find_with_status(&store, req.id).unwrap();
    assert_eq!(status, RequestStatus::Error);
    assert_eq!(found.last_error.as_deref(), Some("[test] disk full"));
}

#[test]
fn process_backup_request_leaves_the_failure_to_its_caller() {
    let mut store = RequestStore::new();
    let mut shelf = Shelf::new();
    let req = new_req();
    create(&mut store, &req).unwrap();

    let res =
        process_backup_request(&mut store, &ErrorBackup, &mut shelf, &req, TEST_BACKUP_DIR, now());

    assert!(matches!(res, Err(QueueError::Backup(_))));
    assert_eq!(find_with_status(&store, req.id).unwrap().1, RequestStatus::Pending);

    let stale = process_backup_request(
        &mut store,
        &NeverBackup,
        &mut shelf,
        &req,
        TEST_BACKUP_DIR,
        at(T0 + 2 * 3600),
    );
    assert!(matches!(stale, Err(QueueError::TooOld)));
    assert_eq!(find_with_status(&store, req.id).unwrap().1, RequestStatus::Pending);
}

#[test]
fn a_request_that_is_not_stored_cannot_be_executed() {
    let mut store = RequestStore::new();
    let mut shelf = Shelf::new();
    let req = new_req();

    let res =
        process_backup_request(&mut store, &EmptyBackup, &mut shelf, &req, TEST_BACKUP_DIR, now());

    assert!(matches!(res, Err(QueueError::NoRowsUpdated(Update::SetExecuted))));
    assert_eq!(store.len(), 0);
}

#[test]
fn each_request_is_worked_by_its_own_thread_only() {
    let mut store = RequestStore::new();
    let mut shelf = Shelf::new();
    let mut first = new_req();
    first.id = RequestId::parse_str("35027614-7cc0-4d51-81f5-fbcc5eeae2e5").unwrap();
    let mut second = new_req();
    second.id = RequestId::parse_str("d2c70a33-c1a2-4ee1-9061-f8aa80262466").unwrap();
    create(&mut store, &first).unwrap();
    create(&mut store, &second).unwrap();
    assert_eq!(thread_id(&first.id, 3), 1);
    assert_eq!(thread_id(&second.id, 3), 2);

    let none = process_oldest_backup_request(
        &mut store,
        &NeverBackup,
        &mut shelf,
        TEST_BACKUP_DIR,
        0,
        3,
        now(),
    )
    .unwrap();
    assert_eq!(none, None);

    let by_two = process_oldest_backup_request(
        &mut store,
        &EmptyBackup,
        &mut shelf,
        TEST_BACKUP_DIR,
        2,
        3,
        now(),
    )
    .unwrap();
    assert_eq!(by_two, Some(second.id));
    assert_eq!(find_with_status(&store, first.id).unwrap().1, RequestStatus::Pending);

    let by_one = process_oldest_backup_request(
        &mut store,
        &EmptyBackup,
        &mut shelf,
        TEST_BACKUP_DIR,
        1,
        3,
        now(),
    )
    .unwrap();
    assert_eq!(by_one, Some(first.id));
}

#[test]
fn a_worker_without_threads_fails() {
    let mut store = RequestStore::new();
    let mut shelf = Shelf::new();
    create(&mut store, &new_req()).unwrap();

    let res = process_oldest_backup_request(
        &mut store,
        &NeverBackup,
        &mut shelf,
        TEST_BACKUP_DIR,
        0,
        0,
        now(),
    );

    assert!(matches!(res, Err(QueueError::NoWorkers)));
}

#[test]
fn the_sweep_leaves_recent_and_pending_requests() {
    let mut store = RequestStore::new();
    let mut shelf = Shelf::new();
    let old = new_req();
    let mut recent = new_req();
    recent.time_created = at(T0 + 30 * 60);
    let pending = new_req();
    create(&mut store, &old).unwrap();
    create(&mut store, &recent).unwrap();
    process_backup_request(&mut store, &EmptyBackup, &mut shelf, &old, TEST_BACKUP_DIR, now())
        .unwrap();
    process_backup_request(&mut store, &EmptyBackup, &mut shelf, &recent, TEST_BACKUP_DIR, now())
        .unwrap();
    create(&mut store, &pending).unwrap();

    let retired = delete_executed(&mut store, &mut shelf, later()).unwrap();

    assert_eq!(retired, vec![old.id]);
    assert_eq!(find_with_status(&store, old.id).unwrap().1, RequestStatus::CompletedOk);
    assert_eq!(find_with_status(&store, recent.id).unwrap().1, RequestStatus::Executed);
    assert_eq!(find_with_status(&store, pending.id).unwrap().1, RequestStatus::Pending);
    assert!(shelf.holds(&backup_path(TEST_BACKUP_DIR, &recent.id)));
    assert!(!shelf.holds(&backup_path(TEST_BACKUP_DIR, &old.id)));
}

#[test]
fn the_sweep_retires_a_batch_at_most_newest_first() {
    assert_eq!(SWEEP_BATCH, 5);
    let mut store = RequestStore::new();
    let mut shelf = Shelf::new();
    let mut ids = vec![];
    for k in 0..7 {
        let mut req = new_req();
        req.time_created = at(T0 + k);
        create(&mut store, &req).unwrap();
        process_backup_request(
            &mut store,
            &EmptyBackup,
            &mut shelf,
            &req,
            TEST_BACKUP_DIR,
            at(T0 + 10),
        )
        .unwrap();
        ids.push(req.id);
    }

    let first = delete_executed(&mut store, &mut shelf, at(T0 + 2 * 3600)).unwrap();
    assert_eq!(first, vec![ids[6], ids[5], ids[4], ids[3], ids[2]]);
    assert_eq!(shelf.files.len(), 2);

    let second = delete_executed(&mut store, &mut shelf, at(T0 + 2 * 3600)).unwrap();
    assert_eq!(second, vec![ids[1], ids[0]]);
    assert!(shelf.files.is_empty());

    let third = delete_executed(&mut store, &mut shelf, at(T0 + 2 * 3600)).unwrap();
    assert!(third.is_empty());
}

#[test]
fn the_sweep_stops_at_a_file_that_cannot_be_deleted() {
    let mut store = RequestStore::new();
    let mut shelf = Shelf::new();
    let mut newer = new_req();
    newer.time_created = at(T0 + 2);
    let mut lost = new_req();
    lost.time_created = at(T0 + 1);
    let oldest = new_req();
    for req in [&newer, &lost, &oldest] {
        create(&mut store, req).unwrap();
        process_backup_request(&mut store, &EmptyBackup, &mut shelf, req, TEST_BACKUP_DIR, now())
            .unwrap();
    }
    // the file of the second candidate is gone already
    shelf.delete(&backup_path(TEST_BACKUP_DIR, &lost.id)).unwrap();

    let res = delete_executed(&mut store, &mut shelf, later());

    assert!(matches!(res, Err(QueueError::Artifact(_))));
    assert_eq!(find_with_status(&store, newer.id).unwrap().1, RequestStatus::CompletedOk);
    assert_eq!(find_with_status(&store, lost.id).unwrap().1, RequestStatus::Executed);
    assert_eq!(find_with_status(&store, oldest.id).unwrap().1, RequestStatus::Executed);
    assert!(shelf.holds(&backup_path(TEST_BACKUP_DIR, &oldest.id)));
}

#[test]
fn the_daemon_starts_one_worker_for_every_thread_number() {
    let started = workers(3).unwrap();

    assert_eq!(
        started,
        vec![
            Worker { thread_id: 0, total_thread_count: 3 },
            Worker { thread_id: 1, total_thread_count: 3 },
            Worker { thread_id: 2, total_thread_count: 3 },
        ]
    );
    assert!(matches!(workers(0), Err(QueueError::NoWorkers)));
    assert_eq!(workers(1).unwrap(), vec![Worker { thread_id: 0, total_thread_count: 1 }]);
    assert_eq!(connections_needed(3), 4);
    assert_eq!(connections_needed(u32::MAX), 4_294_967_296);
}

#[test]
fn a_worker_rests_by_what_its_turn_came_to() {
    assert_eq!(IDLE_PAUSE_SECS, 1);
    assert_eq!(BACKOFF_SECS, 5);
    assert_eq!(SWEEP_PAUSE_SECS, 5);
    assert_eq!(worker_pause(&Ok(Some(RequestId::from_u128(1)))), 0);
    assert_eq!(worker_pause(&Ok(None)), 1);
    assert_eq!(worker_pause(&Err(QueueError::Store("unreachable".to_string()))), 5);
    assert_eq!(worker_pause(&Err(QueueError::NoWorkers)), 5);
    assert_eq!(worker_pause(&Err(QueueError::Backup("rate limited".to_string()))), 0);
    assert_eq!(worker_pause(&Err(QueueError::TooOld)), 0);
    assert_eq!(worker_pause(&Err(QueueError::Artifact("disk full".to_string()))), 0);
}

#[test]
fn every_failure_has_its_message() {
    assert_eq!(QueueError::Store("unreachable".to_string()).message(), "unreachable");
    assert_eq!(
        QueueError::DuplicateId.message(),
        "a backup request with this id exists already"
    );
    assert_eq!(
        QueueError::NoRowsUpdated(Update::SetError).message(),
        "could not set error on BackupRequest, updated 0 rows"
    );
    assert_eq!(
        QueueError::NoRowsUpdated(Update::SetCompleted).message(),
        "could set BackupRequest to executed, updated 0 rows"
    );
    assert_eq!(
        QueueError::NoRowsUpdated(Update::SetExecuted).message(),
        "could complete BackupRequest, updated 0 rows"
    );
    assert_eq!(QueueError::Backup("rate limited".to_string()).message(), "rate limited");
    assert_eq!(QueueError::TooOld.message(), "pending job is too old");
    assert_eq!(QueueError::Artifact("disk full".to_string()).message(), "disk full");
    assert_eq!(QueueError::InvalidId.message(), "invalid UUID");
    assert_eq!(
        QueueError::InvalidStatus("Done".to_string()).message(),
        "Could not parse RequestStatus: Done"
    );
    assert_eq!(QueueError::NoWorkers.message(), "worker count must be at least 1");
    assert_eq!(QueueError::InvalidTable.message(), "the backup requests are inconsistent");
}

#[test]
fn a_backup_is_made_and_written_unless_the_request_is_stale() {
    let mut shelf = Shelf::new();
    let req = new_req();

    let path = make_backup(&EmptyBackup, &mut shelf, &req, TEST_BACKUP_DIR, now()).unwrap();
    assert_eq!(path, backup_path(TEST_BACKUP_DIR, &req.id));
    assert!(shelf.holds(&path));

    let mut empty = Shelf::new();
    let stale = make_backup(&NeverBackup, &mut empty, &req, TEST_BACKUP_DIR, at(T0 + 3601));
    assert!(matches!(stale, Err(QueueError::TooOld)));
    assert!(empty.files.is_empty());

    let failed = make_backup(&ErrorBackup, &mut empty, &req, TEST_BACKUP_DIR, now());
    assert!(matches!(failed, Err(QueueError::Backup(_))));
    assert!(empty.files.is_empty());
}

#[test]
fn a_backup_that_was_made_is_put_on_record() {
    let mut store = RequestStore::new();
    let req = new_req();
    create(&mut store, &req).unwrap();

    let done = record_backup(&mut store, req.id, Ok("/tmp/a.json".to_string())).unwrap();

    assert_eq!(done, req.id);
    let (found, status) = find_with_status(&store, req.id).unwrap();
    assert_eq!(status, RequestStatus::Executed);
    assert_eq!(found.file.as_deref(), Some("/tmp/a.json"));

    // the request is not pending any more
    let again = record_backup(&mut store, req.id, Ok("/tmp/b.json".to_string()));
    assert!(matches!(again, Err(QueueError::NoRowsUpdated(Update::SetExecuted))));
    assert_eq!(find_with_status(&store, req.id).unwrap().0.file.as_deref(), Some("/tmp/a.json"));
}

#[test]
fn a_backup_that_failed_is_handed_on() {
    let mut store = RequestStore::new();
    let req = new_req();
    create(&mut store, &req).unwrap();

    let failed = record_backup(&mut store, req.id, Err(QueueError::Backup("rate limited".into())));

    match failed {
        Err(QueueError::Backup(message)) => assert_eq!(message, "rate limited"),
        _ => panic!("the failure was not handed on"),
    }
    assert_eq!(find_with_status(&store, req.id).unwrap().1, RequestStatus::Pending);
}

#[test]
fn a_failed_turn_is_put_on_record() {
    let mut store = RequestStore::new();
    let req = new_req();
    create(&mut store, &req).unwrap();

    let res = record_failure(&mut store, req.id, Err(QueueError::Artifact("disk full".into())));

    assert!(matches!(res, Err(QueueError::Artifact(_))));
    let (found, status) = find_with_status(&store, req.id).unwrap();
    assert_eq!(status, RequestStatus::Error);
    assert_eq!(found.last_error.as_deref(), Some("disk full"));

    // a failure of a request that is not pending is handed on, and not recorded
    let late = record_failure(&mut store, req.id, Err(QueueError::TooOld));
    assert!(matches!(late, Err(QueueError::TooOld)));
    assert_eq!(find_with_status(&store, req.id).unwrap().0.last_error.as_deref(), Some("disk full"));
}

#[test]
fn a_turn_that_went_well_is_handed_on() {
    let mut store = RequestStore::new();
    let req = new_req();
    create(&mut store, &req).unwrap();
    set_executed(&mut store, req.id, "/tmp/a.json").unwrap();

    let res = record_failure(&mut store, req.id, Ok(req.id)).unwrap();

    assert_eq!(res, Some(req.id));
    assert_eq!(find_with_status(&store, req.id).unwrap().1, RequestStatus::Executed);
}

#[test]
fn a_request_is_retired_once_its_file_is_deleted() {
    let mut store = RequestStore::new();
    let req = new_req();
    create(&mut store, &req).unwrap();
    set_executed(&mut store, req.id, "/tmp/a.json").unwrap();
    let executed = find_with_status(&store, req.id).unwrap().0;

    let kept = retire(&mut store, &executed, Err(QueueError::Artifact("busy".into())));
    assert!(matches!(kept, Err(QueueError::Artifact(_))));
    assert_eq!(find_with_status(&store, req.id).unwrap().1, RequestStatus::Executed);

    let retired = retire(&mut store, &executed, Ok(())).unwrap();
    assert_eq!(retired, req.id);
    assert_eq!(find_with_status(&store, req.id).unwrap().1, RequestStatus::CompletedOk);

    let again = retire(&mut store, &executed, Ok(()));
    assert!(matches!(again, Err(QueueError::NoRowsUpdated(Update::SetCompleted))));
}

#[test]
fn a_failed_request_is_retired_with_its_error() {
    let mut store = RequestStore::new();
    let req = new_req();
    create(&mut store, &req).unwrap();
    set_error(&mut store, req.id, "rate limited").unwrap();
    let failed = find_with_status(&store, req.id).unwrap().0;

    retire(&mut store, &failed, Ok(())).unwrap();

    let (found, status) = find_with_status(&store, req.id).unwrap();
    assert_eq!(status, RequestStatus::CompletedError);
    assert_eq!(found.last_error.as_deref(), Some("rate limited"));
}

#[test]
fn a_pending_request_is_not_retired() {
    let mut store = RequestStore::new();
    let req = new_req();
    create(&mut store, &req).unwrap();

    let res = retire(&mut store, &req, Ok(()));

    assert!(matches!(res, Err(QueueError::NoRowsUpdated(Update::SetCompleted))));
    assert_eq!(find_with_status(&store, req.id).unwrap().1, RequestStatus::Pending);
}

#[test]
fn only_a_request_with_a_file_has_one_deleted() {
    let mut shelf = Shelf::new();
    let mut req = new_req();
    assert!(delete_backup(&mut shelf, &req).is_ok());

    req.file = Some("/tmp/a.json".to_string());
    assert!(matches!(delete_backup(&mut shelf, &req), Err(QueueError::Artifact(_))));

    shelf.write("/tmp/a.json", &Backup { albums: vec![], playlists: vec![] }).unwrap();
    assert!(delete_backup(&mut shelf, &req).is_ok());
    assert!(!shelf.holds("/tmp/a.json"));
}

#[test]
fn a_request_whose_worker_died_is_claimed_again() {
    let mut store = RequestStore::new();
    let mut shelf = Shelf::new();
    let req = new_req();
    create(&mut store, &req).unwrap();

    // a worker makes the backup and dies before it has recorded it
    let made = make_backup(&EmptyBackup, &mut shelf, &req, TEST_BACKUP_DIR, now());
    assert!(made.is_ok());
    assert_eq!(find_with_status(&store, req.id).unwrap().1, RequestStatus::Pending);

    // the thread that the request belongs to takes it up again
    let done = process_oldest_backup_request(
        &mut store,
        &EmptyBackup,
        &mut shelf,
        TEST_BACKUP_DIR,
        0,
        1,
        at(T0 + 60),
    )
    .unwrap();

    assert_eq!(done, Some(req.id));
    assert_eq!(find_with_status(&store, req.id).unwrap().1, RequestStatus::Executed);
    assert_eq!(shelf.files.len(), 1);
}
