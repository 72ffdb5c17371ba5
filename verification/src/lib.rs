//! A queue of backup requests, and what the daemon that works it off decides.
//!
//! A request is stored as `Pending`. Worker threads claim pending requests,
//! each thread those whose identifier belongs to it (`shard`), the oldest
//! first, and leave each one `Executed`, with the file of its backup, or in
//! `Error`, with the reason (`daemon`). A sweep retires the requests that are
//! done once they are old enough: it deletes the file, erases the credential
//! and leaves the request `CompletedOk` or `CompletedError`.
//!
//! The request table and its operations are in `backup_request`, their
//! meaning on the table as a sequence of records in `table`, and what holds
//! of every table and every claim in `laws`. What makes a backup and what
//! keeps the files is handed in by the caller (`backup_fn`), as is the time.

pub mod albums;
pub mod backup_fn;
pub mod backup_request;
pub mod client;
pub mod config;
pub mod daemon;
pub mod db;
pub mod error;
pub mod laws;
pub mod playlists;
pub mod request_id;
pub mod serialize;
pub mod server;
pub mod shard;
pub mod spotify;
pub mod table;
pub mod timespec;
pub mod token;
