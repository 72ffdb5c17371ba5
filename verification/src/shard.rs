//! Which worker thread a request belongs to.
//!
//! Every worker thread claims requests from the one table. No request is
//! locked: the threads keep out of each other's way because every request
//! belongs to exactly one of them, decided by a hash of its identifier.

use crate::request_id::{hyphenated, RequestId};
use std::collections::hash_map::DefaultHasher;
use std::hash::Hasher;
use vstd::prelude::*;
use vstd::std_specs::hash::DefaultHasherAdditionalSpecFns;
use vstd::utf8::encode_utf8;

verus! {

/// The hash of an identifier: that of its hyphenated text, hashed as a
/// string is, with one byte `0xff` after the bytes of the text.
pub open spec fn id_hash(id: u128) -> u64 {
    DefaultHasher::spec_finish(seq![encode_utf8(hyphenated(id)), seq![0xffu8]])
}

/// The worker thread, of `total_thread_count` threads, that an identifier
/// with the hash `hash` belongs to.
pub open spec fn spec_thread_of(hash: u64, total_thread_count: u32) -> int
    recommends
        total_thread_count > 0,
{
    hash as int % total_thread_count as int
}

pub fn thread_of(hash: u64, total_thread_count: u32) -> (res: u32)
    requires
        total_thread_count > 0,
    ensures
        res == spec_thread_of(hash, total_thread_count),
        res < total_thread_count,
{
    (hash % (total_thread_count as u64)) as u32
}

/// The worker thread, of `total_thread_count` threads, that the request `id`
/// belongs to.
pub open spec fn spec_thread_id(id: u128, total_thread_count: u32) -> int
    recommends
        total_thread_count > 0,
{
    spec_thread_of(id_hash(id), total_thread_count)
}

/// Computes the worker thread that the request `id` belongs to.
pub fn thread_id(id: &RequestId, total_thread_count: u32) -> (res: u32)
    requires
        total_thread_count > 0,
    ensures
        res == spec_thread_id(id.value, total_thread_count),
        res < total_thread_count,
{
    let text = id.text();
    let mark: [u8; 1] = [0xff];
    let mut hasher = DefaultHasher::new();
    let bytes = text.as_str().as_bytes();
    let tail = mark.as_slice();
    assert(tail@ =~= seq![0xffu8]);
    hasher.write(bytes);
    hasher.write(tail);
    assert(hasher@ =~= seq![encode_utf8(hyphenated(id.value)), seq![0xffu8]]);
    thread_of(hasher.finish(), total_thread_count)
}

/// Every request belongs to exactly one of the worker threads.
pub proof fn lemma_one_thread(id: u128, total_thread_count: u32)
    requires
        total_thread_count > 0,
    ensures
        0 <= spec_thread_id(id, total_thread_count) < total_thread_count,
{
}

} // verus!
