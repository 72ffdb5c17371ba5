//! What holds of the request table whatever is done with it.

use crate::daemon::retired_rows;
use crate::db::RequestStatus;
use crate::shard::spec_thread_id;
use crate::table::{
    evolves, is_candidate, is_executed, is_oldest_pending, is_pending, is_selection, newer,
    oldest_pending_of, table_wf, waits_for, with_completed_set, with_error_set,
    with_executed_set, Table,
};
use crate::timespec::Timespec;
use crate::token::TokenInfoView;
use vstd::prelude::*;

verus! {

/// The row among the first `n` that the thread would claim, if only they
/// were there.
proof fn oldest_among(t: Table, n: int, thread_id: u32, total_thread_count: u32) -> (k: int)
    requires
        0 <= n <= t.len(),
        exists|j: int| 0 <= j < n && waits_for(#[trigger] t[j], thread_id, total_thread_count),
    ensures
        is_oldest_pending(t.take(n), k, thread_id, total_thread_count),
    decreases n,
{
    let last = n - 1;
    if exists|j: int| 0 <= j < last && waits_for(#[trigger] t[j], thread_id, total_thread_count) {
        let k = oldest_among(t, last, thread_id, total_thread_count);
        if waits_for(t[last], thread_id, total_thread_count)
            && t[last].request.time_created.spec_before(&t[k].request.time_created) {
            last
        } else {
            k
        }
    } else {
        last
    }
}

/// Where a request waits for a thread, the thread has one to claim.
pub proof fn lemma_claim_finds(t: Table, j: int, thread_id: u32, total_thread_count: u32)
    requires
        0 <= j < t.len(),
        waits_for(t[j], thread_id, total_thread_count),
    ensures
        oldest_pending_of(t, thread_id, total_thread_count) is Some,
{
    let k = oldest_among(t, t.len() as int, thread_id, total_thread_count);
    assert(t.take(t.len() as int) =~= t);
}

/// A thread claims only what is its own: the request that a claim hands to
/// the thread `thread_id` is pending and belongs to that thread. So a request
/// is never handed to a thread other than the one it belongs to.
pub proof fn lemma_claims_are_exclusive(t: Table, thread_id: u32, total_thread_count: u32)
    ensures
        match oldest_pending_of(t, thread_id, total_thread_count) {
            Some(req) => spec_thread_id(req.id, total_thread_count) == thread_id && is_pending(
                t,
                req.id,
            ),
            None => true,
        },
{
    if exists|k: int| is_oldest_pending(t, k, thread_id, total_thread_count) {
        let k = choose|k: int| is_oldest_pending(t, k, thread_id, total_thread_count);
        assert(waits_for(t[k], thread_id, total_thread_count));
    }
}

/// The same, read from the request: no thread but its own is handed the
/// request `id`.
pub proof fn lemma_other_threads_pass(t: Table, id: u128, other: u32, total_thread_count: u32)
    requires
        spec_thread_id(id, total_thread_count) != other,
    ensures
        match oldest_pending_of(t, other, total_thread_count) {
            Some(req) => req.id != id,
            None => true,
        },
{
    lemma_claims_are_exclusive(t, other, total_thread_count);
}

/// First come, first served: while a request waits for a thread, the thread
/// is handed no request created after it.
pub proof fn lemma_claims_are_fifo(
    t: Table,
    a: int,
    b: int,
    thread_id: u32,
    total_thread_count: u32,
)
    requires
        table_wf(t),
        0 <= a < t.len(),
        0 <= b < t.len(),
        waits_for(t[a], thread_id, total_thread_count),
        waits_for(t[b], thread_id, total_thread_count),
        t[a].request.time_created.spec_before(&t[b].request.time_created),
    ensures
        match oldest_pending_of(t, thread_id, total_thread_count) {
            Some(req) => req.id != t[b].request.id && !t[a].request.time_created.spec_before(
                &req.time_created,
            ),
            None => false,
        },
{
    lemma_claim_finds(t, a, thread_id, total_thread_count);
    let k = choose|k: int| is_oldest_pending(t, k, thread_id, total_thread_count);
    // the row claimed was not created after row `a`, so it is not row `b`
    assert(!t[a].request.time_created.spec_before(&t[k].request.time_created));
}

/// Recording a failure moves one pending request to `Error`, and nothing else.
pub proof fn lemma_error_evolves(t: Table, id: u128, error: Seq<char>)
    requires
        table_wf(t),
        is_pending(t, id),
    ensures
        evolves(t, with_error_set(t, id, error)),
        table_wf(with_error_set(t, id, error)),
{
    let i = choose|i: int|
        0 <= i < t.len() && (#[trigger] t[i]).request.id == id && t[i].status
            == RequestStatus::Pending;
    assert forall|j: int| 0 <= j < t.len() && t[j].request.id == id implies j == i by {}
}

/// Recording a backup moves one pending request to `Executed`, and nothing
/// else.
pub proof fn lemma_executed_evolves(t: Table, id: u128, file: Seq<char>)
    requires
        table_wf(t),
        is_pending(t, id),
    ensures
        evolves(t, with_executed_set(t, id, file)),
        table_wf(with_executed_set(t, id, file)),
{
    let i = choose|i: int|
        0 <= i < t.len() && (#[trigger] t[i]).request.id == id && t[i].status
            == RequestStatus::Pending;
    assert forall|j: int| 0 <= j < t.len() && t[j].request.id == id implies j == i by {}
}

/// Retiring moves one request from `Executed` or `Error` to a completed
/// status, and nothing else.
pub proof fn lemma_completed_evolves(t: Table, id: u128, with_error: bool)
    requires
        table_wf(t),
        is_executed(t, id),
    ensures
        evolves(t, with_completed_set(t, id, with_error)),
        table_wf(with_completed_set(t, id, with_error)),
{
    let i = choose|i: int|
        0 <= i < t.len() && (#[trigger] t[i]).request.id == id && t[i].status.spec_executed();
    assert forall|j: int| 0 <= j < t.len() && t[j].request.id == id implies j == i by {}
}

/// A request that is due is handed to the sweep, unless the sweep has its
/// hands full: a row that is due for retirement is among the rows picked
/// wherever fewer than `limit` rows were picked.
pub proof fn lemma_due_is_picked(
    t: Table,
    older_than: Timespec,
    limit: nat,
    picks: Seq<int>,
    j: int,
)
    requires
        is_selection(t, older_than, limit, picks),
        0 <= j < t.len(),
        is_candidate(t[j], older_than),
        picks.len() < limit,
    ensures
        picks.contains(j),
{
}

/// Two selections from one table pick the same row in every place that both
/// have.
proof fn selections_agree(
    t: Table,
    older_than: Timespec,
    limit: nat,
    p: Seq<int>,
    q: Seq<int>,
    k: int,
)
    requires
        is_selection(t, older_than, limit, p),
        is_selection(t, older_than, limit, q),
        0 <= k < p.len(),
        k < q.len(),
    ensures
        p[k] == q[k],
    decreases k,
{
    assert forall|m: int| 0 <= m < k implies p[m] == q[m] by {
        selections_agree(t, older_than, limit, p, q, m);
    }
    let a = p[k];
    let b = q[k];
    if a != b {
        // `b` comes after `a`, as `p` sees it: where `p` has `b`, it has it
        // behind `a`, and what `p` has left out comes after all that it has
        if p.contains(b) {
            let m = choose|m: int| 0 <= m < p.len() && p[m] == b;
            assert(m > k);
        }
        assert(newer(t, a, b));
        // and `a` after `b`, as `q` sees it
        if q.contains(a) {
            let m = choose|m: int| 0 <= m < q.len() && q[m] == a;
            assert(m > k);
        }
        assert(newer(t, b, a));
    }
}

/// What a sweep is handed is settled by the table, the cutoff and the limit:
/// there is one selection and no other.
pub proof fn lemma_selection_is_one(
    t: Table,
    older_than: Timespec,
    limit: nat,
    p: Seq<int>,
    q: Seq<int>,
)
    requires
        is_selection(t, older_than, limit, p),
        is_selection(t, older_than, limit, q),
    ensures
        p == q,
{
    assert forall|k: int| 0 <= k < p.len() && k < q.len() implies p[k] == q[k] by {
        selections_agree(t, older_than, limit, p, q, k);
    }
    // the longer one would pick a row that the shorter one has left out, with
    // room to spare
    if p.len() < q.len() {
        let j = q[p.len() as int];
        if p.contains(j) {
            let m = choose|m: int| 0 <= m < p.len() && p[m] == j;
            assert(newer(t, q[m], j));
        }
    } else if q.len() < p.len() {
        let j = p[q.len() as int];
        if q.contains(j) {
            let m = choose|m: int| 0 <= m < q.len() && q[m] == j;
            assert(newer(t, p[m], j));
        }
    }
}

/// A sweep only moves requests forward: whatever it retires stood at
/// `Executed` or `Error`.
pub proof fn lemma_sweep_evolves(
    t: Table,
    older_than: Timespec,
    limit: nat,
    picks: Seq<int>,
    n: int,
)
    requires
        is_selection(t, older_than, limit, picks),
        0 <= n <= picks.len(),
    ensures
        evolves(t, retired_rows(t, picks, n)),
{
    let taken = picks.take(n);
    assert forall|r: int| 0 <= r < t.len() && taken.contains(r) implies is_candidate(
        t[r],
        older_than,
    ) by {
        let k = choose|k: int| 0 <= k < taken.len() && taken[k] == r;
        assert(picks[k] == r);
    }
}

/// What a sweep leaves of a request that it retired: a request that stood at
/// `Executed` stands at `CompletedOk`, one that stood at `Error` at
/// `CompletedError`, and either has lost its backup file and its credential.
/// Every other request is as it was.
pub proof fn lemma_sweep_retires(
    t: Table,
    older_than: Timespec,
    limit: nat,
    picks: Seq<int>,
    n: int,
    i: int,
)
    requires
        is_selection(t, older_than, limit, picks),
        0 <= n <= picks.len(),
        0 <= i < t.len(),
    ensures
        picks.take(n).contains(i) ==> {
            let after = retired_rows(t, picks, n)[i];
            &&& t[i].status.spec_executed()
            &&& after.status == if t[i].status == RequestStatus::Executed {
                RequestStatus::CompletedOk
            } else {
                RequestStatus::CompletedError
            }
            &&& after.request.file is None
            &&& after.request.token == TokenInfoView::empty()
            &&& after.request.last_error == t[i].request.last_error
        },
        !picks.take(n).contains(i) ==> retired_rows(t, picks, n)[i] == t[i],
{
    let taken = picks.take(n);
    if taken.contains(i) {
        let k = choose|k: int| 0 <= k < taken.len() && taken[k] == i;
        assert(picks[k] == i);
    }
}

/// A request that is due is retired by a sweep that ends well, unless the
/// sweep has its hands full: a request that stood at `Executed` and was
/// created before the cutoff stands at `CompletedOk` after the sweep, without
/// its backup file and without its credential, wherever the sweep was handed
/// fewer than `limit` requests.
pub proof fn lemma_due_is_retired(
    t: Table,
    older_than: Timespec,
    limit: nat,
    picks: Seq<int>,
    i: int,
)
    requires
        is_selection(t, older_than, limit, picks),
        picks.len() < limit,
        0 <= i < t.len(),
        t[i].status == RequestStatus::Executed,
        t[i].request.time_created.spec_before(&older_than),
    ensures
        ({
            let after = retired_rows(t, picks, picks.len() as int)[i];
            &&& after.status == RequestStatus::CompletedOk
            &&& after.request.file is None
            &&& after.request.token == TokenInfoView::empty()
        }),
{
    lemma_due_is_picked(t, older_than, limit, picks, i);
    assert(picks.take(picks.len() as int) =~= picks);
    lemma_sweep_retires(t, older_than, limit, picks, picks.len() as int, i);
}

} // verus!
