//! What an operation does to the whole table when it is given some of its jobs.
//!
//! An operation does not need every job in hand. A renewal, a completion and a
//! reported failure need the job that they name; a claim needs the jobs that come
//! first. Then what becomes of the jobs in hand, written back to their places, is
//! what the operation does to the whole table.
use vstd::prelude::*;

use crate::jobs::Job;
use crate::laws::{
    law_retirement_is_bounded, lemma_count_after_retirement, lemma_count_none,
    lemma_next_retired_exists, lemma_sweep_keeps_claimable, retirable_count,
};
use crate::order::{claim_rank, lemma_rank_transitive, retirement_rank};
use crate::retry::RetryPolicy;
use crate::table::{
    claim_step, complete_step, consistent, fail_step, held, inspection, lemma_next_retired_unique,
    lemma_update_consistent, next_claimed, next_retired, nothing_held, renew_step, swept,
    InspectedJob, EXPIRED_RETIREMENT_BATCH_LIMIT,
};

verus! {

/// `part` holds the jobs of `table` at these places, which are all different.
pub open spec fn excerpt(table: Seq<Job>, places: Seq<int>, part: Seq<Job>) -> bool {
    &&& part.len() == places.len()
    &&& forall|k: int|
        0 <= k < places.len() ==> 0 <= #[trigger] places[k] < table.len() && part[k]
            == table[places[k]]
    &&& forall|k: int, m: int|
        0 <= k < m < places.len() ==> #[trigger] places[k] != #[trigger] places[m]
}

/// `after` is `before` with `part` written to these places.
pub open spec fn written_back(
    before: Seq<Job>,
    places: Seq<int>,
    part: Seq<Job>,
    after: Seq<Job>,
) -> bool {
    &&& after.len() == before.len()
    &&& part.len() == places.len()
    &&& forall|k: int| 0 <= k < places.len() ==> after[#[trigger] places[k]] == part[k]
    &&& forall|j: int|
        0 <= j < before.len() && !places.contains(j) ==> #[trigger] after[j] == before[j]
}

/// Where the job at `at` in an excerpt is in the table.
pub open spec fn placed(places: Seq<int>, at: Option<int>) -> Option<int> {
    match at {
        Some(k) => Some(places[k]),
        None => None,
    }
}

/// The job with this identifier, if there is one, is in hand.
pub open spec fn covers_job(table: Seq<Job>, places: Seq<int>, id: Seq<char>) -> bool {
    forall|j: int|
        0 <= j < table.len() && !places.contains(j) ==> (#[trigger] table[j]).id != id
}

/// The jobs in hand hold the first `limit` of those to be retired: one that is left
/// out comes after all of those in hand, and these are enough.
pub open spec fn covers_retirable(
    table: Seq<Job>,
    places: Seq<int>,
    part: Seq<Job>,
    queue: Seq<char>,
    now: int,
    limit: nat,
) -> bool {
    forall|j: int|
        0 <= j < table.len() && !places.contains(j) && (#[trigger] table[j]).retirable(queue, now)
            ==> {
            &&& retirable_count(part, queue, now) >= limit
            &&& forall|k: int|
                0 <= k < part.len() && (#[trigger] part[k]).retirable(queue, now)
                    ==> retirement_rank(part[k]).precedes(retirement_rank(table[j]))
        }
}

/// The jobs in hand hold the next one to be claimed: one that is left out comes
/// after some claimable job in hand.
pub open spec fn covers_claimable(
    table: Seq<Job>,
    places: Seq<int>,
    part: Seq<Job>,
    queue: Seq<char>,
    now: int,
) -> bool {
    forall|j: int|
        0 <= j < table.len() && !places.contains(j) && (#[trigger] table[j]).claimable(queue, now)
            ==> exists|k: int|
            0 <= k < part.len() && (#[trigger] part[k]).claimable(queue, now) && claim_rank(
                part[k],
            ).precedes(claim_rank(table[j]))
}

/// An excerpt of a consistent table is consistent.
proof fn lemma_excerpt_consistent(table: Seq<Job>, places: Seq<int>, part: Seq<Job>)
    requires
        consistent(table),
        excerpt(table, places, part),
    ensures
        consistent(part),
{
    assert forall|k: int| 0 <= k < part.len() implies (#[trigger] part[k]).wf() by {
        assert(table[places[k]].wf());
    }
    assert forall|k: int, m: int| 0 <= k < m < part.len() implies (#[trigger] part[k]).id != (
    #[trigger] part[m]).id && (part[k].producer != part[m].producer || part[k].idempotency_key
        != part[m].idempotency_key) by {
        assert(places[k] != places[m]);
        assert(table[places[k]].id != table[places[m]].id);
        assert(table[places[k]].producer != table[places[m]].producer
            || table[places[k]].idempotency_key != table[places[m]].idempotency_key);
    }
}

/// Changing one job in hand and writing the excerpt back changes that job in the
/// table.
proof fn lemma_write_back_one(
    table: Seq<Job>,
    places: Seq<int>,
    part: Seq<Job>,
    k: int,
    job: Job,
    after: Seq<Job>,
)
    requires
        excerpt(table, places, part),
        0 <= k < part.len(),
        written_back(table, places, part.update(k, job), after),
    ensures
        after == table.update(places[k], job),
{
    assert forall|j: int| 0 <= j < table.len() implies #[trigger] after[j] == table.update(
        places[k],
        job,
    )[j] by {
        if places.contains(j) {
            let m = choose|m: int| 0 <= m < places.len() && places[m] == j;
            assert(after[places[m]] == part.update(k, job)[m]);
        } else {
            assert(j != places[k]);
        }
    }
    assert(after =~= table.update(places[k], job));
}

/// Writing the excerpt back as it was changes nothing.
proof fn lemma_write_back_none(
    table: Seq<Job>,
    places: Seq<int>,
    part: Seq<Job>,
    after: Seq<Job>,
)
    requires
        excerpt(table, places, part),
        written_back(table, places, part, after),
    ensures
        after == table,
{
    assert forall|j: int| 0 <= j < table.len() implies #[trigger] after[j] == table[j] by {
        if places.contains(j) {
            let m = choose|m: int| 0 <= m < places.len() && places[m] == j;
            assert(after[places[m]] == part[m]);
        }
    }
    assert(after =~= table);
}

/// Nobody holds in the table what they do not hold in an excerpt with the job.
proof fn lemma_nothing_held_outside(
    table: Seq<Job>,
    places: Seq<int>,
    part: Seq<Job>,
    id: Seq<char>,
    worker: Seq<char>,
    token_hash: Seq<u8>,
    now: int,
)
    requires
        excerpt(table, places, part),
        covers_job(table, places, id),
        nothing_held(part, id, worker, token_hash, now),
    ensures
        nothing_held(table, id, worker, token_hash, now),
{
    assert forall|j: int| !#[trigger] held(table, id, worker, token_hash, now, j) by {
        if held(table, id, worker, token_hash, now, j) {
            assert(places.contains(j)) by {
                if !places.contains(j) {
                    assert(table[j].id != id);
                }
            }
            let m = choose|m: int| 0 <= m < places.len() && places[m] == j;
            assert(held(part, id, worker, token_hash, now, m));
        }
    }
}

/// Renewing a lease needs the named job in hand only.
pub proof fn law_renewal_needs_its_job_only(
    before: Seq<Job>,
    after: Seq<Job>,
    places: Seq<int>,
    part: Seq<Job>,
    part_after: Seq<Job>,
    id: Seq<char>,
    worker: Seq<char>,
    token_hash: Seq<u8>,
    lease_seconds: int,
    now: int,
    at: Option<int>,
)
    requires
        excerpt(before, places, part),
        covers_job(before, places, id),
        renew_step(part, part_after, id, worker, token_hash, lease_seconds, now, at),
        written_back(before, places, part_after, after),
    ensures
        renew_step(
            before,
            after,
            id,
            worker,
            token_hash,
            lease_seconds,
            now,
            placed(places, at),
        ),
{
    match at {
        Some(k) => {
            assert(held(part, id, worker, token_hash, now, k));
            lemma_write_back_one(before, places, part, k, part[k].renewed(lease_seconds, now), after);
        },
        None => {
            lemma_nothing_held_outside(before, places, part, id, worker, token_hash, now);
            lemma_write_back_none(before, places, part, after);
        },
    }
}

/// Completing a job needs that job in hand only.
pub proof fn law_completion_needs_its_job_only(
    before: Seq<Job>,
    after: Seq<Job>,
    places: Seq<int>,
    part: Seq<Job>,
    part_after: Seq<Job>,
    id: Seq<char>,
    worker: Seq<char>,
    token_hash: Seq<u8>,
    now: int,
    at: Option<int>,
)
    requires
        excerpt(before, places, part),
        covers_job(before, places, id),
        complete_step(part, part_after, id, worker, token_hash, now, at),
        written_back(before, places, part_after, after),
    ensures
        complete_step(before, after, id, worker, token_hash, now, placed(places, at)),
{
    match at {
        Some(k) => {
            assert(held(part, id, worker, token_hash, now, k));
            lemma_write_back_one(before, places, part, k, part[k].completed(now), after);
        },
        None => {
            lemma_nothing_held_outside(before, places, part, id, worker, token_hash, now);
            lemma_write_back_none(before, places, part, after);
        },
    }
}

/// Reporting a failed attempt needs the named job in hand only.
pub proof fn law_failure_needs_its_job_only(
    before: Seq<Job>,
    after: Seq<Job>,
    places: Seq<int>,
    part: Seq<Job>,
    part_after: Seq<Job>,
    id: Seq<char>,
    worker: Seq<char>,
    token_hash: Seq<u8>,
    failure_code: Seq<char>,
    retryable: bool,
    policy: RetryPolicy,
    now: int,
    at: Option<int>,
)
    requires
        excerpt(before, places, part),
        covers_job(before, places, id),
        fail_step(
            part,
            part_after,
            id,
            worker,
            token_hash,
            failure_code,
            retryable,
            policy,
            now,
            at,
        ),
        written_back(before, places, part_after, after),
    ensures
        fail_step(
            before,
            after,
            id,
            worker,
            token_hash,
            failure_code,
            retryable,
            policy,
            now,
            placed(places, at),
        ),
{
    match at {
        Some(k) => {
            assert(held(part, id, worker, token_hash, now, k));
            let job = part[k].failed_attempt(failure_code, retryable, policy, now);
            lemma_write_back_one(before, places, part, k, job, after);
        },
        None => {
            lemma_nothing_held_outside(before, places, part, id, worker, token_hash, now);
            lemma_write_back_none(before, places, part, after);
        },
    }
}

/// Inspecting a job needs that job in hand only.
pub proof fn law_inspection_needs_its_job_only(
    table: Seq<Job>,
    places: Seq<int>,
    part: Seq<Job>,
    id: Seq<char>,
    found: Option<InspectedJob>,
)
    requires
        excerpt(table, places, part),
        covers_job(table, places, id),
        inspection(part, id, found),
    ensures
        inspection(table, id, found),
{
    match found {
        Some(row) => {
            let k = choose|k: int|
                0 <= k < part.len() && (#[trigger] part[k]).id == id && row.reads(part[k]);
            assert(table[places[k]] == part[k]);
        },
        None => {
            assert forall|j: int| 0 <= j < table.len() implies (#[trigger] table[j]).id != id by {
                if places.contains(j) {
                    let m = choose|m: int| 0 <= m < places.len() && places[m] == j;
                    assert(part[m].id != id);
                }
            }
        },
    }
}

/// Sweeping an excerpt that holds the first jobs to be retired sweeps the table.
proof fn lemma_sweep_excerpt(
    table: Seq<Job>,
    places: Seq<int>,
    part: Seq<Job>,
    queue: Seq<char>,
    now: int,
    limit: nat,
)
    requires
        consistent(table),
        excerpt(table, places, part),
        covers_retirable(table, places, part, queue, now, limit),
    ensures
        written_back(
            table,
            places,
            swept(part, queue, now, limit),
            swept(table, queue, now, limit),
        ),
    decreases limit,
{
    lemma_excerpt_consistent(table, places, part);
    if limit > 0 {
        if exists|k: int| next_retired(part, queue, now, k) {
            let k = choose|k: int| next_retired(part, queue, now, k);
            let first = places[k];
            assert(next_retired(table, queue, now, first)) by {
                assert forall|j: int|
                    0 <= j < table.len() && j != first && (#[trigger] table[j]).retirable(
                        queue,
                        now,
                    ) implies retirement_rank(table[first]).precedes(
                    retirement_rank(table[j]),
                ) by {
                    if places.contains(j) {
                        let m = choose|m: int| 0 <= m < places.len() && places[m] == j;
                        assert(part[m] == table[j]);
                    } else {
                        assert(part[k].retirable(queue, now));
                    }
                }
            }
            let chosen = choose|i: int| next_retired(table, queue, now, i);
            lemma_next_retired_unique(table, queue, now, chosen, first);
            let job = part[k].retired(now);
            let next = table.update(first, job);
            let next_part = part.update(k, job);
            lemma_update_consistent(table, first, job);
            lemma_count_after_retirement(part, queue, now, k);
            assert(excerpt(next, places, next_part));
            assert(covers_retirable(next, places, next_part, queue, now, (limit - 1) as nat)) by {
                assert forall|j: int|
                    0 <= j < next.len() && !places.contains(j) && (#[trigger] next[j]).retirable(
                        queue,
                        now,
                    ) implies {
                    &&& retirable_count(next_part, queue, now) >= limit - 1
                    &&& forall|m: int|
                        0 <= m < next_part.len() && (#[trigger] next_part[m]).retirable(queue, now)
                            ==> retirement_rank(next_part[m]).precedes(retirement_rank(next[j]))
                } by {
                    assert(j != first);
                    assert(table[j] == next[j]);
                    assert forall|m: int|
                        0 <= m < next_part.len() && (#[trigger] next_part[m]).retirable(
                            queue,
                            now,
                        ) implies retirement_rank(next_part[m]).precedes(
                        retirement_rank(next[j]),
                    ) by {
                        assert(m != k);
                        assert(part[m] == next_part[m]);
                    }
                }
            }
            lemma_sweep_excerpt(next, places, next_part, queue, now, (limit - 1) as nat);
            let after = swept(table, queue, now, limit);
            assert(after == swept(next, queue, now, (limit - 1) as nat));
            assert forall|j: int|
                0 <= j < table.len() && !places.contains(j) implies #[trigger] after[j]
                == table[j] by {
                assert(j != first);
                assert(next[j] == table[j]);
            }
        } else {
            assert forall|k: int| 0 <= k < part.len() implies !(#[trigger] part[k]).retirable(
                queue,
                now,
            ) by {
                if part[k].retirable(queue, now) {
                    let first = lemma_next_retired_exists(part, queue, now, part.len() as int);
                    assert(next_retired(part, queue, now, first));
                }
            }
            lemma_count_none(part, queue, now);
            assert forall|i: int| !next_retired(table, queue, now, i) by {
                if next_retired(table, queue, now, i) {
                    if places.contains(i) {
                        let m = choose|m: int| 0 <= m < places.len() && places[m] == i;
                        assert(part[m] == table[i]);
                    }
                }
            }
        }
    }
}

/// A claim needs in hand no more than the first jobs to be retired, a batch of them
/// at most, and the next job to be claimed.
pub proof fn law_claim_needs_the_first_jobs_only(
    before: Seq<Job>,
    after: Seq<Job>,
    places: Seq<int>,
    part: Seq<Job>,
    part_after: Seq<Job>,
    queue: Seq<char>,
    worker: Seq<char>,
    token_hash: Seq<u8>,
    lease_seconds: int,
    now: int,
    at: Option<int>,
)
    requires
        consistent(before),
        excerpt(before, places, part),
        covers_retirable(
            before,
            places,
            part,
            queue,
            now,
            EXPIRED_RETIREMENT_BATCH_LIMIT as nat,
        ),
        covers_claimable(before, places, part, queue, now),
        claim_step(part, part_after, queue, worker, token_hash, lease_seconds, now, at),
        written_back(before, places, part_after, after),
    ensures
        claim_step(
            before,
            after,
            queue,
            worker,
            token_hash,
            lease_seconds,
            now,
            placed(places, at),
        ),
{
    let limit = EXPIRED_RETIREMENT_BATCH_LIMIT as nat;
    let jobs = swept(before, queue, now, limit);
    let in_hand = swept(part, queue, now, limit);
    lemma_excerpt_consistent(before, places, part);
    lemma_sweep_excerpt(before, places, part, queue, now, limit);
    lemma_sweep_keeps_claimable(part, queue, now, limit);
    law_retirement_is_bounded(before, queue, now, limit);
    assert(excerpt(jobs, places, in_hand));
    assert(written_back(jobs, places, part_after, after)) by {
        assert forall|j: int| 0 <= j < jobs.len() && !places.contains(j) implies #[trigger] after[j]
            == jobs[j] by {
            assert(jobs[j] == before[j]);
        }
    }
    // A claimable job that is left out comes after one in hand.
    assert forall|j: int|
        0 <= j < jobs.len() && !places.contains(j) && (#[trigger] jobs[j]).claimable(
            queue,
            now,
        ) implies exists|m: int|
        0 <= m < in_hand.len() && (#[trigger] in_hand[m]).claimable(queue, now) && claim_rank(
            in_hand[m],
        ).precedes(claim_rank(jobs[j])) by {
        assert(jobs[j] == before[j]);
        let m = choose|m: int|
            0 <= m < part.len() && (#[trigger] part[m]).claimable(queue, now) && claim_rank(
                part[m],
            ).precedes(claim_rank(before[j]));
        assert(in_hand[m] == part[m]);
    }
    match at {
        Some(k) => {
            let i = places[k];
            assert(next_claimed(jobs, queue, now, i)) by {
                assert forall|j: int|
                    0 <= j < jobs.len() && j != i && (#[trigger] jobs[j]).claimable(
                        queue,
                        now,
                    ) implies claim_rank(jobs[i]).precedes(claim_rank(jobs[j])) by {
                    if places.contains(j) {
                        let m = choose|m: int| 0 <= m < places.len() && places[m] == j;
                        assert(in_hand[m] == jobs[j]);
                    } else {
                        let m = choose|m: int|
                            0 <= m < in_hand.len() && (#[trigger] in_hand[m]).claimable(queue, now)
                                && claim_rank(in_hand[m]).precedes(claim_rank(jobs[j]));
                        if m != k {
                            lemma_rank_transitive(
                                claim_rank(in_hand[k]),
                                claim_rank(in_hand[m]),
                                claim_rank(jobs[j]),
                            );
                        }
                    }
                }
            }
            lemma_write_back_one(
                jobs,
                places,
                in_hand,
                k,
                in_hand[k].claimed(worker, token_hash, lease_seconds, now),
                after,
            );
        },
        None => {
            assert forall|j: int| 0 <= j < jobs.len() implies !(#[trigger] jobs[j]).claimable(
                queue,
                now,
            ) by {
                if places.contains(j) {
                    let m = choose|m: int| 0 <= m < places.len() && places[m] == j;
                    assert(in_hand[m] == jobs[j]);
                }
            }
            lemma_write_back_none(jobs, places, in_hand, after);
        },
    }
}

} // verus!
