//! What the table of jobs is kept by, and what a push is guarded by.
use vstd::prelude::*;

use crate::service::db::{JobCount, JobRow, Tally};
use crate::service::security::Challenge;

verus! {

/// A job holds its branch from the moment it is queued until it is completed, failed or given up.
pub proof fn law_which_jobs_are_active(state: Seq<char>)
    ensures
        crate::service::types::active(state) <==> state == "queued"@ || state == "running"@ || state
            == "waiting_guidance"@ || state == "generating_proposal"@ || state == "applying"@ || state
            == "test_failed"@ || state == "waiting_push"@ || state == "pushing"@,
        state == "completed"@ || state == "failed"@ || state == "abandoned"@
            ==> !crate::service::types::active(state),
{
    reveal_strlit("completed");
    reveal_strlit("failed");
    reveal_strlit("abandoned");
    reveal_strlit("queued");
    reveal_strlit("running");
    reveal_strlit("waiting_guidance");
    reveal_strlit("generating_proposal");
    reveal_strlit("applying");
    reveal_strlit("test_failed");
    reveal_strlit("waiting_push");
    reveal_strlit("pushing");
    assert("completed"@.len() == 9 && "failed"@.len() == 6 && "abandoned"@.len() == 9);
    assert("queued"@.len() == 6 && "running"@.len() == 7 && "waiting_guidance"@.len() == 16);
    assert("generating_proposal"@.len() == 19 && "applying"@.len() == 8 && "test_failed"@.len() == 11);
    assert("waiting_push"@.len() == 12 && "pushing"@.len() == 7);
    assert("failed"@[0] == 'f' && "queued"@[0] == 'q');
}

/// A restart ends the jobs that something was at work on, and leaves alone those that wait for somebody.
pub proof fn law_which_jobs_are_interrupted(state: Seq<char>)
    ensures
        crate::service::db::interrupted(state) <==> state == "queued"@ || state == "running"@ || state
            == "generating_proposal"@ || state == "applying"@ || state == "pushing"@ || state
            == "abandoning"@,
{
}

/// A job can be given up while it waits for somebody or after it failed.
pub proof fn law_which_jobs_are_given_up(state: Seq<char>)
    ensures
        crate::service::security::can_abandon(state) <==> state == "waiting_guidance"@ || state
            == "test_failed"@ || state == "waiting_push"@ || state == "failed"@,
{
}

/// A branch is busy exactly when one of its jobs is active.
pub proof fn law_when_a_branch_is_busy(rows: Seq<JobRow>, branch: Seq<char>, i: int)
    requires
        0 <= i < rows.len(),
        rows[i].branch@ == branch,
        crate::service::types::active(rows[i].state@),
    ensures
        crate::service::db::busy(rows, branch),
{
}

/// Cleaning up takes every job that is over and was last touched before the day, and no other.
pub proof fn law_what_is_cleaned_up(rows: Seq<JobRow>, cutoff: Seq<char>, n: int, k: int)
    requires
        0 <= n <= rows.len(),
    ensures
        crate::service::db::outdated_places(rows, cutoff, n).contains(k) <==> 0 <= k < n && (
        rows[k].state@ == "completed"@ || rows[k].state@ == "abandoned"@ || rows[k].state@
            == "failed"@) && crate::order::le(rows[k].updated_at@, cutoff) && rows[k].updated_at@
            != cutoff,
    decreases n,
{
    if n > 0 {
        law_what_is_cleaned_up(rows, cutoff, n - 1, k);
        let rest = crate::service::db::outdated_places(rows, cutoff, n - 1);
        let all = crate::service::db::outdated_places(rows, cutoff, n);
        if all != rest {
            assert(all == rest.push(n - 1));
            assert(all[rest.len() as int] == n - 1);
            if rest.contains(k) {
                let i = rest.index_of(k);
                assert(all[i] == k);
            }
            if all.contains(k) && k != n - 1 {
                let i = all.index_of(k);
                assert(rest[i] == k);
            }
        }
        if k == n - 1 && rest.contains(k) {
            law_active_index(rows, cutoff, n - 1, k);
        }
    }
}

proof fn law_active_index(rows: Seq<JobRow>, cutoff: Seq<char>, n: int, k: int)
    requires
        0 <= n <= rows.len(),
        crate::service::db::outdated_places(rows, cutoff, n).contains(k),
    ensures
        0 <= k < n,
{
    crate::service::db::law_active_jobs_are_kept(rows, cutoff, n, k);
}

/// The active jobs are listed, all of them and no other.
pub proof fn law_active_jobs_are_listed(rows: Seq<JobRow>, n: int, k: int)
    requires
        0 <= n <= rows.len(),
    ensures
        crate::service::db::active_places(rows, n).contains(k) <==> 0 <= k < n
            && crate::service::types::active(rows[k].state@),
    decreases n,
{
    if n > 0 {
        law_active_jobs_are_listed(rows, n - 1, k);
        let rest = crate::service::db::active_places(rows, n - 1);
        let all = crate::service::db::active_places(rows, n);
        if crate::service::types::active(rows[n - 1].state@) {
            assert(all == rest.push(n - 1));
            assert(all[rest.len() as int] == n - 1);
            if rest.contains(k) {
                let i = rest.index_of(k);
                assert(all[i] == k);
            }
            if all.contains(k) && k != n - 1 {
                let i = all.index_of(k);
                assert(rest[i] == k);
            }
        }
    }
}

/// Every row of the table counts for what it is.
pub proof fn law_what_a_row_counts_for(row: JobCount)
    ensures
        crate::service::db::counted(row, Tally::Jobs),
        crate::service::db::counted(row, Tally::Checks) <==> row.kind@ == "check"@,
        crate::service::db::counted(row, Tally::Syncs) <==> row.kind@ == "sync"@,
        crate::service::db::counted(row, Tally::Active) <==> row.kind@ == "sync"@
            && crate::service::types::active(row.state@),
        crate::service::db::counted(row, Tally::Completed) <==> row.kind@ == "sync"@ && row.state@
            == "completed"@,
        crate::service::db::counted(row, Tally::Failed) <==> row.kind@ == "sync"@ && row.state@
            == "failed"@,
        crate::service::db::counted(row, Tally::Conflicts) <==> row.kind@ == "sync"@ && (row.state@
            == "waiting_guidance"@ || row.state@ == "test_failed"@ || row.state@ == "waiting_push"@),
{
}

/// One more row adds its count where it counts, and nothing where it does not.
pub proof fn law_totals_add_up(rows: Seq<JobCount>, row: JobCount, tally: Tally)
    ensures
        crate::service::db::total(rows.push(row), tally, (rows.len() + 1) as int) == crate::service::db::total(
            rows,
            tally,
            rows.len() as int,
        ) + if crate::service::db::counted(row, tally) {
            row.count as nat
        } else {
            0nat
        },
        crate::service::db::total(Seq::empty(), tally, 0) == 0,
{
    lemma_total_prefix(rows, rows.push(row), tally, rows.len() as int);
}

proof fn lemma_total_prefix(rows: Seq<JobCount>, more: Seq<JobCount>, tally: Tally, n: int)
    requires
        n <= rows.len() <= more.len(),
        forall|i: int| 0 <= i < rows.len() ==> #[trigger] more[i] == rows[i],
    ensures
        crate::service::db::total(rows, tally, n) == crate::service::db::total(more, tally, n),
    decreases n,
{
    if n > 0 {
        lemma_total_prefix(rows, more, tally, n - 1);
        assert(more[n - 1] == rows[n - 1]);
    }
}

/// What is kept of the attempts is those of the last minute, in their order.
pub proof fn law_attempts_of_the_last_minute(attempts: Seq<u64>, now: u64)
    ensures
        crate::service::security::recent(attempts, now) == attempts.filter(
            |at: u64| now - at < 60_000,
        ),
    decreases attempts.len(),
{
    reveal(Seq::filter);
    if attempts.len() > 0 {
        law_attempts_of_the_last_minute(attempts.drop_last(), now);
    }
}

/// A push is let through by a challenge that is there, was not used and has not expired; by no other.
pub proof fn law_what_a_challenge_is_good_for(challenge: Option<Challenge>, now: i64)
    ensures
        crate::service::security::challenge_fault(challenge, now) is None <==> (challenge matches Some(
            c,
        ) && !c.used && now <= c.expires_at),
{
}

} // verus!
