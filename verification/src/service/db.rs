//! The rules of the table of jobs.
use crate::order::not_after;
use crate::service::types::{is_active, ServiceStats};
use crate::strings::{is_one_of, owned, same};
use vstd::prelude::*;

verus! {

/// A row of the table, as far as its rules go.
#[derive(Debug, Clone)]
pub struct JobRow {
    pub id: String,
    pub kind: String,
    pub branch: String,
    pub state: String,
    pub summary: String,
    pub worktree_path: String,
    pub created_at: String,
    pub updated_at: String,
}

/// The branch has a job that is not at an end.
pub open spec fn busy(rows: Seq<JobRow>, branch: Seq<char>) -> bool {
    exists|i: int|
        0 <= i < rows.len() && (#[trigger] rows[i]).branch@ == branch
            && crate::service::types::active(rows[i].state@)
}

/// Refuses where the branch has a job that is not at an end.
pub fn ensure_no_active_sync(rows: &Vec<JobRow>, branch: &str) -> (r: Result<(), String>)
    ensures
        match r {
            Ok(_) => !busy(rows@, branch@),
            Err(words) => busy(rows@, branch@) && words@ == "该分支已有活动任务"@,
        },
{
    let mut i: usize = 0;
    while i < rows.len()
        invariant
            i <= rows@.len(),
            forall|k: int|
                0 <= k < i ==> !((#[trigger] rows@[k]).branch@ == branch@
                    && crate::service::types::active(rows@[k].state@)),
        decreases rows@.len() - i,
    {
        if same(rows[i].branch.as_str(), branch) && is_active(rows[i].state.as_str()) {
            assert(rows@[i as int].branch@ == branch@);
            return Err(owned("该分支已有活动任务"));
        }
        i += 1;
    }
    Ok(())
}

/// The row of a new job. A branch has at most one synchronisation that is not at an end.
pub fn create_job(rows: &Vec<JobRow>, kind: &str, branch: &str, id: &str, now: &str) -> (r: Result<
    JobRow,
    String,
>)
    ensures
        match r {
            Ok(row) => {
                &&& kind@ == "sync"@ ==> !busy(rows@, branch@)
                &&& row.id@ == id@
                &&& row.kind@ == kind@
                &&& row.branch@ == branch@
                &&& row.state@ == "queued"@
                &&& row.summary@.len() == 0
                &&& row.worktree_path@.len() == 0
                &&& row.created_at@ == now@
                &&& row.updated_at@ == now@
            },
            Err(words) => kind@ == "sync"@ && busy(rows@, branch@) && words@ == "该分支已有活动任务"@,
        },
{
    if same(kind, "sync") {
        match ensure_no_active_sync(rows, branch) {
            Err(words) => {
                return Err(words);
            },
            Ok(()) => {},
        }
    }
    Ok(
        JobRow {
            id: owned(id),
            kind: owned(kind),
            branch: owned(branch),
            state: owned("queued"),
            summary: String::new(),
            worktree_path: String::new(),
            created_at: owned(now),
            updated_at: owned(now),
        },
    )
}

/// What is told of a new state.
pub open spec fn state_message(state: Seq<char>, summary: Seq<char>) -> Seq<char> {
    state + ": "@ + summary
}

/// Puts a job into a state, and says what is told of it.
pub fn set_state(job: &mut JobRow, state: &str, summary: &str, now: &str) -> (r: String)
    ensures
        final(job).id == old(job).id,
        final(job).kind == old(job).kind,
        final(job).branch == old(job).branch,
        final(job).worktree_path == old(job).worktree_path,
        final(job).created_at == old(job).created_at,
        final(job).state@ == state@,
        final(job).summary@ == summary@,
        final(job).updated_at@ == now@,
        r@ == state_message(state@, summary@),
{
    job.state = owned(state);
    job.summary = owned(summary);
    job.updated_at = owned(now);
    owned(state).concat(": ").concat(summary)
}

/// Puts a job into a state only where it is in one of the allowed states.
pub fn transition_state(job: &mut JobRow, allowed: &[&str], state: &str, summary: &str, now: &str) -> (r:
    Result<String, String>)
    ensures
        final(job).id == old(job).id,
        final(job).kind == old(job).kind,
        final(job).branch == old(job).branch,
        final(job).worktree_path == old(job).worktree_path,
        final(job).created_at == old(job).created_at,
        match r {
            Ok(message) => {
                &&& crate::strings::str_views(allowed@).contains(old(job).state@)
                &&& final(job).state@ == state@
                &&& final(job).summary@ == summary@
                &&& final(job).updated_at@ == now@
                &&& message@ == state_message(state@, summary@)
            },
            Err(words) => {
                &&& !crate::strings::str_views(allowed@).contains(old(job).state@)
                &&& *final(job) == *old(job)
                &&& words@ == (if allowed@.len() == 0 {
                    "缺少允许的任务状态"@
                } else {
                    "任务状态已变化，不允许重复执行："@ + old(job).id@
                })
            },
        },
{
    if allowed.len() == 0 {
        assert(crate::strings::str_views(allowed@) =~= Seq::empty());
        return Err(owned("缺少允许的任务状态"));
    }
    if !is_one_of(job.state.as_str(), allowed) {
        return Err(owned("任务状态已变化，不允许重复执行：").concat(job.id.as_str()));
    }
    Ok(set_state(job, state, summary, now))
}

/// The states in which a job is being worked on.
pub open spec fn interrupted(state: Seq<char>) -> bool {
    state == "queued"@ || state == "running"@ || state == "generating_proposal"@ || state
        == "applying"@ || state == "pushing"@ || state == "abandoning"@
}

/// Gives up a job that was being worked on when the service stopped.
pub fn recover_interrupted_job(job: &mut JobRow, now: &str) -> (r: bool)
    ensures
        r == interrupted(old(job).state@),
        !r ==> *final(job) == *old(job),
        r ==> final(job).state@ == "failed"@ && final(job).summary@
            == "服务重启时任务仍在执行，请重新发起"@ && final(job).updated_at@ == now@,
        *final(job) == (JobRow {
            state: final(job).state,
            summary: final(job).summary,
            updated_at: final(job).updated_at,
            ..*old(job)
        }),
{
    let state = job.state.as_str();
    if same(state, "queued") || same(state, "running") || same(state, "generating_proposal") || same(
        state,
        "applying",
    ) || same(state, "pushing") || same(state, "abandoning") {
        let _ = set_state(job, "failed", "服务重启时任务仍在执行，请重新发起", now);
        true
    } else {
        false
    }
}

/// The states of a job that is at an end for good.
pub open spec fn ended(state: Seq<char>) -> bool {
    state == "completed"@ || state == "abandoned"@ || state == "failed"@
}

/// `a` stands before `b` in the order of texts.
pub open spec fn before(a: Seq<char>, b: Seq<char>) -> bool {
    crate::order::le(a, b) && a != b
}

/// The job is at an end and older than the cutoff.
pub open spec fn outdated(row: JobRow, cutoff: Seq<char>) -> bool {
    ended(row.state@) && before(row.updated_at@, cutoff)
}

/// The places, below `n`, of the jobs that are removed.
pub open spec fn outdated_places(rows: Seq<JobRow>, cutoff: Seq<char>, n: int) -> Seq<int>
    decreases n,
{
    if n <= 0 {
        Seq::empty()
    } else {
        let rest = outdated_places(rows, cutoff, n - 1);
        if outdated(rows[n - 1], cutoff) {
            rest.push(n - 1)
        } else {
            rest
        }
    }
}

/// Refuses to remove jobs of all ages.
pub fn check_cleanup_days(days: u32) -> (r: Result<(), String>)
    ensures
        match r {
            Ok(_) => days > 0,
            Err(words) => days == 0 && words@ == "cleanup days must be greater than zero"@,
        },
{
    if days > 0 {
        Ok(())
    } else {
        Err(owned("cleanup days must be greater than zero"))
    }
}

/// The places of the jobs that are removed: those at an end that changed last before the cutoff.
pub fn cleanup_old_jobs(rows: &Vec<JobRow>, cutoff: &str) -> (r: Vec<usize>)
    ensures
        crate::sync::places(r@) == outdated_places(rows@, cutoff@, rows@.len() as int),
{
    let mut out: Vec<usize> = Vec::new();
    let mut i: usize = 0;
    assert(crate::sync::places(out@) =~= Seq::empty());
    while i < rows.len()
        invariant
            i <= rows@.len(),
            crate::sync::places(out@) == outdated_places(rows@, cutoff@, i as int),
        decreases rows@.len() - i,
    {
        let state = rows[i].state.as_str();
        let at_end = same(state, "completed") || same(state, "abandoned") || same(state, "failed");
        let updated = rows[i].updated_at.as_str();
        if at_end && not_after(updated, cutoff) && !same(updated, cutoff) {
            let ghost so_far = out@;
            out.push(i);
            assert(crate::sync::places(out@) =~= crate::sync::places(so_far).push(i as int));
        }
        i += 1;
    }
    out
}

/// The places, below `n`, of the jobs that are not at an end.
pub open spec fn active_places(rows: Seq<JobRow>, n: int) -> Seq<int>
    decreases n,
{
    if n <= 0 {
        Seq::empty()
    } else {
        let rest = active_places(rows, n - 1);
        if crate::service::types::active(rows[n - 1].state@) {
            rest.push(n - 1)
        } else {
            rest
        }
    }
}

/// The places of the jobs that are not at an end.
pub fn active_job_summaries(rows: &Vec<JobRow>) -> (r: Vec<usize>)
    ensures
        crate::sync::places(r@) == active_places(rows@, rows@.len() as int),
        forall|i: int| 0 <= i < r@.len() ==> #[trigger] r@[i] < rows@.len(),
{
    let mut out: Vec<usize> = Vec::new();
    let mut i: usize = 0;
    assert(crate::sync::places(out@) =~= Seq::empty());
    while i < rows.len()
        invariant
            i <= rows@.len(),
            crate::sync::places(out@) == active_places(rows@, i as int),
            forall|k: int| 0 <= k < out@.len() ==> #[trigger] out@[k] < rows@.len(),
        decreases rows@.len() - i,
    {
        if is_active(rows[i].state.as_str()) {
            let ghost so_far = out@;
            out.push(i);
            assert(crate::sync::places(out@) =~= crate::sync::places(so_far).push(i as int));
        }
        i += 1;
    }
    out
}

/// How many jobs of a kind are in a state.
#[derive(Debug, Clone)]
pub struct JobCount {
    pub kind: String,
    pub state: String,
    pub count: u32,
}

/// What a count is counted under.
#[derive(Debug, Clone, Copy, PartialEq, Eq, Structural)]
pub enum Tally {
    Jobs,
    Checks,
    Syncs,
    Active,
    Completed,
    Failed,
    Conflicts,
}

/// The count is counted under the tally.
pub open spec fn counted(row: JobCount, tally: Tally) -> bool {
    let sync = row.kind@ == "sync"@;
    match tally {
        Tally::Jobs => true,
        Tally::Checks => row.kind@ == "check"@,
        Tally::Syncs => sync,
        Tally::Active => sync && crate::service::types::active(row.state@),
        Tally::Completed => sync && row.state@ == "completed"@,
        Tally::Failed => sync && row.state@ == "failed"@,
        Tally::Conflicts => sync && (row.state@ == "waiting_guidance"@ || row.state@ == "test_failed"@
            || row.state@ == "waiting_push"@),
    }
}

/// The sum of the first `n` counts under the tally.
pub open spec fn total(rows: Seq<JobCount>, tally: Tally, n: int) -> nat
    decreases n,
{
    if n <= 0 {
        0
    } else {
        total(rows, tally, n - 1) + if counted(rows[n - 1], tally) {
            rows[n - 1].count as nat
        } else {
            0nat
        }
    }
}

proof fn lemma_total_bound(rows: Seq<JobCount>, tally: Tally, n: int, m: int)
    requires
        0 <= n <= m <= rows.len(),
    ensures
        total(rows, tally, n) <= total(rows, Tally::Jobs, m),
    decreases m,
{
    if n < m {
        lemma_total_bound(rows, tally, n, m - 1);
    } else if m > 0 {
        lemma_total_bound(rows, tally, n - 1, m - 1);
    }
}

fn add_count(sum: u32, row: &JobCount, here: bool) -> (r: u32)
    requires
        here ==> sum + row.count <= u32::MAX,
    ensures
        r == sum + if here {
            row.count as int
        } else {
            0
        },
{
    if here {
        sum + row.count
    } else {
        sum
    }
}

/// The numbers of jobs, from the counts of each kind and state.
pub fn job_stats(rows: &Vec<JobCount>) -> (r: ServiceStats)
    requires
        total(rows@, Tally::Jobs, rows@.len() as int) <= u32::MAX,
    ensures
        r.job_total == total(rows@, Tally::Jobs, rows@.len() as int),
        r.check_total == total(rows@, Tally::Checks, rows@.len() as int),
        r.sync_total == total(rows@, Tally::Syncs, rows@.len() as int),
        r.sync_active == total(rows@, Tally::Active, rows@.len() as int),
        r.sync_completed == total(rows@, Tally::Completed, rows@.len() as int),
        r.sync_failed == total(rows@, Tally::Failed, rows@.len() as int),
        r.sync_conflict == total(rows@, Tally::Conflicts, rows@.len() as int),
{
    let mut stats = ServiceStats {
        sync_total: 0,
        sync_completed: 0,
        sync_failed: 0,
        sync_conflict: 0,
        sync_active: 0,
        check_total: 0,
        job_total: 0,
    };
    let mut i: usize = 0;
    while i < rows.len()
        invariant
            i <= rows@.len(),
            total(rows@, Tally::Jobs, rows@.len() as int) <= u32::MAX,
            stats.job_total == total(rows@, Tally::Jobs, i as int),
            stats.check_total == total(rows@, Tally::Checks, i as int),
            stats.sync_total == total(rows@, Tally::Syncs, i as int),
            stats.sync_active == total(rows@, Tally::Active, i as int),
            stats.sync_completed == total(rows@, Tally::Completed, i as int),
            stats.sync_failed == total(rows@, Tally::Failed, i as int),
            stats.sync_conflict == total(rows@, Tally::Conflicts, i as int),
        decreases rows@.len() - i,
    {
        proof {
            lemma_total_bound(rows@, Tally::Jobs, i + 1, rows@.len() as int);
            lemma_total_bound(rows@, Tally::Checks, i + 1, rows@.len() as int);
            lemma_total_bound(rows@, Tally::Syncs, i + 1, rows@.len() as int);
            lemma_total_bound(rows@, Tally::Active, i + 1, rows@.len() as int);
            lemma_total_bound(rows@, Tally::Completed, i + 1, rows@.len() as int);
            lemma_total_bound(rows@, Tally::Failed, i + 1, rows@.len() as int);
            lemma_total_bound(rows@, Tally::Conflicts, i + 1, rows@.len() as int);
        }
        let row = &rows[i];
        let state = row.state.as_str();
        let sync = same(row.kind.as_str(), "sync");
        let conflict = same(state, "waiting_guidance") || same(state, "test_failed") || same(
            state,
            "waiting_push",
        );
        stats.job_total = add_count(stats.job_total, row, true);
        stats.check_total = add_count(
            stats.check_total,
            row,
            same(row.kind.as_str(), "check"),
        );
        stats.sync_total = add_count(stats.sync_total, row, sync);
        stats.sync_active = add_count(stats.sync_active, row, sync && is_active(state));
        stats.sync_completed = add_count(
            stats.sync_completed,
            row,
            sync && same(state, "completed"),
        );
        stats.sync_failed = add_count(stats.sync_failed, row, sync && same(state, "failed"));
        stats.sync_conflict = add_count(stats.sync_conflict, row, sync && conflict);
        i += 1;
    }
    stats
}

/// Where every branch has at most one job that is not at an end, a new synchronisation keeps it so.
pub proof fn law_one_active_job_per_branch(rows: Seq<JobRow>, row: JobRow)
    requires
        forall|i: int, j: int|
            0 <= i < j < rows.len() && (#[trigger] rows[i]).branch@ == (#[trigger] rows[j]).branch@
                ==> !(crate::service::types::active(rows[i].state@)
                && crate::service::types::active(rows[j].state@)),
        !busy(rows, row.branch@),
    ensures
        forall|i: int, j: int|
            0 <= i < j < rows.push(row).len() && (#[trigger] rows.push(row)[i]).branch@ == (
            #[trigger] rows.push(row)[j]).branch@ ==> !(crate::service::types::active(
                rows.push(row)[i].state@,
            ) && crate::service::types::active(rows.push(row)[j].state@)),
{
    let all = rows.push(row);
    assert forall|i: int, j: int|
        0 <= i < j < all.len() && (#[trigger] all[i]).branch@ == (#[trigger] all[j]).branch@ implies !(
    crate::service::types::active(all[i].state@) && crate::service::types::active(all[j].state@)) by {
        if j == rows.len() {
            assert(rows[i] == all[i]);
            if crate::service::types::active(all[i].state@) {
                assert(busy(rows, row.branch@));
            }
        } else {
            assert(rows[i] == all[i] && rows[j] == all[j]);
        }
    }
}

/// A job that is removed is at an end: nothing that is still before it is lost.
pub proof fn law_active_jobs_are_kept(rows: Seq<JobRow>, cutoff: Seq<char>, n: int, k: int)
    requires
        0 <= n <= rows.len(),
        outdated_places(rows, cutoff, n).contains(k),
    ensures
        0 <= k < n,
        outdated(rows[k], cutoff),
        !crate::service::types::active(rows[k].state@),
    decreases n,
{
    reveal_strlit("completed");
    reveal_strlit("abandoned");
    reveal_strlit("failed");
    reveal_strlit("queued");
    reveal_strlit("running");
    reveal_strlit("waiting_guidance");
    reveal_strlit("generating_proposal");
    reveal_strlit("applying");
    reveal_strlit("test_failed");
    reveal_strlit("waiting_push");
    reveal_strlit("pushing");
    if n > 0 {
        let rest = outdated_places(rows, cutoff, n - 1);
        let all = outdated_places(rows, cutoff, n);
        let i = choose|i: int| 0 <= i < all.len() && all[i] == k;
        if outdated(rows[n - 1], cutoff) {
            if i < rest.len() {
                assert(rest[i] == k);
                law_active_jobs_are_kept(rows, cutoff, n - 1, k);
            } else {
                let state = rows[k].state@;
                assert(state.len() == 9 || state.len() == 6);
                assert(!crate::service::types::active(state)) by {
                    assert("completed"@[0] == 'c');
                    assert("abandoned"@[0] == 'a');
                    assert("abandoned"@[1] == 'b');
                    assert("failed"@[0] == 'f');
                    assert("queued"@[0] == 'q');
                }
            }
        } else {
            law_active_jobs_are_kept(rows, cutoff, n - 1, k);
        }
    }
}

/// Something that a person was told of a job.
#[derive(Debug)]
pub struct Told {
    pub job_id: String,
    pub event: String,
}

/// The person was told this of the job.
pub open spec fn was_told(list: Seq<Told>, job_id: Seq<char>, event: Seq<char>) -> bool {
    exists|i: int|
        0 <= i < list.len() && (#[trigger] list[i]).job_id@ == job_id && list[i].event@ == event
}

/// Whether a message is to be sent: each is sent once.
pub fn notify_once(told: &Vec<Told>, job_id: &str, event: &str) -> (r: bool)
    ensures
        r == !was_told(told@, job_id@, event@),
{
    let mut i: usize = 0;
    while i < told.len()
        invariant
            i <= told@.len(),
            forall|k: int|
                0 <= k < i ==> !((#[trigger] told@[k]).job_id@ == job_id@ && told@[k].event@
                    == event@),
        decreases told@.len() - i,
    {
        if same(told[i].job_id.as_str(), job_id) && same(told[i].event.as_str(), event) {
            assert(told@[i as int].job_id@ == job_id@);
            return false;
        }
        i += 1;
    }
    true
}

/// Writes down what a person was told, unless the message was not sent.
pub fn take_note(told: &mut Vec<Told>, job_id: &str, event: &str, sent: &Result<bool, String>)
    ensures
        *sent == Ok::<bool, String>(true) ==> was_told(final(told)@, job_id@, event@)
            && final(told)@.len() == old(told)@.len() + 1
            && final(told)@.drop_last() == old(told)@
            && final(told)@.last().job_id@ == job_id@
            && final(told)@.last().event@ == event@,
        *sent != Ok::<bool, String>(true) ==> final(told)@ == old(told)@,
{
    match sent {
        Ok(true) => {
            told.push(Told { job_id: owned(job_id), event: owned(event) });
            assert(told@.drop_last() =~= old(told)@);
            assert(told@[told@.len() - 1].job_id@ == job_id@);
        },
        _ => {},
    }
}

} // verus!
