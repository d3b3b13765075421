//! What holds of every job of the service.
use crate::command::CommandOutput;
use crate::config::{BranchConfig, RepoConfig};
use crate::protection::guard::Deed;
use crate::service::jobs::{JobDoing, JobEvent, JobStage, JobState};
use crate::service::work::{PushEvent, PushState, ResolveEvent, ResolveState};
use vstd::prelude::*;

verus! {

/// A job pushes its branch only right after the remote said that it has the commit that it had when
/// the job began, or none where it had none.
pub proof fn law_job_push_needs_unmoved_remote(
    s: PushState,
    repo: RepoConfig,
    branch: BranchConfig,
    event: PushEvent,
)
    requires
        crate::service::work::push_fits(s.stage, event),
        crate::service::work::push_step(s, repo, branch, event).0.stage is Push,
    ensures
        s.stage is RemoteHead,
        event is Output,
        event->Output_0.ok(),
        ({
            let current = crate::git::first_word(event->Output_0.stdout@);
            &&& current is Some ==> current->0 == s.expected
            &&& current is None ==> s.expected.len() == 0
        }),
{
}

/// A branch that the remote has already is not pushed again: what is left, such as a tag, is made up
/// for.
pub proof fn law_pushed_branch_is_left_alone(
    s: PushState,
    repo: RepoConfig,
    branch: BranchConfig,
    event: PushEvent,
)
    requires
        s.stage is RemoteHead,
        event is Output,
        event->Output_0.ok(),
        crate::git::first_word(event->Output_0.stdout@) == Some(s.candidate),
    ensures
        crate::service::work::push_step(s, repo, branch, event).1 is Record,
        crate::service::work::push_step(s, repo, branch, event).0.stage is Record,
{
}

/// A push with a lease names the commit that is expected, whatever the branch is.
pub proof fn law_lease_names_the_expected_commit(s: PushState, repo: RepoConfig, branch: BranchConfig)
    requires
        s.require_lease || s.expected.len() == 0,
    ensures
        crate::service::work::job_push_args(s, repo, branch)[1] == "--force-with-lease=refs/heads/"@
            + branch.name@ + ":"@ + s.expected,
{
    if s.expected.len() == 0 {
        let lease = "--force-with-lease=refs/heads/"@ + branch.name@ + ":"@;
        assert(lease + s.expected =~= lease);
    }
}

/// The files that the model resolved are written only where it calls the risk low, and then no
/// marker is left and no other file is touched.
pub proof fn law_low_risk_files_are_clean(
    s: ResolveState,
    strategy: crate::config::SyncStrategy,
    files: Seq<crate::git::ConflictFileContent>,
    conflict_files: Seq<Seq<char>>,
    event: ResolveEvent,
    k: int,
)
    requires
        s.stage is Model,
        event is Decision,
        crate::service::work::resolve_step(s, strategy, files, conflict_files, event).1 is WriteFile,
        0 <= k < crate::service::work::resolve_step(
            s,
            strategy,
            files,
            conflict_files,
            event,
        ).0.resolved.len(),
    ensures
        ({
            let t = crate::service::work::resolve_step(s, strategy, files, conflict_files, event).0;
            &&& conflict_files.contains(t.resolved[k].0)
            &&& !crate::strings::occurs(t.resolved[k].1, "<<<<<<<"@)
            &&& !crate::strings::occurs(t.resolved[k].1, "======="@)
            &&& !crate::strings::occurs(t.resolved[k].1, ">>>>>>>"@)
        }),
        crate::strings::same_ignoring_case(event->Decision_0->Ok_0->0.risk@, "low"@),
{
    let t = crate::service::work::resolve_step(s, strategy, files, conflict_files, event).0;
    lemma_text_clean(t.resolved, conflict_files, 0, k);
}

proof fn lemma_text_clean(
    files: Seq<(Seq<char>, Seq<char>)>,
    conflict_files: Seq<Seq<char>>,
    i: int,
    k: int,
)
    requires
        0 <= i <= k < files.len(),
        crate::service::util::texts_fault_from(files, conflict_files, i) is None,
    ensures
        crate::service::util::text_fault(files[k].0, files[k].1, conflict_files) is None,
    decreases k - i,
{
    if i < k {
        lemma_text_clean(files, conflict_files, i + 1, k);
    }
}

/// The state after the first `i` steps of a job.
pub open spec fn job_at(trace: Seq<(JobState, JobEvent)>, last: JobState, i: int) -> JobState {
    if i < trace.len() {
        trace[i].0
    } else {
        last
    }
}

/// Step number `i` leads from one state of the job to the next.
pub open spec fn job_step_at(
    repo: RepoConfig,
    branch: BranchConfig,
    trace: Seq<(JobState, JobEvent)>,
    last: JobState,
    i: int,
) -> bool {
    &&& crate::service::jobs::job_fits(trace[i].0, trace[i].1)
    &&& crate::service::jobs::job_step(trace[i].0, repo, branch, trace[i].1).0 == job_at(
        trace,
        last,
        i + 1,
    )
}

/// A job from its beginning to the state `last`.
pub open spec fn is_job(
    repo: RepoConfig,
    branch: BranchConfig,
    trace: Seq<(JobState, JobEvent)>,
    last: JobState,
) -> bool {
    &&& job_at(trace, last, 0) == crate::service::jobs::job_start(
        job_at(trace, last, 0).worktree,
        job_at(trace, last, 0).notify_on_noop,
    )
    &&& forall|i: int| 0 <= i < trace.len() ==> #[trigger] job_step_at(repo, branch, trace, last, i)
}

/// The step is a pass of test number `k`.
pub open spec fn job_pass(step: (JobState, JobEvent), k: int) -> bool {
    step.0.stage is Testing && step.0.test_at == k && step.1 is Output && step.1->Output_0.ok()
}

/// Test number `k` passed somewhere in the job.
pub open spec fn job_passed(trace: Seq<(JobState, JobEvent)>, k: int) -> bool {
    exists|j: int| 0 <= j < trace.len() && job_pass(#[trigger] trace[j], k)
}

/// The stages behind the tests.
pub open spec fn job_behind_tests(stage: JobStage) -> bool {
    stage is RecordTests || stage is Pushing || stage is AfterHead || stage is Remove
}

#[verifier::rlimit(60)]
#[verifier::spinoff_prover]
proof fn lemma_job_output(s: JobState, repo: RepoConfig, branch: BranchConfig, o: CommandOutput)
    requires
        crate::service::jobs::job_fits(s, JobEvent::Output(o)),
    ensures
        ({
            let (t, doing) = crate::service::jobs::job_output(s, repo, branch, o);
            let n = branch.tests@.len();
            let pass = s.stage is Testing && o.ok();
            &&& job_behind_tests(t.stage) ==> job_behind_tests(s.stage) || n == 0 || (pass && s.test_at
                + 1 >= n)
            &&& t.stage is Testing ==> t.test_at == 0 || (pass && t.test_at == s.test_at + 1)
            &&& t.stage is Testing ==> crate::service::jobs::job_deed(doing) == Some(Deed::Test)
            &&& t.stage is RecordTests ==> crate::service::jobs::job_deed(doing) == Some(Deed::Push)
            &&& t.stage is Pushing ==> s.stage is Pushing
            &&& t.stage !is AfterHead
            &&& t.notify_on_noop == s.notify_on_noop
        }),
{
    reveal(crate::service::jobs::job_output);
}

proof fn lemma_job_step(s: JobState, repo: RepoConfig, branch: BranchConfig, event: JobEvent)
    requires
        crate::service::jobs::job_fits(s, event),
    ensures
        ({
            let t = crate::service::jobs::job_step(s, repo, branch, event).0;
            let n = branch.tests@.len();
            let pass = job_pass((s, event), s.test_at as int);
            &&& job_behind_tests(t.stage) ==> job_behind_tests(s.stage) || n == 0 || (pass && s.test_at
                + 1 >= n)
            &&& t.stage is Testing ==> t.test_at == 0 || (pass && t.test_at == s.test_at + 1)
        }),
{
    if let JobEvent::Output(o) = event {
        lemma_job_output(s, repo, branch, o);
    }
}

proof fn lemma_job_shorter(
    repo: RepoConfig,
    branch: BranchConfig,
    trace: Seq<(JobState, JobEvent)>,
    last: JobState,
)
    requires
        is_job(repo, branch, trace, last),
        trace.len() > 0,
    ensures
        is_job(repo, branch, trace.drop_last(), trace.last().0),
{
    let n = trace.len() - 1;
    let before = trace.drop_last();
    assert(job_at(before, trace.last().0, 0) == job_at(trace, last, 0));
    assert forall|i: int| 0 <= i < n implies #[trigger] job_step_at(
        repo,
        branch,
        before,
        trace.last().0,
        i,
    ) by {
        assert(job_step_at(repo, branch, trace, last, i));
        assert(job_at(before, trace.last().0, i + 1) == job_at(trace, last, i + 1));
    }
}

/// Whatever happens, a job reaches its push only when every test of the branch passed.
pub proof fn law_job_tests_before_push(
    repo: RepoConfig,
    branch: BranchConfig,
    trace: Seq<(JobState, JobEvent)>,
    last: JobState,
)
    requires
        is_job(repo, branch, trace, last),
    ensures
        job_behind_tests(last.stage) ==> forall|k: int|
            0 <= k < branch.tests@.len() ==> #[trigger] job_passed(trace, k),
        last.stage is Testing ==> forall|k: int|
            0 <= k < last.test_at ==> #[trigger] job_passed(trace, k),
    decreases trace.len(),
{
    if trace.len() > 0 {
        let n = trace.len() - 1;
        let prev = trace.last().0;
        let before = trace.drop_last();
        lemma_job_shorter(repo, branch, trace, last);
        law_job_tests_before_push(repo, branch, before, prev);
        assert(job_step_at(repo, branch, trace, last, n));
        lemma_job_step(prev, repo, branch, trace.last().1);
        assert forall|k: int| #[trigger] job_passed(before, k) implies job_passed(trace, k) by {
            let j = choose|j: int| 0 <= j < before.len() && job_pass(#[trigger] before[j], k);
            assert(job_pass(trace[j], k));
        }
        if job_pass(trace.last(), prev.test_at as int) {
            assert(job_pass(trace[n], prev.test_at as int));
            assert(job_passed(trace, prev.test_at as int));
        }
        assert forall|k: int|
            job_behind_tests(last.stage) && 0 <= k < branch.tests@.len() implies #[trigger] job_passed(
            trace,
            k,
        ) by {
            if job_behind_tests(prev.stage) || k < prev.test_at {
                assert(job_passed(before, k));
            }
        }
        assert forall|k: int| last.stage is Testing && 0 <= k < last.test_at implies #[trigger] job_passed(
            trace,
            k,
        ) by {
            if k < prev.test_at {
                assert(job_passed(before, k));
            }
        }
    }
}

/// A job is called completed only when every test of the branch passed.
pub proof fn law_completed_job_is_tested(
    repo: RepoConfig,
    branch: BranchConfig,
    trace: Seq<(JobState, JobEvent)>,
    last: JobState,
    event: JobEvent,
)
    requires
        is_job(repo, branch, trace, last),
        crate::service::jobs::job_fits(last, event),
        event is Removed,
    ensures
        crate::service::jobs::job_step(last, repo, branch, event).1 == JobDoing::End(
            crate::service::jobs::completed_end(
                branch,
                last.notify_on_noop || crate::service::jobs::job_updated(last, branch),
            ),
            None,
        ),
        forall|k: int| 0 <= k < branch.tests@.len() ==> #[trigger] job_passed(trace, k),
{
    law_job_tests_before_push(repo, branch, trace, last);
    assert(last.stage is Remove);
}

/// A job asks the guard before every test, and once more before it leaves its tests behind: its push
/// is reached from there alone.
pub proof fn law_job_asks_the_guard(
    s: JobState,
    repo: RepoConfig,
    branch: BranchConfig,
    event: JobEvent,
)
    requires
        crate::service::jobs::job_fits(s, event),
    ensures
        ({
            let (t, doing) = crate::service::jobs::job_step(s, repo, branch, event);
            &&& t.stage is Testing ==> crate::service::jobs::job_deed(doing) == Some(Deed::Test)
            &&& t.stage is RecordTests ==> crate::service::jobs::job_deed(doing) == Some(Deed::Push)
            &&& t.stage is Pushing ==> s.stage is RecordTests || s.stage is Pushing
            &&& t.stage is AfterHead ==> s.stage is RecordTests
        }),
{
    if let JobEvent::Output(o) = event {
        lemma_job_output(s, repo, branch, o);
    }
}

/// A job that the schedule asked for and that changed nothing ends as a completed job and sends no
/// message; where it changed something, or somebody is waiting for it, it sends one.
pub proof fn law_idle_job_is_silent(
    s: JobState,
    repo: RepoConfig,
    branch: BranchConfig,
    event: JobEvent,
)
    requires
        crate::service::jobs::job_fits(s, event),
        s.stage is Remove,
    ensures
        ({
            let doing = crate::service::jobs::job_step(s, repo, branch, event).1;
            &&& doing is End
            &&& doing->End_0.state == "completed"@
            &&& doing->End_0.notice is None <==> !s.notify_on_noop
                && !crate::service::jobs::job_updated(s, branch)
        }),
{
}

/// Whether an idle job sends a message is settled when it begins.
pub proof fn law_silence_is_settled(
    s: JobState,
    repo: RepoConfig,
    branch: BranchConfig,
    event: JobEvent,
)
    requires
        crate::service::jobs::job_fits(s, event),
    ensures
        crate::service::jobs::job_step(s, repo, branch, event).0.notify_on_noop == s.notify_on_noop,
{
    if let JobEvent::Output(o) = event {
        lemma_job_output(s, repo, branch, o);
    }
}

} // verus!
