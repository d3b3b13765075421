//! What holds of every synchronisation.
use crate::config::{BranchConfig, PushStrategy, RepoConfig};
use crate::protection::guard::Deed;
use crate::report::{BranchStatus, Reported};
use crate::sync::{SyncDoing, SyncEvent, SyncStage, SyncState};
use vstd::prelude::*;

verus! {

/// The state after the first `i` steps.
pub open spec fn state_at(trace: Seq<(SyncState, SyncEvent)>, last: SyncState, i: int) -> SyncState {
    if i < trace.len() {
        trace[i].0
    } else {
        last
    }
}

/// Step number `i` leads from one state of the trace to the next.
pub open spec fn step_at(
    repo: RepoConfig,
    branch: BranchConfig,
    trace: Seq<(SyncState, SyncEvent)>,
    last: SyncState,
    i: int,
) -> bool {
    &&& crate::sync::fits(trace[i].0.stage, trace[i].1)
    &&& crate::sync::step_of(trace[i].0, repo, branch, trace[i].1).0 == state_at(trace, last, i + 1)
}

/// A synchronisation from its beginning to the state `last`.
pub open spec fn is_trace(
    repo: RepoConfig,
    branch: BranchConfig,
    trace: Seq<(SyncState, SyncEvent)>,
    last: SyncState,
) -> bool {
    &&& state_at(trace, last, 0).stage is Checkout
    &&& forall|i: int| 0 <= i < trace.len() ==> #[trigger] step_at(repo, branch, trace, last, i)
}

/// The step is a pass of test number `k`.
pub open spec fn is_pass(step: (SyncState, SyncEvent), k: int) -> bool {
    step.0.stage is Test && step.0.at == k && step.1 is Output && step.1->Output_0.ok()
}

/// Test number `k` passed somewhere in the trace.
pub open spec fn passed(trace: Seq<(SyncState, SyncEvent)>, k: int) -> bool {
    exists|j: int| 0 <= j < trace.len() && is_pass(#[trigger] trace[j], k)
}

/// The stages behind the tests.
pub open spec fn behind_tests(stage: SyncStage) -> bool {
    stage is AfterHead || stage is Commits || stage is Changes || stage is Fetch || stage is RemoteAgain
        || stage is Push
}

/// The stages of a push.
pub open spec fn pushing(stage: SyncStage) -> bool {
    stage is Fetch || stage is RemoteAgain || stage is Push
}

proof fn lemma_step(s: SyncState, repo: RepoConfig, branch: BranchConfig, event: SyncEvent)
    requires
        crate::sync::fits(s.stage, event),
    ensures
        ({
            let t = crate::sync::step_of(s, repo, branch, event).0;
            let n = branch.tests@.len();
            let pass = is_pass((s, event), s.at as int);
            &&& behind_tests(t.stage) ==> behind_tests(s.stage) || n == 0 || (pass && s.at + 1 >= n)
            &&& t.stage is Test ==> t.at == 0 || (pass && t.at == s.at + 1)
            &&& pushing(t.stage) ==> pushing(s.stage) || branch.push != PushStrategy::Never
        }),
{
}

proof fn lemma_passed_grows(trace: Seq<(SyncState, SyncEvent)>, k: int)
    requires
        trace.len() > 0,
        passed(trace.drop_last(), k),
    ensures
        passed(trace, k),
{
    let j = choose|j: int|
        0 <= j < trace.drop_last().len() && is_pass(#[trigger] trace.drop_last()[j], k);
    assert(is_pass(trace[j], k));
}

proof fn lemma_shorter(
    repo: RepoConfig,
    branch: BranchConfig,
    trace: Seq<(SyncState, SyncEvent)>,
    last: SyncState,
)
    requires
        is_trace(repo, branch, trace, last),
        trace.len() > 0,
    ensures
        is_trace(repo, branch, trace.drop_last(), trace.last().0),
{
    let n = trace.len() - 1;
    assert(state_at(trace.drop_last(), trace.last().0, 0) == state_at(trace, last, 0));
    assert forall|i: int| 0 <= i < n implies #[trigger] step_at(
        repo,
        branch,
        trace.drop_last(),
        trace.last().0,
        i,
    ) by {
        assert(step_at(repo, branch, trace, last, i));
        assert(state_at(trace.drop_last(), trace.last().0, i + 1) == state_at(trace, last, i + 1));
    }
}

/// Whatever happens, the stages behind the tests are reached only when every test of the branch
/// passed, and during the tests all earlier ones did.
pub proof fn law_tests_come_first(
    repo: RepoConfig,
    branch: BranchConfig,
    trace: Seq<(SyncState, SyncEvent)>,
    last: SyncState,
)
    requires
        is_trace(repo, branch, trace, last),
    ensures
        behind_tests(last.stage) ==> forall|k: int|
            0 <= k < branch.tests@.len() ==> #[trigger] passed(trace, k),
        last.stage is Test ==> forall|k: int| 0 <= k < last.at ==> #[trigger] passed(trace, k),
    decreases trace.len(),
{
    if trace.len() > 0 {
        let n = trace.len() - 1;
        let prev = trace.last().0;
        lemma_shorter(repo, branch, trace, last);
        law_tests_come_first(repo, branch, trace.drop_last(), prev);
        assert(step_at(repo, branch, trace, last, n));
        lemma_step(prev, repo, branch, trace.last().1);
        assert forall|k: int| #[trigger] passed(trace.drop_last(), k) implies passed(trace, k) by {
            lemma_passed_grows(trace, k);
        }
        if is_pass(trace.last(), prev.at as int) {
            assert(is_pass(trace[n], prev.at as int));
            assert(passed(trace, prev.at as int));
        }
        assert forall|k: int| behind_tests(last.stage) && 0 <= k < branch.tests@.len() implies #[trigger] passed(
            trace,
            k,
        ) by {
            if behind_tests(prev.stage) {
                assert(passed(trace.drop_last(), k));
            } else if k < prev.at {
                assert(passed(trace.drop_last(), k));
            }
        }
        assert forall|k: int| last.stage is Test && 0 <= k < last.at implies #[trigger] passed(
            trace,
            k,
        ) by {
            if k < prev.at {
                assert(passed(trace.drop_last(), k));
            }
        }
    }
}

/// A branch that is not to be pushed never reaches a stage of a push.
pub proof fn law_never_means_never(
    repo: RepoConfig,
    branch: BranchConfig,
    trace: Seq<(SyncState, SyncEvent)>,
    last: SyncState,
)
    requires
        is_trace(repo, branch, trace, last),
        branch.push == PushStrategy::Never,
    ensures
        !pushing(last.stage),
    decreases trace.len(),
{
    if trace.len() > 0 {
        lemma_shorter(repo, branch, trace, last);
        law_never_means_never(repo, branch, trace.drop_last(), trace.last().0);
        assert(step_at(repo, branch, trace, last, trace.len() - 1));
        lemma_step(trace.last().0, repo, branch, trace.last().1);
    }
}

/// A success is reported only when every test of the branch passed.
pub proof fn law_success_means_tested(
    repo: RepoConfig,
    branch: BranchConfig,
    trace: Seq<(SyncState, SyncEvent)>,
    last: SyncState,
    event: SyncEvent,
)
    requires
        is_trace(repo, branch, trace, last),
        crate::sync::fits(last.stage, event),
        crate::sync::step_of(last, repo, branch, event).1 is Done,
        crate::sync::step_of(last, repo, branch, event).1->Done_0.status == BranchStatus::Success,
    ensures
        forall|k: int| 0 <= k < branch.tests@.len() ==> #[trigger] passed(trace, k),
{
    law_tests_come_first(repo, branch, trace, last);
    assert(behind_tests(last.stage));
}

/// The branch is pushed only right after the remote said that it still has the commit that it had
/// when the synchronisation began.
pub proof fn law_push_needs_unmoved_remote(
    s: SyncState,
    repo: RepoConfig,
    branch: BranchConfig,
    event: SyncEvent,
)
    requires
        crate::sync::fits(s.stage, event),
        crate::sync::step_of(s, repo, branch, event).0.stage is Push,
    ensures
        s.stage is RemoteAgain,
        event is Output,
        event->Output_0.ok(),
        crate::git::first_word(event->Output_0.stdout@) == s.remote_before,
        crate::sync::step_of(s, repo, branch, event).1 == SyncDoing::Git(
            crate::sync::push_args(s, repo, branch),
        ),
{
}

proof fn lemma_none_barred(files: Seq<Seq<char>>, allowed: Seq<Seq<char>>, i: int)
    requires
        crate::sync::first_barred(files, allowed, i) is None,
    ensures
        forall|k: int| i <= k < files.len() ==> crate::sync::allowed_path(#[trigger] files[k], allowed),
    decreases files.len() - i,
{
    if i < files.len() {
        lemma_none_barred(files, allowed, i + 1);
    }
}

/// The model is asked for a resolution only where that is switched on and every file in conflict is
/// allowed.
pub proof fn law_model_needs_leave(
    s: SyncState,
    repo: RepoConfig,
    branch: BranchConfig,
    event: SyncEvent,
)
    requires
        crate::sync::fits(s.stage, event),
        crate::sync::step_of(s, repo, branch, event).1 is AskModel,
    ensures
        branch.auto_resolve.enabled,
        ({
            let t = crate::sync::step_of(s, repo, branch, event).0;
            let allowed = crate::strings::views(branch.auto_resolve.allowed_paths@);
            &&& t.snapshot.files.len() <= branch.auto_resolve.max_conflict_files
            &&& forall|k: int|
                0 <= k < t.snapshot.files.len() ==> crate::sync::allowed_path(
                    #[trigger] t.snapshot.files[k],
                    allowed,
                )
        }),
{
    let t = crate::sync::step_of(s, repo, branch, event).0;
    lemma_none_barred(
        t.snapshot.files,
        crate::strings::views(branch.auto_resolve.allowed_paths@),
        0,
    );
}

proof fn lemma_no_file_fault(
    files: Seq<crate::conflict::ResolvedFile>,
    conflict_files: Seq<Seq<char>>,
    i: int,
)
    requires
        crate::sync::files_fault(files, conflict_files, i) is None,
    ensures
        forall|k: int|
            i <= k < files.len() ==> crate::sync::file_fault(#[trigger] files[k], conflict_files) is None,
    decreases files.len() - i,
{
    if i < files.len() {
        lemma_no_file_fault(files, conflict_files, i + 1);
    }
}

/// What the model decided is written only where it calls the risk low, and every file is one in
/// conflict and holds no marker.
pub proof fn law_only_low_risk_is_written(s: SyncState, repo: RepoConfig, branch: BranchConfig, event: SyncEvent)
    requires
        s.stage is Model,
        crate::sync::fits(s.stage, event),
        crate::sync::step_of(s, repo, branch, event).1 is WriteFile,
    ensures
        event->Decision_0 is Ok,
        event->Decision_0->Ok_0 is Some,
        ({
            let decision = event->Decision_0->Ok_0->0;
            &&& crate::strings::same_ignoring_case(decision.risk@, "low"@)
            &&& forall|k: int|
                0 <= k < decision.files@.len() ==> crate::sync::file_fault(
                    #[trigger] decision.files@[k],
                    s.snapshot.files,
                ) is None
        }),
{
    let decision = event->Decision_0->Ok_0->0;
    lemma_no_file_fault(decision.files@, s.snapshot.files, 0);
}

/// A path that only begins like an allowed path is not allowed by it.
pub proof fn law_neighbour_is_not_allowed(path: Seq<char>, allowed: Seq<char>, c: char, rest: Seq<char>)
    requires
        c != '/',
        crate::sync::with_slashes(path) == crate::strings::trim_back_char(
            crate::sync::with_slashes(allowed),
            '/',
        ) + seq![c] + rest,
    ensures
        !crate::sync::is_under(path, allowed),
{
    reveal_strlit("/");
    let stem = crate::strings::trim_back_char(crate::sync::with_slashes(allowed), '/');
    let full = crate::sync::with_slashes(path);
    assert(full[stem.len() as int] == c);
    if crate::strings::starts(full, stem + "/"@) {
        assert((stem + "/"@)[stem.len() as int] == '/');
        assert(full.subrange(0, (stem + "/"@).len() as int)[stem.len() as int]
            == full[stem.len() as int]);
    }
    if full == stem {
        assert(full.len() == stem.len());
    }
}

/// The guard is asked before every test and before the push.
pub proof fn law_sync_asks_the_guard(
    s: SyncState,
    repo: RepoConfig,
    branch: BranchConfig,
    event: SyncEvent,
)
    requires
        crate::sync::fits(s.stage, event),
    ensures
        ({
            let (t, doing) = crate::sync::step_of(s, repo, branch, event);
            &&& t.stage is Test ==> crate::sync::sync_deed(t.stage, doing) == Some(Deed::Test)
            &&& t.stage is Push ==> crate::sync::sync_deed(t.stage, doing) == Some(Deed::Push)
        }),
{
}

/// A branch that fails or stops in a conflict makes the whole report one that is announced.
pub proof fn law_trouble_is_announced(
    s: SyncState,
    repo: RepoConfig,
    branch: BranchConfig,
    event: SyncEvent,
    others: Seq<Reported>,
)
    requires
        crate::sync::fits(s.stage, event),
        crate::sync::step_of(s, repo, branch, event).1 is Done,
        crate::sync::step_of(s, repo, branch, event).1->Done_0.status != BranchStatus::Success,
    ensures
        crate::report::any_activity(
            others.push(crate::sync::step_of(s, repo, branch, event).1->Done_0),
        ),
{
    let all = others.push(crate::sync::step_of(s, repo, branch, event).1->Done_0);
    assert(all[others.len() as int].activity);
}

/// A branch on which nothing changed adds nothing that is worth an announcement.
pub proof fn law_quiet_branch_is_not_announced(
    s: SyncState,
    repo: RepoConfig,
    branch: BranchConfig,
    event: SyncEvent,
    others: Seq<Reported>,
)
    requires
        crate::sync::fits(s.stage, event),
        crate::sync::step_of(s, repo, branch, event).1 is Done,
        crate::sync::step_of(s, repo, branch, event).1->Done_0.status == BranchStatus::Success,
        ({
            let t = crate::sync::step_of(s, repo, branch, event).0;
            &&& t.upstream.len() == 0
            &&& t.commits.len() == 0
            &&& t.files.len() == 0
            &&& t.before_head == t.after_head
        }),
        !crate::report::any_activity(others),
    ensures
        !crate::report::any_activity(
            others.push(crate::sync::step_of(s, repo, branch, event).1->Done_0),
        ),
{
    let all = others.push(crate::sync::step_of(s, repo, branch, event).1->Done_0);
    assert forall|i: int| 0 <= i < all.len() implies !(#[trigger] all[i]).activity by {
        if i < others.len() {
            assert(!others[i].activity);
        }
    }
}

} // verus!
