//! Laws on the application of a proposal.
use crate::config::{BranchConfig, Config};
use crate::service::apply::{ApplyEvent, ApplyStage, ApplyState};
use vstd::prelude::*;

verus! {

/// The state after the first `i` steps of an application.
pub open spec fn apply_at(trace: Seq<(ApplyState, ApplyEvent)>, last: ApplyState, i: int) -> ApplyState {
    if i < trace.len() {
        trace[i].0
    } else {
        last
    }
}

/// Step number `i` leads from one state of the application to the next.
pub open spec fn apply_step_at(
    config: Config,
    branch: BranchConfig,
    trace: Seq<(ApplyState, ApplyEvent)>,
    last: ApplyState,
    i: int,
) -> bool {
    &&& crate::service::apply::apply_fits(trace[i].0, trace[i].1)
    &&& crate::service::apply::apply_step(trace[i].0, config, branch, trace[i].1).0 == apply_at(
        trace,
        last,
        i + 1,
    )
}

/// The application begins with the first file of the proposal.
pub open spec fn apply_begins(s: ApplyState) -> bool {
    s == crate::service::apply::apply_writing(
        crate::service::apply::apply_start(s.job_id, s.proposal),
    ).0
}

/// An application from its beginning to the state `last`.
pub open spec fn is_application(
    config: Config,
    branch: BranchConfig,
    trace: Seq<(ApplyState, ApplyEvent)>,
    last: ApplyState,
) -> bool {
    &&& apply_begins(apply_at(trace, last, 0))
    &&& forall|i: int|
        0 <= i < trace.len() ==> #[trigger] apply_step_at(config, branch, trace, last, i)
}

/// The step is a pass of test number `k`.
pub open spec fn apply_pass(step: (ApplyState, ApplyEvent), k: int) -> bool {
    step.0.stage is Testing && step.0.test_at == k && step.1 is Output && step.1->Output_0.ok()
}

/// Test number `k` passed somewhere in the application.
pub open spec fn apply_passed(trace: Seq<(ApplyState, ApplyEvent)>, k: int) -> bool {
    exists|j: int| 0 <= j < trace.len() && apply_pass(#[trigger] trace[j], k)
}

/// The stages behind the tests.
pub open spec fn apply_behind_tests(stage: ApplyStage) -> bool {
    stage is RecordPassed || stage is Push
}

#[verifier::rlimit(60)]
#[verifier::spinoff_prover]
proof fn lemma_apply_step(s: ApplyState, config: Config, branch: BranchConfig, event: ApplyEvent)
    requires
        crate::service::apply::apply_fits(s, event),
    ensures
        ({
            let (t, doing) = crate::service::apply::apply_step(s, config, branch, event);
            let n = branch.tests@.len();
            let pass = apply_pass((s, event), s.test_at as int);
            &&& apply_behind_tests(t.stage) ==> apply_behind_tests(s.stage) || (n == 0
                && !branch.auto_resolve.require_tests) || (pass && s.test_at + 1 >= n)
            &&& t.stage is Testing ==> t.test_at == 0 || (pass && t.test_at == s.test_at + 1)
            &&& t.stage is Testing ==> t.test_at < n
            &&& doing is RecordPassed ==> t.stage is RecordPassed
            &&& doing is Push <==> t.stage is Push
        }),
{
}

proof fn lemma_apply_shorter(
    config: Config,
    branch: BranchConfig,
    trace: Seq<(ApplyState, ApplyEvent)>,
    last: ApplyState,
)
    requires
        is_application(config, branch, trace, last),
        trace.len() > 0,
    ensures
        is_application(config, branch, trace.drop_last(), trace.last().0),
{
    let n = trace.len() - 1;
    let before = trace.drop_last();
    assert(apply_at(before, trace.last().0, 0) == apply_at(trace, last, 0));
    assert forall|i: int| 0 <= i < n implies #[trigger] apply_step_at(
        config,
        branch,
        before,
        trace.last().0,
        i,
    ) by {
        assert(apply_step_at(config, branch, trace, last, i));
        assert(apply_at(before, trace.last().0, i + 1) == apply_at(trace, last, i + 1));
    }
}

/// Whatever happens, an application reaches the stages behind its tests only when every test of the
/// branch passed, and without a test only where the branch asks for none.
pub proof fn law_application_tests_before_push(
    config: Config,
    branch: BranchConfig,
    trace: Seq<(ApplyState, ApplyEvent)>,
    last: ApplyState,
)
    requires
        is_application(config, branch, trace, last),
    ensures
        apply_behind_tests(last.stage) ==> forall|k: int|
            0 <= k < branch.tests@.len() ==> #[trigger] apply_passed(trace, k),
        apply_behind_tests(last.stage) && branch.tests@.len() == 0
            ==> !branch.auto_resolve.require_tests,
        last.stage is Testing ==> branch.tests@.len() > 0 && forall|k: int|
            0 <= k < last.test_at ==> #[trigger] apply_passed(trace, k),
    decreases trace.len(),
{
    if trace.len() > 0 {
        let n = trace.len() - 1;
        let prev = trace.last().0;
        let before = trace.drop_last();
        lemma_apply_shorter(config, branch, trace, last);
        law_application_tests_before_push(config, branch, before, prev);
        assert(apply_step_at(config, branch, trace, last, n));
        lemma_apply_step(prev, config, branch, trace.last().1);
        assert forall|k: int| #[trigger] apply_passed(before, k) implies apply_passed(trace, k) by {
            let j = choose|j: int| 0 <= j < before.len() && apply_pass(#[trigger] before[j], k);
            assert(apply_pass(trace[j], k));
        }
        if apply_pass(trace.last(), prev.test_at as int) {
            assert(apply_pass(trace[n], prev.test_at as int));
            assert(apply_passed(trace, prev.test_at as int));
        }
        assert forall|k: int|
            apply_behind_tests(last.stage) && 0 <= k
                < branch.tests@.len() implies #[trigger] apply_passed(trace, k) by {
            if apply_behind_tests(prev.stage) || k < prev.test_at {
                assert(apply_passed(before, k));
            }
        }
        assert forall|k: int|
            last.stage is Testing && 0 <= k < last.test_at implies #[trigger] apply_passed(trace, k) by {
            if k < prev.test_at {
                assert(apply_passed(before, k));
            }
        }
    }
}

/// A proposal is written down as passed, and it is pushed, only when every test of the branch passed;
/// where the branch asks for tests and has none, neither ever happens.
pub proof fn law_applied_proposal_is_tested(
    config: Config,
    branch: BranchConfig,
    trace: Seq<(ApplyState, ApplyEvent)>,
    last: ApplyState,
    event: ApplyEvent,
)
    requires
        is_application(config, branch, trace, last),
        crate::service::apply::apply_fits(last, event),
        ({
            let doing = crate::service::apply::apply_step(last, config, branch, event).1;
            doing is RecordPassed || doing is Push
        }),
    ensures
        forall|k: int|
            0 <= k < branch.tests@.len() ==> #[trigger] apply_passed(trace.push((last, event)), k),
        branch.tests@.len() == 0 ==> !branch.auto_resolve.require_tests,
{
    let longer = trace.push((last, event));
    let next = crate::service::apply::apply_step(last, config, branch, event).0;
    lemma_apply_step(last, config, branch, event);
    assert(apply_at(longer, next, 0) == apply_at(trace, last, 0));
    assert forall|i: int| 0 <= i < longer.len() implies #[trigger] apply_step_at(
        config,
        branch,
        longer,
        next,
        i,
    ) by {
        if i < trace.len() {
            assert(apply_step_at(config, branch, trace, last, i));
            assert(apply_at(longer, next, i + 1) == apply_at(trace, last, i + 1));
        }
    }
    law_application_tests_before_push(config, branch, longer, next);
}

} // verus!
