//! How a job goes on with what was resolved, and what its commands are.
use vstd::prelude::*;

use crate::command::CommandOutput;
use crate::config::{BranchConfig, Config, SyncStrategy};
use crate::git::{ConflictFileContent, ConflictSnapshot};
use crate::llm::AutoResolveDecision;
use crate::service::apply::{ApplyEvent, ApplyState, Applying};
use crate::service::confirm::{ConfirmEvent, ConfirmState, Confirming};
use crate::service::work::{
    ContinueEvent, ContinueState, Continuing, ResolveEvent, ResolveState, Resolving, Testing,
};

verus! {

/// A rebase is gone on with as a rebase, a merge is committed.
pub proof fn law_how_a_sync_goes_on()
    ensures
        crate::git::continue_args(SyncStrategy::Rebase) == seq![
            "-c"@,
            "core.editor=true"@,
            "rebase"@,
            "--continue"@,
        ],
        crate::git::continue_args(SyncStrategy::Merge) == seq!["commit"@, "--no-edit"@],
{
}

/// A path leads out where it is absolute or goes up.
pub proof fn law_which_paths_lead_out(path: Seq<char>)
    ensures
        crate::git::leads_out(path) <==> (path.len() > 0 && path[0] == '/') || crate::strings::split(
            path,
            '/',
        ).contains(".."@),
{
    crate::laws::limits::law_components_of_a_path(path, ".."@);
    reveal_strlit("..");
    reveal_strlit(".");
    assert(".."@.len() == 2 && "."@.len() == 1);
}

/// A text that is short enough is whole; one that is not is cut and marked.
pub proof fn law_how_texts_are_shortened(s: Seq<char>, limit: nat, remark: Seq<char>)
    ensures
        crate::strings::byte_count(s) <= limit ==> crate::git::shortened(s, limit, remark) == s,
        crate::strings::byte_count(s) > limit ==> crate::git::shortened(s, limit, remark)
            == crate::text::truncated(s, limit) + remark,
{
}

/// The lines that count are those that are not blank, without the white space around them.
pub proof fn law_lines_that_count(lines: Seq<Seq<char>>, x: Seq<char>)
    ensures
        crate::git::filled(lines).contains(x) <==> x.len() > 0 && exists|i: int|
            0 <= i < lines.len() && crate::strings::trimmed(#[trigger] lines[i]) == x,
        crate::git::filled(lines).len() <= lines.len(),
    decreases lines.len(),
{
    if lines.len() > 0 {
        let fewer = lines.drop_last();
        law_lines_that_count(fewer, x);
        let rest = crate::git::filled(fewer);
        let all = crate::git::filled(lines);
        let line = crate::strings::trimmed(lines.last());
        if exists|i: int| 0 <= i < fewer.len() && crate::strings::trimmed(#[trigger] fewer[i]) == x {
            let i = choose|i: int|
                0 <= i < fewer.len() && crate::strings::trimmed(#[trigger] fewer[i]) == x;
            assert(lines[i] == fewer[i]);
        }
        if exists|i: int| 0 <= i < lines.len() && crate::strings::trimmed(#[trigger] lines[i]) == x {
            let i = choose|i: int|
                0 <= i < lines.len() && crate::strings::trimmed(#[trigger] lines[i]) == x;
            if i < lines.len() - 1 {
                assert(lines[i] == fewer[i]);
            }
        }
        assert(lines[lines.len() - 1] == lines.last());
        if line.len() > 0 {
            assert(all == rest.push(line));
            assert(all[rest.len() as int] == line);
            if rest.contains(x) {
                let k = rest.index_of(x);
                assert(all[k] == x);
            }
            if all.contains(x) && x != line {
                let k = all.index_of(x);
                assert(rest[k] == x);
            }
        }
    }
}

/// The first of the two numbers is how far ahead the left side is, the second how far the right.
pub proof fn law_counts_are_read(s: Seq<char>, ahead: Seq<char>, behind: Seq<char>, a: nat, b: nat)
    requires
        crate::strings::words(s) == seq![ahead, behind],
        crate::strings::parsed(ahead) == Some(a),
        crate::strings::parsed(behind) == Some(b),
        a <= u32::MAX,
        b <= u32::MAX,
    ensures
        crate::git::count_fault(s) is None,
        crate::git::count_at(s, 0) == Some(a),
        crate::git::count_at(s, 1) == Some(b),
{
}

/// A sync is gone on with while something is staged and the head moves, twenty times at the most; a new
/// conflict ends it, and so does a round that brings nothing.
pub proof fn law_course_of_going_on(s: ContinueState, strategy: SyncStrategy, event: ContinueEvent)
    requires
        crate::service::work::continue_fits(s.stage, event),
    ensures
        ({
            let next = crate::service::work::continue_step(s, strategy, event);
            &&& s.stage is Head ==> next.1 == Continuing::Git(seq!["diff"@, "--cached"@, "--quiet"@])
                && next.0.round == 0
            &&& s.stage is Staged && event->Output_0.status == 0 ==> next.1 is Failed
            &&& s.stage is Staged && event->Output_0.status == 1 ==> next.1 == Continuing::Git(
                crate::git::continue_args(strategy),
            )
            &&& s.stage is Staged && event->Output_0.status != 0 && event->Output_0.status != 1
                ==> next.1 is Error
            &&& next.1 is Completed <==> s.stage is Continue && event->Output_0.ok()
            &&& s.stage is Continue && !event->Output_0.ok() ==> next.1 is Capture
            &&& event matches ContinueEvent::Captured(snapshot, files) ==> {
                &&& next.0.snapshot == snapshot@
                &&& next.0.files == files@
                &&& next.1 is Conflict <==> snapshot.files@.len() > 0
            }
            &&& s.stage is HeadAgain && event->Output_0.ok() && crate::strings::trimmed(
                event->Output_0.stdout@,
            ) == s.last_head ==> next.1 is Failed
            &&& s.stage is HeadAgain && event->Output_0.ok() && crate::strings::trimmed(
                event->Output_0.stdout@,
            ) != s.last_head && s.round < 19 ==> next.0.stage is Staged && next.0.round == s.round + 1
                && next.0.last_head == crate::strings::trimmed(event->Output_0.stdout@)
            &&& s.stage is HeadAgain && s.round >= 19 ==> next.1 is Failed
        }),
{
    if event is Captured {
        let snapshot = event->Captured_0;
        assert(crate::strings::views(snapshot.files@).len() == snapshot.files@.len());
    }
}

/// Conflicts are left to the model only where that is on, paths are allowed at all, the conflicts are
/// few, and every one of them is in an allowed path.
pub proof fn law_what_is_left_to_the_model(
    branch: BranchConfig,
    conflict_files: Seq<Seq<char>>,
    i: int,
)
    requires
        crate::service::work::may_resolve(branch, conflict_files),
    ensures
        branch.auto_resolve.enabled,
        branch.auto_resolve.allowed_paths@.len() > 0,
        conflict_files.len() <= branch.auto_resolve.max_conflict_files,
        0 <= i < conflict_files.len() ==> crate::sync::allowed_path(
            conflict_files[i],
            crate::strings::views(branch.auto_resolve.allowed_paths@),
        ),
{
    assert(crate::strings::views(branch.auto_resolve.allowed_paths@).len()
        == branch.auto_resolve.allowed_paths@.len());
}

/// Of what the model decided only low risk is taken: every file under its own path, as it was resolved,
/// and without a marker left.
pub proof fn law_what_is_taken_from_the_model(
    decision: AutoResolveDecision,
    files: Seq<ConflictFileContent>,
    conflict_files: Seq<Seq<char>>,
    k: int,
)
    requires
        crate::service::work::accepted_files(decision, files, conflict_files) is Some,
    ensures
        ({
            let taken = crate::service::work::accepted_files(decision, files, conflict_files)->0;
            &&& crate::strings::same_ignoring_case(decision.risk@, "low"@)
            &&& taken.len() == files.len()
            &&& 0 <= k < files.len() ==> {
                &&& taken[k].0 == files[k].path@
                &&& crate::conflict::resolved(files, decision.resolutions@) matches Ok(texts)
                    && taken[k].1 == texts[k]
                &&& crate::laws::choices::is_good(taken[k].0, taken[k].1, conflict_files)
            }
        }),
{
    let taken = crate::service::work::accepted_files(decision, files, conflict_files)->0;
    crate::laws::choices::law_which_files_are_taken(taken, conflict_files);
    if 0 <= k < files.len() {
        assert(crate::laws::choices::is_good(taken[k].0, taken[k].1, conflict_files));
    }
}

/// Every file that was taken is written and added, in order, before the sync goes on.
pub proof fn law_course_of_resolving(
    s: ResolveState,
    strategy: SyncStrategy,
    files: Seq<ConflictFileContent>,
    conflict_files: Seq<Seq<char>>,
    event: ResolveEvent,
)
    requires
        crate::service::work::resolve_fits(s.stage, event),
    ensures
        ({
            let next = crate::service::work::resolve_step(s, strategy, files, conflict_files, event);
            &&& event matches ResolveEvent::Decision(Err(words)) ==> next.1 == Resolving::Error(words@)
            &&& event matches ResolveEvent::Decision(Ok(None)) ==> next.1 is Skipped
            &&& event matches ResolveEvent::Decision(Ok(Some(decision))) ==> {
                let taken = crate::service::work::accepted_files(decision, files, conflict_files);
                &&& taken is None ==> next.1 is Unresolved
                &&& taken is Some ==> next.0.resolved == taken->0
                &&& taken is Some && !crate::git::leads_out(taken->0[0].0) ==> next.1
                    == Resolving::WriteFile(0)
                &&& taken is Some && crate::git::leads_out(taken->0[0].0) ==> next.1 is Error
            }
            &&& event matches ResolveEvent::Written(Ok(_)) ==> next.1 == Resolving::Git(
                seq!["add"@, s.resolved[s.at as int].0],
            )
            &&& event matches ResolveEvent::Written(Err(words)) ==> next.1 == Resolving::Error(words@)
            &&& s.stage is Add && !event->Output_0.ok() ==> next.1 is Error
            &&& s.stage is Add && event->Output_0.ok() && s.at + 1 < s.resolved.len()
                && !crate::git::leads_out(s.resolved[(s.at + 1) as int].0) ==> next.1
                == Resolving::WriteFile(s.at + 1)
            &&& s.stage is Add && event->Output_0.ok() && s.at + 1 >= s.resolved.len() ==> next.1
                == Resolving::Git(crate::git::continue_args(strategy))
            &&& next.1 is Resolved <==> s.stage is Continue && event->Output_0.ok()
        }),
{
}

/// The tests of a branch run one after the other; the first that fails ends them, and they have passed
/// when the last has. A branch that needs tests and has none has failed.
pub proof fn law_course_of_tests(branch: BranchConfig, at: nat, o: CommandOutput)
    ensures
        branch.tests@.len() > 0 ==> crate::service::work::tests_begin(branch) == Testing::Test(
            branch.tests@[0]@,
        ),
        branch.tests@.len() == 0 && branch.auto_resolve.require_tests
            ==> crate::service::work::tests_begin(branch) is Failed,
        branch.tests@.len() == 0 && !branch.auto_resolve.require_tests
            ==> crate::service::work::tests_begin(branch) is Passed,
        at < branch.tests@.len() ==> {
            let next = crate::service::work::tests_step(branch, at, o);
            &&& next is Failed <==> !o.ok()
            &&& next is Passed <==> o.ok() && at + 1 == branch.tests@.len()
            &&& next matches Testing::Test(command) ==> command == branch.tests@[(at + 1) as int]@
        },
{
}

/// A proposal is written file by file, each added under its own path; then the sync goes on, or the
/// commit is amended where none is under way; then come the tests, and then the push.
pub proof fn law_course_of_applying(s: ApplyState, config: Config, branch: BranchConfig, event: ApplyEvent)
    requires
        crate::service::apply::apply_fits(s, event),
    ensures
        ({
            let next = crate::service::apply::apply_step(s, config, branch, event);
            &&& s.stage is Write && event->Written_0 is Err ==> next.1 is Fail
            &&& s.stage is Write && event->Written_0 is Ok ==> next.1 == Applying::Tree(
                seq!["add"@, s.proposal[s.at as int].0],
            )
            &&& s.stage is Add && !event->Output_0.ok() ==> next.1 is Fail
            &&& s.stage is Add && event->Output_0.ok() && s.at + 1 < s.proposal.len()
                && !crate::git::leads_out(s.proposal[(s.at + 1) as int].0) ==> next.1
                == Applying::WriteFile(s.at + 1)
            &&& s.stage is Add && event->Output_0.ok() && s.at + 1 < s.proposal.len()
                && crate::git::leads_out(s.proposal[(s.at + 1) as int].0) ==> next.1 is Fail
            &&& s.stage is Add && event->Output_0.ok() && s.at + 1 >= s.proposal.len() ==> next.1
                == Applying::Tree(seq!["rev-parse"@, "-q"@, "--verify"@, "REBASE_HEAD"@])
            &&& s.stage is RebaseHead ==> next.0.rebasing == event->Output_0.ok() && next.1
                == Applying::Tree(seq!["rev-parse"@, "-q"@, "--verify"@, "MERGE_HEAD"@])
            &&& s.stage is MergeHead && (s.rebasing || event->Output_0.ok()) ==> next.1
                == Applying::Tree(crate::git::continue_args(branch.sync))
            &&& s.stage is MergeHead && !s.rebasing && !event->Output_0.ok() ==> next.1
                == Applying::Tree(seq!["commit"@, "--amend"@, "--no-edit"@])
            &&& s.stage is Amend && !event->Output_0.ok() ==> next.1 is Fail
            &&& (s.stage is Amend || s.stage is Continue) && event->Output_0.ok() && branch.tests@.len()
                > 0 ==> next.1 == Applying::Test(branch.tests@[0]@)
            &&& next.1 is Push ==> s.stage is RecordPassed
            &&& s.stage is Testing && !event->Output_0.ok() ==> (next.1 matches Applying::End(ending)
                && ending.state == "test_failed"@)
            &&& s.stage is Push && event->Pushed_0 is Ok ==> next.1 is Finished
            &&& s.stage is Push && event->Pushed_0 is Err ==> next.1 is Tell
            &&& next.1 is Finished ==> s.stage is Push
        }),
{
    if s.stage is Testing {
        let o = event->Output_0;
        assert(crate::service::work::tests_step(branch, s.test_at, o) is Failed <==> !o.ok());
    }
}

/// A confirmed push is of the job that waits for it, to the branch of that job in the fork, and is sent
/// back where the branch has moved.
pub proof fn law_course_of_a_confirmation(s: ConfirmState, config: Config, event: ConfirmEvent)
    requires
        crate::service::confirm::confirm_fits(s.stage, event),
    ensures
        ({
            let next = crate::service::confirm::confirm_step(s, config, event);
            &&& event matches ConfirmEvent::Job { state, branch } ==> {
                &&& state@ == "waiting_push"@ <==> next.1 is Note
                &&& state@ != "waiting_push"@ ==> next.1 is Fail
                &&& next.1 is Note ==> next.0.branch == branch@ && (next.1 matches Confirming::Note(
                    to,
                    _,
                ) && to == "pushing"@)
            }
            &&& event is Noted && !(next.1 is Fail) ==> next.1 == Confirming::Git(
                seq!["ls-remote"@, "--heads"@, config.repo.fork_remote@, "refs/heads/"@ + s.branch],
            )
            &&& event matches ConfirmEvent::Output(o) ==> {
                &&& !o.ok() ==> next.1 is Fail
                &&& next.1 is Push ==> o.ok() && (crate::strings::words(o.stdout@).len() > 0
                    ==> crate::strings::words(o.stdout@)[0] == s.expected)
                &&& o.ok() && crate::strings::words(o.stdout@).len() > 0 && crate::strings::words(
                    o.stdout@,
                )[0] != s.expected ==> (next.1 matches Confirming::Back(to, _, _) && to
                    == "waiting_push"@)
                &&& o.ok() && crate::strings::words(o.stdout@).len() > 0 && crate::strings::words(
                    o.stdout@,
                )[0] == s.expected ==> next.1 is Push
            }
            &&& event matches ConfirmEvent::Pushed(Err(words)) ==> next.1 == Confirming::Fail(words@)
            &&& event matches ConfirmEvent::Pushed(Ok(_)) ==> next.1 is RemoveWorktree
            &&& event matches ConfirmEvent::Removed(Ok(_)) ==> (next.1 matches Confirming::End(ending)
                && ending.state == "completed"@)
        }),
{
}

/// What can be reached without the control socket reads, and changes nothing.
pub proof fn law_what_only_reads(endpoint: crate::service::handlers::Endpoint)
    ensures
        crate::service::handlers::only_reads(endpoint) <==> endpoint is Status || endpoint is Stats
            || endpoint is Dashboard || endpoint is Branches || endpoint is Branch
            || endpoint is ConfigSummary || endpoint is Jobs || endpoint is Job || endpoint is Events,
{
}

/// A service runs with at least one branch, each named once, and with two sockets that are not one.
pub proof fn law_what_a_service_needs(config: Config)
    requires
        crate::service::handlers::service_fault(config) is None,
    ensures
        config.branches@.len() > 0,
        config.service.public_socket_path matches Some(path) ==> path@ != config.service.socket_path@,
{
}

/// A message is taken that has a summary of 500 characters at most, a body of 64 KiB at most, and a
/// reference of 2 KiB at most.
pub proof fn law_which_messages_are_taken(
    request: crate::service::handlers::ProtectionInvestigationRequest,
)
    ensures
        crate::service::handlers::sized(request) <==> crate::strings::trimmed(request.summary@).len() > 0
            && request.summary@.len() <= 500 && crate::strings::trimmed(request.content@).len() > 0
            && crate::strings::byte_count(request.content@) <= 65_536 && (request.reference matches Some(
            reference,
        ) ==> crate::strings::byte_count(reference@) <= 2_048),
{
}

/// The name of a variable is of capital letters, digits and strokes, and not too long.
pub proof fn law_names_of_variables(s: Seq<char>, i: int)
    requires
        crate::service::handlers::is_env_name(s),
    ensures
        0 < s.len(),
        crate::strings::byte_count(s) <= 128,
        0 <= i < s.len() ==> ('A' <= s[i] && s[i] <= 'Z') || ('0' <= s[i] && s[i] <= '9') || s[i] == '_',
{
    if 0 <= i < s.len() {
        assert(crate::service::handlers::is_env_char(s[i]));
    }
}

/// The job that a branch shows is an active one of that branch, the first there is.
pub proof fn law_job_of_a_branch(rows: Seq<crate::service::db::JobRow>, branch: Seq<char>, i: int)
    requires
        0 <= i,
    ensures
        match crate::service::dashboard::current_job(rows, branch, i) {
            Some(at) => i <= at < rows.len() && rows[at].branch@ == branch && crate::service::types::active(
                rows[at].state@,
            ),
            None => forall|k: int|
                i <= k < rows.len() ==> (#[trigger] rows[k]).branch@ != branch
                    || !crate::service::types::active(rows[k].state@),
        },
    decreases rows.len() - i,
{
    if i < rows.len() && !(crate::service::types::active(rows[i].state@) && rows[i].branch@ == branch) {
        law_job_of_a_branch(rows, branch, i + 1);
    }
}

/// A branch is compared by what is here, or by what the fork has where nothing is here.
pub proof fn law_what_is_compared(
    config: Config,
    branch: BranchConfig,
    local_head: Option<Seq<char>>,
    remote_head: Option<Seq<char>>,
)
    ensures
        local_head is Some ==> crate::service::dashboard::compared(
            config,
            branch,
            local_head,
            remote_head,
        ) == Some(branch.name@),
        local_head is None && remote_head is Some ==> crate::service::dashboard::compared(
            config,
            branch,
            local_head,
            remote_head,
        ) == Some(config.repo.fork_remote@ + "/"@ + branch.name@),
        local_head is None && remote_head is None ==> crate::service::dashboard::compared(
            config,
            branch,
            local_head,
            remote_head,
        ) is None,
{
}

} // verus!
