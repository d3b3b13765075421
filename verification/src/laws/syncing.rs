//! Which branches are synchronised, what becomes of their conflicts, and what is reported.
use vstd::prelude::*;

use crate::command::CommandOutput;
use crate::config::{BranchConfig, RepoConfig};
use crate::git::ConflictSnapshot;
use crate::report::{BranchStatus, Reported};
use crate::sync::{AutoResolveDecision, BranchFacts, SyncDoing, SyncEvent, SyncOptions, SyncState};

verus! {

/// Every branch is synchronised where none is named, and the branch that is named where one is.
pub proof fn law_which_branches_are_synchronised(
    options: SyncOptions,
    branches: Seq<BranchConfig>,
    n: int,
    i: int,
)
    requires
        0 <= n <= branches.len(),
    ensures
        crate::sync::selection(options, branches, n).contains(i) <==> 0 <= i < n && (
        options.branch matches Some(name) ==> name@ == branches[i].name@),
        options.branch is None ==> crate::sync::selection(options, branches, n).len() == n,
    decreases n,
{
    if n > 0 {
        law_which_branches_are_synchronised(options, branches, n - 1, i);
        let rest = crate::sync::selection(options, branches, n - 1);
        let all = crate::sync::selection(options, branches, n);
        if crate::sync::selected(options, branches[n - 1]) {
            assert(all == rest.push(n - 1));
            assert(all[rest.len() as int] == n - 1);
            if rest.contains(i) {
                let k = rest.index_of(i);
                assert(all[k] == i);
            }
            if all.contains(i) && i != n - 1 {
                let k = all.index_of(i);
                assert(rest[k] == i);
            }
        }
    }
}

/// Everybody is told of a branch that failed or is in conflict, and of no other.
pub proof fn law_who_is_told_of(entry: Reported)
    ensures
        entry.status is Success || entry.status is Skipped ==> crate::sync::failure_notice(entry) is None,
        entry.status is Failed ==> crate::sync::failure_notice(entry) == Some(
            (entry.branch + " "@ + "Failed"@, crate::report::branch_text(entry)),
        ),
        entry.status is Conflict ==> crate::sync::failure_notice(entry) == Some(
            (entry.branch + " "@ + "Conflict"@, crate::report::branch_text(entry)),
        ),
{
}

/// Every branch that is in trouble has a notice of its own.
pub proof fn law_every_trouble_is_told(entries: Seq<Reported>, n: int, i: int)
    requires
        0 <= i < n <= entries.len(),
        entries[i].status is Failed || entries[i].status is Conflict,
    ensures
        crate::sync::failure_notices(entries, n).contains(crate::sync::failure_notice(entries[i])->0),
    decreases n,
{
    let rest = crate::sync::failure_notices(entries, n - 1);
    let all = crate::sync::failure_notices(entries, n);
    let notice = crate::sync::failure_notice(entries[i])->0;
    if i == n - 1 {
        assert(all[rest.len() as int] == notice);
    } else {
        law_every_trouble_is_told(entries, n - 1, i);
        let k = rest.index_of(notice);
        assert(all[k] == notice);
    }
}

/// A dry run and a look at the state change nothing, and say so.
pub proof fn law_looking_is_not_doing(repo: RepoConfig, branch: BranchConfig, facts: BranchFacts)
    ensures
        crate::sync::dry_entry(branch).status is Skipped,
        crate::sync::dry_entry(branch).branch == branch.name@,
        !crate::sync::dry_entry(branch).activity,
        ({
            let entry = crate::sync::status_entry(repo, branch, facts);
            &&& entry.branch == branch.name@
            &&& !entry.activity
            &&& facts.head is None <==> entry.status is Failed
            &&& facts.head matches Some(head) ==> entry.status is Skipped && entry.head == Some(head@)
            &&& facts.head is Some ==> (facts.base matches Some(counts) ==> entry.details[1] == "vs "@ + (
            repo.upstream_remote@ + "/"@ + repo.base_branch@) + ": ahead "@ + crate::strings::decimal(
                counts.ahead as nat,
            ) + ", behind "@ + crate::strings::decimal(counts.behind as nat))
            &&& facts.head is Some ==> (facts.remote matches Some(counts) ==> entry.details[2] == "vs "@ + (
            repo.fork_remote@ + "/"@ + branch.name@) + ": ahead "@ + crate::strings::decimal(
                counts.ahead as nat,
            ) + ", behind "@ + crate::strings::decimal(counts.behind as nat))
        }),
{
}

/// A path is allowed where it is one of the allowed paths, or lies below one of them.
pub proof fn law_which_paths_are_allowed(path: Seq<char>, allowed: Seq<Seq<char>>)
    ensures
        crate::sync::allowed_path(path, allowed) <==> exists|i: int|
            0 <= i < allowed.len() && lies_below(path, #[trigger] allowed[i]),
{
    assert forall|a: Seq<char>| crate::sync::is_under(path, a) == #[trigger] lies_below(path, a) by {}
    if crate::sync::allowed_path(path, allowed) {
        let i = choose|i: int|
            0 <= i < allowed.len() && crate::sync::is_under(path, #[trigger] allowed[i]);
        assert(lies_below(path, allowed[i]));
    }
    if exists|i: int| 0 <= i < allowed.len() && lies_below(path, #[trigger] allowed[i]) {
        let i = choose|i: int| 0 <= i < allowed.len() && lies_below(path, #[trigger] allowed[i]);
        assert(crate::sync::is_under(path, allowed[i]));
    }
}

/// The path is the place, or begins with the place and a stroke, whichever way the strokes lean.
pub open spec fn lies_below(path: Seq<char>, place: Seq<char>) -> bool {
    let path = crate::strings::replaced(path, "\\"@, "/"@);
    let place = crate::strings::trim_back_char(crate::strings::replaced(place, "\\"@, "/"@), '/');
    path == place || crate::strings::starts(path, place + "/"@)
}

proof fn lemma_barred(files: Seq<Seq<char>>, allowed: Seq<Seq<char>>, i: int)
    requires
        0 <= i,
    ensures
        crate::sync::first_barred(files, allowed, i) is None <==> forall|k: int|
            i <= k < files.len() ==> crate::sync::allowed_path(#[trigger] files[k], allowed),
    decreases files.len() - i,
{
    if i < files.len() {
        lemma_barred(files, allowed, i + 1);
    }
}

/// Conflicts are put to the model exactly when that is on for the branch, paths are allowed at all,
/// there are not too many, and all of them are in allowed paths; else the sync is taken back.
pub proof fn law_which_conflicts_are_put_to_the_model(
    s: SyncState,
    repo: RepoConfig,
    branch: BranchConfig,
    snapshot: ConflictSnapshot,
)
    requires
        s.stage is Snapshot,
        snapshot.files@.len() > 0,
    ensures
        ({
            let doing = crate::sync::step_of(s, repo, branch, SyncEvent::Snapshot(snapshot)).1;
            let files = crate::strings::views(snapshot.files@);
            let allowed = crate::strings::views(branch.auto_resolve.allowed_paths@);
            let may = branch.auto_resolve.enabled && allowed.len() > 0 && files.len()
                <= branch.auto_resolve.max_conflict_files && forall|k: int|
                0 <= k < files.len() ==> crate::sync::allowed_path(#[trigger] files[k], allowed);
            &&& doing is AskModel <==> may
            &&& doing is Abort <==> !may
        }),
{
    let files = crate::strings::views(snapshot.files@);
    let allowed = crate::strings::views(branch.auto_resolve.allowed_paths@);
    lemma_barred(files, allowed, 0);
    assert(snapshot@.files == files);
}

proof fn lemma_files_good(
    files: Seq<crate::conflict::ResolvedFile>,
    conflict_files: Seq<Seq<char>>,
    i: int,
)
    requires
        0 <= i,
    ensures
        crate::sync::files_fault(files, conflict_files, i) is None <==> forall|k: int|
            i <= k < files.len() ==> crate::laws::choices::is_good(
                (#[trigger] files[k]).path@,
                files[k].content@,
                conflict_files,
            ),
    decreases files.len() - i,
{
    if i < files.len() {
        lemma_files_good(files, conflict_files, i + 1);
        assert(crate::sync::file_fault(files[i], conflict_files) is None
            <==> crate::laws::choices::is_good(files[i].path@, files[i].content@, conflict_files));
    }
}

/// What the model resolved is written only where the risk is low and every file is good: one of those in
/// conflict, without a marker, and not cut; else the sync is taken back.
pub proof fn law_which_decisions_are_written(
    s: SyncState,
    repo: RepoConfig,
    branch: BranchConfig,
    decision: AutoResolveDecision,
)
    requires
        s.stage is Model,
    ensures
        ({
            let (t, doing) = crate::sync::step_of(
                s,
                repo,
                branch,
                SyncEvent::Decision(Ok(Some(decision))),
            );
            let good = crate::strings::same_ignoring_case(decision.risk@, "low"@)
                && decision.files@.len() > 0 && forall|k: int|
                0 <= k < decision.files@.len() ==> crate::laws::choices::is_good(
                    (#[trigger] decision.files@[k]).path@,
                    decision.files@[k].content@,
                    s.snapshot.files,
                );
            &&& !good ==> doing is Abort
            &&& good && !crate::git::leads_out(decision.files@[0].path@) ==> doing
                == SyncDoing::WriteFile(0) && t.resolved == decision.files@
            &&& good && crate::git::leads_out(decision.files@[0].path@) ==> doing is Fail
        }),
{
    lemma_files_good(decision.files@, s.snapshot.files, 0);
}

/// Each resolved file is added under its own path, one after the other, and then the sync goes on; where
/// it does not, it is taken back.
pub proof fn law_course_of_a_resolution(
    s: SyncState,
    repo: RepoConfig,
    branch: BranchConfig,
    o: CommandOutput,
)
    requires
        crate::sync::in_range(s, branch),
    ensures
        s.stage is Write ==> crate::sync::step_of(s, repo, branch, SyncEvent::Written).1
            == SyncDoing::Git(seq!["add"@, s.resolved[s.at as int].path@]),
        ({
            let (t, doing) = crate::sync::step_of(s, repo, branch, SyncEvent::Output(o));
            &&& s.stage is Add && !o.ok() ==> doing is Fail
            &&& s.stage is Add && o.ok() && s.at + 1 < s.resolved.len() && !crate::git::leads_out(
                s.resolved[(s.at + 1) as int].path@,
            ) ==> doing == SyncDoing::WriteFile(s.at + 1)
            &&& s.stage is Add && o.ok() && s.at + 1 == s.resolved.len() ==> doing == SyncDoing::Git(
                crate::git::continue_args(branch.sync),
            )
            &&& s.stage is Continue && !o.ok() ==> doing is Abort
            &&& s.stage is Continue && o.ok() && branch.tests@.len() > 0 ==> doing == SyncDoing::Test(
                branch.tests@[0]@,
            )
            &&& s.stage is Sync && !o.ok() ==> doing is ReadConflict && t.sync_status == o.status
        }),
{
}

/// What git resolved by itself is gone on with while something is staged and the head moves.
pub proof fn law_course_of_a_retry(s: SyncState, repo: RepoConfig, branch: BranchConfig, o: CommandOutput)
    requires
        crate::sync::in_range(s, branch),
    ensures
        ({
            let (t, doing) = crate::sync::step_of(s, repo, branch, SyncEvent::Output(o));
            &&& s.stage is Staged && o.status == 0 ==> doing is Abort
            &&& s.stage is Staged && o.status == 1 ==> doing == SyncDoing::Git(
                seq!["rev-parse"@, "--short"@, "HEAD"@],
            )
            &&& s.stage is Staged && o.status != 0 && o.status != 1 ==> doing is Fail
            &&& s.stage is FirstHead ==> doing == SyncDoing::Git(crate::git::continue_args(branch.sync))
            &&& s.stage is Retry && !o.ok() ==> doing is ReadConflict
            &&& s.stage is RetryHead && o.ok() && crate::strings::trimmed(o.stdout@) == s.last_head
                ==> doing is Abort
            &&& s.stage is RetryHead && o.ok() && crate::strings::trimmed(o.stdout@) != s.last_head
                ==> doing == SyncDoing::Git(seq!["diff"@, "--cached"@, "--quiet"@]) && t.last_head
                == crate::strings::trimmed(o.stdout@)
            &&& s.stage is RetryStaged && o.status == 0 ==> doing is Abort
            &&& s.stage is RetryStaged && o.status == 1 && s.at < 19 ==> doing == SyncDoing::Git(
                crate::git::continue_args(branch.sync),
            ) && t.at == s.at + 1
            &&& s.stage is RetryStaged && o.status == 1 && s.at == 19 ==> doing is ReadConflict
        }),
{
}

/// The report of a success says where the branch was and is, what it was brought in step with, what was
/// pushed, and whether anything happened.
pub proof fn law_report_of_a_success(s: SyncState, repo: RepoConfig, branch: BranchConfig)
    ensures
        ({
            let entry = crate::sync::success_entry(s, repo, branch);
            &&& entry.branch == branch.name@
            &&& entry.status == BranchStatus::Success
            &&& entry.head == Some(s.after_head)
            &&& entry.activity <==> s.upstream.len() > 0 || s.commits.len() > 0 || s.files.len() > 0
                || s.before_head != s.after_head
            &&& entry.details[1] == "before sync: "@ + s.before_head
            &&& entry.details[2] == "after sync: "@ + s.after_head
            &&& entry.details[3] == "target base: "@ + (repo.upstream_remote@ + "/"@
                + repo.base_branch@) + " @ "@ + s.base_head
            &&& branch.push is Never ==> entry.details.last() == "push skipped by config"@
            &&& !(branch.push is Never) ==> entry.details.last() == "pushed to "@ + (repo.fork_remote@
                + "/"@ + branch.name@)
        }),
{
}

/// The report of a failed test says which test it was and how it ended; that of a moved branch says what
/// was expected and what was found.
pub proof fn law_report_of_a_failure(
    s: SyncState,
    repo: RepoConfig,
    branch: BranchConfig,
    o: CommandOutput,
    current: Option<Seq<char>>,
)
    ensures
        ({
            let entry = crate::sync::test_failure(s, branch, o);
            &&& entry.status == BranchStatus::Failed
            &&& entry.branch == branch.name@
            &&& entry.activity
            &&& entry.details[0] == "test failed: "@ + branch.tests@[s.at as int]@
            &&& entry.details[1] == "exit code: "@ + crate::strings::decimal_int(o.status as int)
        }),
        ({
            let entry = crate::sync::moved_remote(s, repo, branch, current);
            &&& entry.status == BranchStatus::Failed
            &&& entry.branch == branch.name@
            &&& entry.activity
            &&& entry.details[3] == "expected remote head: "@ + crate::sync::shown_head(s.remote_before)
            &&& entry.details[4] == "current remote head: "@ + crate::sync::shown_head(current)
        }),
        ({
            let entry = crate::sync::push_failure(branch, o);
            &&& entry.status == BranchStatus::Failed
            &&& entry.branch == branch.name@
            &&& entry.activity
        }),
{
}

/// A commit is shown by its first eight characters.
pub proof fn law_how_commits_are_shown(head: Seq<char>)
    ensures
        head.len() <= 8 ==> crate::sync::shown_head(Some(head)) == head,
        head.len() > 8 ==> crate::sync::shown_head(Some(head)) == head.take(8),
        crate::sync::shown_head(None) == "not found"@,
{
}

} // verus!
