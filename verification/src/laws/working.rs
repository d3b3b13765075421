//! The course of a job of the service, written out.
use vstd::prelude::*;

use crate::command::CommandOutput;
use crate::config::{BranchConfig, PushStrategy, RepoConfig};
use crate::git::{ConflictFileContent, ConflictSnapshot};
use crate::llm::ConflictOptionsDecision;
use crate::service::jobs::{JobDoing, JobEvent, JobState};

verus! {

/// A job sees to the remotes, fetches both, and works in a tree of its own, made from the branch in the
/// fork where it is there.
pub proof fn law_job_prepares_a_tree(
    s: JobState,
    repo: RepoConfig,
    branch: BranchConfig,
    o: CommandOutput,
)
    ensures
        ({
            let (t, doing) = crate::service::jobs::job_step(s, repo, branch, JobEvent::Output(o));
            let right = |url: Seq<char>| o.ok() && crate::strings::trimmed(o.stdout@) == url;
            &&& s.stage is Repo && o.ok() ==> doing == JobDoing::Main(
                seq!["remote"@, "get-url"@, repo.upstream_remote@],
            )
            &&& s.stage is UpstreamUrl && right(repo.upstream@) ==> doing == JobDoing::Main(
                seq!["remote"@, "get-url"@, repo.fork_remote@],
            )
            &&& s.stage is UpstreamUrl && !o.ok() ==> doing == JobDoing::Main(
                seq!["remote"@, "add"@, repo.upstream_remote@, repo.upstream@],
            )
            &&& s.stage is UpstreamUrl && o.ok() && !right(repo.upstream@) ==> doing == JobDoing::Main(
                seq!["remote"@, "set-url"@, repo.upstream_remote@, repo.upstream@],
            )
            &&& s.stage is UpstreamSet && o.ok() ==> doing == JobDoing::Main(
                seq!["remote"@, "get-url"@, repo.fork_remote@],
            )
            &&& s.stage is ForkUrl && right(repo.fork@) ==> doing == JobDoing::Main(
                seq!["fetch"@, "--prune"@, repo.upstream_remote@],
            )
            &&& s.stage is ForkUrl && !o.ok() ==> doing == JobDoing::Main(
                seq!["remote"@, "add"@, repo.fork_remote@, repo.fork@],
            )
            &&& s.stage is ForkUrl && o.ok() && !right(repo.fork@) ==> doing == JobDoing::Main(
                seq!["remote"@, "set-url"@, repo.fork_remote@, repo.fork@],
            )
            &&& s.stage is ForkSet && o.ok() ==> doing == JobDoing::Main(
                seq!["fetch"@, "--prune"@, repo.upstream_remote@],
            )
            &&& s.stage is FetchUpstream && o.ok() ==> doing == JobDoing::Main(
                seq!["fetch"@, "--prune"@, repo.fork_remote@],
            )
            &&& s.stage is FetchFork && o.ok() ==> doing is CheckWorktree
            &&& s.stage is RemoteRef && o.ok() ==> doing == JobDoing::Main(
                seq![
                    "worktree"@,
                    "add"@,
                    "--detach"@,
                    s.worktree,
                    repo.fork_remote@ + "/"@ + branch.name@,
                ],
            )
            &&& s.stage is RemoteRef && !o.ok() ==> doing == JobDoing::Main(
                seq!["worktree"@, "add"@, "--detach"@, s.worktree, branch.name@],
            )
            &&& s.stage is Worktree && o.ok() ==> doing == JobDoing::Tree(seq!["rev-parse"@, "HEAD"@])
            &&& !o.ok() && (s.stage is Repo || s.stage is UpstreamSet || s.stage is ForkSet
                || s.stage is FetchUpstream || s.stage is FetchFork || s.stage is Worktree
                || s.stage is RemoteHead) ==> doing is Fail
        }),
{
    reveal(crate::service::jobs::job_output);
}

/// What a job notes before the sync is where the tree, the base and the branch in the fork stand.
pub proof fn law_job_notes_where_things_stand(
    s: JobState,
    repo: RepoConfig,
    branch: BranchConfig,
    o: CommandOutput,
)
    requires
        o.ok(),
    ensures
        ({
            let (t, doing) = crate::service::jobs::job_step(s, repo, branch, JobEvent::Output(o));
            &&& s.stage is Head ==> t.before_head == crate::strings::trimmed(o.stdout@) && doing
                == JobDoing::Tree(
                seq!["rev-parse"@, repo.upstream_remote@ + "/"@ + repo.base_branch@],
            )
            &&& s.stage is BaseHead ==> t.base_head == crate::strings::trimmed(o.stdout@) && doing
                == JobDoing::Main(
                seq!["ls-remote"@, "--heads"@, repo.fork_remote@, "refs/heads/"@ + branch.name@],
            )
            &&& s.stage is RemoteHead && crate::strings::words(o.stdout@).len() > 0 ==> t.remote_head
                == crate::strings::words(o.stdout@)[0] && doing is RecordHeads
            &&& s.stage is RemoteHead && crate::strings::words(o.stdout@).len() == 0
                ==> t.remote_head.len() == 0 && doing is RecordHeads
        }),
{
    reveal(crate::service::jobs::job_output);
}

/// A tree that is there already is never used.
pub proof fn law_job_uses_a_new_tree(s: JobState, repo: RepoConfig, branch: BranchConfig, there: bool)
    requires
        s.stage is Exists,
    ensures
        crate::service::jobs::job_step(s, repo, branch, JobEvent::Exists(there)).1 is Fail <==> there,
{
}

/// A conflict is put to the model where that is allowed; else it is kept, options are asked for, and the
/// job waits for somebody.
pub proof fn law_conflict_of_a_job(
    s: JobState,
    repo: RepoConfig,
    branch: BranchConfig,
    snapshot: ConflictSnapshot,
    files: Vec<ConflictFileContent>,
    options: Option<ConflictOptionsDecision>,
)
    ensures
        s.stage is Capture && snapshot.files@.len() > 0 ==> ({
            let (t, doing) = crate::service::jobs::job_step(
                s,
                repo,
                branch,
                JobEvent::Captured(snapshot, files),
            );
            let may = crate::service::work::may_resolve(branch, crate::strings::views(snapshot.files@));
            &&& t.snapshot == snapshot@ && t.files == files@
            &&& doing is AskModel <==> may
            &&& doing is SaveConflict <==> !may
        }),
        s.stage is Recapture && snapshot.files@.len() > 0 ==> crate::service::jobs::job_step(
            s,
            repo,
            branch,
            JobEvent::Captured(snapshot, files),
        ).1 is SaveConflict,
        s.stage is Save ==> crate::service::jobs::job_step(s, repo, branch, JobEvent::Recorded).1
            is AskOptions,
        s.stage is Options ==> (crate::service::jobs::job_step(
            s,
            repo,
            branch,
            JobEvent::Options(Ok(options)),
        ).1 matches JobDoing::End(ending, given) && ending.state == "waiting_guidance"@ && given
            == options && !ending.discard && (options matches Some(o) ==> ending.summary == o.summary@)),
{
    assert(snapshot@.files == crate::strings::views(snapshot.files@));
    assert(crate::strings::views(snapshot.files@).len() == snapshot.files@.len());
}

/// What passed its tests is pushed with the commit in the fork that was noted at the start; a branch
/// that is never pushed is not.
pub proof fn law_job_pushes_what_passed(s: JobState, repo: RepoConfig, branch: BranchConfig)
    requires
        s.stage is RecordTests,
    ensures
        ({
            let (t, doing) = crate::service::jobs::job_step(s, repo, branch, JobEvent::Recorded);
            &&& doing == JobDoing::Tree(seq!["rev-parse"@, "HEAD"@])
            &&& branch.push == PushStrategy::Never <==> t.stage is AfterHead
            &&& branch.push != PushStrategy::Never <==> t.stage is Pushing
            &&& t.pushing.expected == s.remote_head
            &&& !t.pushing.require_lease
        }),
{
}

/// A job that ran through is completed, and is announced where it changed anything or always is.
pub proof fn law_end_of_a_job(s: JobState, repo: RepoConfig, branch: BranchConfig)
    requires
        s.stage is Remove,
    ensures
        ({
            let changed = s.released || s.after_head != s.before_head || (branch.push
                != PushStrategy::Never && s.after_head != s.remote_head);
            crate::service::jobs::job_step(s, repo, branch, JobEvent::Removed).1 matches JobDoing::End(
                ending,
                _,
            ) && ending.state == "completed"@ && !ending.discard && (ending.notice is Some
                <==> s.notify_on_noop || changed) && (ending.notice matches Some(notice) ==> notice.0
                == "completed"@ && notice.1 == branch.name@ + " 同步完成"@)
        }),
{
}

/// The tests of a job run in order; one that fails ends the job, and the last that passes leads on.
pub proof fn law_tests_of_a_job(s: JobState, repo: RepoConfig, branch: BranchConfig, o: CommandOutput)
    requires
        s.stage is Testing,
        s.test_at < branch.tests@.len(),
    ensures
        ({
            let (t, doing) = crate::service::jobs::job_step(s, repo, branch, JobEvent::Output(o));
            &&& !o.ok() ==> doing is Fail
            &&& o.ok() && s.test_at + 1 < branch.tests@.len() ==> doing == JobDoing::Test(
                branch.tests@[(s.test_at + 1) as int]@,
            ) && t.test_at == s.test_at + 1
            &&& o.ok() && s.test_at + 1 == branch.tests@.len() ==> doing is RecordTests
            &&& t.test_output == s.test_output + ("$ "@ + branch.tests@[s.test_at as int]@ + "\n"@
                + o.stdout@ + "\n"@ + o.stderr@ + "\n"@)
        }),
{
    reveal(crate::service::jobs::job_output);
}

} // verus!
