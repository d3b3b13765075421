//! The commands that a synchronisation gives, written out.
use crate::command::CommandOutput;
use crate::config::{BranchConfig, PushStrategy, RepoConfig, SyncStrategy};
use crate::report::BranchStatus;
use crate::service::jobs::{JobDoing, JobEvent, JobState};
use crate::service::work::{PushEvent, PushState, Pushing};
use crate::sync::{SyncDoing, SyncEvent, SyncState};
use vstd::prelude::*;

verus! {

/// The commands that bring a branch in step with its base.
pub open spec fn in_step(args: Seq<Seq<char>>, repo: RepoConfig, branch: BranchConfig) -> bool {
    let base = repo.upstream_remote@ + seq!['/'] + repo.base_branch@;
    &&& branch.sync == SyncStrategy::Merge ==> args == seq!["merge"@, "--no-edit"@, base]
    &&& branch.sync == SyncStrategy::Rebase ==> args == seq!["rebase"@, base]
}

/// A branch that is merged is never rebased, and one that is rebased is never merged.
pub open spec fn keeps_to_strategy(args: Seq<Seq<char>>, branch: BranchConfig) -> bool {
    &&& args.len() > 0
    &&& branch.sync == SyncStrategy::Merge ==> args[0] != "rebase"@ && args[0] != "-c"@
    &&& branch.sync == SyncStrategy::Rebase ==> args[0] != "merge"@ && args[0] != "commit"@
}

/// What a branch is brought in step with is the base branch of the upstream, by a merge where the
/// branch is configured to be merged and by a rebase where it is configured to be rebased.
pub proof fn law_branch_is_brought_in_step(
    s: SyncState,
    repo: RepoConfig,
    branch: BranchConfig,
    event: SyncEvent,
)
    requires
        crate::sync::fits(s.stage, event),
        crate::sync::step_of(s, repo, branch, event).0.stage is Sync,
    ensures
        crate::sync::step_of(s, repo, branch, event).1 is Git,
        in_step(crate::sync::step_of(s, repo, branch, event).1->Git_0, repo, branch),
{
    reveal_strlit("/");
    assert("/"@ =~= seq!['/']);
}

/// A branch that is configured to be merged is never rebased, and one that is configured to be rebased
/// is never merged: no command of the synchronisation does it.
#[verifier::rlimit(80)]
#[verifier::spinoff_prover]
pub proof fn law_strategy_is_kept(s: SyncState, repo: RepoConfig, branch: BranchConfig, event: SyncEvent)
    requires
        crate::sync::fits(s.stage, event),
        crate::sync::step_of(s, repo, branch, event).1 is Git,
    ensures
        keeps_to_strategy(crate::sync::step_of(s, repo, branch, event).1->Git_0, branch),
{
    lemma_command_words();
}

proof fn lemma_command_words()
    ensures
        "checkout"@.len() == 8,
        "rev-parse"@.len() == 9,
        "merge-base"@.len() == 10,
        "log"@.len() == 3,
        "ls-remote"@.len() == 9,
        "add"@.len() == 3,
        "diff"@.len() == 4,
        "fetch"@.len() == 5,
        "push"@.len() == 4,
        "-c"@.len() == 2,
        "remote"@.len() == 6,
        "worktree"@.len() == 8,
        "rebase"@.len() == 6,
        "merge"@.len() == 5,
        "commit"@.len() == 6,
        "remote"@[2] == 'm',
        "rebase"@[2] == 'b',
        "rebase"@[0] == 'r',
        "remote"@[0] == 'r',
        "commit"@[0] == 'c',
        "merge"@[0] == 'm',
        "fetch"@[0] == 'f',
{
    reveal_strlit("checkout");
    reveal_strlit("rev-parse");
    reveal_strlit("merge-base");
    reveal_strlit("log");
    reveal_strlit("ls-remote");
    reveal_strlit("add");
    reveal_strlit("diff");
    reveal_strlit("fetch");
    reveal_strlit("push");
    reveal_strlit("-c");
    reveal_strlit("remote");
    reveal_strlit("worktree");
    reveal_strlit("rebase");
    reveal_strlit("merge");
    reveal_strlit("commit");
}

/// The push of a branch goes to the branch of the same name on the fork. A branch that is pushed by
/// force is pushed over nothing but the commit that the remote had when the synchronisation began.
pub proof fn law_push_is_as_configured(
    s: SyncState,
    repo: RepoConfig,
    branch: BranchConfig,
    event: SyncEvent,
)
    requires
        crate::sync::fits(s.stage, event),
        crate::sync::step_of(s, repo, branch, event).0.stage is Push,
    ensures
        crate::sync::step_of(s, repo, branch, event).1 == SyncDoing::Git(
            if branch.push == PushStrategy::ForceWithLease && s.remote_before is Some {
                seq![
                    "push"@,
                    "--force-with-lease=refs/heads/"@ + branch.name@ + ":"@ + s.remote_before->0,
                    repo.fork_remote@,
                    "HEAD:refs/heads/"@ + branch.name@,
                ]
            } else {
                seq!["push"@, repo.fork_remote@, branch.name@]
            },
        ),
{
}

/// The tests of a branch are run one after the other, each as it is configured, the first one first:
/// the next one only when the one before passed.
pub proof fn law_tests_are_run_in_order(
    s: SyncState,
    repo: RepoConfig,
    branch: BranchConfig,
    event: SyncEvent,
)
    requires
        crate::sync::fits(s.stage, event),
    ensures
        ({
            let (t, doing) = crate::sync::step_of(s, repo, branch, event);
            &&& doing is Test <==> t.stage is Test
            &&& t.stage is Test ==> t.at < branch.tests@.len() && doing == SyncDoing::Test(
                branch.tests@[t.at as int]@,
            )
            &&& t.stage is Test && s.stage !is Test ==> t.at == 0
            &&& t.stage is Test && s.stage is Test ==> t.at == s.at + 1 && event->Output_0.ok()
            &&& s.stage is Test && event->Output_0.ok() && s.at + 1 < branch.tests@.len()
                ==> t.stage is Test
            &&& s.stage is Test && !event->Output_0.ok() ==> doing is Done
                && doing->Done_0.status == BranchStatus::Failed
            &&& s.stage is Sync && event->Output_0.ok() && branch.tests@.len() > 0 ==> t.stage is Test
        }),
{
}

/// A success is reported only where the branch was pushed, or is configured never to be.
pub proof fn law_success_means_pushed(
    s: SyncState,
    repo: RepoConfig,
    branch: BranchConfig,
    event: SyncEvent,
)
    requires
        crate::sync::fits(s.stage, event),
        crate::sync::step_of(s, repo, branch, event).1 is Done,
        crate::sync::step_of(s, repo, branch, event).1->Done_0.status == BranchStatus::Success,
    ensures
        branch.push != PushStrategy::Never ==> s.stage is Push && event is Output
            && event->Output_0.ok(),
        branch.push == PushStrategy::Never ==> s.stage is Changes || s.stage is Push,
        crate::sync::step_of(s, repo, branch, event).1->Done_0.branch == branch.name@,
        crate::sync::step_of(s, repo, branch, event).1->Done_0.head == Some(s.after_head),
{
}

/// Where every command succeeds, a synchronisation goes its way: it reads where the branch, its base
/// and its remote stand, brings the branch in step, tests it, reads what is new, and pushes it where
/// it is to be pushed.
pub proof fn law_course_of_a_sync(s: SyncState, repo: RepoConfig, branch: BranchConfig, o: CommandOutput)
    requires
        o.ok(),
    ensures
        ({
            let (t, doing) = crate::sync::step_of(s, repo, branch, SyncEvent::Output(o));
            let base = repo.upstream_remote@ + "/"@ + repo.base_branch@;
            let ls = seq![
                "ls-remote"@,
                "--heads"@,
                repo.fork_remote@,
                "refs/heads/"@ + branch.name@,
            ];
            &&& s.stage is Checkout ==> t.stage is Head && doing == SyncDoing::Git(
                seq!["rev-parse"@, "--short"@, "HEAD"@],
            )
            &&& s.stage is Head ==> t.stage is BaseHead && doing == SyncDoing::Git(
                seq!["rev-parse"@, "--short"@, base],
            )
            &&& s.stage is BaseHead ==> t.stage is MergeBase && doing == SyncDoing::Git(
                seq!["merge-base"@, "HEAD"@, base],
            )
            &&& s.stage is MergeBase ==> t.stage is UpstreamLog
            &&& s.stage is UpstreamLog ==> t.stage is RemoteHead && doing == SyncDoing::Git(ls)
            &&& s.stage is RemoteHead ==> t.stage == (if s.notice {
                crate::sync::SyncStage::Notice
            } else {
                crate::sync::SyncStage::Sync
            })
            &&& s.stage is Sync && branch.tests@.len() == 0 && s.details.len() == 0
                ==> t.stage is AfterHead
            &&& s.stage is Test && s.at + 1 >= branch.tests@.len() ==> t.stage is AfterHead
            &&& s.stage is AfterHead ==> t.stage is Commits
            &&& s.stage is Commits ==> t.stage is Changes
            &&& s.stage is Changes && branch.push != PushStrategy::Never ==> t.stage is Fetch
                && doing == SyncDoing::Git(seq!["fetch"@, repo.fork_remote@, branch.name@])
            &&& s.stage is Changes && branch.push == PushStrategy::Never ==> t.stage is Done
                && doing->Done_0.status == BranchStatus::Success
            &&& s.stage is Fetch ==> t.stage is RemoteAgain && doing == SyncDoing::Git(ls)
            &&& s.stage is RemoteAgain && crate::git::first_word(o.stdout@) == s.remote_before
                ==> t.stage is Push
            &&& s.stage is RemoteAgain && crate::git::first_word(o.stdout@) != s.remote_before
                ==> t.stage is Done && doing->Done_0.status == BranchStatus::Failed
            &&& s.stage is Push ==> t.stage is Done && doing->Done_0.status == BranchStatus::Success
        }),
{
}

/// What is read on the way is what git said: the commits without the white space around them, and of
/// the remote the first word.
pub proof fn law_heads_are_as_git_says(
    s: SyncState,
    repo: RepoConfig,
    branch: BranchConfig,
    o: CommandOutput,
)
    requires
        o.ok(),
    ensures
        ({
            let t = crate::sync::step_of(s, repo, branch, SyncEvent::Output(o)).0;
            let text = crate::strings::trimmed(o.stdout@);
            &&& t.before_head == (if s.stage is Head {
                text
            } else {
                s.before_head
            })
            &&& t.base_head == (if s.stage is BaseHead {
                text
            } else {
                s.base_head
            })
            &&& t.after_head == (if s.stage is AfterHead {
                text
            } else {
                s.after_head
            })
            &&& t.remote_before == (if s.stage is RemoteHead {
                crate::git::first_word(o.stdout@)
            } else {
                s.remote_before
            })
        }),
{
}

/// A conflict that is left ends in a report that calls it one and names its files.
pub proof fn law_conflict_is_reported(s: SyncState, repo: RepoConfig, branch: BranchConfig, event: SyncEvent)
    requires
        s.stage is Analysis,
        event is Analysis,
    ensures
        ({
            let doing = crate::sync::step_of(s, repo, branch, event).1;
            &&& doing is Done
            &&& doing->Done_0.status == BranchStatus::Conflict
            &&& doing->Done_0.branch == branch.name@
            &&& doing->Done_0.details.contains(
                "conflict files: "@ + crate::strings::join(s.snapshot.files, ", "@),
            )
        }),
{
    let doing = crate::sync::step_of(s, repo, branch, event).1;
    let line = "conflict files: "@ + crate::strings::join(s.snapshot.files, ", "@);
    assert(doing->Done_0.details[4] == line);
}

/// A job of the service brings its branch in step with the base branch of the upstream, by a merge
/// where the branch is configured to be merged and by a rebase where it is configured to be rebased.
pub proof fn law_job_brings_branch_in_step(
    s: JobState,
    repo: RepoConfig,
    branch: BranchConfig,
    event: JobEvent,
)
    requires
        crate::service::jobs::job_fits(s, event),
    ensures
        ({
            let (t, doing) = crate::service::jobs::job_step(s, repo, branch, event);
            &&& s.stage is Record ==> t.stage is Sync
            &&& t.stage is Sync ==> doing is Tree && in_step(doing->Tree_0, repo, branch)
        }),
{
    reveal_strlit("/");
    assert("/"@ =~= seq!['/']);
    if let JobEvent::Output(o) = event {
        lemma_job_sync(s, repo, branch, o);
    }
}

#[verifier::rlimit(60)]
#[verifier::spinoff_prover]
proof fn lemma_job_sync(s: JobState, repo: RepoConfig, branch: BranchConfig, o: CommandOutput)
    ensures
        crate::service::jobs::job_output(s, repo, branch, o).0.stage !is Sync,
{
    reveal(crate::service::jobs::job_output);
}

/// The push of a job goes to the branch of the same name on the fork. It is a push over nothing but the
/// commit that is expected where the branch is pushed by force or a lease is asked for, and over no
/// commit at all where the remote has none.
pub proof fn law_job_push_is_as_configured(
    s: PushState,
    repo: RepoConfig,
    branch: BranchConfig,
    event: PushEvent,
)
    requires
        crate::service::work::push_fits(s.stage, event),
        crate::service::work::push_step(s, repo, branch, event).0.stage is Push,
    ensures
        crate::service::work::push_step(s, repo, branch, event).1 == Pushing::Git(
            if s.require_lease || branch.push == PushStrategy::ForceWithLease || s.expected.len() == 0 {
                seq![
                    "push"@,
                    "--force-with-lease=refs/heads/"@ + branch.name@ + ":"@ + s.expected,
                    repo.fork_remote@,
                    "HEAD:refs/heads/"@ + branch.name@,
                ]
            } else {
                seq!["push"@, repo.fork_remote@, "HEAD:refs/heads/"@ + branch.name@]
            },
        ),
{
    let lease = "--force-with-lease=refs/heads/"@ + branch.name@ + ":"@;
    if s.expected.len() == 0 {
        assert(lease + s.expected =~= lease);
    }
}

/// Where every command succeeds, a push fetches the branch, looks where the remote stands, pushes what
/// the remote does not have, writes the new head down and makes sure of the tag.
pub proof fn law_course_of_a_push(s: PushState, repo: RepoConfig, branch: BranchConfig, event: PushEvent)
    requires
        crate::service::work::push_fits(s.stage, event),
        event is Output ==> event->Output_0.ok(),
        event is Released ==> event->Released_0 is Ok,
    ensures
        ({
            let (t, doing) = crate::service::work::push_step(s, repo, branch, event);
            let words = crate::git::first_word(event->Output_0.stdout@);
            let remote = if words is Some {
                words->0
            } else {
                Seq::empty()
            };
            &&& s.stage is Head ==> t.stage is Fetch && t.candidate == crate::strings::trimmed(
                event->Output_0.stdout@,
            ) && doing == Pushing::Git(seq!["fetch"@, repo.fork_remote@, branch.name@])
            &&& s.stage !is Head ==> t.candidate == s.candidate
            &&& s.stage is Fetch ==> t.stage is RemoteHead && doing == Pushing::Git(
                seq![
                    "ls-remote"@,
                    "--heads"@,
                    repo.fork_remote@,
                    "refs/heads/"@ + branch.name@,
                ],
            )
            &&& s.stage is RemoteHead ==> if remote == s.candidate {
                t.stage is Record
            } else if remote == s.expected {
                t.stage is Push
            } else {
                doing is Fail
            }
            &&& s.stage is Push ==> t.stage is Record && doing is Record
            &&& s.stage is Record ==> t.stage is Release && doing is Release
            &&& s.stage is Release ==> doing == Pushing::Done(
                match event->Released_0->Ok_0 {
                    Some(tag) => Some(tag@),
                    None => None,
                },
            )
        }),
{
}


} // verus!
