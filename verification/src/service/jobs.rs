//! The job that brings a branch in step with its base.
use crate::command::CommandOutput;
use crate::config::{BranchConfig, PushStrategy, RepoConfig, SyncStrategy};
use crate::git::{git_checked, read_remote_head, ConflictFileContent, ConflictSnapshot, Conflicts, Git};
use crate::llm::{AutoResolveDecision, ConflictOptionsDecision};
use crate::protection::guard::Deed;
use crate::service::types::{Ended, JobEnding, JobNotice};
use crate::service::work::{
    ContinueAction, ContinueEvent, ContinueRun, ContinueStage, ContinueState, Continuing, PushAction,
    PushEvent, PushRun, PushStage, PushState, Pushing, ResolveAction, ResolveEvent, ResolveRun,
    ResolveStage, ResolveState, Resolving, TestAction, TestRun, Testing,
};
use crate::strings::{list_of, owned, same, trim};
use vstd::prelude::*;

verus! {

/// What the job waits for.
#[derive(Debug, Clone, Copy, PartialEq, Eq, Structural)]
pub enum JobStage {
    Repo,
    UpstreamUrl,
    UpstreamSet,
    ForkUrl,
    ForkSet,
    FetchUpstream,
    FetchFork,
    /// Whether the work tree is there already.
    Exists,
    RemoteRef,
    Worktree,
    Head,
    BaseHead,
    RemoteHead,
    /// The heads are written down.
    Record,
    Sync,
    Capture,
    /// Git goes on with what it has resolved from its memory.
    Continuing,
    /// The model resolves a conflict of low risk.
    Resolving,
    Recapture,
    /// The conflict is written down.
    Save,
    /// The model offers ways out.
    Options,
    Testing,
    /// The output of the tests is written down.
    RecordTests,
    Pushing,
    /// The commit after the sync of a branch that is not pushed.
    AfterHead,
    Remove,
    Done,
    Failed,
}

/// What came of the last action.
#[derive(Debug)]
pub enum JobEvent {
    Output(CommandOutput),
    Exists(bool),
    /// What was to be written down is.
    Recorded,
    Captured(ConflictSnapshot, Vec<ConflictFileContent>),
    Decision(Result<Option<AutoResolveDecision>, String>),
    Written(Result<(), String>),
    Options(Result<Option<ConflictOptionsDecision>, String>),
    Released(Result<Option<String>, String>),
    Removed,
}

/// What the caller is to do next.
#[derive(Debug)]
pub enum JobAction {
    /// A git command in the repository.
    Main(Vec<String>),
    /// A git command in the work tree.
    Tree(Vec<String>),
    CheckWorktree,
    RecordHeads,
    Capture,
    AskModel,
    WriteFile(usize),
    SaveConflict,
    AskOptions,
    Test(String),
    RecordTests,
    RecordPush,
    Release,
    RemoveWorktree,
    End(JobEnding, Option<ConflictOptionsDecision>),
    Fail(String),
}

/// What an action is.
#[verifier::ext_equal]
pub enum JobDoing {
    Main(Seq<Seq<char>>),
    Tree(Seq<Seq<char>>),
    CheckWorktree,
    RecordHeads,
    Capture,
    AskModel,
    WriteFile(nat),
    SaveConflict,
    AskOptions,
    Test(Seq<char>),
    RecordTests,
    RecordPush,
    Release,
    RemoveWorktree,
    End(Ended, Option<ConflictOptionsDecision>),
    Fail(Seq<char>),
}

impl View for JobAction {
    type V = JobDoing;

    open spec fn view(&self) -> JobDoing {
        match *self {
            JobAction::Main(args) => JobDoing::Main(crate::strings::views(args@)),
            JobAction::Tree(args) => JobDoing::Tree(crate::strings::views(args@)),
            JobAction::CheckWorktree => JobDoing::CheckWorktree,
            JobAction::RecordHeads => JobDoing::RecordHeads,
            JobAction::Capture => JobDoing::Capture,
            JobAction::AskModel => JobDoing::AskModel,
            JobAction::WriteFile(i) => JobDoing::WriteFile(i as nat),
            JobAction::SaveConflict => JobDoing::SaveConflict,
            JobAction::AskOptions => JobDoing::AskOptions,
            JobAction::Test(command) => JobDoing::Test(command@),
            JobAction::RecordTests => JobDoing::RecordTests,
            JobAction::RecordPush => JobDoing::RecordPush,
            JobAction::Release => JobDoing::Release,
            JobAction::RemoveWorktree => JobDoing::RemoveWorktree,
            JobAction::End(ending, options) => JobDoing::End(ending@, options),
            JobAction::Fail(words) => JobDoing::Fail(words@),
        }
    }
}

/// The job.
pub struct SyncJob {
    pub stage: JobStage,
    pub worktree: String,
    /// Whether the remote that is looked at was there.
    pub known: bool,
    pub before_head: String,
    pub base_head: String,
    /// The commit that the branch has on the remote, empty where it is not there.
    pub remote_head: String,
    pub snapshot: ConflictSnapshot,
    pub files: Vec<ConflictFileContent>,
    pub continuing: ContinueRun,
    pub resolving: ResolveRun,
    pub testing: TestRun,
    pub pushing: PushRun,
    /// The commit after the sync, empty where it cannot be read.
    pub after_head: String,
    /// A new tag was set.
    pub released: bool,
    /// A sync that changed nothing is announced too.
    pub notify_on_noop: bool,
}

/// The state of the job.
#[verifier::ext_equal]
pub struct JobState {
    pub stage: JobStage,
    pub worktree: Seq<char>,
    pub known: bool,
    pub before_head: Seq<char>,
    pub base_head: Seq<char>,
    pub remote_head: Seq<char>,
    pub snapshot: Conflicts,
    pub files: Seq<ConflictFileContent>,
    pub continuing: ContinueState,
    pub resolving: ResolveState,
    pub test_at: nat,
    pub test_output: Seq<char>,
    pub pushing: PushState,
    pub after_head: Seq<char>,
    pub released: bool,
    pub notify_on_noop: bool,
}

impl View for SyncJob {
    type V = JobState;

    open spec fn view(&self) -> JobState {
        JobState {
            stage: self.stage,
            worktree: self.worktree@,
            known: self.known,
            before_head: self.before_head@,
            base_head: self.base_head@,
            remote_head: self.remote_head@,
            snapshot: self.snapshot@,
            files: self.files@,
            continuing: self.continuing@,
            resolving: self.resolving@,
            test_at: self.testing.at as nat,
            test_output: self.testing.output@,
            pushing: self.pushing@,
            after_head: self.after_head@,
            released: self.released,
            notify_on_noop: self.notify_on_noop,
        }
    }
}

/// A job of which nothing is done yet.
pub open spec fn job_start(worktree: Seq<char>, notify_on_noop: bool) -> JobState {
    JobState {
        stage: JobStage::Repo,
        worktree,
        known: false,
        before_head: Seq::empty(),
        base_head: Seq::empty(),
        remote_head: Seq::empty(),
        snapshot: crate::service::work::no_conflicts(),
        files: Seq::empty(),
        continuing: crate::service::work::idle_continuing(),
        resolving: crate::service::work::idle_resolving(),
        test_at: 0,
        test_output: Seq::empty(),
        pushing: crate::service::work::idle_pushing(),
        after_head: Seq::empty(),
        released: false,
        notify_on_noop,
    }
}

pub open spec fn job_fits(s: JobState, event: JobEvent) -> bool {
    match s.stage {
        JobStage::Exists => event is Exists,
        JobStage::Record | JobStage::Save | JobStage::RecordTests => event is Recorded,
        JobStage::Capture | JobStage::Recapture => event is Captured,
        JobStage::Continuing => match s.continuing.stage {
            ContinueStage::Capture => event is Captured,
            ContinueStage::Ended => false,
            _ => event is Output,
        },
        JobStage::Resolving => match s.resolving.stage {
            ResolveStage::Model => event is Decision,
            ResolveStage::Write => event is Written,
            ResolveStage::Ended => false,
            _ => event is Output,
        },
        JobStage::Options => event is Options,
        JobStage::Pushing => match s.pushing.stage {
            PushStage::Record => event is Recorded,
            PushStage::Release => event is Released,
            PushStage::Ended => false,
            _ => event is Output,
        },
        JobStage::Remove => event is Removed,
        JobStage::Done | JobStage::Failed => false,
        _ => event is Output,
    }
}

pub open spec fn job_failing(s: JobState, words: Seq<char>) -> (JobState, JobDoing) {
    (JobState { stage: JobStage::Failed, ..s }, JobDoing::Fail(words))
}

pub open spec fn job_main(s: JobState, stage: JobStage, args: Seq<Seq<char>>) -> (JobState, JobDoing) {
    (JobState { stage, ..s }, JobDoing::Main(args))
}

pub open spec fn job_tree(s: JobState, stage: JobStage, args: Seq<Seq<char>>) -> (JobState, JobDoing) {
    (JobState { stage, ..s }, JobDoing::Tree(args))
}

pub open spec fn url_args(name: Seq<char>) -> Seq<Seq<char>> {
    seq!["remote"@, "get-url"@, name]
}

pub open spec fn prune_args(name: Seq<char>) -> Seq<Seq<char>> {
    seq!["fetch"@, "--prune"@, name]
}

/// The command that sets the address of a remote.
pub open spec fn set_args(name: Seq<char>, url: Seq<char>, known: bool) -> Seq<Seq<char>> {
    if known {
        seq!["remote"@, "set-url"@, name, url]
    } else {
        seq!["remote"@, "add"@, name, url]
    }
}

/// The remote has the address.
pub open spec fn has_url(url: Seq<char>, current: CommandOutput) -> bool {
    current.ok() && crate::strings::trimmed(current.stdout@) == url
}

pub open spec fn worktree_args(worktree: Seq<char>, reference: Seq<char>) -> Seq<Seq<char>> {
    seq!["worktree"@, "add"@, "--detach"@, worktree, reference]
}

/// The sync took over commits of the upstream, pushed something or set a tag.
pub open spec fn job_updated(s: JobState, branch: BranchConfig) -> bool {
    s.released || s.after_head != s.before_head || (branch.push
        != crate::config::PushStrategy::Never && s.after_head != s.remote_head)
}

/// The ending of a job that is done.
pub open spec fn completed_end(branch: BranchConfig, announced: bool) -> Ended {
    Ended {
        state: "completed"@,
        summary: "同步、测试和推送完成"@,
        output: None,
        kind: "state"@,
        message: "completed: 同步、测试和推送完成"@,
        notice: if announced {
            Some(
                (
                    "completed"@,
                    branch.name@ + " 同步完成"@,
                    "TermiteRS 已完成同步、测试和推送。"@,
                ),
            )
        } else {
            None
        },
        discard: false,
    }
}

/// The ending of a job that failed without a conflict.
pub open spec fn no_conflict_end(details: Seq<char>) -> Ended {
    Ended {
        state: "failed"@,
        summary: "同步失败，未检测到冲突文件"@,
        output: Some(details),
        kind: "sync"@,
        message: "同步失败，但没有检测到可分析的冲突文件"@,
        notice: None,
        discard: true,
    }
}

/// The ending of a job that the model left unfinished without a conflict.
pub open spec fn unfinished_end() -> Ended {
    Ended {
        state: "failed"@,
        summary: "低风险自动修复后未检测到剩余冲突文件，但同步尚未完成"@,
        output: None,
        kind: "sync"@,
        message: "低风险自动修复后没有剩余冲突文件，任务已停止等待人工检查"@,
        notice: None,
        discard: false,
    }
}

/// The ending of a job that waits for a decision.
pub open spec fn guidance_end(options: Option<ConflictOptionsDecision>) -> Ended {
    Ended {
        state: "waiting_guidance"@,
        summary: match options {
            Some(options) => options.summary@,
            None => "功能性冲突已保留，DeepSeek 方案暂时不可用"@,
        },
        output: None,
        kind: "conflict"@,
        message: "功能性冲突正在等待人工指导"@,
        notice: None,
        discard: false,
    }
}

pub open spec fn job_ending(s: JobState, ending: Ended, options: Option<ConflictOptionsDecision>) -> (
    JobState,
    JobDoing,
) {
    (JobState { stage: JobStage::Done, ..s }, JobDoing::End(ending, options))
}

/// The branch stands on its base: the tests begin.
pub open spec fn job_testing(s: JobState, branch: BranchConfig) -> (JobState, JobDoing) {
    let s = JobState { test_at: 0, test_output: Seq::empty(), ..s };
    tested(s, crate::service::work::tests_begin(branch))
}

/// The tests go on, are over, or failed.
pub open spec fn tested(s: JobState, doing: Testing) -> (JobState, JobDoing) {
    match doing {
        Testing::Test(command) => (
            JobState { stage: JobStage::Testing, ..s },
            JobDoing::Test(command),
        ),
        Testing::Passed => (JobState { stage: JobStage::RecordTests, ..s }, JobDoing::RecordTests),
        Testing::Failed(words) => job_failing(s, words),
    }
}

/// The push goes on, is over, or failed.
pub open spec fn pushed(s: JobState, doing: Pushing) -> (JobState, JobDoing) {
    match doing {
        Pushing::Git(args) => job_tree(s, JobStage::Pushing, args),
        Pushing::Record => (JobState { stage: JobStage::Pushing, ..s }, JobDoing::RecordPush),
        Pushing::Release => (JobState { stage: JobStage::Pushing, ..s }, JobDoing::Release),
        Pushing::Done(tag) => (
            JobState {
                stage: JobStage::Remove,
                after_head: s.pushing.candidate,
                released: tag is Some,
                ..s
            },
            JobDoing::RemoveWorktree,
        ),
        Pushing::Fail(words) => job_failing(s, words),
    }
}

/// The push begins. Of a branch that is not pushed only its commit is read.
pub open spec fn job_pushing(s: JobState, branch: BranchConfig) -> (JobState, JobDoing) {
    let never = branch.push == crate::config::PushStrategy::Never;
    let s = JobState {
        pushing: PushState {
            stage: if never {
                PushStage::Ended
            } else {
                PushStage::Head
            },
            expected: s.remote_head,
            require_lease: false,
            candidate: Seq::empty(),
        },
        ..s
    };
    job_tree(
        s,
        if never {
            JobStage::AfterHead
        } else {
            JobStage::Pushing
        },
        seq!["rev-parse"@, "HEAD"@],
    )
}

/// The model goes on, is done, or is not asked.
pub open spec fn resolved(s: JobState, branch: BranchConfig, doing: Resolving) -> (JobState, JobDoing) {
    match doing {
        Resolving::AskModel => (JobState { stage: JobStage::Resolving, ..s }, JobDoing::AskModel),
        Resolving::WriteFile(i) => (
            JobState { stage: JobStage::Resolving, ..s },
            JobDoing::WriteFile(i),
        ),
        Resolving::Git(args) => job_tree(s, JobStage::Resolving, args),
        Resolving::Resolved => job_testing(s, branch),
        Resolving::Unresolved => (JobState { stage: JobStage::Recapture, ..s }, JobDoing::Capture),
        Resolving::Skipped | Resolving::Error(_) => (
            JobState { stage: JobStage::Save, ..s },
            JobDoing::SaveConflict,
        ),
    }
}

/// A conflict is met: the model is asked where the branch lets it.
pub open spec fn job_resolving(s: JobState, branch: BranchConfig) -> (JobState, JobDoing) {
    let may = crate::service::work::may_resolve(branch, s.snapshot.files);
    let s = JobState {
        resolving: ResolveState {
            stage: if may {
                ResolveStage::Model
            } else {
                ResolveStage::Ended
            },
            at: 0,
            resolved: Seq::empty(),
        },
        ..s
    };
    resolved(
        s,
        branch,
        if may {
            Resolving::AskModel
        } else {
            Resolving::Skipped
        },
    )
}

/// Git goes on with what it has resolved, or is done.
pub open spec fn continued(s: JobState, branch: BranchConfig, doing: Continuing) -> (JobState, JobDoing) {
    match doing {
        Continuing::Git(args) => job_tree(s, JobStage::Continuing, args),
        Continuing::Capture => (JobState { stage: JobStage::Continuing, ..s }, JobDoing::Capture),
        Continuing::Completed => job_testing(s, branch),
        Continuing::Conflict => job_resolving(
            JobState { snapshot: s.continuing.snapshot, files: s.continuing.files, ..s },
            branch,
        ),
        Continuing::Failed => job_ending(s, no_conflict_end(s.continuing.details), None),
        Continuing::Error(words) => job_failing(s, words),
    }
}

/// The words with which the work on what git has resolved begins.
pub open spec fn continue_words() -> Seq<char> {
    "同步失败，但没有检测到 Git 未合并冲突文件"@
}

/// The work on what git has resolved begins.
pub open spec fn continue_begin(o: CommandOutput) -> ContinueState {
    ContinueState {
        stage: ContinueStage::Head,
        round: 0,
        details: crate::service::util::output_details(continue_words(), o),
        last_head: Seq::empty(),
        snapshot: Conflicts {
            status: Seq::empty(),
            files: Seq::empty(),
            combined_diff: Seq::empty(),
        },
        files: Seq::empty(),
    }
}

/// One step of the job, where the event is the outcome of a command. Its cases are many: a proof
/// that needs them reveals them.
#[verifier::opaque]
pub open spec fn job_output(s: JobState, repo: RepoConfig, branch: BranchConfig, o: CommandOutput) -> (
    JobState,
    JobDoing,
) {
    let base = crate::sync::base_of(repo);
    let text = crate::strings::trimmed(o.stdout@);
    match s.stage {
        JobStage::Repo => if o.ok() {
            job_main(s, JobStage::UpstreamUrl, url_args(repo.upstream_remote@))
        } else {
            job_failing(s, "not a git repository: "@ + repo.path@)
        },
        JobStage::UpstreamUrl => {
            let s = JobState { known: o.ok(), ..s };
            if has_url(repo.upstream@, o) {
                job_main(s, JobStage::ForkUrl, url_args(repo.fork_remote@))
            } else {
                job_main(
                    s,
                    JobStage::UpstreamSet,
                    set_args(repo.upstream_remote@, repo.upstream@, s.known),
                )
            }
        },
        JobStage::UpstreamSet => if o.ok() {
            job_main(s, JobStage::ForkUrl, url_args(repo.fork_remote@))
        } else {
            job_failing(
                s,
                crate::git::failed_words(
                    set_args(repo.upstream_remote@, repo.upstream@, s.known),
                    o,
                ),
            )
        },
        JobStage::ForkUrl => {
            let s = JobState { known: o.ok(), ..s };
            if has_url(repo.fork@, o) {
                job_main(s, JobStage::FetchUpstream, prune_args(repo.upstream_remote@))
            } else {
                job_main(
                    s,
                    JobStage::ForkSet,
                    set_args(repo.fork_remote@, repo.fork@, s.known),
                )
            }
        },
        JobStage::ForkSet => if o.ok() {
            job_main(s, JobStage::FetchUpstream, prune_args(repo.upstream_remote@))
        } else {
            job_failing(
                s,
                crate::git::failed_words(set_args(repo.fork_remote@, repo.fork@, s.known), o),
            )
        },
        JobStage::FetchUpstream => if o.ok() {
            job_main(s, JobStage::FetchFork, prune_args(repo.fork_remote@))
        } else {
            job_failing(s, crate::git::failed_words(prune_args(repo.upstream_remote@), o))
        },
        JobStage::FetchFork => if o.ok() {
            (JobState { stage: JobStage::Exists, ..s }, JobDoing::CheckWorktree)
        } else {
            job_failing(s, crate::git::failed_words(prune_args(repo.fork_remote@), o))
        },
        JobStage::RemoteRef => job_main(
            s,
            JobStage::Worktree,
            worktree_args(
                s.worktree,
                if o.ok() {
                    crate::sync::remote_branch_of(repo, branch)
                } else {
                    branch.name@
                },
            ),
        ),
        JobStage::Worktree => if o.ok() {
            job_tree(s, JobStage::Head, seq!["rev-parse"@, "HEAD"@])
        } else {
            job_failing(s, "创建 worktree 失败："@ + crate::strings::trimmed(o.stderr@))
        },
        JobStage::Head => job_tree(
            JobState { before_head: text, ..s },
            JobStage::BaseHead,
            seq!["rev-parse"@, base],
        ),
        JobStage::BaseHead => job_main(
            JobState { base_head: text, ..s },
            JobStage::RemoteHead,
            crate::sync::remote_head_args(repo, branch),
        ),
        JobStage::RemoteHead => if o.ok() {
            (
                JobState {
                    stage: JobStage::Record,
                    remote_head: match crate::git::first_word(o.stdout@) {
                        Some(head) => head,
                        None => Seq::empty(),
                    },
                    ..s
                },
                JobDoing::RecordHeads,
            )
        } else {
            job_failing(
                s,
                "failed to read remote head for "@ + repo.fork_remote@ + "/"@ + branch.name@,
            )
        },
        JobStage::Sync => if o.ok() {
            job_testing(s, branch)
        } else {
            (
                JobState { stage: JobStage::Capture, continuing: continue_begin(o), ..s },
                JobDoing::Capture,
            )
        },
        JobStage::Continuing => {
            let next = crate::service::work::continue_step(
                s.continuing,
                branch.sync,
                ContinueEvent::Output(o),
            );
            continued(JobState { continuing: next.0, ..s }, branch, next.1)
        },
        JobStage::Resolving => {
            let next = crate::service::work::resolve_step(
                s.resolving,
                branch.sync,
                s.files,
                s.snapshot.files,
                ResolveEvent::Output(o),
            );
            resolved(JobState { resolving: next.0, ..s }, branch, next.1)
        },
        JobStage::Testing => tested(
            JobState {
                test_output: s.test_output + crate::service::work::test_text(
                    branch.tests@[s.test_at as int]@,
                    o,
                ),
                test_at: if crate::service::work::tests_step(branch, s.test_at, o) is Test {
                    s.test_at + 1
                } else {
                    s.test_at
                },
                ..s
            },
            crate::service::work::tests_step(branch, s.test_at, o),
        ),
        JobStage::Pushing => {
            let next = crate::service::work::push_step(
                s.pushing,
                repo,
                branch,
                PushEvent::Output(o),
            );
            pushed(JobState { pushing: next.0, ..s }, next.1)
        },
        JobStage::AfterHead => (
            JobState {
                stage: JobStage::Remove,
                after_head: if o.ok() {
                    text
                } else {
                    Seq::empty()
                },
                ..s
            },
            JobDoing::RemoveWorktree,
        ),
        _ => job_failing(s, Seq::empty()),
    }
}

/// One step of the job.
pub open spec fn job_step(s: JobState, repo: RepoConfig, branch: BranchConfig, event: JobEvent) -> (
    JobState,
    JobDoing,
) {
    match (s.stage, event) {
        (_, JobEvent::Output(o)) => job_output(s, repo, branch, o),
        (JobStage::Exists, JobEvent::Exists(there)) => if there {
            job_failing(s, "任务 worktree 已存在："@ + s.worktree)
        } else {
            job_main(
                s,
                JobStage::RemoteRef,
                crate::sync::short_ref_args(crate::sync::remote_branch_of(repo, branch)),
            )
        },
        (JobStage::Record, JobEvent::Recorded) => job_tree(
            s,
            JobStage::Sync,
            crate::sync::sync_args(repo, branch),
        ),
        (JobStage::Capture, JobEvent::Captured(snapshot, files)) => {
            let s = JobState { snapshot: snapshot@, files: files@, ..s };
            if s.snapshot.files.len() == 0 {
                job_tree(s, JobStage::Continuing, crate::sync::head_args())
            } else {
                job_resolving(s, branch)
            }
        },
        (JobStage::Continuing, JobEvent::Captured(snapshot, files)) => {
            let next = crate::service::work::continue_step(
                s.continuing,
                branch.sync,
                ContinueEvent::Captured(snapshot, files),
            );
            continued(JobState { continuing: next.0, ..s }, branch, next.1)
        },
        (JobStage::Recapture, JobEvent::Captured(snapshot, files)) => {
            let s = JobState { snapshot: snapshot@, files: files@, ..s };
            if s.snapshot.files.len() == 0 {
                job_ending(s, unfinished_end(), None)
            } else {
                (JobState { stage: JobStage::Save, ..s }, JobDoing::SaveConflict)
            }
        },
        (JobStage::Resolving, JobEvent::Decision(decision)) => {
            let next = crate::service::work::resolve_step(
                s.resolving,
                branch.sync,
                s.files,
                s.snapshot.files,
                ResolveEvent::Decision(decision),
            );
            resolved(JobState { resolving: next.0, ..s }, branch, next.1)
        },
        (JobStage::Resolving, JobEvent::Written(result)) => {
            let next = crate::service::work::resolve_step(
                s.resolving,
                branch.sync,
                s.files,
                s.snapshot.files,
                ResolveEvent::Written(result),
            );
            resolved(JobState { resolving: next.0, ..s }, branch, next.1)
        },
        (JobStage::Save, JobEvent::Recorded) => (
            JobState { stage: JobStage::Options, ..s },
            JobDoing::AskOptions,
        ),
        (JobStage::Options, JobEvent::Options(result)) => {
            let options = match result {
                Ok(options) => options,
                Err(_) => None,
            };
            job_ending(s, guidance_end(options), options)
        },
        (JobStage::RecordTests, JobEvent::Recorded) => job_pushing(s, branch),
        (JobStage::Pushing, JobEvent::Recorded) => {
            let next = crate::service::work::push_step(s.pushing, repo, branch, PushEvent::Recorded);
            pushed(JobState { pushing: next.0, ..s }, next.1)
        },
        (JobStage::Pushing, JobEvent::Released(result)) => {
            let next = crate::service::work::push_step(
                s.pushing,
                repo,
                branch,
                PushEvent::Released(result),
            );
            pushed(JobState { pushing: next.0, ..s }, next.1)
        },
        (JobStage::Remove, JobEvent::Removed) => job_ending(
            s,
            completed_end(branch, s.notify_on_noop || job_updated(s, branch)),
            None,
        ),
        _ => job_failing(s, Seq::empty()),
    }
}

/// What the guard is asked about before an action. The job pushes only after the output of its tests
/// is written down.
pub open spec fn job_deed(doing: JobDoing) -> Option<Deed> {
    match doing {
        JobDoing::Test(_) => Some(Deed::Test),
        JobDoing::RecordTests => Some(Deed::Push),
        _ => None,
    }
}

impl JobAction {
    /// What the guard is to be asked about before the action.
    pub fn deed(&self) -> (r: Option<Deed>)
        ensures
            r == job_deed(self@),
    {
        match self {
            JobAction::Test(_) => Some(Deed::Test),
            JobAction::RecordTests => Some(Deed::Push),
            _ => None,
        }
    }
}

impl SyncJob {
    /// The pieces of work fit the branch.
    pub open spec fn wf(self, branch: BranchConfig) -> bool {
        &&& self.continuing.round < 20
        &&& self.resolving.wf()
        &&& self.stage is Testing ==> self.testing.at < branch.tests@.len()
    }

    /// Begins a job that somebody asked for. Its end is announced in any case.
    pub fn execute_sync(worktree: &str) -> (r: (SyncJob, JobAction))
        ensures
            r.0@ == job_start(worktree@, true),
            forall|branch: BranchConfig| #[trigger] r.0.wf(branch),
            r.1@ == JobDoing::Main(seq!["rev-parse"@, "--show-toplevel"@]),
    {
        SyncJob::execute_scheduled_sync(worktree, true)
    }

    /// Begins a job that the schedule asked for. A sync that changed nothing is announced only with
    /// the flag.
    pub fn execute_scheduled_sync(worktree: &str, notify_on_noop: bool) -> (r: (SyncJob, JobAction))
        ensures
            r.0@ == job_start(worktree@, notify_on_noop),
            forall|branch: BranchConfig| #[trigger] r.0.wf(branch),
            r.1@ == JobDoing::Main(seq!["rev-parse"@, "--show-toplevel"@]),
    {
        let job = SyncJob {
            stage: JobStage::Repo,
            worktree: owned(worktree),
            known: false,
            before_head: String::new(),
            base_head: String::new(),
            remote_head: String::new(),
            snapshot: ConflictSnapshot {
                status: String::new(),
                files: Vec::new(),
                combined_diff: String::new(),
            },
            files: Vec::new(),
            continuing: ContinueRun::idle(),
            resolving: ResolveRun { stage: ResolveStage::Ended, at: 0, resolved: Vec::new() },
            testing: TestRun { at: 0, output: String::new() },
            pushing: PushRun {
                stage: PushStage::Ended,
                expected: String::new(),
                require_lease: false,
                candidate: String::new(),
            },
            after_head: String::new(),
            released: false,
            notify_on_noop,
        };
        assert(job@ =~~= job_start(worktree@, notify_on_noop));
        (job, JobAction::Main(Git { root: String::new() }.ensure_repo()))
    }

    fn fail(&mut self, words: String) -> (r: JobAction)
        ensures
            final(self)@ == job_failing(old(self)@, words@).0,
            r@ == job_failing(old(self)@, words@).1,
            final(self).continuing == old(self).continuing,
            final(self).resolving == old(self).resolving,
            final(self).testing == old(self).testing,
            final(self).stage is Failed,
    {
        self.stage = JobStage::Failed;
        JobAction::Fail(words)
    }

    fn main(&mut self, stage: JobStage, args: Vec<String>) -> (r: JobAction)
        ensures
            final(self)@ == job_main(old(self)@, stage, crate::strings::views(args@)).0,
            r@ == job_main(old(self)@, stage, crate::strings::views(args@)).1,
            final(self).continuing == old(self).continuing,
            final(self).resolving == old(self).resolving,
            final(self).testing == old(self).testing,
            final(self).stage == stage,
    {
        self.stage = stage;
        JobAction::Main(args)
    }

    fn tree(&mut self, stage: JobStage, args: Vec<String>) -> (r: JobAction)
        ensures
            final(self)@ == job_tree(old(self)@, stage, crate::strings::views(args@)).0,
            r@ == job_tree(old(self)@, stage, crate::strings::views(args@)).1,
            final(self).continuing == old(self).continuing,
            final(self).resolving == old(self).resolving,
            final(self).testing == old(self).testing,
            final(self).stage == stage,
    {
        self.stage = stage;
        JobAction::Tree(args)
    }

    fn end(&mut self, ending: JobEnding, options: Option<ConflictOptionsDecision>) -> (r: JobAction)
        ensures
            final(self)@ == job_ending(old(self)@, ending@, options).0,
            r@ == job_ending(old(self)@, ending@, options).1,
            final(self).continuing == old(self).continuing,
            final(self).resolving == old(self).resolving,
            final(self).testing == old(self).testing,
            final(self).stage is Done,
    {
        self.stage = JobStage::Done;
        JobAction::End(ending, options)
    }

    fn after_test(&mut self, branch: &BranchConfig, action: TestAction) -> (r: JobAction)
        requires
            old(self).continuing.round < 20,
            old(self).resolving.wf(),
            action is Test ==> old(self).testing.at < branch.tests@.len(),
        ensures
            final(self)@ == tested(old(self)@, action@).0,
            r@ == tested(old(self)@, action@).1,
            final(self).wf(*branch),
    {
        match action {
            TestAction::Test(command) => {
                self.stage = JobStage::Testing;
                JobAction::Test(command)
            },
            TestAction::Passed => {
                self.stage = JobStage::RecordTests;
                JobAction::RecordTests
            },
            TestAction::Failed(words) => self.fail(words),
        }
    }

    /// The branch stands on its base: tests, push, and the end of the work tree follow.
    fn finish_automatic_sync(&mut self, branch: &BranchConfig) -> (r: JobAction)
        requires
            old(self).continuing.round < 20,
            old(self).resolving.wf(),
        ensures
            final(self)@ == job_testing(old(self)@, *branch).0,
            r@ == job_testing(old(self)@, *branch).1,
            final(self).wf(*branch),
    {
        let (testing, action) = TestRun::run_tests(branch);
        self.testing = testing;
        assert(self.testing.output@ =~= Seq::empty());
        self.after_test(branch, action)
    }

    fn after_push(&mut self, branch: &BranchConfig, action: PushAction) -> (r: JobAction)
        requires
            old(self).continuing.round < 20,
            old(self).resolving.wf(),
        ensures
            final(self)@ == pushed(old(self)@, action@).0,
            r@ == pushed(old(self)@, action@).1,
            final(self).wf(*branch),
    {
        match action {
            PushAction::Git(args) => self.tree(JobStage::Pushing, args),
            PushAction::Record => {
                self.stage = JobStage::Pushing;
                JobAction::RecordPush
            },
            PushAction::Release => {
                self.stage = JobStage::Pushing;
                JobAction::Release
            },
            PushAction::Done(tag) => {
                self.stage = JobStage::Remove;
                self.after_head = owned(self.pushing.candidate.as_str());
                self.released = tag.is_some();
                JobAction::RemoveWorktree
            },
            PushAction::Fail(words) => self.fail(words),
        }
    }

    fn begin_push(&mut self, branch: &BranchConfig) -> (r: JobAction)
        requires
            old(self).continuing.round < 20,
            old(self).resolving.wf(),
        ensures
            final(self)@ == job_pushing(old(self)@, *branch).0,
            r@ == job_pushing(old(self)@, *branch).1,
            final(self).wf(*branch),
    {
        let (pushing, action) = PushRun::push_job(branch, self.remote_head.as_str(), false);
        self.pushing = pushing;
        match action {
            PushAction::Git(args) => self.tree(JobStage::Pushing, args),
            _ => {
                let args = ["rev-parse", "HEAD"];
                assert(crate::strings::str_views(args@) =~= seq!["rev-parse"@, "HEAD"@]);
                self.tree(JobStage::AfterHead, list_of(&args))
            },
        }
    }

    /// Whether the sync took over commits of the upstream, pushed something or set a tag.
    fn updated(&self, branch: &BranchConfig) -> (r: bool)
        ensures
            r == job_updated(self@, *branch),
    {
        let never = match branch.push {
            PushStrategy::Never => true,
            _ => false,
        };
        self.released || !same(self.after_head.as_str(), self.before_head.as_str()) || (!never
            && !same(self.after_head.as_str(), self.remote_head.as_str()))
    }

    fn after_resolve(&mut self, branch: &BranchConfig, action: ResolveAction) -> (r: JobAction)
        requires
            old(self).continuing.round < 20,
            old(self).resolving.wf(),
        ensures
            final(self)@ == resolved(old(self)@, *branch, action@).0,
            r@ == resolved(old(self)@, *branch, action@).1,
            final(self).wf(*branch),
    {
        match action {
            ResolveAction::AskModel => {
                self.stage = JobStage::Resolving;
                JobAction::AskModel
            },
            ResolveAction::WriteFile(i) => {
                self.stage = JobStage::Resolving;
                JobAction::WriteFile(i)
            },
            ResolveAction::Git(args) => self.tree(JobStage::Resolving, args),
            ResolveAction::Resolved => self.finish_automatic_sync(branch),
            ResolveAction::Unresolved => {
                self.stage = JobStage::Recapture;
                JobAction::Capture
            },
            ResolveAction::Skipped => {
                self.stage = JobStage::Save;
                JobAction::SaveConflict
            },
            ResolveAction::Error(_) => {
                self.stage = JobStage::Save;
                JobAction::SaveConflict
            },
        }
    }

    fn begin_resolve(&mut self, branch: &BranchConfig) -> (r: JobAction)
        requires
            old(self).continuing.round < 20,
        ensures
            final(self)@ == job_resolving(old(self)@, *branch).0,
            r@ == job_resolving(old(self)@, *branch).1,
            final(self).wf(*branch),
    {
        let (resolving, action) = ResolveRun::try_low_risk_auto_resolve(branch, &self.snapshot.files);
        self.resolving = resolving;
        self.after_resolve(branch, action)
    }

    fn after_continue(&mut self, branch: &BranchConfig, action: ContinueAction) -> (r: JobAction)
        requires
            old(self).continuing.round < 20,
            old(self).resolving.wf(),
        ensures
            final(self)@ == continued(old(self)@, *branch, action@).0,
            r@ == continued(old(self)@, *branch, action@).1,
            final(self).wf(*branch),
    {
        match action {
            ContinueAction::Git(args) => self.tree(JobStage::Continuing, args),
            ContinueAction::Capture => {
                self.stage = JobStage::Continuing;
                JobAction::Capture
            },
            ContinueAction::Completed => self.finish_automatic_sync(branch),
            ContinueAction::Conflict => {
                self.snapshot = copy_snapshot(&self.continuing.snapshot);
                self.files = copy_files(&self.continuing.files);
                self.begin_resolve(branch)
            },
            ContinueAction::Failed => {
                let details = self.continuing.details.clone();
                self.end(no_conflict_ending(details), None)
            },
            ContinueAction::Error(words) => self.fail(words),
        }
    }

    fn prepare(&mut self, repo: &RepoConfig, branch: &BranchConfig, o: &CommandOutput) -> (r: JobAction)
        requires
            old(self).wf(*branch),
            old(self).stage is Repo || old(self).stage is UpstreamUrl || old(
                self,
            ).stage is UpstreamSet || old(self).stage is ForkUrl || old(self).stage is ForkSet || old(
                self,
            ).stage is FetchUpstream || old(self).stage is FetchFork,
        ensures
            final(self)@ == job_output(old(self)@, *repo, *branch, *o).0,
            r@ == job_output(old(self)@, *repo, *branch, *o).1,
            final(self).wf(*branch),
    {
        proof {
            reveal(job_output);
        }
        let git = Git { root: String::new() };
        match self.stage {
            JobStage::Repo => if o.success() {
                self.main(JobStage::UpstreamUrl, git.remote_url(repo.upstream_remote.as_str()))
            } else {
                self.fail(owned("not a git repository: ").concat(repo.path.as_str()))
            },
            JobStage::UpstreamUrl => {
                self.known = o.success();
                match git.ensure_remote(repo.upstream_remote.as_str(), repo.upstream.as_str(), o) {
                    Some(args) => self.main(JobStage::UpstreamSet, args),
                    None => self.main(JobStage::ForkUrl, git.remote_url(repo.fork_remote.as_str())),
                }
            },
            JobStage::UpstreamSet => {
                let args = set_command(
                    repo.upstream_remote.as_str(),
                    repo.upstream.as_str(),
                    self.known,
                );
                match git_checked(&args, o) {
                    Err(words) => self.fail(words),
                    Ok(()) => self.main(
                        JobStage::ForkUrl,
                        git.remote_url(repo.fork_remote.as_str()),
                    ),
                }
            },
            JobStage::ForkUrl => {
                self.known = o.success();
                match git.ensure_remote(repo.fork_remote.as_str(), repo.fork.as_str(), o) {
                    Some(args) => self.main(JobStage::ForkSet, args),
                    None => self.main(JobStage::FetchUpstream, git.fetch_all(repo).0),
                }
            },
            JobStage::ForkSet => {
                let args = set_command(repo.fork_remote.as_str(), repo.fork.as_str(), self.known);
                match git_checked(&args, o) {
                    Err(words) => self.fail(words),
                    Ok(()) => self.main(JobStage::FetchUpstream, git.fetch_all(repo).0),
                }
            },
            JobStage::FetchUpstream => match git_checked(&git.fetch_all(repo).0, o) {
                Err(words) => self.fail(words),
                Ok(()) => self.main(JobStage::FetchFork, git.fetch_all(repo).1),
            },
            _ => match git_checked(&git.fetch_all(repo).1, o) {
                Err(words) => self.fail(words),
                Ok(()) => {
                    self.stage = JobStage::Exists;
                    JobAction::CheckWorktree
                },
            },
        }
    }

    fn open_tree(&mut self, repo: &RepoConfig, branch: &BranchConfig, o: &CommandOutput) -> (r: JobAction)
        requires
            old(self).wf(*branch),
            old(self).stage is RemoteRef || old(self).stage is Worktree || old(self).stage is Head || old(
                self,
            ).stage is BaseHead || old(self).stage is RemoteHead || old(self).stage is Sync,
        ensures
            final(self)@ == job_output(old(self)@, *repo, *branch, *o).0,
            r@ == job_output(old(self)@, *repo, *branch, *o).1,
            final(self).wf(*branch),
    {
        proof {
            reveal(job_output);
        }
        let git = Git { root: String::new() };
        match self.stage {
            JobStage::RemoteRef => {
                let reference = if o.success() {
                    owned(repo.fork_remote.as_str()).concat("/").concat(branch.name.as_str())
                } else {
                    branch.name.clone()
                };
                let args = [
                    "worktree",
                    "add",
                    "--detach",
                    self.worktree.as_str(),
                    reference.as_str(),
                ];
                assert(crate::strings::str_views(args@) =~= worktree_args(
                    self.worktree@,
                    reference@,
                ));
                let args = list_of(&args);
                self.main(JobStage::Worktree, args)
            },
            JobStage::Worktree => if o.success() {
                let args = ["rev-parse", "HEAD"];
                assert(crate::strings::str_views(args@) =~= seq!["rev-parse"@, "HEAD"@]);
                self.tree(JobStage::Head, list_of(&args))
            } else {
                self.fail(owned("创建 worktree 失败：").concat(trim(o.stderr.as_str()).as_str()))
            },
            JobStage::Head => {
                self.before_head = trim(o.stdout.as_str());
                let base = owned(repo.upstream_remote.as_str()).concat("/").concat(
                    repo.base_branch.as_str(),
                );
                let args = ["rev-parse", base.as_str()];
                assert(crate::strings::str_views(args@) =~= seq!["rev-parse"@, base@]);
                self.tree(JobStage::BaseHead, list_of(&args))
            },
            JobStage::BaseHead => {
                self.base_head = trim(o.stdout.as_str());
                self.main(
                    JobStage::RemoteHead,
                    git.remote_head(repo.fork_remote.as_str(), branch.name.as_str()),
                )
            },
            JobStage::RemoteHead => match read_remote_head(
                repo.fork_remote.as_str(),
                branch.name.as_str(),
                o,
            ) {
                Err(words) => self.fail(words),
                Ok(head) => {
                    self.remote_head = match head {
                        Some(head) => head,
                        None => String::new(),
                    };
                    self.stage = JobStage::Record;
                    JobAction::RecordHeads
                },
            },
            _ => if o.success() {
                self.finish_automatic_sync(branch)
            } else {
                self.continuing = ContinueRun::continue_autoresolved_sync(
                    "同步失败，但没有检测到 Git 未合并冲突文件",
                    o,
                ).0;
                self.stage = JobStage::Capture;
                JobAction::Capture
            },
        }
    }

    fn on_output(&mut self, repo: &RepoConfig, branch: &BranchConfig, o: CommandOutput) -> (r: JobAction)
        requires
            old(self).wf(*branch),
            job_fits(old(self)@, JobEvent::Output(o)),
        ensures
            final(self)@ == job_output(old(self)@, *repo, *branch, o).0,
            r@ == job_output(old(self)@, *repo, *branch, o).1,
            final(self).wf(*branch),
    {
        proof {
            reveal(job_output);
        }
        match self.stage {
            JobStage::Repo | JobStage::UpstreamUrl | JobStage::UpstreamSet | JobStage::ForkUrl
            | JobStage::ForkSet | JobStage::FetchUpstream | JobStage::FetchFork => self.prepare(
                repo,
                branch,
                &o,
            ),
            JobStage::Continuing => {
                let action = self.continuing.step(branch.sync, ContinueEvent::Output(o));
                self.after_continue(branch, action)
            },
            JobStage::Resolving => {
                let action = self.resolving.step(
                    branch.sync,
                    &self.files,
                    &self.snapshot.files,
                    ResolveEvent::Output(o),
                );
                self.after_resolve(branch, action)
            },
            JobStage::Testing => {
                let action = self.testing.step(branch, &o);
                self.after_test(branch, action)
            },
            JobStage::Pushing => {
                let action = self.pushing.step(repo, branch, PushEvent::Output(o));
                self.after_push(branch, action)
            },
            JobStage::AfterHead => {
                self.after_head = if o.success() {
                    trim(o.stdout.as_str())
                } else {
                    String::new()
                };
                self.stage = JobStage::Remove;
                JobAction::RemoveWorktree
            },
            _ => self.open_tree(repo, branch, &o),
        }
    }

    /// Takes note of what came of the last action, and says what to do next.
    pub fn step(&mut self, repo: &RepoConfig, branch: &BranchConfig, event: JobEvent) -> (r: JobAction)
        requires
            old(self).wf(*branch),
            job_fits(old(self)@, event),
        ensures
            final(self)@ == job_step(old(self)@, *repo, *branch, event).0,
            r@ == job_step(old(self)@, *repo, *branch, event).1,
            final(self).wf(*branch),
    {
        let git = Git { root: String::new() };
        match event {
            JobEvent::Output(o) => self.on_output(repo, branch, o),
            JobEvent::Exists(there) => if there {
                let words = owned("任务 worktree 已存在：").concat(self.worktree.as_str());
                self.fail(words)
            } else {
                let reference = owned(repo.fork_remote.as_str()).concat("/").concat(
                    branch.name.as_str(),
                );
                self.main(JobStage::RemoteRef, git.short_ref(reference.as_str()))
            },
            JobEvent::Recorded => match self.stage {
                JobStage::Record => {
                    let base = owned(repo.upstream_remote.as_str()).concat("/").concat(
                        repo.base_branch.as_str(),
                    );
                    let args = match branch.sync {
                        SyncStrategy::Rebase => git.rebase(base.as_str()),
                        SyncStrategy::Merge => git.merge(base.as_str()),
                    };
                    self.tree(JobStage::Sync, args)
                },
                JobStage::Save => {
                    self.stage = JobStage::Options;
                    JobAction::AskOptions
                },
                JobStage::RecordTests => self.begin_push(branch),
                _ => {
                    let action = self.pushing.step(repo, branch, PushEvent::Recorded);
                    self.after_push(branch, action)
                },
            },
            JobEvent::Captured(snapshot, files) => match self.stage {
                JobStage::Capture => {
                    self.snapshot = snapshot;
                    self.files = files;
                    if self.snapshot.files.len() == 0 {
                        self.tree(JobStage::Continuing, git.head())
                    } else {
                        self.begin_resolve(branch)
                    }
                },
                JobStage::Continuing => {
                    let action = self.continuing.step(
                        branch.sync,
                        ContinueEvent::Captured(snapshot, files),
                    );
                    self.after_continue(branch, action)
                },
                _ => {
                    self.snapshot = snapshot;
                    self.files = files;
                    if self.snapshot.files.len() == 0 {
                        self.end(unfinished_ending(), None)
                    } else {
                        self.stage = JobStage::Save;
                        JobAction::SaveConflict
                    }
                },
            },
            JobEvent::Decision(decision) => {
                let action = self.resolving.step(
                    branch.sync,
                    &self.files,
                    &self.snapshot.files,
                    ResolveEvent::Decision(decision),
                );
                self.after_resolve(branch, action)
            },
            JobEvent::Written(result) => {
                let action = self.resolving.step(
                    branch.sync,
                    &self.files,
                    &self.snapshot.files,
                    ResolveEvent::Written(result),
                );
                self.after_resolve(branch, action)
            },
            JobEvent::Options(result) => {
                let options = match result {
                    Ok(options) => options,
                    Err(_) => None,
                };
                let ending = guidance_ending(&options);
                self.end(ending, options)
            },
            JobEvent::Released(result) => {
                let action = self.pushing.step(repo, branch, PushEvent::Released(result));
                self.after_push(branch, action)
            },
            JobEvent::Removed => {
                let announced = self.notify_on_noop || self.updated(branch);
                self.end(completed_ending(branch, announced), None)
            },
        }
    }
}

fn set_command(name: &str, url: &str, known: bool) -> (r: Vec<String>)
    ensures
        crate::strings::views(r@) == set_args(name@, url@, known),
{
    let verb = if known {
        "set-url"
    } else {
        "add"
    };
    let args = ["remote", verb, name, url];
    assert(crate::strings::str_views(args@) =~= set_args(name@, url@, known));
    list_of(&args)
}

/// A copy of the state of a conflict.
pub fn copy_snapshot(snapshot: &ConflictSnapshot) -> (r: ConflictSnapshot)
    ensures
        r@ == snapshot@,
{
    ConflictSnapshot {
        status: snapshot.status.clone(),
        files: crate::strings::copy_list(&snapshot.files),
        combined_diff: snapshot.combined_diff.clone(),
    }
}

/// A copy of conflicted files.
pub fn copy_files(files: &Vec<ConflictFileContent>) -> (r: Vec<ConflictFileContent>)
    ensures
        r@ == files@,
{
    let mut out: Vec<ConflictFileContent> = Vec::new();
    let mut i: usize = 0;
    while i < files.len()
        invariant
            i <= files@.len(),
            out@ == files@.take(i as int),
        decreases files@.len() - i,
    {
        let copy = ConflictFileContent {
            path: files[i].path.clone(),
            content: files[i].content.clone(),
        };
        assert(copy == files@[i as int]);
        out.push(copy);
        assert(out@ =~= files@.take(i + 1));
        i += 1;
    }
    assert(files@.take(files@.len() as int) =~= files@);
    out
}

fn no_conflict_ending(details: String) -> (r: JobEnding)
    ensures
        r@ == no_conflict_end(details@),
{
    JobEnding {
        state: "failed",
        summary: owned("同步失败，未检测到冲突文件"),
        output: Some(details),
        kind: "sync",
        message: owned("同步失败，但没有检测到可分析的冲突文件"),
        notice: None,
        discard: true,
    }
}

fn unfinished_ending() -> (r: JobEnding)
    ensures
        r@ == unfinished_end(),
{
    JobEnding {
        state: "failed",
        summary: owned("低风险自动修复后未检测到剩余冲突文件，但同步尚未完成"),
        output: None,
        kind: "sync",
        message: owned("低风险自动修复后没有剩余冲突文件，任务已停止等待人工检查"),
        notice: None,
        discard: false,
    }
}

fn guidance_ending(options: &Option<ConflictOptionsDecision>) -> (r: JobEnding)
    ensures
        r@ == guidance_end(*options),
{
    JobEnding {
        state: "waiting_guidance",
        summary: match options {
            Some(options) => options.summary.clone(),
            None => owned("功能性冲突已保留，DeepSeek 方案暂时不可用"),
        },
        output: None,
        kind: "conflict",
        message: owned("功能性冲突正在等待人工指导"),
        notice: None,
        discard: false,
    }
}

fn completed_ending(branch: &BranchConfig, announced: bool) -> (r: JobEnding)
    ensures
        r@ == completed_end(*branch, announced),
{
    let notice = if announced {
        Some(
            JobNotice {
                event: "completed",
                subject: owned(branch.name.as_str()).concat(" 同步完成"),
                body: owned("TermiteRS 已完成同步、测试和推送。"),
            },
        )
    } else {
        None
    };
    JobEnding {
        state: "completed",
        summary: owned("同步、测试和推送完成"),
        output: None,
        kind: "state",
        message: owned("completed: 同步、测试和推送完成"),
        notice,
        discard: false,
    }
}

} // verus!
