//! The application of a proposal that was agreed to.
use crate::command::CommandOutput;
use crate::config::{BranchConfig, Config};
use crate::conflict::ResolvedFile;
use crate::git::{
    ensure_relative_repo_path, git_checked, ConflictFileContent, ConflictSnapshot, Conflicts, Git,
};
use crate::llm::AutoResolveDecision;
use crate::protection::guard::Deed;
use crate::service::jobs::{copy_files, copy_snapshot};
use crate::service::types::{Ended, JobEnding, JobNotice};
use crate::service::util::dashboard_link;
use crate::service::work::{
    ContinueAction, ContinueEvent, ContinueRun, ContinueStage, ContinueState, Continuing,
    ResolveAction, ResolveEvent, ResolveRun, ResolveStage, ResolveState, Resolving, TestAction, TestRun,
    Testing,
};
use crate::strings::{list_of, owned, trim};
use vstd::prelude::*;

verus! {

/// What the application waits for.
#[derive(Debug, Clone, Copy, PartialEq, Eq, Structural)]
pub enum ApplyStage {
    Write,
    Add,
    RebaseHead,
    MergeHead,
    Continue,
    Amend,
    Capture,
    /// Git goes on with what it has resolved from its memory.
    Continuing,
    /// The model resolves a further conflict of low risk.
    Resolving,
    Recapture,
    /// It is told that the further conflict is resolved.
    Announce,
    Testing,
    /// It is written down that the tests passed.
    RecordPassed,
    Push,
    Done,
    Failed,
}

/// What came of the last action.
#[derive(Debug)]
pub enum ApplyEvent {
    Written(Result<(), String>),
    Output(CommandOutput),
    Captured(ConflictSnapshot, Vec<ConflictFileContent>),
    Decision(Result<Option<AutoResolveDecision>, String>),
    Recorded,
    Pushed(Result<(), String>),
}

/// What the caller is to do next.
#[derive(Debug)]
pub enum ApplyAction {
    /// Write a file of the proposal.
    WriteFile(usize),
    Tree(Vec<String>),
    Capture,
    AskModel,
    /// Write a file that the model resolved.
    WriteResolved(usize),
    /// Tell that the further conflict is resolved.
    Announce,
    Test(String),
    /// Write down that the tests passed.
    RecordPassed(JobEnding),
    Push,
    End(JobEnding),
    /// Tell this kind of event with this message, and send the notice. The state of the job stays what
    /// it is.
    Tell(&'static str, String, JobNotice),
    /// Write the conflict down, end so, and ask the model for ways out with this message.
    Guide(JobEnding, String),
    Finished,
    Fail(String),
}

/// What an action is.
#[verifier::ext_equal]
pub enum Applying {
    WriteFile(nat),
    Tree(Seq<Seq<char>>),
    Capture,
    AskModel,
    WriteResolved(nat),
    Announce,
    Test(Seq<char>),
    RecordPassed(Ended),
    Push,
    End(Ended),
    Tell(Seq<char>, Seq<char>, (Seq<char>, Seq<char>, Seq<char>)),
    Guide(Ended, Seq<char>),
    Finished,
    Fail(Seq<char>),
}

impl View for ApplyAction {
    type V = Applying;

    open spec fn view(&self) -> Applying {
        match *self {
            ApplyAction::WriteFile(i) => Applying::WriteFile(i as nat),
            ApplyAction::Tree(args) => Applying::Tree(crate::strings::views(args@)),
            ApplyAction::Capture => Applying::Capture,
            ApplyAction::AskModel => Applying::AskModel,
            ApplyAction::WriteResolved(i) => Applying::WriteResolved(i as nat),
            ApplyAction::Announce => Applying::Announce,
            ApplyAction::Test(command) => Applying::Test(command@),
            ApplyAction::RecordPassed(ending) => Applying::RecordPassed(ending@),
            ApplyAction::Push => Applying::Push,
            ApplyAction::End(ending) => Applying::End(ending@),
            ApplyAction::Tell(kind, message, notice) => Applying::Tell(
                kind@,
                message@,
                (notice.event@, notice.subject@, notice.body@),
            ),
            ApplyAction::Guide(ending, message) => Applying::Guide(ending@, message@),
            ApplyAction::Finished => Applying::Finished,
            ApplyAction::Fail(words) => Applying::Fail(words@),
        }
    }
}

/// The application of a proposal.
pub struct ApplyRun {
    pub stage: ApplyStage,
    pub job_id: String,
    pub at: usize,
    pub proposal: Vec<ResolvedFile>,
    pub rebasing: bool,
    pub snapshot: ConflictSnapshot,
    pub files: Vec<ConflictFileContent>,
    pub continuing: ContinueRun,
    pub resolving: ResolveRun,
    pub testing: TestRun,
}

/// The state of the application.
#[verifier::ext_equal]
pub struct ApplyState {
    pub stage: ApplyStage,
    pub job_id: Seq<char>,
    pub at: nat,
    pub proposal: Seq<(Seq<char>, Seq<char>)>,
    pub rebasing: bool,
    pub snapshot: Conflicts,
    pub files: Seq<ConflictFileContent>,
    pub continuing: ContinueState,
    pub resolving: ResolveState,
    pub test_at: nat,
    pub test_output: Seq<char>,
}

impl View for ApplyRun {
    type V = ApplyState;

    open spec fn view(&self) -> ApplyState {
        ApplyState {
            stage: self.stage,
            job_id: self.job_id@,
            at: self.at as nat,
            proposal: crate::service::work::file_texts(self.proposal@),
            rebasing: self.rebasing,
            snapshot: self.snapshot@,
            files: self.files@,
            continuing: self.continuing@,
            resolving: self.resolving@,
            test_at: self.testing.at as nat,
            test_output: self.testing.output@,
        }
    }
}

/// An application of which nothing is done yet.
pub open spec fn apply_start(job_id: Seq<char>, proposal: Seq<(Seq<char>, Seq<char>)>) -> ApplyState {
    ApplyState {
        stage: ApplyStage::Done,
        job_id,
        at: 0,
        proposal,
        rebasing: false,
        snapshot: crate::service::work::no_conflicts(),
        files: Seq::empty(),
        continuing: crate::service::work::idle_continuing(),
        resolving: crate::service::work::idle_resolving(),
        test_at: 0,
        test_output: Seq::empty(),
    }
}

pub open spec fn apply_fits(s: ApplyState, event: ApplyEvent) -> bool {
    match s.stage {
        ApplyStage::Write => event is Written,
        ApplyStage::Capture | ApplyStage::Recapture => event is Captured,
        ApplyStage::Continuing => match s.continuing.stage {
            ContinueStage::Capture => event is Captured,
            ContinueStage::Ended => false,
            _ => event is Output,
        },
        ApplyStage::Resolving => match s.resolving.stage {
            ResolveStage::Model => event is Decision,
            ResolveStage::Write => event is Written,
            ResolveStage::Ended => false,
            _ => event is Output,
        },
        ApplyStage::Announce | ApplyStage::RecordPassed => event is Recorded,
        ApplyStage::Push => event is Pushed,
        ApplyStage::Done | ApplyStage::Failed => false,
        _ => event is Output,
    }
}

pub open spec fn apply_failing(s: ApplyState, words: Seq<char>) -> (ApplyState, Applying) {
    (ApplyState { stage: ApplyStage::Failed, ..s }, Applying::Fail(words))
}

pub open spec fn apply_tree(s: ApplyState, stage: ApplyStage, args: Seq<Seq<char>>) -> (
    ApplyState,
    Applying,
) {
    (ApplyState { stage, ..s }, Applying::Tree(args))
}

/// The file number `s.at` of the proposal is written; behind the last one the state of git is looked
/// at.
pub open spec fn apply_writing(s: ApplyState) -> (ApplyState, Applying) {
    if s.at >= s.proposal.len() {
        apply_tree(s, ApplyStage::RebaseHead, verify_args("REBASE_HEAD"@))
    } else if crate::git::leads_out(s.proposal[s.at as int].0) {
        apply_failing(s, "unsafe repository path: "@ + s.proposal[s.at as int].0)
    } else {
        (ApplyState { stage: ApplyStage::Write, ..s }, Applying::WriteFile(s.at))
    }
}

pub open spec fn verify_args(name: Seq<char>) -> Seq<Seq<char>> {
    seq!["rev-parse"@, "-q"@, "--verify"@, name]
}

/// The ending where git went no further without leaving a conflict.
pub open spec fn stuck_end(config: Config, branch: BranchConfig, job_id: Seq<char>, details: Seq<char>)
    -> Ended {
    Ended {
        state: "test_failed"@,
        summary: "继续同步失败，未检测到新的冲突文件"@,
        output: Some(details),
        kind: "sync"@,
        message: "候选修改已写入，但继续同步失败且没有新的冲突文件"@,
        notice: Some(
            (
                "sync_continue_failed"@,
                branch.name@ + " 继续同步失败"@,
                "候选修改已经写入隔离 worktree，但 git continue 没有产生新的冲突文件。\n\n"@ + details
                    + "\n\n"@ + crate::service::util::job_link(
                    config.service.public_dashboard_url@,
                    job_id,
                ),
            ),
        ),
        discard: false,
    }
}

/// The ending where a test failed.
pub open spec fn failed_end(branch: BranchConfig, words: Seq<char>) -> Ended {
    Ended {
        state: "test_failed"@,
        summary: "测试失败，等待继续指导"@,
        output: Some(words),
        kind: "test"@,
        message: "测试失败，任务已返回人工指导阶段"@,
        notice: Some(("test_failed"@, branch.name@ + " 测试失败"@, words)),
        discard: false,
    }
}

/// What is written down when the tests passed.
pub open spec fn passed_end(output: Seq<char>) -> Ended {
    Ended {
        state: "waiting_push"@,
        summary: "修改已应用且测试通过，正在自动推送"@,
        output: Some(output),
        kind: "state"@,
        message: "测试通过，开始自动推送"@,
        notice: None,
        discard: false,
    }
}

/// The ending where a further conflict waits for a decision.
pub open spec fn guide_end() -> Ended {
    Ended {
        state: "waiting_guidance"@,
        summary: "后续冲突自动处理未完成，等待人工指导"@,
        output: None,
        kind: "conflict"@,
        message: "DeepSeek 已根据新指导更新方案"@,
        notice: None,
        discard: false,
    }
}

/// The message with which the model is asked for ways out of a further conflict.
pub open spec fn guide_message() -> Seq<char> {
    "继续同步时出现了下一组冲突，低风险自动处理未能完成，请重新分析。"@
}

/// What is told where the push came to nothing. The state was set by the push itself, where it began
/// at all.
pub open spec fn push_failed(config: Config, branch: BranchConfig, job_id: Seq<char>, words: Seq<char>)
    -> Applying {
    Applying::Tell(
        "push"@,
        "自动推送失败，等待管理员重试："@ + words,
        (
            "waiting_push"@,
            branch.name@ + " 自动推送失败"@,
            words + "\n\n"@ + crate::service::util::job_link(
                config.service.public_dashboard_url@,
                job_id,
            ),
        ),
    )
}

pub open spec fn apply_ending(s: ApplyState, ending: Ended) -> (ApplyState, Applying) {
    (ApplyState { stage: ApplyStage::Done, ..s }, Applying::End(ending))
}

/// The proposal is applied: the tests begin.
pub open spec fn apply_testing(s: ApplyState, branch: BranchConfig) -> (ApplyState, Applying) {
    apply_tested(
        ApplyState { test_at: 0, test_output: Seq::empty(), ..s },
        branch,
        crate::service::work::tests_begin(branch),
    )
}

/// The tests go on, are over, or failed.
pub open spec fn apply_tested(s: ApplyState, branch: BranchConfig, doing: Testing) -> (
    ApplyState,
    Applying,
) {
    match doing {
        Testing::Test(command) => (
            ApplyState { stage: ApplyStage::Testing, ..s },
            Applying::Test(command),
        ),
        Testing::Passed => (
            ApplyState { stage: ApplyStage::RecordPassed, ..s },
            Applying::RecordPassed(passed_end(s.test_output)),
        ),
        Testing::Failed(words) => apply_ending(s, failed_end(branch, words)),
    }
}

/// The model goes on, is done, or is not asked.
pub open spec fn apply_resolved(s: ApplyState, doing: Resolving) -> (ApplyState, Applying) {
    match doing {
        Resolving::AskModel => (
            ApplyState { stage: ApplyStage::Resolving, ..s },
            Applying::AskModel,
        ),
        Resolving::WriteFile(i) => (
            ApplyState { stage: ApplyStage::Resolving, ..s },
            Applying::WriteResolved(i),
        ),
        Resolving::Git(args) => apply_tree(s, ApplyStage::Resolving, args),
        Resolving::Resolved => (
            ApplyState { stage: ApplyStage::Announce, ..s },
            Applying::Announce,
        ),
        _ => (ApplyState { stage: ApplyStage::Recapture, ..s }, Applying::Capture),
    }
}

/// A further conflict is met: the model is asked where the branch lets it.
pub open spec fn apply_resolving(s: ApplyState, branch: BranchConfig) -> (ApplyState, Applying) {
    let may = crate::service::work::may_resolve(branch, s.snapshot.files);
    apply_resolved(
        ApplyState {
            resolving: ResolveState {
                stage: if may {
                    ResolveStage::Model
                } else {
                    ResolveStage::Ended
                },
                at: 0,
                resolved: Seq::empty(),
            },
            ..s
        },
        if may {
            Resolving::AskModel
        } else {
            Resolving::Skipped
        },
    )
}

/// Git goes on with what it has resolved, or is done.
pub open spec fn apply_continued(s: ApplyState, config: Config, branch: BranchConfig, doing: Continuing) -> (
    ApplyState,
    Applying,
) {
    match doing {
        Continuing::Git(args) => apply_tree(s, ApplyStage::Continuing, args),
        Continuing::Capture => (
            ApplyState { stage: ApplyStage::Continuing, ..s },
            Applying::Capture,
        ),
        Continuing::Completed => apply_testing(s, branch),
        Continuing::Conflict => apply_resolving(
            ApplyState { snapshot: s.continuing.snapshot, files: s.continuing.files, ..s },
            branch,
        ),
        Continuing::Failed => apply_ending(
            s,
            stuck_end(config, branch, s.job_id, s.continuing.details),
        ),
        Continuing::Error(words) => apply_failing(s, words),
    }
}

/// The work on what git has resolved begins.
pub open spec fn apply_continue_begin(o: CommandOutput) -> ContinueState {
    ContinueState {
        stage: ContinueStage::Head,
        round: 0,
        details: crate::service::util::output_details(
            "继续同步失败，但没有检测到新的 Git 冲突文件"@,
            o,
        ),
        last_head: Seq::empty(),
        snapshot: Conflicts {
            status: Seq::empty(),
            files: Seq::empty(),
            combined_diff: Seq::empty(),
        },
        files: Seq::empty(),
    }
}

/// One step of the application.
pub open spec fn apply_step(s: ApplyState, config: Config, branch: BranchConfig, event: ApplyEvent) -> (
    ApplyState,
    Applying,
) {
    match (s.stage, event) {
        (ApplyStage::Write, ApplyEvent::Written(result)) => match result {
            Err(words) => apply_failing(s, words@),
            Ok(_) => apply_tree(s, ApplyStage::Add, seq!["add"@, s.proposal[s.at as int].0]),
        },
        (ApplyStage::Add, ApplyEvent::Output(o)) => if o.ok() {
            apply_writing(ApplyState { at: s.at + 1, ..s })
        } else {
            apply_failing(
                s,
                crate::git::failed_words(seq!["add"@, s.proposal[s.at as int].0], o),
            )
        },
        (ApplyStage::RebaseHead, ApplyEvent::Output(o)) => apply_tree(
            ApplyState { rebasing: o.ok(), ..s },
            ApplyStage::MergeHead,
            verify_args("MERGE_HEAD"@),
        ),
        (ApplyStage::MergeHead, ApplyEvent::Output(o)) => if s.rebasing || o.ok() {
            apply_tree(s, ApplyStage::Continue, crate::git::continue_args(branch.sync))
        } else {
            apply_tree(s, ApplyStage::Amend, seq!["commit"@, "--amend"@, "--no-edit"@])
        },
        (ApplyStage::Amend, ApplyEvent::Output(o)) => if o.ok() {
            apply_testing(s, branch)
        } else {
            apply_failing(s, "更新候选提交失败："@ + crate::strings::trimmed(o.stderr@))
        },
        (ApplyStage::Continue, ApplyEvent::Output(o)) => if o.ok() {
            apply_testing(s, branch)
        } else {
            (
                ApplyState {
                    stage: ApplyStage::Capture,
                    continuing: apply_continue_begin(o),
                    ..s
                },
                Applying::Capture,
            )
        },
        (ApplyStage::Capture, ApplyEvent::Captured(snapshot, files)) => {
            let s = ApplyState { snapshot: snapshot@, files: files@, ..s };
            if s.snapshot.files.len() == 0 {
                apply_tree(s, ApplyStage::Continuing, crate::sync::head_args())
            } else {
                apply_resolving(s, branch)
            }
        },
        (ApplyStage::Continuing, ApplyEvent::Output(o)) => {
            let next = crate::service::work::continue_step(
                s.continuing,
                branch.sync,
                ContinueEvent::Output(o),
            );
            apply_continued(ApplyState { continuing: next.0, ..s }, config, branch, next.1)
        },
        (ApplyStage::Continuing, ApplyEvent::Captured(snapshot, files)) => {
            let next = crate::service::work::continue_step(
                s.continuing,
                branch.sync,
                ContinueEvent::Captured(snapshot, files),
            );
            apply_continued(ApplyState { continuing: next.0, ..s }, config, branch, next.1)
        },
        (ApplyStage::Resolving, ApplyEvent::Decision(decision)) => {
            let next = crate::service::work::resolve_step(
                s.resolving,
                branch.sync,
                s.files,
                s.snapshot.files,
                ResolveEvent::Decision(decision),
            );
            apply_resolved(ApplyState { resolving: next.0, ..s }, next.1)
        },
        (ApplyStage::Resolving, ApplyEvent::Written(result)) => {
            let next = crate::service::work::resolve_step(
                s.resolving,
                branch.sync,
                s.files,
                s.snapshot.files,
                ResolveEvent::Written(result),
            );
            apply_resolved(ApplyState { resolving: next.0, ..s }, next.1)
        },
        (ApplyStage::Resolving, ApplyEvent::Output(o)) => {
            let next = crate::service::work::resolve_step(
                s.resolving,
                branch.sync,
                s.files,
                s.snapshot.files,
                ResolveEvent::Output(o),
            );
            apply_resolved(ApplyState { resolving: next.0, ..s }, next.1)
        },
        (ApplyStage::Recapture, ApplyEvent::Captured(snapshot, files)) => {
            let s = ApplyState { snapshot: snapshot@, files: files@, ..s };
            if s.snapshot.files.len() == 0 {
                apply_failing(s, "后续自动处理未完成，但没有检测到剩余冲突文件"@)
            } else {
                (
                    ApplyState { stage: ApplyStage::Done, ..s },
                    Applying::Guide(guide_end(), guide_message()),
                )
            }
        },
        (ApplyStage::Announce, ApplyEvent::Recorded) => apply_testing(s, branch),
        (ApplyStage::Testing, ApplyEvent::Output(o)) => apply_tested(
            ApplyState {
                test_output: s.test_output + crate::service::work::test_text(
                    branch.tests@[s.test_at as int]@,
                    o,
                ),
                test_at: if crate::service::work::tests_step(branch, s.test_at, o) is Test {
                    s.test_at + 1
                } else {
                    s.test_at
                },
                ..s
            },
            branch,
            crate::service::work::tests_step(branch, s.test_at, o),
        ),
        (ApplyStage::RecordPassed, ApplyEvent::Recorded) => (
            ApplyState { stage: ApplyStage::Push, ..s },
            Applying::Push,
        ),
        (ApplyStage::Push, ApplyEvent::Pushed(result)) => match result {
            Ok(_) => (ApplyState { stage: ApplyStage::Done, ..s }, Applying::Finished),
            Err(words) => (
                ApplyState { stage: ApplyStage::Done, ..s },
                push_failed(config, branch, s.job_id, words@),
            ),
        },
        _ => apply_failing(s, Seq::empty()),
    }
}

/// What the guard is asked about before an action. A change that is written down as passed may be
/// pushed from then on.
pub open spec fn apply_deed(doing: Applying) -> Option<Deed> {
    match doing {
        Applying::Test(_) => Some(Deed::Test),
        Applying::RecordPassed(_) => Some(Deed::Push),
        Applying::Push => Some(Deed::Push),
        _ => None,
    }
}

impl ApplyAction {
    /// What the guard is to be asked about before the action.
    pub fn deed(&self) -> (r: Option<Deed>)
        ensures
            r == apply_deed(self@),
    {
        match self {
            ApplyAction::Test(_) => Some(Deed::Test),
            ApplyAction::RecordPassed(_) => Some(Deed::Push),
            ApplyAction::Push => Some(Deed::Push),
            _ => None,
        }
    }
}

impl ApplyRun {
    /// The pieces of work fit the proposal and the branch.
    pub open spec fn wf(self, branch: BranchConfig) -> bool {
        &&& self.continuing.round < 20
        &&& self.resolving.wf()
        &&& self.stage is Write || self.stage is Add ==> self.at < self.proposal@.len()
        &&& self.stage is Testing ==> self.testing.at < branch.tests@.len()
    }

    /// Begins to apply a proposal.
    pub fn execute_apply(job_id: &str, proposal: Vec<ResolvedFile>) -> (r: (ApplyRun, ApplyAction))
        ensures
            (r.0@, r.1@) == apply_writing(
                apply_start(job_id@, crate::service::work::file_texts(proposal@)),
            ),
            forall|branch: BranchConfig| #[trigger] r.0.wf(branch),
    {
        let mut run = ApplyRun {
            stage: ApplyStage::Done,
            job_id: owned(job_id),
            at: 0,
            proposal,
            rebasing: false,
            snapshot: ConflictSnapshot {
                status: String::new(),
                files: Vec::new(),
                combined_diff: String::new(),
            },
            files: Vec::new(),
            continuing: ContinueRun::idle(),
            resolving: ResolveRun { stage: ResolveStage::Ended, at: 0, resolved: Vec::new() },
            testing: TestRun { at: 0, output: String::new() },
        };
        assert(run@ =~~= apply_start(job_id@, crate::service::work::file_texts(proposal@)));
        let action = run.write_next();
        (run, action)
    }

    fn fail(&mut self, words: String) -> (r: ApplyAction)
        ensures
            final(self)@ == apply_failing(old(self)@, words@).0,
            r@ == apply_failing(old(self)@, words@).1,
            final(self).continuing == old(self).continuing,
            final(self).resolving == old(self).resolving,
            final(self).proposal == old(self).proposal,
            final(self).stage is Failed,
    {
        self.stage = ApplyStage::Failed;
        ApplyAction::Fail(words)
    }

    fn tree(&mut self, stage: ApplyStage, args: Vec<String>) -> (r: ApplyAction)
        ensures
            final(self)@ == apply_tree(old(self)@, stage, crate::strings::views(args@)).0,
            r@ == apply_tree(old(self)@, stage, crate::strings::views(args@)).1,
            final(self).continuing == old(self).continuing,
            final(self).resolving == old(self).resolving,
            final(self).testing == old(self).testing,
            final(self).proposal == old(self).proposal,
            final(self).at == old(self).at,
            final(self).stage == stage,
    {
        self.stage = stage;
        ApplyAction::Tree(args)
    }

    fn end(&mut self, ending: JobEnding) -> (r: ApplyAction)
        ensures
            final(self)@ == apply_ending(old(self)@, ending@).0,
            r@ == apply_ending(old(self)@, ending@).1,
            final(self).continuing == old(self).continuing,
            final(self).resolving == old(self).resolving,
            final(self).stage is Done,
    {
        self.stage = ApplyStage::Done;
        ApplyAction::End(ending)
    }

    fn write_next(&mut self) -> (r: ApplyAction)
        requires
            old(self).continuing.round < 20,
            old(self).resolving.wf(),
        ensures
            final(self)@ == apply_writing(old(self)@).0,
            r@ == apply_writing(old(self)@).1,
            forall|branch: BranchConfig| #[trigger] final(self).wf(branch),
    {
        if self.at >= self.proposal.len() {
            return self.tree(ApplyStage::RebaseHead, verify_command("REBASE_HEAD"));
        }
        match ensure_relative_repo_path(self.proposal[self.at].path.as_str()) {
            Err(words) => self.fail(words),
            Ok(()) => {
                self.stage = ApplyStage::Write;
                ApplyAction::WriteFile(self.at)
            },
        }
    }

    fn after_test(&mut self, branch: &BranchConfig, action: TestAction) -> (r: ApplyAction)
        requires
            old(self).continuing.round < 20,
            old(self).resolving.wf(),
            action is Test ==> old(self).testing.at < branch.tests@.len(),
        ensures
            final(self)@ == apply_tested(old(self)@, *branch, action@).0,
            r@ == apply_tested(old(self)@, *branch, action@).1,
            final(self).wf(*branch),
    {
        match action {
            TestAction::Test(command) => {
                self.stage = ApplyStage::Testing;
                ApplyAction::Test(command)
            },
            TestAction::Passed => {
                self.stage = ApplyStage::RecordPassed;
                ApplyAction::RecordPassed(passed_ending(self.testing.output.clone()))
            },
            TestAction::Failed(words) => self.end(failed_ending(branch, words)),
        }
    }

    fn begin_tests(&mut self, branch: &BranchConfig) -> (r: ApplyAction)
        requires
            old(self).continuing.round < 20,
            old(self).resolving.wf(),
        ensures
            final(self)@ == apply_testing(old(self)@, *branch).0,
            r@ == apply_testing(old(self)@, *branch).1,
            final(self).wf(*branch),
    {
        let (testing, action) = TestRun::run_tests(branch);
        self.testing = testing;
        assert(self.testing.output@ =~= Seq::empty());
        self.after_test(branch, action)
    }

    fn after_resolve(&mut self, branch: &BranchConfig, action: ResolveAction) -> (r: ApplyAction)
        requires
            old(self).continuing.round < 20,
            old(self).resolving.wf(),
        ensures
            final(self)@ == apply_resolved(old(self)@, action@).0,
            r@ == apply_resolved(old(self)@, action@).1,
            final(self).wf(*branch),
    {
        match action {
            ResolveAction::AskModel => {
                self.stage = ApplyStage::Resolving;
                ApplyAction::AskModel
            },
            ResolveAction::WriteFile(i) => {
                self.stage = ApplyStage::Resolving;
                ApplyAction::WriteResolved(i)
            },
            ResolveAction::Git(args) => self.tree(ApplyStage::Resolving, args),
            ResolveAction::Resolved => {
                self.stage = ApplyStage::Announce;
                ApplyAction::Announce
            },
            _ => {
                self.stage = ApplyStage::Recapture;
                ApplyAction::Capture
            },
        }
    }

    /// A further conflict: the model is asked first, where the branch lets it.
    fn try_auto_resolve_followup(&mut self, branch: &BranchConfig) -> (r: ApplyAction)
        requires
            old(self).continuing.round < 20,
        ensures
            final(self)@ == apply_resolving(old(self)@, *branch).0,
            r@ == apply_resolving(old(self)@, *branch).1,
            final(self).wf(*branch),
    {
        let (resolving, action) = ResolveRun::try_low_risk_auto_resolve(branch, &self.snapshot.files);
        self.resolving = resolving;
        self.after_resolve(branch, action)
    }

    fn after_continue(&mut self, config: &Config, branch: &BranchConfig, action: ContinueAction) -> (r:
        ApplyAction)
        requires
            old(self).continuing.round < 20,
            old(self).resolving.wf(),
        ensures
            final(self)@ == apply_continued(old(self)@, *config, *branch, action@).0,
            r@ == apply_continued(old(self)@, *config, *branch, action@).1,
            final(self).wf(*branch),
    {
        match action {
            ContinueAction::Git(args) => self.tree(ApplyStage::Continuing, args),
            ContinueAction::Capture => {
                self.stage = ApplyStage::Continuing;
                ApplyAction::Capture
            },
            ContinueAction::Completed => self.begin_tests(branch),
            ContinueAction::Conflict => {
                self.snapshot = copy_snapshot(&self.continuing.snapshot);
                self.files = copy_files(&self.continuing.files);
                self.try_auto_resolve_followup(branch)
            },
            ContinueAction::Failed => {
                let ending = stuck_ending(
                    config,
                    branch,
                    self.job_id.as_str(),
                    self.continuing.details.as_str(),
                );
                self.end(ending)
            },
            ContinueAction::Error(words) => self.fail(words),
        }
    }

    fn on_output(&mut self, config: &Config, branch: &BranchConfig, o: CommandOutput) -> (r: ApplyAction)
        requires
            old(self).wf(*branch),
            apply_fits(old(self)@, ApplyEvent::Output(o)),
        ensures
            final(self)@ == apply_step(old(self)@, *config, *branch, ApplyEvent::Output(o)).0,
            r@ == apply_step(old(self)@, *config, *branch, ApplyEvent::Output(o)).1,
            final(self).wf(*branch),
    {
        let git = Git { root: String::new() };
        match self.stage {
            ApplyStage::Add => {
                let path = self.proposal[self.at].path.as_str();
                let args = git.add_file(path);
                match git_checked(&args, &o) {
                    Err(words) => self.fail(words),
                    Ok(()) => {
                        let count: usize = self.proposal.len();
                        assert(self.at < count);
                        self.at = self.at + 1;
                        self.write_next()
                    },
                }
            },
            ApplyStage::RebaseHead => {
                self.rebasing = o.success();
                self.tree(ApplyStage::MergeHead, verify_command("MERGE_HEAD"))
            },
            ApplyStage::MergeHead => if self.rebasing || o.success() {
                self.tree(ApplyStage::Continue, git.continue_sync(branch.sync))
            } else {
                let args = ["commit", "--amend", "--no-edit"];
                assert(crate::strings::str_views(args@) =~= seq![
                    "commit"@,
                    "--amend"@,
                    "--no-edit"@,
                ]);
                self.tree(ApplyStage::Amend, list_of(&args))
            },
            ApplyStage::Amend => if o.success() {
                self.begin_tests(branch)
            } else {
                self.fail(owned("更新候选提交失败：").concat(trim(o.stderr.as_str()).as_str()))
            },
            ApplyStage::Continue => if o.success() {
                self.begin_tests(branch)
            } else {
                self.continuing = ContinueRun::continue_autoresolved_sync(
                    "继续同步失败，但没有检测到新的 Git 冲突文件",
                    &o,
                ).0;
                self.stage = ApplyStage::Capture;
                ApplyAction::Capture
            },
            ApplyStage::Continuing => {
                let action = self.continuing.step(branch.sync, ContinueEvent::Output(o));
                self.after_continue(config, branch, action)
            },
            ApplyStage::Resolving => {
                let action = self.resolving.step(
                    branch.sync,
                    &self.files,
                    &self.snapshot.files,
                    ResolveEvent::Output(o),
                );
                self.after_resolve(branch, action)
            },
            _ => {
                let action = self.testing.step(branch, &o);
                self.after_test(branch, action)
            },
        }
    }

    /// Takes note of what came of the last action, and says what to do next.
    pub fn step(&mut self, config: &Config, branch: &BranchConfig, event: ApplyEvent) -> (r: ApplyAction)
        requires
            old(self).wf(*branch),
            apply_fits(old(self)@, event),
        ensures
            final(self)@ == apply_step(old(self)@, *config, *branch, event).0,
            r@ == apply_step(old(self)@, *config, *branch, event).1,
            final(self).wf(*branch),
    {
        let git = Git { root: String::new() };
        match event {
            ApplyEvent::Output(o) => self.on_output(config, branch, o),
            ApplyEvent::Written(result) => match self.stage {
                ApplyStage::Write => match result {
                    Err(words) => self.fail(words),
                    Ok(()) => {
                        let args = git.add_file(self.proposal[self.at].path.as_str());
                        self.tree(ApplyStage::Add, args)
                    },
                },
                _ => {
                    let action = self.resolving.step(
                        branch.sync,
                        &self.files,
                        &self.snapshot.files,
                        ResolveEvent::Written(result),
                    );
                    self.after_resolve(branch, action)
                },
            },
            ApplyEvent::Captured(snapshot, files) => match self.stage {
                ApplyStage::Capture => {
                    self.snapshot = snapshot;
                    self.files = files;
                    if self.snapshot.files.len() == 0 {
                        self.tree(ApplyStage::Continuing, git.head())
                    } else {
                        self.try_auto_resolve_followup(branch)
                    }
                },
                ApplyStage::Continuing => {
                    let action = self.continuing.step(
                        branch.sync,
                        ContinueEvent::Captured(snapshot, files),
                    );
                    self.after_continue(config, branch, action)
                },
                _ => {
                    self.snapshot = snapshot;
                    self.files = files;
                    if self.snapshot.files.len() == 0 {
                        self.fail(owned("后续自动处理未完成，但没有检测到剩余冲突文件"))
                    } else {
                        self.stage = ApplyStage::Done;
                        ApplyAction::Guide(
                            guide_ending(),
                            owned(
                                "继续同步时出现了下一组冲突，低风险自动处理未能完成，请重新分析。",
                            ),
                        )
                    }
                },
            },
            ApplyEvent::Decision(decision) => {
                let action = self.resolving.step(
                    branch.sync,
                    &self.files,
                    &self.snapshot.files,
                    ResolveEvent::Decision(decision),
                );
                self.after_resolve(branch, action)
            },
            ApplyEvent::Recorded => match self.stage {
                ApplyStage::Announce => self.begin_tests(branch),
                _ => {
                    self.stage = ApplyStage::Push;
                    ApplyAction::Push
                },
            },
            ApplyEvent::Pushed(result) => match result {
                Ok(()) => {
                    self.stage = ApplyStage::Done;
                    ApplyAction::Finished
                },
                Err(words) => {
                    self.stage = ApplyStage::Done;
                    tell_push_failed(config, branch, self.job_id.as_str(), words)
                },
            },
        }
    }
}

fn verify_command(name: &str) -> (r: Vec<String>)
    ensures
        crate::strings::views(r@) == verify_args(name@),
{
    let args = ["rev-parse", "-q", "--verify", name];
    assert(crate::strings::str_views(args@) =~= verify_args(name@));
    list_of(&args)
}

fn stuck_ending(config: &Config, branch: &BranchConfig, job_id: &str, details: &str) -> (r: JobEnding)
    ensures
        r@ == stuck_end(*config, *branch, job_id@, details@),
{
    JobEnding {
        state: "test_failed",
        summary: owned("继续同步失败，未检测到新的冲突文件"),
        output: Some(owned(details)),
        kind: "sync",
        message: owned("候选修改已写入，但继续同步失败且没有新的冲突文件"),
        notice: Some(
            JobNotice {
                event: "sync_continue_failed",
                subject: owned(branch.name.as_str()).concat(" 继续同步失败"),
                body: owned(
                    "候选修改已经写入隔离 worktree，但 git continue 没有产生新的冲突文件。\n\n",
                ).concat(details).concat("\n\n").concat(dashboard_link(config, job_id).as_str()),
            },
        ),
        discard: false,
    }
}

fn failed_ending(branch: &BranchConfig, words: String) -> (r: JobEnding)
    ensures
        r@ == failed_end(*branch, words@),
{
    JobEnding {
        state: "test_failed",
        summary: owned("测试失败，等待继续指导"),
        output: Some(words.clone()),
        kind: "test",
        message: owned("测试失败，任务已返回人工指导阶段"),
        notice: Some(
            JobNotice {
                event: "test_failed",
                subject: owned(branch.name.as_str()).concat(" 测试失败"),
                body: words,
            },
        ),
        discard: false,
    }
}

fn passed_ending(output: String) -> (r: JobEnding)
    ensures
        r@ == passed_end(output@),
{
    JobEnding {
        state: "waiting_push",
        summary: owned("修改已应用且测试通过，正在自动推送"),
        output: Some(output),
        kind: "state",
        message: owned("测试通过，开始自动推送"),
        notice: None,
        discard: false,
    }
}

fn guide_ending() -> (r: JobEnding)
    ensures
        r@ == guide_end(),
{
    JobEnding {
        state: "waiting_guidance",
        summary: owned("后续冲突自动处理未完成，等待人工指导"),
        output: None,
        kind: "conflict",
        message: owned("DeepSeek 已根据新指导更新方案"),
        notice: None,
        discard: false,
    }
}

fn tell_push_failed(config: &Config, branch: &BranchConfig, job_id: &str, words: String) -> (r: ApplyAction)
    ensures
        r@ == push_failed(*config, *branch, job_id@, words@),
{
    ApplyAction::Tell(
        "push",
        owned("自动推送失败，等待管理员重试：").concat(words.as_str()),
        JobNotice {
            event: "waiting_push",
            subject: owned(branch.name.as_str()).concat(" 自动推送失败"),
            body: owned(words.as_str()).concat("\n\n").concat(
                dashboard_link(config, job_id).as_str(),
            ),
        },
    )
}

} // verus!
