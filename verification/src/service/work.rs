//! The pieces of work that the jobs of the service share.
use crate::command::CommandOutput;
use crate::config::{BranchConfig, PushStrategy, RepoConfig, SyncStrategy};
use crate::conflict::{resolve_conflict_files, ResolvedFile};
use crate::git::{
    ensure_relative_repo_path, git_checked, read_found, read_remote_head, ConflictFileContent,
    ConflictSnapshot, Conflicts, Git,
};
use crate::llm::AutoResolveDecision;
use crate::service::util::{command_output_details, validate_files};
use crate::strings::{byte_len, eq_ignore_case, list_of, owned, same, trim};
use crate::sync::path_is_allowed;
use vstd::prelude::*;

verus! {

/// What the work on what git has resolved from its memory waits for.
#[derive(Debug, Clone, Copy, PartialEq, Eq, Structural)]
pub enum ContinueStage {
    Head,
    Staged,
    Continue,
    Capture,
    HeadAgain,
    Ended,
}

/// What came of the last action.
#[derive(Debug)]
pub enum ContinueEvent {
    Output(CommandOutput),
    Captured(ConflictSnapshot, Vec<ConflictFileContent>),
}

/// What the caller is to do next, or what came of it all.
#[derive(Debug)]
pub enum ContinueAction {
    Git(Vec<String>),
    /// Gather the state of the conflict and the files in conflict.
    Capture,
    Completed,
    Conflict,
    Failed,
    Error(String),
}

/// What an action is.
#[verifier::ext_equal]
pub enum Continuing {
    Git(Seq<Seq<char>>),
    Capture,
    Completed,
    Conflict,
    Failed,
    Error(Seq<char>),
}

impl View for ContinueAction {
    type V = Continuing;

    open spec fn view(&self) -> Continuing {
        match *self {
            ContinueAction::Git(args) => Continuing::Git(crate::strings::views(args@)),
            ContinueAction::Capture => Continuing::Capture,
            ContinueAction::Completed => Continuing::Completed,
            ContinueAction::Conflict => Continuing::Conflict,
            ContinueAction::Failed => Continuing::Failed,
            ContinueAction::Error(words) => Continuing::Error(words@),
        }
    }
}

/// Goes on with what git has resolved from its memory, again and again.
pub struct ContinueRun {
    pub stage: ContinueStage,
    pub round: usize,
    pub details: String,
    pub last_head: String,
    pub snapshot: ConflictSnapshot,
    pub files: Vec<ConflictFileContent>,
}

/// The state of the work.
#[verifier::ext_equal]
pub struct ContinueState {
    pub stage: ContinueStage,
    pub round: nat,
    pub details: Seq<char>,
    pub last_head: Seq<char>,
    pub snapshot: Conflicts,
    pub files: Seq<ConflictFileContent>,
}

impl View for ContinueRun {
    type V = ContinueState;

    open spec fn view(&self) -> ContinueState {
        ContinueState {
            stage: self.stage,
            round: self.round as nat,
            details: self.details@,
            last_head: self.last_head@,
            snapshot: self.snapshot@,
            files: self.files@,
        }
    }
}

pub open spec fn continue_fits(stage: ContinueStage, event: ContinueEvent) -> bool {
    match stage {
        ContinueStage::Capture => event is Captured,
        ContinueStage::Ended => false,
        _ => event is Output,
    }
}

pub open spec fn continue_ended(s: ContinueState, outcome: Continuing) -> (ContinueState, Continuing) {
    (ContinueState { stage: ContinueStage::Ended, ..s }, outcome)
}

pub open spec fn continue_asking(s: ContinueState, stage: ContinueStage, args: Seq<Seq<char>>) -> (
    ContinueState,
    Continuing,
) {
    (ContinueState { stage, ..s }, Continuing::Git(args))
}

/// One step of the work.
pub open spec fn continue_step(s: ContinueState, strategy: SyncStrategy, event: ContinueEvent) -> (
    ContinueState,
    Continuing,
) {
    match (s.stage, event) {
        (ContinueStage::Head, ContinueEvent::Output(o)) => continue_asking(
            ContinueState {
                last_head: match crate::git::found(o) {
                    Some(head) => head,
                    None => Seq::empty(),
                },
                round: 0,
                ..s
            },
            ContinueStage::Staged,
            crate::sync::staged_args(),
        ),
        (ContinueStage::Staged, ContinueEvent::Output(o)) => if o.status == 0 {
            continue_ended(s, Continuing::Failed)
        } else if o.status == 1 {
            continue_asking(s, ContinueStage::Continue, crate::git::continue_args(strategy))
        } else {
            continue_ended(
                s,
                Continuing::Error("检查暂存区失败："@ + crate::strings::trimmed(o.stderr@)),
            )
        },
        (ContinueStage::Continue, ContinueEvent::Output(o)) => if o.ok() {
            continue_ended(s, Continuing::Completed)
        } else {
            (
                ContinueState {
                    stage: ContinueStage::Capture,
                    details: s.details + "\n\n--- git continue ---\n"@
                        + crate::service::util::output_details(
                        "Git 已有暂存解决结果，但继续同步仍未完成"@,
                        o,
                    ),
                    ..s
                },
                Continuing::Capture,
            )
        },
        (ContinueStage::Capture, ContinueEvent::Captured(snapshot, files)) => {
            let s = ContinueState { snapshot: snapshot@, files: files@, ..s };
            if s.snapshot.files.len() > 0 {
                continue_ended(s, Continuing::Conflict)
            } else {
                continue_asking(s, ContinueStage::HeadAgain, crate::sync::head_args())
            }
        },
        (ContinueStage::HeadAgain, ContinueEvent::Output(o)) => {
            let current = match crate::git::found(o) {
                Some(head) => head,
                None => Seq::empty(),
            };
            if current == s.last_head {
                continue_ended(
                    ContinueState {
                        details: s.details
                            + "\n\nGit continue 没有产生新冲突，也没有推进 HEAD，已停止重试。"@,
                        ..s
                    },
                    Continuing::Failed,
                )
            } else if s.round + 1 < 20 {
                continue_asking(
                    ContinueState { last_head: current, round: s.round + 1, ..s },
                    ContinueStage::Staged,
                    crate::sync::staged_args(),
                )
            } else {
                continue_ended(
                    ContinueState {
                        last_head: current,
                        details: s.details + "\n\n自动继续次数超过 20 次，已停止。"@,
                        ..s
                    },
                    Continuing::Failed,
                )
            }
        },
        _ => continue_ended(s, Continuing::Error(Seq::empty())),
    }
}

fn head_command() -> (r: Vec<String>)
    ensures
        crate::strings::views(r@) == crate::sync::head_args(),
{
    Git { root: String::new() }.head()
}

fn staged_command() -> (r: Vec<String>)
    ensures
        crate::strings::views(r@) == crate::sync::staged_args(),
{
    Git { root: String::new() }.staged_changes()
}

fn continue_command(strategy: SyncStrategy) -> (r: Vec<String>)
    ensures
        crate::strings::views(r@) == crate::git::continue_args(strategy),
{
    Git { root: String::new() }.continue_sync(strategy)
}

fn empty_snapshot() -> (r: ConflictSnapshot)
    ensures
        r@ == (Conflicts {
            status: Seq::empty(),
            files: Seq::empty(),
            combined_diff: Seq::empty(),
        }),
{
    let r = ConflictSnapshot {
        status: String::new(),
        files: Vec::new(),
        combined_diff: String::new(),
    };
    assert(r@.files =~= Seq::empty());
    r
}

/// No conflict.
pub open spec fn no_conflicts() -> Conflicts {
    Conflicts { status: Seq::empty(), files: Seq::empty(), combined_diff: Seq::empty() }
}

/// Work on what git has resolved that has not begun.
pub open spec fn idle_continuing() -> ContinueState {
    ContinueState {
        stage: ContinueStage::Ended,
        round: 0,
        details: Seq::empty(),
        last_head: Seq::empty(),
        snapshot: no_conflicts(),
        files: Seq::empty(),
    }
}

/// Work of the model that has not begun.
pub open spec fn idle_resolving() -> ResolveState {
    ResolveState { stage: ResolveStage::Ended, at: 0, resolved: Seq::empty() }
}

/// A push that has not begun.
pub open spec fn idle_pushing() -> PushState {
    PushState {
        stage: PushStage::Ended,
        expected: Seq::empty(),
        require_lease: false,
        candidate: Seq::empty(),
    }
}

impl ContinueRun {
    /// The work before it begins.
    pub fn idle() -> (r: ContinueRun)
        ensures
            r@ == idle_continuing(),
            r.round == 0,
    {
        ContinueRun {
            stage: ContinueStage::Ended,
            round: 0,
            details: String::new(),
            last_head: String::new(),
            snapshot: empty_snapshot(),
            files: Vec::new(),
        }
    }

    /// Begins, after a command that failed without leaving a conflict.
    pub fn continue_autoresolved_sync(action: &str, first_output: &CommandOutput) -> (r: (
        ContinueRun,
        ContinueAction,
    ))
        ensures
            r.0@ == (ContinueState {
                stage: ContinueStage::Head,
                round: 0,
                details: crate::service::util::output_details(action@, *first_output),
                last_head: Seq::empty(),
                snapshot: Conflicts {
                    status: Seq::empty(),
                    files: Seq::empty(),
                    combined_diff: Seq::empty(),
                },
                files: Seq::empty(),
            }),
            r.1@ == Continuing::Git(crate::sync::head_args()),
    {
        let run = ContinueRun {
            stage: ContinueStage::Head,
            round: 0,
            details: command_output_details(action, first_output),
            last_head: String::new(),
            snapshot: empty_snapshot(),
            files: Vec::new(),
        };
        (run, ContinueAction::Git(head_command()))
    }

    pub fn step(&mut self, strategy: SyncStrategy, event: ContinueEvent) -> (r: ContinueAction)
        requires
            continue_fits(old(self).stage, event),
            old(self).round < 20,
        ensures
            final(self)@ == continue_step(old(self)@, strategy, event).0,
            r@ == continue_step(old(self)@, strategy, event).1,
            final(self).round < 20,
    {
        match event {
            ContinueEvent::Captured(snapshot, files) => {
                self.snapshot = snapshot;
                self.files = files;
                if self.snapshot.files.len() > 0 {
                    self.stage = ContinueStage::Ended;
                    ContinueAction::Conflict
                } else {
                    self.stage = ContinueStage::HeadAgain;
                    ContinueAction::Git(head_command())
                }
            },
            ContinueEvent::Output(o) => match self.stage {
                ContinueStage::Head => {
                    self.last_head = match read_found(&o) {
                        Some(head) => head,
                        None => String::new(),
                    };
                    self.round = 0;
                    self.stage = ContinueStage::Staged;
                    ContinueAction::Git(staged_command())
                },
                ContinueStage::Staged => if o.status == 0 {
                    self.stage = ContinueStage::Ended;
                    ContinueAction::Failed
                } else if o.status == 1 {
                    self.stage = ContinueStage::Continue;
                    ContinueAction::Git(continue_command(strategy))
                } else {
                    self.stage = ContinueStage::Ended;
                    ContinueAction::Error(
                        owned("检查暂存区失败：").concat(trim(o.stderr.as_str()).as_str()),
                    )
                },
                ContinueStage::Continue => if o.success() {
                    self.stage = ContinueStage::Ended;
                    ContinueAction::Completed
                } else {
                    self.stage = ContinueStage::Capture;
                    self.details.append("\n\n--- git continue ---\n");
                    self.details.append(
                        command_output_details(
                            "Git 已有暂存解决结果，但继续同步仍未完成",
                            &o,
                        ).as_str(),
                    );
                    ContinueAction::Capture
                },
                _ => {
                    let current = match read_found(&o) {
                        Some(head) => head,
                        None => String::new(),
                    };
                    if same(current.as_str(), self.last_head.as_str()) {
                        self.details.append(
                            "\n\nGit continue 没有产生新冲突，也没有推进 HEAD，已停止重试。",
                        );
                        self.stage = ContinueStage::Ended;
                        ContinueAction::Failed
                    } else if self.round + 1 < 20 {
                        self.last_head = current;
                        self.round = self.round + 1;
                        self.stage = ContinueStage::Staged;
                        ContinueAction::Git(staged_command())
                    } else {
                        self.last_head = current;
                        self.details.append("\n\n自动继续次数超过 20 次，已停止。");
                        self.stage = ContinueStage::Ended;
                        ContinueAction::Failed
                    }
                },
            },
        }
    }
}

/// What the resolution of a conflict of low risk waits for.
#[derive(Debug, Clone, Copy, PartialEq, Eq, Structural)]
pub enum ResolveStage {
    Model,
    Write,
    Add,
    Continue,
    Ended,
}

/// What came of the last action.
#[derive(Debug)]
pub enum ResolveEvent {
    Decision(Result<Option<AutoResolveDecision>, String>),
    Written(Result<(), String>),
    Output(CommandOutput),
}

/// What the caller is to do next, or what came of it all.
#[derive(Debug)]
pub enum ResolveAction {
    AskModel,
    WriteFile(usize),
    Git(Vec<String>),
    /// Nothing was tried.
    Skipped,
    Resolved,
    Unresolved,
    Error(String),
}

/// What an action is.
#[verifier::ext_equal]
pub enum Resolving {
    AskModel,
    WriteFile(nat),
    Git(Seq<Seq<char>>),
    Skipped,
    Resolved,
    Unresolved,
    Error(Seq<char>),
}

impl View for ResolveAction {
    type V = Resolving;

    open spec fn view(&self) -> Resolving {
        match *self {
            ResolveAction::AskModel => Resolving::AskModel,
            ResolveAction::WriteFile(i) => Resolving::WriteFile(i as nat),
            ResolveAction::Git(args) => Resolving::Git(crate::strings::views(args@)),
            ResolveAction::Skipped => Resolving::Skipped,
            ResolveAction::Resolved => Resolving::Resolved,
            ResolveAction::Unresolved => Resolving::Unresolved,
            ResolveAction::Error(words) => Resolving::Error(words@),
        }
    }
}

/// The resolution of a conflict of low risk.
pub struct ResolveRun {
    pub stage: ResolveStage,
    pub at: usize,
    pub resolved: Vec<ResolvedFile>,
}

/// The state of the resolution.
#[verifier::ext_equal]
pub struct ResolveState {
    pub stage: ResolveStage,
    pub at: nat,
    pub resolved: Seq<(Seq<char>, Seq<char>)>,
}

/// The files as text.
pub open spec fn file_texts(files: Seq<ResolvedFile>) -> Seq<(Seq<char>, Seq<char>)> {
    Seq::new(files.len(), |i: int| (files[i].path@, files[i].content@))
}

impl View for ResolveRun {
    type V = ResolveState;

    open spec fn view(&self) -> ResolveState {
        ResolveState {
            stage: self.stage,
            at: self.at as nat,
            resolved: file_texts(self.resolved@),
        }
    }
}

/// The branch lets the model resolve these conflicts.
pub open spec fn may_resolve(branch: BranchConfig, conflict_files: Seq<Seq<char>>) -> bool {
    let allowed = crate::strings::views(branch.auto_resolve.allowed_paths@);
    &&& branch.auto_resolve.enabled
    &&& allowed.len() > 0
    &&& conflict_files.len() <= branch.auto_resolve.max_conflict_files
    &&& forall|i: int|
        0 <= i < conflict_files.len() ==> crate::sync::allowed_path(
            #[trigger] conflict_files[i],
            allowed,
        )
}

/// Whether the branch lets the model resolve these conflicts.
pub fn can_resolve(branch: &BranchConfig, conflict_files: &Vec<String>) -> (r: bool)
    ensures
        r == may_resolve(*branch, crate::strings::views(conflict_files@)),
{
    let auto = &branch.auto_resolve;
    if !auto.enabled || auto.allowed_paths.len() == 0 || conflict_files.len()
        > auto.max_conflict_files {
        return false;
    }
    let ghost names = crate::strings::views(conflict_files@);
    let ghost allowed = crate::strings::views(branch.auto_resolve.allowed_paths@);
    let mut i: usize = 0;
    while i < conflict_files.len()
        invariant
            i <= conflict_files@.len(),
            names == crate::strings::views(conflict_files@),
            allowed == crate::strings::views(branch.auto_resolve.allowed_paths@),
            auto == &branch.auto_resolve,
            forall|k: int| 0 <= k < i ==> crate::sync::allowed_path(#[trigger] names[k], allowed),
        decreases conflict_files@.len() - i,
    {
        assert(names[i as int] == conflict_files@[i as int]@);
        if !path_is_allowed(conflict_files[i].as_str(), &auto.allowed_paths) {
            return false;
        }
        i += 1;
    }
    true
}

pub open spec fn resolve_fits(stage: ResolveStage, event: ResolveEvent) -> bool {
    match stage {
        ResolveStage::Model => event is Decision,
        ResolveStage::Write => event is Written,
        ResolveStage::Add | ResolveStage::Continue => event is Output,
        ResolveStage::Ended => false,
    }
}

pub open spec fn resolve_ended(s: ResolveState, outcome: Resolving) -> (ResolveState, Resolving) {
    (ResolveState { stage: ResolveStage::Ended, ..s }, outcome)
}

/// The file number `s.at` is written.
pub open spec fn resolve_writing(s: ResolveState) -> (ResolveState, Resolving) {
    let path = s.resolved[s.at as int].0;
    if crate::git::leads_out(path) {
        resolve_ended(s, Resolving::Error("unsafe repository path: "@ + path))
    } else {
        (ResolveState { stage: ResolveStage::Write, ..s }, Resolving::WriteFile(s.at))
    }
}

/// The files that a decision makes of the files in conflict, where it is of low risk and touches
/// nothing but the conflicts.
pub open spec fn accepted_files(
    decision: AutoResolveDecision,
    files: Seq<ConflictFileContent>,
    conflict_files: Seq<Seq<char>>,
) -> Option<Seq<(Seq<char>, Seq<char>)>> {
    if !crate::strings::same_ignoring_case(decision.risk@, "low"@) {
        None
    } else {
        match crate::conflict::resolved(files, decision.resolutions@) {
            Err(_) => None,
            Ok(texts) => {
                let result = Seq::new(files.len(), |i: int| (files[i].path@, texts[i]));
                if crate::service::util::file_texts_fault(result, conflict_files) is Some {
                    None
                } else {
                    Some(result)
                }
            },
        }
    }
}

/// One step of the resolution.
pub open spec fn resolve_step(
    s: ResolveState,
    strategy: SyncStrategy,
    files: Seq<ConflictFileContent>,
    conflict_files: Seq<Seq<char>>,
    event: ResolveEvent,
) -> (ResolveState, Resolving) {
    match (s.stage, event) {
        (ResolveStage::Model, ResolveEvent::Decision(decision)) => match decision {
            Err(words) => resolve_ended(s, Resolving::Error(words@)),
            Ok(None) => resolve_ended(s, Resolving::Skipped),
            Ok(Some(decision)) => match accepted_files(decision, files, conflict_files) {
                None => resolve_ended(s, Resolving::Unresolved),
                Some(texts) => resolve_writing(ResolveState { at: 0, resolved: texts, ..s }),
            },
        },
        (ResolveStage::Write, ResolveEvent::Written(result)) => match result {
            Err(words) => resolve_ended(s, Resolving::Error(words@)),
            Ok(_) => (
                ResolveState { stage: ResolveStage::Add, ..s },
                Resolving::Git(seq!["add"@, s.resolved[s.at as int].0]),
            ),
        },
        (ResolveStage::Add, ResolveEvent::Output(o)) => if !o.ok() {
            resolve_ended(
                s,
                Resolving::Error(
                    crate::git::failed_words(seq!["add"@, s.resolved[s.at as int].0], o),
                ),
            )
        } else if s.at + 1 < s.resolved.len() {
            resolve_writing(ResolveState { at: s.at + 1, ..s })
        } else {
            (
                ResolveState { stage: ResolveStage::Continue, ..s },
                Resolving::Git(crate::git::continue_args(strategy)),
            )
        },
        (ResolveStage::Continue, ResolveEvent::Output(o)) => resolve_ended(
            s,
            if o.ok() {
                Resolving::Resolved
            } else {
                Resolving::Unresolved
            },
        ),
        _ => resolve_ended(s, Resolving::Error(Seq::empty())),
    }
}

impl ResolveRun {
    /// A file is there where one is written or staged.
    pub open spec fn wf(self) -> bool {
        self.stage is Write || self.stage is Add ==> self.at < self.resolved@.len()
    }

    /// Begins, where the branch lets the model resolve these conflicts.
    pub fn try_low_risk_auto_resolve(branch: &BranchConfig, conflict_files: &Vec<String>) -> (r: (
        ResolveRun,
        ResolveAction,
    ))
        ensures
            r.0.wf(),
            r.0@ == (ResolveState {
                stage: if may_resolve(*branch, crate::strings::views(conflict_files@)) {
                    ResolveStage::Model
                } else {
                    ResolveStage::Ended
                },
                at: 0,
                resolved: Seq::empty(),
            }),
            r.1@ == (if may_resolve(*branch, crate::strings::views(conflict_files@)) {
                Resolving::AskModel
            } else {
                Resolving::Skipped
            }),
    {
        let mut run = ResolveRun { stage: ResolveStage::Ended, at: 0, resolved: Vec::new() };
        assert(run@.resolved =~= Seq::empty());
        if can_resolve(branch, conflict_files) {
            run.stage = ResolveStage::Model;
            (run, ResolveAction::AskModel)
        } else {
            (run, ResolveAction::Skipped)
        }
    }

    fn write_next(&mut self) -> (r: ResolveAction)
        requires
            old(self).at < old(self).resolved@.len(),
        ensures
            final(self)@ == resolve_writing(old(self)@).0,
            r@ == resolve_writing(old(self)@).1,
            final(self).wf(),
    {
        match ensure_relative_repo_path(self.resolved[self.at].path.as_str()) {
            Err(words) => {
                self.stage = ResolveStage::Ended;
                ResolveAction::Error(words)
            },
            Ok(()) => {
                self.stage = ResolveStage::Write;
                ResolveAction::WriteFile(self.at)
            },
        }
    }

    fn take(
        &mut self,
        decision: AutoResolveDecision,
        files: &Vec<ConflictFileContent>,
        conflict_files: &Vec<String>,
    ) -> (r: ResolveAction)
        ensures
            ({
                let accepted = accepted_files(
                    decision,
                    files@,
                    crate::strings::views(conflict_files@),
                );
                let s = old(self)@;
                let next = match accepted {
                    None => resolve_ended(s, Resolving::Unresolved),
                    Some(texts) => resolve_writing(ResolveState { at: 0, resolved: texts, ..s }),
                };
                &&& final(self)@ == next.0
                &&& r@ == next.1
                &&& final(self).wf()
            }),
    {
        if !eq_ignore_case(decision.risk.as_str(), "low") {
            self.stage = ResolveStage::Ended;
            return ResolveAction::Unresolved;
        }
        match resolve_conflict_files(files.as_slice(), decision.resolutions.as_slice()) {
            Err(_) => {
                self.stage = ResolveStage::Ended;
                ResolveAction::Unresolved
            },
            Ok(result) => {
                let ghost texts = crate::conflict::resolved(files@, decision.resolutions@)->Ok_0;
                assert(file_texts(result@) =~= Seq::new(
                    files@.len(),
                    |i: int| (files@[i].path@, texts[i]),
                ));
                match validate_files(&result, conflict_files) {
                    Err(_) => {
                        self.stage = ResolveStage::Ended;
                        ResolveAction::Unresolved
                    },
                    Ok(()) => {
                        self.at = 0;
                        self.resolved = result;
                        self.write_next()
                    },
                }
            },
        }
    }

    pub fn step(
        &mut self,
        strategy: SyncStrategy,
        files: &Vec<ConflictFileContent>,
        conflict_files: &Vec<String>,
        event: ResolveEvent,
    ) -> (r: ResolveAction)
        requires
            old(self).wf(),
            resolve_fits(old(self).stage, event),
        ensures
            final(self)@ == resolve_step(
                old(self)@,
                strategy,
                files@,
                crate::strings::views(conflict_files@),
                event,
            ).0,
            r@ == resolve_step(
                old(self)@,
                strategy,
                files@,
                crate::strings::views(conflict_files@),
                event,
            ).1,
            final(self).wf(),
    {
        match event {
            ResolveEvent::Decision(decision) => match decision {
                Err(words) => {
                    self.stage = ResolveStage::Ended;
                    ResolveAction::Error(words)
                },
                Ok(None) => {
                    self.stage = ResolveStage::Ended;
                    ResolveAction::Skipped
                },
                Ok(Some(decision)) => self.take(decision, files, conflict_files),
            },
            ResolveEvent::Written(result) => match result {
                Err(words) => {
                    self.stage = ResolveStage::Ended;
                    ResolveAction::Error(words)
                },
                Ok(()) => {
                    let path = self.resolved[self.at].path.as_str();
                    let args = ["add", path];
                    assert(crate::strings::str_views(args@) =~= seq!["add"@, path@]);
                    let args = list_of(&args);
                    self.stage = ResolveStage::Add;
                    ResolveAction::Git(args)
                },
            },
            ResolveEvent::Output(o) => match self.stage {
                ResolveStage::Add => {
                    let path = self.resolved[self.at].path.as_str();
                    let args = ["add", path];
                    assert(crate::strings::str_views(args@) =~= seq!["add"@, path@]);
                    match git_checked(&list_of(&args), &o) {
                        Err(words) => {
                            self.stage = ResolveStage::Ended;
                            ResolveAction::Error(words)
                        },
                        Ok(()) => {
                            let count: usize = self.resolved.len();
                            if self.at + 1 < count {
                                self.at = self.at + 1;
                                self.write_next()
                            } else {
                                self.stage = ResolveStage::Continue;
                                ResolveAction::Git(continue_command(strategy))
                            }
                        },
                    }
                },
                _ => {
                    self.stage = ResolveStage::Ended;
                    if o.success() {
                        ResolveAction::Resolved
                    } else {
                        ResolveAction::Unresolved
                    }
                },
            },
        }
    }
}

/// The tests of a branch, one after the other.
pub struct TestRun {
    pub at: usize,
    pub output: String,
}

/// What the caller is to do next, or what came of the tests.
#[derive(Debug)]
pub enum TestAction {
    Test(String),
    Passed,
    Failed(String),
}

/// What an action is.
#[verifier::ext_equal]
pub enum Testing {
    Test(Seq<char>),
    Passed,
    Failed(Seq<char>),
}

impl View for TestAction {
    type V = Testing;

    open spec fn view(&self) -> Testing {
        match *self {
            TestAction::Test(command) => Testing::Test(command@),
            TestAction::Passed => Testing::Passed,
            TestAction::Failed(words) => Testing::Failed(words@),
        }
    }
}

/// How the tests begin.
pub open spec fn tests_begin(branch: BranchConfig) -> Testing {
    if branch.tests@.len() > 0 {
        Testing::Test(branch.tests@[0]@)
    } else if branch.auto_resolve.require_tests {
        Testing::Failed("该分支要求测试，但未配置测试命令"@)
    } else {
        Testing::Passed
    }
}

/// What a test adds to the output.
pub open spec fn test_text(command: Seq<char>, o: CommandOutput) -> Seq<char> {
    "$ "@ + command + "\n"@ + o.stdout@ + "\n"@ + o.stderr@ + "\n"@
}

/// What follows test number `at`.
pub open spec fn tests_step(branch: BranchConfig, at: nat, o: CommandOutput) -> Testing {
    if !o.ok() {
        Testing::Failed(
            "测试失败："@ + branch.tests@[at as int]@ + "\n"@ + crate::strings::trimmed(o.stderr@),
        )
    } else if at + 1 < branch.tests@.len() {
        Testing::Test(branch.tests@[at as int + 1]@)
    } else {
        Testing::Passed
    }
}

impl TestRun {
    pub fn run_tests(branch: &BranchConfig) -> (r: (TestRun, TestAction))
        ensures
            r.0.at == 0,
            r.0.output@.len() == 0,
            r.1@ == tests_begin(*branch),
    {
        let run = TestRun { at: 0, output: String::new() };
        if branch.tests.len() > 0 {
            (run, TestAction::Test(branch.tests[0].clone()))
        } else if branch.auto_resolve.require_tests {
            (run, TestAction::Failed(owned("该分支要求测试，但未配置测试命令")))
        } else {
            (run, TestAction::Passed)
        }
    }

    pub fn step(&mut self, branch: &BranchConfig, o: &CommandOutput) -> (r: TestAction)
        requires
            old(self).at < branch.tests@.len(),
        ensures
            r@ == tests_step(*branch, old(self).at as nat, *o),
            final(self).output@ == old(self).output@ + test_text(
                branch.tests@[old(self).at as int]@,
                *o,
            ),
            r is Test ==> final(self).at == old(self).at + 1 && final(self).at < branch.tests@.len(),
            !(r is Test) ==> final(self).at == old(self).at,
    {
        let command = branch.tests[self.at].as_str();
        let text = owned("$ ").concat(command).concat("\n").concat(o.stdout.as_str()).concat("\n").concat(
            o.stderr.as_str(),
        ).concat("\n");
        self.output.append(text.as_str());
        if !o.success() {
            return TestAction::Failed(
                owned("测试失败：").concat(command).concat("\n").concat(
                    trim(o.stderr.as_str()).as_str(),
                ),
            );
        }
        let count: usize = branch.tests.len();
        if self.at + 1 < count {
            self.at = self.at + 1;
            TestAction::Test(branch.tests[self.at].clone())
        } else {
            TestAction::Passed
        }
    }
}

/// What the push of a job waits for.
#[derive(Debug, Clone, Copy, PartialEq, Eq, Structural)]
pub enum PushStage {
    Head,
    Fetch,
    RemoteHead,
    Push,
    /// The new commit of the remote branch is written down.
    Record,
    /// The tag of the release.
    Release,
    Ended,
}

/// What came of the last action.
#[derive(Debug)]
pub enum PushEvent {
    Output(CommandOutput),
    Recorded,
    Released(Result<Option<String>, String>),
}

/// What the caller is to do next, or what came of it all.
#[derive(Debug)]
pub enum PushAction {
    Git(Vec<String>),
    /// Write down that the remote branch has the commit of the candidate.
    Record,
    /// Set the tag of the release.
    Release,
    /// The branch is out, with this tag.
    Done(Option<String>),
    Fail(String),
}

/// What an action is.
#[verifier::ext_equal]
pub enum Pushing {
    Git(Seq<Seq<char>>),
    Record,
    Release,
    Done(Option<Seq<char>>),
    Fail(Seq<char>),
}

impl View for PushAction {
    type V = Pushing;

    open spec fn view(&self) -> Pushing {
        match *self {
            PushAction::Git(args) => Pushing::Git(crate::strings::views(args@)),
            PushAction::Record => Pushing::Record,
            PushAction::Release => Pushing::Release,
            PushAction::Done(tag) => Pushing::Done(crate::strings::opt_view(tag)),
            PushAction::Fail(words) => Pushing::Fail(words@),
        }
    }
}

/// The push of a job.
pub struct PushRun {
    pub stage: PushStage,
    /// The commit that the remote branch had when the job began, empty where it had none.
    pub expected: String,
    pub require_lease: bool,
    /// The commit that is to be pushed.
    pub candidate: String,
}

/// The state of the push.
#[verifier::ext_equal]
pub struct PushState {
    pub stage: PushStage,
    pub expected: Seq<char>,
    pub require_lease: bool,
    pub candidate: Seq<char>,
}

impl View for PushRun {
    type V = PushState;

    open spec fn view(&self) -> PushState {
        PushState {
            stage: self.stage,
            expected: self.expected@,
            require_lease: self.require_lease,
            candidate: self.candidate@,
        }
    }
}

pub open spec fn push_fits(stage: PushStage, event: PushEvent) -> bool {
    match stage {
        PushStage::Record => event is Recorded,
        PushStage::Release => event is Released,
        PushStage::Ended => false,
        _ => event is Output,
    }
}

pub open spec fn push_failing(s: PushState, words: Seq<char>) -> (PushState, Pushing) {
    (PushState { stage: PushStage::Ended, ..s }, Pushing::Fail(words))
}

/// How a commit of the remote branch is shown.
pub open spec fn shown_remote(head: Seq<char>) -> Seq<char> {
    if head.len() == 0 {
        "not found"@
    } else {
        head
    }
}

/// The arguments of the push.
pub open spec fn job_push_args(s: PushState, repo: RepoConfig, branch: BranchConfig) -> Seq<Seq<char>> {
    let refspec = "HEAD:refs/heads/"@ + branch.name@;
    if s.expected.len() == 0 {
        seq![
            "push"@,
            "--force-with-lease=refs/heads/"@ + branch.name@ + ":"@,
            repo.fork_remote@,
            refspec,
        ]
    } else if s.require_lease || branch.push == PushStrategy::ForceWithLease {
        seq![
            "push"@,
            "--force-with-lease=refs/heads/"@ + branch.name@ + ":"@ + s.expected,
            repo.fork_remote@,
            refspec,
        ]
    } else {
        seq!["push"@, repo.fork_remote@, refspec]
    }
}

/// One step of the push.
pub open spec fn push_step(s: PushState, repo: RepoConfig, branch: BranchConfig, event: PushEvent) -> (
    PushState,
    Pushing,
) {
    match (s.stage, event) {
        (PushStage::Head, PushEvent::Output(o)) => if o.ok() {
            (
                PushState {
                    stage: PushStage::Fetch,
                    candidate: crate::strings::trimmed(o.stdout@),
                    ..s
                },
                Pushing::Git(seq!["fetch"@, repo.fork_remote@, branch.name@]),
            )
        } else {
            push_failing(s, "无法读取候选提交："@ + o.stderr@)
        },
        (PushStage::Fetch, PushEvent::Output(o)) => if o.ok() {
            (
                PushState { stage: PushStage::RemoteHead, ..s },
                Pushing::Git(crate::sync::remote_head_args(repo, branch)),
            )
        } else {
            push_failing(
                s,
                crate::git::failed_words(seq!["fetch"@, repo.fork_remote@, branch.name@], o),
            )
        },
        (PushStage::RemoteHead, PushEvent::Output(o)) => if !o.ok() {
            push_failing(
                s,
                "failed to read remote head for "@ + repo.fork_remote@ + "/"@ + branch.name@,
            )
        } else {
            let current = match crate::git::first_word(o.stdout@) {
                Some(head) => head,
                None => Seq::empty(),
            };
            if current == s.candidate {
                (PushState { stage: PushStage::Record, ..s }, Pushing::Record)
            } else if current == s.expected {
                (
                    PushState { stage: PushStage::Push, ..s },
                    Pushing::Git(job_push_args(s, repo, branch)),
                )
            } else {
                push_failing(
                    s,
                    "远端分支已变化，拒绝推送。expected="@ + shown_remote(s.expected) + " current="@
                        + shown_remote(current),
                )
            }
        },
        (PushStage::Push, PushEvent::Output(o)) => if o.ok() {
            (PushState { stage: PushStage::Record, ..s }, Pushing::Record)
        } else {
            push_failing(s, "推送失败："@ + crate::strings::trimmed(o.stderr@))
        },
        (PushStage::Record, PushEvent::Recorded) => (
            PushState { stage: PushStage::Release, ..s },
            Pushing::Release,
        ),
        (PushStage::Release, PushEvent::Released(result)) => match result {
            Err(words) => push_failing(s, words@),
            Ok(tag) => (
                PushState { stage: PushStage::Ended, ..s },
                Pushing::Done(crate::strings::opt_view(tag)),
            ),
        },
        _ => push_failing(s, Seq::empty()),
    }
}

fn shown(head: &str) -> (r: String)
    ensures
        r@ == shown_remote(head@),
{
    proof {
        crate::text::lemma_no_bytes(head@);
    }
    if byte_len(head) == 0 {
        owned("not found")
    } else {
        owned(head)
    }
}

impl PushRun {
    /// Begins the push of a job.
    pub fn push_job(branch: &BranchConfig, remote_head: &str, require_lease: bool) -> (r: (
        PushRun,
        PushAction,
    ))
        ensures
            r.0@ == (PushState {
                stage: if branch.push == PushStrategy::Never {
                    PushStage::Ended
                } else {
                    PushStage::Head
                },
                expected: remote_head@,
                require_lease,
                candidate: Seq::empty(),
            }),
            r.1@ == (if branch.push == PushStrategy::Never {
                Pushing::Done(None)
            } else {
                Pushing::Git(seq!["rev-parse"@, "HEAD"@])
            }),
    {
        let mut run = PushRun {
            stage: PushStage::Ended,
            expected: owned(remote_head),
            require_lease,
            candidate: String::new(),
        };
        match branch.push {
            PushStrategy::Never => (run, PushAction::Done(None)),
            _ => {
                run.stage = PushStage::Head;
                let args = ["rev-parse", "HEAD"];
                assert(crate::strings::str_views(args@) =~= seq!["rev-parse"@, "HEAD"@]);
                (run, PushAction::Git(list_of(&args)))
            },
        }
    }

    fn fail(&mut self, words: String) -> (r: PushAction)
        ensures
            final(self)@ == push_failing(old(self)@, words@).0,
            r@ == push_failing(old(self)@, words@).1,
    {
        self.stage = PushStage::Ended;
        PushAction::Fail(words)
    }

    fn push_command(&self, repo: &RepoConfig, branch: &BranchConfig) -> (r: Vec<String>)
        ensures
            crate::strings::views(r@) == job_push_args(self@, *repo, *branch),
    {
        let git = Git { root: String::new() };
        proof {
            crate::text::lemma_no_bytes(self.expected@);
        }
        if byte_len(self.expected.as_str()) == 0 {
            return git.push_new_branch_with_lease(repo.fork_remote.as_str(), branch.name.as_str());
        }
        let forced = match branch.push {
            PushStrategy::ForceWithLease => true,
            _ => false,
        };
        if self.require_lease || forced {
            git.push_with_lease(
                repo.fork_remote.as_str(),
                branch.name.as_str(),
                self.expected.as_str(),
            )
        } else {
            let refspec = owned("HEAD:refs/heads/").concat(branch.name.as_str());
            let args = ["push", repo.fork_remote.as_str(), refspec.as_str()];
            assert(crate::strings::str_views(args@) =~= seq!["push"@, repo.fork_remote@, refspec@]);
            list_of(&args)
        }
    }

    pub fn step(&mut self, repo: &RepoConfig, branch: &BranchConfig, event: PushEvent) -> (r: PushAction)
        requires
            push_fits(old(self).stage, event),
        ensures
            final(self)@ == push_step(old(self)@, *repo, *branch, event).0,
            r@ == push_step(old(self)@, *repo, *branch, event).1,
    {
        let git = Git { root: String::new() };
        match event {
            PushEvent::Recorded => {
                self.stage = PushStage::Release;
                PushAction::Release
            },
            PushEvent::Released(result) => match result {
                Err(words) => self.fail(words),
                Ok(tag) => {
                    self.stage = PushStage::Ended;
                    PushAction::Done(tag)
                },
            },
            PushEvent::Output(o) => match self.stage {
                PushStage::Head => if o.success() {
                    self.stage = PushStage::Fetch;
                    self.candidate = trim(o.stdout.as_str());
                    PushAction::Git(
                        git.fetch_branch(repo.fork_remote.as_str(), branch.name.as_str()),
                    )
                } else {
                    self.fail(owned("无法读取候选提交：").concat(o.stderr.as_str()))
                },
                PushStage::Fetch => {
                    let args = git.fetch_branch(repo.fork_remote.as_str(), branch.name.as_str());
                    match git_checked(&args, &o) {
                        Err(words) => self.fail(words),
                        Ok(()) => {
                            self.stage = PushStage::RemoteHead;
                            PushAction::Git(
                                git.remote_head(repo.fork_remote.as_str(), branch.name.as_str()),
                            )
                        },
                    }
                },
                PushStage::RemoteHead => match read_remote_head(
                    repo.fork_remote.as_str(),
                    branch.name.as_str(),
                    &o,
                ) {
                    Err(words) => self.fail(words),
                    Ok(head) => {
                        let current = match head {
                            Some(head) => head,
                            None => String::new(),
                        };
                        if same(current.as_str(), self.candidate.as_str()) {
                            self.stage = PushStage::Record;
                            PushAction::Record
                        } else if same(current.as_str(), self.expected.as_str()) {
                            let args = self.push_command(repo, branch);
                            self.stage = PushStage::Push;
                            PushAction::Git(args)
                        } else {
                            let words = owned("远端分支已变化，拒绝推送。expected=").concat(
                                shown(self.expected.as_str()).as_str(),
                            ).concat(" current=").concat(shown(current.as_str()).as_str());
                            self.fail(words)
                        }
                    },
                },
                _ => if o.success() {
                    self.stage = PushStage::Record;
                    PushAction::Record
                } else {
                    self.fail(owned("推送失败：").concat(trim(o.stderr.as_str()).as_str()))
                },
            },
        }
    }
}

} // verus!
