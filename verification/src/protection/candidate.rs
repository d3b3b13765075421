//! The preparation of a candidate fix in a work tree of its own.
use crate::command::CommandOutput;
use crate::config::BranchConfig;
use crate::digest::digest_text;
use crate::paths::join_path;
use crate::protection::investigate::{
    configured_test_branch, validate_candidate_changes, FileFacts, SignalInvestigationDecision,
};
use crate::protection::model::{
    CandidateArtifact, CommitSecurityReviewBatch, EvaluatedSecurityReview, FixContract,
    SecurityDisposition, SecurityReviewDecision, VerificationResult,
};
use crate::protection::review::ensure_reviews_can_proceed;
use crate::strings::{copy_list, list_of, owned, trim};
use vstd::prelude::*;

verus! {

/// What the preparation waits for.
#[derive(Debug, Clone, Copy, PartialEq, Eq, Structural)]
pub enum CandidateStage {
    /// The commit to start from.
    Base,
    /// The new work tree.
    Worktree,
    /// The changed files.
    Write,
    /// The check of the changes for stray white space and markers.
    DiffCheck,
    /// The list of changed files.
    Status,
    /// The static scan of the work tree.
    Gate,
    /// The changes in the index.
    Index,
    /// The commit of the changes.
    Commit,
    /// The security review of the commit.
    Review,
    /// The tests, one after the other.
    Test,
    /// The contracts that the review asks to verify.
    Contracts,
    /// The new commit.
    Head,
    /// The contract that the message asks for.
    SignalContract,
    /// The patch.
    Patch,
    Done,
    Failed,
}

/// What came of the last action.
#[derive(Debug)]
pub enum CandidateEvent {
    Output(CommandOutput),
    Written,
    Scanned(Result<(), String>),
    Reviewed(Option<CommitSecurityReviewBatch>),
    Verified(Result<Vec<String>, String>),
    Patched(String),
}

/// What the caller is to do next.
#[derive(Debug)]
pub enum CandidateAction {
    Git(Vec<String>),
    WriteChanges,
    Scan,
    ReviewCommits,
    Test(String),
    VerifyContracts,
    VerifySignalContract,
    ReadPatch,
    Done,
    Fail(String),
}

/// What an action is.
#[verifier::ext_equal]
pub enum CandidateDoing {
    Git(Seq<Seq<char>>),
    WriteChanges,
    Scan,
    ReviewCommits,
    Test(Seq<char>),
    VerifyContracts,
    VerifySignalContract,
    ReadPatch,
    Done,
    Fail(Seq<char>),
}

impl View for CandidateAction {
    type V = CandidateDoing;

    open spec fn view(&self) -> CandidateDoing {
        match *self {
            CandidateAction::Git(args) => CandidateDoing::Git(crate::strings::views(args@)),
            CandidateAction::WriteChanges => CandidateDoing::WriteChanges,
            CandidateAction::Scan => CandidateDoing::Scan,
            CandidateAction::ReviewCommits => CandidateDoing::ReviewCommits,
            CandidateAction::Test(command) => CandidateDoing::Test(command@),
            CandidateAction::VerifyContracts => CandidateDoing::VerifyContracts,
            CandidateAction::VerifySignalContract => CandidateDoing::VerifySignalContract,
            CandidateAction::ReadPatch => CandidateDoing::ReadPatch,
            CandidateAction::Done => CandidateDoing::Done,
            CandidateAction::Fail(words) => CandidateDoing::Fail(words@),
        }
    }
}

/// The preparation of a candidate.
#[derive(Debug)]
pub struct CandidateRun {
    pub stage: CandidateStage,
    pub worktree: String,
    pub base: String,
    pub head: String,
    pub tests: Vec<String>,
    /// How many of the tests passed.
    pub tested: usize,
    pub test_output: String,
    /// What the verifier saw.
    pub evidence: Vec<String>,
    pub patch: String,
}

/// The place of a stage in the order of the stages.
pub open spec fn rank(stage: CandidateStage) -> int {
    match stage {
        CandidateStage::Base => 0,
        CandidateStage::Worktree => 1,
        CandidateStage::Write => 2,
        CandidateStage::DiffCheck => 3,
        CandidateStage::Status => 4,
        CandidateStage::Gate => 5,
        CandidateStage::Index => 6,
        CandidateStage::Commit => 7,
        CandidateStage::Review => 8,
        CandidateStage::Test => 9,
        CandidateStage::Contracts => 10,
        CandidateStage::Head => 11,
        CandidateStage::SignalContract => 12,
        CandidateStage::Patch => 13,
        CandidateStage::Done => 14,
        CandidateStage::Failed => 15,
    }
}

impl CandidateRun {
    pub open spec fn wf(self) -> bool {
        &&& self.tests@.len() > 0
        &&& self.stage is Test ==> self.tested < self.tests@.len()
        &&& self.tested <= self.tests@.len()
        &&& rank(self.stage) < rank(CandidateStage::Test) ==> self.tested == 0
        &&& rank(CandidateStage::Test) < rank(self.stage) <= rank(CandidateStage::Done) ==> self.tested
            == self.tests@.len()
    }

    /// What stays the same through the whole preparation.
    pub open spec fn same_plan(self, next: CandidateRun) -> bool {
        self.worktree == next.worktree && self.tests == next.tests
    }

    /// Nothing but the stage changes.
    pub open spec fn moved_to(self, next: CandidateRun, stage: CandidateStage) -> bool {
        next == (CandidateRun { stage, ..self })
    }
}

/// Why no candidate is prepared.
pub open spec fn plan_fault(
    branches: Seq<BranchConfig>,
    requested: Option<Seq<char>>,
    known: Seq<Seq<char>>,
    facts: Seq<FileFacts>,
    decision: SignalInvestigationDecision,
) -> Option<Seq<char>> {
    let changes = decision.changes@;
    let fault = crate::protection::investigate::changes_fault(
        known,
        changes,
        facts,
        changes.len() as int,
    );
    if changes.len() == 0 {
        Some("当前项目需要修复，但 DS 没有给出候选修改"@)
    } else if decision.review.fix_contract is None {
        Some("安全候选缺少 FixContract"@)
    } else if decision.review.fix_contract->0.regression_cases@.len() == 0 {
        Some("安全候选缺少回归用例"@)
    } else if fault is Some {
        fault
    } else {
        match crate::protection::investigate::test_branch(branches, requested) {
            None => Some(
                match requested {
                    Some(name) => "未配置候选测试分支："@ + name,
                    None => "未配置可用于安全候选的分支测试"@,
                },
            ),
            Some(i) => if branches[i].tests@.len() == 0 {
                Some("安全候选没有配置任何沙箱测试命令"@)
            } else if !branches[i].behavioral() {
                Some("安全候选至少需要一条行为测试命令"@)
            } else {
                None
            },
        }
    }
}

/// The directory of a candidate.
pub open spec fn candidate_dir(data_dir: Seq<char>, id: Seq<char>) -> Seq<char> {
    crate::paths::joined(crate::paths::joined(data_dir, "protection/worktrees"@), id)
}

pub fn candidate_directory(data_dir: &str, id: &str) -> (r: String)
    ensures
        r@ == candidate_dir(data_dir@, id@),
{
    join_path(join_path(data_dir, "protection/worktrees").as_str(), id)
}

/// Begins to prepare a candidate, where everything that it needs is there.
pub fn prepare_candidate(
    branches: &Vec<BranchConfig>,
    requested: Option<&str>,
    known: &Vec<String>,
    facts: &Vec<FileFacts>,
    decision: &SignalInvestigationDecision,
    data_dir: &str,
    candidate_id: &str,
) -> (r: Result<(CandidateRun, CandidateAction), String>)
    requires
        facts@.len() == decision.changes@.len(),
    ensures
        ({
            let fault = plan_fault(
                branches@,
                crate::strings::opt_str(requested),
                crate::strings::views(known@),
                facts@,
                *decision,
            );
            match r {
                Err(words) => fault == Some(words@),
                Ok((run, action)) => {
                    &&& fault is None
                    &&& run.wf()
                    &&& run.stage is Base
                    &&& run.tested == 0
                    &&& run.worktree@ == candidate_dir(data_dir@, candidate_id@)
                    &&& crate::strings::views(run.tests@) == crate::strings::views(
                        branches@[crate::protection::investigate::test_branch(
                            branches@,
                            crate::strings::opt_str(requested),
                        )->0].tests@,
                    )
                    &&& run.test_output@.len() == 0
                    &&& run.base@.len() == 0
                    &&& run.head@.len() == 0
                    &&& run.evidence@.len() == 0
                    &&& run.patch@.len() == 0
                    &&& action@ == CandidateDoing::Git(seq!["rev-parse"@, "HEAD"@])
                },
            }
        }),
{
    if decision.changes.len() == 0 {
        return Err(owned("当前项目需要修复，但 DS 没有给出候选修改"));
    }
    match &decision.review.fix_contract {
        None => {
            return Err(owned("安全候选缺少 FixContract"));
        },
        Some(contract) => {
            if contract.regression_cases.len() == 0 {
                return Err(owned("安全候选缺少回归用例"));
            }
        },
    }
    match validate_candidate_changes(known, &decision.changes, facts) {
        Err(words) => {
            return Err(words);
        },
        Ok(()) => {},
    }
    let branch = match configured_test_branch(branches, requested) {
        Err(words) => {
            return Err(words);
        },
        Ok(i) => i,
    };
    if branches[branch].tests.len() == 0 {
        return Err(owned("安全候选没有配置任何沙箱测试命令"));
    }
    if !branches[branch].has_behavioral_tests() {
        return Err(owned("安全候选至少需要一条行为测试命令"));
    }
    let tests = copy_list(&branches[branch].tests);
    let run = CandidateRun {
        stage: CandidateStage::Base,
        worktree: candidate_directory(data_dir, candidate_id),
        base: String::new(),
        head: String::new(),
        tests,
        tested: 0,
        test_output: String::new(),
        evidence: Vec::new(),
        patch: String::new(),
    };
    let args = ["rev-parse", "HEAD"];
    assert(crate::strings::str_views(args@) =~= seq!["rev-parse"@, "HEAD"@]);
    Ok((run, CandidateAction::Git(list_of(&args))))
}

/// The event is one that the stage waits for.
pub open spec fn fits(stage: CandidateStage, event: CandidateEvent) -> bool {
    match stage {
        CandidateStage::Base | CandidateStage::Worktree | CandidateStage::DiffCheck
        | CandidateStage::Status | CandidateStage::Index | CandidateStage::Commit
        | CandidateStage::Test | CandidateStage::Head => event is Output,
        CandidateStage::Write => event is Written,
        CandidateStage::Gate => event is Scanned,
        CandidateStage::Review => event is Reviewed,
        CandidateStage::Contracts | CandidateStage::SignalContract => event is Verified,
        CandidateStage::Patch => event is Patched,
        CandidateStage::Done | CandidateStage::Failed => false,
    }
}

/// The text that a test adds to the output of the tests.
pub open spec fn test_text(command: Seq<char>, output: CommandOutput) -> Seq<char> {
    "$ "@ + command + "\n"@ + output.stdout@ + "\n"@ + output.stderr@ + "\n"@
}

/// The commit of a candidate.
pub open spec fn commit_args() -> Seq<Seq<char>> {
    seq![
        "-c"@,
        "user.name=TermiteRS Candidate"@,
        "-c"@,
        "user.email=termiters@localhost"@,
        "commit"@,
        "-m"@,
        "security candidate"@,
    ]
}

/// The preparation stops with these words.
pub open spec fn failed(run: CandidateRun, next: CandidateRun, doing: CandidateDoing, words: Seq<char>)
    -> bool {
    run.moved_to(next, CandidateStage::Failed) && doing == CandidateDoing::Fail(words)
}

/// One step of the preparation. Whatever is not in order stops it.
pub open spec fn candidate_step(
    run: CandidateRun,
    event: CandidateEvent,
    next: CandidateRun,
    doing: CandidateDoing,
) -> bool {
    &&& run.same_plan(next)
    &&& match (run.stage, event) {
        (CandidateStage::Base, CandidateEvent::Output(o)) => {
            &&& next.base@ == crate::strings::trimmed(o.stdout@)
            &&& next == (CandidateRun { stage: CandidateStage::Worktree, base: next.base, ..run })
            &&& doing == CandidateDoing::Git(
                seq!["worktree"@, "add"@, "--detach"@, run.worktree@, next.base@],
            )
        },
        (CandidateStage::Worktree, CandidateEvent::Output(o)) => if o.ok() {
            run.moved_to(next, CandidateStage::Write) && doing == CandidateDoing::WriteChanges
        } else {
            failed(
                run,
                next,
                doing,
                "创建安全候选 worktree 失败："@ + crate::strings::trimmed(o.stderr@),
            )
        },
        (CandidateStage::Write, CandidateEvent::Written) => run.moved_to(
            next,
            CandidateStage::DiffCheck,
        ) && doing == CandidateDoing::Git(seq!["diff"@, "--check"@]),
        (CandidateStage::DiffCheck, CandidateEvent::Output(o)) => if o.ok() {
            run.moved_to(next, CandidateStage::Status) && doing == CandidateDoing::Git(
                seq!["status"@, "--porcelain"@],
            )
        } else {
            failed(
                run,
                next,
                doing,
                "安全候选格式检查失败："@ + crate::strings::trimmed(o.stderr@),
            )
        },
        (CandidateStage::Status, CandidateEvent::Output(o)) => if crate::strings::trimmed(
            o.stdout@,
        ).len() > 0 {
            run.moved_to(next, CandidateStage::Gate) && doing == CandidateDoing::Scan
        } else {
            failed(run, next, doing, "DS 候选没有产生文件修改"@)
        },
        (CandidateStage::Gate, CandidateEvent::Scanned(verdict)) => match verdict {
            Ok(_) => run.moved_to(next, CandidateStage::Index) && doing == CandidateDoing::Git(
                seq!["add"@, "--all"@],
            ),
            Err(words) => failed(run, next, doing, words@),
        },
        (CandidateStage::Index, CandidateEvent::Output(o)) => run.moved_to(
            next,
            CandidateStage::Commit,
        ) && doing == CandidateDoing::Git(commit_args()),
        (CandidateStage::Commit, CandidateEvent::Output(o)) => if o.ok() {
            run.moved_to(next, CandidateStage::Review) && doing == CandidateDoing::ReviewCommits
        } else {
            failed(run, next, doing, "提交隔离候选失败："@ + crate::strings::trimmed(o.stderr@))
        },
        (CandidateStage::Review, CandidateEvent::Reviewed(batch)) => match batch {
            None => failed(run, next, doing, "安全候选提交没有可审计差异"@),
            Some(batch) => match batch.disposition {
                crate::protection::model::SecurityDisposition::Allow => run.moved_to(
                    next,
                    CandidateStage::Test,
                ) && doing == CandidateDoing::Test(run.tests@[0]@),
                crate::protection::model::SecurityDisposition::VerifyRequired => failed(
                    run,
                    next,
                    doing,
                    crate::protection::review::ReviewError::VerificationPending.words(),
                ),
                crate::protection::model::SecurityDisposition::NeedsReview => failed(
                    run,
                    next,
                    doing,
                    crate::protection::review::ReviewError::ReviewPending.words(),
                ),
                crate::protection::model::SecurityDisposition::Block => failed(
                    run,
                    next,
                    doing,
                    crate::protection::review::ReviewError::Blocked.words(),
                ),
            },
        },
        (CandidateStage::Test, CandidateEvent::Output(o)) => {
            let command = run.tests@[run.tested as int]@;
            if o.ok() {
                &&& next.tested == run.tested + 1
                &&& next.test_output@ == run.test_output@ + test_text(command, o)
                &&& next == (CandidateRun {
                    stage: next.stage,
                    tested: next.tested,
                    test_output: next.test_output,
                    ..run
                })
                &&& if run.tested + 1 < run.tests@.len() {
                    next.stage is Test && doing == CandidateDoing::Test(
                        run.tests@[run.tested + 1]@,
                    )
                } else {
                    next.stage is Contracts && doing == CandidateDoing::VerifyContracts
                }
            } else {
                failed(
                    run,
                    next,
                    doing,
                    "安全候选沙箱测试失败："@ + command + "\n"@ + crate::strings::trimmed(o.stderr@),
                )
            }
        },
        (CandidateStage::Contracts, CandidateEvent::Verified(verdict)) => match verdict {
            Ok(_) => run.moved_to(next, CandidateStage::Head) && doing == CandidateDoing::Git(
                seq!["rev-parse"@, "HEAD"@],
            ),
            Err(words) => failed(run, next, doing, words@),
        },
        (CandidateStage::Head, CandidateEvent::Output(o)) => {
            &&& next.head@ == crate::strings::trimmed(o.stdout@)
            &&& next == (CandidateRun {
                stage: CandidateStage::SignalContract,
                head: next.head,
                ..run
            })
            &&& doing == CandidateDoing::VerifySignalContract
        },
        (CandidateStage::SignalContract, CandidateEvent::Verified(verdict)) => match verdict {
            Ok(evidence) => {
                &&& next == (CandidateRun { stage: CandidateStage::Patch, evidence, ..run })
                &&& doing == CandidateDoing::ReadPatch
            },
            Err(words) => failed(run, next, doing, words@),
        },
        (CandidateStage::Patch, CandidateEvent::Patched(patch)) => {
            &&& next == (CandidateRun { stage: CandidateStage::Done, patch, ..run })
            &&& doing == CandidateDoing::Done
        },
        _ => false,
    }
}

fn git(args: &[&str]) -> (r: CandidateAction)
    ensures
        r@ == CandidateDoing::Git(crate::strings::str_views(args@)),
{
    CandidateAction::Git(list_of(args))
}

impl CandidateRun {
    fn fail(&mut self, words: String) -> (r: CandidateAction)
        ensures
            old(self).moved_to(*final(self), CandidateStage::Failed),
            r@ == CandidateDoing::Fail(words@),
    {
        self.stage = CandidateStage::Failed;
        CandidateAction::Fail(words)
    }

    /// Takes what came of the last action, and says what comes next.
    pub fn step(&mut self, event: CandidateEvent) -> (r: CandidateAction)
        requires
            old(self).wf(),
            fits(old(self).stage, event),
        ensures
            final(self).wf(),
            candidate_step(*old(self), event, *final(self), r@),
    {
        match event {
            CandidateEvent::Output(o) => match self.stage {
                CandidateStage::Base => {
                    let base = trim(o.stdout.as_str());
                    let args = [
                        "worktree",
                        "add",
                        "--detach",
                        self.worktree.as_str(),
                        base.as_str(),
                    ];
                    assert(crate::strings::str_views(args@) =~= seq![
                        "worktree"@,
                        "add"@,
                        "--detach"@,
                        self.worktree@,
                        base@,
                    ]);
                    let action = git(&args);
                    self.base = base;
                    self.stage = CandidateStage::Worktree;
                    action
                },
                CandidateStage::Worktree => {
                    if o.success() {
                        self.stage = CandidateStage::Write;
                        CandidateAction::WriteChanges
                    } else {
                        self.fail(
                            owned("创建安全候选 worktree 失败：").concat(
                                trim(o.stderr.as_str()).as_str(),
                            ),
                        )
                    }
                },
                CandidateStage::DiffCheck => {
                    if o.success() {
                        self.stage = CandidateStage::Status;
                        let args = ["status", "--porcelain"];
                        assert(crate::strings::str_views(args@) =~= seq!["status"@, "--porcelain"@]);
                        git(&args)
                    } else {
                        self.fail(
                            owned("安全候选格式检查失败：").concat(
                                trim(o.stderr.as_str()).as_str(),
                            ),
                        )
                    }
                },
                CandidateStage::Status => {
                    if !trim(o.stdout.as_str()).as_str().is_empty() {
                        self.stage = CandidateStage::Gate;
                        CandidateAction::Scan
                    } else {
                        self.fail(owned("DS 候选没有产生文件修改"))
                    }
                },
                CandidateStage::Index => {
                    self.stage = CandidateStage::Commit;
                    let args = [
                        "-c",
                        "user.name=TermiteRS Candidate",
                        "-c",
                        "user.email=termiters@localhost",
                        "commit",
                        "-m",
                        "security candidate",
                    ];
                    assert(crate::strings::str_views(args@) =~= commit_args());
                    git(&args)
                },
                CandidateStage::Commit => {
                    if o.success() {
                        self.stage = CandidateStage::Review;
                        CandidateAction::ReviewCommits
                    } else {
                        self.fail(
                            owned("提交隔离候选失败：").concat(trim(o.stderr.as_str()).as_str()),
                        )
                    }
                },
                CandidateStage::Test => {
                    let command = self.tests[self.tested].clone();
                    if !o.success() {
                        return self.fail(
                            owned("安全候选沙箱测试失败：").concat(command.as_str()).concat(
                                "\n",
                            ).concat(trim(o.stderr.as_str()).as_str()),
                        );
                    }
                    let text = owned("$ ").concat(command.as_str()).concat("\n").concat(
                        o.stdout.as_str(),
                    ).concat("\n").concat(o.stderr.as_str()).concat("\n");
                    self.test_output.append(text.as_str());
                    let count: usize = self.tests.len();
                    self.tested = self.tested + 1;
                    if self.tested < count {
                        CandidateAction::Test(self.tests[self.tested].clone())
                    } else {
                        self.stage = CandidateStage::Contracts;
                        CandidateAction::VerifyContracts
                    }
                },
                _ => {
                    self.head = trim(o.stdout.as_str());
                    self.stage = CandidateStage::SignalContract;
                    CandidateAction::VerifySignalContract
                },
            },
            CandidateEvent::Written => {
                self.stage = CandidateStage::DiffCheck;
                let args = ["diff", "--check"];
                assert(crate::strings::str_views(args@) =~= seq!["diff"@, "--check"@]);
                git(&args)
            },
            CandidateEvent::Scanned(verdict) => match verdict {
                Ok(()) => {
                    self.stage = CandidateStage::Index;
                    let args = ["add", "--all"];
                    assert(crate::strings::str_views(args@) =~= seq!["add"@, "--all"@]);
                    git(&args)
                },
                Err(words) => self.fail(words),
            },
            CandidateEvent::Reviewed(batch) => match batch {
                None => self.fail(owned("安全候选提交没有可审计差异")),
                Some(batch) => match ensure_reviews_can_proceed(&batch) {
                    Ok(()) => {
                        self.stage = CandidateStage::Test;
                        CandidateAction::Test(self.tests[0].clone())
                    },
                    Err(error) => self.fail(error.message()),
                },
            },
            CandidateEvent::Verified(verdict) => match verdict {
                Err(words) => self.fail(words),
                Ok(evidence) => {
                    if matches!(self.stage, CandidateStage::Contracts) {
                        self.stage = CandidateStage::Head;
                        let args = ["rev-parse", "HEAD"];
                        assert(crate::strings::str_views(args@) =~= seq!["rev-parse"@, "HEAD"@]);
                        git(&args)
                    } else {
                        self.evidence = evidence;
                        self.stage = CandidateStage::Patch;
                        CandidateAction::ReadPatch
                    }
                },
            },
            CandidateEvent::Patched(patch) => {
                self.patch = patch;
                self.stage = CandidateStage::Done;
                CandidateAction::Done
            },
        }
    }
}

/// The steps of a preparation: each state with the event that it met.
pub type CandidateTrace = Seq<(CandidateRun, CandidateEvent)>;

/// The state after step `i`.
pub open spec fn state_after(trace: CandidateTrace, last: CandidateRun, i: int) -> CandidateRun {
    if i + 1 < trace.len() {
        trace[i + 1].0
    } else {
        last
    }
}

/// The trace begins at the beginning, and each of its steps is one of the preparation.
pub open spec fn is_trace(trace: CandidateTrace, last: CandidateRun) -> bool {
    &&& trace.len() > 0
    &&& trace[0].0.stage is Base
    &&& forall|i: int| 0 <= i < trace.len() ==> #[trigger] step_at(trace, last, i)
}

/// Step `i` of the trace is one of the preparation.
pub open spec fn step_at(trace: CandidateTrace, last: CandidateRun, i: int) -> bool {
    trace[i].0.wf() && stepped(trace[i], state_after(trace, last, i))
}

/// The state `next` comes after the step.
#[verifier::opaque]
pub open spec fn stepped(step: (CandidateRun, CandidateEvent), next: CandidateRun) -> bool {
    exists|doing: CandidateDoing| #[trigger] candidate_step(step.0, step.1, next, doing)
}

proof fn lemma_stepped(step: (CandidateRun, CandidateEvent), next: CandidateRun)
    requires
        stepped(step, next),
        step.0.wf(),
        rank(next.stage) <= rank(CandidateStage::Done),
    ensures
        rank(step.0.stage) <= rank(next.stage),
        step.0.tests == next.tests,
        rank(step.0.stage) <= rank(CandidateStage::Gate) < rank(next.stage) ==> passed_gate(step),
        rank(step.0.stage) <= rank(CandidateStage::Review) < rank(next.stage) ==> passed_review(step),
        next.tested == step.0.tested || (next.tested == step.0.tested + 1 && passed_test(
            step,
            step.0.tested as int,
        )),
        rank(step.0.stage) <= rank(CandidateStage::SignalContract) < rank(next.stage)
            ==> passed_contract(step),
{
    reveal(stepped);
    let doing = choose|doing: CandidateDoing| #[trigger]
        candidate_step(step.0, step.1, next, doing);
    assert(candidate_step(step.0, step.1, next, doing));
}

/// The static scan let the work tree through.
pub open spec fn passed_gate(step: (CandidateRun, CandidateEvent)) -> bool {
    step.0.stage is Gate && (step.1 matches CandidateEvent::Scanned(verdict) && verdict is Ok)
}

/// The review of the commit allowed it.
pub open spec fn passed_review(step: (CandidateRun, CandidateEvent)) -> bool {
    step.0.stage is Review && (step.1 matches CandidateEvent::Reviewed(batch) && (batch
        matches Some(b) && b.disposition is Allow))
}

/// Test number `k` succeeded.
pub open spec fn passed_test(step: (CandidateRun, CandidateEvent), k: int) -> bool {
    step.0.stage is Test && step.0.tested == k && (step.1 matches CandidateEvent::Output(o) && o.ok())
}

/// The contract of the message was verified.
pub open spec fn passed_contract(step: (CandidateRun, CandidateEvent)) -> bool {
    step.0.stage is SignalContract && (step.1 matches CandidateEvent::Verified(verdict) && verdict
        is Ok)
}

/// Test number `k` succeeded in one of the first `n` steps.
pub open spec fn test_passed_in(trace: CandidateTrace, n: int, k: int) -> bool {
    exists|i: int| 0 <= i < n && passed_test(#[trigger] trace[i], k)
}

/// What a state owes to the steps before it.
pub open spec fn owes(trace: CandidateTrace, run: CandidateRun, n: int) -> bool {
    let r = rank(run.stage);
    let live = r <= rank(CandidateStage::Done);
    &&& live && r > rank(CandidateStage::Gate) ==> exists|i: int|
        0 <= i < n && passed_gate(#[trigger] trace[i])
    &&& live && r > rank(CandidateStage::Review) ==> exists|i: int|
        0 <= i < n && passed_review(#[trigger] trace[i])
    &&& live ==> forall|k: int| 0 <= k < run.tested ==> #[trigger] test_passed_in(trace, n, k)
    &&& live && r > rank(CandidateStage::SignalContract) ==> exists|i: int|
        0 <= i < n && passed_contract(#[trigger] trace[i])
}

proof fn lemma_owes(trace: CandidateTrace, last: CandidateRun, n: int)
    requires
        is_trace(trace, last),
        0 <= n < trace.len(),
    ensures
        owes(trace, trace[n].0, n),
    decreases n,
{
    if n > 0 {
        lemma_owes(trace, last, n - 1);
        lemma_owes_step(trace, last, n - 1);
    } else {
        assert(step_at(trace, last, 0));
    }
}

proof fn lemma_owes_step(trace: CandidateTrace, last: CandidateRun, i: int)
    requires
        is_trace(trace, last),
        0 <= i < trace.len(),
        owes(trace, trace[i].0, i),
    ensures
        owes(trace, state_after(trace, last, i), i + 1),
{
    let before = trace[i].0;
    let next = state_after(trace, last, i);
    assert(step_at(trace, last, i));
    let r = rank(next.stage);
    let b = rank(before.stage);
    if r <= rank(CandidateStage::Done) {
        lemma_stepped(trace[i], next);
        if r > rank(CandidateStage::Gate) {
            if b > rank(CandidateStage::Gate) {
                let j = choose|j: int| 0 <= j < i && passed_gate(#[trigger] trace[j]);
                assert(passed_gate(trace[j]));
            } else {
                assert(passed_gate(trace[i]));
            }
        }
        if r > rank(CandidateStage::Review) {
            if b > rank(CandidateStage::Review) {
                let j = choose|j: int| 0 <= j < i && passed_review(#[trigger] trace[j]);
                assert(passed_review(trace[j]));
            } else {
                assert(passed_review(trace[i]));
            }
        }
        assert forall|k: int| 0 <= k < next.tested implies #[trigger] test_passed_in(
            trace,
            i + 1,
            k,
        ) by {
            if k < before.tested {
                assert(test_passed_in(trace, i, k));
                let j = choose|j: int| 0 <= j < i && passed_test(#[trigger] trace[j], k);
                assert(passed_test(trace[j], k));
            } else {
                assert(passed_test(trace[i], k));
            }
        }
        if r > rank(CandidateStage::SignalContract) {
            if b > rank(CandidateStage::SignalContract) {
                let j = choose|j: int| 0 <= j < i && passed_contract(#[trigger] trace[j]);
                assert(passed_contract(trace[j]));
            } else {
                assert(passed_contract(trace[i]));
            }
        }
    }
}

/// A candidate comes about only where the static scan let it through, the review allowed its commit,
/// every single test succeeded and the contract of the message was verified.
pub proof fn law_candidate_passed_every_check(trace: CandidateTrace, last: CandidateRun)
    requires
        is_trace(trace, last),
        last.wf(),
        last.stage is Done,
    ensures
        exists|i: int| 0 <= i < trace.len() && passed_gate(#[trigger] trace[i]),
        exists|i: int| 0 <= i < trace.len() && passed_review(#[trigger] trace[i]),
        forall|k: int|
            0 <= k < last.tests@.len() ==> #[trigger] test_passed_in(trace, trace.len() as int, k),
        exists|i: int| 0 <= i < trace.len() && passed_contract(#[trigger] trace[i]),
{
    let n = trace.len() as int;
    lemma_owes(trace, last, n - 1);
    lemma_owes_step(trace, last, n - 1);
}

/// The records of a candidate that passed every check.
pub fn passed_artifacts(
    run: &CandidateRun,
    finding_id: &str,
    candidate_id: &str,
    summary: &str,
    now: &str,
) -> (r: (CandidateArtifact, VerificationResult))
    ensures
        r.0.id@ == candidate_id@,
        r.0.finding_id@ == finding_id@,
        r.0.worktree_path@ == run.worktree@,
        r.0.content_sha256@ == crate::digest::text_digest(run.patch@),
        r.0.summary@ == summary@,
        r.0.created_at@ == now@,
        r.1.id@ == "verification-"@ + candidate_id@,
        r.1.candidate_id@ == candidate_id@,
        r.1.verifier@ == "static-gate+sandbox-tests+commit-review+fix-contract"@,
        r.1.passed == (run.stage is Done),
        r.1.summary@ == "候选通过静态门禁、沙箱测试、逐提交审计和独立安全契约验证"@,
        r.1.evidence@ == run.evidence@,
        r.1.created_at@ == now@,
{
    (
        CandidateArtifact {
            id: owned(candidate_id),
            finding_id: owned(finding_id),
            worktree_path: run.worktree.clone(),
            content_sha256: digest_text(run.patch.as_str()),
            summary: owned(summary),
            created_at: owned(now),
        },
        VerificationResult {
            id: owned("verification-").concat(candidate_id),
            candidate_id: owned(candidate_id),
            verifier: owned("static-gate+sandbox-tests+commit-review+fix-contract"),
            passed: matches!(run.stage, CandidateStage::Done),
            summary: owned("候选通过静态门禁、沙箱测试、逐提交审计和独立安全契约验证"),
            evidence: copy_list(&run.evidence),
            created_at: owned(now),
        },
    )
}

/// The call that shows what a failed candidate holds: its commit where there is one, else the changes
/// in its work tree. `subject` is that of the last commit, where there is a work tree.
pub fn failed_patch_args(subject: &Option<String>) -> (r: Vec<String>)
    ensures
        crate::strings::views(r@) == (if crate::strings::opt_view(*subject) == Some(
            "security candidate"@,
        ) {
            seq!["show"@, "--format="@, "--patch"@, "HEAD"@]
        } else {
            seq!["diff"@, "--patch"@, "HEAD"@]
        }),
{
    let committed: bool = match subject {
        Some(s) => crate::strings::same(s.as_str(), "security candidate"),
        None => false,
    };
    if committed {
        let args = ["show", "--format=", "--patch", "HEAD"];
        assert(crate::strings::str_views(args@) =~= seq!["show"@, "--format="@, "--patch"@, "HEAD"@]);
        list_of(&args)
    } else {
        let args = ["diff", "--patch", "HEAD"];
        assert(crate::strings::str_views(args@) =~= seq!["diff"@, "--patch"@, "HEAD"@]);
        list_of(&args)
    }
}

/// The batch through which the contract of the message itself is verified on the candidate: its one
/// commit, read as a fix under that contract, which is never let through unverified.
pub fn signal_contract_batch(
    project: &str,
    base: &str,
    head: &str,
    review: SecurityReviewDecision,
    contract: FixContract,
    policy_fingerprint: String,
) -> (r: CommitSecurityReviewBatch)
    ensures
        r.project@ == project@,
        r.from@ == base@,
        r.to@ == "HEAD"@,
        r.disposition is VerifyRequired,
        r.cache_hits == 0,
        r.reviews@.len() == 1,
        r.reviews@[0].commit@ == head@,
        r.reviews@[0].decision == (SecurityReviewDecision {
            security_fix_detected: true,
            introduced_risk: false,
            fix_contract: Some(contract),
            ..review
        }),
        r.reviews@[0].disposition is VerifyRequired,
        crate::strings::views(r.reviews@[0].policy_reasons@) == seq![
            "外部安全消息要求独立验证原始 FixContract"@,
        ],
        r.reviews@[0].policy_fingerprint == policy_fingerprint,
{
    let reasons = ["外部安全消息要求独立验证原始 FixContract"];
    assert(crate::strings::str_views(reasons@) =~= seq!["外部安全消息要求独立验证原始 FixContract"@]);
    let mut decision = review;
    decision.security_fix_detected = true;
    decision.introduced_risk = false;
    decision.fix_contract = Some(contract);
    let mut reviews: Vec<EvaluatedSecurityReview> = Vec::new();
    reviews.push(
        EvaluatedSecurityReview {
            commit: owned(head),
            decision,
            disposition: SecurityDisposition::VerifyRequired,
            policy_reasons: list_of(&reasons),
            policy_fingerprint,
        },
    );
    CommitSecurityReviewBatch {
        project: owned(project),
        from: owned(base),
        to: owned("HEAD"),
        reviews,
        disposition: SecurityDisposition::VerifyRequired,
        cache_hits: 0,
    }
}

/// The records of a candidate that failed. They never say that it passed.
pub fn failed_candidate_artifacts(
    data_dir: &str,
    finding_id: &str,
    candidate_id: &str,
    candidate_summary: &str,
    error: &str,
    patch: &str,
    now: &str,
) -> (r: (CandidateArtifact, VerificationResult))
    ensures
        r.0.id@ == candidate_id@,
        r.0.finding_id@ == finding_id@,
        r.0.worktree_path@ == candidate_dir(data_dir@, candidate_id@),
        r.0.content_sha256@ == crate::digest::text_digest(patch@),
        r.0.summary@ == "候选未通过门禁："@ + candidate_summary@ + "；"@ + error@,
        r.0.created_at@ == now@,
        r.1.id@ == "verification-"@ + candidate_id@,
        r.1.candidate_id@ == candidate_id@,
        r.1.verifier@ == "candidate-pipeline-failed-closed"@,
        !r.1.passed,
        r.1.summary@ == error@,
        crate::strings::views(r.1.evidence@) == seq!["测试、推送、发布和部署均未获得授权"@],
        r.1.created_at@ == now@,
{
    let evidence = ["测试、推送、发布和部署均未获得授权"];
    assert(crate::strings::str_views(evidence@) =~= seq!["测试、推送、发布和部署均未获得授权"@]);
    (
        CandidateArtifact {
            id: owned(candidate_id),
            finding_id: owned(finding_id),
            worktree_path: candidate_directory(data_dir, candidate_id),
            content_sha256: digest_text(patch),
            summary: owned("候选未通过门禁：").concat(candidate_summary).concat("；").concat(
                error,
            ),
            created_at: owned(now),
        },
        VerificationResult {
            id: owned("verification-").concat(candidate_id),
            candidate_id: owned(candidate_id),
            verifier: owned("candidate-pipeline-failed-closed"),
            passed: false,
            summary: owned(error),
            evidence: list_of(&evidence),
            created_at: owned(now),
        },
    )
}

} // verus!
