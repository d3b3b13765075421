//! The course of an investigation: from a security message to its records, its alert and, where that
//! is allowed, a candidate fix.
use crate::command::CommandOutput;
use crate::config::{ProtectionAutomation, ProtectionConfig};
use crate::protection::investigate::{
    check_signal, conclude_finding, investigate_security_signal, prepares_candidate, signal_alert,
    tracked_regular_files, Evidence, FileFacts, Investigation, SignalFileSelection,
    SignalInvestigationDecision, SignalInvestigationOutput,
};
use crate::protection::model::{CandidateArtifact, DeliveryDraft, VerificationResult};
use crate::protection::osv::CargoReachabilitySnapshot;
use crate::strings::{list_of, owned};
use vstd::prelude::*;

verus! {

/// What the investigation waits for.
#[derive(Debug, Clone, Copy, PartialEq, Eq, Structural)]
pub enum InquiryStage {
    Repo,
    /// The files that git tracks.
    Files,
    /// The lock file.
    Lock,
    /// The files that the model wants to see.
    Select,
    /// What is known of such a file.
    Look,
    /// The bytes of such a file.
    Read,
    /// The view of the model.
    Decide,
    /// Signal, finding and plan are written down.
    Record,
    Alert,
    Candidate,
    /// What is left of a candidate that failed.
    Failure,
    RecordCandidate,
    /// The finding waits for delivery from now on.
    RecordFinding,
    Draft,
    RecordDraft,
    Done,
    Failed,
}

/// What came of the last action.
#[derive(Debug)]
pub enum InquiryEvent {
    Output(CommandOutput),
    Snapshot(Option<CargoReachabilitySnapshot>),
    Selected(Option<SignalFileSelection>),
    Looked(FileFacts),
    /// The number of the bytes, and the text that they spell.
    FileRead(usize, Option<String>),
    Decided(Option<SignalInvestigationDecision>),
    Recorded,
    /// Whether the alert was sent.
    Alerted(Result<bool, String>),
    Prepared(Result<(CandidateArtifact, VerificationResult), String>),
    Kept(CandidateArtifact, VerificationResult),
    Drafted(Option<DeliveryDraft>),
}

/// What the caller is to do next.
#[derive(Debug)]
pub enum InquiryAction {
    Git(Vec<String>),
    ReadLock,
    SelectFiles,
    /// Find out about the selected file with this number.
    LookAt(usize),
    ReadFile(usize),
    Decide,
    /// Write down signal, finding and plan.
    Record,
    /// Send an alert with this subject and text.
    Alert(String, String),
    PrepareCandidate,
    /// Look what is left of the candidate.
    KeepFailure,
    /// Write down candidate and verification.
    RecordCandidate,
    RecordFinding,
    PrepareDraft,
    RecordDraft,
    Done,
    Fail(String),
}

/// What an action is.
#[verifier::ext_equal]
pub enum InquiryDoing {
    Git(Seq<Seq<char>>),
    ReadLock,
    SelectFiles,
    LookAt(nat),
    ReadFile(nat),
    Decide,
    Record,
    Alert(Seq<char>, Seq<char>),
    PrepareCandidate,
    KeepFailure,
    RecordCandidate,
    RecordFinding,
    PrepareDraft,
    RecordDraft,
    Done,
    Fail(Seq<char>),
}

impl View for InquiryAction {
    type V = InquiryDoing;

    open spec fn view(&self) -> InquiryDoing {
        match *self {
            InquiryAction::Git(args) => InquiryDoing::Git(crate::strings::views(args@)),
            InquiryAction::ReadLock => InquiryDoing::ReadLock,
            InquiryAction::SelectFiles => InquiryDoing::SelectFiles,
            InquiryAction::LookAt(i) => InquiryDoing::LookAt(i as nat),
            InquiryAction::ReadFile(i) => InquiryDoing::ReadFile(i as nat),
            InquiryAction::Decide => InquiryDoing::Decide,
            InquiryAction::Record => InquiryDoing::Record,
            InquiryAction::Alert(subject, text) => InquiryDoing::Alert(subject@, text@),
            InquiryAction::PrepareCandidate => InquiryDoing::PrepareCandidate,
            InquiryAction::KeepFailure => InquiryDoing::KeepFailure,
            InquiryAction::RecordCandidate => InquiryDoing::RecordCandidate,
            InquiryAction::RecordFinding => InquiryDoing::RecordFinding,
            InquiryAction::PrepareDraft => InquiryDoing::PrepareDraft,
            InquiryAction::RecordDraft => InquiryDoing::RecordDraft,
            InquiryAction::Done => InquiryDoing::Done,
            InquiryAction::Fail(words) => InquiryDoing::Fail(words@),
        }
    }
}

/// An investigation.
#[derive(Debug)]
pub struct InquiryRun {
    pub stage: InquiryStage,
    pub project: String,
    pub summary: String,
    pub reference: Option<String>,
    pub content: String,
    /// The files that may be read and changed.
    pub known: Vec<String>,
    pub snapshot: Option<CargoReachabilitySnapshot>,
    pub selection: SignalFileSelection,
    /// The selected file whose turn it is.
    pub at: usize,
    pub evidence: Evidence,
    pub decision: Option<SignalInvestigationDecision>,
    pub found: Option<Investigation>,
    pub candidate: Option<CandidateArtifact>,
    pub verification: Option<VerificationResult>,
    pub issue_draft: Option<DeliveryDraft>,
    pub candidate_error: Option<String>,
    pub notification_sent: bool,
    pub notification_error: Option<String>,
}

/// The place of a stage in the order of the stages. The files are looked at and read in turn.
pub open spec fn rank(stage: InquiryStage) -> int {
    match stage {
        InquiryStage::Repo => 0,
        InquiryStage::Files => 1,
        InquiryStage::Lock => 2,
        InquiryStage::Select => 3,
        InquiryStage::Look | InquiryStage::Read => 4,
        InquiryStage::Decide => 5,
        InquiryStage::Record => 6,
        InquiryStage::Alert => 7,
        InquiryStage::Candidate => 8,
        InquiryStage::Failure => 9,
        InquiryStage::RecordCandidate => 10,
        InquiryStage::RecordFinding => 11,
        InquiryStage::Draft => 12,
        InquiryStage::RecordDraft => 13,
        InquiryStage::Done => 14,
        InquiryStage::Failed => 15,
    }
}

impl InquiryRun {
    pub open spec fn wf(self) -> bool {
        &&& self.evidence.wf()
        &&& rank(self.stage) == rank(InquiryStage::Look) ==> self.at < self.selection.paths.len()
        &&& rank(InquiryStage::Record) <= rank(self.stage) <= rank(InquiryStage::Done)
            ==> self.decision is Some && self.found is Some
    }
}

/// The event is one that the stage waits for.
pub open spec fn inquiry_fits(stage: InquiryStage, event: InquiryEvent) -> bool {
    match stage {
        InquiryStage::Repo | InquiryStage::Files => event is Output,
        InquiryStage::Lock => event is Snapshot,
        InquiryStage::Select => event is Selected,
        InquiryStage::Look => event is Looked,
        InquiryStage::Read => event is FileRead,
        InquiryStage::Decide => event is Decided,
        InquiryStage::Record | InquiryStage::RecordCandidate | InquiryStage::RecordFinding
        | InquiryStage::RecordDraft => event is Recorded,
        InquiryStage::Alert => event is Alerted,
        InquiryStage::Candidate => event is Prepared,
        InquiryStage::Failure => event is Kept,
        InquiryStage::Draft => event is Drafted,
        InquiryStage::Done | InquiryStage::Failed => false,
    }
}

/// The investigation goes on to a stage, and nothing else changes.
pub open spec fn goes_to(
    s: InquiryRun,
    stage: InquiryStage,
    doing: InquiryDoing,
    t: InquiryRun,
    done: InquiryDoing,
) -> bool {
    t == (InquiryRun { stage, ..s }) && done == doing
}

/// The investigation stops with these words.
pub open spec fn stops(s: InquiryRun, words: Seq<char>, t: InquiryRun, done: InquiryDoing) -> bool {
    goes_to(s, InquiryStage::Failed, InquiryDoing::Fail(words), t, done)
}

/// The next selected file is looked at; after the last one the model is asked for its view.
pub open spec fn next_file(s: InquiryRun, t: InquiryRun, done: InquiryDoing) -> bool {
    if s.at < s.selection.paths@.len() {
        goes_to(s, InquiryStage::Look, InquiryDoing::LookAt(s.at as nat), t, done)
    } else if s.evidence.files@.len() == 0 {
        stops(s, "DS 没有选择任何可审计文件"@, t, done)
    } else {
        goes_to(s, InquiryStage::Decide, InquiryDoing::Decide, t, done)
    }
}

/// The candidate passed.
pub open spec fn candidate_passed(s: InquiryRun) -> bool {
    s.verification is Some && s.verification->0.passed
}

/// A finding whose candidate passed waits for delivery; then comes the draft.
pub open spec fn after_candidate(s: InquiryRun, now: Seq<char>, t: InquiryRun, done: InquiryDoing) -> bool {
    if candidate_passed(s) {
        &&& t.found is Some
        &&& crate::protection::investigate::concluded(s.found->0.finding, t.found->0.finding, now)
        &&& t.found->0 == (Investigation { finding: t.found->0.finding, ..s.found->0 })
        &&& goes_to(
            InquiryRun { found: t.found, ..s },
            InquiryStage::RecordFinding,
            InquiryDoing::RecordFinding,
            t,
            done,
        )
    } else {
        goes_to(s, InquiryStage::Draft, InquiryDoing::PrepareDraft, t, done)
    }
}

/// A candidate is prepared where the message calls for a fix and the configuration goes that far.
pub open spec fn after_alert(
    s: InquiryRun,
    automation: ProtectionAutomation,
    now: Seq<char>,
    t: InquiryRun,
    done: InquiryDoing,
) -> bool {
    if s.found->0.requires_action && automation is Candidate {
        goes_to(s, InquiryStage::Candidate, InquiryDoing::PrepareCandidate, t, done)
    } else {
        after_candidate(s, now, t, done)
    }
}

/// What came of the alert.
pub open spec fn alerted(s: InquiryRun, sent: Result<bool, String>) -> InquiryRun {
    match sent {
        Ok(sent) => InquiryRun { notification_sent: sent, ..s },
        Err(words) => InquiryRun { notification_error: Some(words), ..s },
    }
}

/// The view of the model becomes signal, finding and plan.
pub open spec fn decided(
    s: InquiryRun,
    protection: ProtectionConfig,
    decision: SignalInvestigationDecision,
    now: Seq<char>,
    t: InquiryRun,
    done: InquiryDoing,
) -> bool {
    &&& t.found is Some
    &&& crate::protection::investigate::is_investigation(
        t.found->0,
        protection,
        s.project@,
        s.summary@,
        crate::strings::opt_view(s.reference),
        s.content@,
        decision,
        s.snapshot,
        now,
    )
    &&& goes_to(
        InquiryRun { decision: Some(decision), found: t.found, ..s },
        InquiryStage::Record,
        InquiryDoing::Record,
        t,
        done,
    )
}

/// A message that calls for a fix is announced.
pub open spec fn after_record(s: InquiryRun, now: Seq<char>, t: InquiryRun, done: InquiryDoing) -> bool {
    if s.found->0.requires_action {
        goes_to(
            s,
            InquiryStage::Alert,
            InquiryDoing::Alert(
                s.project@ + " 安全消息告警"@,
                crate::protection::investigate::alert_text(
                    s.summary@,
                    crate::strings::opt_view(s.reference),
                    s.decision->0.review,
                ),
            ),
            t,
            done,
        )
    } else {
        after_candidate(s, now, t, done)
    }
}

/// One step of the investigation. Whatever is not in order before the records stops it; a candidate
/// that fails does not.
pub open spec fn inquiry_step(
    s: InquiryRun,
    protection: ProtectionConfig,
    root: Seq<char>,
    event: InquiryEvent,
    now: Seq<char>,
    t: InquiryRun,
    done: InquiryDoing,
) -> bool {
    match (s.stage, event) {
        (InquiryStage::Repo, InquiryEvent::Output(o)) => if o.ok() {
            goes_to(
                s,
                InquiryStage::Files,
                InquiryDoing::Git(seq!["ls-files"@, "-z"@]),
                t,
                done,
            )
        } else {
            stops(s, "not a git repository: "@ + root, t, done)
        },
        (InquiryStage::Files, InquiryEvent::Output(o)) => {
            let files = crate::protection::investigate::allowed_files(
                crate::strings::split(o.stdout@, '\0'),
            );
            if !o.ok() {
                stops(s, "无法枚举 Git 跟踪文件"@, t, done)
            } else if files.len() > crate::protection::investigate::MAX_TRACKED_FILES {
                stops(s, "Git 跟踪文件超过取证上限"@, t, done)
            } else {
                &&& crate::strings::views(t.known@) == files
                &&& goes_to(
                    InquiryRun { known: t.known, ..s },
                    InquiryStage::Lock,
                    InquiryDoing::ReadLock,
                    t,
                    done,
                )
            }
        },
        (InquiryStage::Lock, InquiryEvent::Snapshot(snapshot)) => goes_to(
            InquiryRun { snapshot, ..s },
            InquiryStage::Select,
            InquiryDoing::SelectFiles,
            t,
            done,
        ),
        (InquiryStage::Select, InquiryEvent::Selected(selection)) => match selection {
            None => stops(s, "DS 未返回安全消息取证文件选择"@, t, done),
            Some(selection) => next_file(InquiryRun { selection, at: 0, ..s }, t, done),
        },
        (InquiryStage::Look, InquiryEvent::Looked(facts)) => {
            let fault = crate::protection::investigate::selection_fault(
                crate::strings::views(s.known@),
                s.selection.paths@[s.at as int]@,
                facts,
            );
            match fault {
                Some(words) => stops(s, words, t, done),
                None => goes_to(
                    s,
                    InquiryStage::Read,
                    InquiryDoing::ReadFile(s.at as nat),
                    t,
                    done,
                ),
            }
        },
        (InquiryStage::Read, InquiryEvent::FileRead(bytes, text)) => {
            let path = s.selection.paths@[s.at as int]@;
            let fault = crate::protection::investigate::evidence_fault(
                s.evidence,
                path,
                bytes as int,
                text,
            );
            match fault {
                Some(words) => stops(s, words, t, done),
                None => {
                    &&& crate::protection::investigate::took(
                        s.evidence,
                        path,
                        bytes as int,
                        text,
                        t.evidence,
                    )
                    &&& next_file(
                        InquiryRun { evidence: t.evidence, at: (s.at + 1) as usize, ..s },
                        t,
                        done,
                    )
                },
            }
        },
        (InquiryStage::Decide, InquiryEvent::Decided(decision)) => match decision {
            None => stops(s, "DS 未返回安全消息调查结论"@, t, done),
            Some(decision) => decided(s, protection, decision, now, t, done),
        },
        (InquiryStage::Record, InquiryEvent::Recorded) => after_record(s, now, t, done),
        (InquiryStage::Alert, InquiryEvent::Alerted(sent)) => after_alert(
            alerted(s, sent),
            protection.automation,
            now,
            t,
            done,
        ),
        (InquiryStage::Candidate, InquiryEvent::Prepared(made)) => match made {
            Ok((candidate, verification)) => goes_to(
                InquiryRun {
                    candidate: Some(candidate),
                    verification: Some(verification),
                    ..s
                },
                InquiryStage::RecordCandidate,
                InquiryDoing::RecordCandidate,
                t,
                done,
            ),
            Err(words) => goes_to(
                InquiryRun { candidate_error: Some(words), ..s },
                InquiryStage::Failure,
                InquiryDoing::KeepFailure,
                t,
                done,
            ),
        },
        (InquiryStage::Failure, InquiryEvent::Kept(candidate, verification)) => goes_to(
            InquiryRun { candidate: Some(candidate), verification: Some(verification), ..s },
            InquiryStage::RecordCandidate,
            InquiryDoing::RecordCandidate,
            t,
            done,
        ),
        (InquiryStage::RecordCandidate, InquiryEvent::Recorded) => after_candidate(s, now, t, done),
        (InquiryStage::RecordFinding, InquiryEvent::Recorded) => goes_to(
            s,
            InquiryStage::Draft,
            InquiryDoing::PrepareDraft,
            t,
            done,
        ),
        (InquiryStage::Draft, InquiryEvent::Drafted(issue_draft)) => if issue_draft is Some {
            goes_to(
                InquiryRun { issue_draft, ..s },
                InquiryStage::RecordDraft,
                InquiryDoing::RecordDraft,
                t,
                done,
            )
        } else {
            goes_to(s, InquiryStage::Done, InquiryDoing::Done, t, done)
        },
        (InquiryStage::RecordDraft, InquiryEvent::Recorded) => goes_to(
            s,
            InquiryStage::Done,
            InquiryDoing::Done,
            t,
            done,
        ),
        _ => true,
    }
}

impl InquiryRun {
    /// Begins to investigate a message.
    pub fn investigate(
        enabled: bool,
        project: &str,
        summary: &str,
        reference: Option<String>,
        content: &str,
    ) -> (r: Result<(InquiryRun, InquiryAction), String>)
        ensures
            ({
                let fault = crate::protection::investigate::signal_fault(
                    enabled,
                    summary@,
                    content@,
                );
                match r {
                    Err(words) => fault == Some(words@),
                    Ok((run, action)) => {
                        &&& fault is None
                        &&& run.wf()
                        &&& run.stage is Repo
                        &&& run.project@ == project@
                        &&& run.summary@ == summary@
                        &&& run.reference == reference
                        &&& run.content@ == content@
                        &&& run.known@.len() == 0
                        &&& run.snapshot is None
                        &&& run.selection.paths@.len() == 0
                        &&& run.at == 0
                        &&& run.evidence.total == 0
                        &&& run.evidence.files@.len() == 0
                        &&& run.decision is None
                        &&& run.found is None
                        &&& run.candidate is None
                        &&& run.verification is None
                        &&& run.issue_draft is None
                        &&& run.candidate_error is None
                        &&& !run.notification_sent
                        &&& run.notification_error is None
                        &&& action@ == InquiryDoing::Git(seq!["rev-parse"@, "--show-toplevel"@])
                    },
                }
            }),
    {
        match check_signal(enabled, summary, content) {
            Err(words) => {
                return Err(words);
            },
            Ok(()) => {},
        }
        let run = InquiryRun {
            stage: InquiryStage::Repo,
            project: owned(project),
            summary: owned(summary),
            reference,
            content: owned(content),
            known: Vec::new(),
            snapshot: None,
            selection: SignalFileSelection { paths: Vec::new() },
            at: 0,
            evidence: Evidence::new(),
            decision: None,
            found: None,
            candidate: None,
            verification: None,
            issue_draft: None,
            candidate_error: None,
            notification_sent: false,
            notification_error: None,
        };
        let args = ["rev-parse", "--show-toplevel"];
        assert(crate::strings::str_views(args@) =~= seq!["rev-parse"@, "--show-toplevel"@]);
        Ok((run, InquiryAction::Git(list_of(&args))))
    }

    fn go(&mut self, stage: InquiryStage, action: InquiryAction) -> (r: InquiryAction)
        ensures
            goes_to(*old(self), stage, action@, *final(self), r@),
    {
        self.stage = stage;
        action
    }

    fn fail(&mut self, words: String) -> (r: InquiryAction)
        ensures
            stops(*old(self), words@, *final(self), r@),
    {
        self.go(InquiryStage::Failed, InquiryAction::Fail(words))
    }

    fn next_file(&mut self) -> (r: InquiryAction)
        ensures
            next_file(*old(self), *final(self), r@),
    {
        if self.at < self.selection.paths.len() {
            let at: usize = self.at;
            self.go(InquiryStage::Look, InquiryAction::LookAt(at))
        } else if self.evidence.files.len() == 0 {
            self.fail(owned("DS 没有选择任何可审计文件"))
        } else {
            self.go(InquiryStage::Decide, InquiryAction::Decide)
        }
    }

    fn after_candidate(&mut self, now: &str) -> (r: InquiryAction)
        requires
            old(self).found is Some,
        ensures
            after_candidate(*old(self), now@, *final(self), r@),
    {
        let concluded: bool = match &mut self.found {
            Some(found) => conclude_finding(&mut found.finding, &self.verification, now),
            None => false,
        };
        if concluded {
            self.go(InquiryStage::RecordFinding, InquiryAction::RecordFinding)
        } else {
            self.go(InquiryStage::Draft, InquiryAction::PrepareDraft)
        }
    }

    fn after_alert(&mut self, automation: ProtectionAutomation, now: &str) -> (r: InquiryAction)
        requires
            old(self).found is Some,
        ensures
            after_alert(*old(self), automation, now@, *final(self), r@),
    {
        let calls: bool = match &self.found {
            Some(found) => found.requires_action,
            None => false,
        };
        if prepares_candidate(calls, automation) {
            self.go(InquiryStage::Candidate, InquiryAction::PrepareCandidate)
        } else {
            self.after_candidate(now)
        }
    }

    fn decide(
        &mut self,
        protection: &ProtectionConfig,
        decision: SignalInvestigationDecision,
        now: &str,
    ) -> (r: InquiryAction)
        ensures
            decided(*old(self), *protection, decision, now@, *final(self), r@),
    {
        let found = investigate_security_signal(
            protection,
            self.project.as_str(),
            self.summary.as_str(),
            &self.reference,
            self.content.as_str(),
            &decision,
            &self.snapshot,
            now,
        );
        self.found = Some(found);
        self.decision = Some(decision);
        self.go(InquiryStage::Record, InquiryAction::Record)
    }

    fn recorded(&mut self, now: &str) -> (r: InquiryAction)
        requires
            old(self).found is Some,
            old(self).decision is Some,
        ensures
            after_record(*old(self), now@, *final(self), r@),
    {
        let calls: bool = match &self.found {
            Some(found) => found.requires_action,
            None => false,
        };
        if !calls {
            return self.after_candidate(now);
        }
        match &self.decision {
            Some(decision) => {
                let (subject, text) = signal_alert(
                    self.project.as_str(),
                    self.summary.as_str(),
                    &self.reference,
                    decision,
                );
                self.go(InquiryStage::Alert, InquiryAction::Alert(subject, text))
            },
            None => self.fail(String::new()),
        }
    }

    /// Takes what came of the last action, and says what comes next. `root` is the repository.
    pub fn step(
        &mut self,
        protection: &ProtectionConfig,
        root: &str,
        event: InquiryEvent,
        now: &str,
    ) -> (r: InquiryAction)
        requires
            old(self).wf(),
            inquiry_fits(old(self).stage, event),
        ensures
            final(self).wf(),
            inquiry_step(*old(self), *protection, root@, event, now@, *final(self), r@),
    {
        match event {
            InquiryEvent::Output(o) => match self.stage {
                InquiryStage::Repo => if o.success() {
                    let args = ["ls-files", "-z"];
                    assert(crate::strings::str_views(args@) =~= seq!["ls-files"@, "-z"@]);
                    self.go(InquiryStage::Files, InquiryAction::Git(list_of(&args)))
                } else {
                    self.fail(owned("not a git repository: ").concat(root))
                },
                _ => match tracked_regular_files(&o) {
                    Err(words) => self.fail(words),
                    Ok(known) => {
                        self.known = known;
                        self.go(InquiryStage::Lock, InquiryAction::ReadLock)
                    },
                },
            },
            InquiryEvent::Snapshot(snapshot) => {
                self.snapshot = snapshot;
                self.go(InquiryStage::Select, InquiryAction::SelectFiles)
            },
            InquiryEvent::Selected(None) => self.fail(owned("DS 未返回安全消息取证文件选择")),
            InquiryEvent::Selected(Some(selection)) => {
                self.selection = selection;
                self.at = 0;
                self.next_file()
            },
            InquiryEvent::Looked(facts) => {
                let at: usize = self.at;
                match Evidence::admit_path(
                    &self.known,
                    self.selection.paths[at].as_str(),
                    &facts,
                ) {
                    Err(words) => self.fail(words),
                    Ok(()) => self.go(InquiryStage::Read, InquiryAction::ReadFile(at)),
                }
            },
            InquiryEvent::FileRead(bytes, text) => {
                let at: usize = self.at;
                let path = owned(self.selection.paths[at].as_str());
                match self.evidence.take_file(path.as_str(), bytes, text) {
                    Err(words) => self.fail(words),
                    Ok(()) => {
                        self.at = at + 1;
                        self.next_file()
                    },
                }
            },
            InquiryEvent::Decided(None) => self.fail(owned("DS 未返回安全消息调查结论")),
            InquiryEvent::Decided(Some(decision)) => self.decide(protection, decision, now),
            InquiryEvent::Recorded => match self.stage {
                InquiryStage::Record => self.recorded(now),
                InquiryStage::RecordCandidate => self.after_candidate(now),
                InquiryStage::RecordFinding => self.go(
                    InquiryStage::Draft,
                    InquiryAction::PrepareDraft,
                ),
                _ => self.go(InquiryStage::Done, InquiryAction::Done),
            },
            InquiryEvent::Alerted(sent) => {
                match sent {
                    Ok(sent) => {
                        self.notification_sent = sent;
                    },
                    Err(words) => {
                        self.notification_error = Some(words);
                    },
                }
                self.after_alert(protection.automation, now)
            },
            InquiryEvent::Prepared(Ok((candidate, verification))) => {
                self.candidate = Some(candidate);
                self.verification = Some(verification);
                self.go(InquiryStage::RecordCandidate, InquiryAction::RecordCandidate)
            },
            InquiryEvent::Prepared(Err(words)) => {
                self.candidate_error = Some(words);
                self.go(InquiryStage::Failure, InquiryAction::KeepFailure)
            },
            InquiryEvent::Kept(candidate, verification) => {
                self.candidate = Some(candidate);
                self.verification = Some(verification);
                self.go(InquiryStage::RecordCandidate, InquiryAction::RecordCandidate)
            },
            InquiryEvent::Drafted(None) => self.go(InquiryStage::Done, InquiryAction::Done),
            InquiryEvent::Drafted(Some(draft)) => {
                self.issue_draft = Some(draft);
                self.go(InquiryStage::RecordDraft, InquiryAction::RecordDraft)
            },
        }
    }

    /// All that came of the investigation, where it has come to its end.
    pub fn output(self) -> (r: Option<SignalInvestigationOutput>)
        requires
            self.wf(),
        ensures
            self.stage is Done <==> r is Some,
            r matches Some(output) ==> {
                &&& output.signal == self.found->0.signal
                &&& output.finding == self.found->0.finding
                &&& output.selection == self.selection
                &&& output.decision == self.decision->0
                &&& output.plan == self.found->0.plan
                &&& output.candidate == self.candidate
                &&& output.verification == self.verification
                &&& output.issue_draft == self.issue_draft
                &&& output.candidate_error == self.candidate_error
                &&& output.notification_sent == self.notification_sent
                &&& output.notification_error == self.notification_error
            },
    {
        match self.stage {
            InquiryStage::Done => {},
            _ => {
                return None;
            },
        }
        match (self.found, self.decision) {
            (Some(found), Some(decision)) => Some(
                SignalInvestigationOutput {
                    signal: found.signal,
                    finding: found.finding,
                    selection: self.selection,
                    decision,
                    plan: found.plan,
                    candidate: self.candidate,
                    verification: self.verification,
                    issue_draft: self.issue_draft,
                    candidate_error: self.candidate_error,
                    notification_sent: self.notification_sent,
                    notification_error: self.notification_error,
                },
            ),
            _ => None,
        }
    }
}

/// A step of an investigation.
pub open spec fn is_inquiry_step(
    s: InquiryRun,
    protection: ProtectionConfig,
    root: Seq<char>,
    event: InquiryEvent,
    now: Seq<char>,
    t: InquiryRun,
    done: InquiryDoing,
) -> bool {
    &&& s.wf()
    &&& inquiry_fits(s.stage, event)
    &&& inquiry_step(s, protection, root, event, now, t, done)
}

/// The model sees only files that git tracks and that may be read, regular ones inside the
/// repository, and never more than three of them.
pub proof fn law_only_fit_evidence_is_read(
    s: InquiryRun,
    protection: ProtectionConfig,
    root: Seq<char>,
    event: InquiryEvent,
    now: Seq<char>,
    t: InquiryRun,
    done: InquiryDoing,
)
    requires
        is_inquiry_step(s, protection, root, event, now, t, done),
        t.wf(),
    ensures
        done matches InquiryDoing::ReadFile(i) ==> {
            let path = s.selection.paths@[i as int]@;
            &&& crate::strings::views(s.known@).contains(path)
            &&& crate::protection::investigate::is_candidate_path(path)
            &&& event matches InquiryEvent::Looked(facts) && facts.regular && facts.inside
        },
        done is Decide ==> 0 < t.evidence.files@.len() <= 3,
{
}

/// An investigation that is only to observe prepares no candidate, and one that may prepare it does
/// so only for a message that calls for a fix.
pub proof fn law_observation_changes_nothing(
    s: InquiryRun,
    protection: ProtectionConfig,
    root: Seq<char>,
    event: InquiryEvent,
    now: Seq<char>,
    t: InquiryRun,
    done: InquiryDoing,
)
    requires
        is_inquiry_step(s, protection, root, event, now, t, done),
    ensures
        done is PrepareCandidate ==> protection.automation is Candidate
            && t.found->0.requires_action,
{
}

/// Nothing follows from a message before it is written down.
pub proof fn law_message_is_recorded_first(
    s: InquiryRun,
    protection: ProtectionConfig,
    root: Seq<char>,
    event: InquiryEvent,
    now: Seq<char>,
    t: InquiryRun,
    done: InquiryDoing,
)
    requires
        is_inquiry_step(s, protection, root, event, now, t, done),
    ensures
        done is Alert || done is PrepareCandidate || done is PrepareDraft ==> rank(s.stage) >= rank(
            InquiryStage::Record,
        ),
        rank(t.stage) == rank(InquiryStage::Record) ==> done is Record,
{
}

/// A finding comes to wait for delivery only where its candidate passed the verification.
pub proof fn law_delivery_needs_verification(
    s: InquiryRun,
    protection: ProtectionConfig,
    root: Seq<char>,
    event: InquiryEvent,
    now: Seq<char>,
    t: InquiryRun,
    done: InquiryDoing,
)
    requires
        is_inquiry_step(s, protection, root, event, now, t, done),
        s.found is Some ==> !(s.found->0.finding.state is AwaitingDelivery),
        t.found is Some && t.found->0.finding.state is AwaitingDelivery,
    ensures
        done is RecordFinding,
        t.verification is Some && t.verification->0.passed,
{
}

/// Every step brings an investigation nearer to its end: on to a later stage, or on to the next
/// file.
pub proof fn law_inquiry_ends(
    s: InquiryRun,
    protection: ProtectionConfig,
    root: Seq<char>,
    event: InquiryEvent,
    now: Seq<char>,
    t: InquiryRun,
    done: InquiryDoing,
)
    requires
        is_inquiry_step(s, protection, root, event, now, t, done),
    ensures
        rank(t.stage) > rank(s.stage) || (rank(t.stage) == rank(s.stage) && t.selection == s.selection
            && (t.at == s.at + 1 || (t.at == s.at && s.stage is Look && t.stage is Read))),
{
}

} // verus!
