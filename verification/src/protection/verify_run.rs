//! The verification of the contracts that a batch of reviews asks for.
use crate::config::LlmConfig;
use crate::protection::model::{
    CommitSecurityReviewBatch, EvaluatedContractVerification, SecurityContractVerificationDecision,
};
use crate::protection::verify::{
    bound_test_output, contract_key, evaluate_contract_decision, required_reviews,
    verification_limit, verify_required_contracts, VerifyError,
};
use crate::strings::{copy_list, owned};
use vstd::prelude::*;

verus! {

/// What the verification waits for.
#[derive(Debug, Clone, Copy, PartialEq, Eq, Structural)]
pub enum VerifyStage {
    /// The patch of the whole range.
    Patch,
    /// Whether the contract was verified before.
    Lookup,
    /// The view of the verifier.
    Ask,
    /// The new verification is written down.
    Save,
    Done,
    Failed,
}

/// What came of the last action.
#[derive(Debug)]
pub enum VerifyEvent {
    Patched(String),
    Cached(Option<EvaluatedContractVerification>),
    Decided(Option<SecurityContractVerificationDecision>),
    Saved,
}

/// What the caller is to do next.
#[derive(Debug)]
pub enum VerifyAction {
    /// Read the patch, which may have so many bytes.
    ReadPatch(usize),
    /// Look for the verification with this key.
    Lookup(String),
    /// Ask the verifier about the contract of the review with this number.
    Ask(usize),
    /// Write the new verification down.
    Save,
    Done,
    Fail(String),
}

/// What an action is.
#[verifier::ext_equal]
pub enum VerifyDoing {
    ReadPatch(int),
    Lookup(Seq<char>),
    Ask(int),
    Save,
    Done,
    Fail(Seq<char>),
}

impl View for VerifyAction {
    type V = VerifyDoing;

    open spec fn view(&self) -> VerifyDoing {
        match *self {
            VerifyAction::ReadPatch(limit) => VerifyDoing::ReadPatch(limit as int),
            VerifyAction::Lookup(key) => VerifyDoing::Lookup(key@),
            VerifyAction::Ask(i) => VerifyDoing::Ask(i as int),
            VerifyAction::Save => VerifyDoing::Save,
            VerifyAction::Done => VerifyDoing::Done,
            VerifyAction::Fail(words) => VerifyDoing::Fail(words@),
        }
    }
}

/// The verification of a batch.
#[derive(Debug)]
pub struct VerifyRun {
    pub stage: VerifyStage,
    /// The numbers of the reviews that ask for verification.
    pub required: Vec<usize>,
    pub tests: Vec<String>,
    /// The output of the tests, as the verifier is shown it.
    pub output: String,
    pub patch: String,
    /// What the verification is found again by.
    pub key: String,
    /// A verification that is not judged yet.
    pub fresh: Option<EvaluatedContractVerification>,
    /// The verifications that passed, in the order of the reviews.
    pub verifications: Vec<EvaluatedContractVerification>,
}

/// A verification in the middle of its course.
pub struct Verifying {
    pub stage: VerifyStage,
    pub required: Seq<int>,
    pub tests: Seq<Seq<char>>,
    pub output: Seq<char>,
    pub patch: Seq<char>,
    pub key: Seq<char>,
    pub fresh: Option<EvaluatedContractVerification>,
    pub verifications: Seq<EvaluatedContractVerification>,
}

impl View for VerifyRun {
    type V = Verifying;

    open spec fn view(&self) -> Verifying {
        Verifying {
            stage: self.stage,
            required: crate::protection::verify::ints(self.required@),
            tests: crate::strings::views(self.tests@),
            output: self.output@,
            patch: self.patch@,
            key: self.key@,
            fresh: self.fresh,
            verifications: self.verifications@,
        }
    }
}

impl Verifying {
    pub open spec fn wf(self, batch: CommitSecurityReviewBatch) -> bool {
        &&& self.required == crate::protection::verify::required_from(batch, 0)
        &&& forall|k: int|
            0 <= k < self.required.len() ==> 0 <= (#[trigger] self.required[k])
                < batch.reviews@.len()
        &&& self.verifications.len() <= self.required.len()
        &&& self.stage is Lookup || self.stage is Ask || self.stage is Save
            ==> self.verifications.len() < self.required.len()
        &&& self.stage is Save <==> self.fresh is Some
        &&& self.stage is Done ==> self.verifications.len() == self.required.len()
        &&& forall|k: int|
            0 <= k < self.verifications.len() ==> (#[trigger] self.verifications[k]).passed
    }
}

/// The event is one that the stage waits for.
pub open spec fn verify_fits(stage: VerifyStage, event: VerifyEvent) -> bool {
    match stage {
        VerifyStage::Patch => event is Patched,
        VerifyStage::Lookup => event is Cached,
        VerifyStage::Ask => event is Decided,
        VerifyStage::Save => event is Saved,
        VerifyStage::Done | VerifyStage::Failed => false,
    }
}

/// The verification stops with these words.
pub open spec fn verify_stops(s: Verifying, words: Seq<char>) -> (Verifying, VerifyDoing) {
    (Verifying { stage: VerifyStage::Failed, ..s }, VerifyDoing::Fail(words))
}

/// The next contract is looked up; after the last one the verification is done.
pub open spec fn next_contract(s: Verifying, batch: CommitSecurityReviewBatch) -> (
    Verifying,
    VerifyDoing,
) {
    let n = s.verifications.len() as int;
    if n >= s.required.len() {
        (Verifying { stage: VerifyStage::Done, ..s }, VerifyDoing::Done)
    } else {
        let review = batch.reviews@[s.required[n]];
        match review.decision.fix_contract {
            None => verify_stops(s, VerifyError::MissingContract.words()),
            Some(contract) => {
                let key = crate::protection::verify::verification_key(
                    review.commit@,
                    contract,
                    s.tests,
                    s.output,
                    s.patch,
                );
                (Verifying { stage: VerifyStage::Lookup, key, ..s }, VerifyDoing::Lookup(key))
            },
        }
    }
}

/// What is said of a contract that is not kept.
pub open spec fn broken_words(v: EvaluatedContractVerification) -> Seq<char> {
    "FixContract 独立验证失败："@ + v.commit@ + "："@ + v.decision.summary@ + "；缺失回归："@
        + crate::strings::join(crate::strings::views(v.decision.missing_regressions@), "；"@)
}

/// A verification that passed is kept; any other stops everything.
pub open spec fn judged(
    s: Verifying,
    v: EvaluatedContractVerification,
    batch: CommitSecurityReviewBatch,
) -> (Verifying, VerifyDoing) {
    if v.passed {
        next_contract(Verifying { verifications: s.verifications.push(v), ..s }, batch)
    } else {
        verify_stops(s, broken_words(v))
    }
}

/// The verification that the verifier's view comes to.
pub open spec fn is_judgement(
    v: EvaluatedContractVerification,
    commit: Seq<char>,
    key: Seq<char>,
    decision: SecurityContractVerificationDecision,
) -> bool {
    &&& v.commit@ == commit
    &&& v.passed == crate::protection::verify::is_met(decision)
    &&& v.decision == decision
    &&& v.dedupe_key@ == key
}

/// One step of the verification.
pub open spec fn verify_step(
    s: Verifying,
    batch: CommitSecurityReviewBatch,
    event: VerifyEvent,
    t: Verifying,
    done: VerifyDoing,
) -> bool {
    let i = s.required[s.verifications.len() as int];
    match (s.stage, event) {
        (VerifyStage::Patch, VerifyEvent::Patched(patch)) => (t, done) == next_contract(
            Verifying { patch: patch@, ..s },
            batch,
        ),
        (VerifyStage::Lookup, VerifyEvent::Cached(Some(v))) => (t, done) == judged(s, v, batch),
        (VerifyStage::Lookup, VerifyEvent::Cached(None)) => (t, done) == (
            Verifying { stage: VerifyStage::Ask, ..s },
            VerifyDoing::Ask(i),
        ),
        (VerifyStage::Ask, VerifyEvent::Decided(None)) => (t, done) == verify_stops(
            s,
            "独立验证器未返回 FixContract 结论"@,
        ),
        (VerifyStage::Ask, VerifyEvent::Decided(Some(decision))) => {
            &&& t.fresh is Some
            &&& is_judgement(t.fresh->0, batch.reviews@[i].commit@, s.key, decision)
            &&& t == (Verifying { stage: VerifyStage::Save, fresh: t.fresh, ..s })
            &&& done is Save
        },
        (VerifyStage::Save, VerifyEvent::Saved) => (t, done) == judged(
            Verifying { fresh: None, ..s },
            s.fresh->0,
            batch,
        ),
        _ => true,
    }
}

impl VerifyRun {
    /// Begins to verify what a batch asks for, where it asks for anything.
    pub fn verify(
        llm: &Option<LlmConfig>,
        batch: &CommitSecurityReviewBatch,
        test_commands: &Vec<String>,
        test_output: &str,
    ) -> (r: Result<Option<(VerifyRun, VerifyAction)>, VerifyError>)
        ensures
            ({
                let required = crate::protection::verify::required_from(*batch, 0);
                match r {
                    Ok(None) => required.len() == 0,
                    Err(error) => {
                        &&& required.len() > 0
                        &&& crate::protection::verify::patch_limit(*llm) == Err::<int, VerifyError>(
                            error,
                        )
                    },
                    Ok(Some((run, action))) => {
                        &&& required.len() > 0
                        &&& run@.wf(*batch)
                        &&& run@.stage is Patch
                        &&& run@.required == required
                        &&& run@.tests == crate::strings::views(test_commands@)
                        &&& run@.output == crate::protection::verify::bounded_output(test_output@)
                        &&& run@.verifications.len() == 0
                        &&& action@ matches VerifyDoing::ReadPatch(limit)
                            && crate::protection::verify::patch_limit(*llm) == Ok::<
                            int,
                            VerifyError,
                        >(limit)
                    },
                }
            }),
    {
        let required = required_reviews(batch);
        assert(crate::protection::verify::ints(required@).len() == required@.len());
        if required.len() == 0 {
            return Ok(None);
        }
        let limit: usize = match verification_limit(llm) {
            Err(error) => {
                return Err(error);
            },
            Ok(limit) => limit,
        };
        let run = VerifyRun {
            stage: VerifyStage::Patch,
            required,
            tests: copy_list(test_commands),
            output: bound_test_output(test_output),
            patch: String::new(),
            key: String::new(),
            fresh: None,
            verifications: Vec::new(),
        };
        Ok(Some((run, VerifyAction::ReadPatch(limit))))
    }

    fn fail(&mut self, words: String) -> (r: VerifyAction)
        ensures
            (final(self)@, r@) == verify_stops(old(self)@, words@),
    {
        self.stage = VerifyStage::Failed;
        VerifyAction::Fail(words)
    }

    fn next_contract(&mut self, batch: &CommitSecurityReviewBatch) -> (r: VerifyAction)
        requires
            forall|k: int|
                0 <= k < old(self)@.required.len() ==> 0 <= (#[trigger] old(self)@.required[k])
                    < batch.reviews@.len(),
        ensures
            (final(self)@, r@) == next_contract(old(self)@, *batch),
    {
        let n: usize = self.verifications.len();
        if n >= self.required.len() {
            self.stage = VerifyStage::Done;
            return VerifyAction::Done;
        }
        assert(self@.required[n as int] == self.required@[n as int]);
        match contract_key(
            batch,
            self.required[n],
            &self.tests,
            self.output.as_str(),
            self.patch.as_str(),
        ) {
            Err(error) => self.fail(error.message()),
            Ok(key) => {
                self.key = owned(key.as_str());
                self.stage = VerifyStage::Lookup;
                VerifyAction::Lookup(key)
            },
        }
    }

    fn judge(&mut self, v: EvaluatedContractVerification, batch: &CommitSecurityReviewBatch) -> (r:
        VerifyAction)
        requires
            forall|k: int|
                0 <= k < old(self)@.required.len() ==> 0 <= (#[trigger] old(self)@.required[k])
                    < batch.reviews@.len(),
        ensures
            (final(self)@, r@) == judged(old(self)@, v, *batch),
    {
        match verify_required_contracts(&v) {
            Ok(()) => {
                self.verifications.push(v);
                self.next_contract(batch)
            },
            Err(error) => self.fail(error.message()),
        }
    }

    /// Takes what came of the last action, and says what comes next.
    pub fn step(&mut self, batch: &CommitSecurityReviewBatch, event: VerifyEvent) -> (r: VerifyAction)
        requires
            old(self)@.wf(*batch),
            verify_fits(old(self)@.stage, event),
        ensures
            final(self)@.wf(*batch),
            verify_step(old(self)@, *batch, event, final(self)@, r@),
    {
        let n: usize = self.verifications.len();
        match event {
            VerifyEvent::Patched(patch) => {
                self.patch = patch;
                self.next_contract(batch)
            },
            VerifyEvent::Cached(Some(v)) => self.judge(v, batch),
            VerifyEvent::Cached(None) => {
                assert(self@.required[n as int] == self.required@[n as int]);
                let i: usize = self.required[n];
                self.stage = VerifyStage::Ask;
                VerifyAction::Ask(i)
            },
            VerifyEvent::Decided(None) => self.fail(owned("独立验证器未返回 FixContract 结论")),
            VerifyEvent::Decided(Some(decision)) => {
                assert(self@.required[n as int] == self.required@[n as int]);
                let i: usize = self.required[n];
                let v = evaluate_contract_decision(
                    owned(batch.reviews[i].commit.as_str()),
                    owned(self.key.as_str()),
                    decision,
                );
                self.fresh = Some(v);
                self.stage = VerifyStage::Save;
                VerifyAction::Save
            },
            VerifyEvent::Saved => match self.fresh.take() {
                Some(v) => self.judge(v, batch),
                None => self.fail(String::new()),
            },
        }
    }
}

/// A verification is done only when every contract that the batch asks for passed; one that did not
/// pass ends it.
pub proof fn law_every_contract_is_verified(
    s: Verifying,
    batch: CommitSecurityReviewBatch,
    event: VerifyEvent,
    t: Verifying,
    done: VerifyDoing,
)
    requires
        s.wf(batch),
        verify_fits(s.stage, event),
        verify_step(s, batch, event, t, done),
    ensures
        done is Done ==> t.verifications.len() == crate::protection::verify::required_from(
            batch,
            0,
        ).len() && forall|k: int|
            0 <= k < t.verifications.len() ==> (#[trigger] t.verifications[k]).passed,
        event matches VerifyEvent::Cached(Some(v)) ==> !v.passed ==> done is Fail,
        event is Saved ==> !s.fresh->0.passed ==> done is Fail,
        event is Decided && event->Decided_0 is None ==> done is Fail,
{
}

} // verus!
