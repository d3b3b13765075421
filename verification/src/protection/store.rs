//! What is kept of the security checks. A record that comes again takes the place of the first one
//! and keeps its identity.
use crate::protection::model::{
    CandidateArtifact, DeliveryDraft, EvaluatedContractVerification, EvaluatedSecurityReview,
    ProtectionFinding, RemediationPlan, SecuritySignal, VerificationResult,
};
use crate::strings::{owned, same};
use vstd::prelude::*;

verus! {

/// What is known of a draft that was sent.
#[derive(Debug, Clone)]
pub struct DeliveryReceipt {
    pub draft_id: String,
    pub destination: String,
    pub remote_id: String,
    pub remote_url: String,
    pub delivered_at: String,
}

/// A draft, and whether it was sent.
#[derive(Debug)]
pub struct StoredDraft {
    pub draft: DeliveryDraft,
    pub delivered: bool,
}

/// A review, and the key under which it is kept.
#[derive(Debug)]
pub struct StoredReview {
    pub dedupe_key: String,
    pub review: EvaluatedSecurityReview,
}

/// How far the look at an advisory has come.
#[derive(Debug)]
pub struct AdvisoryObservation {
    pub id: String,
    pub modified: String,
    pub state: String,
    pub last_error: Option<String>,
    pub updated_at: String,
}

/// The records of the security checks.
#[derive(Debug)]
pub struct ProtectionStore {
    pub signals: Vec<SecuritySignal>,
    pub findings: Vec<ProtectionFinding>,
    pub plans: Vec<RemediationPlan>,
    pub candidates: Vec<CandidateArtifact>,
    pub verifications: Vec<VerificationResult>,
    pub drafts: Vec<StoredDraft>,
    pub receipts: Vec<DeliveryReceipt>,
    pub reviews: Vec<StoredReview>,
    pub contracts: Vec<EvaluatedContractVerification>,
    pub advisories: Vec<AdvisoryObservation>,
}

/// The place of the first record with this key, at or behind `from`.
pub open spec fn place_of(keys: Seq<Seq<char>>, key: Seq<char>, from: int) -> Option<int>
    decreases keys.len() - from,
{
    if from < 0 || from >= keys.len() {
        None
    } else if keys[from] == key {
        Some(from)
    } else {
        place_of(keys, key, from + 1)
    }
}

pub proof fn lemma_place_of(keys: Seq<Seq<char>>, key: Seq<char>, from: int)
    requires
        0 <= from,
    ensures
        place_of(keys, key, from) matches Some(i) ==> from <= i < keys.len() && keys[i] == key,
    decreases keys.len() - from,
{
    if from < keys.len() && keys[from] != key {
        lemma_place_of(keys, key, from + 1);
    }
}

pub proof fn lemma_place_pushed(keys: Seq<Seq<char>>, key: Seq<char>, from: int)
    requires
        0 <= from <= keys.len(),
        place_of(keys, key, from) is None,
    ensures
        place_of(keys.push(key), key, from) == Some(keys.len() as int),
    decreases keys.len() - from,
{
    if from < keys.len() {
        assert(keys.push(key)[from] == keys[from]);
        lemma_place_pushed(keys, key, from + 1);
    }
}

pub proof fn lemma_place_of_other(keys: Seq<Seq<char>>, key: Seq<char>, other: Seq<char>, from: int)
    requires
        0 <= from <= keys.len(),
        key != other,
    ensures
        place_of(keys.push(key), other, from) == place_of(keys, other, from),
    decreases keys.len() - from,
{
    if from < keys.len() {
        assert(keys.push(key)[from] == keys[from]);
        lemma_place_of_other(keys, key, other, from + 1);
    } else {
        assert(place_of(keys.push(key), other, from + 1) is None);
    }
}

pub open spec fn signal_keys(rows: Seq<SecuritySignal>) -> Seq<Seq<char>> {
    Seq::new(rows.len(), |i: int| rows[i].dedupe_key@)
}

/// The record that takes the place of another with its key: the message and its reference are replaced.
pub open spec fn merged_signal(known: SecuritySignal, new: SecuritySignal) -> SecuritySignal {
    SecuritySignal {
        summary: new.summary,
        reference: new.reference,
        ..known
    }
}

/// The records after one came.
pub open spec fn with_signal(rows: Seq<SecuritySignal>, new: SecuritySignal) -> Seq<SecuritySignal> {
    match place_of(signal_keys(rows), new.dedupe_key@, 0) {
        Some(i) => rows.update(i, merged_signal(rows[i], new)),
        None => rows.push(new),
    }
}

/// A record that comes twice is there as if it had come once.
pub proof fn law_signal_is_idempotent(rows: Seq<SecuritySignal>, new: SecuritySignal)
    ensures
        with_signal(with_signal(rows, new), new) == with_signal(rows, new),
{
    let once = with_signal(rows, new);
    let keys = signal_keys(rows);
    lemma_place_of(keys, new.dedupe_key@, 0);
    match place_of(keys, new.dedupe_key@, 0) {
        Some(i) => {
            assert(signal_keys(once) =~= keys);
            assert(once.update(i, merged_signal(once[i], new)) =~= once);
        },
        None => {
            lemma_place_pushed(keys, new.dedupe_key@, 0);
            assert(signal_keys(once) =~= keys.push(new.dedupe_key@));
            assert(once.update(rows.len() as int, merged_signal(new, new)) =~= once);
        },
    }
}

pub open spec fn finding_keys(rows: Seq<ProtectionFinding>) -> Seq<Seq<char>> {
    Seq::new(rows.len(), |i: int| rows[i].dedupe_key@)
}

/// The record that takes the place of another with its key: all but its identity and its time is replaced.
pub open spec fn merged_finding(known: ProtectionFinding, new: ProtectionFinding) -> ProtectionFinding {
    ProtectionFinding {
        state: new.state,
        classification: new.classification,
        severity: new.severity,
        confidence: new.confidence,
        affected: new.affected,
        build_allowed: new.build_allowed,
        summary: new.summary,
        evidence: new.evidence,
        updated_at: new.updated_at,
        ..known
    }
}

/// The records after one came.
pub open spec fn with_finding(rows: Seq<ProtectionFinding>, new: ProtectionFinding) -> Seq<ProtectionFinding> {
    match place_of(finding_keys(rows), new.dedupe_key@, 0) {
        Some(i) => rows.update(i, merged_finding(rows[i], new)),
        None => rows.push(new),
    }
}

/// A record that comes twice is there as if it had come once.
pub proof fn law_finding_is_idempotent(rows: Seq<ProtectionFinding>, new: ProtectionFinding)
    ensures
        with_finding(with_finding(rows, new), new) == with_finding(rows, new),
{
    let once = with_finding(rows, new);
    let keys = finding_keys(rows);
    lemma_place_of(keys, new.dedupe_key@, 0);
    match place_of(keys, new.dedupe_key@, 0) {
        Some(i) => {
            assert(finding_keys(once) =~= keys);
            assert(once.update(i, merged_finding(once[i], new)) =~= once);
        },
        None => {
            lemma_place_pushed(keys, new.dedupe_key@, 0);
            assert(finding_keys(once) =~= keys.push(new.dedupe_key@));
            assert(once.update(rows.len() as int, merged_finding(new, new)) =~= once);
        },
    }
}

pub open spec fn remediation_plan_keys(rows: Seq<RemediationPlan>) -> Seq<Seq<char>> {
    Seq::new(rows.len(), |i: int| rows[i].id@)
}

/// The record that takes the place of another with its key: what is to be done is replaced.
pub open spec fn merged_remediation_plan(known: RemediationPlan, new: RemediationPlan) -> RemediationPlan {
    RemediationPlan {
        action: new.action,
        summary: new.summary,
        requirements: new.requirements,
        ..known
    }
}

/// The records after one came.
pub open spec fn with_remediation_plan(rows: Seq<RemediationPlan>, new: RemediationPlan) -> Seq<RemediationPlan> {
    match place_of(remediation_plan_keys(rows), new.id@, 0) {
        Some(i) => rows.update(i, merged_remediation_plan(rows[i], new)),
        None => rows.push(new),
    }
}

/// A record that comes twice is there as if it had come once.
pub proof fn law_remediation_plan_is_idempotent(rows: Seq<RemediationPlan>, new: RemediationPlan)
    ensures
        with_remediation_plan(with_remediation_plan(rows, new), new) == with_remediation_plan(rows, new),
{
    let once = with_remediation_plan(rows, new);
    let keys = remediation_plan_keys(rows);
    lemma_place_of(keys, new.id@, 0);
    match place_of(keys, new.id@, 0) {
        Some(i) => {
            assert(remediation_plan_keys(once) =~= keys);
            assert(once.update(i, merged_remediation_plan(once[i], new)) =~= once);
        },
        None => {
            lemma_place_pushed(keys, new.id@, 0);
            assert(remediation_plan_keys(once) =~= keys.push(new.id@));
            assert(once.update(rows.len() as int, merged_remediation_plan(new, new)) =~= once);
        },
    }
}

pub open spec fn candidate_keys(rows: Seq<CandidateArtifact>) -> Seq<Seq<char>> {
    Seq::new(rows.len(), |i: int| rows[i].id@)
}

/// The record that takes the place of another with its key: its content is replaced.
pub open spec fn merged_candidate(known: CandidateArtifact, new: CandidateArtifact) -> CandidateArtifact {
    CandidateArtifact {
        worktree_path: new.worktree_path,
        content_sha256: new.content_sha256,
        summary: new.summary,
        ..known
    }
}

/// The records after one came.
pub open spec fn with_candidate(rows: Seq<CandidateArtifact>, new: CandidateArtifact) -> Seq<CandidateArtifact> {
    match place_of(candidate_keys(rows), new.id@, 0) {
        Some(i) => rows.update(i, merged_candidate(rows[i], new)),
        None => rows.push(new),
    }
}

/// A record that comes twice is there as if it had come once.
pub proof fn law_candidate_is_idempotent(rows: Seq<CandidateArtifact>, new: CandidateArtifact)
    ensures
        with_candidate(with_candidate(rows, new), new) == with_candidate(rows, new),
{
    let once = with_candidate(rows, new);
    let keys = candidate_keys(rows);
    lemma_place_of(keys, new.id@, 0);
    match place_of(keys, new.id@, 0) {
        Some(i) => {
            assert(candidate_keys(once) =~= keys);
            assert(once.update(i, merged_candidate(once[i], new)) =~= once);
        },
        None => {
            lemma_place_pushed(keys, new.id@, 0);
            assert(candidate_keys(once) =~= keys.push(new.id@));
            assert(once.update(rows.len() as int, merged_candidate(new, new)) =~= once);
        },
    }
}

pub open spec fn verification_keys(rows: Seq<VerificationResult>) -> Seq<Seq<char>> {
    Seq::new(rows.len(), |i: int| rows[i].id@)
}

/// The record that takes the place of another with its key: its outcome is replaced.
pub open spec fn merged_verification(known: VerificationResult, new: VerificationResult) -> VerificationResult {
    VerificationResult {
        verifier: new.verifier,
        passed: new.passed,
        summary: new.summary,
        evidence: new.evidence,
        ..known
    }
}

/// The records after one came.
pub open spec fn with_verification(rows: Seq<VerificationResult>, new: VerificationResult) -> Seq<VerificationResult> {
    match place_of(verification_keys(rows), new.id@, 0) {
        Some(i) => rows.update(i, merged_verification(rows[i], new)),
        None => rows.push(new),
    }
}

/// A record that comes twice is there as if it had come once.
pub proof fn law_verification_is_idempotent(rows: Seq<VerificationResult>, new: VerificationResult)
    ensures
        with_verification(with_verification(rows, new), new) == with_verification(rows, new),
{
    let once = with_verification(rows, new);
    let keys = verification_keys(rows);
    lemma_place_of(keys, new.id@, 0);
    match place_of(keys, new.id@, 0) {
        Some(i) => {
            assert(verification_keys(once) =~= keys);
            assert(once.update(i, merged_verification(once[i], new)) =~= once);
        },
        None => {
            lemma_place_pushed(keys, new.id@, 0);
            assert(verification_keys(once) =~= keys.push(new.id@));
            assert(once.update(rows.len() as int, merged_verification(new, new)) =~= once);
        },
    }
}

pub open spec fn draft_keys(rows: Seq<StoredDraft>) -> Seq<Seq<char>> {
    Seq::new(rows.len(), |i: int| rows[i].draft.dedupe_key@)
}

/// The draft that takes the place of another with its key: its words are replaced. Whether the
/// first one was sent stays known.
pub open spec fn merged_draft(known: StoredDraft, new: DeliveryDraft) -> StoredDraft {
    StoredDraft {
        draft: DeliveryDraft {
            title: new.title,
            body: new.body,
            labels: new.labels,
            ..known.draft
        },
        ..known
    }
}

/// The drafts after one came.
pub open spec fn with_draft(rows: Seq<StoredDraft>, new: DeliveryDraft) -> Seq<StoredDraft> {
    match place_of(draft_keys(rows), new.dedupe_key@, 0) {
        Some(i) => rows.update(i, merged_draft(rows[i], new)),
        None => rows.push(StoredDraft { draft: new, delivered: false }),
    }
}

/// A draft that comes twice is there as if it had come once.
pub proof fn law_draft_is_idempotent(rows: Seq<StoredDraft>, new: DeliveryDraft)
    ensures
        with_draft(with_draft(rows, new), new) == with_draft(rows, new),
{
    let once = with_draft(rows, new);
    let keys = draft_keys(rows);
    lemma_place_of(keys, new.dedupe_key@, 0);
    match place_of(keys, new.dedupe_key@, 0) {
        Some(i) => {
            assert(draft_keys(once) =~= keys);
            assert(once.update(i, merged_draft(once[i], new)) =~= once);
        },
        None => {
            lemma_place_pushed(keys, new.dedupe_key@, 0);
            assert(draft_keys(once) =~= keys.push(new.dedupe_key@));
            assert(once.update(rows.len() as int, merged_draft(once.last(), new)) =~= once);
        },
    }
}

pub open spec fn receipt_keys(rows: Seq<DeliveryReceipt>) -> Seq<Seq<char>> {
    Seq::new(rows.len(), |i: int| rows[i].draft_id@)
}

/// The receipts after one came: the first receipt of a draft stays.
pub open spec fn with_receipt(rows: Seq<DeliveryReceipt>, new: DeliveryReceipt) -> Seq<
    DeliveryReceipt,
> {
    match place_of(receipt_keys(rows), new.draft_id@, 0) {
        Some(_) => rows,
        None => rows.push(new),
    }
}

pub open spec fn review_keys(rows: Seq<StoredReview>) -> Seq<Seq<char>> {
    Seq::new(rows.len(), |i: int| rows[i].dedupe_key@)
}

/// The review with this key.
pub open spec fn review_under(rows: Seq<StoredReview>, key: Seq<char>) -> Option<EvaluatedSecurityReview> {
    match place_of(review_keys(rows), key, 0) {
        Some(i) => Some(rows[i].review),
        None => None,
    }
}

/// The reviews `next` are `rows` with one more, or with one in the place of that with its key.
pub open spec fn with_review(
    rows: Seq<StoredReview>,
    key: Seq<char>,
    review: EvaluatedSecurityReview,
    next: Seq<StoredReview>,
) -> bool {
    match place_of(review_keys(rows), key, 0) {
        Some(i) => next == rows.update(i, StoredReview { review, ..rows[i] }),
        None => {
            &&& next.len() == rows.len() + 1
            &&& next == rows.push(next.last())
            &&& next.last().dedupe_key@ == key
            &&& next.last().review == review
        },
    }
}

/// A review that was written down is found again under its key, and every other one as before.
pub proof fn law_review_is_found_again(
    rows: Seq<StoredReview>,
    key: Seq<char>,
    review: EvaluatedSecurityReview,
    next: Seq<StoredReview>,
    other: Seq<char>,
)
    requires
        with_review(rows, key, review, next),
    ensures
        review_under(next, key) == Some(review),
        other != key ==> review_under(next, other) == review_under(rows, other),
{
    let keys = review_keys(rows);
    lemma_place_of(keys, key, 0);
    lemma_place_of(keys, other, 0);
    match place_of(keys, key, 0) {
        Some(_) => {
            assert(review_keys(next) =~= keys);
        },
        None => {
            assert(review_keys(next) =~= keys.push(key));
            lemma_place_pushed(keys, key, 0);
            if other != key {
                lemma_place_of_other(keys, key, other, 0);
            }
        },
    }
}

pub open spec fn contract_keys(rows: Seq<EvaluatedContractVerification>) -> Seq<Seq<char>> {
    Seq::new(rows.len(), |i: int| rows[i].dedupe_key@)
}

/// The verification with this key.
pub open spec fn contract_under(rows: Seq<EvaluatedContractVerification>, key: Seq<char>) -> Option<
    EvaluatedContractVerification,
> {
    match place_of(contract_keys(rows), key, 0) {
        Some(i) => Some(rows[i]),
        None => None,
    }
}

/// The verifications after one came.
pub open spec fn with_contract(
    rows: Seq<EvaluatedContractVerification>,
    new: EvaluatedContractVerification,
) -> Seq<EvaluatedContractVerification> {
    match place_of(contract_keys(rows), new.dedupe_key@, 0) {
        Some(i) => rows.update(i, new),
        None => rows.push(new),
    }
}

/// A verification that was written down is found again under its key, and every other one as before.
pub proof fn law_contract_is_found_again(
    rows: Seq<EvaluatedContractVerification>,
    new: EvaluatedContractVerification,
    other: Seq<char>,
)
    ensures
        contract_under(with_contract(rows, new), new.dedupe_key@) == Some(new),
        other != new.dedupe_key@ ==> contract_under(with_contract(rows, new), other)
            == contract_under(rows, other),
{
    let keys = contract_keys(rows);
    let next = with_contract(rows, new);
    lemma_place_of(keys, new.dedupe_key@, 0);
    lemma_place_of(keys, other, 0);
    match place_of(keys, new.dedupe_key@, 0) {
        Some(_) => {
            assert(contract_keys(next) =~= keys);
        },
        None => {
            assert(contract_keys(next) =~= keys.push(new.dedupe_key@));
            lemma_place_pushed(keys, new.dedupe_key@, 0);
            if other != new.dedupe_key@ {
                lemma_place_of_other(keys, new.dedupe_key@, other, 0);
            }
        },
    }
}

pub open spec fn advisory_ids(rows: Seq<AdvisoryObservation>) -> Seq<Seq<char>> {
    Seq::new(rows.len(), |i: int| rows[i].id@)
}

/// The advisory still has to be looked at in this version.
pub open spec fn needs_processing(rows: Seq<AdvisoryObservation>, id: Seq<char>, modified: Seq<char>) -> bool {
    match place_of(advisory_ids(rows), id, 0) {
        Some(i) => !(rows[i].modified@ == modified && rows[i].state@ == "completed"@),
        None => true,
    }
}

/// What is known of an advisory.
pub open spec fn is_observation(
    row: AdvisoryObservation,
    id: Seq<char>,
    modified: Seq<char>,
    state: Seq<char>,
    last_error: Option<String>,
    now: Seq<char>,
) -> bool {
    &&& row.id@ == id
    &&& row.modified@ == modified
    &&& row.state@ == state
    &&& row.last_error == last_error
    &&& row.updated_at@ == now
}

/// The observations `next` are `rows` with one more, or with one in the place of that on its
/// advisory.
pub open spec fn with_observation(
    rows: Seq<AdvisoryObservation>,
    id: Seq<char>,
    modified: Seq<char>,
    state: Seq<char>,
    last_error: Option<String>,
    now: Seq<char>,
    next: Seq<AdvisoryObservation>,
) -> bool {
    match place_of(advisory_ids(rows), id, 0) {
        Some(i) => {
            &&& next == rows.update(i, next[i])
            &&& is_observation(next[i], id, modified, state, last_error, now)
        },
        None => {
            &&& next.len() == rows.len() + 1
            &&& next == rows.push(next.last())
            &&& is_observation(next.last(), id, modified, state, last_error, now)
        },
    }
}

/// An advisory is looked at again exactly where its last look did not end well or it has changed
/// since, and a mark on one advisory says nothing of another.
pub proof fn law_completed_advisory_rests(
    rows: Seq<AdvisoryObservation>,
    id: Seq<char>,
    modified: Seq<char>,
    state: Seq<char>,
    last_error: Option<String>,
    now: Seq<char>,
    next: Seq<AdvisoryObservation>,
    other: Seq<char>,
    later: Seq<char>,
)
    requires
        with_observation(rows, id, modified, state, last_error, now, next),
    ensures
        needs_processing(next, id, later) <==> !(later == modified && state == "completed"@),
        other != id ==> needs_processing(next, other, later) == needs_processing(rows, other, later),
{
    let keys = advisory_ids(rows);
    lemma_place_of(keys, id, 0);
    lemma_place_of(keys, other, 0);
    match place_of(keys, id, 0) {
        Some(_) => {
            assert(advisory_ids(next) =~= keys);
        },
        None => {
            assert(advisory_ids(next) =~= keys.push(id));
            lemma_place_pushed(keys, id, 0);
            if other != id {
                lemma_place_of_other(keys, id, other, 0);
            }
        },
    }
}

impl ProtectionStore {
    /// A store that holds nothing.
    pub fn in_memory() -> (r: ProtectionStore)
        ensures
            r.signals@.len() == 0,
            r.findings@.len() == 0,
            r.plans@.len() == 0,
            r.candidates@.len() == 0,
            r.verifications@.len() == 0,
            r.drafts@.len() == 0,
            r.receipts@.len() == 0,
            r.reviews@.len() == 0,
            r.contracts@.len() == 0,
            r.advisories@.len() == 0,
    {
        ProtectionStore {
            signals: Vec::new(),
            findings: Vec::new(),
            plans: Vec::new(),
            candidates: Vec::new(),
            verifications: Vec::new(),
            drafts: Vec::new(),
            receipts: Vec::new(),
            reviews: Vec::new(),
            contracts: Vec::new(),
            advisories: Vec::new(),
        }
    }

    pub fn upsert_signal(&mut self, signal: SecuritySignal)
        ensures
            final(self).signals@ == with_signal(old(self).signals@, signal),
            *final(self) == (ProtectionStore { signals: final(self).signals, ..*old(self) }),
    {
        let ghost keys = signal_keys(self.signals@);
        let mut i: usize = 0;
        while i < self.signals.len()
            invariant
                i <= self.signals@.len(),
                *self == *old(self),
                keys == signal_keys(self.signals@),
                place_of(keys, signal.dedupe_key@, 0) == place_of(keys, signal.dedupe_key@, i as int),
            decreases self.signals@.len() - i,
        {
            assert(keys[i as int] == self.signals@[i as int].dedupe_key@);
            if same(self.signals[i].dedupe_key.as_str(), signal.dedupe_key.as_str()) {
                self.signals[i].summary = signal.summary;
                self.signals[i].reference = signal.reference;
                assert(self.signals@ =~= with_signal(old(self).signals@, signal));
                return;
            }
            i += 1;
        }
        self.signals.push(signal);
    }

    pub fn upsert_finding(&mut self, finding: ProtectionFinding)
        ensures
            final(self).findings@ == with_finding(old(self).findings@, finding),
            *final(self) == (ProtectionStore { findings: final(self).findings, ..*old(self) }),
    {
        let ghost keys = finding_keys(self.findings@);
        let mut i: usize = 0;
        while i < self.findings.len()
            invariant
                i <= self.findings@.len(),
                *self == *old(self),
                keys == finding_keys(self.findings@),
                place_of(keys, finding.dedupe_key@, 0) == place_of(keys, finding.dedupe_key@, i as int),
            decreases self.findings@.len() - i,
        {
            assert(keys[i as int] == self.findings@[i as int].dedupe_key@);
            if same(self.findings[i].dedupe_key.as_str(), finding.dedupe_key.as_str()) {
                self.findings[i].state = finding.state;
                self.findings[i].classification = finding.classification;
                self.findings[i].severity = finding.severity;
                self.findings[i].confidence = finding.confidence;
                self.findings[i].affected = finding.affected;
                self.findings[i].build_allowed = finding.build_allowed;
                self.findings[i].summary = finding.summary;
                self.findings[i].evidence = finding.evidence;
                self.findings[i].updated_at = finding.updated_at;
                assert(self.findings@ =~= with_finding(old(self).findings@, finding));
                return;
            }
            i += 1;
        }
        self.findings.push(finding);
    }

    pub fn upsert_remediation_plan(&mut self, remediation_plan: RemediationPlan)
        ensures
            final(self).plans@ == with_remediation_plan(old(self).plans@, remediation_plan),
            *final(self) == (ProtectionStore { plans: final(self).plans, ..*old(self) }),
    {
        let ghost keys = remediation_plan_keys(self.plans@);
        let mut i: usize = 0;
        while i < self.plans.len()
            invariant
                i <= self.plans@.len(),
                *self == *old(self),
                keys == remediation_plan_keys(self.plans@),
                place_of(keys, remediation_plan.id@, 0) == place_of(keys, remediation_plan.id@, i as int),
            decreases self.plans@.len() - i,
        {
            assert(keys[i as int] == self.plans@[i as int].id@);
            if same(self.plans[i].id.as_str(), remediation_plan.id.as_str()) {
                self.plans[i].action = remediation_plan.action;
                self.plans[i].summary = remediation_plan.summary;
                self.plans[i].requirements = remediation_plan.requirements;
                assert(self.plans@ =~= with_remediation_plan(old(self).plans@, remediation_plan));
                return;
            }
            i += 1;
        }
        self.plans.push(remediation_plan);
    }

    pub fn upsert_candidate(&mut self, candidate: CandidateArtifact)
        ensures
            final(self).candidates@ == with_candidate(old(self).candidates@, candidate),
            *final(self) == (ProtectionStore { candidates: final(self).candidates, ..*old(self) }),
    {
        let ghost keys = candidate_keys(self.candidates@);
        let mut i: usize = 0;
        while i < self.candidates.len()
            invariant
                i <= self.candidates@.len(),
                *self == *old(self),
                keys == candidate_keys(self.candidates@),
                place_of(keys, candidate.id@, 0) == place_of(keys, candidate.id@, i as int),
            decreases self.candidates@.len() - i,
        {
            assert(keys[i as int] == self.candidates@[i as int].id@);
            if same(self.candidates[i].id.as_str(), candidate.id.as_str()) {
                self.candidates[i].worktree_path = candidate.worktree_path;
                self.candidates[i].content_sha256 = candidate.content_sha256;
                self.candidates[i].summary = candidate.summary;
                assert(self.candidates@ =~= with_candidate(old(self).candidates@, candidate));
                return;
            }
            i += 1;
        }
        self.candidates.push(candidate);
    }

    pub fn upsert_verification(&mut self, verification: VerificationResult)
        ensures
            final(self).verifications@ == with_verification(old(self).verifications@, verification),
            *final(self) == (ProtectionStore { verifications: final(self).verifications, ..*old(self) }),
    {
        let ghost keys = verification_keys(self.verifications@);
        let mut i: usize = 0;
        while i < self.verifications.len()
            invariant
                i <= self.verifications@.len(),
                *self == *old(self),
                keys == verification_keys(self.verifications@),
                place_of(keys, verification.id@, 0) == place_of(keys, verification.id@, i as int),
            decreases self.verifications@.len() - i,
        {
            assert(keys[i as int] == self.verifications@[i as int].id@);
            if same(self.verifications[i].id.as_str(), verification.id.as_str()) {
                self.verifications[i].verifier = verification.verifier;
                self.verifications[i].passed = verification.passed;
                self.verifications[i].summary = verification.summary;
                self.verifications[i].evidence = verification.evidence;
                assert(self.verifications@ =~= with_verification(old(self).verifications@, verification));
                return;
            }
            i += 1;
        }
        self.verifications.push(verification);
    }

    pub fn upsert_delivery_draft(&mut self, draft: DeliveryDraft)
        ensures
            final(self).drafts@ == with_draft(old(self).drafts@, draft),
            *final(self) == (ProtectionStore { drafts: final(self).drafts, ..*old(self) }),
    {
        let ghost keys = draft_keys(self.drafts@);
        let mut i: usize = 0;
        while i < self.drafts.len()
            invariant
                i <= self.drafts@.len(),
                *self == *old(self),
                keys == draft_keys(self.drafts@),
                place_of(keys, draft.dedupe_key@, 0) == place_of(keys, draft.dedupe_key@, i as int),
            decreases self.drafts@.len() - i,
        {
            assert(keys[i as int] == self.drafts@[i as int].draft.dedupe_key@);
            if same(self.drafts[i].draft.dedupe_key.as_str(), draft.dedupe_key.as_str()) {
                self.drafts[i].draft.title = draft.title;
                self.drafts[i].draft.body = draft.body;
                self.drafts[i].draft.labels = draft.labels;
                assert(self.drafts@ =~= with_draft(old(self).drafts@, draft));
                return;
            }
            i += 1;
        }
        self.drafts.push(StoredDraft { draft, delivered: false });
    }

    /// The identity of the finding with this key.
    pub fn finding_id_by_dedupe_key(&self, dedupe_key: &str) -> (r: Option<String>)
        ensures
            match r {
                Some(id) => place_of(finding_keys(self.findings@), dedupe_key@, 0) matches Some(i)
                    && id@ == self.findings@[i].id@,
                None => place_of(finding_keys(self.findings@), dedupe_key@, 0) is None,
            },
    {
        let ghost keys = finding_keys(self.findings@);
        let mut i: usize = 0;
        while i < self.findings.len()
            invariant
                i <= self.findings@.len(),
                keys == finding_keys(self.findings@),
                place_of(keys, dedupe_key@, 0) == place_of(keys, dedupe_key@, i as int),
            decreases self.findings@.len() - i,
        {
            assert(keys[i as int] == self.findings@[i as int].dedupe_key@);
            if same(self.findings[i].dedupe_key.as_str(), dedupe_key) {
                return Some(owned(self.findings[i].id.as_str()));
            }
            i += 1;
        }
        None
    }

    /// How many drafts there are.
    pub fn delivery_draft_count(&self) -> (r: usize)
        ensures
            r == self.drafts@.len(),
    {
        self.drafts.len()
    }

    /// The place of the draft with this identity.
    pub fn delivery_draft(&self, draft_id: &str) -> (r: Option<usize>)
        ensures
            match r {
                Some(i) => i < self.drafts@.len() && self.drafts@[i as int].draft.id@ == draft_id@,
                None => forall|k: int|
                    0 <= k < self.drafts@.len() ==> (#[trigger] self.drafts@[k]).draft.id@
                        != draft_id@,
            },
    {
        let mut i: usize = 0;
        while i < self.drafts.len()
            invariant
                i <= self.drafts@.len(),
                forall|k: int|
                    0 <= k < i ==> (#[trigger] self.drafts@[k]).draft.id@ != draft_id@,
            decreases self.drafts@.len() - i,
        {
            if same(self.drafts[i].draft.id.as_str(), draft_id) {
                return Some(i);
            }
            i += 1;
        }
        None
    }

    /// The place of the receipt of this draft.
    pub fn delivery_receipt(&self, draft_id: &str) -> (r: Option<usize>)
        ensures
            match r {
                Some(i) => place_of(receipt_keys(self.receipts@), draft_id@, 0) == Some(i as int)
                    && i < self.receipts@.len(),
                None => place_of(receipt_keys(self.receipts@), draft_id@, 0) is None,
            },
    {
        let ghost keys = receipt_keys(self.receipts@);
        let mut i: usize = 0;
        while i < self.receipts.len()
            invariant
                i <= self.receipts@.len(),
                keys == receipt_keys(self.receipts@),
                place_of(keys, draft_id@, 0) == place_of(keys, draft_id@, i as int),
            decreases self.receipts@.len() - i,
        {
            assert(keys[i as int] == self.receipts@[i as int].draft_id@);
            if same(self.receipts[i].draft_id.as_str(), draft_id) {
                return Some(i);
            }
            i += 1;
        }
        None
    }

    /// Writes down that a draft was sent. The first receipt stays, whatever comes later.
    pub fn mark_delivery_complete(&mut self, receipt: DeliveryReceipt)
        ensures
            final(self).receipts@ == with_receipt(old(self).receipts@, receipt),
            final(self).drafts@.len() == old(self).drafts@.len(),
            forall|k: int|
                0 <= k < old(self).drafts@.len() ==> (#[trigger] final(self).drafts@[k])
                    == (StoredDraft {
                    delivered: old(self).drafts@[k].delivered || old(self).drafts@[k].draft.id@
                        == receipt.draft_id@,
                    ..old(self).drafts@[k]
                }),
            *final(self) == (ProtectionStore {
                drafts: final(self).drafts,
                receipts: final(self).receipts,
                ..*old(self)
            }),
    {
        let ghost before = self.drafts@;
        let mut i: usize = 0;
        while i < self.drafts.len()
            invariant
                i <= self.drafts@.len(),
                self.drafts@.len() == before.len(),
                before == old(self).drafts@,
                *self == (ProtectionStore { drafts: self.drafts, ..*old(self) }),
                forall|k: int|
                    0 <= k < i ==> (#[trigger] self.drafts@[k]) == (StoredDraft {
                        delivered: before[k].delivered || before[k].draft.id@ == receipt.draft_id@,
                        ..before[k]
                    }),
                forall|k: int| i <= k < before.len() ==> #[trigger] self.drafts@[k] == before[k],
            decreases self.drafts@.len() - i,
        {
            if same(self.drafts[i].draft.id.as_str(), receipt.draft_id.as_str()) {
                self.drafts[i].delivered = true;
            }
            i += 1;
        }
        if self.delivery_receipt(receipt.draft_id.as_str()).is_none() {
            self.receipts.push(receipt);
        }
    }

    fn review_place(&self, dedupe_key: &str) -> (r: Option<usize>)
        ensures
            match r {
                Some(i) => place_of(review_keys(self.reviews@), dedupe_key@, 0) == Some(i as int)
                    && i < self.reviews@.len(),
                None => place_of(review_keys(self.reviews@), dedupe_key@, 0) is None,
            },
    {
        let ghost keys = review_keys(self.reviews@);
        let mut i: usize = 0;
        while i < self.reviews.len()
            invariant
                i <= self.reviews@.len(),
                keys == review_keys(self.reviews@),
                place_of(keys, dedupe_key@, 0) == place_of(keys, dedupe_key@, i as int),
            decreases self.reviews@.len() - i,
        {
            assert(keys[i as int] == self.reviews@[i as int].dedupe_key@);
            if same(self.reviews[i].dedupe_key.as_str(), dedupe_key) {
                return Some(i);
            }
            i += 1;
        }
        None
    }

    /// The review with this key.
    pub fn security_review(&self, dedupe_key: &str) -> (r: Option<&EvaluatedSecurityReview>)
        ensures
            match r {
                Some(review) => review_under(self.reviews@, dedupe_key@) == Some(*review),
                None => review_under(self.reviews@, dedupe_key@) is None,
            },
    {
        match self.review_place(dedupe_key) {
            Some(i) => Some(&self.reviews[i].review),
            None => None,
        }
    }

    pub fn upsert_security_review(&mut self, dedupe_key: &str, review: EvaluatedSecurityReview)
        ensures
            with_review(old(self).reviews@, dedupe_key@, review, final(self).reviews@),
            *final(self) == (ProtectionStore { reviews: final(self).reviews, ..*old(self) }),
    {
        match self.review_place(dedupe_key) {
            Some(i) => {
                self.reviews[i].review = review;
            },
            None => {
                self.reviews.push(StoredReview { dedupe_key: owned(dedupe_key), review });
            },
        }
    }

    fn contract_place(&self, dedupe_key: &str) -> (r: Option<usize>)
        ensures
            match r {
                Some(i) => place_of(contract_keys(self.contracts@), dedupe_key@, 0) == Some(i as int)
                    && i < self.contracts@.len(),
                None => place_of(contract_keys(self.contracts@), dedupe_key@, 0) is None,
            },
    {
        let ghost keys = contract_keys(self.contracts@);
        let mut i: usize = 0;
        while i < self.contracts.len()
            invariant
                i <= self.contracts@.len(),
                keys == contract_keys(self.contracts@),
                place_of(keys, dedupe_key@, 0) == place_of(keys, dedupe_key@, i as int),
            decreases self.contracts@.len() - i,
        {
            assert(keys[i as int] == self.contracts@[i as int].dedupe_key@);
            if same(self.contracts[i].dedupe_key.as_str(), dedupe_key) {
                return Some(i);
            }
            i += 1;
        }
        None
    }

    /// The verification with this key.
    pub fn contract_verification(&self, dedupe_key: &str) -> (r: Option<
        &EvaluatedContractVerification,
    >)
        ensures
            match r {
                Some(verification) => contract_under(self.contracts@, dedupe_key@) == Some(
                    *verification,
                ),
                None => contract_under(self.contracts@, dedupe_key@) is None,
            },
    {
        match self.contract_place(dedupe_key) {
            Some(i) => Some(&self.contracts[i]),
            None => None,
        }
    }

    pub fn upsert_contract_verification(&mut self, verification: EvaluatedContractVerification)
        ensures
            final(self).contracts@ == with_contract(old(self).contracts@, verification),
            *final(self) == (ProtectionStore { contracts: final(self).contracts, ..*old(self) }),
    {
        match self.contract_place(verification.dedupe_key.as_str()) {
            Some(i) => {
                self.contracts[i] = verification;
            },
            None => {
                self.contracts.push(verification);
            },
        }
    }

    fn advisory_place(&self, id: &str) -> (r: Option<usize>)
        ensures
            match r {
                Some(i) => place_of(advisory_ids(self.advisories@), id@, 0) == Some(i as int) && i
                    < self.advisories@.len(),
                None => place_of(advisory_ids(self.advisories@), id@, 0) is None,
            },
    {
        let ghost keys = advisory_ids(self.advisories@);
        let mut i: usize = 0;
        while i < self.advisories.len()
            invariant
                i <= self.advisories@.len(),
                keys == advisory_ids(self.advisories@),
                place_of(keys, id@, 0) == place_of(keys, id@, i as int),
            decreases self.advisories@.len() - i,
        {
            assert(keys[i as int] == self.advisories@[i as int].id@);
            if same(self.advisories[i].id.as_str(), id) {
                return Some(i);
            }
            i += 1;
        }
        None
    }

    /// Whether an advisory still has to be looked at in this version.
    pub fn osv_advisory_needs_processing(&self, id: &str, modified: &str) -> (r: bool)
        ensures
            r == needs_processing(self.advisories@, id@, modified@),
    {
        match self.advisory_place(id) {
            Some(i) => !(same(self.advisories[i].modified.as_str(), modified) && same(
                self.advisories[i].state.as_str(),
                "completed",
            )),
            None => true,
        }
    }

    /// Writes down how far the look at an advisory has come.
    pub fn mark_osv_advisory(
        &mut self,
        id: &str,
        modified: &str,
        state: &str,
        last_error: Option<String>,
        now: &str,
    )
        ensures
            with_observation(
                old(self).advisories@,
                id@,
                modified@,
                state@,
                last_error,
                now@,
                final(self).advisories@,
            ),
            *final(self) == (ProtectionStore { advisories: final(self).advisories, ..*old(self) }),
    {
        let row = AdvisoryObservation {
            id: owned(id),
            modified: owned(modified),
            state: owned(state),
            last_error,
            updated_at: owned(now),
        };
        match self.advisory_place(id) {
            Some(i) => {
                self.advisories[i] = row;
            },
            None => {
                self.advisories.push(row);
            },
        }
    }
}

} // verus!
