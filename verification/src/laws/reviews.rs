//! What a range of commits is reviewed and verified by.
use vstd::prelude::*;

use crate::config::{LlmConfig, ProtectionConfig};
use crate::protection::model::{
    CommitSecurityReviewBatch, EvaluatedContractVerification, EvaluatedSecurityReview, FindingState,
    ProtectionFinding, SecurityContractVerificationDecision, SecurityDisposition, SecurityReviewDecision,
    SecuritySignal,
};
use crate::protection::review_run::{ReviewDoing, ReviewEvent, Reviewing};
use crate::protection::verify_run::{VerifyDoing, VerifyEvent, Verifying};

verus! {

/// One of the reviews came to this.
pub open spec fn some(reviews: Seq<EvaluatedSecurityReview>, d: SecurityDisposition) -> bool {
    exists|i: int| 0 <= i < reviews.len() && (#[trigger] reviews[i]).disposition == d
}

/// A range of commits is judged by its worst commit.
pub proof fn law_range_is_judged_by_its_worst(reviews: Seq<EvaluatedSecurityReview>)
    ensures
        crate::protection::review::aggregate(reviews) is Block <==> some(
            reviews,
            SecurityDisposition::Block,
        ),
        crate::protection::review::aggregate(reviews) is NeedsReview <==> !some(
            reviews,
            SecurityDisposition::Block,
        ) && some(reviews, SecurityDisposition::NeedsReview),
        crate::protection::review::aggregate(reviews) is VerifyRequired <==> !some(
            reviews,
            SecurityDisposition::Block,
        ) && !some(reviews, SecurityDisposition::NeedsReview) && some(
            reviews,
            SecurityDisposition::VerifyRequired,
        ),
{
    lemma_some(reviews, SecurityDisposition::Block);
    lemma_some(reviews, SecurityDisposition::NeedsReview);
    lemma_some(reviews, SecurityDisposition::VerifyRequired);
}

proof fn lemma_some(reviews: Seq<EvaluatedSecurityReview>, d: SecurityDisposition)
    ensures
        crate::protection::review::some_came_to(reviews, d) == some(reviews, d),
{
}

/// A commit is judged by what was said of that commit.
pub proof fn law_commit_is_judged_by_its_own_review(
    s: Reviewing,
    protection: ProtectionConfig,
    decision: SecurityReviewDecision,
    t: Reviewing,
    done: ReviewDoing,
)
    requires
        s.wf(),
        s.stage is Ask,
        crate::protection::review_run::review_step(
            s,
            protection,
            ReviewEvent::Decided(Some(decision)),
            t,
            done,
        ),
    ensures
        done is Save,
        t.reviews.len() == s.reviews.len() + 1,
        t.reviews.last().commit@ == s.commits[s.reviews.len() as int],
        t.reviews.last().decision == decision,
        t.reviews.last().disposition == crate::protection::catalog::verdict(
            decision,
            crate::strings::views(protection.profiles@).contains("strict"@),
        ),
        forall|i: int| 0 <= i < s.reviews.len() ==> #[trigger] t.reviews[i] == s.reviews[i],
{
}

/// The commits are taken in order: the next to be looked up, and to be asked about, is the first that
/// has no review yet.
pub proof fn law_commits_are_reviewed_in_order(
    s: Reviewing,
    protection: ProtectionConfig,
    event: ReviewEvent,
    t: Reviewing,
    done: ReviewDoing,
)
    requires
        s.wf(),
        crate::protection::review_run::review_fits(s.stage, event),
        crate::protection::review_run::review_step(s, protection, event, t, done),
    ensures
        done matches ReviewDoing::Ask(i) ==> i == s.reviews.len() && t.reviews == s.reviews,
        done matches ReviewDoing::Lookup(key) ==> t.reviews.len() < s.commits.len() && key
            == crate::digest::text_digest(
            "commit-review:"@ + s.project + ":"@ + s.fingerprint + ":"@
                + s.commits[t.reviews.len() as int],
        ),
        done is Done ==> t.reviews.len() == s.commits.len(),
        event matches ReviewEvent::Cached(Some(review)) ==> t.reviews == s.reviews.push(review),
{
}

/// Reviews are asked for where the project is protected and there are commits, of a model that is
/// switched on and has room; more than 512 commits are refused.
pub proof fn law_when_commits_are_reviewed(enabled: bool, commits: int, llm: Option<LlmConfig>)
    requires
        0 <= commits,
    ensures
        match crate::protection::review::review_plan(enabled, commits, llm) {
            Ok(None) => !enabled || commits == 0,
            Ok(Some(limit)) => enabled && 0 < commits <= 512 && llm is Some && llm->0.enabled
                && limit > 0 && limit + 16_384 == llm->0.max_prompt_bytes,
            Err(_) => enabled && commits > 0 && (commits > 512 || llm is None || !llm->0.enabled
                || llm->0.max_prompt_bytes <= 16_384),
        },
{
}

/// What is stored of a review says what was found: the finding is of the message, blocked commits are
/// affected and stop the build, and only what is let through or goes to verification lets it go on.
pub proof fn law_finding_of_a_review(
    signal: SecuritySignal,
    finding: ProtectionFinding,
    project: Seq<char>,
    key: Seq<char>,
    review: EvaluatedSecurityReview,
    now: Seq<char>,
)
    requires
        crate::protection::review::is_review_signal(signal, project, key, review, now),
        crate::protection::review::is_review_finding(finding, project, key, review, now),
    ensures
        finding.signal_id@ == signal.id@,
        finding.project@ == project,
        signal.project@ == project,
        signal.reference is Some && signal.reference->0@ == review.commit@,
        review.disposition is Block <==> finding.state == FindingState::Affected,
        review.disposition is NeedsReview <==> finding.state == FindingState::Uncertain,
        review.disposition is VerifyRequired <==> finding.state == FindingState::Investigating,
        review.disposition is Allow <==> finding.state == FindingState::Unaffected,
        finding.build_allowed <==> review.disposition is Allow || review.disposition is VerifyRequired,
        review.decision.introduced_risk ==> finding.classification@ == "security-risk-introduced"@,
        !review.decision.introduced_risk && review.decision.security_fix_detected
            ==> finding.classification@ == "hidden-security-fix"@,
        finding.affected == review.decision.affected,
        finding.summary@ == review.decision.summary@,
        finding.dedupe_key@ == "finding:"@ + key,
{
}

/// The words for a level and for a confidence are its own.
pub proof fn law_words_for_levels()
    ensures
        crate::protection::review::severity_word(crate::protection::model::SecuritySeverity::P0) == "p0"@,
        crate::protection::review::severity_word(crate::protection::model::SecuritySeverity::P1) == "p1"@,
        crate::protection::review::severity_word(crate::protection::model::SecuritySeverity::P2) == "p2"@,
        crate::protection::review::severity_word(crate::protection::model::SecuritySeverity::P3) == "p3"@,
        crate::protection::review::severity_word(
            crate::protection::model::SecuritySeverity::Informational,
        ) == "informational"@,
        crate::protection::review::confidence_word(crate::protection::model::SecurityConfidence::High)
            == "high"@,
        crate::protection::review::confidence_word(crate::protection::model::SecurityConfidence::Medium)
            == "medium"@,
        crate::protection::review::confidence_word(crate::protection::model::SecurityConfidence::Low)
            == "low"@,
{
}

/// A contract is held to the commit it is of; one that is not kept ends the run, one that is kept is
/// followed by the next.
pub proof fn law_contract_is_held_to_its_commit(
    s: Verifying,
    batch: CommitSecurityReviewBatch,
    event: VerifyEvent,
    t: Verifying,
    done: VerifyDoing,
)
    requires
        s.wf(batch),
        crate::protection::verify_run::verify_fits(s.stage, event),
        crate::protection::verify_run::verify_step(s, batch, event, t, done),
    ensures
        done matches VerifyDoing::Ask(i) ==> i == s.required[s.verifications.len() as int],
        event matches VerifyEvent::Decided(Some(decision)) ==> ({
            let v = t.fresh->0;
            &&& done is Save
            &&& t.fresh is Some
            &&& v.commit@ == batch.reviews@[s.required[s.verifications.len() as int]].commit@
            &&& v.decision == decision
            &&& v.dedupe_key@ == s.key
            &&& v.passed ==> decision.security_property_present && decision.vulnerable_behavior_removed
                && decision.regression_evidence_present && decision.missing_regressions@.len() == 0
        }),
        event is Saved && s.fresh->0.passed ==> !(done is Done) || t.verifications.len()
            == s.verifications.len() + 1,
        event is Saved && !s.fresh->0.passed ==> done is Fail,
        event matches VerifyEvent::Cached(Some(v)) ==> (!v.passed ==> done is Fail) && (v.passed
            ==> t.verifications == s.verifications.push(v)),
        event matches VerifyEvent::Decided(None) ==> done is Fail,
        event matches VerifyEvent::Patched(patch) ==> t.patch == patch@,
        done matches VerifyDoing::Lookup(key) ==> ({
            let review = batch.reviews@[s.required[t.verifications.len() as int]];
            &&& review.decision.fix_contract is Some
            &&& key == crate::protection::verify::verification_key(
                review.commit@,
                review.decision.fix_contract->0,
                s.tests,
                s.output,
                t.patch,
            )
        }),
{
}

} // verus!
