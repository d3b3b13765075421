//! What the fixed rules say of reviewed commits and of fixes, whatever the words of the model.
use vstd::prelude::*;

use crate::config::LlmConfig;
use crate::protection::guard::{Deed, Guard, GuardNews};
use crate::protection::model::{
    CommitSecurityReviewBatch, SecurityCategory, SecurityContractVerificationDecision,
    SecurityDisposition, SecurityReviewDecision,
};

verus! {

/// One of the categories is neither of the four that depend on the project.
pub open spec fn is_unacceptable(d: SecurityReviewDecision) -> bool {
    exists|i: int|
        0 <= i < d.categories@.len() && #[trigger] d.categories@[i]
            != SecurityCategory::PermanentServiceHalt && d.categories@[i]
            != SecurityCategory::ResourceExhaustion && d.categories@[i]
            != SecurityCategory::InformationDisclosure && d.categories@[i] != SecurityCategory::Other
}

pub proof fn lemma_unacceptable(d: SecurityReviewDecision)
    ensures
        crate::protection::catalog::any_universal(d.categories@) == is_unacceptable(d),
{
    if is_unacceptable(d) {
        let i = choose|i: int|
            0 <= i < d.categories@.len() && #[trigger] d.categories@[i]
                != SecurityCategory::PermanentServiceHalt && d.categories@[i]
                != SecurityCategory::ResourceExhaustion && d.categories@[i]
                != SecurityCategory::InformationDisclosure && d.categories@[i]
                != SecurityCategory::Other;
        assert(crate::protection::catalog::is_universal(d.categories@[i]));
    }
    if crate::protection::catalog::any_universal(d.categories@) {
        let i = choose|i: int|
            0 <= i < d.categories@.len() && crate::protection::catalog::is_universal(
                #[trigger] d.categories@[i],
            );
        assert(d.categories@[i] != SecurityCategory::Other);
    }
}

/// A commit is blocked exactly when it brings in a risk, nobody has shown that the project is out of its
/// reach, and the risk is unacceptable everywhere or of one of the two highest levels, or of the third
/// where the project is strict.
pub proof fn law_what_is_blocked(d: SecurityReviewDecision, strict: bool)
    ensures
        crate::protection::catalog::verdict(d, strict) is Block <==> d.introduced_risk && d.affected
            != Some(false) && d.production_reachable != Some(false) && (is_unacceptable(d)
            || d.severity is P0 || d.severity is P1 || (strict && d.severity is P2)),
{
    lemma_unacceptable(d);
}

/// What is let through without a look brings in no risk that is unsure or unproven, is no fix of weight
/// and is not waved through on the word of the model alone.
pub proof fn law_what_is_let_through(d: SecurityReviewDecision, strict: bool)
    requires
        crate::protection::catalog::verdict(d, strict) is Allow,
    ensures
        d.introduced_risk || d.security_fix_detected ==> !(d.affected == Some(false)
            || d.production_reachable == Some(false)) || !(is_unacceptable(d) || d.severity is P0
            || d.severity is P1),
        d.affected != Some(false) && d.production_reachable != Some(false) ==> {
            &&& d.introduced_risk ==> !(d.confidence is Low) && d.affected == Some(true)
                && d.production_reachable == Some(true) && !is_unacceptable(d)
            &&& d.security_fix_detected ==> !(d.severity is P0 || d.severity is P1 || d.severity is P2)
                && !(d.confidence is Low)
        },
{
    lemma_unacceptable(d);
}

/// A fix of one of the three highest levels has to be verified where it says what it fixes, and looked
/// at where it does not; nothing else is sent to verification.
pub proof fn law_what_is_verified(d: SecurityReviewDecision, strict: bool)
    ensures
        crate::protection::catalog::verdict(d, strict) is VerifyRequired ==> d.security_fix_detected
            && d.fix_contract is Some && (d.severity is P0 || d.severity is P1 || d.severity is P2),
        !d.introduced_risk && d.affected != Some(false) && d.production_reachable != Some(false)
            && d.security_fix_detected && (d.severity is P0 || d.severity is P1 || d.severity is P2)
            && d.fix_contract is Some ==> crate::protection::catalog::verdict(
            d,
            strict,
        ) is VerifyRequired,
        !d.introduced_risk && d.affected != Some(false) && d.production_reachable != Some(false)
            && d.security_fix_detected && (d.severity is P0 || d.severity is P1 || d.severity is P2)
            && d.fix_contract is None ==> crate::protection::catalog::verdict(d, strict) is NeedsReview,
{
    lemma_unacceptable(d);
}

/// A commit without a risk and without a fix is let through.
pub proof fn law_harmless_commit_is_let_through(d: SecurityReviewDecision, strict: bool)
    requires
        !d.introduced_risk,
        !d.security_fix_detected,
    ensures
        crate::protection::catalog::verdict(d, strict) is Allow,
{
}

/// Every verdict is given a reason; that of a blocked commit names its level.
pub proof fn law_verdict_is_explained(d: SecurityReviewDecision, strict: bool)
    ensures
        crate::protection::catalog::reasons(d, strict).len() > 0,
        crate::protection::catalog::verdict(d, strict) is Block ==> {
            let last = crate::protection::catalog::reasons(d, strict).last();
            &&& d.severity is P0 ==> last == "提交引入 "@ + "P0"@ + " 级安全风险"@
            &&& d.severity is P1 ==> last == "提交引入 "@ + "P1"@ + " 级安全风险"@
            &&& d.severity is P2 ==> last == "提交引入 "@ + "P2"@ + " 级安全风险"@
            &&& d.severity is P3 ==> last == "提交引入 "@ + "P3"@ + " 级安全风险"@
            &&& is_unacceptable(d) ==> crate::protection::catalog::reasons(d, strict).len() == 2
        },
{
    lemma_unacceptable(d);
}

/// The project is strict exactly when the profile is listed.
pub proof fn law_strictness_is_a_profile(profiles: Seq<String>, i: int)
    requires
        0 <= i < profiles.len(),
        profiles[i]@ == "strict"@,
    ensures
        crate::protection::catalog::is_strict(profiles),
{
    assert(crate::strings::views(profiles)[i] == "strict"@);
}

/// A check that objects stops the run and counts for nothing; one that does not counts for what it
/// checked, and for nothing else.
pub proof fn law_objections_stop_the_run(guard: Guard, news: GuardNews)
    ensures
        match news {
            GuardNews::Scanned(Ok(())) => crate::protection::guard::news_fault(news) is None
                && crate::protection::guard::learned(guard, news) == (Guard { scanned: true, ..guard }),
            GuardNews::Scanned(Err(words)) => crate::protection::guard::news_fault(news) == Some(words@)
                && crate::protection::guard::learned(guard, news) == guard,
            GuardNews::Verified(Ok(_)) => crate::protection::guard::news_fault(news) is None
                && crate::protection::guard::learned(guard, news) == (Guard { pending: false, ..guard }),
            GuardNews::Verified(Err(words)) => crate::protection::guard::news_fault(news) == Some(words@)
                && crate::protection::guard::learned(guard, news) == guard,
            GuardNews::Reviewed(None) => crate::protection::guard::news_fault(news) is None
                && crate::protection::guard::learned(guard, news) == (Guard { reviewed: true, ..guard }),
            GuardNews::Reviewed(Some(batch)) => match batch.disposition {
                SecurityDisposition::Allow => crate::protection::guard::news_fault(news) is None
                    && crate::protection::guard::learned(guard, news) == (Guard {
                    reviewed: true,
                    ..guard
                }),
                SecurityDisposition::VerifyRequired => crate::protection::guard::news_fault(news) is None
                    && crate::protection::guard::learned(guard, news) == (Guard {
                    reviewed: true,
                    pending: true,
                    ..guard
                }),
                _ => crate::protection::guard::news_fault(news) is Some
                    && crate::protection::guard::learned(guard, news) == guard,
            },
        },
{
}

/// What is still missing is asked for in order: the scan, the reviews, and before a push the
/// verification of what the reviews left open.
pub proof fn law_checks_are_asked_for_in_order(guard: Guard, deed: Deed)
    requires
        guard.protected,
        !guard.untested,
    ensures
        !guard.scanned ==> crate::protection::guard::before(guard, deed) is Scan,
        guard.scanned && !guard.reviewed ==> crate::protection::guard::before(guard, deed) is ReviewCommits,
        guard.scanned && guard.reviewed && guard.pending ==> crate::protection::guard::before(
            guard,
            Deed::Push,
        ) is VerifyContracts,
        guard.scanned && guard.reviewed && (!guard.pending || deed == Deed::Test)
            ==> crate::protection::guard::before(guard, deed) == crate::protection::guard::Before::Go(true),
{
}

/// A fix is taken as proven only where the property is there, the hole is gone, the tests show it, the
/// judgement is not a guess, and no regression test is missing.
pub proof fn law_proof_of_a_fix(d: SecurityContractVerificationDecision)
    ensures
        crate::protection::verify::is_met(d) ==> d.security_property_present
            && d.vulnerable_behavior_removed && d.regression_evidence_present && !(d.confidence is Low)
            && d.evidence@.len() > 0 && d.missing_regressions@.len() == 0,
        d.security_property_present && d.vulnerable_behavior_removed && d.regression_evidence_present
            && (d.confidence is High || d.confidence is Medium) && d.evidence@.len() > 0
            && d.missing_regressions@.len() == 0 ==> crate::protection::verify::is_met(d),
{
}

proof fn lemma_required(batch: CommitSecurityReviewBatch, from: int, i: int)
    requires
        0 <= from,
    ensures
        crate::protection::verify::required_from(batch, from).contains(i) <==> from <= i
            < batch.reviews@.len() && batch.reviews@[i].disposition is VerifyRequired,
        forall|a: int, b: int|
            0 <= a < b < crate::protection::verify::required_from(batch, from).len()
                ==> #[trigger] crate::protection::verify::required_from(batch, from)[a]
                < #[trigger] crate::protection::verify::required_from(batch, from)[b],
        forall|a: int|
            0 <= a < crate::protection::verify::required_from(batch, from).len() ==> from
                <= #[trigger] crate::protection::verify::required_from(batch, from)[a],
    decreases batch.reviews@.len() - from,
{
    if from < batch.reviews@.len() {
        lemma_required(batch, from + 1, i);
        let rest = crate::protection::verify::required_from(batch, from + 1);
        let all = crate::protection::verify::required_from(batch, from);
        if batch.reviews@[from].disposition is VerifyRequired {
            assert(all == seq![from] + rest);
            assert(all[0] == from);
            if rest.contains(i) {
                let k = rest.index_of(i);
                assert(all[k + 1] == i);
            }
            if all.contains(i) && i != from {
                let k = all.index_of(i);
                assert(rest[k - 1] == i);
            }
        }
    }
}

/// Every review that asks for verification is verified, once and in order, and no other is.
pub proof fn law_every_contract_is_verified(batch: CommitSecurityReviewBatch, i: int)
    ensures
        crate::protection::verify::required_from(batch, 0).contains(i) <==> 0 <= i
            < batch.reviews@.len() && batch.reviews@[i].disposition is VerifyRequired,
        forall|a: int, b: int|
            0 <= a < b < crate::protection::verify::required_from(batch, 0).len()
                ==> #[trigger] crate::protection::verify::required_from(batch, 0)[a]
                < #[trigger] crate::protection::verify::required_from(batch, 0)[b],
{
    lemma_required(batch, 0, i);
}

/// Without a model that is switched on nothing is verified; with one, half of the prompt is for the
/// patch.
pub proof fn law_room_for_the_patch(llm: Option<LlmConfig>)
    ensures
        match crate::protection::verify::patch_limit(llm) {
            Ok(limit) => llm is Some && llm->0.enabled && limit >= 24_576 && limit * 2
                <= llm->0.max_prompt_bytes < limit * 2 + 2,
            Err(error) => llm is None || !llm->0.enabled || llm->0.max_prompt_bytes <= 49_152,
        },
{
}

/// The output of tests is handed on whole where it is short, and marked where it is cut.
pub proof fn law_test_output_is_bounded(output: Seq<char>)
    ensures
        crate::strings::byte_count(output) <= 16_384 ==> crate::protection::verify::bounded_output(output)
            == output,
        crate::strings::byte_count(output) > 16_384 ==> crate::protection::verify::bounded_output(output)
            == crate::text::truncated(output, 16_384)
            + "\n... test output truncated by TermiteRS; process exit status was successful ...\n"@,
{
}

} // verus!
