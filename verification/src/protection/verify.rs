//! The verification of security fixes against their contracts.
use crate::config::LlmConfig;
use crate::digest::digest_text;
use crate::json::{list_json, quote};
use crate::protection::model::{
    CommitSecurityReviewBatch, EvaluatedContractVerification, FixContract, SecurityConfidence,
    SecurityContractVerificationDecision, SecurityDisposition,
};
use crate::strings::{byte_len, join_with, owned};
use crate::text::truncate_to_char_boundary;
use vstd::prelude::*;

verus! {

pub const VERIFICATION_PROMPT_OVERHEAD_BYTES: usize = 24_576;

pub const MAX_TEST_EVIDENCE_BYTES: usize = 16_384;

#[derive(Debug, Clone)]
pub enum VerifyError {
    /// Verification needs the model.
    ModelDisabled,
    PromptTooSmall,
    /// A review that asks for verification has no contract.
    MissingContract,
    /// The contract of this commit was not met: summary and missing regressions.
    Failed(String, String, String),
}

impl VerifyError {
    pub open spec fn words(self) -> Seq<char> {
        match self {
            VerifyError::ModelDisabled => "FixContract 验证需要启用 DS"@,
            VerifyError::PromptTooSmall => "LLM max_prompt_bytes 太小，无法容纳 FixContract 验证协议"@,
            VerifyError::MissingContract => "VerifyRequired 审计缺少 FixContract"@,
            VerifyError::Failed(commit, summary, missing) => "FixContract 独立验证失败："@ + commit@
                + "："@ + summary@ + "；缺失回归："@ + missing@,
        }
    }

    /// The words in which the error is reported.
    pub fn message(&self) -> (r: String)
        ensures
            r@ == self.words(),
    {
        match self {
            VerifyError::ModelDisabled => owned("FixContract 验证需要启用 DS"),
            VerifyError::PromptTooSmall => owned(
                "LLM max_prompt_bytes 太小，无法容纳 FixContract 验证协议",
            ),
            VerifyError::MissingContract => owned("VerifyRequired 审计缺少 FixContract"),
            VerifyError::Failed(commit, summary, missing) => owned(
                "FixContract 独立验证失败：",
            ).concat(commit.as_str()).concat("：").concat(summary.as_str()).concat(
                "；缺失回归：",
            ).concat(missing.as_str()),
        }
    }
}

/// The decision shows everything that a fix owes: the property holds, the fault is gone, there are
/// regression tests and evidence, nothing is missing, and the verifier is sure enough.
pub open spec fn is_met(d: SecurityContractVerificationDecision) -> bool {
    d.security_property_present && d.vulnerable_behavior_removed && d.regression_evidence_present
        && !(d.confidence is Low) && d.evidence@.len() > 0 && d.missing_regressions@.len() == 0
}

/// Judges the verifier's decision. Whether it passed is computed, not taken over.
pub fn evaluate_contract_decision(
    commit: String,
    dedupe_key: String,
    decision: SecurityContractVerificationDecision,
) -> (r: EvaluatedContractVerification)
    ensures
        r.commit == commit,
        r.passed == is_met(decision),
        r.decision == decision,
        r.dedupe_key == dedupe_key,
{
    let passed: bool = decision.security_property_present && decision.vulnerable_behavior_removed
        && decision.regression_evidence_present && !matches!(
        decision.confidence,
        SecurityConfidence::Low
    ) && decision.evidence.len() > 0 && decision.missing_regressions.len() == 0;
    EvaluatedContractVerification { commit, passed, decision, dedupe_key }
}

/// The reviews of the batch from number `i` on that ask for verification.
pub open spec fn required_from(batch: CommitSecurityReviewBatch, i: int) -> Seq<int>
    decreases batch.reviews@.len() - i,
{
    if i < 0 || i >= batch.reviews@.len() {
        Seq::empty()
    } else if batch.reviews@[i].disposition is VerifyRequired {
        seq![i] + required_from(batch, i + 1)
    } else {
        required_from(batch, i + 1)
    }
}

pub open spec fn ints(list: Seq<usize>) -> Seq<int> {
    Seq::new(list.len(), |i: int| list[i] as int)
}

/// The numbers of the reviews that ask for verification.
pub fn required_reviews(batch: &CommitSecurityReviewBatch) -> (r: Vec<usize>)
    ensures
        ints(r@) == required_from(*batch, 0),
        forall|k: int| 0 <= k < r@.len() ==> (#[trigger] r@[k]) < batch.reviews@.len(),
{
    let mut out: Vec<usize> = Vec::new();
    let mut i: usize = 0;
    assert(Seq::<int>::empty() + required_from(*batch, 0) =~= required_from(*batch, 0));
    assert(ints(out@) =~= Seq::empty());
    while i < batch.reviews.len()
        invariant
            i <= batch.reviews@.len(),
            required_from(*batch, 0) == ints(out@) + required_from(*batch, i as int),
            forall|k: int| 0 <= k < out@.len() ==> (#[trigger] out@[k]) < batch.reviews@.len(),
        decreases batch.reviews@.len() - i,
    {
        let ghost rest = required_from(*batch, i + 1);
        match batch.reviews[i].disposition {
            SecurityDisposition::VerifyRequired => {
                let ghost before = ints(out@);
                out.push(i);
                assert(ints(out@) =~= before.push(i as int));
                assert(before + (seq![i as int] + rest) =~= before.push(i as int) + rest);
            },
            _ => {},
        }
        i += 1;
    }
    assert(ints(out@) + Seq::<int>::empty() =~= ints(out@));
    out
}

/// The bytes that the final patch may have, where the model can be asked.
pub open spec fn patch_limit(llm: Option<LlmConfig>) -> Result<int, VerifyError> {
    match llm {
        Some(llm) => if !llm.enabled {
            Err(VerifyError::ModelDisabled)
        } else if llm.max_prompt_bytes <= VERIFICATION_PROMPT_OVERHEAD_BYTES * 2 {
            Err(VerifyError::PromptTooSmall)
        } else {
            Ok(llm.max_prompt_bytes as int / 2)
        },
        None => Err(VerifyError::ModelDisabled),
    }
}

/// Checks that the model can be asked, and says how many bytes the final patch may have.
pub fn verification_limit(llm: &Option<LlmConfig>) -> (r: Result<usize, VerifyError>)
    ensures
        match r {
            Ok(limit) => patch_limit(*llm) == Ok::<int, VerifyError>(limit as int),
            Err(error) => patch_limit(*llm) == Err::<int, VerifyError>(error),
        },
{
    match llm {
        Some(llm) => if !llm.enabled {
            Err(VerifyError::ModelDisabled)
        } else if llm.max_prompt_bytes <= VERIFICATION_PROMPT_OVERHEAD_BYTES * 2 {
            Err(VerifyError::PromptTooSmall)
        } else {
            Ok(llm.max_prompt_bytes / 2)
        },
        None => Err(VerifyError::ModelDisabled),
    }
}

/// The test output as it is shown to the verifier.
pub open spec fn bounded_output(output: Seq<char>) -> Seq<char> {
    if crate::strings::byte_count(output) > MAX_TEST_EVIDENCE_BYTES {
        crate::text::truncated(output, MAX_TEST_EVIDENCE_BYTES as nat)
            + "\n... test output truncated by TermiteRS; process exit status was successful ...\n"@
    } else {
        output
    }
}

/// Shortens the test output for the verifier.
pub fn bound_test_output(output: &str) -> (r: String)
    ensures
        r@ == bounded_output(output@),
{
    let mut text = owned(output);
    if byte_len(output) > MAX_TEST_EVIDENCE_BYTES {
        truncate_to_char_boundary(&mut text, MAX_TEST_EVIDENCE_BYTES);
        text.append(
            "\n... test output truncated by TermiteRS; process exit status was successful ...\n",
        );
    }
    text
}

/// The JSON object of a contract.
pub open spec fn contract_json(c: FixContract) -> Seq<char> {
    "{\"security_property\":"@ + crate::json::json_quoted(c.security_property@)
        + ",\"vulnerable_behavior\":"@ + crate::json::json_quoted(c.vulnerable_behavior@)
        + ",\"fixed_behavior\":"@ + crate::json::json_quoted(c.fixed_behavior@)
        + ",\"attack_preconditions\":"@ + crate::json::json_list(
        crate::strings::views(c.attack_preconditions@),
    ) + ",\"regression_cases\":"@ + crate::json::json_list(
        crate::strings::views(c.regression_cases@),
    ) + "}"@
}

/// What a verification is found again by: commit, contract, tests, their output and the patch.
pub open spec fn verification_key(
    commit: Seq<char>,
    contract: FixContract,
    tests: Seq<Seq<char>>,
    output: Seq<char>,
    patch: Seq<char>,
) -> Seq<char> {
    crate::digest::text_digest(
        "["@ + crate::json::json_quoted(commit) + ","@ + contract_json(contract) + ","@
            + crate::json::json_list(tests) + ","@ + crate::json::json_quoted(output) + ","@
            + crate::json::json_quoted(patch) + "]"@,
    )
}

fn write_contract(c: &FixContract) -> (r: String)
    ensures
        r@ == contract_json(*c),
{
    owned("{\"security_property\":").concat(quote(c.security_property.as_str()).as_str()).concat(
        ",\"vulnerable_behavior\":",
    ).concat(quote(c.vulnerable_behavior.as_str()).as_str()).concat(",\"fixed_behavior\":").concat(
        quote(c.fixed_behavior.as_str()).as_str(),
    ).concat(",\"attack_preconditions\":").concat(list_json(&c.attack_preconditions).as_str()).concat(
        ",\"regression_cases\":",
    ).concat(list_json(&c.regression_cases).as_str()).concat("}")
}

/// What a verification is found again by.
pub fn verification_dedupe_key(
    commit: &str,
    contract: &FixContract,
    test_commands: &Vec<String>,
    test_output: &str,
    final_patch: &str,
) -> (r: String)
    ensures
        r@ == verification_key(
            commit@,
            *contract,
            crate::strings::views(test_commands@),
            test_output@,
            final_patch@,
        ),
{
    let source = owned("[").concat(quote(commit).as_str()).concat(",").concat(
        write_contract(contract).as_str(),
    ).concat(",").concat(list_json(test_commands).as_str()).concat(",").concat(
        quote(test_output).as_str(),
    ).concat(",").concat(quote(final_patch).as_str()).concat("]");
    digest_text(source.as_str())
}

/// The key of the verification that review number `i` asks for.
pub fn contract_key(
    batch: &CommitSecurityReviewBatch,
    i: usize,
    test_commands: &Vec<String>,
    test_output: &str,
    final_patch: &str,
) -> (r: Result<String, VerifyError>)
    requires
        i < batch.reviews@.len(),
    ensures
        match batch.reviews@[i as int].decision.fix_contract {
            Some(contract) => r matches Ok(key) && key@ == verification_key(
                batch.reviews@[i as int].commit@,
                contract,
                crate::strings::views(test_commands@),
                test_output@,
                final_patch@,
            ),
            None => r matches Err(error) && error is MissingContract,
        },
{
    match &batch.reviews[i].decision.fix_contract {
        Some(contract) => Ok(
            verification_dedupe_key(
                batch.reviews[i].commit.as_str(),
                contract,
                test_commands,
                test_output,
                final_patch,
            ),
        ),
        None => Err(VerifyError::MissingContract),
    }
}

/// Lets a verification through where it passed, and stops everything where it did not.
pub fn verify_required_contracts(verification: &EvaluatedContractVerification) -> (r: Result<
    (),
    VerifyError,
>)
    ensures
        r is Ok <==> verification.passed,
        r matches Err(error) ==> (error matches VerifyError::Failed(commit, summary, missing)
            && commit@ == verification.commit@ && summary@ == verification.decision.summary@
            && missing@ == crate::strings::join(
            crate::strings::views(verification.decision.missing_regressions@),
            "；"@,
        )),
{
    if verification.passed {
        Ok(())
    } else {
        Err(
            VerifyError::Failed(
                verification.commit.clone(),
                verification.decision.summary.clone(),
                join_with(&verification.decision.missing_regressions, "；"),
            ),
        )
    }
}

} // verus!
