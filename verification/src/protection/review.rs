//! The review of a range of commits.
use crate::config::LlmConfig;
use crate::digest::digest_text;
use crate::protection::model::{
    CommitSecurityReviewBatch, EvaluatedSecurityReview, FindingState, ProtectionFinding,
    SecurityConfidence, SecurityDisposition, SecuritySeverity, SecuritySignal, SecuritySignalSource,
};
use crate::strings::{byte_len, copy_list, extend_list, owned, usize_to_string};
use crate::text::cut_at;
use vstd::prelude::*;

verus! {

pub const MAX_REVIEW_COMMITS: usize = 512;

pub const REVIEW_PROMPT_OVERHEAD_BYTES: usize = 16_384;

#[derive(Debug, Clone, Copy, PartialEq, Eq, Structural)]
pub enum ReviewError {
    TooManyCommits,
    /// Reviews need the model.
    ModelDisabled,
    PromptTooSmall,
    /// A hidden security fix waits for its verification.
    VerificationPending,
    /// It is not certain whether a commit is safe.
    ReviewPending,
    Blocked,
}

impl ReviewError {
    pub open spec fn words(self) -> Seq<char> {
        match self {
            ReviewError::TooManyCommits => "待审计提交超过 "@ + crate::strings::decimal(
                MAX_REVIEW_COMMITS as nat,
            ) + " 个，已拒绝继续"@,
            ReviewError::ModelDisabled => "项目保护门禁需要启用 DS 才能逐提交安全审计"@,
            ReviewError::PromptTooSmall => "LLM max_prompt_bytes 太小，无法容纳安全审计协议"@,
            ReviewError::VerificationPending => "项目保护门禁检测到隐藏安全修复，等待独立 FixContract 验证"@,
            ReviewError::ReviewPending => "项目保护门禁无法确定提交安全性，等待人工复核"@,
            ReviewError::Blocked => "项目保护门禁确认提交引入不可接受安全风险"@,
        }
    }

    /// The words in which the error is reported.
    pub fn message(&self) -> (r: String)
        ensures
            r@ == self.words(),
    {
        match self {
            ReviewError::TooManyCommits => owned("待审计提交超过 ").concat(
                usize_to_string(MAX_REVIEW_COMMITS).as_str(),
            ).concat(" 个，已拒绝继续"),
            ReviewError::ModelDisabled => owned("项目保护门禁需要启用 DS 才能逐提交安全审计"),
            ReviewError::PromptTooSmall => owned(
                "LLM max_prompt_bytes 太小，无法容纳安全审计协议",
            ),
            ReviewError::VerificationPending => owned(
                "项目保护门禁检测到隐藏安全修复，等待独立 FixContract 验证",
            ),
            ReviewError::ReviewPending => owned(
                "项目保护门禁无法确定提交安全性，等待人工复核",
            ),
            ReviewError::Blocked => owned("项目保护门禁确认提交引入不可接受安全风险"),
        }
    }
}

/// The bytes that a patch may have, where there is something to review; nothing where there is not.
pub open spec fn review_plan(enabled: bool, commits: int, llm: Option<LlmConfig>) -> Result<
    Option<int>,
    ReviewError,
> {
    if !enabled || commits == 0 {
        Ok(None)
    } else if commits > MAX_REVIEW_COMMITS {
        Err(ReviewError::TooManyCommits)
    } else {
        match llm {
            Some(llm) => if !llm.enabled {
                Err(ReviewError::ModelDisabled)
            } else if llm.max_prompt_bytes <= REVIEW_PROMPT_OVERHEAD_BYTES {
                Err(ReviewError::PromptTooSmall)
            } else {
                Ok(Some(llm.max_prompt_bytes - REVIEW_PROMPT_OVERHEAD_BYTES))
            },
            None => Err(ReviewError::ModelDisabled),
        }
    }
}

/// Decides whether a range of commits is reviewed, and how many bytes each patch may have.
pub fn run_commit_security_reviews(enabled: bool, commits: usize, llm: &Option<LlmConfig>) -> (r:
    Result<Option<usize>, ReviewError>)
    ensures
        match r {
            Ok(Some(limit)) => review_plan(enabled, commits as int, *llm) == Ok::<
                Option<int>,
                ReviewError,
            >(Some(limit as int)),
            Ok(None) => review_plan(enabled, commits as int, *llm) == Ok::<Option<int>, ReviewError>(
                None,
            ),
            Err(error) => review_plan(enabled, commits as int, *llm) == Err::<
                Option<int>,
                ReviewError,
            >(error),
        },
{
    if !enabled || commits == 0 {
        return Ok(None);
    }
    if commits > MAX_REVIEW_COMMITS {
        return Err(ReviewError::TooManyCommits);
    }
    match llm {
        Some(llm) => if !llm.enabled {
            Err(ReviewError::ModelDisabled)
        } else if llm.max_prompt_bytes <= REVIEW_PROMPT_OVERHEAD_BYTES {
            Err(ReviewError::PromptTooSmall)
        } else {
            Ok(Some(llm.max_prompt_bytes - REVIEW_PROMPT_OVERHEAD_BYTES))
        },
        None => Err(ReviewError::ModelDisabled),
    }
}

/// The words in which a patch that is too long is refused.
pub open spec fn oversized_words(bytes: nat, max_bytes: nat) -> Seq<char> {
    "安全审计补丁超过上限，已拒绝截断后放行："@ + crate::strings::decimal(bytes) + " bytes > "@
        + crate::strings::decimal(max_bytes) + " bytes"@
}

/// Takes a patch as it is or not at all: one that is too long is never cut.
pub fn whole_patch(patch: String, max_bytes: usize) -> (r: Result<String, String>)
    ensures
        match r {
            Ok(whole) => whole@ == patch@ && crate::strings::byte_count(patch@) <= max_bytes,
            Err(words) => crate::strings::byte_count(patch@) > max_bytes && words@
                == oversized_words(crate::strings::byte_count(patch@), max_bytes as nat),
        },
{
    let bytes = byte_len(patch.as_str());
    if bytes <= max_bytes {
        return Ok(patch);
    }
    Err(
        owned("安全审计补丁超过上限，已拒绝截断后放行：").concat(
            usize_to_string(bytes).as_str(),
        ).concat(" bytes > ").concat(usize_to_string(max_bytes).as_str()).concat(" bytes"),
    )
}

/// What a review is found again by.
pub open spec fn review_key(project: Seq<char>, fingerprint: Seq<char>, commit: Seq<char>) -> Seq<
    char,
> {
    crate::digest::text_digest(
        "commit-review:"@ + project + ":"@ + fingerprint + ":"@ + commit,
    )
}

/// What a review is found again by.
pub fn review_dedupe_key(project: &str, policy_fingerprint: &str, commit: &str) -> (r: String)
    ensures
        r@ == review_key(project@, policy_fingerprint@, commit@),
        crate::text::has_prefix_of(r@, 32),
{
    digest_text(
        owned("commit-review:").concat(project).concat(":").concat(policy_fingerprint).concat(
            ":",
        ).concat(commit).as_str(),
    )
}

/// One of the reviews came to the disposition `d`.
pub open spec fn some_came_to(reviews: Seq<EvaluatedSecurityReview>, d: SecurityDisposition) -> bool {
    exists|i: int| 0 <= i < reviews.len() && (#[trigger] reviews[i]).disposition == d
}

/// The gravest disposition of the reviews.
pub open spec fn aggregate(reviews: Seq<EvaluatedSecurityReview>) -> SecurityDisposition {
    if some_came_to(reviews, SecurityDisposition::Block) {
        SecurityDisposition::Block
    } else if some_came_to(reviews, SecurityDisposition::NeedsReview) {
        SecurityDisposition::NeedsReview
    } else if some_came_to(reviews, SecurityDisposition::VerifyRequired) {
        SecurityDisposition::VerifyRequired
    } else {
        SecurityDisposition::Allow
    }
}

fn any_came_to(reviews: &[EvaluatedSecurityReview], d: SecurityDisposition) -> (r: bool)
    ensures
        r == some_came_to(reviews@, d),
{
    let mut i: usize = 0;
    while i < reviews.len()
        invariant
            i <= reviews@.len(),
            forall|k: int| 0 <= k < i ==> (#[trigger] reviews@[k]).disposition != d,
        decreases reviews@.len() - i,
    {
        if reviews[i].disposition == d {
            assert(reviews@[i as int].disposition == d);
            return true;
        }
        i += 1;
    }
    false
}

/// The gravest disposition of the reviews.
pub fn aggregate_disposition(reviews: &[EvaluatedSecurityReview]) -> (r: SecurityDisposition)
    ensures
        r == aggregate(reviews@),
{
    if any_came_to(reviews, SecurityDisposition::Block) {
        SecurityDisposition::Block
    } else if any_came_to(reviews, SecurityDisposition::NeedsReview) {
        SecurityDisposition::NeedsReview
    } else if any_came_to(reviews, SecurityDisposition::VerifyRequired) {
        SecurityDisposition::VerifyRequired
    } else {
        SecurityDisposition::Allow
    }
}

/// Puts the reviews of a range together.
pub fn review_batch(
    project: &str,
    from: &str,
    to: &str,
    reviews: Vec<EvaluatedSecurityReview>,
    cache_hits: usize,
) -> (r: CommitSecurityReviewBatch)
    ensures
        r.project@ == project@,
        r.from@ == from@,
        r.to@ == to@,
        r.reviews == reviews,
        r.disposition == aggregate(reviews@),
        r.cache_hits == cache_hits,
{
    let disposition = aggregate_disposition(reviews.as_slice());
    CommitSecurityReviewBatch {
        project: owned(project),
        from: owned(from),
        to: owned(to),
        reviews,
        disposition,
        cache_hits,
    }
}

/// Lets a batch through only where every commit in it is allowed.
pub fn ensure_reviews_can_proceed(batch: &CommitSecurityReviewBatch) -> (r: Result<(), ReviewError>)
    ensures
        r == (match batch.disposition {
            SecurityDisposition::Allow => Ok::<(), ReviewError>(()),
            SecurityDisposition::VerifyRequired => Err(ReviewError::VerificationPending),
            SecurityDisposition::NeedsReview => Err(ReviewError::ReviewPending),
            SecurityDisposition::Block => Err(ReviewError::Blocked),
        }),
{
    match batch.disposition {
        SecurityDisposition::Allow => Ok(()),
        SecurityDisposition::VerifyRequired => Err(ReviewError::VerificationPending),
        SecurityDisposition::NeedsReview => Err(ReviewError::ReviewPending),
        SecurityDisposition::Block => Err(ReviewError::Blocked),
    }
}

/// A single commit that is blocked blocks the batch, and the batch is allowed only where every
/// commit is.
pub proof fn law_aggregate_never_hides_a_commit(reviews: Seq<EvaluatedSecurityReview>, i: int)
    requires
        0 <= i < reviews.len(),
    ensures
        reviews[i].disposition is Block ==> aggregate(reviews) is Block,
        aggregate(reviews) is Allow ==> reviews[i].disposition is Allow,
{
    assert(reviews[i].disposition == reviews[i].disposition);
}

/// Adding a commit to a range never turns a batch that is not allowed into one that is.
pub proof fn law_more_commits_never_allow(
    reviews: Seq<EvaluatedSecurityReview>,
    more: EvaluatedSecurityReview,
)
    ensures
        aggregate(reviews.push(more)) is Allow <==> aggregate(reviews) is Allow
            && more.disposition is Allow,
        aggregate(reviews) is Block ==> aggregate(reviews.push(more)) is Block,
{
    let all = reviews.push(more);
    assert forall|d: SecurityDisposition|
        some_came_to(all, d) <==> some_came_to(reviews, d) || more.disposition == d by {
        if some_came_to(reviews, d) {
            let i = choose|i: int| 0 <= i < reviews.len() && (#[trigger] reviews[i]).disposition == d;
            assert(all[i] == reviews[i]);
        }
        if more.disposition == d {
            assert(all[reviews.len() as int] == more);
        }
        if some_came_to(all, d) {
            let i = choose|i: int| 0 <= i < all.len() && (#[trigger] all[i]).disposition == d;
            if i < reviews.len() {
                assert(reviews[i] == all[i]);
            }
        }
    }
}

/// The severity as it is stored.
pub open spec fn severity_word(severity: SecuritySeverity) -> Seq<char> {
    match severity {
        SecuritySeverity::P0 => "p0"@,
        SecuritySeverity::P1 => "p1"@,
        SecuritySeverity::P2 => "p2"@,
        SecuritySeverity::P3 => "p3"@,
        SecuritySeverity::Informational => "informational"@,
    }
}

pub fn severity_stored(severity: SecuritySeverity) -> (r: &'static str)
    ensures
        r@ == severity_word(severity),
{
    match severity {
        SecuritySeverity::P0 => "p0",
        SecuritySeverity::P1 => "p1",
        SecuritySeverity::P2 => "p2",
        SecuritySeverity::P3 => "p3",
        SecuritySeverity::Informational => "informational",
    }
}

/// The confidence as it is stored.
pub open spec fn confidence_word(confidence: SecurityConfidence) -> Seq<char> {
    match confidence {
        SecurityConfidence::High => "high"@,
        SecurityConfidence::Medium => "medium"@,
        SecurityConfidence::Low => "low"@,
    }
}

pub fn confidence_stored(confidence: SecurityConfidence) -> (r: &'static str)
    ensures
        r@ == confidence_word(confidence),
{
    match confidence {
        SecurityConfidence::High => "high",
        SecurityConfidence::Medium => "medium",
        SecurityConfidence::Low => "low",
    }
}

/// The signal that stands for a reviewed commit.
pub open spec fn is_review_signal(
    signal: SecuritySignal,
    project: Seq<char>,
    key: Seq<char>,
    review: EvaluatedSecurityReview,
    now: Seq<char>,
) -> bool {
    &&& signal.id@ == "signal-review-"@ + crate::text::truncated(key, 32)
    &&& signal.project@ == project
    &&& signal.source is UpstreamCommit
    &&& signal.summary@ == review.decision.summary@
    &&& crate::strings::opt_view(signal.reference) == Some(review.commit@)
    &&& signal.dedupe_key@ == "signal:"@ + key
    &&& signal.received_at@ == now
}

pub open spec fn state_of(d: SecurityDisposition) -> FindingState {
    match d {
        SecurityDisposition::Allow => FindingState::Unaffected,
        SecurityDisposition::VerifyRequired => FindingState::Investigating,
        SecurityDisposition::NeedsReview => FindingState::Uncertain,
        SecurityDisposition::Block => FindingState::Affected,
    }
}

/// The finding that a reviewed commit leads to.
pub open spec fn is_review_finding(
    finding: ProtectionFinding,
    project: Seq<char>,
    key: Seq<char>,
    review: EvaluatedSecurityReview,
    now: Seq<char>,
) -> bool {
    &&& finding.id@ == "finding-review-"@ + crate::text::truncated(key, 32)
    &&& finding.project@ == project
    &&& finding.signal_id@ == "signal-review-"@ + crate::text::truncated(key, 32)
    &&& finding.state == state_of(review.disposition)
    &&& finding.classification@ == (if review.decision.introduced_risk {
        "security-risk-introduced"@
    } else if review.decision.security_fix_detected {
        "hidden-security-fix"@
    } else {
        "no-security-change"@
    })
    &&& finding.severity@ == severity_word(review.decision.severity)
    &&& finding.confidence@ == confidence_word(review.decision.confidence)
    &&& finding.affected == review.decision.affected
    &&& finding.build_allowed == (review.disposition is Allow || review.disposition is VerifyRequired)
    &&& finding.summary@ == review.decision.summary@
    &&& crate::strings::views(finding.evidence@) == crate::strings::views(review.decision.evidence@)
        + crate::strings::views(review.policy_reasons@)
    &&& finding.dedupe_key@ == "finding:"@ + key
    &&& finding.created_at@ == now
    &&& finding.updated_at@ == now
}

/// The records that a reviewed commit leaves.
pub fn persist_review_finding(
    project: &str,
    dedupe_key: &str,
    review: &EvaluatedSecurityReview,
    now: &str,
) -> (r: (SecuritySignal, ProtectionFinding))
    requires
        crate::text::has_prefix_of(dedupe_key@, 32),
    ensures
        is_review_signal(r.0, project@, dedupe_key@, *review, now@),
        is_review_finding(r.1, project@, dedupe_key@, *review, now@),
{
    let suffix = cut_at(dedupe_key, 32);
    let signal = SecuritySignal {
        id: owned("signal-review-").concat(suffix.as_str()),
        project: owned(project),
        source: SecuritySignalSource::UpstreamCommit,
        summary: review.decision.summary.clone(),
        reference: Some(review.commit.clone()),
        dedupe_key: owned("signal:").concat(dedupe_key),
        received_at: owned(now),
    };
    let mut evidence = copy_list(&review.decision.evidence);
    extend_list(&mut evidence, &review.policy_reasons);
    let classification = if review.decision.introduced_risk {
        owned("security-risk-introduced")
    } else if review.decision.security_fix_detected {
        owned("hidden-security-fix")
    } else {
        owned("no-security-change")
    };
    let (state, build_allowed) = match review.disposition {
        SecurityDisposition::Allow => (FindingState::Unaffected, true),
        SecurityDisposition::VerifyRequired => (FindingState::Investigating, true),
        SecurityDisposition::NeedsReview => (FindingState::Uncertain, false),
        SecurityDisposition::Block => (FindingState::Affected, false),
    };
    let finding = ProtectionFinding {
        id: owned("finding-review-").concat(suffix.as_str()),
        project: owned(project),
        signal_id: signal.id.clone(),
        state,
        classification,
        severity: owned(severity_stored(review.decision.severity)),
        confidence: owned(confidence_stored(review.decision.confidence)),
        affected: review.decision.affected,
        build_allowed,
        summary: review.decision.summary.clone(),
        evidence,
        dedupe_key: owned("finding:").concat(dedupe_key),
        created_at: owned(now),
        updated_at: owned(now),
    };
    (signal, finding)
}

} // verus!
