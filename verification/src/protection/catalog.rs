//! The verdict on a reviewed commit: fixed rules that the words of the model cannot override.
use crate::config::ProtectionConfig;
use crate::digest::digest_text;
use crate::order::sort_strings;
use crate::protection::model::{
    EvaluatedSecurityReview, SecurityCategory, SecurityConfidence, SecurityDisposition,
    SecurityReviewDecision, SecuritySeverity,
};
use crate::strings::{is_in, join_with, owned, trim};
use vstd::prelude::*;

verus! {

/// The version of the rules, which is a part of every fingerprint.
pub open spec fn catalog_version() -> Seq<char> {
    "security-catalog-v2"@
}

/// The category is unacceptable in every project.
pub open spec fn is_universal(category: SecurityCategory) -> bool {
    !(category is PermanentServiceHalt || category is ResourceExhaustion
        || category is InformationDisclosure || category is Other)
}

/// One of the categories is unacceptable in every project.
pub open spec fn any_universal(categories: Seq<SecurityCategory>) -> bool {
    exists|i: int| 0 <= i < categories.len() && is_universal(#[trigger] categories[i])
}

/// The severity is one of the two highest.
pub open spec fn is_grave(severity: SecuritySeverity) -> bool {
    severity is P0 || severity is P1
}

/// Nobody claims that the project or its production paths are out of reach.
pub open spec fn is_applicable(d: SecurityReviewDecision) -> bool {
    d.affected != Some(false) && d.production_reachable != Some(false)
}

/// The commit changes something that matters for security.
pub open spec fn is_relevant(d: SecurityReviewDecision) -> bool {
    d.introduced_risk || d.security_fix_detected
}

/// The profile `strict` is on.
pub open spec fn is_strict(profiles: Seq<String>) -> bool {
    crate::strings::views(profiles).contains("strict"@)
}

/// The risk that the commit introduces is one that blocks it.
pub open spec fn is_blocking(d: SecurityReviewDecision, strict: bool) -> bool {
    d.introduced_risk && (any_universal(d.categories@) || is_grave(d.severity) || (strict
        && d.severity is P2))
}

/// The verdict on a commit.
pub open spec fn verdict(d: SecurityReviewDecision, strict: bool) -> SecurityDisposition {
    if !is_applicable(d) {
        if (any_universal(d.categories@) || is_grave(d.severity)) && is_relevant(d) {
            SecurityDisposition::NeedsReview
        } else {
            SecurityDisposition::Allow
        }
    } else if is_blocking(d, strict) {
        SecurityDisposition::Block
    } else if d.introduced_risk && (d.confidence is Low || d.affected is None
        || d.production_reachable is None) {
        SecurityDisposition::NeedsReview
    } else if d.security_fix_detected && (is_grave(d.severity) || d.severity is P2) {
        if d.fix_contract is Some {
            SecurityDisposition::VerifyRequired
        } else {
            SecurityDisposition::NeedsReview
        }
    } else if d.confidence is Low && is_relevant(d) {
        SecurityDisposition::NeedsReview
    } else {
        SecurityDisposition::Allow
    }
}

pub open spec fn severity_name(severity: SecuritySeverity) -> Seq<char> {
    match severity {
        SecuritySeverity::P0 => "P0"@,
        SecuritySeverity::P1 => "P1"@,
        SecuritySeverity::P2 => "P2"@,
        SecuritySeverity::P3 => "P3"@,
        SecuritySeverity::Informational => "Informational"@,
    }
}

/// The reasons that are given for the verdict.
pub open spec fn reasons(d: SecurityReviewDecision, strict: bool) -> Seq<Seq<char>> {
    if !is_applicable(d) {
        if (any_universal(d.categories@) || is_grave(d.severity)) && is_relevant(d) {
            seq!["只有模型声称当前不可达，缺少程序化依赖或运行时可达性证明，不能自动放行"@]
        } else {
            seq!["低等级问题的审计证据表明当前项目不受影响或生产路径不可达"@]
        }
    } else if is_blocking(d, strict) {
        let level = "提交引入 "@ + severity_name(d.severity) + " 级安全风险"@;
        if any_universal(d.categories@) {
            seq!["提交引入了不可接受漏洞目录中的通用能力"@, level]
        } else {
            seq![level]
        }
    } else if d.introduced_risk && (d.confidence is Low || d.affected is None
        || d.production_reachable is None) {
        seq!["提交可能引入风险，但影响或可达性证据不足"@]
    } else if d.security_fix_detected && (is_grave(d.severity) || d.severity is P2) {
        if d.fix_contract is Some {
            seq!["检测到适用的安全修复，必须独立验证 FixContract"@]
        } else {
            seq!["检测到安全修复，但 DS 未给出可验证的 FixContract"@]
        }
    } else if d.confidence is Low && is_relevant(d) {
        seq!["安全相关判断置信度过低"@]
    } else {
        seq!["未发现达到当前项目阻断阈值的适用风险"@]
    }
}

pub open spec fn fingerprint_source(
    name: Seq<char>,
    description: Seq<char>,
    profiles: Seq<Seq<char>>,
) -> Seq<char> {
    catalog_version() + "\n"@ + crate::strings::trimmed(name) + "\n"@ + crate::strings::trimmed(
        description,
    ) + "\n"@ + crate::strings::join(crate::order::sorted(profiles), ","@)
}

/// What tells the rules of one project from those of another.
pub open spec fn fingerprint(protection: ProtectionConfig) -> Seq<char> {
    crate::digest::text_digest(
        fingerprint_source(
            protection.project.name@,
            protection.project.description@,
            crate::strings::views(protection.profiles@),
        ),
    )
}

/// Whether the category is unacceptable in every project.
pub fn is_universal_category(category: &SecurityCategory) -> (r: bool)
    ensures
        r == is_universal(*category),
{
    match category {
        SecurityCategory::PermanentServiceHalt => false,
        SecurityCategory::ResourceExhaustion => false,
        SecurityCategory::InformationDisclosure => false,
        SecurityCategory::Other => false,
        _ => true,
    }
}

/// Whether one of the categories is unacceptable in every project.
pub fn has_universal_category(categories: &Vec<SecurityCategory>) -> (r: bool)
    ensures
        r == any_universal(categories@),
{
    let mut i: usize = 0;
    while i < categories.len()
        invariant
            i <= categories@.len(),
            forall|k: int| 0 <= k < i ==> !is_universal(#[trigger] categories@[k]),
        decreases categories@.len() - i,
    {
        if is_universal_category(&categories[i]) {
            assert(is_universal(categories@[i as int]));
            return true;
        }
        i += 1;
    }
    false
}

pub fn severity_str(severity: SecuritySeverity) -> (r: &'static str)
    ensures
        r@ == severity_name(severity),
{
    match severity {
        SecuritySeverity::P0 => "P0",
        SecuritySeverity::P1 => "P1",
        SecuritySeverity::P2 => "P2",
        SecuritySeverity::P3 => "P3",
        SecuritySeverity::Informational => "Informational",
    }
}

fn one(s: String) -> (r: Vec<String>)
    ensures
        crate::strings::views(r@) == seq![s@],
{
    let mut v: Vec<String> = Vec::new();
    v.push(s);
    assert(crate::strings::views(v@) =~= seq![s@]);
    v
}

/// Judges a reviewed commit by the rules of the project.
pub fn evaluate_security_review(
    commit: &str,
    decision: SecurityReviewDecision,
    protection: &ProtectionConfig,
) -> (r: EvaluatedSecurityReview)
    ensures
        r.commit@ == commit@,
        r.decision == decision,
        r.disposition == verdict(decision, is_strict(protection.profiles@)),
        crate::strings::views(r.policy_reasons@) == reasons(
            decision,
            is_strict(protection.profiles@),
        ),
        r.policy_fingerprint@ == fingerprint(*protection),
{
    let ghost d = decision;
    let applicable: bool = !matches!(decision.affected, Some(false)) && !matches!(
        decision.production_reachable,
        Some(false)
    );
    let strict: bool = is_in("strict", &protection.profiles);
    let universal: bool = has_universal_category(&decision.categories);
    let grave: bool = matches!(decision.severity, SecuritySeverity::P0 | SecuritySeverity::P1);
    let medium: bool = matches!(decision.severity, SecuritySeverity::P2);
    let unsure: bool = matches!(decision.confidence, SecurityConfidence::Low);
    let relevant: bool = decision.introduced_risk || decision.security_fix_detected;
    let (disposition, policy_reasons) = if !applicable {
        if (universal || grave) && relevant {
            (
                SecurityDisposition::NeedsReview,
                one(
                    owned(
                        "只有模型声称当前不可达，缺少程序化依赖或运行时可达性证明，不能自动放行",
                    ),
                ),
            )
        } else {
            (
                SecurityDisposition::Allow,
                one(owned("低等级问题的审计证据表明当前项目不受影响或生产路径不可达")),
            )
        }
    } else if decision.introduced_risk && (universal || grave || (strict && medium)) {
        let level = owned("提交引入 ").concat(severity_str(decision.severity)).concat(
            " 级安全风险",
        );
        if universal {
            let mut list = one(owned("提交引入了不可接受漏洞目录中的通用能力"));
            let ghost before = list@;
            list.push(level);
            assert(crate::strings::views(list@) =~= crate::strings::views(before).push(level@));
            assert(crate::strings::views(list@) =~= reasons(d, strict));
            (SecurityDisposition::Block, list)
        } else {
            (SecurityDisposition::Block, one(level))
        }
    } else if decision.introduced_risk && (unsure || decision.affected.is_none()
        || decision.production_reachable.is_none()) {
        (
            SecurityDisposition::NeedsReview,
            one(owned("提交可能引入风险，但影响或可达性证据不足")),
        )
    } else if decision.security_fix_detected && (grave || medium) {
        if decision.fix_contract.is_some() {
            (
                SecurityDisposition::VerifyRequired,
                one(owned("检测到适用的安全修复，必须独立验证 FixContract")),
            )
        } else {
            (
                SecurityDisposition::NeedsReview,
                one(owned("检测到安全修复，但 DS 未给出可验证的 FixContract")),
            )
        }
    } else if unsure && relevant {
        (SecurityDisposition::NeedsReview, one(owned("安全相关判断置信度过低")))
    } else {
        (
            SecurityDisposition::Allow,
            one(owned("未发现达到当前项目阻断阈值的适用风险")),
        )
    };
    EvaluatedSecurityReview {
        commit: owned(commit),
        decision,
        disposition,
        policy_reasons,
        policy_fingerprint: policy_fingerprint(protection),
    }
}

/// What tells the rules of one project from those of another.
pub fn policy_fingerprint(protection: &ProtectionConfig) -> (r: String)
    ensures
        r@ == fingerprint(*protection),
        r@.len() == 64,
{
    let profiles = sort_strings(&protection.profiles);
    let source = owned("security-catalog-v2").concat("\n").concat(
        trim(protection.project.name.as_str()).as_str(),
    ).concat("\n").concat(trim(protection.project.description.as_str()).as_str()).concat(
        "\n",
    ).concat(join_with(&profiles, ",").as_str());
    digest_text(source.as_str())
}

/// A commit that brings an unacceptable or grave risk into reach is blocked, however it is reported.
pub proof fn law_reachable_risk_is_blocked(d: SecurityReviewDecision, strict: bool)
    requires
        d.introduced_risk,
        is_applicable(d),
        any_universal(d.categories@) || is_grave(d.severity),
    ensures
        verdict(d, strict) == SecurityDisposition::Block,
{
}

/// A security relevant commit with an unacceptable category is never let through unseen: not even
/// where the model claims that it is out of reach.
pub proof fn law_universal_category_is_never_allowed(d: SecurityReviewDecision, strict: bool)
    requires
        is_relevant(d),
        any_universal(d.categories@),
        d.introduced_risk || !is_applicable(d) || is_grave(d.severity) || d.severity is P2,
    ensures
        verdict(d, strict) != SecurityDisposition::Allow,
{
}

/// The profile `strict` can only make a verdict stricter: it changes it to `Block` or not at all.
pub proof fn law_strict_only_blocks_more(d: SecurityReviewDecision)
    ensures
        verdict(d, true) == verdict(d, false) || verdict(d, true) == SecurityDisposition::Block,
        verdict(d, false) == SecurityDisposition::Block ==> verdict(d, true)
            == SecurityDisposition::Block,
{
}

/// Only a security fix that comes with its contract is sent to verification.
pub proof fn law_verification_needs_a_contract(d: SecurityReviewDecision, strict: bool)
    ensures
        verdict(d, strict) == SecurityDisposition::VerifyRequired ==> d.security_fix_detected
            && d.fix_contract is Some && !is_blocking(d, strict),
{
}

/// The fingerprint does not depend on the order in which the profiles are written, nor on white
/// space around the name and the description.
pub proof fn law_fingerprint_ignores_profile_order(a: ProtectionConfig, b: ProtectionConfig)
    requires
        crate::strings::trimmed(a.project.name@) == crate::strings::trimmed(b.project.name@),
        crate::strings::trimmed(a.project.description@) == crate::strings::trimmed(
            b.project.description@,
        ),
        crate::strings::views(a.profiles@).to_multiset() == crate::strings::views(
            b.profiles@,
        ).to_multiset(),
    ensures
        fingerprint(a) == fingerprint(b),
{
    crate::order::law_sorted_ignores_order(
        crate::strings::views(a.profiles@),
        crate::strings::views(b.profiles@),
    );
}

} // verus!
