//! Drafts of issues. Nothing here sends them.
use crate::protection::model::{
    DeliveryDraft, DeliveryKind, EvaluatedSecurityReview, ProtectionFinding, SecurityDisposition,
    StaticIndicator, StaticScanReport,
};
use crate::protection::supply_chain::Indicator;
use crate::strings::{
    list_of, owned, split_on, strip_prefix, trim_end_char, trim_end_str, usize_to_string,
};
use crate::text::cut_at;
use vstd::prelude::*;

verus! {

/// What follows the address of the host in the address of a repository there.
pub open spec fn repository_path(remote: Seq<char>) -> Option<Seq<char>> {
    if crate::strings::starts(remote, "git@github.com:"@) {
        Some(remote.skip("git@github.com:"@.len() as int))
    } else if crate::strings::starts(remote, "https://github.com/"@) {
        Some(remote.skip("https://github.com/"@.len() as int))
    } else if crate::strings::starts(remote, "ssh://git@github.com/"@) {
        Some(remote.skip("ssh://git@github.com/"@.len() as int))
    } else {
        None
    }
}

/// Owner and name of a repository, where the remote is one on GitHub.
pub open spec fn repository_of(remote: Seq<char>) -> Option<Seq<char>> {
    match repository_path(remote) {
        None => None,
        Some(path) => {
            let parts = crate::strings::split(
                crate::strings::trim_back_str(crate::strings::trim_back_char(path, '/'), ".git"@),
                '/',
            );
            if parts.len() == 2 && parts[0].len() > 0 && parts[1].len() > 0 {
                Some(parts[0] + "/"@ + parts[1])
            } else {
                None
            }
        },
    }
}

fn after_host(remote: &str) -> (r: Option<String>)
    ensures
        crate::strings::opt_view(r) == repository_path(remote@),
{
    let a = strip_prefix(remote, "git@github.com:");
    if let Some(rest) = a {
        proof {
            lemma_strip(remote@, "git@github.com:"@, rest@);
        }
        return Some(rest);
    }
    let b = strip_prefix(remote, "https://github.com/");
    if let Some(rest) = b {
        proof {
            lemma_strip(remote@, "https://github.com/"@, rest@);
        }
        return Some(rest);
    }
    let c = strip_prefix(remote, "ssh://git@github.com/");
    if let Some(rest) = c {
        proof {
            lemma_strip(remote@, "ssh://git@github.com/"@, rest@);
        }
        return Some(rest);
    }
    None
}

pub proof fn lemma_strip(s: Seq<char>, p: Seq<char>, rest: Seq<char>)
    requires
        s == p + rest,
    ensures
        crate::strings::starts(s, p),
        s.skip(p.len() as int) == rest,
{
    assert(s.subrange(0, p.len() as int) =~= p);
    assert(s.skip(p.len() as int) =~= rest);
}

/// Owner and name of a repository, where the remote is one on GitHub.
pub fn github_repository_from_remote(remote: &str) -> (r: Option<String>)
    ensures
        crate::strings::opt_view(r) == repository_of(remote@),
{
    match after_host(remote) {
        None => None,
        Some(path) => {
            let path = trim_end_str(trim_end_char(path.as_str(), '/').as_str(), ".git");
            let parts = split_on(path.as_str(), '/');
            let ghost pieces = crate::strings::views(parts@);
            if parts.len() != 2 {
                return None;
            }
            assert(parts@[0]@ == pieces[0] && parts@[1]@ == pieces[1]);
            if parts[0].as_str().is_empty() || parts[1].as_str().is_empty() {
                None
            } else {
                Some(owned(parts[0].as_str()).concat("/").concat(parts[1].as_str()))
            }
        },
    }
}

/// The line of an issue about one indicator.
pub open spec fn indicator_line(item: Indicator) -> Seq<char> {
    "- ["@ + item.rule_id + "] "@ + item.summary + "（"@ + item.path + "）："@ + item.evidence + "\n"@
}

pub open spec fn indicator_lines(list: Seq<Indicator>) -> Seq<char>
    decreases list.len(),
{
    if list.len() == 0 {
        Seq::empty()
    } else {
        indicator_lines(list.drop_last()) + indicator_line(list.last())
    }
}

/// The text of the issue about a blocked build.
pub open spec fn issue_body(report: StaticScanReport) -> Seq<char> {
    "TermiteRS 在执行任何项目构建之前发现供应链阻断项。\n\n项目："@ + report.project@ + "\n扫描文件："@
        + crate::strings::decimal(report.scanned_files as nat)
        + "\n构建状态：已阻止\n\n证据：\n"@ + indicator_lines(
        crate::protection::supply_chain::said(report.blockers@),
    ) + "\n该草稿尚未发送，需要人工确认目标仓库和公开范围。\n"@
}

fn add_indicator_lines(body: &mut String, list: &Vec<StaticIndicator>)
    ensures
        final(body)@ == old(body)@ + indicator_lines(crate::protection::supply_chain::said(list@)),
{
    let ghost all = crate::protection::supply_chain::said(list@);
    let ghost before = body@;
    let mut i: usize = 0;
    assert(all.take(0) =~= Seq::empty());
    assert(before + Seq::<char>::empty() =~= before);
    while i < list.len()
        invariant
            i <= list@.len(),
            all == crate::protection::supply_chain::said(list@),
            body@ == before + indicator_lines(all.take(i as int)),
        decreases list@.len() - i,
    {
        assert(all.take(i + 1).drop_last() =~= all.take(i as int));
        let line = owned("- [").concat(list[i].rule_id.as_str()).concat("] ").concat(
            list[i].summary.as_str(),
        ).concat("（").concat(list[i].path.as_str()).concat("）：").concat(
            list[i].evidence.as_str(),
        ).concat("\n");
        assert(line@ == indicator_line(all[i as int]));
        let ghost prior = body@;
        body.append(line.as_str());
        assert(body@ =~= before + indicator_lines(all.take(i + 1)));
        i += 1;
    }
    assert(all.take(all.len() as int) =~= all);
}

/// The draft of an issue about a blocked build.
pub open spec fn is_issue_draft(
    draft: DeliveryDraft,
    finding_id: Seq<char>,
    repository: Seq<char>,
    report: StaticScanReport,
    now: Seq<char>,
) -> bool {
    &&& draft.id@ == "draft-"@ + crate::text::truncated(report.dedupe_key@, 32)
    &&& draft.finding_id@ == finding_id
    &&& draft.kind is GithubIssue
    &&& draft.destination@ == repository
    &&& draft.title@ == "[供应链阻断] "@ + report.project@ + " 检测到高危依赖行为"@
    &&& draft.body@ == issue_body(report)
    &&& crate::strings::views(draft.labels@) == seq!["security"@, "supply-chain"@, "blocker"@]
    &&& draft.dedupe_key@ == "github-issue:"@ + report.project@ + ":"@ + report.dedupe_key@
    &&& draft.approval_required
    &&& draft.created_at@ == now
}

/// Drafts an issue where something blocks the build. It needs approval before it is sent.
pub fn prepare_issue_draft(finding_id: &str, repository: &str, report: &StaticScanReport, now: &str)
    -> (r: Option<DeliveryDraft>)
    requires
        report.blockers@.len() > 0 ==> crate::text::has_prefix_of(report.dedupe_key@, 32),
    ensures
        r is Some <==> report.blockers@.len() > 0,
        r matches Some(draft) ==> is_issue_draft(draft, finding_id@, repository@, *report, now@),
{
    if report.blockers.len() == 0 {
        return None;
    }
    let mut body = owned(
        "TermiteRS 在执行任何项目构建之前发现供应链阻断项。\n\n项目：",
    ).concat(report.project.as_str()).concat("\n扫描文件：").concat(
        usize_to_string(report.scanned_files).as_str(),
    ).concat("\n构建状态：已阻止\n\n证据：\n");
    add_indicator_lines(&mut body, &report.blockers);
    body.append("\n该草稿尚未发送，需要人工确认目标仓库和公开范围。\n");
    let labels = ["security", "supply-chain", "blocker"];
    assert(crate::strings::str_views(labels@) =~= seq!["security"@, "supply-chain"@, "blocker"@]);
    Some(
        DeliveryDraft {
            id: owned("draft-").concat(cut_at(report.dedupe_key.as_str(), 32).as_str()),
            finding_id: owned(finding_id),
            kind: DeliveryKind::GithubIssue,
            destination: owned(repository),
            title: owned("[供应链阻断] ").concat(report.project.as_str()).concat(
                " 检测到高危依赖行为",
            ),
            body,
            labels: list_of(&labels),
            dedupe_key: owned("github-issue:").concat(report.project.as_str()).concat(":").concat(
                report.dedupe_key.as_str(),
            ),
            approval_required: true,
            created_at: owned(now),
        },
    )
}

pub open spec fn disposition_name(d: SecurityDisposition) -> Seq<char> {
    match d {
        SecurityDisposition::Allow => "Allow"@,
        SecurityDisposition::VerifyRequired => "VerifyRequired"@,
        SecurityDisposition::NeedsReview => "NeedsReview"@,
        SecurityDisposition::Block => "Block"@,
    }
}

fn disposition_str(d: SecurityDisposition) -> (r: &'static str)
    ensures
        r@ == disposition_name(d),
{
    match d {
        SecurityDisposition::Allow => "Allow",
        SecurityDisposition::VerifyRequired => "VerifyRequired",
        SecurityDisposition::NeedsReview => "NeedsReview",
        SecurityDisposition::Block => "Block",
    }
}

/// One line for each text, behind a dash.
pub open spec fn dashed(list: Seq<Seq<char>>) -> Seq<char>
    decreases list.len(),
{
    if list.len() == 0 {
        Seq::empty()
    } else {
        dashed(list.drop_last()) + ("- "@ + list.last() + "\n"@)
    }
}

/// Adds one line for each text, behind a dash.
pub fn add_dashed(body: &mut String, list: &Vec<String>)
    ensures
        final(body)@ == old(body)@ + dashed(crate::strings::views(list@)),
{
    let ghost all = crate::strings::views(list@);
    let ghost before = body@;
    let mut i: usize = 0;
    assert(all.take(0) =~= Seq::empty());
    assert(before + Seq::<char>::empty() =~= before);
    while i < list.len()
        invariant
            i <= list@.len(),
            all == crate::strings::views(list@),
            body@ == before + dashed(all.take(i as int)),
        decreases list@.len() - i,
    {
        assert(all.take(i + 1).drop_last() =~= all.take(i as int));
        let line = owned("- ").concat(list[i].as_str()).concat("\n");
        body.append(line.as_str());
        assert(body@ =~= before + dashed(all.take(i + 1)));
        i += 1;
    }
    assert(all.take(all.len() as int) =~= all);
}

/// The text of the issue about a commit that was stopped.
pub open spec fn review_body(finding: ProtectionFinding, review: EvaluatedSecurityReview) -> Seq<
    char,
> {
    "TermiteRS 的项目保护门禁停止了提交 "@ + review.commit@ + " 的自动投送。\n\n项目："@
        + finding.project@ + "\n结论："@ + disposition_name(review.disposition) + "\n等级："@
        + crate::protection::catalog::severity_name(review.decision.severity) + "\n摘要："@
        + review.decision.summary@ + "\n\n策略依据：\n"@ + dashed(
        crate::strings::views(review.policy_reasons@),
    )
        + "\n详细证据保存在 TermiteRS 本地 Finding 中。公开前需要人工确认披露范围和目标仓库。\n"@
}

/// Drafts an issue about a commit that was not let through. It needs approval before it is sent.
pub fn prepare_security_review_issue_draft(
    finding: &ProtectionFinding,
    review: &EvaluatedSecurityReview,
    repository: &str,
    now: &str,
) -> (r: Option<DeliveryDraft>)
    requires
        !(review.disposition is Allow) ==> crate::text::has_prefix_of(finding.dedupe_key@, 32),
    ensures
        r is Some <==> !(review.disposition is Allow),
        r matches Some(draft) ==> {
            &&& draft.id@ == "draft-review-"@ + crate::text::truncated(finding.dedupe_key@, 32)
            &&& draft.finding_id@ == finding.id@
            &&& draft.kind is GithubIssue
            &&& draft.destination@ == repository@
            &&& draft.title@ == "[安全门禁] "@ + finding.project@ + " 提交需要处理"@
            &&& draft.body@ == review_body(*finding, *review)
            &&& crate::strings::views(draft.labels@) == seq!["security"@, "termiters"@]
            &&& draft.dedupe_key@ == "github-review-issue:"@ + finding.dedupe_key@
            &&& draft.approval_required
            &&& draft.created_at@ == now@
        },
{
    match review.disposition {
        SecurityDisposition::Allow => {
            return None;
        },
        _ => {},
    }
    let mut body = owned("TermiteRS 的项目保护门禁停止了提交 ").concat(
        review.commit.as_str(),
    ).concat(" 的自动投送。\n\n项目：").concat(finding.project.as_str()).concat(
        "\n结论：",
    ).concat(disposition_str(review.disposition)).concat("\n等级：").concat(
        crate::protection::catalog::severity_str(review.decision.severity),
    ).concat("\n摘要：").concat(review.decision.summary.as_str()).concat(
        "\n\n策略依据：\n",
    );
    add_dashed(&mut body, &review.policy_reasons);
    body.append(
        "\n详细证据保存在 TermiteRS 本地 Finding 中。公开前需要人工确认披露范围和目标仓库。\n",
    );
    let labels = ["security", "termiters"];
    assert(crate::strings::str_views(labels@) =~= seq!["security"@, "termiters"@]);
    Some(
        DeliveryDraft {
            id: owned("draft-review-").concat(cut_at(finding.dedupe_key.as_str(), 32).as_str()),
            finding_id: finding.id.clone(),
            kind: DeliveryKind::GithubIssue,
            destination: owned(repository),
            title: owned("[安全门禁] ").concat(finding.project.as_str()).concat(
                " 提交需要处理",
            ),
            body,
            labels: list_of(&labels),
            dedupe_key: owned("github-review-issue:").concat(finding.dedupe_key.as_str()),
            approval_required: true,
            created_at: owned(now),
        },
    )
}

} // verus!
