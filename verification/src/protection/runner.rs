//! The static scan of a project and the records that it leaves.
use crate::config::ProtectionConfig;
use crate::paths::path_file_name;
use crate::protection::issue::prepare_issue_draft;
use crate::protection::model::{
    DeliveryDraft, FindingState, ProtectionFinding, SecuritySignal, SecuritySignalSource,
    StaticIndicator, StaticScanReport,
};
use crate::protection::supply_chain::{merge_static_reports, Indicator};
use crate::strings::{is_in, join_with, owned, push_string, same, trim, usize_to_string};
use crate::text::cut_at;
use vstd::prelude::*;

verus! {

#[derive(Debug)]
pub struct ProtectionScanOutput {
    pub signal: SecuritySignal,
    pub finding: ProtectionFinding,
    pub report: StaticScanReport,
    pub issue_draft: Option<DeliveryDraft>,
    pub recorded: bool,
}

/// The name of the project: the one that is configured, else that of its directory.
pub open spec fn project_name(configured: Seq<char>, path: Seq<char>) -> Seq<char> {
    let name = crate::strings::trimmed(configured);
    if name.len() > 0 {
        name
    } else {
        match crate::paths::file_name(path) {
            Some(name) => name,
            None => "protected-project"@,
        }
    }
}

/// The name of the project: the one that is configured, else that of its directory.
pub fn configured_project_name(configured: &str, path: &str) -> (r: String)
    ensures
        r@ == project_name(configured@, path@),
{
    let name = trim(configured);
    if !name.as_str().is_empty() {
        return name;
    }
    match path_file_name(path) {
        Some(name) => name,
        None => owned("protected-project"),
    }
}

/// The dependencies are scanned too: the checks are on, the project itself passed, and the profile
/// `rust` is on.
pub open spec fn scans_dependencies(protection: ProtectionConfig, report: StaticScanReport) -> bool {
    protection.enabled && report.build_allowed && crate::strings::views(
        protection.profiles@,
    ).contains("rust"@)
}

/// Whether the dependencies are scanned after the project itself.
pub fn needs_dependency_scan(protection: &ProtectionConfig, report: &StaticScanReport) -> (r: bool)
    ensures
        r == scans_dependencies(*protection, *report),
{
    protection.enabled && report.build_allowed && is_in("rust", &protection.profiles)
}

/// The line of evidence of an indicator.
pub open spec fn evidence_line(item: Indicator) -> Seq<char> {
    item.rule_id + " "@ + item.path + ": "@ + item.evidence
}

pub open spec fn evidence_lines(list: Seq<Indicator>) -> Seq<Seq<char>> {
    Seq::new(list.len(), |i: int| evidence_line(list[i]))
}

fn add_evidence(out: &mut Vec<String>, list: &Vec<StaticIndicator>, count: usize)
    requires
        count <= list@.len(),
    ensures
        crate::strings::views(final(out)@) == crate::strings::views(old(out)@) + evidence_lines(
            crate::protection::supply_chain::said(list@),
        ).take(count as int),
{
    let ghost all = evidence_lines(crate::protection::supply_chain::said(list@));
    let ghost before = crate::strings::views(out@);
    let mut i: usize = 0;
    while i < count
        invariant
            i <= count <= list@.len(),
            all == evidence_lines(crate::protection::supply_chain::said(list@)),
            crate::strings::views(out@) =~= before + all.take(i as int),
        decreases count - i,
    {
        let line = owned(list[i].rule_id.as_str()).concat(" ").concat(list[i].path.as_str()).concat(
            ": ",
        ).concat(list[i].evidence.as_str());
        assert(line@ == all[i as int]);
        push_string(out, line);
        i += 1;
    }
}

/// One of the blockers is a package that is known to be malicious.
pub open spec fn names_malware(list: Seq<Indicator>) -> bool {
    exists|i: int|
        0 <= i < list.len() && ((#[trigger] list[i]).rule_id == "SC-RUST-ARRAYREF-0.3.10"@
            || list[i].rule_id == "SC-RUST-TYPOSQUAT-PROC-MACRO1"@)
}

fn has_malware(list: &Vec<StaticIndicator>) -> (r: bool)
    ensures
        r == names_malware(crate::protection::supply_chain::said(list@)),
{
    let ghost all = crate::protection::supply_chain::said(list@);
    let mut i: usize = 0;
    while i < list.len()
        invariant
            i <= list@.len(),
            all == crate::protection::supply_chain::said(list@),
            forall|k: int|
                0 <= k < i ==> (#[trigger] all[k]).rule_id != "SC-RUST-ARRAYREF-0.3.10"@
                    && all[k].rule_id != "SC-RUST-TYPOSQUAT-PROC-MACRO1"@,
        decreases list@.len() - i,
    {
        let id = list[i].rule_id.as_str();
        assert(id@ == all[i as int].rule_id);
        if same(id, "SC-RUST-ARRAYREF-0.3.10") || same(id, "SC-RUST-TYPOSQUAT-PROC-MACRO1") {
            return true;
        }
        i += 1;
    }
    false
}

/// The sentence about the outcome of a scan.
pub open spec fn scan_summary(report: StaticScanReport) -> Seq<char> {
    if report.build_allowed {
        "构建前供应链静态扫描未发现阻断项"@
    } else {
        "构建前供应链静态扫描发现 "@ + crate::strings::decimal(report.blockers@.len()) + " 个阻断项"@
    }
}

pub open spec fn is_scan_signal(
    signal: SecuritySignal,
    project: Seq<char>,
    report: StaticScanReport,
    now: Seq<char>,
) -> bool {
    &&& signal.id@ == "signal-"@ + crate::text::truncated(report.dedupe_key@, 32)
    &&& signal.project@ == project
    &&& signal.source is StaticSupplyChainScan
    &&& signal.summary@ == scan_summary(report)
    &&& signal.reference is None
    &&& signal.dedupe_key@ == "static-scan:"@ + project + ":"@ + report.dedupe_key@
    &&& signal.received_at@ == now
}

pub open spec fn is_scan_finding(
    finding: ProtectionFinding,
    project: Seq<char>,
    report: StaticScanReport,
    now: Seq<char>,
) -> bool {
    let blockers = crate::protection::supply_chain::said(report.blockers@);
    let warnings = crate::protection::supply_chain::said(report.warnings@);
    &&& finding.id@ == "finding-"@ + crate::text::truncated(report.dedupe_key@, 32)
    &&& finding.project@ == project
    &&& finding.signal_id@ == "signal-"@ + crate::text::truncated(report.dedupe_key@, 32)
    &&& finding.state == (if report.build_allowed {
        FindingState::Unaffected
    } else {
        FindingState::Affected
    })
    &&& finding.classification@ == (if report.build_allowed {
        "no-static-blocker"@
    } else {
        "malicious-or-dangerous-build-dependency"@
    })
    &&& finding.severity@ == (if report.build_allowed {
        "informational"@
    } else {
        "blocker"@
    })
    &&& finding.confidence@ == (if names_malware(blockers) {
        "high"@
    } else {
        "medium"@
    })
    &&& finding.affected == Some(!report.build_allowed)
    &&& finding.build_allowed == report.build_allowed
    &&& finding.summary@ == scan_summary(report)
    &&& crate::strings::views(finding.evidence@) == evidence_lines(blockers) + evidence_lines(
        warnings,
    )
    &&& finding.dedupe_key@ == "finding:"@ + project + ":"@ + report.dedupe_key@
    &&& finding.created_at@ == now
    &&& finding.updated_at@ == now
}

/// Turns the report of a scan into the records that it leaves. They are stored where the checks are
/// on; an issue is drafted where something blocks the build and a repository is known.
pub fn run_protection_scan(
    project: &str,
    report: StaticScanReport,
    issue_repository: Option<&str>,
    enabled: bool,
    now: &str,
) -> (r: ProtectionScanOutput)
    requires
        crate::text::has_prefix_of(report.dedupe_key@, 32),
    ensures
        r.report == report,
        r.recorded == enabled,
        is_scan_signal(r.signal, project@, report, now@),
        is_scan_finding(r.finding, project@, report, now@),
        r.issue_draft is Some <==> issue_repository is Some && report.blockers@.len() > 0,
        r.issue_draft matches Some(draft) ==> crate::protection::issue::is_issue_draft(
            draft,
            r.finding.id@,
            issue_repository->0@,
            report,
            now@,
        ),
{
    let suffix = cut_at(report.dedupe_key.as_str(), 32);
    let summary = if report.build_allowed {
        owned("构建前供应链静态扫描未发现阻断项")
    } else {
        owned("构建前供应链静态扫描发现 ").concat(
            usize_to_string(report.blockers.len()).as_str(),
        ).concat(" 个阻断项")
    };
    let signal = SecuritySignal {
        id: owned("signal-").concat(suffix.as_str()),
        project: owned(project),
        source: SecuritySignalSource::StaticSupplyChainScan,
        summary: summary.clone(),
        reference: None,
        dedupe_key: owned("static-scan:").concat(project).concat(":").concat(
            report.dedupe_key.as_str(),
        ),
        received_at: owned(now),
    };
    let mut evidence: Vec<String> = Vec::new();
    assert(crate::strings::views(evidence@) =~= Seq::empty());
    add_evidence(&mut evidence, &report.blockers, report.blockers.len());
    add_evidence(&mut evidence, &report.warnings, report.warnings.len());
    proof {
        let b = evidence_lines(crate::protection::supply_chain::said(report.blockers@));
        let w = evidence_lines(crate::protection::supply_chain::said(report.warnings@));
        assert(b.take(b.len() as int) =~= b);
        assert(w.take(w.len() as int) =~= w);
        assert(crate::strings::views(evidence@) =~= b + w);
    }
    let malware: bool = has_malware(&report.blockers);
    let finding = ProtectionFinding {
        id: owned("finding-").concat(suffix.as_str()),
        project: owned(project),
        signal_id: signal.id.clone(),
        state: if report.build_allowed {
            FindingState::Unaffected
        } else {
            FindingState::Affected
        },
        classification: if report.build_allowed {
            owned("no-static-blocker")
        } else {
            owned("malicious-or-dangerous-build-dependency")
        },
        severity: if report.build_allowed {
            owned("informational")
        } else {
            owned("blocker")
        },
        confidence: if malware {
            owned("high")
        } else {
            owned("medium")
        },
        affected: Some(!report.build_allowed),
        build_allowed: report.build_allowed,
        summary,
        evidence,
        dedupe_key: owned("finding:").concat(project).concat(":").concat(
            report.dedupe_key.as_str(),
        ),
        created_at: owned(now),
        updated_at: owned(now),
    };
    let issue_draft = match issue_repository {
        Some(repository) => prepare_issue_draft(finding.id.as_str(), repository, &report, now),
        None => None,
    };
    ProtectionScanOutput { signal, finding, report, issue_draft, recorded: enabled }
}

proof fn lemma_two(list: Seq<StaticScanReport>)
    requires
        list.len() == 2,
    ensures
        crate::protection::supply_chain::all_scanned(list) == list[0].scanned_files
            + list[1].scanned_files,
        crate::protection::supply_chain::all_blockers(list)
            == crate::protection::supply_chain::said(list[0].blockers@)
            + crate::protection::supply_chain::said(list[1].blockers@),
        crate::protection::supply_chain::all_warnings(list)
            == crate::protection::supply_chain::said(list[0].warnings@)
            + crate::protection::supply_chain::said(list[1].warnings@),
{
    reveal_with_fuel(crate::protection::supply_chain::all_scanned, 3);
    reveal_with_fuel(crate::protection::supply_chain::all_blockers, 3);
    reveal_with_fuel(crate::protection::supply_chain::all_warnings, 3);
    let one = list.drop_last();
    assert(one.drop_last() =~= Seq::empty());
    assert(crate::protection::supply_chain::all_blockers(one)
        =~= crate::protection::supply_chain::said(list[0].blockers@));
    assert(crate::protection::supply_chain::all_warnings(one)
        =~= crate::protection::supply_chain::said(list[0].warnings@));
}

/// The report that counts: that of the project alone, or of the project and its dependencies.
pub fn combined_report(
    project: &str,
    root: String,
    project_report: StaticScanReport,
    dependency_report: StaticScanReport,
) -> (r: StaticScanReport)
    requires
        project_report.scanned_files + dependency_report.scanned_files <= usize::MAX,
    ensures
        crate::protection::supply_chain::is_report(
            r,
            project@,
            root@,
            project_report.scanned_files + dependency_report.scanned_files,
            crate::protection::supply_chain::said(project_report.blockers@)
                + crate::protection::supply_chain::said(dependency_report.blockers@),
            crate::protection::supply_chain::said(project_report.warnings@)
                + crate::protection::supply_chain::said(dependency_report.warnings@),
        ),
        crate::text::has_prefix_of(r.dedupe_key@, 32),
{
    let mut list: Vec<StaticScanReport> = Vec::new();
    list.push(project_report);
    list.push(dependency_report);
    proof {
        lemma_two(list@);
    }
    merge_static_reports(project, root, &list)
}

/// The words in which a blocked build is reported: the number of blockers and the first eight.
pub open spec fn gate_words(report: StaticScanReport) -> Seq<char> {
    let lines = evidence_lines(crate::protection::supply_chain::said(report.blockers@));
    "项目保护门禁发现 "@ + crate::strings::decimal(report.blockers@.len())
        + " 个供应链阻断项，已拒绝测试、构建和推送：\n"@ + crate::strings::join(
        lines.take(if lines.len() < 8 {
            lines.len() as int
        } else {
            8
        }),
        "\n"@,
    )
}

/// Lets a project be built only where the report allows it.
pub fn enforce_prebuild_gate(report: &StaticScanReport) -> (r: Result<(), String>)
    ensures
        r is Ok <==> report.build_allowed,
        r matches Err(words) ==> words@ == gate_words(*report),
{
    if report.build_allowed {
        return Ok(());
    }
    let count: usize = if report.blockers.len() < 8 {
        report.blockers.len()
    } else {
        8
    };
    let mut lines: Vec<String> = Vec::new();
    assert(crate::strings::views(lines@) =~= Seq::empty());
    add_evidence(&mut lines, &report.blockers, count);
    assert(crate::strings::views(lines@) =~= evidence_lines(
        crate::protection::supply_chain::said(report.blockers@),
    ).take(count as int));
    Err(
        owned("项目保护门禁发现 ").concat(usize_to_string(report.blockers.len()).as_str()).concat(
            " 个供应链阻断项，已拒绝测试、构建和推送：\n",
        ).concat(join_with(&lines, "\n").as_str()),
    )
}

} // verus!
