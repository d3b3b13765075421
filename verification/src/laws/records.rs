//! What is kept of the security checks, and what a scan leaves behind.
use vstd::prelude::*;

use crate::protection::closure::Sourced;
use crate::protection::inquiry::{InquiryDoing, InquiryEvent, InquiryRun, InquiryStage};
use crate::protection::model::{
    CandidateArtifact, DeliveryDraft, FindingState, ProtectionFinding, RemediationPlan, SecuritySignal,
    StaticScanReport, VerificationResult,
};
use crate::protection::store::{DeliveryReceipt, StoredDraft};
use crate::protection::supply_chain::Indicator;

verus! {

proof fn lemma_place(keys: Seq<Seq<char>>, key: Seq<char>, from: int)
    requires
        0 <= from,
    ensures
        match crate::protection::store::place_of(keys, key, from) {
            Some(i) => from <= i < keys.len() && keys[i] == key && forall|k: int|
                from <= k < i ==> #[trigger] keys[k] != key,
            None => forall|k: int| from <= k < keys.len() ==> #[trigger] keys[k] != key,
        },
    decreases keys.len() - from,
{
    if from < keys.len() && keys[from] != key {
        lemma_place(keys, key, from + 1);
    }
}

/// A message that comes again renews the one that is there; one that is new is added.
pub proof fn law_signal_is_kept(rows: Seq<SecuritySignal>, new: SecuritySignal)
    ensures
        ({
            let after = crate::protection::store::with_signal(rows, new);
            &&& (forall|i: int| 0 <= i < rows.len() ==> (#[trigger] rows[i]).dedupe_key@ != new.dedupe_key@)
                ==> after == rows.push(new)
            &&& (exists|i: int| 0 <= i < rows.len() && (#[trigger] rows[i]).dedupe_key@ == new.dedupe_key@) ==> {
                &&& after.len() == rows.len()
                &&& exists|i: int| 0 <= i < rows.len() && is_renewed_signal(rows, new, after, i)
            }
        }),
{
    let keys = crate::protection::store::signal_keys(rows);
    lemma_place(keys, new.dedupe_key@, 0);
    let after = crate::protection::store::with_signal(rows, new);
    if exists|i: int| 0 <= i < rows.len() && (#[trigger] rows[i]).dedupe_key@ == new.dedupe_key@ {
        let k = choose|k: int| 0 <= k < rows.len() && (#[trigger] rows[k]).dedupe_key@ == new.dedupe_key@;
        assert(keys[k] == new.dedupe_key@);
        let i = crate::protection::store::place_of(keys, new.dedupe_key@, 0)->0;
        assert(keys[i] == rows[i].dedupe_key@);
        assert(is_renewed_signal(rows, new, after, i));
    } else {
        if crate::protection::store::place_of(keys, new.dedupe_key@, 0) is Some {
            let i = crate::protection::store::place_of(keys, new.dedupe_key@, 0)->0;
            assert(rows[i].dedupe_key@ == new.dedupe_key@);
        }
    }
}

/// Record `i` has what the new one says, keeps what it is known by, and the others are as they were.
pub open spec fn is_renewed_signal(rows: Seq<SecuritySignal>, new: SecuritySignal, after: Seq<SecuritySignal>, i: int) -> bool {
    &&& rows[i].dedupe_key@ == new.dedupe_key@
    &&& after[i].summary == new.summary && after[i].reference == new.reference
    &&& after[i].id == rows[i].id && after[i].project == rows[i].project && after[i].source == rows[i].source && after[i].dedupe_key == rows[i].dedupe_key && after[i].received_at == rows[i].received_at
    &&& forall|k: int| 0 <= k < rows.len() && k != i ==> #[trigger] after[k] == rows[k]
}

/// A finding that comes again renews the one that is there, its state and whether a build goes on included; one that is new is added.
pub proof fn law_finding_is_kept(rows: Seq<ProtectionFinding>, new: ProtectionFinding)
    ensures
        ({
            let after = crate::protection::store::with_finding(rows, new);
            &&& (forall|i: int| 0 <= i < rows.len() ==> (#[trigger] rows[i]).dedupe_key@ != new.dedupe_key@)
                ==> after == rows.push(new)
            &&& (exists|i: int| 0 <= i < rows.len() && (#[trigger] rows[i]).dedupe_key@ == new.dedupe_key@) ==> {
                &&& after.len() == rows.len()
                &&& exists|i: int| 0 <= i < rows.len() && is_renewed_finding(rows, new, after, i)
            }
        }),
{
    let keys = crate::protection::store::finding_keys(rows);
    lemma_place(keys, new.dedupe_key@, 0);
    let after = crate::protection::store::with_finding(rows, new);
    if exists|i: int| 0 <= i < rows.len() && (#[trigger] rows[i]).dedupe_key@ == new.dedupe_key@ {
        let k = choose|k: int| 0 <= k < rows.len() && (#[trigger] rows[k]).dedupe_key@ == new.dedupe_key@;
        assert(keys[k] == new.dedupe_key@);
        let i = crate::protection::store::place_of(keys, new.dedupe_key@, 0)->0;
        assert(keys[i] == rows[i].dedupe_key@);
        assert(is_renewed_finding(rows, new, after, i));
    } else {
        if crate::protection::store::place_of(keys, new.dedupe_key@, 0) is Some {
            let i = crate::protection::store::place_of(keys, new.dedupe_key@, 0)->0;
            assert(rows[i].dedupe_key@ == new.dedupe_key@);
        }
    }
}

/// Record `i` has what the new one says, keeps what it is known by, and the others are as they were.
pub open spec fn is_renewed_finding(rows: Seq<ProtectionFinding>, new: ProtectionFinding, after: Seq<ProtectionFinding>, i: int) -> bool {
    &&& rows[i].dedupe_key@ == new.dedupe_key@
    &&& after[i].state == new.state && after[i].classification == new.classification && after[i].severity == new.severity && after[i].confidence == new.confidence && after[i].affected == new.affected && after[i].build_allowed == new.build_allowed && after[i].summary == new.summary && after[i].evidence == new.evidence && after[i].updated_at == new.updated_at
    &&& after[i].id == rows[i].id && after[i].project == rows[i].project && after[i].signal_id == rows[i].signal_id && after[i].dedupe_key == rows[i].dedupe_key && after[i].created_at == rows[i].created_at
    &&& forall|k: int| 0 <= k < rows.len() && k != i ==> #[trigger] after[k] == rows[k]
}

/// A plan that comes again renews the one that is there; one that is new is added.
pub proof fn law_plan_is_kept(rows: Seq<RemediationPlan>, new: RemediationPlan)
    ensures
        ({
            let after = crate::protection::store::with_remediation_plan(rows, new);
            &&& (forall|i: int| 0 <= i < rows.len() ==> (#[trigger] rows[i]).id@ != new.id@)
                ==> after == rows.push(new)
            &&& (exists|i: int| 0 <= i < rows.len() && (#[trigger] rows[i]).id@ == new.id@) ==> {
                &&& after.len() == rows.len()
                &&& exists|i: int| 0 <= i < rows.len() && is_renewed_remediation_plan(rows, new, after, i)
            }
        }),
{
    let keys = crate::protection::store::remediation_plan_keys(rows);
    lemma_place(keys, new.id@, 0);
    let after = crate::protection::store::with_remediation_plan(rows, new);
    if exists|i: int| 0 <= i < rows.len() && (#[trigger] rows[i]).id@ == new.id@ {
        let k = choose|k: int| 0 <= k < rows.len() && (#[trigger] rows[k]).id@ == new.id@;
        assert(keys[k] == new.id@);
        let i = crate::protection::store::place_of(keys, new.id@, 0)->0;
        assert(keys[i] == rows[i].id@);
        assert(is_renewed_remediation_plan(rows, new, after, i));
    } else {
        if crate::protection::store::place_of(keys, new.id@, 0) is Some {
            let i = crate::protection::store::place_of(keys, new.id@, 0)->0;
            assert(rows[i].id@ == new.id@);
        }
    }
}

/// Record `i` has what the new one says, keeps what it is known by, and the others are as they were.
pub open spec fn is_renewed_remediation_plan(rows: Seq<RemediationPlan>, new: RemediationPlan, after: Seq<RemediationPlan>, i: int) -> bool {
    &&& rows[i].id@ == new.id@
    &&& after[i].action == new.action && after[i].summary == new.summary && after[i].requirements == new.requirements
    &&& after[i].id == rows[i].id && after[i].finding_id == rows[i].finding_id && after[i].created_at == rows[i].created_at
    &&& forall|k: int| 0 <= k < rows.len() && k != i ==> #[trigger] after[k] == rows[k]
}

/// A candidate that comes again renews the one that is there; one that is new is added.
pub proof fn law_candidate_is_kept(rows: Seq<CandidateArtifact>, new: CandidateArtifact)
    ensures
        ({
            let after = crate::protection::store::with_candidate(rows, new);
            &&& (forall|i: int| 0 <= i < rows.len() ==> (#[trigger] rows[i]).id@ != new.id@)
                ==> after == rows.push(new)
            &&& (exists|i: int| 0 <= i < rows.len() && (#[trigger] rows[i]).id@ == new.id@) ==> {
                &&& after.len() == rows.len()
                &&& exists|i: int| 0 <= i < rows.len() && is_renewed_candidate(rows, new, after, i)
            }
        }),
{
    let keys = crate::protection::store::candidate_keys(rows);
    lemma_place(keys, new.id@, 0);
    let after = crate::protection::store::with_candidate(rows, new);
    if exists|i: int| 0 <= i < rows.len() && (#[trigger] rows[i]).id@ == new.id@ {
        let k = choose|k: int| 0 <= k < rows.len() && (#[trigger] rows[k]).id@ == new.id@;
        assert(keys[k] == new.id@);
        let i = crate::protection::store::place_of(keys, new.id@, 0)->0;
        assert(keys[i] == rows[i].id@);
        assert(is_renewed_candidate(rows, new, after, i));
    } else {
        if crate::protection::store::place_of(keys, new.id@, 0) is Some {
            let i = crate::protection::store::place_of(keys, new.id@, 0)->0;
            assert(rows[i].id@ == new.id@);
        }
    }
}

/// Record `i` has what the new one says, keeps what it is known by, and the others are as they were.
pub open spec fn is_renewed_candidate(rows: Seq<CandidateArtifact>, new: CandidateArtifact, after: Seq<CandidateArtifact>, i: int) -> bool {
    &&& rows[i].id@ == new.id@
    &&& after[i].worktree_path == new.worktree_path && after[i].content_sha256 == new.content_sha256 && after[i].summary == new.summary
    &&& after[i].id == rows[i].id && after[i].finding_id == rows[i].finding_id && after[i].created_at == rows[i].created_at
    &&& forall|k: int| 0 <= k < rows.len() && k != i ==> #[trigger] after[k] == rows[k]
}

/// A verification that comes again renews the one that is there, whether it passed included; one that is new is added.
pub proof fn law_verification_is_kept(rows: Seq<VerificationResult>, new: VerificationResult)
    ensures
        ({
            let after = crate::protection::store::with_verification(rows, new);
            &&& (forall|i: int| 0 <= i < rows.len() ==> (#[trigger] rows[i]).id@ != new.id@)
                ==> after == rows.push(new)
            &&& (exists|i: int| 0 <= i < rows.len() && (#[trigger] rows[i]).id@ == new.id@) ==> {
                &&& after.len() == rows.len()
                &&& exists|i: int| 0 <= i < rows.len() && is_renewed_verification(rows, new, after, i)
            }
        }),
{
    let keys = crate::protection::store::verification_keys(rows);
    lemma_place(keys, new.id@, 0);
    let after = crate::protection::store::with_verification(rows, new);
    if exists|i: int| 0 <= i < rows.len() && (#[trigger] rows[i]).id@ == new.id@ {
        let k = choose|k: int| 0 <= k < rows.len() && (#[trigger] rows[k]).id@ == new.id@;
        assert(keys[k] == new.id@);
        let i = crate::protection::store::place_of(keys, new.id@, 0)->0;
        assert(keys[i] == rows[i].id@);
        assert(is_renewed_verification(rows, new, after, i));
    } else {
        if crate::protection::store::place_of(keys, new.id@, 0) is Some {
            let i = crate::protection::store::place_of(keys, new.id@, 0)->0;
            assert(rows[i].id@ == new.id@);
        }
    }
}

/// Record `i` has what the new one says, keeps what it is known by, and the others are as they were.
pub open spec fn is_renewed_verification(rows: Seq<VerificationResult>, new: VerificationResult, after: Seq<VerificationResult>, i: int) -> bool {
    &&& rows[i].id@ == new.id@
    &&& after[i].verifier == new.verifier && after[i].passed == new.passed && after[i].summary == new.summary && after[i].evidence == new.evidence
    &&& after[i].id == rows[i].id && after[i].candidate_id == rows[i].candidate_id && after[i].created_at == rows[i].created_at
    &&& forall|k: int| 0 <= k < rows.len() && k != i ==> #[trigger] after[k] == rows[k]
}

/// A draft that comes again renews the text of the one that is there, and neither where it goes nor
/// whether it was delivered; one that is new is added and not delivered.
pub proof fn law_draft_is_kept(rows: Seq<StoredDraft>, new: DeliveryDraft)
    ensures
        ({
            let after = crate::protection::store::with_draft(rows, new);
            &&& (forall|i: int|
                0 <= i < rows.len() ==> (#[trigger] rows[i]).draft.dedupe_key@ != new.dedupe_key@)
                ==> after == rows.push((StoredDraft { draft: new, delivered: false }))
            &&& (exists|i: int|
                0 <= i < rows.len() && (#[trigger] rows[i]).draft.dedupe_key@ == new.dedupe_key@) ==> {
                &&& after.len() == rows.len()
                &&& exists|i: int| 0 <= i < rows.len() && is_renewed_draft(rows, new, after, i)
            }
        }),
{
    let keys = crate::protection::store::draft_keys(rows);
    lemma_place(keys, new.dedupe_key@, 0);
    let after = crate::protection::store::with_draft(rows, new);
    if exists|i: int| 0 <= i < rows.len() && (#[trigger] rows[i]).draft.dedupe_key@ == new.dedupe_key@ {
        let k = choose|k: int|
            0 <= k < rows.len() && (#[trigger] rows[k]).draft.dedupe_key@ == new.dedupe_key@;
        assert(keys[k] == new.dedupe_key@);
        let i = crate::protection::store::place_of(keys, new.dedupe_key@, 0)->0;
        assert(keys[i] == rows[i].draft.dedupe_key@);
        assert(is_renewed_draft(rows, new, after, i));
    } else {
        if crate::protection::store::place_of(keys, new.dedupe_key@, 0) is Some {
            let i = crate::protection::store::place_of(keys, new.dedupe_key@, 0)->0;
            assert(rows[i].draft.dedupe_key@ == new.dedupe_key@);
        }
    }
}

/// Draft `i` has the new text, goes where it went, and the others are as they were.
pub open spec fn is_renewed_draft(
    rows: Seq<StoredDraft>,
    new: DeliveryDraft,
    after: Seq<StoredDraft>,
    i: int,
) -> bool {
    &&& rows[i].draft.dedupe_key@ == new.dedupe_key@
    &&& after[i].draft.title == new.title && after[i].draft.body == new.body && after[i].draft.labels
        == new.labels
    &&& after[i].draft.id == rows[i].draft.id && after[i].draft.destination
        == rows[i].draft.destination && after[i].draft.finding_id == rows[i].draft.finding_id
    &&& after[i].draft.approval_required == rows[i].draft.approval_required
    &&& after[i].delivered == rows[i].delivered
    &&& forall|k: int| 0 <= k < rows.len() && k != i ==> #[trigger] after[k] == rows[k]
}

/// What was delivered once has one receipt: the first.
pub proof fn law_first_receipt_stays(rows: Seq<DeliveryReceipt>, new: DeliveryReceipt)
    ensures
        (exists|i: int| 0 <= i < rows.len() && (#[trigger] rows[i]).draft_id@ == new.draft_id@)
            ==> crate::protection::store::with_receipt(rows, new) == rows,
        (forall|i: int| 0 <= i < rows.len() ==> (#[trigger] rows[i]).draft_id@ != new.draft_id@)
            ==> crate::protection::store::with_receipt(rows, new) == rows.push(new),
{
    let keys = crate::protection::store::receipt_keys(rows);
    lemma_place(keys, new.draft_id@, 0);
    assert(forall|k: int| 0 <= k < rows.len() ==> keys[k] == (#[trigger] rows[k]).draft_id@);
}

/// A finding of the scan says what the scan says: the build goes on only where nothing blocks it, and
/// every blocker and every warning is given as evidence.
pub proof fn law_finding_of_a_scan(
    signal: SecuritySignal,
    finding: ProtectionFinding,
    project: Seq<char>,
    report: StaticScanReport,
    now: Seq<char>,
    i: int,
)
    requires
        crate::protection::runner::is_scan_signal(signal, project, report, now),
        crate::protection::runner::is_scan_finding(finding, project, report, now),
    ensures
        finding.signal_id@ == signal.id@,
        finding.project@ == project,
        signal.project@ == project,
        finding.build_allowed == report.build_allowed,
        finding.affected == Some(!report.build_allowed),
        report.build_allowed <==> finding.state == FindingState::Unaffected,
        !report.build_allowed <==> finding.state == FindingState::Affected,
        !report.build_allowed ==> finding.severity@ == "blocker"@,
        report.build_allowed ==> finding.severity@ == "informational"@,
        finding.evidence@.len() == report.blockers@.len() + report.warnings@.len(),
        0 <= i < report.blockers@.len() ==> crate::strings::views(finding.evidence@)[i] == says(
            crate::protection::supply_chain::said(report.blockers@)[i],
        ),
        0 <= i < report.warnings@.len() ==> crate::strings::views(
            finding.evidence@,
        )[report.blockers@.len() + i] == says(
            crate::protection::supply_chain::said(report.warnings@)[i],
        ),
{
    let blockers = crate::protection::supply_chain::said(report.blockers@);
    let warnings = crate::protection::supply_chain::said(report.warnings@);
    assert(crate::strings::views(finding.evidence@).len() == finding.evidence@.len());
    if 0 <= i < report.warnings@.len() {
        assert((crate::protection::runner::evidence_lines(blockers)
            + crate::protection::runner::evidence_lines(warnings))[blockers.len() + i]
            == crate::protection::runner::evidence_line(warnings[i]));
    }
}

/// What is said of an indicator: its rule, where it was found, and what was found.
pub open spec fn says(item: Indicator) -> Seq<char> {
    item.rule_id + " "@ + item.path + ": "@ + item.evidence
}

/// Dependencies are scanned where the project is protected, is one in Rust, and is not blocked already.
pub proof fn law_when_dependencies_are_scanned(
    protection: crate::config::ProtectionConfig,
    report: StaticScanReport,
)
    ensures
        crate::protection::runner::scans_dependencies(protection, report) <==> protection.enabled
            && report.build_allowed && crate::strings::views(protection.profiles@).contains("rust"@),
{
}

/// An entry of a lock file names a package by its name, by name and version, or by name, version and
/// source in brackets; what an entry says has to agree.
pub proof fn law_entry_names_its_package(entry: Seq<char>, package: Sourced)
    ensures
        ({
            let words = crate::strings::words(entry);
            &&& words.len() == 0 ==> !crate::protection::closure::names(entry, package)
            &&& words.len() == 1 ==> (crate::protection::closure::names(entry, package) <==> words[0]
                == package.0)
            &&& words.len() == 2 ==> (crate::protection::closure::names(entry, package) <==> words[0]
                == package.0 && words[1] == package.1)
            &&& words.len() == 3 ==> (crate::protection::closure::names(entry, package) <==> words[0]
                == package.0 && words[1] == package.1 && (words[2] == "("@ + package.2 + ")"@ || words[2]
                == "("@ + crate::strings::split(package.2, '#')[0] + ")"@))
        }),
        crate::protection::closure::is_root(package) <==> package.2.len() == 0,
{
}

/// The packages that are given are those that are reached, and no other.
pub proof fn law_reached_packages_are_given(
    packages: Seq<Sourced>,
    dependencies: Seq<Seq<Seq<char>>>,
    n: int,
    p: Sourced,
)
    requires
        n <= packages.len(),
    ensures
        crate::protection::closure::reachable(packages, dependencies, n).contains(p) <==> exists|i: int|
            0 <= i < n && #[trigger] packages[i] == p && crate::protection::closure::is_reachable(
                packages,
                dependencies,
                i,
            ),
    decreases n,
{
    if n > 0 {
        law_reached_packages_are_given(packages, dependencies, n - 1, p);
        let rest = crate::protection::closure::reachable(packages, dependencies, n - 1);
        let all = crate::protection::closure::reachable(packages, dependencies, n);
        if crate::protection::closure::is_reachable(packages, dependencies, n - 1) {
            assert(all == rest.push(packages[n - 1]));
            assert(all[rest.len() as int] == packages[n - 1]);
            if rest.contains(p) {
                let k = rest.index_of(p);
                assert(all[k] == p);
            }
            if all.contains(p) && p != packages[n - 1] {
                let k = all.index_of(p);
                assert(rest[k] == p);
            }
        }
    }
}

/// An inquiry looks at every file that was selected, in order, before it asks for a decision; where
/// something that it needs does not come, it ends.
pub proof fn law_course_of_an_inquiry(
    s: InquiryRun,
    protection: crate::config::ProtectionConfig,
    root: Seq<char>,
    event: InquiryEvent,
    now: Seq<char>,
    t: InquiryRun,
    done: InquiryDoing,
)
    requires
        crate::protection::inquiry::is_inquiry_step(s, protection, root, event, now, t, done),
    ensures
        s.stage is Repo && event->Output_0.ok() ==> done == InquiryDoing::Git(
            seq!["ls-files"@, "-z"@],
        ),
        event matches InquiryEvent::Output(o) ==> !o.ok() ==> done is Fail,
        event matches InquiryEvent::Snapshot(snapshot) ==> t.snapshot == snapshot && done is SelectFiles,
        event matches InquiryEvent::Selected(None) ==> done is Fail,
        event matches InquiryEvent::Selected(Some(selection)) ==> t.selection == selection,
        event matches InquiryEvent::Selected(Some(selection)) ==> selection.paths@.len() > 0 ==> done
            == InquiryDoing::LookAt(0),
        done matches InquiryDoing::ReadFile(i) ==> s.stage is Look && i == s.at && t.at == s.at,
        s.stage is Read && s.at + 1 < s.selection.paths@.len() && !(done is Fail) ==> done
            == InquiryDoing::LookAt((s.at + 1) as nat),
        done is Decide ==> t.evidence.files@.len() > 0,
        done is Decide && s.stage is Read ==> s.at + 1 >= s.selection.paths@.len(),
        s.stage is Read && !(done is Fail) ==> t.evidence.files@.len() == s.evidence.files@.len() + 1
            && t.evidence.files@.last().path@ == s.selection.paths@[s.at as int]@
            && event->FileRead_1 == Some(t.evidence.files@.last().content),
        event matches InquiryEvent::Decided(None) ==> done is Fail,
        event matches InquiryEvent::Decided(Some(decision)) ==> done is Record && t.decision == Some(
            decision,
        ),
        s.stage is Record && s.found->0.requires_action ==> (done matches InquiryDoing::Alert(subject, _)
            && subject == s.project@ + " 安全消息告警"@),
        s.stage is Record && !s.found->0.requires_action ==> !(done is Alert) && !(
        done is PrepareCandidate),
        s.stage is Alert && s.found->0.requires_action && protection.automation is Candidate
            ==> done is PrepareCandidate,
        event matches InquiryEvent::Prepared(Err(words)) ==> done is KeepFailure && t.candidate_error
            == Some(words),
        event matches InquiryEvent::Prepared(Ok(made)) ==> done is RecordCandidate && t.candidate == Some(
            made.0,
        ) && t.verification == Some(made.1),
        event matches InquiryEvent::Drafted(Some(draft)) ==> done is RecordDraft && t.issue_draft == Some(
            draft,
        ),
        event matches InquiryEvent::Drafted(None) ==> done is Done,
{
}

} // verus!
