//! What may go into a candidate fix, and what it goes through.
use vstd::prelude::*;

use crate::config::{BranchConfig, ProtectionConfig};
use crate::protection::candidate::{CandidateDoing, CandidateEvent, CandidateRun, CandidateStage};
use crate::protection::investigate::{
    CandidateChange, Evidence, FileFacts, Investigation, SignalInvestigationDecision,
};
use crate::protection::model::{FindingState, SecurityReviewDecision};
use crate::protection::osv::{CargoReachabilitySnapshot, ReachablePackage};

verus! {

/// A path is out of bounds that leaves the repository, or that names Git's own files, workflows,
/// environments, settings of this program or secrets, in whatever case and with whatever strokes.
pub proof fn law_what_is_out_of_bounds(path: Seq<char>)
    ensures
        ({
            let plain = crate::strings::replaced(path, "\\"@, "/"@);
            let lower = crate::strings::lower(plain);
            crate::protection::investigate::is_candidate_path(path) <==> {
                &&& !crate::paths::is_absolute(plain)
                &&& !crate::paths::components(plain).contains(".."@)
                &&& !crate::strings::starts(lower, ".git/"@)
                &&& !crate::strings::starts(lower, ".github/workflows/"@)
                &&& !crate::strings::occurs(lower, "/.env"@)
                &&& !crate::strings::ends(lower, ".env"@)
                &&& !crate::strings::ends(lower, "termite.yml"@)
                &&& !crate::strings::ends(lower, "termiters.yml"@)
                &&& !crate::strings::occurs(lower, "secret"@)
                &&& !crate::strings::occurs(lower, "credential"@)
            }
        }),
{
}

/// The files that may be read are the tracked ones within bounds, all of them and no other.
pub proof fn law_which_files_may_be_read(pieces: Seq<Seq<char>>, path: Seq<char>)
    ensures
        crate::protection::investigate::allowed_files(pieces).contains(path) <==> pieces.contains(path)
            && path.len() > 0 && crate::protection::investigate::is_candidate_path(path),
    decreases pieces.len(),
{
    if pieces.len() > 0 {
        let fewer = pieces.drop_last();
        law_which_files_may_be_read(fewer, path);
        let rest = crate::protection::investigate::allowed_files(fewer);
        let all = crate::protection::investigate::allowed_files(pieces);
        assert(pieces.contains(path) <==> fewer.contains(path) || pieces.last() == path) by {
            if fewer.contains(path) {
                let i = fewer.index_of(path);
                assert(pieces[i] == path);
            }
            if pieces.contains(path) && pieces.last() != path {
                let i = pieces.index_of(path);
                assert(fewer[i] == path);
            }
            if pieces.last() == path {
                assert(pieces[pieces.len() - 1] == path);
            }
        }
        if all != rest {
            assert(all == rest.push(pieces.last()));
            assert(all[rest.len() as int] == pieces.last());
            if rest.contains(path) {
                let i = rest.index_of(path);
                assert(all[i] == path);
            }
            if all.contains(path) && path != pieces.last() {
                let i = all.index_of(path);
                assert(rest[i] == path);
            }
        }
    }
}

/// The change is of a known file within bounds, an ordinary one inside the repository, that no earlier
/// change is of, and does not make the whole too large.
pub open spec fn is_sound(
    known: Seq<Seq<char>>,
    changes: Seq<CandidateChange>,
    facts: Seq<FileFacts>,
    i: int,
) -> bool {
    &&& known.contains(changes[i].path@)
    &&& crate::protection::investigate::is_candidate_path(changes[i].path@)
    &&& facts[i].readable && facts[i].regular && facts[i].inside
    &&& forall|k: int| 0 <= k < i ==> (#[trigger] changes[k]).path@ != changes[i].path@
    &&& crate::protection::investigate::changed_bytes(changes, i + 1) <= 786_432
}

/// Changes are taken exactly when every one of them is sound.
pub proof fn law_which_changes_are_taken(
    known: Seq<Seq<char>>,
    changes: Seq<CandidateChange>,
    facts: Seq<FileFacts>,
    n: int,
)
    requires
        0 <= n <= changes.len(),
        facts.len() == changes.len(),
    ensures
        crate::protection::investigate::changes_fault(known, changes, facts, n) is None <==> forall|
            i: int,
        |
            #![trigger changes[i]]
            0 <= i < n ==> is_sound(known, changes, facts, i),
    decreases n,
{
    if n > 0 {
        law_which_changes_are_taken(known, changes, facts, n - 1);
        let i = n - 1;
        let paths = crate::protection::investigate::changed_paths(changes).take(i);
        let path = changes[i].path@;
        assert(paths.contains(path) <==> !(forall|k: int|
            0 <= k < i ==> (#[trigger] changes[k]).path@ != path)) by {
            if paths.contains(path) {
                let k = paths.index_of(path);
                assert(changes[k].path@ == path);
            }
            if !(forall|k: int| 0 <= k < i ==> (#[trigger] changes[k]).path@ != path) {
                let k = choose|k: int| 0 <= k < i && (#[trigger] changes[k]).path@ == path;
                assert(paths[k] == path);
            }
        }
        assert(crate::protection::investigate::change_fault(known, changes, facts, i) is None
            <==> is_sound(known, changes, facts, i));
    }
}

/// What is counted of changes is the bytes of all of them.
pub proof fn law_changes_are_weighed(changes: Seq<CandidateChange>, n: int)
    requires
        0 < n <= changes.len(),
    ensures
        crate::protection::investigate::changed_bytes(changes, n)
            == crate::protection::investigate::changed_bytes(changes, n - 1)
            + crate::strings::byte_count(changes[n - 1].content@),
        crate::protection::investigate::changed_bytes(changes, 0) == 0,
{
}

/// At most three files are read as evidence, none of more than 48 KiB, and 64 KiB in all.
pub proof fn law_evidence_is_bounded(
    evidence: Evidence,
    path: Seq<char>,
    bytes: int,
    text: Option<String>,
)
    ensures
        crate::protection::investigate::evidence_fault(evidence, path, bytes, text) is None
            <==> evidence.files@.len() < 3 && bytes <= 49_152 && evidence.total + bytes <= 65_536
            && text is Some,
{
}

/// Only a file that was offered can be read, and only where it is sound to.
pub proof fn law_only_offered_files_are_read(known: Seq<Seq<char>>, path: Seq<char>, facts: FileFacts)
    ensures
        crate::protection::investigate::selection_fault(known, path, facts) is None <==> known.contains(
            path,
        ) && crate::protection::investigate::is_candidate_path(path) && facts.readable && facts.regular
            && facts.inside,
{
}

/// A message is looked into where the project is protected, says something, and is not too long.
pub proof fn law_which_messages_are_looked_into(
    enabled: bool,
    summary: Seq<char>,
    content: Seq<char>,
)
    ensures
        crate::protection::investigate::signal_fault(enabled, summary, content) is None <==> enabled
            && crate::strings::trimmed(summary).len() > 0 && crate::strings::byte_count(content)
            <= 65_536,
{
}

/// The branch that is found has the name that was asked for, and is the first with it.
pub proof fn law_branch_is_found_by_name(branches: Seq<BranchConfig>, name: Seq<char>, i: int)
    requires
        0 <= i,
    ensures
        match crate::protection::investigate::branch_named(branches, name, i) {
            Some(at) => i <= at < branches.len() && branches[at].name@ == name && forall|k: int|
                i <= k < at ==> (#[trigger] branches[k]).name@ != name,
            None => forall|k: int| i <= k < branches.len() ==> (#[trigger] branches[k]).name@ != name,
        },
    decreases branches.len() - i,
{
    if i < branches.len() && branches[i].name@ != name {
        law_branch_is_found_by_name(branches, name, i + 1);
    }
}

/// The tests are those of the branch that was asked for, or of the first.
pub proof fn law_tests_of_which_branch(branches: Seq<BranchConfig>, name: Seq<char>)
    ensures
        crate::protection::investigate::test_branch(branches, Some(name))
            == crate::protection::investigate::branch_named(branches, name, 0),
        branches.len() > 0 ==> crate::protection::investigate::test_branch(branches, None) == Some(0int),
        branches.len() == 0 ==> crate::protection::investigate::test_branch(branches, None) is None,
{
}

/// A project has to be mended where nobody has shown that it is not affected, and the weakness is
/// unacceptable everywhere, or of one of the two highest levels, or of the third where it is strict.
pub proof fn law_what_calls_for_a_fix(protection: ProtectionConfig, d: SecurityReviewDecision)
    ensures
        crate::protection::investigate::calls_for_fix(protection, d) <==> d.affected != Some(false) && (
        crate::laws::judgement::is_unacceptable(d) || d.severity is P0 || d.severity is P1 || (
        crate::strings::views(protection.profiles@).contains("strict"@) && d.severity is P2)),
{
    crate::laws::judgement::lemma_unacceptable(d);
}

/// The package has the name, in small letters and with dashes, and the version.
pub open spec fn is_version(package: ReachablePackage, name: Seq<char>, version: Seq<char>) -> bool {
    crate::strings::replaced(crate::strings::lower(package.name@), "_"@, "-"@) == name
        && package.version@ == version
}

/// Every version of the package that is in the lock file is given, whatever the case of its name and
/// its dashes, and no other is.
pub proof fn law_which_versions_are_given(
    packages: Seq<ReachablePackage>,
    name: Seq<char>,
    version: Seq<char>,
)
    ensures
        crate::protection::investigate::versions_of(packages, name).contains(version) <==> exists|i: int|
            0 <= i < packages.len() && is_version(#[trigger] packages[i], name, version),
    decreases packages.len(),
{
    if packages.len() > 0 {
        let fewer = packages.drop_last();
        law_which_versions_are_given(fewer, name, version);
        let rest = crate::protection::investigate::versions_of(fewer, name);
        let all = crate::protection::investigate::versions_of(packages, name);
        let last = packages.last();
        if rest.contains(version) {
            let i = choose|i: int| 0 <= i < fewer.len() && is_version(#[trigger] fewer[i], name, version);
            assert(is_version(packages[i], name, version));
        }
        if exists|i: int| 0 <= i < packages.len() && is_version(#[trigger] packages[i], name, version) {
            let i = choose|i: int|
                0 <= i < packages.len() && is_version(#[trigger] packages[i], name, version);
            if i < packages.len() - 1 {
                assert(fewer[i] == packages[i]);
            }
        }
        if crate::protection::investigate::package_name(last.name@) == name {
            assert(all == rest.push(last.version@));
            assert(all[rest.len() as int] == last.version@);
            assert(packages[packages.len() - 1] == last);
            if rest.contains(version) {
                let i = rest.index_of(version);
                assert(all[i] == version);
            }
            if all.contains(version) && version != last.version@ {
                let i = all.index_of(version);
                assert(rest[i] == version);
            }
        }
    }
}

/// What the lock file says of every claimed package is said, one line for each.
pub proof fn law_every_claim_is_held_against_the_lock(
    claimed: Seq<Seq<char>>,
    snapshot: CargoReachabilitySnapshot,
    i: int,
)
    requires
        0 <= i < claimed.len(),
    ensures
        ({
            let lines = crate::protection::investigate::lock_evidence(claimed, Some(snapshot));
            let versions = crate::protection::investigate::versions_of(
                snapshot.reachable_packages@,
                crate::strings::replaced(
                    crate::strings::lower(crate::strings::trimmed(claimed[i])),
                    "_"@,
                    "-"@,
                ),
            );
            &&& lines.len() == claimed.len() + crate::laws::watching::count(
                snapshot.ambiguous_edges@.len() > 0,
            )
            &&& versions.len() == 0 ==> lines[i] == "程序化依赖证据："@ + claimed[i]
                + " 不在 Cargo.lock 根包依赖闭包中"@
            &&& versions.len() > 0 ==> lines[i] == "程序化依赖证据："@ + claimed[i]
                + " 进入 Cargo.lock 根包依赖闭包，版本 "@ + crate::strings::join(versions, ","@)
                + "；这不等同于生产运行时可达"@
        }),
{
}

/// What is found of a message belongs together: the plan is for the finding, the finding for the
/// message. A build goes on only where the project is known not to be affected.
pub proof fn law_findings_of_a_message(
    found: Investigation,
    protection: ProtectionConfig,
    project: Seq<char>,
    summary: Seq<char>,
    reference: Option<Seq<char>>,
    content: Seq<char>,
    decision: SignalInvestigationDecision,
    snapshot: Option<CargoReachabilitySnapshot>,
    now: Seq<char>,
)
    requires
        crate::protection::investigate::is_investigation(
            found,
            protection,
            project,
            summary,
            reference,
            content,
            decision,
            snapshot,
            now,
        ),
    ensures
        found.finding.signal_id@ == found.signal.id@,
        found.plan.finding_id@ == found.finding.id@,
        found.signal.project@ == project,
        found.finding.project@ == project,
        found.signal.source is UserReport,
        found.signal.summary@ == summary,
        found.finding.summary@ == decision.review.summary@,
        found.plan.action == decision.recommended_action,
        found.finding.build_allowed <==> decision.review.affected == Some(false),
        decision.review.affected == Some(false) <==> found.finding.state == FindingState::Unaffected,
        found.requires_action <==> found.finding.state == FindingState::Affected,
        decision.review.fix_contract matches Some(contract) ==> crate::strings::views(
            found.plan.requirements@,
        ) == crate::strings::views(contract.regression_cases@),
        forall|i: int|
            0 <= i < decision.review.evidence@.len() ==> crate::strings::views(
                found.finding.evidence@,
            )[i] == (#[trigger] decision.review.evidence@[i])@,
{
    assert forall|i: int| 0 <= i < decision.review.evidence@.len() implies crate::strings::views(
        found.finding.evidence@,
    )[i] == (#[trigger] decision.review.evidence@[i])@ by {
        assert(crate::strings::views(decision.review.evidence@)[i] == decision.review.evidence@[i]@);
    }
}

/// A fix is prepared only where there are changes, a contract with regression cases, and tests of
/// behaviour to hold it to.
pub proof fn law_when_a_candidate_is_prepared(
    branches: Seq<BranchConfig>,
    requested: Option<Seq<char>>,
    known: Seq<Seq<char>>,
    facts: Seq<FileFacts>,
    decision: SignalInvestigationDecision,
)
    requires
        facts.len() == decision.changes@.len(),
    ensures
        crate::protection::candidate::plan_fault(branches, requested, known, facts, decision) is None
            <==> {
            &&& decision.changes@.len() > 0
            &&& decision.review.fix_contract matches Some(contract) && contract.regression_cases@.len() > 0
            &&& crate::protection::investigate::changes_fault(
                known,
                decision.changes@,
                facts,
                decision.changes@.len() as int,
            ) is None
            &&& crate::protection::investigate::test_branch(branches, requested) matches Some(i)
                && branches[i].tests@.len() > 0 && branches[i].behavioral()
        },
{
}

/// A candidate stands in a work tree of its own, is written, checked, scanned, committed, reviewed,
/// tested and verified, in this order; whatever objects ends it.
pub proof fn law_course_of_a_candidate(
    run: CandidateRun,
    event: CandidateEvent,
    next: CandidateRun,
    doing: CandidateDoing,
)
    requires
        run.wf(),
        crate::protection::candidate::fits(run.stage, event),
        crate::protection::candidate::candidate_step(run, event, next, doing),
    ensures
        event matches CandidateEvent::Scanned(Err(words)) ==> doing == CandidateDoing::Fail(words@),
        event matches CandidateEvent::Verified(Err(words)) ==> doing == CandidateDoing::Fail(words@),
        event matches CandidateEvent::Reviewed(None) ==> doing is Fail,
        event matches CandidateEvent::Reviewed(Some(batch)) ==> (doing is Fail
            <==> !(batch.disposition is Allow)),
        event matches CandidateEvent::Output(o) ==> !o.ok() && (run.stage is Worktree
            || run.stage is DiffCheck || run.stage is Commit || run.stage is Test) ==> doing is Fail,
        run.stage is Base ==> doing == CandidateDoing::Git(
            seq![
                "worktree"@,
                "add"@,
                "--detach"@,
                run.worktree@,
                crate::strings::trimmed(event->Output_0.stdout@),
            ],
        ),
        doing is WriteChanges ==> run.stage is Worktree && event->Output_0.ok(),
        run.stage is Write ==> doing == CandidateDoing::Git(seq!["diff"@, "--check"@]),
        doing is Scan ==> run.stage is Status && crate::strings::trimmed(
            event->Output_0.stdout@,
        ).len() > 0,
        run.stage is Gate && !(doing is Fail) ==> doing == CandidateDoing::Git(
            seq!["add"@, "--all"@],
        ),
        run.stage is Index ==> doing == CandidateDoing::Git(
            seq![
                "-c"@,
                "user.name=TermiteRS Candidate"@,
                "-c"@,
                "user.email=termiters@localhost"@,
                "commit"@,
                "-m"@,
                "security candidate"@,
            ],
        ),
        doing is ReviewCommits ==> run.stage is Commit && event->Output_0.ok(),
        doing matches CandidateDoing::Test(command) ==> next.stage is Test && command
            == run.tests@[next.tested as int]@ && (run.stage is Review || (run.stage is Test && next.tested
            == run.tested + 1)),
        doing is VerifyContracts ==> run.stage is Test && event->Output_0.ok() && run.tested + 1
            == run.tests@.len(),
        doing is VerifySignalContract ==> run.stage is Head && next.head@ == crate::strings::trimmed(
            event->Output_0.stdout@,
        ),
        doing is Done ==> run.stage is Patch && next.patch == event->Patched_0,
        run.stage is Test && event->Output_0.ok() ==> next.test_output@ == run.test_output@ + ("$ "@
            + run.tests@[run.tested as int]@ + "\n"@ + event->Output_0.stdout@ + "\n"@
            + event->Output_0.stderr@ + "\n"@),
        !(doing is Fail) ==> !(next.stage is Failed),
        doing is Fail ==> next.stage is Failed,
        next.worktree == run.worktree,
        next.tests == run.tests,
{
}

} // verus!
