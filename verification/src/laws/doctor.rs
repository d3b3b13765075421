//! What the report on the state of things says.
use vstd::prelude::*;

use crate::config::{BranchConfig, Config, PushStrategy};
use crate::doctor::{BranchCheck, DoctorFacts, Finding, Level};

verus! {

/// A sync is advised exactly when nothing failed.
pub proof fn law_when_a_sync_is_advised(findings: Seq<Finding>)
    ensures
        (forall|i: int| 0 <= i < findings.len() ==> (#[trigger] findings[i]).level is Good)
            <==> crate::doctor::count(findings, Level::Failure) == 0 && crate::doctor::count(
            findings,
            Level::Warning,
        ) == 0,
        (exists|i: int| 0 <= i < findings.len() && (#[trigger] findings[i]).level is Failure)
            <==> crate::doctor::count(findings, Level::Failure) > 0,
        crate::doctor::count(findings, Level::Failure) == 0 && crate::doctor::count(
            findings,
            Level::Warning,
        ) == 0 ==> crate::doctor::verdict(findings) == "结果：可以运行 sync。"@,
        crate::doctor::count(findings, Level::Failure) > 0 ==> crate::doctor::verdict(findings)
            == "结果：暂不建议运行 sync；需要先处理 "@ + crate::strings::decimal(
            crate::doctor::count(findings, Level::Failure),
        ) + " 个失败项。"@,
{
    lemma_counts(findings, Level::Failure);
    lemma_counts(findings, Level::Warning);
    if forall|i: int| 0 <= i < findings.len() ==> (#[trigger] findings[i]).level is Good {
        assert(!shows_level(findings, Level::Failure));
        assert(!shows_level(findings, Level::Warning));
    }
    if !shows_level(findings, Level::Failure) && !shows_level(findings, Level::Warning) {
        assert forall|i: int| 0 <= i < findings.len() implies (#[trigger] findings[i]).level is Good by {
            assert(findings[i].level != Level::Failure);
            assert(findings[i].level != Level::Warning);
        }
    }
}

/// One of the findings is of that level.
pub open spec fn shows_level(findings: Seq<Finding>, level: Level) -> bool {
    exists|i: int| 0 <= i < findings.len() && (#[trigger] findings[i]).level == level
}

proof fn lemma_counts(findings: Seq<Finding>, level: Level)
    ensures
        crate::doctor::count(findings, level) > 0 <==> shows_level(findings, level),
    decreases findings.len(),
{
    if findings.len() > 0 {
        let fewer = findings.drop_last();
        lemma_counts(fewer, level);
        if shows_level(fewer, level) {
            let i = choose|i: int| 0 <= i < fewer.len() && (#[trigger] fewer[i]).level == level;
            assert(findings[i].level == level);
        }
        if shows_level(findings, level) {
            let i = choose|i: int| 0 <= i < findings.len() && (#[trigger] findings[i]).level == level;
            if i < findings.len() - 1 {
                assert(fewer[i].level == level);
            }
        }
        if findings.last().level == level {
            assert(findings[findings.len() - 1].level == level);
        }
    }
}

/// The line of a finding says how grave it is.
pub proof fn law_lines_of_findings(text: Seq<char>)
    ensures
        crate::doctor::finding_line((Finding { level: Level::Good, text })) == "[OK] "@ + text,
        crate::doctor::finding_line((Finding { level: Level::Warning, text })) == "[WARN] "@ + text,
        crate::doctor::finding_line((Finding { level: Level::Failure, text })) == "[FAIL] "@ + text,
{
}

/// Each thing that a sync needs is reported as good only where it was found good.
pub proof fn law_what_is_found_good(config: Config, facts: DoctorFacts)
    ensures
        ({
            let all = crate::doctor::all_findings(config, facts);
            &&& all.len() >= 7
            &&& all[0].level is Good ==> facts.git is Ok && facts.git->Ok_0.ok()
            &&& facts.git is Err ==> all[0].level is Failure
            &&& all[2].level is Good <==> (facts.repo matches Some(Ok(output)) && output.ok())
            &&& !(all[2].level is Good) ==> all[2].level is Failure
            &&& all[3].level is Good <==> (facts.upstream matches Ok(output) && output.ok()
                && crate::strings::trimmed(output.stdout@) == config.repo.upstream@)
            &&& all[4].level is Good <==> (facts.fork matches Ok(output) && output.ok()
                && crate::strings::trimmed(output.stdout@) == config.repo.fork@)
            &&& all[5].level is Good <==> facts.fetch is Ok
            &&& all[5].level is Failure <==> facts.fetch is Err
            &&& all[6].level is Good <==> facts.base == Ok::<bool, String>(true)
            &&& !(all[6].level is Good) ==> all[6].level is Failure
        }),
{
}

/// Every branch is looked at twice, here and in the fork: one that is missing here is a failure, one
/// that is missing there only a warning.
pub proof fn law_every_branch_is_looked_at(
    branches: Seq<BranchConfig>,
    remote: Seq<char>,
    checks: Seq<BranchCheck>,
    n: int,
    i: int,
)
    requires
        0 <= i < n <= branches.len(),
        branches.len() == checks.len(),
    ensures
        ({
            let all = crate::doctor::branch_findings(branches, remote, checks, n);
            &&& all.len() == 2 * n
            &&& all[2 * i].level is Good <==> checks[i].local == Ok::<bool, String>(true)
            &&& !(all[2 * i].level is Good) ==> all[2 * i].level is Failure
            &&& all[2 * i + 1].level is Good <==> checks[i].remote == Ok::<bool, String>(true)
            &&& !(all[2 * i + 1].level is Good) ==> all[2 * i + 1].level is Warning
        }),
    decreases n,
{
    let rest = crate::doctor::branch_findings(branches, remote, checks, n - 1);
    let all = crate::doctor::branch_findings(branches, remote, checks, n);
    if i < n - 1 {
        law_every_branch_is_looked_at(branches, remote, checks, n - 1, i);
        assert(all[2 * i] == rest[2 * i]);
        assert(all[2 * i + 1] == rest[2 * i + 1]);
    } else if n > 1 {
        law_every_branch_is_looked_at(branches, remote, checks, n - 1, 0);
    }
}

/// A push is tried where the branch is pushed at all and is there; a branch that is released has to be
/// pushed.
pub proof fn law_when_a_push_is_tried(branch: BranchConfig, check: BranchCheck)
    ensures
        crate::doctor::push_tried(branch, check) <==> branch.push != PushStrategy::Never && check.local
            == Ok::<bool, String>(true),
        crate::doctor::release_at_odds(branch) <==> branch.push == PushStrategy::Never
            && branch.release.enabled,
{
}

/// A Git older than version two and twenty is old.
pub proof fn law_when_git_is_old(version: Seq<char>, major: nat, minor: nat)
    requires
        crate::strings::words(version).len() >= 3,
        crate::strings::split(crate::strings::words(version)[2], '.').len() >= 2,
        crate::strings::parsed(crate::strings::split(crate::strings::words(version)[2], '.')[0]) == Some(
            major,
        ),
        crate::strings::parsed(crate::strings::split(crate::strings::words(version)[2], '.')[1]) == Some(
            minor,
        ),
        major <= u32::MAX,
        minor <= u32::MAX,
    ensures
        crate::doctor::old_git(version) <==> major < 2 || (major == 2 && minor < 20),
{
}

} // verus!
