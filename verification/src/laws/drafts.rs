//! What a draft of an issue tells, and what a scan only warns of.
use crate::protection::model::{
    DeliveryDraft, EvaluatedSecurityReview, ProtectionFinding, StaticScanReport,
};
use crate::protection::supply_chain::{Indicator, StaticFile};
use vstd::prelude::*;

verus! {

/// The draft for a blocked build names every blocker, each on a line of its own with its rule, what it
/// is, where it stands and how it shows. It goes to the repository, and not before a person agreed.
pub proof fn law_draft_names_every_blocker(
    draft: DeliveryDraft,
    finding_id: Seq<char>,
    repository: Seq<char>,
    report: StaticScanReport,
    now: Seq<char>,
    i: int,
)
    requires
        crate::protection::issue::is_issue_draft(draft, finding_id, repository, report, now),
        0 <= i < report.blockers@.len(),
    ensures
        crate::laws::telling::holds(
            draft.body@,
            "- ["@ + report.blockers@[i].rule_id@ + "] "@ + report.blockers@[i].summary@ + "（"@
                + report.blockers@[i].path@ + "）："@ + report.blockers@[i].evidence@ + "\n"@,
        ),
        crate::laws::telling::holds(draft.body@, report.project@),
        draft.approval_required,
        draft.kind is GithubIssue,
        draft.destination@ == repository,
        draft.finding_id@ == finding_id,
        crate::strings::views(draft.labels@).contains("security"@),
        crate::strings::views(draft.labels@).contains("supply-chain"@),
        crate::strings::views(draft.labels@).contains("blocker"@),
{
    let list = crate::protection::supply_chain::said(report.blockers@);
    lemma_indicator_lines(list, i);
    let lines = crate::protection::issue::indicator_lines(list);
    let head =
        "TermiteRS 在执行任何项目构建之前发现供应链阻断项。\n\n项目："@;
    let middle = "\n扫描文件："@ + crate::strings::decimal(report.scanned_files as nat)
        + "\n构建状态：已阻止\n\n证据：\n"@;
    let tail = "\n该草稿尚未发送，需要人工确认目标仓库和公开范围。\n"@;
    assert(list[i] == report.blockers@[i]@);
    let line = crate::protection::issue::indicator_line(list[i]);
    crate::laws::telling::lemma_holds_more(lines, line, head + report.project@ + middle, tail);
    assert(draft.body@ =~= (head + report.project@ + middle) + lines + tail);
    assert(draft.body@ =~= head + report.project@ + (middle + lines + tail));
    let labels = crate::strings::views(draft.labels@);
    assert(labels[0] == "security"@ && labels[1] == "supply-chain"@ && labels[2] == "blocker"@);
}

proof fn lemma_indicator_lines(list: Seq<Indicator>, i: int)
    requires
        0 <= i < list.len(),
    ensures
        crate::laws::telling::holds(
            crate::protection::issue::indicator_lines(list),
            crate::protection::issue::indicator_line(list[i]),
        ),
    decreases list.len(),
{
    let head = crate::protection::issue::indicator_lines(list.drop_last());
    let last = crate::protection::issue::indicator_line(list.last());
    let whole = crate::protection::issue::indicator_lines(list);
    if i < list.len() - 1 {
        lemma_indicator_lines(list.drop_last(), i);
        let line = crate::protection::issue::indicator_line(list[i]);
        crate::laws::telling::lemma_holds_more(head, line, Seq::empty(), last);
        assert(whole =~= Seq::<char>::empty() + head + last);
    } else {
        assert(whole =~= head + last + Seq::<char>::empty());
    }
}

/// The draft for a stopped commit names the commit, the project, the outcome and what was found, and
/// gives every reason on a line of its own.
pub proof fn law_review_draft_gives_every_reason(
    finding: ProtectionFinding,
    review: EvaluatedSecurityReview,
    i: int,
)
    ensures
        ({
            let body = crate::protection::issue::review_body(finding, review);
            &&& crate::laws::telling::holds(body, review.commit@)
            &&& crate::laws::telling::holds(body, finding.project@)
            &&& crate::laws::telling::holds(body, review.decision.summary@)
            &&& review.disposition is Block ==> crate::laws::telling::holds(body, "Block"@)
            &&& review.disposition is NeedsReview ==> crate::laws::telling::holds(
                body,
                "NeedsReview"@,
            )
            &&& review.disposition is VerifyRequired ==> crate::laws::telling::holds(
                body,
                "VerifyRequired"@,
            )
            &&& 0 <= i < review.policy_reasons@.len() ==> crate::laws::telling::holds(
                body,
                "- "@ + review.policy_reasons@[i]@ + "\n"@,
            )
        }),
{
    let body = crate::protection::issue::review_body(finding, review);
    let reasons = crate::strings::views(review.policy_reasons@);
    let lines = crate::protection::issue::dashed(reasons);
    let a = "TermiteRS 的项目保护门禁停止了提交 "@;
    let b = " 的自动投送。\n\n项目："@;
    let c = "\n结论："@;
    let outcome = crate::protection::issue::disposition_name(review.disposition);
    let d = "\n等级："@ + crate::protection::catalog::severity_name(review.decision.severity);
    let e = "\n摘要："@;
    let f = "\n\n策略依据：\n"@;
    let g =
        "\n详细证据保存在 TermiteRS 本地 Finding 中。公开前需要人工确认披露范围和目标仓库。\n"@;
    let rest = f + lines + g;
    let from_summary = review.decision.summary@ + rest;
    let from_outcome = outcome + d + e + from_summary;
    let from_project = finding.project@ + c + from_outcome;
    assert(body =~= a + review.commit@ + (b + from_project));
    assert(body =~= (a + review.commit@ + b) + finding.project@ + (c + from_outcome));
    let to_outcome = a + review.commit@ + b + finding.project@ + c;
    assert(body =~= to_outcome + outcome + (d + e + from_summary));
    let to_summary = to_outcome + outcome + d + e;
    assert(body =~= to_summary + review.decision.summary@ + rest);
    let to_lines = to_summary + review.decision.summary@ + f;
    assert(body =~= to_lines + lines + g);
    if 0 <= i < review.policy_reasons@.len() {
        lemma_dashed(reasons, i);
        crate::laws::telling::lemma_holds_more(lines, "- "@ + reasons[i] + "\n"@, to_lines, g);
    }
}

proof fn lemma_dashed(list: Seq<Seq<char>>, i: int)
    requires
        0 <= i < list.len(),
    ensures
        crate::laws::telling::holds(
            crate::protection::issue::dashed(list),
            "- "@ + list[i] + "\n"@,
        ),
    decreases list.len(),
{
    let head = crate::protection::issue::dashed(list.drop_last());
    let last = "- "@ + list.last() + "\n"@;
    let whole = crate::protection::issue::dashed(list);
    if i < list.len() - 1 {
        lemma_dashed(list.drop_last(), i);
        crate::laws::telling::lemma_holds_more(head, "- "@ + list[i] + "\n"@, Seq::empty(), last);
        assert(whole =~= Seq::<char>::empty() + head + last);
    } else {
        assert(whole =~= head + last + Seq::<char>::empty());
    }
}

/// A repository on GitHub is found whichever way its remote is written: behind any of the three
/// hosts, with or without `.git`.
pub proof fn law_repository_is_found(owner: Seq<char>, name: Seq<char>)
    requires
        owner.len() > 0,
        name.len() > 0,
        !owner.contains('/'),
        !name.contains('/'),
        !crate::strings::ends(name, ".git"@),
    ensures
        ({
            let path = owner + "/"@ + name;
            let found = Some(path);
            &&& crate::protection::issue::repository_of("git@github.com:"@ + path) == found
            &&& crate::protection::issue::repository_of("https://github.com/"@ + path) == found
            &&& crate::protection::issue::repository_of("ssh://git@github.com/"@ + path) == found
            &&& crate::protection::issue::repository_of("git@github.com:"@ + path + ".git"@) == found
            &&& crate::protection::issue::repository_of("https://github.com/"@ + path + ".git"@)
                == found
            &&& crate::protection::issue::repository_of("ssh://git@github.com/"@ + path + ".git"@)
                == found
        }),
{
    let path = owner + "/"@ + name;
    lemma_paths(owner, name);
    lemma_hosts(path);
    lemma_hosts(path + ".git"@);
    assert("git@github.com:"@ + path + ".git"@ =~= "git@github.com:"@ + (path + ".git"@));
    assert("https://github.com/"@ + path + ".git"@ =~= "https://github.com/"@ + (path + ".git"@));
    assert("ssh://git@github.com/"@ + path + ".git"@ =~= "ssh://git@github.com/"@ + (path
        + ".git"@));
}

proof fn lemma_hosts(path: Seq<char>)
    ensures
        crate::protection::issue::repository_path("git@github.com:"@ + path) == Some(path),
        crate::protection::issue::repository_path("https://github.com/"@ + path) == Some(path),
        crate::protection::issue::repository_path("ssh://git@github.com/"@ + path) == Some(path),
{
    let a = "git@github.com:"@;
    let b = "https://github.com/"@;
    let c = "ssh://git@github.com/"@;
    reveal_strlit("git@github.com:");
    reveal_strlit("https://github.com/");
    reveal_strlit("ssh://git@github.com/");
    assert((a + path).subrange(0, a.len() as int) =~= a);
    assert((b + path).subrange(0, b.len() as int) =~= b);
    assert((c + path).subrange(0, c.len() as int) =~= c);
    assert((a + path).skip(a.len() as int) =~= path);
    assert((b + path).skip(b.len() as int) =~= path);
    assert((c + path).skip(c.len() as int) =~= path);
    assert(a[0] == 'g' && b[0] == 'h' && c[0] == 's');
    assert((b + path)[0] == 'h' && (c + path)[0] == 's');
    if crate::strings::starts(b + path, a) {
        assert((b + path).subrange(0, a.len() as int)[0] == 'h');
    }
    if crate::strings::starts(c + path, a) {
        assert((c + path).subrange(0, a.len() as int)[0] == 's');
    }
    if crate::strings::starts(c + path, b) {
        assert((c + path).subrange(0, b.len() as int)[0] == 's');
    }
}

proof fn lemma_paths(owner: Seq<char>, name: Seq<char>)
    requires
        owner.len() > 0,
        name.len() > 0,
        !owner.contains('/'),
        !name.contains('/'),
        !crate::strings::ends(name, ".git"@),
    ensures
        ({
            let path = owner + "/"@ + name;
            let bare = crate::strings::trim_back_str(
                crate::strings::trim_back_char(path, '/'),
                ".git"@,
            );
            let dotted = crate::strings::trim_back_str(
                crate::strings::trim_back_char(path + ".git"@, '/'),
                ".git"@,
            );
            &&& bare == path
            &&& dotted == path
            &&& crate::strings::split(path, '/') == seq![owner, name]
        }),
{
    reveal_strlit("/");
    reveal_strlit(".git");
    let path = owner + "/"@ + name;
    let git = ".git"@;
    assert("/"@ =~= seq!['/']);
    crate::laws::permissions::lemma_split_two(owner, name);
    assert(path.last() == name.last());
    assert(name.contains(name[name.len() - 1]));
    assert(crate::strings::trim_back_char(path, '/') == path);
    if crate::strings::ends(path, git) {
        if name.len() >= git.len() {
            assert(name.subrange(name.len() - git.len(), name.len() as int) =~= path.subrange(
                path.len() - git.len(),
                path.len() as int,
            ));
        } else {
            let back = path.subrange(path.len() - git.len(), path.len() as int);
            assert(path[owner.len() as int] == '/');
            assert(back[owner.len() - (path.len() - git.len())] == '/');
            assert(git[0] != '/' && git[1] != '/' && git[2] != '/' && git[3] != '/');
        }
    }
    let dotted = path + git;
    assert(dotted.last() == 't');
    assert(crate::strings::trim_back_char(dotted, '/') == dotted);
    assert(dotted.subrange(dotted.len() - git.len(), dotted.len() as int) =~= git);
    assert(dotted.take(dotted.len() - git.len()) =~= path);
}

/// A remote elsewhere has no repository on GitHub.
pub proof fn law_foreign_remote_has_no_repository(remote: Seq<char>)
    requires
        !crate::strings::starts(remote, "git@github.com:"@),
        !crate::strings::starts(remote, "https://github.com/"@),
        !crate::strings::starts(remote, "ssh://git@github.com/"@),
    ensures
        crate::protection::issue::repository_of(remote) is None,
{
}

/// The build script reaches the network or starts a process, but cannot fetch code and run it.
pub open spec fn is_suspect(file: StaticFile) -> bool {
    let t = crate::strings::lower(crate::protection::supply_chain::stripped(file.text@));
    &&& file.name@ == "build.rs"@
    &&& crate::laws::scan::reaches_network(t) || crate::laws::scan::starts_process(t)
    &&& !(crate::laws::scan::reaches_network(t) && crate::laws::scan::starts_process(t))
    &&& !(crate::laws::scan::holds_address(t) && (crate::laws::scan::runs_command(t)
        || crate::laws::scan::clones_repository(t)))
}

/// One of the first `n` files is suspect and stands at the path.
pub open spec fn from_suspect(files: Seq<StaticFile>, n: int, path: Seq<char>) -> bool {
    exists|i: int| 0 <= i < n && is_suspect(#[trigger] files[i]) && files[i].path@ == path
}

/// A report warns if and only if a build script of the tree is suspect, and whatever it warns of
/// stands at the path of such a script, and is no blocker.
pub proof fn law_suspect_script_is_warned_of(
    files: Seq<StaticFile>,
    report: StaticScanReport,
    project: Seq<char>,
    root: Seq<char>,
)
    requires
        crate::protection::supply_chain::tree_said(files, files.len() as int) matches Ok(
            (blockers, warnings),
        ) && crate::protection::supply_chain::is_report(
            report,
            project,
            root,
            files.len() as int,
            blockers,
            warnings,
        ),
    ensures
        report.warnings@.len() > 0 <==> exists|i: int| 0 <= i < files.len() && is_suspect(#[trigger] files[i]),
        forall|k: int|
            0 <= k < report.warnings@.len() ==> from_suspect(
                files,
                files.len() as int,
                (#[trigger] report.warnings@[k]).path@,
            ),
        forall|k: int|
            0 <= k < report.warnings@.len() ==> (#[trigger] report.warnings@[k]).severity@ == "high"@
                || report.warnings@[k].severity@ == "medium"@,
{
    let n = files.len() as int;
    let warnings = crate::protection::supply_chain::tree_said(files, n)->Ok_0.1;
    lemma_suspects(files, n);
    crate::laws::supply_chain::law_deduplicated(warnings);
    let said = crate::protection::supply_chain::said(report.warnings@);
    assert(said.len() == report.warnings@.len());
    assert forall|k: int| 0 <= k < report.warnings@.len() implies from_suspect(
        files,
        n,
        (#[trigger] report.warnings@[k]).path@,
    ) && (report.warnings@[k].severity@ == "high"@ || report.warnings@[k].severity@ == "medium"@) by {
        crate::laws::scan::law_deduplication_adds_nothing(warnings, k);
        assert(said[k] == report.warnings@[k]@);
        let j = choose|j: int| 0 <= j < warnings.len() && #[trigger] warnings[j] == said[k];
        assert(from_suspect(files, n, warnings[j].path));
    }
}

/// What a single script adds to the warnings.
pub proof fn law_warning_of_a_script(file: StaticFile)
    requires
        file.name@ == "build.rs"@,
    ensures
        ({
            let t = crate::strings::lower(crate::protection::supply_chain::stripped(file.text@));
            let said = crate::protection::supply_chain::file_said(file);
            &&& said is Ok
            &&& said->Ok_0.1.len() == if is_suspect(file) {
                1nat
            } else {
                0nat
            }
            &&& is_suspect(file) ==> said->Ok_0.1[0].path == file.path@
            &&& is_suspect(file) && crate::laws::scan::reaches_network(t)
                ==> said->Ok_0.1[0].severity == "high"@ && said->Ok_0.1[0].rule_id
                == "SC-BUILD-NETWORK"@
            &&& is_suspect(file) && !crate::laws::scan::reaches_network(t)
                ==> said->Ok_0.1[0].severity == "medium"@ && said->Ok_0.1[0].rule_id
                == "SC-BUILD-PROCESS"@
        }),
{
    reveal_strlit("Cargo.lock");
    reveal_strlit("Cargo.toml");
    reveal_strlit("build.rs");
    assert("build.rs"@.len() == 8 && "Cargo.lock"@.len() == 10 && "Cargo.toml"@.len() == 10);
    crate::laws::scan::lemma_traits(file.text@);
    let x = crate::protection::supply_chain::script_traits(file.text@);
    let warnings = crate::protection::supply_chain::script_warnings(file.path@, x);
    assert(crate::protection::supply_chain::file_said(file)->Ok_0.1 == warnings);
    assert(is_suspect(file) <==> (x.network.len() > 0 || x.execution.len() > 0)
        && !crate::protection::supply_chain::downloads_and_executes(x));
}

proof fn lemma_suspects(files: Seq<StaticFile>, n: int)
    requires
        0 <= n <= files.len(),
        crate::protection::supply_chain::tree_said(files, n) is Ok,
    ensures
        ({
            let out = crate::protection::supply_chain::tree_said(files, n)->Ok_0.1;
            &&& out.len() > 0 <==> exists|i: int| 0 <= i < n && is_suspect(#[trigger] files[i])
            &&& forall|k: int|
                0 <= k < out.len() ==> from_suspect(files, n, (#[trigger] out[k]).path) && (
                out[k].severity == "high"@ || out[k].severity == "medium"@)
        }),
    decreases n,
{
    if n > 0 {
        lemma_suspects(files, n - 1);
        let file = files[n - 1];
        if file.name@ == "build.rs"@ {
            law_warning_of_a_script(file);
        }
        let before = crate::protection::supply_chain::tree_said(files, n - 1)->Ok_0.1;
        let more = crate::protection::supply_chain::file_said(file)->Ok_0.1;
        let out = crate::protection::supply_chain::tree_said(files, n)->Ok_0.1;
        assert(out == before + more);
        assert forall|k: int| 0 <= k < out.len() implies from_suspect(
            files,
            n,
            (#[trigger] out[k]).path,
        ) && (out[k].severity == "high"@ || out[k].severity == "medium"@) by {
            if k < before.len() {
                assert(out[k] == before[k]);
                let i = choose|i: int|
                    0 <= i < n - 1 && is_suspect(#[trigger] files[i]) && files[i].path@
                        == before[k].path;
                assert(is_suspect(files[i]));
            } else {
                assert(out[k] == more[k - before.len()]);
                assert(is_suspect(files[n - 1]));
            }
        }
        if out.len() > 0 {
            assert(from_suspect(files, n, out[0].path));
        }
    }
}

/// One report more adds the files that it scanned to the count.
pub proof fn law_scanned_files_add_up(reports: Seq<StaticScanReport>, more: StaticScanReport)
    ensures
        crate::protection::supply_chain::all_scanned(reports.push(more))
            == crate::protection::supply_chain::all_scanned(reports) + more.scanned_files,
        crate::protection::supply_chain::all_scanned(seq![more]) == more.scanned_files,
{
    assert(reports.push(more).drop_last() =~= reports);
    assert(seq![more].drop_last() =~= Seq::<StaticScanReport>::empty());
    assert(crate::protection::supply_chain::all_scanned(Seq::<StaticScanReport>::empty()) == 0);
}

/// Merging reports keeps every blocker and every warning of each of them, and counts its files.
pub proof fn law_merging_loses_nothing(reports: Seq<StaticScanReport>, i: int)
    requires
        0 <= i < reports.len(),
    ensures
        forall|k: int|
            0 <= k < reports[i].blockers@.len()
                ==> crate::protection::supply_chain::all_blockers(reports).contains(
                (#[trigger] reports[i].blockers@[k])@,
            ),
        forall|k: int|
            0 <= k < reports[i].warnings@.len()
                ==> crate::protection::supply_chain::all_warnings(reports).contains(
                (#[trigger] reports[i].warnings@[k])@,
            ),
        crate::protection::supply_chain::all_scanned(reports) >= reports[i].scanned_files,
    decreases reports.len(),
{
    let head = reports.drop_last();
    let blockers = crate::protection::supply_chain::all_blockers(head);
    let warnings = crate::protection::supply_chain::all_warnings(head);
    let last_blockers = crate::protection::supply_chain::said(reports.last().blockers@);
    let last_warnings = crate::protection::supply_chain::said(reports.last().warnings@);
    let all_b = crate::protection::supply_chain::all_blockers(reports);
    let all_w = crate::protection::supply_chain::all_warnings(reports);
    lemma_scanned(head);
    if i < reports.len() - 1 {
        law_merging_loses_nothing(head, i);
        assert(head[i] == reports[i]);
        assert forall|x: Indicator| blockers.contains(x) implies all_b.contains(x) by {
            let j = blockers.index_of(x);
            assert(all_b[j] == x);
        }
        assert forall|x: Indicator| warnings.contains(x) implies all_w.contains(x) by {
            let j = warnings.index_of(x);
            assert(all_w[j] == x);
        }
    } else {
        assert forall|k: int| 0 <= k < reports[i].blockers@.len() implies all_b.contains(
            (#[trigger] reports[i].blockers@[k])@,
        ) by {
            assert(last_blockers[k] == reports[i].blockers@[k]@);
            assert(all_b[blockers.len() + k] == last_blockers[k]);
        }
        assert forall|k: int| 0 <= k < reports[i].warnings@.len() implies all_w.contains(
            (#[trigger] reports[i].warnings@[k])@,
        ) by {
            assert(last_warnings[k] == reports[i].warnings@[k]@);
            assert(all_w[warnings.len() + k] == last_warnings[k]);
        }
    }
}

proof fn lemma_scanned(reports: Seq<StaticScanReport>)
    ensures
        crate::protection::supply_chain::all_scanned(reports) >= 0,
    decreases reports.len(),
{
    if reports.len() > 0 {
        lemma_scanned(reports.drop_last());
    }
}

} // verus!
