//! What is told of advisories, pull requests, packages and rules.
use crate::config::{BranchKind, Config, PushStrategy, SyncStrategy};
use crate::protection::closure::Sourced;
use crate::protection::model::StaticScanReport;
use crate::protection::osv::OsvAdvisorySignal;
use crate::watch::model::{Pull, PullRequestLifecycle};
use vstd::prelude::*;

verus! {

/// The signal of an advisory tells its name, what it is about and where it is described, hands on its
/// text as it is, and lists itself.
pub proof fn law_signal_tells_its_advisory(
    signal: OsvAdvisorySignal,
    references: Map<Seq<char>, Seq<char>>,
    id: Seq<char>,
    modified: Seq<char>,
    aliases: Seq<Seq<char>>,
    summary: Option<Seq<char>>,
    content: Seq<char>,
)
    requires
        crate::protection::osv::is_advisory_signal(
            signal,
            references,
            id,
            modified,
            aliases,
            summary,
            content,
        ),
    ensures
        signal.id@ == id,
        signal.modified@ == modified,
        signal.content@ == content,
        signal.reference@ == "https://osv.dev/vulnerability/"@ + id,
        summary is Some && crate::strings::trimmed(summary->0).len() > 0 ==> signal.summary@ == id
            + ": "@ + summary->0,
        summary is None ==> signal.summary@ == id + ": OSV 公告未提供摘要"@,
        exists|i: int|
            0 <= i < signal.related_ids@.len() && (#[trigger] signal.related_ids@[i]).id@ == id,
        forall|k: int|
            0 <= k < aliases.len() && references.contains_key(#[trigger] aliases[k]) ==> exists|i: int|
                0 <= i < signal.related_ids@.len() && (#[trigger] signal.related_ids@[i]).id@ == aliases[k]
                    && signal.related_ids@[i].modified@ == references[aliases[k]],
        forall|i: int|
            0 <= i < signal.related_ids@.len() ==> (#[trigger] signal.related_ids@[i]).id@ == id
                || aliases.contains(signal.related_ids@[i].id@),
{
    let t = crate::protection::osv::related(references, id, modified, aliases);
    let list = signal.related_ids@;
    crate::laws::osv::law_advisory_speaks_for_its_aliases(references, id, modified, aliases, id);
    assert(t.dom().contains(id));
    reveal_strlit(": ");
    reveal_strlit("OSV 公告未提供摘要");
    reveal_strlit(": OSV 公告未提供摘要");
    if summary is None {
        assert(signal.summary@ =~= id + ": OSV 公告未提供摘要"@);
    }
    assert forall|k: int| 0 <= k < aliases.len() && references.contains_key(#[trigger] aliases[k]) implies exists|
        i: int,
    |
        0 <= i < list.len() && (#[trigger] list[i]).id@ == aliases[k] && list[i].modified@
            == references[aliases[k]] by {
        let alias = aliases[k];
        assert(aliases.contains(alias));
        crate::laws::osv::law_advisory_speaks_for_its_aliases(references, id, modified, aliases, alias);
        assert(t.dom().contains(alias));
        let i = choose|i: int| 0 <= i < list.len() && (#[trigger] list[i]).id@ == alias;
        assert(list[i].modified@ == t[alias]);
    }
    assert forall|i: int| 0 <= i < list.len() implies (#[trigger] list[i]).id@ == id || aliases.contains(
        list[i].id@,
    ) by {
        crate::laws::osv::law_advisory_speaks_for_its_aliases(
            references,
            id,
            modified,
            aliases,
            list[i].id@,
        );
        assert(t.dom().contains(list[i].id@));
    }
}

/// An alias is refused if and only if the queries found it and its name is no valid one.
pub proof fn law_bad_alias_is_refused(
    references: Map<Seq<char>, Seq<char>>,
    aliases: Seq<Seq<char>>,
    n: int,
)
    requires
        0 <= n <= aliases.len(),
    ensures
        ({
            let r = crate::protection::osv::bad_alias(references, aliases, n);
            &&& r is None <==> forall|i: int|
                0 <= i < n && references.contains_key(#[trigger] aliases[i])
                    ==> crate::protection::osv::is_valid_id(aliases[i])
            &&& r matches Some(alias) ==> references.contains_key(alias)
                && !crate::protection::osv::is_valid_id(alias) && aliases.contains(alias)
        }),
    decreases n,
{
    if n > 0 {
        law_bad_alias_is_refused(references, aliases, n - 1);
        assert(aliases.contains(aliases[n - 1]));
    }
}

/// What the model gets of an advisory holds what it is about, whom it affects and how grave it is.
pub proof fn law_advisory_keeps_what_matters()
    ensures
        ({
            let keys = crate::protection::osv::advisory_keys();
            &&& keys.contains("id"@)
            &&& keys.contains("summary"@)
            &&& keys.contains("details"@)
            &&& keys.contains("aliases"@)
            &&& keys.contains("severity"@)
            &&& keys.contains("affected"@)
            &&& keys.contains("database_specific"@)
            &&& keys.contains("references"@)
            &&& keys.contains("published"@)
            &&& keys.contains("modified"@)
            &&& keys.len() == 10
        }),
{
    let keys = crate::protection::osv::advisory_keys();
    assert(keys[0] == "id"@ && keys[1] == "summary"@ && keys[2] == "details"@ && keys[3]
        == "aliases"@ && keys[4] == "severity"@ && keys[5] == "affected"@ && keys[6]
        == "database_specific"@ && keys[7] == "references"@ && keys[8] == "published"@ && keys[9]
        == "modified"@);
}

/// The event of a new pull request is of that pull request and comes once for each head of it.
pub proof fn law_event_of_a_new_pull_request(a: Pull, b: Pull)
    ensures
        ({
            let e = crate::watch::discovered_event(a);
            &&& e.entity_key == crate::watch::model::pull_key(a.repository, a.number)
            &&& e.kind == "github-pr-discovered"@
            &&& e.evidence_url == a.url
            &&& crate::laws::telling::holds(e.summary, a.title)
            &&& a.head_oid != b.head_oid ==> e.material != crate::watch::discovered_event(b).material
            &&& a.head_oid == b.head_oid ==> e.material == crate::watch::discovered_event(b).material
        }),
{
    let e = crate::watch::discovered_event(a);
    assert(e.summary =~= "发现新的个人 PR："@ + a.title + Seq::<char>::empty());
}

/// The event of a pull request that ended says whether it was merged, and when it ended.
pub proof fn law_event_of_an_ended_pull_request(pull: Pull, end: PullRequestLifecycle)
    ensures
        ({
            let e = crate::watch::ended_event(pull, end);
            &&& e.entity_key == crate::watch::model::pull_key(pull.repository, pull.number)
            &&& e.evidence_url == end.url@
            &&& crate::laws::telling::holds(e.summary, end.title@)
            &&& end.state@ == "MERGED"@ ==> e.kind == "github-pr-merged"@ && e.material
                == end.merged_at@ && crate::laws::telling::holds(e.summary, "合并"@)
            &&& end.state@ != "MERGED"@ ==> e.kind == "github-pr-closed"@ && e.material
                == end.closed_at@ && crate::laws::telling::holds(e.summary, "关闭"@)
        }),
{
    let e = crate::watch::ended_event(pull, end);
    let word = if end.state@ == "MERGED"@ {
        "合并"@
    } else {
        "关闭"@
    };
    assert(e.summary =~= ("个人 PR 已"@ + word + "："@) + end.title@ + Seq::<char>::empty());
    assert(e.summary =~= "个人 PR 已"@ + word + ("："@ + end.title@));
}

/// The event of a changed pull request is of that pull request as it is now.
pub proof fn law_event_of_a_changed_pull_request(previous: Pull, current: Pull)
    ensures
        ({
            let e = crate::watch::changed_event(previous, current);
            &&& e.entity_key == crate::watch::model::pull_key(current.repository, current.number)
            &&& e.kind == "github-pr-changed"@
            &&& e.evidence_url == current.url
            &&& e.material == crate::watch::model::pull_json(current)
        }),
{
}

/// The runs whose logs are read are failed ones, each once, and three at most.
pub proof fn law_runs_that_are_read(ids: Seq<Seq<char>>)
    ensures
        ({
            let r = crate::watch::github::first_runs(ids);
            &&& r.len() <= 3
            &&& r.len() == 0 <==> ids.len() == 0
            &&& forall|i: int| 0 <= i < r.len() ==> ids.contains(#[trigger] r[i])
            &&& r.len() < 3 ==> forall|k: int| 0 <= k < ids.len() ==> r.contains(#[trigger] ids[k])
        }),
{
    let sorted = crate::order::sorted(ids);
    crate::order::law_sorted(ids);
    let all = crate::watch::github::without_repeats(sorted);
    lemma_without_repeats(sorted);
    ids.to_multiset_ensures();
    sorted.to_multiset_ensures();
    let r = crate::watch::github::first_runs(ids);
    assert(sorted.len() == ids.len());
    assert forall|i: int| 0 <= i < r.len() implies ids.contains(#[trigger] r[i]) by {
        assert(r[i] == all[i]);
        assert(all.contains(all[i]));
        assert(sorted.contains(all[i]));
        assert(sorted.to_multiset().count(all[i]) > 0);
        assert(ids.to_multiset().count(all[i]) > 0);
    }
    if r.len() < 3 {
        assert(r == all);
        assert forall|k: int| 0 <= k < ids.len() implies r.contains(#[trigger] ids[k]) by {
            assert(ids.contains(ids[k]));
            assert(ids.to_multiset().count(ids[k]) > 0);
            assert(sorted.to_multiset().count(ids[k]) > 0);
            assert(sorted.contains(ids[k]));
        }
    }
}

proof fn lemma_without_repeats(s: Seq<Seq<char>>)
    ensures
        ({
            let r = crate::watch::github::without_repeats(s);
            &&& r.len() == 0 <==> s.len() == 0
            &&& r.len() > 0 ==> r.last() == s.last()
            &&& forall|x: Seq<char>| #[trigger] r.contains(x) <==> s.contains(x)
        }),
    decreases s.len(),
{
    let r = crate::watch::github::without_repeats(s);
    if s.len() > 0 {
        let head = s.drop_last();
        lemma_without_repeats(head);
        let before = crate::watch::github::without_repeats(head);
        assert forall|x: Seq<char>| #[trigger] r.contains(x) <==> s.contains(x) by {
            if s.contains(x) {
                let i = s.index_of(x);
                if i < head.len() {
                    assert(head[i] == x);
                    assert(before.contains(x));
                    let j = before.index_of(x);
                    assert(r[j] == x);
                } else {
                    assert(r[r.len() - 1] == x);
                }
            }
            if r.contains(x) {
                let j = r.index_of(x);
                if j < before.len() {
                    assert(before[j] == x);
                    assert(before.contains(x));
                    let i = head.index_of(x);
                    assert(s[i] == x);
                } else {
                    assert(s[s.len() - 1] == x);
                }
            }
        }
    }
}

/// The end of a text is its longest end that takes no more bytes than allowed.
pub proof fn law_end_of_a_text(s: Seq<char>, max: nat)
    ensures
        ({
            let r = crate::watch::github::end_of(s, max);
            &&& r.len() <= s.len()
            &&& r == s.skip(s.len() - r.len())
            &&& r.len() > 0 ==> crate::strings::byte_count(r) <= max
            &&& r.len() < s.len() ==> crate::strings::byte_count(s.skip(s.len() - r.len() - 1)) > max
        }),
    decreases s.len(),
{
    let r = crate::watch::github::end_of(s, max);
    if s.len() == 0 || crate::strings::byte_count(s) <= max {
        assert(s.skip(0) =~= s);
    } else {
        let rest = s.drop_first();
        law_end_of_a_text(rest, max);
        assert(rest.skip(rest.len() - r.len()) =~= s.skip(s.len() - r.len()));
        if r.len() < rest.len() {
            assert(rest.skip(rest.len() - r.len() - 1) =~= s.skip(s.len() - r.len() - 1));
        } else {
            assert(s.skip(0) =~= s);
        }
    }
}

/// Every dependency of a reachable package that stands for no single package is told, and nothing
/// else is.
pub proof fn law_unclear_dependency_is_told(
    packages: Seq<Sourced>,
    dependencies: Seq<Seq<Seq<char>>>,
    n: int,
    x: Seq<char>,
)
    requires
        0 <= n,
    ensures
        crate::protection::closure::unclear(packages, dependencies, n).contains(x) <==> exists|
            i: int,
            k: int,
        |
            0 <= i < n && i < dependencies.len() && 0 <= k < dependencies[i].len()
                && crate::protection::closure::is_reachable(packages, dependencies, i)
                && !crate::protection::closure::is_clear(packages, dependencies[i][k]) && x
                == #[trigger] told_edge(packages, dependencies, i, k),
    decreases n,
{
    if n > 0 {
        law_unclear_dependency_is_told(packages, dependencies, n - 1, x);
        let all = crate::protection::closure::unclear(packages, dependencies, n);
        let rest = crate::protection::closure::unclear(packages, dependencies, n - 1);
        if crate::protection::closure::is_reachable(packages, dependencies, n - 1) && n - 1
            < dependencies.len() {
            let list = dependencies[n - 1];
            let more = crate::protection::closure::unclear_entries(packages, packages[n - 1], list);
            lemma_unclear_entries(packages, packages[n - 1], list, x);
            if all.contains(x) {
                let j = all.index_of(x);
                if j < rest.len() {
                    assert(rest[j] == x);
                } else {
                    assert(more[j - rest.len()] == x);
                    let k = choose|k: int|
                        0 <= k < list.len() && !crate::protection::closure::is_clear(
                            packages,
                            #[trigger] list[k],
                        ) && x == packages[n - 1].0 + " -> "@ + list[k];
                    assert(x == told_edge(packages, dependencies, n - 1, k));
                }
            }
            if rest.contains(x) {
                let j = rest.index_of(x);
                assert(all[j] == x);
            }
            if more.contains(x) {
                let j = more.index_of(x);
                assert(all[rest.len() + j] == x);
            }
            if exists|i: int, k: int|
                0 <= i < n && i < dependencies.len() && 0 <= k < dependencies[i].len()
                    && crate::protection::closure::is_reachable(packages, dependencies, i)
                    && !crate::protection::closure::is_clear(packages, dependencies[i][k]) && x
                    == #[trigger] told_edge(packages, dependencies, i, k) {
                let (i, k) = choose|i: int, k: int|
                    0 <= i < n && i < dependencies.len() && 0 <= k < dependencies[i].len()
                        && crate::protection::closure::is_reachable(packages, dependencies, i)
                        && !crate::protection::closure::is_clear(packages, dependencies[i][k]) && x
                        == #[trigger] told_edge(packages, dependencies, i, k);
                if i == n - 1 {
                    assert(!crate::protection::closure::is_clear(packages, list[k]));
                }
            }
        }
    }
}

/// How an unclear dependency is told: the package and what it names.
pub open spec fn told_edge(
    packages: Seq<Sourced>,
    dependencies: Seq<Seq<Seq<char>>>,
    i: int,
    k: int,
) -> Seq<char> {
    packages[i].0 + " -> "@ + dependencies[i][k]
}

proof fn lemma_unclear_entries(
    packages: Seq<Sourced>,
    package: Sourced,
    list: Seq<Seq<char>>,
    x: Seq<char>,
)
    ensures
        crate::protection::closure::unclear_entries(packages, package, list).contains(x) <==> exists|
            k: int,
        |
            0 <= k < list.len() && !crate::protection::closure::is_clear(packages, #[trigger] list[k])
                && x == package.0 + " -> "@ + list[k],
    decreases list.len(),
{
    let all = crate::protection::closure::unclear_entries(packages, package, list);
    if list.len() > 0 {
        let head = list.drop_last();
        lemma_unclear_entries(packages, package, head, x);
        let rest = crate::protection::closure::unclear_entries(packages, package, head);
        assert(list[list.len() - 1] == list.last());
        assert forall|k: int| 0 <= k < head.len() implies head[k] == #[trigger] list[k] by {}
        if rest.contains(x) {
            let j = rest.index_of(x);
            assert(all[j] == x);
            let k = choose|k: int|
                0 <= k < head.len() && !crate::protection::closure::is_clear(
                    packages,
                    #[trigger] head[k],
                ) && x == package.0 + " -> "@ + head[k];
            assert(!crate::protection::closure::is_clear(packages, list[k]));
        }
        if !crate::protection::closure::is_clear(packages, list.last()) {
            assert(all[all.len() - 1] == package.0 + " -> "@ + list.last());
        }
        if all.contains(x) && !rest.contains(x) {
            let j = all.index_of(x);
            assert(j == rest.len());
            assert(!crate::protection::closure::is_clear(packages, list[list.len() - 1]));
        }
        if exists|k: int|
            0 <= k < list.len() && !crate::protection::closure::is_clear(packages, #[trigger] list[k])
                && x == package.0 + " -> "@ + list[k] {
            let k = choose|k: int|
                0 <= k < list.len() && !crate::protection::closure::is_clear(
                    packages,
                    #[trigger] list[k],
                ) && x == package.0 + " -> "@ + list[k];
            if k < head.len() {
                assert(!crate::protection::closure::is_clear(packages, head[k]));
            }
        }
    }
}

/// The words that stop a build say how many blockers there are, and tell the first eight of them.
pub proof fn law_stop_tells_the_blockers(report: StaticScanReport, i: int)
    ensures
        crate::laws::telling::holds(
            crate::protection::runner::gate_words(report),
            crate::strings::decimal(report.blockers@.len()),
        ),
        0 <= i < 8 && i < report.blockers@.len() ==> crate::laws::telling::holds(
            crate::protection::runner::gate_words(report),
            report.blockers@[i].rule_id@ + " "@ + report.blockers@[i].path@ + ": "@
                + report.blockers@[i].evidence@,
        ),
{
    let words = crate::protection::runner::gate_words(report);
    let list = crate::protection::supply_chain::said(report.blockers@);
    let lines = crate::protection::runner::evidence_lines(list);
    let shown = lines.take(
        if lines.len() < 8 {
            lines.len() as int
        } else {
            8
        },
    );
    let count = crate::strings::decimal(report.blockers@.len());
    let a = "项目保护门禁发现 "@;
    let b = " 个供应链阻断项，已拒绝测试、构建和推送：\n"@;
    let joined = crate::strings::join(shown, "\n"@);
    assert(words =~= a + count + (b + joined));
    if 0 <= i < 8 && i < report.blockers@.len() {
        crate::laws::asking::lemma_join_holds(shown, "\n"@, i);
        assert(shown[i] == crate::protection::runner::evidence_line(list[i]));
        assert(list[i] == report.blockers@[i]@);
        crate::laws::telling::lemma_holds_more(joined, shown[i], a + count + b, Seq::empty());
        assert(words =~= (a + count + b) + joined + Seq::<char>::empty());
    }
}

/// A project goes by the name that is configured for it, whatever its path.
pub proof fn law_configured_name_is_used(configured: Seq<char>, a: Seq<char>, b: Seq<char>)
    ensures
        crate::strings::trimmed(configured).len() > 0 ==> crate::protection::runner::project_name(
            configured,
            a,
        ) == crate::strings::trimmed(configured),
        crate::protection::runner::project_name(configured, a).len() == 0 ==> crate::strings::trimmed(
            configured,
        ).len() == 0,
        crate::strings::trimmed(configured).len() == 0 && crate::paths::file_name(b) is Some
            ==> crate::protection::runner::project_name(configured, b) == crate::paths::file_name(b)->0,
{
}

pub open spec fn written_kind(kind: BranchKind) -> Seq<char> {
    if kind is Product {
        "Product"@
    } else {
        "Pr"@
    }
}

pub open spec fn written_sync(sync: SyncStrategy) -> Seq<char> {
    if sync is Rebase {
        "Rebase"@
    } else {
        "Merge"@
    }
}

pub open spec fn written_push(push: PushStrategy) -> Seq<char> {
    if push is Never {
        "None"@
    } else if push is Normal {
        "Normal"@
    } else {
        "ForceWithLease"@
    }
}

/// Every branch is told to the model: what it is, how it is brought up to date, how it is pushed and what
/// is noted of it.
pub proof fn law_branch_is_told_as_it_is(config: Config, i: int)
    requires
        0 <= i < config.branches@.len(),
    ensures
        ({
            let branch = config.branches@[i];
            let told = crate::assistant::branch_lines(config);
            &&& crate::laws::telling::holds(
                told,
                branch.name@ + ", kind: "@ + written_kind(branch.kind) + ", sync: "@ + written_sync(
                    branch.sync,
                ) + ", push: "@ + written_push(branch.push),
            )
            &&& branch.note is Some ==> crate::laws::telling::holds(told, branch.note->0@)
        }),
{
    let branch = config.branches@[i];
    let told = crate::assistant::branch_lines(config);
    let line = crate::assistant::branch_line(branch);
    let parts = Seq::new(
        config.branches@.len(),
        |k: int| crate::assistant::branch_line(config.branches@[k]),
    );
    crate::laws::asking::lemma_join_holds(parts, "\n"@, i);
    assert(parts[i] == line);
    let kind = crate::assistant::kind_word(branch.kind);
    let sync = crate::assistant::sync_word(branch.sync);
    let push = crate::assistant::push_word(branch.push);
    let middle = branch.name@ + ", kind: "@ + kind + ", sync: "@ + sync + ", push: "@ + push;
    let note = ", note: "@ + (match branch.note {
        Some(note) => note@,
        None => "none"@,
    });
    assert(line =~= "  - name: "@ + middle + note);
    assert(middle == branch.name@ + ", kind: "@ + written_kind(branch.kind) + ", sync: "@
        + written_sync(branch.sync) + ", push: "@ + written_push(branch.push));
    let (a, b) = choose|a: Seq<char>, b: Seq<char>| told == #[trigger] (a + line + b);
    assert(crate::laws::telling::holds(line, middle));
    crate::laws::telling::lemma_holds_more(line, middle, a, b);
    if branch.note is Some {
        let own = branch.note->0@;
        assert(line =~= ("  - name: "@ + middle + ", note: "@) + own + Seq::<char>::empty());
        assert(crate::laws::telling::holds(line, own));
        crate::laws::telling::lemma_holds_more(line, own, a, b);
    }
}

/// The rules that are shown to the user are the first twelve lines that state one, in their order.
pub proof fn law_rules_that_are_shown(lines: Seq<Seq<char>>, n: int)
    requires
        0 <= n <= lines.len(),
    ensures
        ({
            let r = crate::assistant::rules(lines, n);
            &&& r.len() <= 12
            &&& forall|k: int|
                0 <= k < r.len() ==> lines.contains(#[trigger] r[k]) && (crate::strings::starts(
                    r[k],
                    "- "@,
                ) || crate::strings::starts(r[k], "TermiteRS "@))
            &&& r.len() < 12 ==> forall|i: int|
                0 <= i < n && (crate::strings::starts(#[trigger] lines[i], "- "@)
                    || crate::strings::starts(lines[i], "TermiteRS "@)) ==> r.contains(lines[i])
        }),
    decreases n,
{
    if n > 0 {
        law_rules_that_are_shown(lines, n - 1);
        let before = crate::assistant::rules(lines, n - 1);
        let r = crate::assistant::rules(lines, n);
        assert(lines.contains(lines[n - 1]));
        if r.len() < 12 {
            assert forall|i: int|
                0 <= i < n && (crate::strings::starts(#[trigger] lines[i], "- "@)
                    || crate::strings::starts(lines[i], "TermiteRS "@)) implies r.contains(
                lines[i],
            ) by {
                if i < n - 1 {
                    let j = before.index_of(lines[i]);
                    assert(r[j] == lines[i]);
                } else {
                    assert(r[r.len() - 1] == lines[i]);
                }
            }
        }
    }
}

} // verus!
