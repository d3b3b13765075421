//! What is read from GitHub.
use vstd::prelude::*;

use crate::watch::model::Check;

verus! {

/// A repository without an owner gets the one that is configured.
pub proof fn law_name_of_a_repository(owner: Seq<char>, repository: Seq<char>)
    ensures
        crate::strings::occurs(repository, "/"@) ==> crate::watch::github::full_name(owner, repository)
            == repository,
        crate::strings::trimmed(owner).len() == 0 ==> crate::watch::github::full_name(owner, repository)
            == repository,
        !crate::strings::occurs(repository, "/"@) && crate::strings::trimmed(owner).len() > 0
            ==> crate::watch::github::full_name(owner, repository) == crate::strings::trimmed(owner)
            + "/"@ + repository,
{
}

/// The repositories that are watched are those that are named and not archived.
pub proof fn law_archived_repositories_are_left_out(items: Seq<Seq<char>>, n: int, name: Seq<char>)
    requires
        n <= items.len(),
    ensures
        crate::watch::github::live_repositories(items, n).contains(name) <==> exists|i: int|
            0 <= i < n && is_live(#[trigger] items[i], name),
    decreases n,
{
    if n > 0 {
        law_archived_repositories_are_left_out(items, n - 1, name);
        let rest = crate::watch::github::live_repositories(items, n - 1);
        let all = crate::watch::github::live_repositories(items, n);
        let item = items[n - 1];
        if all != rest {
            let last = crate::watch::github::text_in(item, "/nameWithOwner"@)->0;
            assert(all == rest.push(last));
            assert(all[rest.len() as int] == last);
            if rest.contains(name) {
                let k = rest.index_of(name);
                assert(all[k] == name);
            }
            if all.contains(name) && name != last {
                let k = all.index_of(name);
                assert(rest[k] == name);
            }
        }
        assert(is_live(item, name) ==> all.contains(name));
    }
}

/// The item is the repository of that name, and not archived.
pub open spec fn is_live(item: Seq<char>, name: Seq<char>) -> bool {
    crate::json::json_text(item, "/nameWithOwner"@) == Ok::<Option<Seq<char>>, Seq<char>>(Some(name))
        && crate::json::json_flag(item, "/isArchived"@) != Ok::<Option<bool>, Seq<char>>(Some(true))
}

/// A check is read from the fields of its kind.
pub proof fn law_fields_of_a_check(doc: Seq<char>)
    ensures
        ({
            let check = crate::watch::github::check_in(doc);
            &&& check.conclusion == crate::watch::github::text_or(doc, "/conclusion"@, ""@)
            &&& crate::watch::github::text_in(doc, "/__typename"@) == Some("StatusContext"@) ==> {
                &&& check.name == crate::watch::github::text_or(doc, "/context"@, "unknown"@)
                &&& check.status == crate::watch::github::text_or(doc, "/state"@, ""@)
                &&& check.details_url == crate::watch::github::text_or(doc, "/targetUrl"@, ""@)
            }
            &&& crate::watch::github::text_in(doc, "/__typename"@) != Some("StatusContext"@) ==> {
                &&& check.name == crate::watch::github::text_or(doc, "/name"@, "unknown"@)
                &&& check.status == crate::watch::github::text_or(doc, "/status"@, ""@)
                &&& check.details_url == crate::watch::github::text_or(doc, "/detailsUrl"@, ""@)
            }
        }),
{
}

proof fn lemma_check_inserted(s: Seq<Check>, x: Check, c: Check)
    ensures
        crate::watch::github::check_inserted(s, x).len() == s.len() + 1,
        crate::watch::github::check_inserted(s, x).contains(c) <==> s.contains(c) || c == x,
    decreases s.len(),
{
    let all = crate::watch::github::check_inserted(s, x);
    if s.len() == 0 {
        assert(all[0] == x);
    } else if crate::watch::github::check_le(s.last(), x) {
        lemma_pushed(s, x, c);
    } else {
        let fewer = s.drop_last();
        lemma_check_inserted(fewer, x, c);
        lemma_pushed(crate::watch::github::check_inserted(fewer, x), s.last(), c);
        lemma_pushed(fewer, s.last(), c);
        assert(fewer.push(s.last()) =~= s);
    }
}

proof fn lemma_pushed(s: Seq<Check>, x: Check, c: Check)
    ensures
        s.push(x).contains(c) <==> s.contains(c) || c == x,
{
    assert(s.push(x)[s.len() as int] == x);
    if s.contains(c) {
        let i = s.index_of(c);
        assert(s.push(x)[i] == c);
    }
    if s.push(x).contains(c) && c != x {
        let i = s.push(x).index_of(c);
        assert(s[i] == c);
    }
}

/// No check is lost and none is made up, whatever their order.
pub proof fn law_no_check_is_lost(docs: Seq<Seq<char>>, c: Check)
    ensures
        crate::watch::github::normalized(docs).len() == docs.len(),
        crate::watch::github::normalized(docs).contains(c) <==> exists|i: int|
            0 <= i < docs.len() && crate::watch::github::check_in(#[trigger] docs[i]) == c,
    decreases docs.len(),
{
    if docs.len() > 0 {
        let fewer = docs.drop_last();
        law_no_check_is_lost(fewer, c);
        lemma_check_inserted(
            crate::watch::github::normalized(fewer),
            crate::watch::github::check_in(docs.last()),
            c,
        );
        if exists|i: int| 0 <= i < fewer.len() && crate::watch::github::check_in(#[trigger] fewer[i]) == c {
            let i = choose|i: int|
                0 <= i < fewer.len() && crate::watch::github::check_in(#[trigger] fewer[i]) == c;
            assert(docs[i] == fewer[i]);
        }
        if exists|i: int| 0 <= i < docs.len() && crate::watch::github::check_in(#[trigger] docs[i]) == c {
            let i = choose|i: int|
                0 <= i < docs.len() && crate::watch::github::check_in(#[trigger] docs[i]) == c;
            if i < docs.len() - 1 {
                assert(docs[i] == fewer[i]);
            }
        }
        assert(docs[docs.len() - 1] == docs.last());
    }
}

/// The runs whose logs are read are those of the checks that failed.
pub proof fn law_logs_of_failed_checks(checks: Seq<Check>, n: int, id: Seq<char>)
    requires
        n <= checks.len(),
    ensures
        crate::watch::github::failed_runs(checks, n).contains(id) <==> exists|i: int|
            0 <= i < n && crate::laws::watching::is_failure(#[trigger] checks[i])
                && crate::watch::github::run_id_in(checks[i].details_url) == Some(id),
    decreases n,
{
    if n > 0 {
        law_logs_of_failed_checks(checks, n - 1, id);
        let rest = crate::watch::github::failed_runs(checks, n - 1);
        let all = crate::watch::github::failed_runs(checks, n);
        let check = checks[n - 1];
        assert(crate::watch::model::failed(check) == crate::laws::watching::is_failure(check));
        if all != rest {
            let last = crate::watch::github::run_id_in(check.details_url)->0;
            assert(all == rest.push(last));
            assert(all[rest.len() as int] == last);
            if rest.contains(id) {
                let k = rest.index_of(id);
                assert(all[k] == id);
            }
            if all.contains(id) && id != last {
                let k = all.index_of(id);
                assert(rest[k] == id);
            }
        }
    }
}

/// Evidence that fits is kept whole and in order.
pub proof fn law_evidence_that_fits_is_kept(items: Seq<Seq<char>>, n: int, max: nat)
    requires
        0 <= n <= items.len(),
        forall|i: int| 0 <= i < n ==> (#[trigger] items[i]).len() > 0,
        crate::watch::github::total_bytes(items.take(n)) <= max,
    ensures
        crate::watch::github::bounded_items(items, n, max).0 == items.take(n),
        crate::watch::github::bounded_items(items, n, max).1 == max - crate::watch::github::total_bytes(
            items.take(n),
        ),
    decreases n,
{
    if n > 0 {
        assert(items.take(n).drop_last() =~= items.take(n - 1));
        law_evidence_that_fits_is_kept(items, n - 1, max);
        let left = crate::watch::github::bounded_items(items, n - 1, max).1;
        let item = items[n - 1];
        crate::text::law_truncated_fits(item, left);
        lemma_some_bytes(item);
        assert(items.take(n - 1).push(item) =~= items.take(n));
    } else {
        assert(items.take(n) =~= Seq::empty());
    }
}

proof fn lemma_some_bytes(s: Seq<char>)
    requires
        s.len() > 0,
    ensures
        crate::strings::byte_count(s) > 0,
{
    if crate::strings::byte_count(s) == 0 {
        crate::text::law_truncated_fits(s, 0);
    }
}

/// What happened up to the time of the last look is not told again; what came later is, with who did
/// it and where.
pub proof fn law_only_news_is_told(
    node: Seq<char>,
    kind: Seq<char>,
    time_field: Seq<char>,
    since: Seq<char>,
)
    ensures
        ({
            let at = crate::watch::github::text_or(node, time_field, ""@);
            let state = crate::watch::github::text_or(node, "/state"@, ""@);
            let author = crate::watch::github::text_or(node, "/author/login"@, "unknown"@);
            let url = crate::watch::github::text_or(node, "/url"@, ""@);
            let body = crate::watch::github::terminal_text(
                crate::watch::github::text_or(node, "/body"@, ""@),
                2_000,
            );
            let line = crate::watch::github::node_line(node, kind, time_field, since);
            &&& line is None <==> crate::order::le(at, since)
            &&& line is Some && state.len() > 0 ==> line->0 == kind + " "@ + author + " "@ + state + " "@
                + url + "：\n"@ + body
            &&& line is Some && state.len() == 0 ==> line->0 == kind + " "@ + author + " "@ + at + " "@
                + url + "：\n"@ + body
        }),
{
}

} // verus!
