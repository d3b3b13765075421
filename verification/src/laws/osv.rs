//! What the questions to the advisory service find.
use crate::config::ProtectionConfig;
use crate::protection::osv::{OsvQuery, OsvQueryResult, OsvReference, ReachablePackage};
use vstd::prelude::*;

verus! {

/// The advisory is listed with this date of change.
pub open spec fn lists(list: Seq<OsvReference>, id: Seq<char>, modified: Seq<char>) -> bool {
    exists|i: int| 0 <= i < list.len() && (#[trigger] list[i]).id@ == id && list[i].modified@ == modified
}

/// The advisory is listed.
pub open spec fn names_id(list: Seq<OsvReference>, id: Seq<char>) -> bool {
    exists|i: int| 0 <= i < list.len() && (#[trigger] list[i]).id@ == id
}

/// Every advisory of a list is noted, none of those before is lost, and nothing else is there. The date
/// of change of each is one that was given, and no other that was given is later.
pub proof fn law_every_advisory_is_noted(m: Map<Seq<char>, Seq<char>>, list: Seq<OsvReference>)
    ensures
        ({
            let t = crate::protection::osv::noted_all(m, list);
            &&& forall|i: int|
                0 <= i < list.len() ==> t.contains_key((#[trigger] list[i]).id@) && crate::order::le(
                    list[i].modified@,
                    t[list[i].id@],
                )
            &&& forall|k: Seq<char>| #[trigger]
                m.contains_key(k) ==> t.contains_key(k) && crate::order::le(m[k], t[k])
            &&& forall|k: Seq<char>| #[trigger]
                t.contains_key(k) ==> (m.contains_key(k) && t[k] == m[k]) || lists(list, k, t[k])
        }),
    decreases list.len(),
{
    let t = crate::protection::osv::noted_all(m, list);
    if list.len() > 0 {
        let head = list.drop_last();
        let r = list.last();
        let before = crate::protection::osv::noted_all(m, head);
        law_every_advisory_is_noted(m, head);
        crate::order::lemma_le_total(r.modified@, r.modified@);
        if before.contains_key(r.id@) {
            crate::order::lemma_le_total(r.modified@, before[r.id@]);
        }
        assert forall|i: int| 0 <= i < list.len() implies t.contains_key((#[trigger] list[i]).id@)
            && crate::order::le(list[i].modified@, t[list[i].id@]) by {
            if i < head.len() {
                assert(list[i] == head[i]);
                if list[i].id@ == r.id@ {
                    crate::order::lemma_le_transitive(
                        list[i].modified@,
                        before[r.id@],
                        t[r.id@],
                    );
                }
            }
        }
        assert forall|k: Seq<char>| #[trigger] m.contains_key(k) implies t.contains_key(k)
            && crate::order::le(m[k], t[k]) by {
            if k == r.id@ {
                crate::order::lemma_le_transitive(m[k], before[k], t[k]);
            }
        }
        assert forall|k: Seq<char>| #[trigger] t.contains_key(k) implies (m.contains_key(k) && t[k]
            == m[k]) || lists(list, k, t[k]) by {
            if k == r.id@ && t[k] == r.modified@ {
                assert(list[list.len() - 1].id@ == k);
            } else {
                assert(before.contains_key(k) && before[k] == t[k]);
                if lists(head, k, t[k]) {
                    let i = choose|i: int|
                        0 <= i < head.len() && (#[trigger] head[i]).id@ == k && head[i].modified@
                            == t[k];
                    assert(list[i].id@ == k);
                }
            }
        }
    } else {
        assert forall|k: Seq<char>| #[trigger] m.contains_key(k) implies crate::order::le(
            m[k],
            t[k],
        ) by {
            crate::order::lemma_le_total(m[k], m[k]);
        }
    }
}

/// Every advisory of every result is noted, whichever query it answers, and nothing else is there but
/// what was there before.
pub proof fn law_every_result_is_noted(
    m: Map<Seq<char>, Seq<char>>,
    results: Seq<OsvQueryResult>,
    n: int,
)
    requires
        0 <= n <= results.len(),
    ensures
        ({
            let t = crate::protection::osv::noted_results(m, results, n);
            &&& forall|q: int, i: int|
                0 <= q < n && 0 <= i < results[q].vulns@.len() ==> t.contains_key(
                    (#[trigger] results[q].vulns@[i]).id@,
                ) && crate::order::le(results[q].vulns@[i].modified@, t[results[q].vulns@[i].id@])
            &&& forall|k: Seq<char>| #[trigger]
                m.contains_key(k) ==> t.contains_key(k) && crate::order::le(m[k], t[k])
            &&& forall|k: Seq<char>| #[trigger]
                t.contains_key(k) ==> m.contains_key(k) || exists|q: int|
                    0 <= q < n && names_id((#[trigger] results[q]).vulns@, k)
        }),
    decreases n,
{
    let t = crate::protection::osv::noted_results(m, results, n);
    if n > 0 {
        let before = crate::protection::osv::noted_results(m, results, n - 1);
        law_every_result_is_noted(m, results, n - 1);
        let list = results[n - 1].vulns@;
        law_every_advisory_is_noted(before, list);
        assert forall|q: int, i: int|
            0 <= q < n && 0 <= i < results[q].vulns@.len() implies t.contains_key(
            (#[trigger] results[q].vulns@[i]).id@,
        ) && crate::order::le(results[q].vulns@[i].modified@, t[results[q].vulns@[i].id@]) by {
            let id = results[q].vulns@[i].id@;
            if q < n - 1 {
                assert(before.contains_key(id));
                crate::order::lemma_le_transitive(results[q].vulns@[i].modified@, before[id], t[id]);
            } else {
                assert(results[q].vulns@[i] == list[i]);
            }
        }
        assert forall|k: Seq<char>| #[trigger] m.contains_key(k) implies t.contains_key(k)
            && crate::order::le(m[k], t[k]) by {
            assert(before.contains_key(k));
            crate::order::lemma_le_transitive(m[k], before[k], t[k]);
        }
        assert forall|k: Seq<char>| #[trigger] t.contains_key(k) implies m.contains_key(k) || exists|
            q: int,
        |
            0 <= q < n && names_id((#[trigger] results[q]).vulns@, k) by {
            if before.contains_key(k) {
                if !m.contains_key(k) {
                    let q = choose|q: int|
                        0 <= q < n - 1 && names_id((#[trigger] results[q]).vulns@, k);
                    assert(names_id(results[q].vulns@, k));
                }
            } else {
                assert(lists(list, k, t[k]));
                assert(names_id(results[n - 1].vulns@, k));
            }
        }
    } else {
        assert forall|k: Seq<char>| #[trigger] m.contains_key(k) implies crate::order::le(
            m[k],
            t[k],
        ) by {
            crate::order::lemma_le_total(m[k], m[k]);
        }
    }
}

/// Page number `k` asks on for query number `q`.
pub open spec fn asks_on(
    queries: Seq<OsvQuery>,
    results: Seq<OsvQueryResult>,
    page: ((Seq<char>, Seq<char>), Seq<char>),
    q: int,
) -> bool {
    &&& page.0.0 == queries[q].name@
    &&& page.0.1 == queries[q].version@
    &&& results[q].next_page_token is Some
    &&& page.1 == results[q].next_page_token->0@
}

/// One of the pages asks on for query number `q`.
pub open spec fn is_asked_on(
    queries: Seq<OsvQuery>,
    results: Seq<OsvQueryResult>,
    pages: Seq<((Seq<char>, Seq<char>), Seq<char>)>,
    q: int,
) -> bool {
    exists|k: int| 0 <= k < pages.len() && asks_on(queries, results, #[trigger] pages[k], q)
}

/// The page asks on for one of the first `n` queries.
pub open spec fn asks_for_some(
    queries: Seq<OsvQuery>,
    results: Seq<OsvQueryResult>,
    page: ((Seq<char>, Seq<char>), Seq<char>),
    n: int,
) -> bool {
    exists|q: int| 0 <= q < n && #[trigger] asks_on(queries, results, page, q)
}

/// Every result that has another page is asked on for, with the token of that page and for the same
/// package and version, and no other is.
pub proof fn law_every_page_is_followed(queries: Seq<OsvQuery>, results: Seq<OsvQueryResult>, n: int)
    requires
        0 <= n <= queries.len(),
        queries.len() == results.len(),
    ensures
        ({
            let pages = crate::protection::osv::going_on(queries, results, n);
            &&& forall|q: int|
                0 <= q < n && results[q].next_page_token is Some ==> #[trigger] is_asked_on(
                    queries,
                    results,
                    pages,
                    q,
                )
            &&& forall|k: int|
                0 <= k < pages.len() ==> asks_for_some(queries, results, #[trigger] pages[k], n)
            &&& pages.len() <= n
        }),
    decreases n,
{
    let pages = crate::protection::osv::going_on(queries, results, n);
    if n > 0 {
        law_every_page_is_followed(queries, results, n - 1);
        let before = crate::protection::osv::going_on(queries, results, n - 1);
        assert forall|q: int|
            0 <= q < n && results[q].next_page_token is Some implies #[trigger] is_asked_on(
            queries,
            results,
            pages,
            q,
        ) by {
            if q < n - 1 {
                assert(is_asked_on(queries, results, before, q));
                let k = choose|k: int|
                    0 <= k < before.len() && asks_on(queries, results, #[trigger] before[k], q);
                assert(pages[k] == before[k]);
            } else {
                assert(asks_on(queries, results, pages[before.len() as int], q));
            }
        }
        assert forall|k: int| 0 <= k < pages.len() implies asks_for_some(
            queries,
            results,
            #[trigger] pages[k],
            n,
        ) by {
            if k < before.len() {
                assert(pages[k] == before[k]);
                assert(asks_for_some(queries, results, before[k], n - 1));
                let q = choose|q: int|
                    0 <= q < n - 1 && #[trigger] asks_on(queries, results, before[k], q);
                assert(asks_on(queries, results, pages[k], q));
            } else {
                assert(asks_on(queries, results, pages[k], n - 1));
            }
        }
    }
}

/// The package comes from the public registry.
pub open spec fn from_registry(package: ReachablePackage) -> bool {
    package.source@ == "registry+https://github.com/rust-lang/crates.io-index"@ || package.source@
        == "sparse+https://index.crates.io/"@
}

/// A package and version is asked about if and only if a locked package of the public registry has them.
pub proof fn law_public_packages_are_asked_about(
    packages: Seq<ReachablePackage>,
    name: Seq<char>,
    version: Seq<char>,
)
    ensures
        crate::protection::osv::to_ask(packages).contains((name, version)) <==> exists|i: int|
            0 <= i < packages.len() && from_registry(#[trigger] packages[i]) && packages[i].name@
                == name && packages[i].version@ == version,
    decreases packages.len(),
{
    crate::protection::osv::law_each_package_is_asked_once(packages);
    if packages.len() > 0 {
        let rest = packages.drop_last();
        law_public_packages_are_asked_about(rest, name, version);
        let before = crate::protection::osv::to_ask(rest);
        let list = crate::protection::osv::to_ask(packages);
        if list.contains((name, version)) {
            if before.contains((name, version)) {
                let i = choose|i: int|
                    0 <= i < rest.len() && from_registry(#[trigger] rest[i]) && rest[i].name@ == name
                        && rest[i].version@ == version;
                assert(from_registry(packages[i]));
            } else {
                let k = choose|k: int| 0 <= k < list.len() && list[k] == (name, version);
                if k < before.len() {
                    assert(before[k] == list[k]);
                }
                assert(from_registry(packages[packages.len() - 1]));
            }
        }
        if exists|i: int|
            0 <= i < packages.len() && from_registry(#[trigger] packages[i]) && packages[i].name@
                == name && packages[i].version@ == version {
            let i = choose|i: int|
                0 <= i < packages.len() && from_registry(#[trigger] packages[i]) && packages[i].name@
                    == name && packages[i].version@ == version;
            assert(crate::protection::osv::is_public(packages[i].source@));
        }
    }
}

/// The service is asked only where the checks are on and the profile `osv` is among them.
pub proof fn law_service_is_asked_by_profile(protection: ProtectionConfig)
    ensures
        crate::protection::osv::asks(protection) <==> protection.enabled && exists|i: int|
            0 <= i < protection.profiles@.len() && (#[trigger] protection.profiles@[i])@ == "osv"@,
{
    let texts = crate::strings::views(protection.profiles@);
    if texts.contains("osv"@) {
        let i = choose|i: int| 0 <= i < texts.len() && texts[i] == "osv"@;
        assert(protection.profiles@[i]@ == "osv"@);
    }
    if exists|i: int|
        0 <= i < protection.profiles@.len() && (#[trigger] protection.profiles@[i])@ == "osv"@ {
        let i = choose|i: int|
            0 <= i < protection.profiles@.len() && (#[trigger] protection.profiles@[i])@ == "osv"@;
        assert(texts[i] == "osv"@);
    }
}

/// An identifier that is accepted cannot change the address that it becomes a part of.
pub proof fn law_accepted_id_is_harmless(id: Seq<char>, c: char)
    requires
        crate::protection::osv::is_valid_id(id),
        c == '/' || c == '\\' || c == '?' || c == '#' || c == '%' || c == ':' || c == '@' || c == '&' || c
            == ' ' || c == '\n' || c as int > 127,
    ensures
        !id.contains(c),
        0 < id.len() <= 128,
{
}

/// An advisory speaks for itself and for each of its aliases that the queries found too, and for no
/// other; each alias with the date that the queries found.
pub proof fn law_advisory_speaks_for_its_aliases(
    references: Map<Seq<char>, Seq<char>>,
    id: Seq<char>,
    modified: Seq<char>,
    aliases: Seq<Seq<char>>,
    k: Seq<char>,
)
    ensures
        ({
            let t = crate::protection::osv::related(references, id, modified, aliases);
            &&& t.contains_key(k) <==> k == id || (aliases.contains(k) && references.contains_key(k))
            &&& aliases.contains(k) && references.contains_key(k) ==> t[k] == references[k]
            &&& k == id && !(aliases.contains(k) && references.contains_key(k)) ==> t[k] == modified
        }),
    decreases aliases.len(),
{
    if aliases.len() > 0 {
        let head = aliases.drop_last();
        law_advisory_speaks_for_its_aliases(references, id, modified, head, k);
        assert(aliases =~= head.push(aliases.last()));
        if aliases.contains(k) && k != aliases.last() {
            let i = choose|i: int| 0 <= i < aliases.len() && aliases[i] == k;
            assert(head[i] == k);
        }
        if head.contains(k) {
            let i = choose|i: int| 0 <= i < head.len() && head[i] == k;
            assert(aliases[i] == k);
        }
        assert(aliases[aliases.len() - 1] == aliases.last());
    }
}

} // verus!
