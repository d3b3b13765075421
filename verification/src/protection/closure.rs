//! What the root packages of a lock file depend on, directly or not.
use crate::protection::osv::{CargoReachabilitySnapshot, ReachablePackage};
use crate::strings::{owned, push_string, split_on, split_words};
use vstd::prelude::*;

verus! {

/// Name, version and source of a package.
pub type Sourced = (Seq<char>, Seq<char>, Seq<char>);

/// Name, version and source of each package.
pub open spec fn sourced(packages: Seq<ReachablePackage>) -> Seq<Sourced> {
    Seq::new(
        packages.len(),
        |i: int| (packages[i].name@, packages[i].version@, packages[i].source@),
    )
}

/// The entries in which each package lists its dependencies.
pub open spec fn entries(dependencies: Seq<Vec<String>>) -> Seq<Seq<Seq<char>>> {
    Seq::new(dependencies.len(), |i: int| crate::strings::views(dependencies[i]@))
}

/// The packages of the project itself come from no source.
pub open spec fn is_root(package: Sourced) -> bool {
    package.2.len() == 0
}

/// The words of an entry are the name of the package, and its version and its source in brackets
/// where they are given. The source may lack the commit that stands behind `#`.
pub open spec fn fits(package: Sourced, words: Seq<Seq<char>>) -> bool {
    &&& words.len() > 0
    &&& words[0] == package.0
    &&& words.len() > 1 ==> words[1] == package.1
    &&& words.len() > 2 ==> words[2] == "("@ + package.2 + ")"@ || words[2] == "("@
        + crate::strings::split(package.2, '#')[0] + ")"@
}

/// The entry may mean the package.
pub open spec fn names(entry: Seq<char>, package: Sourced) -> bool {
    fits(package, crate::strings::words(entry))
}

/// The entry means exactly one of the packages.
pub open spec fn is_clear(packages: Seq<Sourced>, entry: Seq<char>) -> bool {
    exists|j: int|
        0 <= j < packages.len() && #[trigger] names(entry, packages[j]) && forall|k: int|
            0 <= k < packages.len() && #[trigger] names(entry, packages[k]) ==> k == j
}

/// Package number `i` has an entry that may mean package number `j`.
pub open spec fn needs(
    packages: Seq<Sourced>,
    dependencies: Seq<Seq<Seq<char>>>,
    i: int,
    j: int,
) -> bool {
    i < dependencies.len() && exists|k: int|
        0 <= k < dependencies[i].len() && names(#[trigger] dependencies[i][k], packages[j])
}

/// Package number `i` is at most `n` dependencies away from a root package.
pub open spec fn is_within(
    packages: Seq<Sourced>,
    dependencies: Seq<Seq<Seq<char>>>,
    i: int,
    n: nat,
) -> bool
    decreases n,
{
    is_root(packages[i]) || (n > 0 && exists|j: int|
        0 <= j < packages.len() && #[trigger] needs(packages, dependencies, j, i) && is_within(
            packages,
            dependencies,
            j,
            (n - 1) as nat,
        ))
}

/// A chain of dependencies leads from a root package to package number `i`.
pub open spec fn is_reachable(
    packages: Seq<Sourced>,
    dependencies: Seq<Seq<Seq<char>>>,
    i: int,
) -> bool {
    exists|n: nat| is_within(packages, dependencies, i, n)
}

/// The reachable ones among the first `n` packages.
pub open spec fn reachable(
    packages: Seq<Sourced>,
    dependencies: Seq<Seq<Seq<char>>>,
    n: int,
) -> Seq<Sourced>
    decreases n,
{
    if n <= 0 {
        Seq::empty()
    } else if is_reachable(packages, dependencies, n - 1) {
        reachable(packages, dependencies, n - 1).push(packages[n - 1])
    } else {
        reachable(packages, dependencies, n - 1)
    }
}

pub open spec fn edge(package: Sourced, entry: Seq<char>) -> Seq<char> {
    package.0 + " -> "@ + entry
}

/// The entries of a package that do not mean exactly one package.
pub open spec fn unclear_entries(
    packages: Seq<Sourced>,
    package: Sourced,
    list: Seq<Seq<char>>,
) -> Seq<Seq<char>>
    decreases list.len(),
{
    if list.len() == 0 {
        Seq::empty()
    } else {
        let rest = unclear_entries(packages, package, list.drop_last());
        if is_clear(packages, list.last()) {
            rest
        } else {
            rest.push(edge(package, list.last()))
        }
    }
}

/// Such entries of the reachable ones among the first `n` packages.
pub open spec fn unclear(
    packages: Seq<Sourced>,
    dependencies: Seq<Seq<Seq<char>>>,
    n: int,
) -> Seq<Seq<char>>
    decreases n,
{
    if n <= 0 {
        Seq::empty()
    } else {
        let rest = unclear(packages, dependencies, n - 1);
        if is_reachable(packages, dependencies, n - 1) && n - 1 < dependencies.len() {
            rest + unclear_entries(packages, packages[n - 1], dependencies[n - 1])
        } else {
            rest
        }
    }
}

/// The words of each entry.
spec fn is_parsed(parsed: Seq<Vec<Vec<String>>>, dependencies: Seq<Seq<Seq<char>>>) -> bool {
    parsed.len() == dependencies.len() && forall|i: int|
        0 <= i < parsed.len() ==> is_parsed_list((#[trigger] parsed[i])@, dependencies[i])
}

spec fn is_parsed_list(parsed: Seq<Vec<String>>, list: Seq<Seq<char>>) -> bool {
    parsed.len() == list.len() && forall|k: int|
        0 <= k < parsed.len() ==> crate::strings::views((#[trigger] parsed[k])@)
            == crate::strings::words(list[k])
}

fn parse_list(list: &Vec<String>) -> (r: Vec<Vec<String>>)
    ensures
        is_parsed_list(r@, crate::strings::views(list@)),
{
    let mut out: Vec<Vec<String>> = Vec::new();
    let mut k: usize = 0;
    while k < list.len()
        invariant
            k <= list@.len(),
            is_parsed_list(out@, crate::strings::views(list@).take(k as int)),
        decreases list@.len() - k,
    {
        out.push(split_words(list[k].as_str()));
        k += 1;
    }
    assert(crate::strings::views(list@).take(k as int) =~= crate::strings::views(list@));
    out
}

fn parse(dependencies: &Vec<Vec<String>>) -> (r: Vec<Vec<Vec<String>>>)
    ensures
        is_parsed(r@, entries(dependencies@)),
{
    let mut out: Vec<Vec<Vec<String>>> = Vec::new();
    let mut i: usize = 0;
    while i < dependencies.len()
        invariant
            i <= dependencies@.len(),
            is_parsed(out@, entries(dependencies@).take(i as int)),
        decreases dependencies@.len() - i,
    {
        out.push(parse_list(&dependencies[i]));
        i += 1;
    }
    assert(entries(dependencies@).take(i as int) =~= entries(dependencies@));
    out
}

fn test_words(package: &ReachablePackage, words: &Vec<String>) -> (r: bool)
    ensures
        r == fits(
            (package.name@, package.version@, package.source@),
            crate::strings::views(words@),
        ),
{
    if words.len() == 0 || words[0] != package.name {
        return false;
    }
    if words.len() > 1 && words[1] != package.version {
        return false;
    }
    if words.len() > 2 {
        let whole = owned("(").concat(package.source.as_str()).concat(")");
        let pieces = split_on(package.source.as_str(), '#');
        assert(crate::strings::views(pieces@)[0] == pieces@[0]@);
        let base = owned("(").concat(pieces[0].as_str()).concat(")");
        return words[2] == whole || words[2] == base;
    }
    true
}

/// Whether one of the entries may mean the package.
fn test_list(package: &ReachablePackage, parsed: &Vec<Vec<String>>, Ghost(list): Ghost<Seq<Seq<char>>>) -> (r:
    bool)
    requires
        is_parsed_list(parsed@, list),
    ensures
        r == exists|k: int|
            0 <= k < list.len() && names(
                #[trigger] list[k],
                (package.name@, package.version@, package.source@),
            ),
{
    let mut k: usize = 0;
    while k < parsed.len()
        invariant
            k <= parsed@.len(),
            is_parsed_list(parsed@, list),
            forall|m: int|
                0 <= m < k ==> !names(
                    #[trigger] list[m],
                    (package.name@, package.version@, package.source@),
                ),
        decreases parsed@.len() - k,
    {
        if test_words(package, &parsed[k]) {
            assert(names(list[k as int], (package.name@, package.version@, package.source@)));
            return true;
        }
        k += 1;
    }
    false
}

spec fn unmarked(marks: Seq<bool>) -> nat
    decreases marks.len(),
{
    if marks.len() == 0 {
        0
    } else {
        unmarked(marks.drop_last()) + if marks.last() {
            0nat
        } else {
            1nat
        }
    }
}

proof fn lemma_mark(marks: Seq<bool>, i: int)
    requires
        0 <= i < marks.len(),
        !marks[i],
    ensures
        unmarked(marks.update(i, true)) < unmarked(marks),
    decreases marks.len(),
{
    let after = marks.update(i, true);
    if i == marks.len() - 1 {
        assert(after.drop_last() =~= marks.drop_last());
    } else {
        assert(after.drop_last() =~= marks.drop_last().update(i, true));
        lemma_mark(marks.drop_last(), i);
    }
}

/// Everything that is marked is reachable, and the root packages are marked.
spec fn is_sound(packages: Seq<Sourced>, dependencies: Seq<Seq<Seq<char>>>, marks: Seq<bool>) -> bool {
    &&& marks.len() == packages.len()
    &&& forall|i: int|
        0 <= i < marks.len() && #[trigger] marks[i] ==> is_reachable(packages, dependencies, i)
    &&& forall|i: int| 0 <= i < marks.len() && is_root(packages[i]) ==> #[trigger] marks[i]
}

/// What the first `n` marked packages need is marked.
spec fn is_closed(
    packages: Seq<Sourced>,
    dependencies: Seq<Seq<Seq<char>>>,
    marks: Seq<bool>,
    n: int,
) -> bool {
    forall|i: int, j: int|
        0 <= i < n && 0 <= j < marks.len() && #[trigger] marks[i] && #[trigger] needs(
            packages,
            dependencies,
            i,
            j,
        ) ==> marks[j]
}

proof fn lemma_next(packages: Seq<Sourced>, dependencies: Seq<Seq<Seq<char>>>, i: int, j: int)
    requires
        0 <= i < packages.len(),
        is_reachable(packages, dependencies, i),
        needs(packages, dependencies, i, j),
    ensures
        is_reachable(packages, dependencies, j),
{
    let n = choose|n: nat| is_within(packages, dependencies, i, n);
    assert(is_within(packages, dependencies, j, n + 1));
}

/// Marks that hold the root packages and are closed hold everything within `n` dependencies.
proof fn lemma_complete(
    packages: Seq<Sourced>,
    dependencies: Seq<Seq<Seq<char>>>,
    marks: Seq<bool>,
    i: int,
    n: nat,
)
    requires
        marks.len() == packages.len(),
        forall|k: int| 0 <= k < marks.len() && is_root(packages[k]) ==> #[trigger] marks[k],
        is_closed(packages, dependencies, marks, marks.len() as int),
        0 <= i < packages.len(),
        is_within(packages, dependencies, i, n),
    ensures
        marks[i],
    decreases n,
{
    if !is_root(packages[i]) {
        let j = choose|j: int|
            0 <= j < packages.len() && #[trigger] needs(packages, dependencies, j, i) && is_within(
                packages,
                dependencies,
                j,
                (n - 1) as nat,
            );
        lemma_complete(packages, dependencies, marks, j, (n - 1) as nat);
    }
}

/// Marks what package number `i` needs; tells whether a mark is new.
fn mark_needed(
    packages: &Vec<ReachablePackage>,
    parsed: &Vec<Vec<Vec<String>>>,
    Ghost(dependencies): Ghost<Seq<Seq<Seq<char>>>>,
    marks: &mut Vec<bool>,
    i: usize,
) -> (r: bool)
    requires
        is_parsed(parsed@, dependencies),
        is_sound(sourced(packages@), dependencies, old(marks)@),
        i < packages@.len(),
        old(marks)@[i as int],
    ensures
        is_sound(sourced(packages@), dependencies, final(marks)@),
        r ==> unmarked(final(marks)@) < unmarked(old(marks)@),
        !r ==> final(marks)@ == old(marks)@ && forall|j: int|
            0 <= j < final(marks)@.len() && #[trigger] needs(
                sourced(packages@),
                dependencies,
                i as int,
                j,
            ) ==> final(marks)@[j],
        unmarked(final(marks)@) <= unmarked(old(marks)@),
{
    let ghost all = sourced(packages@);
    let ghost before = marks@;
    if i >= parsed.len() {
        return false;
    }
    let mut fresh = false;
    let mut j: usize = 0;
    while j < packages.len()
        invariant
            j <= packages@.len(),
            i < packages@.len(),
            i < parsed@.len(),
            all == sourced(packages@),
            is_parsed(parsed@, dependencies),
            is_sound(all, dependencies, marks@),
            marks@[i as int],
            fresh ==> unmarked(marks@) < unmarked(before),
            !fresh ==> marks@ == before && forall|k: int|
                0 <= k < j && #[trigger] needs(all, dependencies, i as int, k) ==> marks@[k],
        decreases packages@.len() - j,
    {
        if !marks[j] && test_list(&packages[j], &parsed[i], Ghost(dependencies[i as int])) {
            proof {
                assert(needs(all, dependencies, i as int, j as int));
                lemma_next(all, dependencies, i as int, j as int);
                lemma_mark(marks@, j as int);
            }
            marks.set(j, true);
            fresh = true;
        }
        j += 1;
    }
    fresh
}

/// Tells which packages are reachable.
fn mark(
    packages: &Vec<ReachablePackage>,
    parsed: &Vec<Vec<Vec<String>>>,
    Ghost(dependencies): Ghost<Seq<Seq<Seq<char>>>>,
) -> (r: Vec<bool>)
    requires
        is_parsed(parsed@, dependencies),
    ensures
        r@.len() == packages@.len(),
        forall|i: int|
            0 <= i < r@.len() ==> #[trigger] r@[i] == is_reachable(
                sourced(packages@),
                dependencies,
                i,
            ),
{
    let ghost all = sourced(packages@);
    let mut marks: Vec<bool> = Vec::new();
    let mut i: usize = 0;
    while i < packages.len()
        invariant
            i <= packages@.len(),
            all == sourced(packages@),
            marks@.len() == i,
            forall|k: int| 0 <= k < i ==> #[trigger] marks@[k] == is_root(all[k]),
        decreases packages@.len() - i,
    {
        marks.push(packages[i].source.as_str().is_empty());
        i += 1;
    }
    assert forall|k: int| 0 <= k < marks@.len() && #[trigger] marks@[k] implies is_reachable(
        all,
        dependencies,
        k,
    ) by {
        assert(is_within(all, dependencies, k, 0));
    }
    let mut fresh = true;
    while fresh
        invariant
            all == sourced(packages@),
            is_parsed(parsed@, dependencies),
            is_sound(all, dependencies, marks@),
            !fresh ==> is_closed(all, dependencies, marks@, marks@.len() as int),
        decreases
                unmarked(marks@),
                if fresh {
                    1int
                } else {
                    0int
                },
    {
        let ghost before = marks@;
        fresh = false;
        let mut i: usize = 0;
        while i < packages.len()
            invariant
                i <= packages@.len(),
                all == sourced(packages@),
                is_parsed(parsed@, dependencies),
                is_sound(all, dependencies, marks@),
                unmarked(marks@) <= unmarked(before),
                fresh ==> unmarked(marks@) < unmarked(before),
                !fresh ==> marks@ == before && is_closed(all, dependencies, marks@, i as int),
            decreases packages@.len() - i,
        {
            if marks[i] && mark_needed(packages, parsed, Ghost(dependencies), &mut marks, i) {
                fresh = true;
            }
            i += 1;
        }
    }
    assert forall|i: int| 0 <= i < marks@.len() implies #[trigger] marks@[i] == is_reachable(
        all,
        dependencies,
        i,
    ) by {
        if is_reachable(all, dependencies, i) {
            let n = choose|n: nat| is_within(all, dependencies, i, n);
            lemma_complete(all, dependencies, marks@, i, n);
        }
    }
    marks
}

/// Whether the entry with these words means exactly one of the packages.
fn test_clear(packages: &Vec<ReachablePackage>, words: &Vec<String>, Ghost(entry): Ghost<Seq<char>>) -> (r:
    bool)
    requires
        crate::strings::views(words@) == crate::strings::words(entry),
    ensures
        r == is_clear(sourced(packages@), entry),
{
    let ghost all = sourced(packages@);
    let mut found = false;
    let ghost mut at: int = 0;
    let mut j: usize = 0;
    while j < packages.len()
        invariant
            j <= packages@.len(),
            all == sourced(packages@),
            crate::strings::views(words@) == crate::strings::words(entry),
            found ==> 0 <= at < j && names(entry, all[at]),
            forall|k: int| 0 <= k < j && #[trigger] names(entry, all[k]) ==> found && k == at,
        decreases packages@.len() - j,
    {
        if test_words(&packages[j], words) {
            assert(names(entry, all[j as int]));
            if found {
                assert(names(entry, all[at]));
                return false;
            }
            found = true;
            proof {
                at = j as int;
            }
        }
        j += 1;
    }
    found
}

/// Notes the entries of a package that do not mean exactly one package.
fn note_unclear(
    packages: &Vec<ReachablePackage>,
    package: &ReachablePackage,
    list: &Vec<String>,
    parsed: &Vec<Vec<String>>,
    edges: &mut Vec<String>,
)
    requires
        is_parsed_list(parsed@, crate::strings::views(list@)),
    ensures
        crate::strings::views(final(edges)@) == crate::strings::views(old(edges)@)
            + unclear_entries(
            sourced(packages@),
            (package.name@, package.version@, package.source@),
            crate::strings::views(list@),
        ),
{
    let ghost all = sourced(packages@);
    let ghost one = (package.name@, package.version@, package.source@);
    let ghost entries = crate::strings::views(list@);
    let ghost before = crate::strings::views(edges@);
    let mut k: usize = 0;
    assert(entries.take(0) =~= Seq::empty());
    assert(crate::strings::views(edges@) =~= before + unclear_entries(all, one, entries.take(0)));
    while k < list.len()
        invariant
            k <= list@.len(),
            all == sourced(packages@),
            one == (package.name@, package.version@, package.source@),
            entries == crate::strings::views(list@),
            is_parsed_list(parsed@, entries),
            crate::strings::views(edges@) == before + unclear_entries(
                all,
                one,
                entries.take(k as int),
            ),
        decreases list@.len() - k,
    {
        assert(entries.take(k + 1).drop_last() =~= entries.take(k as int));
        assert(entries.take(k + 1).last() == entries[k as int]);
        if !test_clear(packages, &parsed[k], Ghost(entries[k as int])) {
            let text = owned(package.name.as_str()).concat(" -> ").concat(list[k].as_str());
            push_string(edges, text);
            assert(crate::strings::views(edges@) =~= before + unclear_entries(
                all,
                one,
                entries.take(k + 1),
            ));
        }
        k += 1;
    }
    assert(entries.take(k as int) =~= entries);
}

/// The packages that the root packages depend on, directly or not, the root packages among them, in
/// the order of the lock file. An entry that does not mean exactly one package is followed to all that
/// it may mean, and noted.
pub fn closure_of(packages: &Vec<ReachablePackage>, dependencies: &Vec<Vec<String>>) -> (r:
    CargoReachabilitySnapshot)
    ensures
        sourced(r.reachable_packages@) == reachable(
            sourced(packages@),
            entries(dependencies@),
            packages@.len() as int,
        ),
        crate::strings::views(r.ambiguous_edges@) == unclear(
            sourced(packages@),
            entries(dependencies@),
            packages@.len() as int,
        ),
{
    let ghost all = sourced(packages@);
    let ghost lists = entries(dependencies@);
    let parsed = parse(dependencies);
    let marks = mark(packages, &parsed, Ghost(lists));
    let mut found: Vec<ReachablePackage> = Vec::new();
    let mut edges: Vec<String> = Vec::new();
    let mut i: usize = 0;
    assert(sourced(found@) =~= reachable(all, lists, 0));
    assert(crate::strings::views(edges@) =~= unclear(all, lists, 0));
    while i < packages.len()
        invariant
            i <= packages@.len(),
            all == sourced(packages@),
            lists == entries(dependencies@),
            is_parsed(parsed@, lists),
            marks@.len() == packages@.len(),
            forall|k: int| 0 <= k < marks@.len() ==> #[trigger] marks@[k] == is_reachable(all, lists, k),
            sourced(found@) == reachable(all, lists, i as int),
            crate::strings::views(edges@) == unclear(all, lists, i as int),
        decreases packages@.len() - i,
    {
        if marks[i] {
            let ghost before = found@;
            found.push(
                ReachablePackage {
                    name: packages[i].name.clone(),
                    version: packages[i].version.clone(),
                    source: packages[i].source.clone(),
                },
            );
            assert(sourced(found@) =~= sourced(before).push(all[i as int]));
            if i < dependencies.len() {
                note_unclear(packages, &packages[i], &dependencies[i], &parsed[i], &mut edges);
            }
        }
        i += 1;
    }
    CargoReachabilitySnapshot { reachable_packages: found, ambiguous_edges: edges }
}

/// What a reachable package needs is reachable, and so is every root package.
pub proof fn law_closure_is_closed(
    packages: Seq<Sourced>,
    dependencies: Seq<Seq<Seq<char>>>,
    i: int,
    j: int,
)
    requires
        0 <= i < packages.len(),
        0 <= j < packages.len(),
    ensures
        is_root(packages[i]) ==> is_reachable(packages, dependencies, i),
        is_reachable(packages, dependencies, i) && needs(packages, dependencies, i, j)
            ==> is_reachable(packages, dependencies, j),
{
    if is_root(packages[i]) {
        assert(is_within(packages, dependencies, i, 0));
    }
    if is_reachable(packages, dependencies, i) && needs(packages, dependencies, i, j) {
        lemma_next(packages, dependencies, i, j);
    }
}

/// Nothing else is reachable: every set that holds the root packages and what its members need holds
/// all reachable packages.
pub proof fn law_closure_is_least(
    packages: Seq<Sourced>,
    dependencies: Seq<Seq<Seq<char>>>,
    set: Set<int>,
    i: int,
)
    requires
        forall|k: int| 0 <= k < packages.len() && is_root(packages[k]) ==> #[trigger] set.contains(k),
        forall|k: int, j: int|
            0 <= k < packages.len() && 0 <= j < packages.len() && set.contains(k) && #[trigger] needs(
                packages,
                dependencies,
                k,
                j,
            ) ==> set.contains(j),
        0 <= i < packages.len(),
        is_reachable(packages, dependencies, i),
    ensures
        set.contains(i),
{
    let marks = Seq::new(packages.len(), |k: int| set.contains(k));
    let n = choose|n: nat| is_within(packages, dependencies, i, n);
    lemma_complete(packages, dependencies, marks, i, n);
}

} // verus!
