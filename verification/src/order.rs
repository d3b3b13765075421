//! The order of strings, and lists of strings in that order.
use crate::strings::to_chars;
use vstd::prelude::*;

verus! {

/// `a` stands before `b` in lexicographic order, or is `b`.
pub open spec fn le(a: Seq<char>, b: Seq<char>) -> bool
    decreases a.len(),
{
    if a.len() == 0 {
        true
    } else if b.len() == 0 {
        false
    } else {
        a[0] < b[0] || (a[0] == b[0] && le(a.drop_first(), b.drop_first()))
    }
}

pub proof fn lemma_le_total(a: Seq<char>, b: Seq<char>)
    ensures
        le(a, b) || le(b, a),
        le(a, b) && le(b, a) ==> a == b,
        le(a, a),
    decreases a.len() + b.len(),
{
    if a.len() > 0 {
        lemma_le_reflexive(a);
    }
    if a.len() > 0 && b.len() > 0 {
        lemma_le_total(a.drop_first(), b.drop_first());
        if le(a, b) && le(b, a) {
            assert(a =~= seq![a[0]] + a.drop_first());
            assert(b =~= seq![b[0]] + b.drop_first());
        }
    } else {
        if a.len() == 0 && b.len() == 0 {
            assert(a =~= b);
        }
    }
}

proof fn lemma_le_reflexive(a: Seq<char>)
    ensures
        le(a, a),
    decreases a.len(),
{
    if a.len() > 0 {
        lemma_le_reflexive(a.drop_first());
    }
}

pub proof fn lemma_le_transitive(a: Seq<char>, b: Seq<char>, c: Seq<char>)
    requires
        le(a, b),
        le(b, c),
    ensures
        le(a, c),
    decreases a.len(),
{
    if a.len() > 0 && a[0] == b[0] && b[0] == c[0] {
        lemma_le_transitive(a.drop_first(), b.drop_first(), c.drop_first());
    }
}

/// Whether `a` stands before `b` in lexicographic order, or is `b`.
pub fn not_after(a: &str, b: &str) -> (r: bool)
    ensures
        r == le(a@, b@),
{
    let x = to_chars(a);
    let y = to_chars(b);
    let mut i: usize = 0;
    assert(x@.skip(0) =~= x@);
    assert(y@.skip(0) =~= y@);
    while i < x.len() && i < y.len()
        invariant
            i <= x@.len(),
            i <= y@.len(),
            x@ == a@,
            y@ == b@,
            le(x@, y@) == le(x@.skip(i as int), y@.skip(i as int)),
        decreases x@.len() - i,
    {
        assert(x@.skip(i as int)[0] == x@[i as int]);
        assert(y@.skip(i as int)[0] == y@[i as int]);
        if x[i] != y[i] {
            return x[i] < y[i];
        }
        assert(x@.skip(i as int).drop_first() =~= x@.skip(i + 1));
        assert(y@.skip(i as int).drop_first() =~= y@.skip(i + 1));
        i += 1;
    }
    i >= x.len()
}

/// `s` with `x` put behind the last string that does not stand after it.
pub open spec fn inserted(s: Seq<Seq<char>>, x: Seq<char>) -> Seq<Seq<char>>
    decreases s.len(),
{
    if s.len() == 0 {
        seq![x]
    } else if le(s.last(), x) {
        s.push(x)
    } else {
        inserted(s.drop_last(), x).push(s.last())
    }
}

/// The strings of `s` in lexicographic order.
pub open spec fn sorted(s: Seq<Seq<char>>) -> Seq<Seq<char>>
    decreases s.len(),
{
    if s.len() == 0 {
        Seq::empty()
    } else {
        inserted(sorted(s.drop_last()), s.last())
    }
}

proof fn lemma_inserted_at(s: Seq<Seq<char>>, x: Seq<char>, j: int)
    requires
        0 <= j <= s.len(),
        j > 0 ==> le(s[j - 1], x),
        forall|k: int| j <= k < s.len() ==> !le(#[trigger] s[k], x),
    ensures
        inserted(s, x) == s.insert(j, x),
    decreases s.len(),
{
    if s.len() == 0 {
        assert(seq![x] =~= s.insert(j, x));
    } else if j == s.len() {
        assert(s.push(x) =~= s.insert(j, x));
    } else {
        assert(!le(s[s.len() - 1], x));
        lemma_inserted_at(s.drop_last(), x, j);
        assert(s.drop_last().insert(j, x).push(s.last()) =~= s.insert(j, x));
    }
}

/// The strings of a list in lexicographic order.
pub fn sort_strings(list: &Vec<String>) -> (r: Vec<String>)
    ensures
        crate::strings::views(r@) == sorted(crate::strings::views(list@)),
{
    let mut out: Vec<String> = Vec::new();
    let ghost all = crate::strings::views(list@);
    let mut i: usize = 0;
    assert(all.take(0) =~= Seq::empty());
    while i < list.len()
        invariant
            i <= list@.len(),
            all == crate::strings::views(list@),
            crate::strings::views(out@) =~= sorted(all.take(i as int)),
        decreases list@.len() - i,
    {
        assert(all.take(i + 1).drop_last() =~= all.take(i as int));
        let ghost before = out@;
        let mut j: usize = out.len();
        while j > 0 && !not_after(out[j - 1].as_str(), list[i].as_str())
            invariant
                j <= out@.len(),
                i < list@.len(),
                out@ == before,
                forall|k: int|
                    j <= k < out@.len() ==> !le(
                        #[trigger] crate::strings::views(before)[k],
                        list@[i as int]@,
                    ),
            decreases j,
        {
            j -= 1;
        }
        out.insert(j, list[i].clone());
        proof {
            lemma_inserted_at(crate::strings::views(before), all[i as int], j as int);
            assert(crate::strings::views(out@) =~= crate::strings::views(before).insert(
                j as int,
                all[i as int],
            ));
        }
        i += 1;
    }
    assert(all.take(all.len() as int) =~= all);
    out
}

/// No string stands before one that comes earlier in the list.
pub open spec fn in_order(s: Seq<Seq<char>>) -> bool {
    forall|i: int, j: int| 0 <= i <= j < s.len() ==> le(#[trigger] s[i], #[trigger] s[j])
}

proof fn lemma_inserted(s: Seq<Seq<char>>, x: Seq<char>)
    requires
        in_order(s),
    ensures
        in_order(inserted(s, x)),
        inserted(s, x).to_multiset() == s.to_multiset().insert(x),
        inserted(s, x).len() == s.len() + 1,
        inserted(s, x).last() == x || (s.len() > 0 && inserted(s, x).last() == s.last()),
    decreases s.len(),
{
    broadcast use vstd::seq_lib::group_to_multiset_ensures;

    if s.len() == 0 {
        assert(s.push(x) =~= seq![x]);
        assert forall|i: int, j: int| 0 <= i <= j < seq![x].len() implies le(
            #[trigger] seq![x][i],
            #[trigger] seq![x][j],
        ) by {
            lemma_le_total(x, x);
        }
    } else if le(s.last(), x) {
        let t = s.push(x);
        assert forall|i: int, j: int| 0 <= i <= j < t.len() implies le(
            #[trigger] t[i],
            #[trigger] t[j],
        ) by {
            if j == s.len() {
                if i < s.len() {
                    assert(le(s[i], s[s.len() - 1]));
                    lemma_le_transitive(s[i], s.last(), x);
                } else {
                    lemma_le_total(x, x);
                }
            }
        }
    } else {
        let head = s.drop_last();
        assert forall|i: int, j: int| 0 <= i <= j < head.len() implies le(
            #[trigger] head[i],
            #[trigger] head[j],
        ) by {
            assert(head[i] == s[i] && head[j] == s[j]);
        }
        lemma_inserted(head, x);
        lemma_le_total(s.last(), x);
        let t = inserted(head, x);
        let u = t.push(s.last());
        assert forall|i: int, j: int| 0 <= i <= j < u.len() implies le(
            #[trigger] u[i],
            #[trigger] u[j],
        ) by {
            if j == t.len() {
                lemma_le_total(s.last(), s.last());
                if i < t.len() {
                    assert(le(t[i], t[t.len() - 1]));
                    if t.last() == x {
                        lemma_le_transitive(t[i], x, s.last());
                    } else {
                        assert(le(s[s.len() - 2], s[s.len() - 1]));
                        lemma_le_transitive(t[i], t.last(), s.last());
                    }
                }
            }
        }
        assert(s =~= head.push(s.last()));
        assert(u.to_multiset() =~= s.to_multiset().insert(x));
    }
}

/// Sorting puts a list in order and neither adds nor drops a string.
pub proof fn law_sorted(s: Seq<Seq<char>>)
    ensures
        in_order(sorted(s)),
        sorted(s).to_multiset() == s.to_multiset(),
    decreases s.len(),
{
    broadcast use vstd::seq_lib::group_to_multiset_ensures;

    if s.len() > 0 {
        law_sorted(s.drop_last());
        lemma_inserted(sorted(s.drop_last()), s.last());
        assert(s =~= s.drop_last().push(s.last()));
    } else {
        assert(s =~= Seq::empty());
    }
}

proof fn lemma_same_order(a: Seq<Seq<char>>, b: Seq<Seq<char>>)
    requires
        in_order(a),
        in_order(b),
        a.to_multiset() == b.to_multiset(),
    ensures
        a == b,
    decreases a.len(),
{
    broadcast use vstd::seq_lib::group_to_multiset_ensures;

    assert(a.to_multiset().len() == a.len());
    assert(b.to_multiset().len() == b.len());
    if a.len() == 0 {
        assert(a =~= b);
    } else {
        assert(a.contains(a.last()) && b.contains(b.last())) by {
            assert(a[a.len() - 1] == a.last());
            assert(b[b.len() - 1] == b.last());
        }
        assert(b.contains(a.last())) by {
            assert(a.to_multiset().count(a.last()) > 0);
        }
        assert(a.contains(b.last())) by {
            assert(b.to_multiset().count(b.last()) > 0);
        }
        let i = choose|i: int| 0 <= i < b.len() && b[i] == a.last();
        let j = choose|j: int| 0 <= j < a.len() && a[j] == b.last();
        assert(le(b[i], b[b.len() - 1]));
        assert(le(a[j], a[a.len() - 1]));
        lemma_le_total(a.last(), b.last());
        let x = a.drop_last();
        let y = b.drop_last();
        assert(a =~= x.push(a.last()));
        assert(b =~= y.push(b.last()));
        assert(x.to_multiset() =~= a.to_multiset().remove(a.last()));
        assert(y.to_multiset() =~= b.to_multiset().remove(b.last()));
        assert forall|p: int, q: int| 0 <= p <= q < x.len() implies le(
            #[trigger] x[p],
            #[trigger] x[q],
        ) by {
            assert(x[p] == a[p] && x[q] == a[q]);
        }
        assert forall|p: int, q: int| 0 <= p <= q < y.len() implies le(
            #[trigger] y[p],
            #[trigger] y[q],
        ) by {
            assert(y[p] == b[p] && y[q] == b[q]);
        }
        lemma_same_order(x, y);
    }
}

/// The sorted list does not depend on the order in which the strings were given.
pub proof fn law_sorted_ignores_order(a: Seq<Seq<char>>, b: Seq<Seq<char>>)
    requires
        a.to_multiset() == b.to_multiset(),
    ensures
        sorted(a) == sorted(b),
{
    law_sorted(a);
    law_sorted(b);
    lemma_same_order(sorted(a), sorted(b));
}

} // verus!
