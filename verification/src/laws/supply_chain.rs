//! What holds of the static scan.
use crate::protection::model::StaticScanReport;
use crate::protection::supply_chain::{Indicator, Mode};
use vstd::prelude::*;

verus! {

/// The number of line feeds of `s` from position `i` on.
pub open spec fn feeds(s: Seq<char>, i: int) -> nat
    decreases s.len() - i,
{
    if i < 0 || i >= s.len() {
        0
    } else {
        feeds(s, i + 1) + (if s[i] == '\n' {
            1nat
        } else {
            0nat
        })
    }
}

proof fn lemma_feeds_add(a: Seq<char>, b: Seq<char>, i: int)
    requires
        0 <= i <= a.len(),
    ensures
        feeds(a + b, i) == feeds(a, i) + feeds(b, 0),
    decreases a.len() - i,
{
    if i < a.len() {
        lemma_feeds_add(a, b, i + 1);
        assert((a + b)[i] == a[i]);
    } else {
        lemma_feeds_shift(a, b, 0);
    }
}

proof fn lemma_feeds_shift(a: Seq<char>, b: Seq<char>, j: int)
    requires
        0 <= j <= b.len(),
    ensures
        feeds(a + b, a.len() + j) == feeds(b, j),
    decreases b.len() - j,
{
    if j < b.len() {
        lemma_feeds_shift(a, b, j + 1);
        assert((a + b)[a.len() + j] == b[j]);
    }
}

proof fn lemma_feeds_one(c: char)
    ensures
        feeds(seq![c], 0) == (if c == '\n' {
            1nat
        } else {
            0nat
        }),
{
    assert(feeds(seq![c], 1) == 0);
}

proof fn lemma_feeds_stripped(s: Seq<char>, i: int, mode: Mode)
    requires
        0 <= i,
    ensures
        feeds(crate::protection::supply_chain::stripped_from(s, i, mode), 0) == feeds(s, i),
    decreases s.len() - i,
{
    if i < s.len() {
        let c = s[i];
        let slash = i + 1 < s.len() && s[i + 1] == '/';
        let star = i + 1 < s.len() && s[i + 1] == '*';
        lemma_feeds_one(c);
        lemma_feeds_one(' ');
        lemma_feeds_one('\n');
        let none = Seq::<char>::empty();
        assert(feeds(none, 0) == 0);
        assert(slash || star ==> feeds(s, i + 1) == feeds(s, i + 2));
        match mode {
            Mode::LineComment => {
                if c == '\n' {
                    lemma_feeds_stripped(s, i + 1, Mode::Code);
                    lemma_feeds_add(seq!['\n'], crate::protection::supply_chain::stripped_from(s, i + 1, Mode::Code), 0);
                } else {
                    lemma_feeds_stripped(s, i + 1, Mode::LineComment);
                }
            },
            Mode::BlockComment(depth) => {
                if c == '/' && star {
                    lemma_feeds_stripped(s, i + 2, Mode::BlockComment(depth + 1));
                } else if c == '*' && slash {
                    if depth <= 1 {
                        lemma_feeds_stripped(s, i + 2, Mode::Code);
                    } else {
                        lemma_feeds_stripped(s, i + 2, Mode::BlockComment((depth - 1) as nat));
                    }
                } else {
                    let rest = crate::protection::supply_chain::stripped_from(s, i + 1, Mode::BlockComment(depth));
                    lemma_feeds_stripped(s, i + 1, Mode::BlockComment(depth));
                    if c == '\n' {
                        lemma_feeds_add(seq!['\n'], rest, 0);
                    } else {
                        lemma_feeds_add(none, rest, 0);
                    }
                }
            },
            _ => {
                if mode is Code && c == '/' && slash {
                    lemma_feeds_stripped(s, i + 2, Mode::LineComment);
                    lemma_feeds_add(seq![' '], crate::protection::supply_chain::stripped_from(s, i + 2, Mode::LineComment), 0);
                } else if mode is Code && c == '/' && star {
                    lemma_feeds_stripped(s, i + 2, Mode::BlockComment(1));
                    lemma_feeds_add(seq![' '], crate::protection::supply_chain::stripped_from(s, i + 2, Mode::BlockComment(1)), 0);
                } else {
                    let next = crate::protection::supply_chain::behind(s, i, mode);
                    lemma_feeds_stripped(s, i + 1, next);
                    lemma_feeds_add(seq![c], crate::protection::supply_chain::stripped_from(s, i + 1, next), 0);
                }
            },
        }
    }
}

/// Removing the comments keeps every line feed: what follows stays on its line.
pub proof fn law_stripping_keeps_lines(s: Seq<char>)
    ensures
        feeds(crate::protection::supply_chain::stripped(s), 0) == feeds(s, 0),
{
    lemma_feeds_stripped(s, 0, Mode::Code);
}

/// The reader is not in a comment.
pub open spec fn outside(mode: Mode) -> bool {
    !(mode is LineComment) && !(mode is BlockComment)
}

/// Where the reader stands at position `j`, from position `i` on, where no comment begins between.
pub open spec fn reads_to(s: Seq<char>, i: int, j: int, mode: Mode) -> Mode
    decreases j - i,
{
    if i >= j {
        mode
    } else {
        reads_to(s, i + 1, j, crate::protection::supply_chain::behind(s, i, mode))
    }
}

proof fn lemma_without_slash(s: Seq<char>, i: int, j: int, mode: Mode)
    requires
        0 <= i <= j <= s.len(),
        outside(mode),
        forall|k: int| i <= k < j ==> s[k] != '/',
    ensures
        outside(reads_to(s, i, j, mode)),
        crate::protection::supply_chain::stripped_from(s, i, mode) == s.subrange(i, j)
            + crate::protection::supply_chain::stripped_from(s, j, reads_to(s, i, j, mode)),
    decreases j - i,
{
    if i < j {
        let next = crate::protection::supply_chain::behind(s, i, mode);
        lemma_without_slash(s, i + 1, j, next);
        let rest = crate::protection::supply_chain::stripped_from(s, j, reads_to(s, i, j, mode));
        assert(seq![s[i]] + (s.subrange(i + 1, j) + rest) =~= s.subrange(i, j) + rest);
    } else {
        assert(s.subrange(i, j) + crate::protection::supply_chain::stripped_from(s, i, mode)
            =~= crate::protection::supply_chain::stripped_from(s, i, mode));
    }
}

/// Source that holds no comment sign is not changed.
pub proof fn law_stripping_keeps_code(s: Seq<char>)
    requires
        forall|k: int| 0 <= k < s.len() ==> s[k] != '/',
    ensures
        crate::protection::supply_chain::stripped(s) == s,
{
    let n = s.len() as int;
    lemma_without_slash(s, 0, n, Mode::Code);
    assert(s.subrange(0, n) + Seq::<char>::empty() =~= s);
}

proof fn lemma_line_comment(s: Seq<char>, i: int)
    requires
        0 <= i,
        forall|k: int| i <= k < s.len() ==> s[k] != '\n',
    ensures
        crate::protection::supply_chain::stripped_from(s, i, Mode::LineComment) == Seq::<char>::empty(),
    decreases s.len() - i,
{
    if i < s.len() {
        lemma_line_comment(s, i + 1);
    }
}

/// A line comment goes, whatever code stands before it: the code stays, and a space stands for the
/// comment.
pub proof fn law_line_comment_goes(s: Seq<char>, n: int)
    requires
        0 <= n < s.len() - 1,
        forall|k: int| 0 <= k < n ==> s[k] != '/',
        reads_to(s, 0, n, Mode::Code) is Code,
        s[n] == '/' && s[n + 1] == '/',
        forall|k: int| n <= k < s.len() ==> s[k] != '\n',
    ensures
        crate::protection::supply_chain::stripped(s) == s.take(n).push(' '),
{
    lemma_without_slash(s, 0, n, Mode::Code);
    lemma_line_comment(s, n + 2);
    assert(crate::protection::supply_chain::stripped_from(s, n, Mode::Code) =~= seq![' ']);
    assert(s.subrange(0, n) + seq![' '] =~= s.take(n).push(' '));
}

/// What stands in a literal that ends where code goes on stays as it is, comment signs or not.
pub proof fn law_literals_stay(s: Seq<char>, i: int, j: int, mode: Mode)
    requires
        0 <= i <= j <= s.len(),
        outside(mode),
        forall|k: int| i <= k < j ==> !(#[trigger] reads_to(s, i, k, mode) is Code),
    ensures
        crate::protection::supply_chain::stripped_from(s, i, mode) == s.subrange(i, j)
            + crate::protection::supply_chain::stripped_from(s, j, reads_to(s, i, j, mode)),
    decreases j - i,
{
    if i < j {
        assert(!(reads_to(s, i, i, mode) is Code));
        let next = crate::protection::supply_chain::behind(s, i, mode);
        assert forall|k: int| i + 1 <= k < j implies !(#[trigger] reads_to(s, i + 1, k, next) is Code) by {
            assert(reads_to(s, i, k, mode) == reads_to(s, i + 1, k, next));
        }
        law_literals_stay(s, i + 1, j, next);
        let rest = crate::protection::supply_chain::stripped_from(s, j, reads_to(s, i, j, mode));
        assert(seq![s[i]] + (s.subrange(i + 1, j) + rest) =~= s.subrange(i, j) + rest);
    } else {
        assert(s.subrange(i, j) + crate::protection::supply_chain::stripped_from(s, i, mode)
            =~= crate::protection::supply_chain::stripped_from(s, i, mode));
    }
}

/// No two indicators have the same key after deduplication, and each key stays.
pub proof fn law_deduplicated(list: Seq<Indicator>)
    ensures
        crate::protection::supply_chain::keys(crate::protection::supply_chain::deduplicated(list)).no_duplicates(),
        forall|i: int|
            0 <= i < list.len() ==> crate::protection::supply_chain::keys(crate::protection::supply_chain::deduplicated(list)).contains(crate::protection::supply_chain::key(#[trigger] list[i])),
        crate::protection::supply_chain::deduplicated(list).len() <= list.len(),
        crate::protection::supply_chain::deduplicated(list).len() == 0 <==> list.len() == 0,
    decreases list.len(),
{
    if list.len() > 0 {
        let head = list.drop_last();
        law_deduplicated(head);
        let rest = crate::protection::supply_chain::deduplicated(head);
        let out = crate::protection::supply_chain::deduplicated(list);
        if crate::protection::supply_chain::keys(rest).contains(crate::protection::supply_chain::key(list.last())) {
            assert forall|i: int| 0 <= i < list.len() implies crate::protection::supply_chain::keys(out).contains(
                crate::protection::supply_chain::key(#[trigger] list[i]),
            ) by {
                if i < head.len() {
                    assert(list[i] == head[i]);
                }
            }
        } else {
            assert(crate::protection::supply_chain::keys(out) =~= crate::protection::supply_chain::keys(rest).push(crate::protection::supply_chain::key(list.last())));
            assert forall|i: int| 0 <= i < list.len() implies crate::protection::supply_chain::keys(out).contains(
                crate::protection::supply_chain::key(#[trigger] list[i]),
            ) by {
                if i < head.len() {
                    assert(list[i] == head[i]);
                    let j = choose|j: int| 0 <= j < crate::protection::supply_chain::keys(rest).len() && crate::protection::supply_chain::keys(rest)[j] == crate::protection::supply_chain::key(list[i]);
                    assert(crate::protection::supply_chain::keys(out)[j] == crate::protection::supply_chain::key(list[i]));
                } else {
                    assert(crate::protection::supply_chain::keys(out)[rest.len() as int] == crate::protection::supply_chain::key(list[i]));
                }
            }
        }
    }
}

proof fn lemma_distinct_stay(list: Seq<Indicator>)
    requires
        crate::protection::supply_chain::keys(list).no_duplicates(),
    ensures
        crate::protection::supply_chain::deduplicated(list) == list,
    decreases list.len(),
{
    if list.len() > 0 {
        let head = list.drop_last();
        assert forall|i: int, j: int|
            0 <= i < j < crate::protection::supply_chain::keys(head).len() implies crate::protection::supply_chain::keys(head)[i] != crate::protection::supply_chain::keys(head)[j] by {
            assert(crate::protection::supply_chain::keys(list)[i] == crate::protection::supply_chain::keys(head)[i] && crate::protection::supply_chain::keys(list)[j] == crate::protection::supply_chain::keys(head)[j]);
        }
        lemma_distinct_stay(head);
        if crate::protection::supply_chain::keys(head).contains(crate::protection::supply_chain::key(list.last())) {
            let j = choose|j: int| 0 <= j < crate::protection::supply_chain::keys(head).len() && crate::protection::supply_chain::keys(head)[j] == crate::protection::supply_chain::key(list.last());
            assert(crate::protection::supply_chain::keys(list)[j] == crate::protection::supply_chain::keys(list)[list.len() - 1]);
        }
        assert(head.push(list.last()) =~= list);
    } else {
        assert(list =~= Seq::empty());
    }
}

/// Deduplicating twice is deduplicating once.
pub proof fn law_deduplicate_idempotent(list: Seq<Indicator>)
    ensures
        crate::protection::supply_chain::deduplicated(crate::protection::supply_chain::deduplicated(list)) == crate::protection::supply_chain::deduplicated(list),
{
    law_deduplicated(list);
    lemma_distinct_stay(crate::protection::supply_chain::deduplicated(list));
}

/// A report allows the build if and only if nothing was found that blocks it.
pub proof fn law_report_allows_only_without_blockers(
    report: StaticScanReport,
    project: Seq<char>,
    root: Seq<char>,
    scanned: int,
    blockers: Seq<Indicator>,
    warnings: Seq<Indicator>,
)
    requires
        crate::protection::supply_chain::is_report(report, project, root, scanned, blockers, warnings),
    ensures
        report.build_allowed <==> blockers.len() == 0,
        report.build_allowed <==> report.blockers@.len() == 0,
{
    law_deduplicated(blockers);
    assert(crate::protection::supply_chain::said(report.blockers@).len() == report.blockers@.len());
}

/// A single report that blocks the build makes the merged report block it.
pub proof fn law_merging_never_unblocks(reports: Seq<StaticScanReport>, i: int)
    requires
        0 <= i < reports.len(),
    ensures
        reports[i].blockers@.len() > 0 ==> crate::protection::supply_chain::deduplicated(crate::protection::supply_chain::all_blockers(reports)).len() > 0,
{
    lemma_all_blockers(reports, i);
    law_deduplicated(crate::protection::supply_chain::all_blockers(reports));
}

proof fn lemma_all_blockers(reports: Seq<StaticScanReport>, i: int)
    requires
        0 <= i < reports.len(),
    ensures
        crate::protection::supply_chain::all_blockers(reports).len() >= reports[i].blockers@.len(),
    decreases reports.len(),
{
    if i < reports.len() - 1 {
        lemma_all_blockers(reports.drop_last(), i);
        assert(reports.drop_last()[i] == reports[i]);
    }
}

} // verus!
