//! What putting replacements in the place of conflicts keeps and what it removes.
use vstd::prelude::*;

verus! {

/// Position `i` of `s` is the beginning of a line.
pub open spec fn line_start(s: Seq<char>, i: int) -> bool {
    0 <= i < s.len() && (i == 0 || s[i - 1] == '\n')
}

/// `n` copies of the character that opens a conflict.
pub open spec fn opening(n: nat) -> Seq<char> {
    Seq::new(n, |i: int| '<')
}

/// No line of `s` opens a conflict.
pub open spec fn unopened(s: Seq<char>) -> bool {
    forall|i: int| line_start(s, i) ==> !#[trigger] crate::strings::matches_at(s, i, opening(7))
}

pub proof fn lemma_opening()
    ensures
        "<<<<<<<"@ == opening(7),
{
    reveal_strlit("<<<<<<<");
    assert("<<<<<<<"@ =~= opening(7));
}

proof fn lemma_trim_eol_opening(line: Seq<char>)
    ensures
        crate::strings::starts(crate::conflict::trim_eol(line), opening(7)) == crate::strings::starts(
            line,
            opening(7),
        ),
    decreases line.len(),
{
    if line.len() > 0 && (line.last() == '\r' || line.last() == '\n') {
        let head = line.drop_last();
        lemma_trim_eol_opening(head);
        if crate::strings::starts(line, opening(7)) {
            assert(line.subrange(0, 7)[6] == '<');
            assert(line.len() > 7) by {
                if line.len() == 7 {
                    assert(line[6] == line.subrange(0, 7)[6]);
                }
            }
            assert(head.subrange(0, 7) =~= line.subrange(0, 7));
        }
        if crate::strings::starts(head, opening(7)) {
            assert(head.subrange(0, 7) =~= line.subrange(0, 7));
        }
    }
}

/// A line opens a conflict where it begins with the opening characters.
pub proof fn lemma_open_marker(line: Seq<char>)
    ensures
        crate::conflict::is_marker(line, "<<<<<<<"@) == crate::strings::starts(line, opening(7)),
{
    lemma_opening();
    lemma_trim_eol_opening(line);
}

/// `line` stands in `s` at the beginning of a line.
pub open spec fn stands_in(s: Seq<char>, line: Seq<char>, p: int) -> bool {
    line_start(s, p) && p + line.len() <= s.len() && s.subrange(p, p + line.len()) == line
}

/// What a line of a text is: it is not empty and only its last character can be a line feed.
pub open spec fn is_line(line: Seq<char>) -> bool {
    line.len() > 0 && forall|j: int| 0 <= j < line.len() - 1 ==> line[j] != '\n'
}

pub proof fn lemma_inclusive_lines(s: Seq<char>)
    ensures
        forall|k: int|
            0 <= k < crate::strings::inclusive(s).len() ==> is_line(
                #[trigger] crate::strings::inclusive(s)[k],
            ) && (exists|p: int| stands_in(s, crate::strings::inclusive(s)[k], p)),
        forall|k: int|
            0 <= k < crate::strings::inclusive(s).len() - 1
                ==> (#[trigger] crate::strings::inclusive(s)[k]).last() == '\n',
        s.len() > 0 ==> crate::strings::inclusive(s).len() > 0
            && crate::strings::inclusive(s).last().last() == s.last(),
    decreases s.len(),
{
    let all = crate::strings::inclusive(s);
    if s.len() > 0 {
        let head = s.drop_last();
        let rest = crate::strings::inclusive(head);
        lemma_inclusive_lines(head);
        let fresh = s.len() == 1 || s[s.len() - 2] == '\n';
        assert forall|k: int| 0 <= k < all.len() implies is_line(#[trigger] all[k]) && (exists|p: int|
            stands_in(s, all[k], p)) by {
            if fresh && k == all.len() - 1 {
                assert(s.subrange(s.len() - 1, s.len() as int) =~= all[k]);
                assert(stands_in(s, all[k], s.len() - 1));
            } else {
                let p = choose|p: int| stands_in(head, rest[k], p);
                assert(is_line(rest[k]));
                if k < rest.len() - 1 || fresh {
                    assert(head.subrange(p, p + rest[k].len()) =~= s.subrange(p, p + rest[k].len()));
                    assert(stands_in(s, all[k], p));
                } else {
                    assert(rest.last().last() == head.last());
                    lemma_last_line_at_end(head);
                    let q = head.len() - rest.last().len();
                    assert(head.subrange(q, head.len() as int) == rest.last());
                    assert(s.subrange(q, s.len() as int) =~= all[k]);
                    assert(stands_in(s, all[k], q));
                }
            }
        }
        assert forall|k: int| 0 <= k < all.len() - 1 implies (#[trigger] all[k]).last() == '\n' by {
            if fresh && k == rest.len() - 1 {
                assert(rest.last().last() == head.last());
            } else {
                assert(rest[k].last() == '\n');
            }
        }
    }
}

/// The last line of a text ends it.
proof fn lemma_last_line_at_end(s: Seq<char>)
    requires
        s.len() > 0,
    ensures
        crate::strings::inclusive(s).len() > 0,
        stands_in(s, crate::strings::inclusive(s).last(), s.len() - crate::strings::inclusive(s).last().len()),
    decreases s.len(),
{
    let all = crate::strings::inclusive(s);
    if s.len() == 1 || s[s.len() - 2] == '\n' {
        assert(s.subrange(s.len() - 1, s.len() as int) =~= all.last());
    } else {
        let head = s.drop_last();
        lemma_last_line_at_end(head);
        let rest = crate::strings::inclusive(head);
        let q = head.len() - rest.last().len();
        assert(head.subrange(q, head.len() as int) == rest.last());
        assert(s.subrange(q, s.len() as int) =~= all.last());
    }
}

/// A text in which no line opens a conflict holds no conflict.
pub proof fn lemma_unopened_has_no_span(s: Seq<char>)
    requires
        unopened(s),
    ensures
        crate::conflict::spans(s) == Ok::<
            Seq<crate::conflict::Span>,
            crate::conflict::MarkerFault,
        >(Seq::empty()),
{
    let lines = crate::strings::inclusive(s);
    lemma_inclusive_lines(s);
    assert forall|k: int| 0 <= k < lines.len() implies !crate::conflict::is_marker(
        #[trigger] lines[k],
        "<<<<<<<"@,
    ) by {
        lemma_open_marker(lines[k]);
        if crate::strings::starts(lines[k], opening(7)) {
            let p = choose|p: int| stands_in(s, lines[k], p);
            assert(lines[k].subrange(0, 7) =~= s.subrange(p, p + 7));
            assert(crate::strings::matches_at(s, p, opening(7)));
        }
    }
    lemma_no_marker_no_span(lines, 0);
}

proof fn lemma_no_marker_no_span(lines: Seq<Seq<char>>, i: int)
    requires
        0 <= i,
        forall|k: int|
            i <= k < lines.len() ==> !crate::conflict::is_marker(#[trigger] lines[k], "<<<<<<<"@),
    ensures
        crate::conflict::spans_from(lines, i) == Ok::<
            Seq<crate::conflict::Span>,
            crate::conflict::MarkerFault,
        >(Seq::empty()),
    decreases lines.len() - i,
{
    if i < lines.len() {
        lemma_no_marker_no_span(lines, i + 1);
    }
}

/// Texts can be put together at the end of a line.
pub proof fn lemma_unopened_add(a: Seq<char>, b: Seq<char>)
    requires
        unopened(a),
        unopened(b),
        a.len() == 0 || a.last() == '\n' || b.len() == 0,
    ensures
        unopened(a + b),
{
    let s = a + b;
    assert forall|i: int| line_start(s, i) implies !#[trigger] crate::strings::matches_at(
        s,
        i,
        opening(7),
    ) by {
        if crate::strings::matches_at(s, i, opening(7)) {
            assert forall|j: int| i <= j < i + 7 implies s[j] == '<' by {
                assert(s.subrange(i, i + 7)[j - i] == '<');
            }
            if i < a.len() {
                if i + 7 <= a.len() {
                    assert(a.subrange(i, i + 7) =~= opening(7));
                    assert(line_start(a, i));
                    assert(crate::strings::matches_at(a, i, opening(7)));
                } else {
                    assert(s[a.len() - 1] == a.last());
                }
            } else {
                let j = i - a.len();
                assert(b.subrange(j, j + 7) =~= opening(7));
                assert(line_start(b, j));
                assert(crate::strings::matches_at(b, j, opening(7)));
            }
        }
    }
}

/// A line ending can be put behind a text.
proof fn lemma_unopened_ending(a: Seq<char>, e: Seq<char>)
    requires
        unopened(a),
        a.len() == 0 || a.last() != '\n',
        forall|i: int| 0 <= i < e.len() ==> e[i] != '<',
    ensures
        unopened(a + e),
{
    let s = a + e;
    assert forall|i: int| line_start(s, i) implies !#[trigger] crate::strings::matches_at(
        s,
        i,
        opening(7),
    ) by {
        if crate::strings::matches_at(s, i, opening(7)) {
            assert(s.subrange(i, i + 7)[6] == '<');
            assert(s[i + 6] == '<');
            assert(i + 7 <= a.len());
            assert(a.subrange(i, i + 7) =~= s.subrange(i, i + 7));
            assert(line_start(a, i));
            assert(crate::strings::matches_at(a, i, opening(7)));
        }
    }
}

/// `p` and `r` are line endings.
pub open spec fn are_endings(p: Seq<char>, r: Seq<char>) -> bool {
    &&& p.len() > 0 && p.last() == '\n'
    &&& r.len() > 0 && r.last() == '\n'
    &&& forall|k: int| 0 <= k < r.len() - 1 ==> r[k] != '\n'
    &&& forall|k: int| 0 <= k < r.len() ==> r[k] != '<'
}

proof fn lemma_opening_replaced(s: Seq<char>, p: Seq<char>, r: Seq<char>, i: int, n: nat)
    requires
        are_endings(p, r),
        0 <= i,
        crate::strings::starts(crate::strings::replaced_from(s, p, r, i), opening(n)),
    ensures
        i <= s.len() ==> crate::strings::matches_at(s, i, opening(n)),
    decreases n,
{
    let out = crate::strings::replaced_from(s, p, r, i);
    if n == 0 {
        if i <= s.len() {
            assert(s.subrange(i, i) =~= opening(0));
        }
    } else {
        assert(out.subrange(0, n as int)[0] == '<');
        assert(out[0] == '<');
        assert(i < s.len());
        if crate::strings::matches_at(s, i, p) {
            assert(out[0] == r[0]);
        } else {
            let rest = crate::strings::replaced_from(s, p, r, i + 1);
            assert(out == seq![s[i]] + rest);
            let m = (n - 1) as nat;
            assert(rest.subrange(0, m as int) =~= opening(m)) by {
                assert forall|j: int| 0 <= j < m implies #[trigger] rest.subrange(0, m as int)[j] == '<' by {
                    assert(out.subrange(0, n as int)[j + 1] == '<');
                }
            }
            lemma_opening_replaced(s, p, r, i + 1, m);
            assert(s.subrange(i, i + n) =~= opening(n)) by {
                assert forall|j: int| 0 <= j < n implies #[trigger] s.subrange(i, i + n)[j] == '<' by {
                    if j > 0 {
                        assert(s.subrange(i + 1, i + 1 + m)[j - 1] == '<');
                    }
                }
            }
        }
    }
}

proof fn lemma_unopened_replaced_from(s: Seq<char>, p: Seq<char>, r: Seq<char>, i: int)
    requires
        unopened(s),
        are_endings(p, r),
        0 <= i,
    ensures
        forall|j: int|
            line_start(crate::strings::replaced_from(s, p, r, i), j) && j > 0
                ==> !#[trigger] crate::strings::matches_at(
                crate::strings::replaced_from(s, p, r, i),
                j,
                opening(7),
            ),
    decreases s.len() - i,
{
    let out = crate::strings::replaced_from(s, p, r, i);
    if i < s.len() {
        let hit = crate::strings::matches_at(s, i, p);
        let step = if hit {
            p.len() as int
        } else {
            1
        };
        let front = if hit {
            r
        } else {
            seq![s[i]]
        };
        let rest = crate::strings::replaced_from(s, p, r, i + step);
        assert(out == front + rest);
        lemma_unopened_replaced_from(s, p, r, i + step);
        assert forall|j: int| line_start(out, j) && j > 0 implies !#[trigger] crate::strings::matches_at(
            out,
            j,
            opening(7),
        ) by {
            if crate::strings::matches_at(out, j, opening(7)) {
                assert(out.subrange(j, j + 7)[0] == '<');
                assert(out[j] == '<');
                if j < front.len() {
                    assert(hit);
                } else {
                    let m = j - front.len();
                    assert(rest.subrange(m, m + 7) =~= out.subrange(j, j + 7));
                    assert(crate::strings::matches_at(rest, m, opening(7)));
                    if m == 0 {
                        if hit {
                            assert(s.subrange(i, i + p.len()).last() == '\n');
                        }
                        assert(s[i + step - 1] == '\n');
                        lemma_opening_replaced(s, p, r, i + step, 7);
                        assert(line_start(s, i + step));
                    }
                }
            }
        }
    }
}

/// Changing the line endings of a text opens no conflict.
proof fn lemma_unopened_replaced(s: Seq<char>, p: Seq<char>, r: Seq<char>)
    requires
        unopened(s),
        are_endings(p, r),
    ensures
        unopened(crate::strings::replaced(s, p, r)),
{
    let out = crate::strings::replaced(s, p, r);
    lemma_unopened_replaced_from(s, p, r, 0);
    assert forall|j: int| line_start(out, j) implies !#[trigger] crate::strings::matches_at(
        out,
        j,
        opening(7),
    ) by {
        if j == 0 && crate::strings::matches_at(out, 0, opening(7)) {
            lemma_opening_replaced(s, p, r, 0, 7);
            assert(out.subrange(0, 7).len() == 7);
            assert(s.len() > 0);
            assert(line_start(s, 0));
        }
    }
}

/// The piece of a text that begins at the beginning of a line.
proof fn lemma_split_starts(s: Seq<char>, p: int)
    requires
        line_start(s, p),
        crate::strings::matches_at(s, p, opening(7)),
    ensures
        exists|k: int|
            0 <= k < crate::strings::split(s, '\n').len() && crate::strings::starts(
                #[trigger] crate::strings::split(s, '\n')[k],
                opening(7),
            ),
    decreases s.len(),
{
    let head = s.drop_last();
    let pieces = crate::strings::split(s, '\n');
    let rest = crate::strings::split(head, '\n');
    assert forall|j: int| p <= j < p + 7 implies s[j] == '<' by {
        assert(s.subrange(p, p + 7)[j - p] == '<');
    }
    if p + 7 < s.len() {
        assert(head.subrange(p, p + 7) =~= s.subrange(p, p + 7));
        lemma_split_starts(head, p);
        let k = choose|k: int|
            0 <= k < rest.len() && crate::strings::starts(#[trigger] rest[k], opening(7));
        assert(pieces[k].subrange(0, 7) =~= rest[k].subrange(0, 7));
        assert(crate::strings::starts(pieces[k], opening(7)));
    } else {
        lemma_last_piece(s, p);
        assert(pieces.last() == s.subrange(p, s.len() as int));
        assert(pieces.last().subrange(0, 7) =~= opening(7));
        assert(crate::strings::starts(pieces[pieces.len() - 1], opening(7)));
    }
}

proof fn lemma_last_piece(s: Seq<char>, p: int)
    requires
        0 <= p <= s.len(),
        p == 0 || s[p - 1] == '\n',
        forall|j: int| p <= j < s.len() ==> s[j] != '\n',
    ensures
        crate::strings::split(s, '\n').len() > 0,
        crate::strings::split(s, '\n').last() == s.subrange(p, s.len() as int),
    decreases s.len(),
{
    if s.len() == 0 {
        assert(s.subrange(0, 0) =~= Seq::<char>::empty());
    } else if p == s.len() {
        assert(s.subrange(p, p) =~= Seq::<char>::empty());
    } else {
        let head = s.drop_last();
        lemma_last_piece(head, p);
        assert(head.subrange(p, head.len() as int).push(s.last()) =~= s.subrange(p, s.len() as int));
    }
}

/// A text without a marker at the beginning of a line opens no conflict.
pub proof fn lemma_no_marker_unopened(s: Seq<char>)
    requires
        !crate::conflict::marker_left(s),
    ensures
        unopened(s),
{
    let all = crate::strings::lines(s);
    let pieces = crate::strings::split(s, '\n');
    assert forall|i: int| line_start(s, i) implies !#[trigger] crate::strings::matches_at(
        s,
        i,
        opening(7),
    ) by {
        if crate::strings::matches_at(s, i, opening(7)) {
            lemma_split_starts(s, i);
            let k = choose|k: int|
                0 <= k < pieces.len() && crate::strings::starts(#[trigger] pieces[k], opening(7));
            let piece = pieces[k];
            assert(piece.subrange(0, 7)[0] == '<' && piece.subrange(0, 7)[6] == '<');
            assert(k < all.len());
            let line = all[k];
            assert(line.subrange(0, 7) =~= piece.subrange(0, 7)) by {
                if line.len() != piece.len() {
                    assert(piece[6] == '<');
                }
            }
            assert(line[0] == '<');
            assert(crate::strings::trim_front(line) == line);
            lemma_opening();
            assert(crate::conflict::begins_with_marker(crate::strings::trim_front(all[k])));
        }
    }
}

/// What is put in the place of a conflict opens none, and ends a line where the conflict did.
proof fn lemma_rendered(replacement: Seq<char>, raw: Seq<char>)
    requires
        !crate::conflict::marker_left(replacement),
    ensures
        unopened(crate::conflict::rendered(replacement, raw)),
        crate::conflict::ends_with_newline(raw) ==> crate::conflict::rendered(replacement, raw).len() == 0
            || crate::conflict::rendered(replacement, raw).last() == '\n',
{
    reveal_strlit("\r\n");
    reveal_strlit("\n");
    assert("\r\n"@ =~= seq!['\r', '\n']);
    assert("\n"@ =~= seq!['\n']);
    let plain = crate::strings::replaced(replacement, "\r\n"@, "\n"@);
    let body = crate::conflict::normalized(replacement, crate::conflict::uses_crlf(raw));
    lemma_no_marker_unopened(replacement);
    lemma_unopened_replaced(replacement, "\r\n"@, "\n"@);
    lemma_unopened_replaced(plain, "\n"@, "\r\n"@);
    if body.len() > 0 && !crate::conflict::ends_with_newline(body) {
        lemma_unopened_ending(body, "\r\n"@);
        lemma_unopened_ending(body, "\n"@);
    }
}

/// Lines that open no conflict, put together.
proof fn lemma_gap(lines: Seq<Seq<char>>, from: int, to: int)
    requires
        0 <= from <= to <= lines.len(),
        forall|k: int| 0 <= k < lines.len() ==> is_line(#[trigger] lines[k]),
        forall|k: int| 0 <= k < lines.len() - 1 ==> (#[trigger] lines[k]).last() == '\n',
        forall|k: int|
            from <= k < to ==> !crate::conflict::is_marker(#[trigger] lines[k], "<<<<<<<"@),
    ensures
        unopened(crate::strings::concat(lines.subrange(from, to))),
        to < lines.len() ==> crate::strings::concat(lines.subrange(from, to)).len() == 0
            || crate::strings::concat(lines.subrange(from, to)).last() == '\n',
    decreases to - from,
{
    let part = lines.subrange(from, to);
    if from < to {
        assert(part.drop_last() =~= lines.subrange(from, to - 1));
        lemma_gap(lines, from, to - 1);
        let head = crate::strings::concat(part.drop_last());
        let line = lines[to - 1];
        lemma_open_marker(line);
        assert(unopened(line)) by {
            assert forall|i: int| line_start(line, i) implies !#[trigger] crate::strings::matches_at(
                line,
                i,
                opening(7),
            ) by {
                assert(i == 0);
            }
        }
        lemma_unopened_add(head, line);
        assert(crate::strings::concat(part) == head + line);
    } else {
        assert(part =~= Seq::empty());
    }
}

/// Outside of its conflicts a text opens none.
proof fn lemma_outside(lines: Seq<Seq<char>>, i: int, k: int)
    requires
        0 <= i,
        crate::conflict::spans_from(lines, i) is Ok,
        0 <= k <= crate::conflict::spans_from(lines, i)->Ok_0.len(),
    ensures
        ({
            let found = crate::conflict::spans_from(lines, i)->Ok_0;
            let from = if k == 0 {
                i
            } else {
                found[k - 1].close + 1
            };
            let to = if k == found.len() {
                lines.len() as int
            } else {
                found[k].open
            };
            forall|j: int|
                from <= j < to ==> !crate::conflict::is_marker(#[trigger] lines[j], "<<<<<<<"@)
        }),
    decreases lines.len() - i,
{
    let found = crate::conflict::spans_from(lines, i)->Ok_0;
    if i < lines.len() {
        if !crate::conflict::is_marker(lines[i], "<<<<<<<"@) {
            lemma_outside(lines, i + 1, k);
        } else {
            crate::conflict::lemma_span_at(lines, i);
            let span = crate::conflict::span_at(lines, i)->Ok_0;
            let rest = crate::conflict::spans_from(lines, span.close + 1)->Ok_0;
            assert(found == seq![span] + rest);
            if k > 0 {
                lemma_outside(lines, span.close + 1, k - 1);
                if k < found.len() {
                    assert(found[k] == rest[k - 1]);
                }
                if k > 1 {
                    assert(found[k - 1] == rest[k - 2]);
                }
            }
        }
    }
}

proof fn lemma_rebuilt_unopened(
    lines: Seq<Seq<char>>,
    found: Seq<crate::conflict::Span>,
    texts: Seq<Seq<char>>,
    k: int,
    cursor: int,
)
    requires
        crate::conflict::spans_from(lines, 0) == Ok::<
            Seq<crate::conflict::Span>,
            crate::conflict::MarkerFault,
        >(found),
        forall|j: int| 0 <= j < lines.len() ==> is_line(#[trigger] lines[j]),
        forall|j: int| 0 <= j < lines.len() - 1 ==> (#[trigger] lines[j]).last() == '\n',
        texts.len() == found.len(),
        forall|j: int|
            0 <= j < texts.len() ==> unopened(#[trigger] texts[j]) && (
            crate::conflict::ends_with_newline(crate::conflict::raw_text(lines, found[j]))
                ==> texts[j].len() == 0 || texts[j].last() == '\n'),
        0 <= k <= found.len(),
        cursor == (if k == 0 {
            0
        } else {
            found[k - 1].close + 1
        }),
    ensures
        unopened(crate::conflict::rebuilt(lines, found, texts, k, cursor)),
    decreases found.len() - k,
{
    crate::conflict::lemma_spans_ordered(lines, 0);
    lemma_outside(lines, 0, k);
    if k == found.len() {
        lemma_gap(lines, cursor, lines.len() as int);
    } else {
        let open = found[k].open;
        let close = found[k].close;
        if k > 0 {
            assert(found[k - 1].close < found[k].open);
        }
        let gap = crate::strings::concat(lines.subrange(cursor, open));
        let tail = crate::conflict::rebuilt(lines, found, texts, k + 1, close + 1);
        lemma_gap(lines, cursor, open);
        lemma_rebuilt_unopened(lines, found, texts, k + 1, close + 1);
        let raw = crate::conflict::raw_text(lines, found[k]);
        let part = lines.subrange(open, close + 1);
        assert(raw.last() == lines[close].last() && raw.len() > 0) by {
            assert(part.last() == lines[close]);
            assert(raw == crate::strings::concat(part.drop_last()) + part.last());
            assert(is_line(lines[close]));
        }
        if lines[close].last() != '\n' {
            assert(close == lines.len() - 1);
            if k + 1 < found.len() {
                assert(found[k].close < found[k + 1].open);
            }
            assert(lines.subrange(close + 1, lines.len() as int) =~= Seq::empty());
            assert(tail.len() == 0);
        }
        assert(unopened(texts[k]));
        lemma_unopened_add(texts[k], tail);
        lemma_unopened_add(gap, texts[k] + tail);
        assert(gap + texts[k] + tail =~= gap + (texts[k] + tail));
    }
}

proof fn lemma_texts(
    path: Seq<char>,
    lines: Seq<Seq<char>>,
    found: Seq<crate::conflict::Span>,
    rs: Seq<crate::conflict::ConflictResolution>,
    k: int,
)
    requires
        0 <= k <= found.len(),
        crate::conflict::texts_from(path, lines, found, rs, k) is Ok,
        forall|i: int|
            0 <= i < rs.len() ==> !crate::conflict::marker_left((#[trigger] rs[i]).replacement@),
    ensures
        ({
            let texts = crate::conflict::texts_from(path, lines, found, rs, k)->Ok_0;
            &&& texts.len() == found.len() - k
            &&& forall|j: int|
                0 <= j < texts.len() ==> unopened(#[trigger] texts[j]) && (
                crate::conflict::ends_with_newline(crate::conflict::raw_text(lines, found[k + j]))
                    ==> texts[j].len() == 0 || texts[j].last() == '\n')
        }),
    decreases found.len() - k,
{
    if k < found.len() {
        let raw = crate::conflict::raw_text(lines, found[k]);
        lemma_lookup(rs, path, crate::conflict::block_id(k), 0);
        let i = crate::conflict::lookup(rs, path, crate::conflict::block_id(k), 0)->0;
        assert(!crate::conflict::marker_left(rs[i].replacement@));
        lemma_rendered(rs[i].replacement@, raw);
        lemma_texts(path, lines, found, rs, k + 1);
        let rest = crate::conflict::texts_from(path, lines, found, rs, k + 1)->Ok_0;
        let texts = crate::conflict::texts_from(path, lines, found, rs, k)->Ok_0;
        assert forall|j: int| 0 <= j < texts.len() implies unopened(#[trigger] texts[j]) && (
        crate::conflict::ends_with_newline(crate::conflict::raw_text(lines, found[k + j]))
            ==> texts[j].len() == 0 || texts[j].last() == '\n') by {
            if j > 0 {
                assert(texts[j] == rest[j - 1]);
            }
        }
    }
}

pub proof fn lemma_lookup(
    rs: Seq<crate::conflict::ConflictResolution>,
    path: Seq<char>,
    id: Seq<char>,
    i: int,
)
    requires
        0 <= i,
    ensures
        crate::conflict::lookup(rs, path, id, i) matches Some(at) ==> i <= at < rs.len()
            && crate::conflict::has_key(rs[at], path, id),
    decreases rs.len() - i,
{
    if i < rs.len() && !crate::conflict::has_key(rs[i], path, id) {
        lemma_lookup(rs, path, id, i + 1);
    }
}

proof fn lemma_sound_resolutions(rs: Seq<crate::conflict::ConflictResolution>, i: int)
    requires
        0 <= i,
        crate::conflict::resolution_fault(rs, i) is None,
    ensures
        forall|j: int|
            i <= j < rs.len() ==> !crate::conflict::marker_left((#[trigger] rs[j]).replacement@),
    decreases rs.len() - i,
{
    if i < rs.len() {
        lemma_sound_resolutions(rs, i + 1);
    }
}

pub proof fn lemma_resolved_from(
    files: Seq<crate::git::ConflictFileContent>,
    rs: Seq<crate::conflict::ConflictResolution>,
    i: int,
)
    requires
        0 <= i <= files.len(),
        crate::conflict::resolved_from(files, rs, i) is Ok,
    ensures
        ({
            let texts = crate::conflict::resolved_from(files, rs, i)->Ok_0;
            &&& texts.len() == files.len() - i
            &&& forall|j: int|
                0 <= j < texts.len() ==> crate::conflict::resolved_content(files[i + j], rs) == Ok::<
                    Seq<char>,
                    crate::conflict::Fault,
                >(#[trigger] texts[j])
        }),
    decreases files.len() - i,
{
    if i < files.len() {
        lemma_resolved_from(files, rs, i + 1);
        let rest = crate::conflict::resolved_from(files, rs, i + 1)->Ok_0;
        let texts = crate::conflict::resolved_from(files, rs, i)->Ok_0;
        assert forall|j: int| 0 <= j < texts.len() implies crate::conflict::resolved_content(
            files[i + j],
            rs,
        ) == Ok::<Seq<char>, crate::conflict::Fault>(#[trigger] texts[j]) by {
            if j > 0 {
                assert(texts[j] == rest[j - 1]);
            }
        }
    }
}

/// A file whose conflicts were all replaced holds no conflict any more.
pub proof fn law_resolved_files_hold_no_conflict(
    files: Seq<crate::git::ConflictFileContent>,
    rs: Seq<crate::conflict::ConflictResolution>,
    i: int,
)
    requires
        crate::conflict::resolved(files, rs) is Ok,
        0 <= i < files.len(),
    ensures
        crate::conflict::spans(crate::conflict::resolved(files, rs)->Ok_0[i]) == Ok::<
            Seq<crate::conflict::Span>,
            crate::conflict::MarkerFault,
        >(Seq::empty()),
{
    lemma_sound_resolutions(rs, 0);
    lemma_resolved_from(files, rs, 0);
    let texts = crate::conflict::resolved(files, rs)->Ok_0;
    let file = files[i];
    assert(crate::conflict::resolved_content(files[0 + i], rs) == Ok::<
        Seq<char>,
        crate::conflict::Fault,
    >(texts[i]));
    let lines = crate::strings::inclusive(file.content@);
    let found = crate::conflict::spans(file.content@)->Ok_0;
    lemma_inclusive_lines(file.content@);
    lemma_texts(file.path@, lines, found, rs, 0);
    let parts = crate::conflict::texts_from(file.path@, lines, found, rs, 0)->Ok_0;
    assert forall|j: int| 0 <= j < parts.len() implies unopened(#[trigger] parts[j]) && (
    crate::conflict::ends_with_newline(crate::conflict::raw_text(lines, found[j]))
        ==> parts[j].len() == 0 || parts[j].last() == '\n') by {
        assert(found[0 + j] == found[j]);
    }
    lemma_rebuilt_unopened(lines, found, parts, 0, 0);
    lemma_unopened_has_no_span(texts[i]);
}

proof fn lemma_rebuilt_raw(
    lines: Seq<Seq<char>>,
    found: Seq<crate::conflict::Span>,
    texts: Seq<Seq<char>>,
    k: int,
    cursor: int,
)
    requires
        crate::conflict::spans_ordered(lines, found, 0),
        texts.len() == found.len(),
        forall|j: int|
            0 <= j < texts.len() ==> #[trigger] texts[j] == crate::conflict::raw_text(lines, found[j]),
        0 <= k <= found.len(),
        cursor == (if k == 0 {
            0
        } else {
            found[k - 1].close + 1
        }),
    ensures
        crate::conflict::rebuilt(lines, found, texts, k, cursor) == crate::strings::concat(
            lines.subrange(cursor, lines.len() as int),
        ),
    decreases found.len() - k,
{
    if k < found.len() {
        let open = found[k].open;
        let close = found[k].close;
        if k > 0 {
            assert(found[k - 1].close < found[k].open);
        }
        lemma_rebuilt_raw(lines, found, texts, k + 1, close + 1);
        let n = lines.len() as int;
        crate::strings::lemma_concat_add(lines.subrange(cursor, open), lines.subrange(open, close + 1));
        assert(lines.subrange(cursor, open) + lines.subrange(open, close + 1) =~= lines.subrange(
            cursor,
            close + 1,
        ));
        crate::strings::lemma_concat_add(lines.subrange(cursor, close + 1), lines.subrange(close + 1, n));
        assert(lines.subrange(cursor, close + 1) + lines.subrange(close + 1, n) =~= lines.subrange(
            cursor,
            n,
        ));
        assert(texts[k] == crate::conflict::raw_text(lines, found[k]));
    }
}

/// Putting every conflict in its own place gives the file back: what is not a conflict is kept, all
/// of it and in order.
pub proof fn law_everything_else_is_kept(content: Seq<char>, texts: Seq<Seq<char>>)
    requires
        crate::conflict::spans(content) matches Ok(found) && texts.len() == found.len() && forall|
            j: int,
        |
            0 <= j < texts.len() ==> #[trigger] texts[j] == crate::conflict::raw_text(
                crate::strings::inclusive(content),
                found[j],
            ),
    ensures
        crate::conflict::rebuilt(
            crate::strings::inclusive(content),
            crate::conflict::spans(content)->Ok_0,
            texts,
            0,
            0,
        ) == content,
{
    let lines = crate::strings::inclusive(content);
    let found = crate::conflict::spans(content)->Ok_0;
    crate::conflict::lemma_spans_ordered(lines, 0);
    lemma_rebuilt_raw(lines, found, texts, 0, 0);
    assert(lines.subrange(0, lines.len() as int) =~= lines);
    crate::strings::lemma_inclusive_concat(content);
}

/// `s` without its carriage returns.
pub open spec fn without_cr(s: Seq<char>) -> Seq<char>
    decreases s.len(),
{
    if s.len() == 0 {
        Seq::empty()
    } else if s.last() == '\r' {
        without_cr(s.drop_last())
    } else {
        without_cr(s.drop_last()).push(s.last())
    }
}

proof fn lemma_without_cr_add(a: Seq<char>, b: Seq<char>)
    ensures
        without_cr(a + b) == without_cr(a) + without_cr(b),
    decreases b.len(),
{
    if b.len() == 0 {
        assert(a + b =~= a);
        assert(without_cr(a) + without_cr(b) =~= without_cr(a));
    } else {
        lemma_without_cr_add(a, b.drop_last());
        assert((a + b).drop_last() =~= a + b.drop_last());
        assert((a + b).last() == b.last());
        if b.last() != '\r' {
            assert((without_cr(a) + without_cr(b.drop_last())).push(b.last()) =~= without_cr(a)
                + without_cr(b));
        }
    }
}

proof fn lemma_without_cr_one(c: char)
    ensures
        without_cr(seq![c]) == (if c == '\r' {
            Seq::empty()
        } else {
            seq![c]
        }),
{
    reveal_with_fuel(without_cr, 2);
    assert(seq![c].drop_last() =~= Seq::empty());
    assert(Seq::<char>::empty().push(c) =~= seq![c]);
}

proof fn lemma_without_cr_replaced(s: Seq<char>, p: Seq<char>, r: Seq<char>, i: int)
    requires
        0 <= i <= s.len(),
        p.len() > 0,
        without_cr(p) == without_cr(r),
    ensures
        without_cr(crate::strings::replaced_from(s, p, r, i)) == without_cr(s.skip(i)),
    decreases s.len() - i,
{
    if i < s.len() {
        if crate::strings::matches_at(s, i, p) {
            let rest = crate::strings::replaced_from(s, p, r, i + p.len());
            lemma_without_cr_replaced(s, p, r, i + p.len());
            lemma_without_cr_add(r, rest);
            lemma_without_cr_add(p, s.skip(i + p.len()));
            assert(s.skip(i) =~= p + s.skip(i + p.len())) by {
                assert(s.subrange(i, i + p.len()) == p);
                assert(s.skip(i) =~= s.subrange(i, i + p.len()) + s.skip(i + p.len()));
            }
        } else {
            let rest = crate::strings::replaced_from(s, p, r, i + 1);
            lemma_without_cr_replaced(s, p, r, i + 1);
            lemma_without_cr_add(seq![s[i]], rest);
            lemma_without_cr_add(seq![s[i]], s.skip(i + 1));
            assert(s.skip(i) =~= seq![s[i]] + s.skip(i + 1));
        }
    } else {
        assert(s.skip(i) =~= Seq::empty());
    }
}

proof fn lemma_nothing_replaced(s: Seq<char>, p: Seq<char>, r: Seq<char>, i: int)
    requires
        0 <= i <= s.len(),
        p.len() > 0,
        p[0] == '\r',
        !s.contains('\r'),
    ensures
        crate::strings::replaced_from(s, p, r, i) == s.skip(i),
    decreases s.len() - i,
{
    if i < s.len() {
        if crate::strings::matches_at(s, i, p) {
            assert(s.subrange(i, i + p.len())[0] == s[i]);
            assert(s.contains(s[i]));
        } else {
            lemma_nothing_replaced(s, p, r, i + 1);
            assert(seq![s[i]] + s.skip(i + 1) =~= s.skip(i));
        }
    } else {
        assert(s.skip(i) =~= Seq::empty());
    }
}

/// Every line feed stands behind a carriage return.
pub open spec fn all_crlf(s: Seq<char>) -> bool {
    forall|k: int| 0 <= k < s.len() && #[trigger] s[k] == '\n' ==> k > 0 && s[k - 1] == '\r'
}

proof fn lemma_all_crlf_add(a: Seq<char>, b: Seq<char>)
    requires
        all_crlf(a),
        all_crlf(b),
    ensures
        all_crlf(a + b),
{
    let t = a + b;
    assert forall|k: int| 0 <= k < t.len() && #[trigger] t[k] == '\n' implies k > 0 && t[k - 1] == '\r' by {
        if k < a.len() {
            assert(a[k] == '\n');
        } else {
            assert(b[k - a.len()] == '\n');
        }
    }
}

proof fn lemma_replaced_by_crlf(s: Seq<char>, i: int)
    requires
        0 <= i,
    ensures
        all_crlf(crate::strings::replaced_from(s, "\n"@, "\r\n"@, i)),
    decreases s.len() - i,
{
    reveal_strlit("\r\n");
    reveal_strlit("\n");
    let p = "\n"@;
    let r = "\r\n"@;
    assert(r =~= seq!['\r', '\n'] && p =~= seq!['\n']);
    if i < s.len() {
        if crate::strings::matches_at(s, i, p) {
            lemma_replaced_by_crlf(s, i + 1);
            assert(all_crlf(r));
            lemma_all_crlf_add(r, crate::strings::replaced_from(s, p, r, i + 1));
        } else {
            lemma_replaced_by_crlf(s, i + 1);
            assert(s[i] != '\n') by {
                if s[i] == '\n' {
                    assert(s.subrange(i, i + 1) =~= p);
                }
            }
            assert(all_crlf(seq![s[i]]));
            lemma_all_crlf_add(seq![s[i]], crate::strings::replaced_from(s, p, r, i + 1));
        }
    }
}

/// `text` is the replacement, up to line endings and one line end at its back: the replacement itself
/// where neither it nor the conflict holds a carriage return and no line end is missing.
pub open spec fn stands_for(text: Seq<char>, replacement: Seq<char>, conflict: Seq<char>) -> bool {
    &&& without_cr(text) == without_cr(replacement) || without_cr(text) == without_cr(
        replacement,
    ).push('\n')
    &&& !replacement.contains('\r') && !conflict.contains('\r') && (replacement.len() == 0
        || replacement.last() == '\n' || conflict.last() != '\n') ==> text == replacement
    &&& conflict.last() == '\n' && text.len() > 0 ==> text.last() == '\n'
    &&& crate::strings::occurs(conflict, seq!['\r', '\n']) ==> all_crlf(text)
}

proof fn lemma_stands_for(replacement: Seq<char>, raw: Seq<char>)
    requires
        raw.len() > 0,
    ensures
        stands_for(crate::conflict::rendered(replacement, raw), replacement, raw),
{
    reveal_strlit("\r\n");
    reveal_strlit("\n");
    let crlf = "\r\n"@;
    let lf = "\n"@;
    assert(crlf =~= seq!['\r', '\n'] && lf =~= seq!['\n']);
    let plain = crate::strings::replaced(replacement, crlf, lf);
    let used = crate::conflict::uses_crlf(raw);
    let body = crate::conflict::normalized(replacement, used);
    let text = crate::conflict::rendered(replacement, raw);
    lemma_without_cr_one('\r');
    lemma_without_cr_one('\n');
    lemma_without_cr_add(seq!['\r'], seq!['\n']);
    assert(seq!['\r'] + seq!['\n'] =~= crlf);
    assert(Seq::<char>::empty() + seq!['\n'] =~= seq!['\n']);
    assert(without_cr(crlf) == without_cr(lf));
    lemma_without_cr_replaced(replacement, crlf, lf, 0);
    lemma_without_cr_replaced(plain, lf, crlf, 0);
    assert(replacement.skip(0) =~= replacement);
    assert(plain.skip(0) =~= plain);
    assert(without_cr(body) == without_cr(replacement));
    lemma_without_cr_add(body, crlf);
    lemma_without_cr_add(body, lf);
    assert(without_cr(body) + seq!['\n'] =~= without_cr(body).push('\n'));
    if used {
        lemma_replaced_by_crlf(plain, 0);
        assert(all_crlf(crlf));
        lemma_all_crlf_add(body, crlf);
    }
    if !replacement.contains('\r') && !raw.contains('\r') {
        if used {
            let i = choose|i: int| crate::strings::matches_at(raw, i, crlf);
            assert(raw.subrange(i, i + 2)[0] == raw[i]);
            assert(raw.contains(raw[i]));
        }
        lemma_nothing_replaced(replacement, crlf, lf, 0);
    }
}

/// The lines of a text, each with its line end.
pub open spec fn are_lines(lines: Seq<Seq<char>>) -> bool {
    &&& forall|j: int| 0 <= j < lines.len() ==> is_line(#[trigger] lines[j])
    &&& forall|j: int| 0 <= j < lines.len() - 1 ==> (#[trigger] lines[j]).last() == '\n'
}

/// The lines are those of one conflict: from an opening marker to the first closing marker behind the
/// first separator.
pub open spec fn conflict_lines(lines: Seq<Seq<char>>, separator: int) -> bool {
    &&& 0 < separator < lines.len() - 1
    &&& crate::strings::starts(lines[0], "<<<<<<<"@)
    &&& crate::strings::starts(lines[separator], "======="@)
    &&& crate::strings::starts(lines.last(), ">>>>>>>"@)
    &&& forall|j: int| 0 < j < separator ==> !crate::strings::starts(#[trigger] lines[j], "======="@)
    &&& forall|j: int|
        separator < j < lines.len() - 1 ==> !crate::strings::starts(#[trigger] lines[j], ">>>>>>>"@)
}

/// The text is one conflict, markers and all.
pub open spec fn is_conflict(text: Seq<char>) -> bool {
    exists|lines: Seq<Seq<char>>, separator: int|
        are_lines(lines) && crate::strings::concat(lines) == text && #[trigger] conflict_lines(
            lines,
            separator,
        )
}

/// `gaps` with `parts` between them, from number `k` on.
pub open spec fn woven(gaps: Seq<Seq<char>>, parts: Seq<Seq<char>>, k: int) -> Seq<char>
    decreases parts.len() - k,
{
    if k < 0 || k >= parts.len() {
        gaps[parts.len() as int]
    } else {
        gaps[k] + parts[k] + woven(gaps, parts, k + 1)
    }
}

/// One of the resolutions is for conflict number `k` of the file, knows its text, and is what stands in
/// its place.
pub open spec fn is_replaced_by(
    rs: Seq<crate::conflict::ConflictResolution>,
    path: Seq<char>,
    k: int,
    conflict: Seq<char>,
    text: Seq<char>,
) -> bool {
    exists|j: int|
        0 <= j < rs.len() && (#[trigger] rs[j]).path@ == path && rs[j].conflict_id@ == "conflict-"@
            + crate::strings::decimal((k + 1) as nat) && rs[j].expected_sha256@
            == crate::digest::text_digest(conflict) && stands_for(text, rs[j].replacement@, conflict)
}

/// The file falls into conflicts and what stands around them, and `out` is the same with each conflict
/// replaced by the text of its own resolution.
pub open spec fn is_replaced(
    content: Seq<char>,
    path: Seq<char>,
    rs: Seq<crate::conflict::ConflictResolution>,
    out: Seq<char>,
    gaps: Seq<Seq<char>>,
    conflicts: Seq<Seq<char>>,
    texts: Seq<Seq<char>>,
) -> bool {
    &&& conflicts.len() > 0
    &&& gaps.len() == conflicts.len() + 1
    &&& texts.len() == conflicts.len()
    &&& content == woven(gaps, conflicts, 0)
    &&& out == woven(gaps, texts, 0)
    &&& forall|k: int| 0 <= k < gaps.len() ==> unopened(#[trigger] gaps[k])
    &&& forall|k: int|
        0 <= k < conflicts.len() ==> (gaps[k].len() == 0 || gaps[k].last() == '\n') && is_conflict(
            #[trigger] conflicts[k],
        )
    &&& forall|k: int|
        0 <= k < conflicts.len() ==> is_replaced_by(rs, path, k, #[trigger] conflicts[k], texts[k])
}

/// A marker is what a line begins with.
proof fn lemma_marker(line: Seq<char>, p: Seq<char>)
    requires
        p.len() > 0,
        forall|j: int| 0 <= j < p.len() ==> #[trigger] p[j] != '\r' && p[j] != '\n',
    ensures
        crate::conflict::is_marker(line, p) == crate::strings::starts(line, p),
    decreases line.len(),
{
    if line.len() > 0 && (line.last() == '\r' || line.last() == '\n') {
        let head = line.drop_last();
        lemma_marker(head, p);
        if crate::strings::starts(line, p) {
            assert(line.subrange(0, p.len() as int)[p.len() - 1] == p[p.len() - 1]);
            assert(line.len() > p.len()) by {
                if line.len() == p.len() {
                    assert(line[p.len() - 1] == line.subrange(0, p.len() as int)[p.len() - 1]);
                }
            }
            assert(head.subrange(0, p.len() as int) =~= line.subrange(0, p.len() as int));
        }
        if crate::strings::starts(head, p) {
            assert(head.subrange(0, p.len() as int) =~= line.subrange(0, p.len() as int));
        }
    }
}

pub proof fn lemma_markers(line: Seq<char>)
    ensures
        crate::conflict::is_marker(line, "<<<<<<<"@) == crate::strings::starts(line, "<<<<<<<"@),
        crate::conflict::is_marker(line, "======="@) == crate::strings::starts(line, "======="@),
        crate::conflict::is_marker(line, ">>>>>>>"@) == crate::strings::starts(line, ">>>>>>>"@),
        crate::conflict::is_marker(line, "|||||||"@) ==> !crate::strings::starts(line, "======="@),
{
    reveal_strlit("<<<<<<<");
    reveal_strlit("=======");
    reveal_strlit(">>>>>>>");
    reveal_strlit("|||||||");
    lemma_marker(line, "<<<<<<<"@);
    lemma_marker(line, "======="@);
    lemma_marker(line, ">>>>>>>"@);
    lemma_marker(line, "|||||||"@);
    if crate::strings::starts(line, "|||||||"@) && crate::strings::starts(line, "======="@) {
        assert(line.subrange(0, 7)[0] == "|||||||"@[0]);
        assert(line.subrange(0, 7)[0] == "======="@[0]);
    }
}

pub proof fn lemma_spans_are_found(lines: Seq<Seq<char>>, i: int, k: int)
    requires
        0 <= i,
        crate::conflict::spans_from(lines, i) is Ok,
        0 <= k < crate::conflict::spans_from(lines, i)->Ok_0.len(),
    ensures
        ({
            let span = crate::conflict::spans_from(lines, i)->Ok_0[k];
            &&& i <= span.open < lines.len()
            &&& crate::conflict::is_marker(lines[span.open], "<<<<<<<"@)
            &&& crate::conflict::span_at(lines, span.open) == Ok::<
                crate::conflict::Span,
                crate::conflict::MarkerFault,
            >(span)
        }),
    decreases lines.len() - i,
{
    if i < lines.len() {
        if !crate::conflict::is_marker(lines[i], "<<<<<<<"@) {
            lemma_spans_are_found(lines, i + 1, k);
        } else {
            crate::conflict::lemma_span_at(lines, i);
            let span = crate::conflict::span_at(lines, i)->Ok_0;
            let rest = crate::conflict::spans_from(lines, span.close + 1)->Ok_0;
            assert(crate::conflict::spans_from(lines, i)->Ok_0 == seq![span] + rest);
            if k > 0 {
                lemma_spans_are_found(lines, span.close + 1, k - 1);
            }
        }
    }
}

/// What a line begins with, as a marker.
pub proof fn lemma_base_marker(line: Seq<char>)
    ensures
        crate::conflict::is_marker(line, "|||||||"@) == crate::strings::starts(line, "|||||||"@),
{
    reveal_strlit("|||||||");
    lemma_marker(line, "|||||||"@);
}

/// The lines that a span marks out are those of a conflict.
pub proof fn lemma_span_lines(lines: Seq<Seq<char>>, open: int)
    requires
        0 <= open < lines.len(),
        are_lines(lines),
        crate::conflict::is_marker(lines[open], "<<<<<<<"@),
        crate::conflict::span_at(lines, open) is Ok,
    ensures
        ({
            let span = crate::conflict::span_at(lines, open)->Ok_0;
            let part = lines.subrange(open, span.close + 1);
            are_lines(part) && conflict_lines(part, span.separator - open)
        }),
{
    let span = crate::conflict::span_at(lines, open)->Ok_0;
    crate::conflict::lemma_span_at(lines, open);
    crate::conflict::lemma_seek(lines, open + 1, "|||||||"@, "======="@);
    let ours_end = crate::conflict::seek(lines, open + 1, "|||||||"@, "======="@);
    crate::conflict::lemma_seek(lines, ours_end + 1, "======="@, "======="@);
    crate::conflict::lemma_seek(lines, span.separator + 1, ">>>>>>>"@, ">>>>>>>"@);
    let part = lines.subrange(open, span.close + 1);
    let at = span.separator - open;
    lemma_markers(lines[open]);
    lemma_markers(lines[span.separator]);
    lemma_markers(lines[span.close]);
    lemma_markers(lines[ours_end]);
    assert forall|j: int| 0 < j < at implies !crate::strings::starts(#[trigger] part[j], "======="@) by {
        assert(part[j] == lines[open + j]);
        lemma_markers(lines[open + j]);
    }
    assert forall|j: int| at < j < part.len() - 1 implies !crate::strings::starts(
        #[trigger] part[j],
        ">>>>>>>"@,
    ) by {
        assert(part[j] == lines[open + j]);
        lemma_markers(lines[open + j]);
    }
    assert(part[at] == lines[span.separator]);
    assert(part.last() == lines[span.close]);
    assert(are_lines(part)) by {
        assert forall|j: int| 0 <= j < part.len() implies is_line(#[trigger] part[j]) by {
            assert(part[j] == lines[open + j]);
        }
        assert forall|j: int| 0 <= j < part.len() - 1 implies (#[trigger] part[j]).last() == '\n' by {
            assert(part[j] == lines[open + j]);
        }
    }
}

/// What a span marks out is a conflict.
proof fn lemma_span_is_conflict(lines: Seq<Seq<char>>, open: int)
    requires
        0 <= open < lines.len(),
        are_lines(lines),
        crate::conflict::is_marker(lines[open], "<<<<<<<"@),
        crate::conflict::span_at(lines, open) is Ok,
    ensures
        is_conflict(
            crate::conflict::raw_text(lines, crate::conflict::span_at(lines, open)->Ok_0),
        ),
        crate::conflict::raw_text(lines, crate::conflict::span_at(lines, open)->Ok_0).len() > 0,
{
    let span = crate::conflict::span_at(lines, open)->Ok_0;
    let part = lines.subrange(open, span.close + 1);
    lemma_span_lines(lines, open);
    crate::conflict::lemma_span_at(lines, open);
    assert(conflict_lines(part, span.separator - open));
    assert(crate::strings::concat(part) == crate::strings::concat(part.drop_last()) + part.last());
    assert(is_line(part[part.len() - 1]));
}

proof fn lemma_texts_are_replacements(
    path: Seq<char>,
    lines: Seq<Seq<char>>,
    found: Seq<crate::conflict::Span>,
    rs: Seq<crate::conflict::ConflictResolution>,
    k: int,
)
    requires
        0 <= k <= found.len(),
        crate::conflict::texts_from(path, lines, found, rs, k) is Ok,
        forall|j: int| 0 <= j < found.len() ==> crate::conflict::raw_text(lines, #[trigger] found[j]).len() > 0,
    ensures
        ({
            let texts = crate::conflict::texts_from(path, lines, found, rs, k)->Ok_0;
            &&& texts.len() == found.len() - k
            &&& forall|j: int|
                0 <= j < texts.len() ==> is_replaced_by(
                    rs,
                    path,
                    k + j,
                    crate::conflict::raw_text(lines, found[k + j]),
                    #[trigger] texts[j],
                )
        }),
    decreases found.len() - k,
{
    if k < found.len() {
        let raw = crate::conflict::raw_text(lines, found[k]);
        let id = crate::conflict::block_id(k);
        lemma_lookup(rs, path, id, 0);
        let i = crate::conflict::lookup(rs, path, id, 0)->0;
        lemma_texts_are_replacements(path, lines, found, rs, k + 1);
        let rest = crate::conflict::texts_from(path, lines, found, rs, k + 1)->Ok_0;
        let texts = crate::conflict::texts_from(path, lines, found, rs, k)->Ok_0;
        lemma_stands_for(rs[i].replacement@, raw);
        assert forall|j: int| 0 <= j < texts.len() implies is_replaced_by(
            rs,
            path,
            k + j,
            crate::conflict::raw_text(lines, found[k + j]),
            #[trigger] texts[j],
        ) by {
            if j > 0 {
                assert(texts[j] == rest[j - 1]);
                assert(k + 1 + (j - 1) == k + j);
            } else {
                assert(rs[i].path@ == path);
                assert(is_replaced_by(rs, path, k, raw, texts[0]));
            }
        }
    }
}

/// What stands before conflict number `k`, or behind the last one.
pub open spec fn gap_of(lines: Seq<Seq<char>>, found: Seq<crate::conflict::Span>, k: int) -> Seq<char> {
    let from = if k == 0 {
        0
    } else {
        found[k - 1].close + 1
    };
    let to = if k == found.len() {
        lines.len() as int
    } else {
        found[k].open
    };
    crate::strings::concat(lines.subrange(from, to))
}

pub proof fn lemma_woven(
    lines: Seq<Seq<char>>,
    found: Seq<crate::conflict::Span>,
    texts: Seq<Seq<char>>,
    gaps: Seq<Seq<char>>,
    k: int,
)
    requires
        0 <= k <= found.len(),
        texts.len() == found.len(),
        gaps == Seq::new(found.len() + 1, |j: int| gap_of(lines, found, j)),
    ensures
        crate::conflict::rebuilt(
            lines,
            found,
            texts,
            k,
            if k == 0 {
                0
            } else {
                found[k - 1].close + 1
            },
        ) == woven(gaps, texts, k),
    decreases found.len() - k,
{
    if k < found.len() {
        lemma_woven(lines, found, texts, gaps, k + 1);
    }
}

/// Each conflict of a file is replaced by its own resolution: the one for this file and the number of
/// the conflict, made for this very text. What stands around the conflicts is kept.
pub proof fn law_each_conflict_gets_its_own_resolution(
    files: Seq<crate::git::ConflictFileContent>,
    rs: Seq<crate::conflict::ConflictResolution>,
    i: int,
)
    requires
        crate::conflict::resolved(files, rs) is Ok,
        0 <= i < files.len(),
    ensures
        exists|gaps: Seq<Seq<char>>, conflicts: Seq<Seq<char>>, texts: Seq<Seq<char>>|
            #[trigger] is_replaced(
                files[i].content@,
                files[i].path@,
                rs,
                crate::conflict::resolved(files, rs)->Ok_0[i],
                gaps,
                conflicts,
                texts,
            ),
{
    lemma_resolved_from(files, rs, 0);
    let out = crate::conflict::resolved(files, rs)->Ok_0;
    let file = files[i];
    assert(crate::conflict::resolved_content(files[0 + i], rs) == Ok::<
        Seq<char>,
        crate::conflict::Fault,
    >(out[i]));
    let lines = crate::strings::inclusive(file.content@);
    let found = crate::conflict::spans(file.content@)->Ok_0;
    lemma_inclusive_lines(file.content@);
    crate::conflict::lemma_spans_ordered(lines, 0);
    let conflicts = Seq::new(found.len(), |k: int| crate::conflict::raw_text(lines, found[k]));
    let gaps = Seq::new(found.len() + 1, |j: int| gap_of(lines, found, j));
    assert forall|k: int| 0 <= k < found.len() implies crate::conflict::raw_text(
        lines,
        #[trigger] found[k],
    ).len() > 0 && is_conflict(crate::conflict::raw_text(lines, found[k])) by {
        lemma_spans_are_found(lines, 0, k);
        lemma_span_is_conflict(lines, found[k].open);
    }
    lemma_texts_are_replacements(file.path@, lines, found, rs, 0);
    let texts = crate::conflict::texts_from(file.path@, lines, found, rs, 0)->Ok_0;
    lemma_woven(lines, found, texts, gaps, 0);
    lemma_woven(lines, found, conflicts, gaps, 0);
    law_everything_else_is_kept(file.content@, conflicts);
    assert forall|k: int| 0 <= k < gaps.len() implies unopened(#[trigger] gaps[k]) && (k < found.len()
        ==> gaps[k].len() == 0 || gaps[k].last() == '\n') by {
        lemma_outside(lines, 0, k);
        if 0 < k < found.len() {
            assert(found[k - 1].close < found[k].open);
        }
        let from = if k == 0 {
            0
        } else {
            found[k - 1].close + 1
        };
        let to = if k == found.len() {
            lines.len() as int
        } else {
            found[k].open
        };
        lemma_gap(lines, from, to);
    }
    assert forall|k: int| 0 <= k < conflicts.len() implies (gaps[k].len() == 0 || gaps[k].last()
        == '\n') && is_conflict(#[trigger] conflicts[k]) by {
        assert(conflicts[k] == crate::conflict::raw_text(lines, found[k]));
        assert(unopened(gaps[k]));
    }
    assert forall|k: int| 0 <= k < conflicts.len() implies is_replaced_by(
        rs,
        file.path@,
        k,
        #[trigger] conflicts[k],
        texts[k],
    ) by {
        assert(0 + k == k);
        assert(is_replaced_by(
            rs,
            file.path@,
            0 + k,
            crate::conflict::raw_text(lines, found[0 + k]),
            texts[k],
        ));
    }
    assert(is_replaced(file.content@, file.path@, rs, out[i], gaps, conflicts, texts));
}

} // verus!
