//! What the blocks of a file are, and which resolutions are taken for them.
use vstd::prelude::*;

use crate::conflict::{ConflictBlock, ConflictResolution};
use crate::git::ConflictFileContent;

verus! {

/// The block shows the conflict that goes from line `open` to line `close`: our side up to the first
/// marker, their side behind the separator, what both come from between the two where it is there, and
/// up to `context` lines on each side.
pub open spec fn shows(
    block: ConflictBlock,
    lines: Seq<Seq<char>>,
    open: int,
    ours_end: int,
    separator: int,
    close: int,
    context: int,
) -> bool {
    &&& 0 <= open < ours_end <= separator < close < lines.len()
    &&& crate::laws::conflict::conflict_lines(
        lines.subrange(open, close + 1),
        separator - open,
    )
    &&& ours_end < separator ==> crate::strings::starts(lines[ours_end], "|||||||"@)
    &&& forall|j: int|
        open < j < ours_end ==> !crate::strings::starts(#[trigger] lines[j], "|||||||"@)
    &&& block.ours@ == crate::strings::concat(lines.subrange(open + 1, ours_end))
    &&& block.theirs@ == crate::strings::concat(lines.subrange(separator + 1, close))
    &&& block.base is Some <==> ours_end < separator
    &&& block.base matches Some(base) ==> base@ == crate::strings::concat(
        lines.subrange(ours_end + 1, separator),
    )
    &&& block.expected_sha256@ == crate::digest::text_digest(
        crate::strings::concat(lines.subrange(open, close + 1)),
    )
    &&& open <= context ==> block.before_context@ == crate::strings::concat(lines.take(open))
    &&& open > context ==> block.before_context@ == crate::strings::concat(
        lines.subrange(open - context, open),
    )
    &&& lines.len() <= close + 1 + context ==> block.after_context@ == crate::strings::concat(
        lines.skip(close + 1),
    )
    &&& lines.len() > close + 1 + context ==> block.after_context@ == crate::strings::concat(
        lines.subrange(close + 1, close + 1 + context),
    )
}

/// The blocks from `at` on are the conflicts of the file, all of them, in order and numbered from one.
pub open spec fn blocks_stand_at(
    blocks: Seq<ConflictBlock>,
    file: ConflictFileContent,
    context: int,
    at: int,
    lines: Seq<Seq<char>>,
    opens: Seq<int>,
    ours_ends: Seq<int>,
    separators: Seq<int>,
    closes: Seq<int>,
) -> bool {
    let n = opens.len();
    &&& crate::laws::conflict::are_lines(lines)
    &&& file.content@ == crate::strings::concat(lines)
    &&& ours_ends.len() == n && separators.len() == n && closes.len() == n
    &&& 0 <= at && at + n <= blocks.len()
    &&& forall|k: int|
        0 <= k < n ==> {
            &&& (#[trigger] blocks[at + k]).path@ == file.path@
            &&& blocks[at + k].id@ == "conflict-"@ + crate::strings::decimal((k + 1) as nat)
            &&& shows(blocks[at + k], lines, opens[k], ours_ends[k], separators[k], closes[k], context)
        }
    &&& forall|k: int| 0 < k < n ==> closes[k - 1] < #[trigger] opens[k]
    &&& forall|j: int|
        0 <= j < lines.len() && crate::strings::starts(#[trigger] lines[j], "<<<<<<<"@)
            ==> is_covered(opens, closes, j)
}

/// Line `j` stands in one of the conflicts.
pub open spec fn is_covered(opens: Seq<int>, closes: Seq<int>, j: int) -> bool {
    exists|k: int| 0 <= k < opens.len() && #[trigger] opens[k] <= j <= closes[k]
}

/// The blocks hold those of the file, in one run.
pub open spec fn hold_blocks_of(
    blocks: Seq<ConflictBlock>,
    file: ConflictFileContent,
    context: int,
) -> bool {
    exists|
        at: int,
        lines: Seq<Seq<char>>,
        opens: Seq<int>,
        ours_ends: Seq<int>,
        separators: Seq<int>,
        closes: Seq<int>,
    |
        #[trigger] blocks_stand_at(
            blocks,
            file,
            context,
            at,
            lines,
            opens,
            ours_ends,
            separators,
            closes,
        )
}

proof fn lemma_covered(lines: Seq<Seq<char>>, i: int, j: int)
    requires
        0 <= i <= j < lines.len(),
        crate::conflict::spans_from(lines, i) is Ok,
        crate::conflict::is_marker(lines[j], "<<<<<<<"@),
    ensures
        exists|k: int|
            0 <= k < crate::conflict::spans_from(lines, i)->Ok_0.len() && (
            #[trigger] crate::conflict::spans_from(lines, i)->Ok_0[k]).open <= j
                <= crate::conflict::spans_from(lines, i)->Ok_0[k].close,
    decreases lines.len() - i,
{
    let all = crate::conflict::spans_from(lines, i)->Ok_0;
    if !crate::conflict::is_marker(lines[i], "<<<<<<<"@) {
        lemma_covered(lines, i + 1, j);
    } else {
        crate::conflict::lemma_span_at(lines, i);
        let span = crate::conflict::span_at(lines, i)->Ok_0;
        let rest = crate::conflict::spans_from(lines, span.close + 1)->Ok_0;
        assert(all == seq![span] + rest);
        if j <= span.close {
            assert(all[0] == span);
        } else {
            lemma_covered(lines, span.close + 1, j);
            let k = choose|k: int| 0 <= k < rest.len() && (#[trigger] rest[k]).open <= j <= rest[k].close;
            assert(all[k + 1] == rest[k]);
        }
    }
}

proof fn lemma_shown(
    block: ConflictBlock,
    path: Seq<char>,
    lines: Seq<Seq<char>>,
    open: int,
    k: int,
    context: int,
)
    requires
        0 <= open < lines.len(),
        0 <= context,
        crate::laws::conflict::are_lines(lines),
        crate::conflict::is_marker(lines[open], "<<<<<<<"@),
        crate::conflict::span_at(lines, open) is Ok,
        crate::conflict::is_block(
            block,
            path,
            lines,
            crate::conflict::span_at(lines, open)->Ok_0,
            k,
            context,
        ),
    ensures
        ({
            let span = crate::conflict::span_at(lines, open)->Ok_0;
            shows(block, lines, span.open, span.ours_end, span.separator, span.close, context)
        }),
{
    let span = crate::conflict::span_at(lines, open)->Ok_0;
    crate::laws::conflict::lemma_span_lines(lines, open);
    crate::conflict::lemma_span_at(lines, open);
    crate::conflict::lemma_seek(lines, open + 1, "|||||||"@, "======="@);
    crate::laws::conflict::lemma_base_marker(lines[span.ours_end]);
    assert forall|j: int| open < j < span.ours_end implies !crate::strings::starts(
        #[trigger] lines[j],
        "|||||||"@,
    ) by {
        crate::laws::conflict::lemma_base_marker(lines[j]);
    }
    assert(lines.subrange(0, open) =~= lines.take(open));
    assert(lines.subrange(span.close + 1, lines.len() as int) =~= lines.skip(span.close + 1));
}

proof fn lemma_one_file(blocks: Seq<ConflictBlock>, file: ConflictFileContent, context: int, at: int)
    requires
        0 <= context,
        0 <= at,
        crate::conflict::spans(file.content@) is Ok,
        at + crate::conflict::spans(file.content@)->Ok_0.len() <= blocks.len(),
        forall|k: int|
            0 <= k < crate::conflict::spans(file.content@)->Ok_0.len() ==> crate::conflict::is_block(
                #[trigger] blocks[at + k],
                file.path@,
                crate::strings::inclusive(file.content@),
                crate::conflict::spans(file.content@)->Ok_0[k],
                k,
                context,
            ),
    ensures
        hold_blocks_of(blocks, file, context),
{
    let lines = crate::strings::inclusive(file.content@);
    let found = crate::conflict::spans(file.content@)->Ok_0;
    let opens = Seq::new(found.len(), |k: int| found[k].open);
    let ours_ends = Seq::new(found.len(), |k: int| found[k].ours_end);
    let separators = Seq::new(found.len(), |k: int| found[k].separator);
    let closes = Seq::new(found.len(), |k: int| found[k].close);
    crate::laws::conflict::lemma_inclusive_lines(file.content@);
    crate::strings::lemma_inclusive_concat(file.content@);
    crate::conflict::lemma_spans_ordered(lines, 0);
    assert forall|k: int| 0 <= k < found.len() implies {
        &&& (#[trigger] blocks[at + k]).path@ == file.path@
        &&& blocks[at + k].id@ == "conflict-"@ + crate::strings::decimal((k + 1) as nat)
        &&& shows(blocks[at + k], lines, opens[k], ours_ends[k], separators[k], closes[k], context)
    } by {
        crate::laws::conflict::lemma_spans_are_found(lines, 0, k);
        lemma_shown(blocks[at + k], file.path@, lines, found[k].open, k, context);
    }
    assert forall|k: int| 0 < k < found.len() implies closes[k - 1] < #[trigger] opens[k] by {
        assert(found[k - 1].close < found[k].open);
    }
    assert forall|j: int|
        0 <= j < lines.len() && crate::strings::starts(#[trigger] lines[j], "<<<<<<<"@) implies is_covered(
        opens,
        closes,
        j,
    ) by {
        crate::laws::conflict::lemma_markers(lines[j]);
        lemma_covered(lines, 0, j);
        let k = choose|k: int| 0 <= k < found.len() && (#[trigger] found[k]).open <= j <= found[k].close;
        assert(opens[k] <= j <= closes[k]);
    }
    assert(blocks_stand_at(
        blocks,
        file,
        context,
        at,
        lines,
        opens,
        ours_ends,
        separators,
        closes,
    ));
}

/// Every conflict of every file is shown by a block, with its own sides, its own digest and what stands
/// around it.
pub proof fn law_every_conflict_is_shown(
    blocks: Seq<ConflictBlock>,
    files: Seq<ConflictFileContent>,
    context: int,
    i: int,
)
    requires
        0 <= context,
        0 <= i < files.len(),
        crate::conflict::are_blocks_of(blocks, files, context),
    ensures
        hold_blocks_of(blocks, files[i], context),
    decreases files.len(),
{
    let file = files.last();
    let found = crate::conflict::spans(file.content@)->Ok_0;
    let rest = blocks.len() - found.len();
    if i == files.len() - 1 {
        lemma_one_file(blocks, file, context, rest);
    } else {
        let fewer = blocks.take(rest);
        law_every_conflict_is_shown(fewer, files.drop_last(), context, i);
        let (at, lines, opens, ours_ends, separators, closes) = choose|
            at: int,
            lines: Seq<Seq<char>>,
            opens: Seq<int>,
            ours_ends: Seq<int>,
            separators: Seq<int>,
            closes: Seq<int>,
        |
            #[trigger] blocks_stand_at(
                fewer,
                files[i],
                context,
                at,
                lines,
                opens,
                ours_ends,
                separators,
                closes,
            );
        assert forall|k: int| 0 <= k < opens.len() implies #[trigger] blocks[at + k] == fewer[at + k] by {}
        assert(blocks_stand_at(
            blocks,
            files[i],
            context,
            at,
            lines,
            opens,
            ours_ends,
            separators,
            closes,
        ));
    }
}

/// The block is one of the file's.
pub open spec fn is_of(block: ConflictBlock, file: ConflictFileContent, context: int) -> bool {
    exists|lines: Seq<Seq<char>>, open: int, ours_end: int, separator: int, close: int|
        file.content@ == crate::strings::concat(lines) && block.path@ == file.path@ && #[trigger] shows(
            block,
            lines,
            open,
            ours_end,
            separator,
            close,
            context,
        )
}

proof fn lemma_is_of(block: ConflictBlock, file: ConflictFileContent, k: int, context: int)
    requires
        0 <= context,
        crate::conflict::spans(file.content@) is Ok,
        0 <= k < crate::conflict::spans(file.content@)->Ok_0.len(),
        crate::conflict::is_block(
            block,
            file.path@,
            crate::strings::inclusive(file.content@),
            crate::conflict::spans(file.content@)->Ok_0[k],
            k,
            context,
        ),
    ensures
        is_of(block, file, context),
{
    let lines = crate::strings::inclusive(file.content@);
    let found = crate::conflict::spans(file.content@)->Ok_0;
    crate::laws::conflict::lemma_inclusive_lines(file.content@);
    crate::strings::lemma_inclusive_concat(file.content@);
    crate::laws::conflict::lemma_spans_are_found(lines, 0, k);
    lemma_shown(block, file.path@, lines, found[k].open, k, context);
}

/// A block shows a conflict of one of the files, and nothing else.
pub proof fn law_every_block_is_of_a_file(
    blocks: Seq<ConflictBlock>,
    files: Seq<ConflictFileContent>,
    context: int,
    n: int,
)
    requires
        0 <= context,
        0 <= n < blocks.len(),
        crate::conflict::are_blocks_of(blocks, files, context),
    ensures
        exists|i: int| 0 <= i < files.len() && is_of(blocks[n], #[trigger] files[i], context),
    decreases files.len(),
{
    let file = files.last();
    let found = crate::conflict::spans(file.content@)->Ok_0;
    let rest = blocks.len() - found.len();
    if n < rest {
        law_every_block_is_of_a_file(blocks.take(rest), files.drop_last(), context, n);
        let i = choose|i: int|
            0 <= i < files.drop_last().len() && is_of(
                blocks.take(rest)[n],
                #[trigger] files.drop_last()[i],
                context,
            );
        assert(files[i] == files.drop_last()[i]);
    } else {
        let k = n - rest;
        assert(blocks[rest + k] == blocks[n]);
        lemma_is_of(blocks[n], file, k, context);
        assert(is_of(blocks[n], files[files.len() - 1], context));
    }
}

/// The two resolutions are for different conflicts.
pub open spec fn are_apart(a: ConflictResolution, b: ConflictResolution) -> bool {
    a.path@ != b.path@ || a.conflict_id@ != b.conflict_id@
}

proof fn lemma_lookup_all(rs: Seq<ConflictResolution>, path: Seq<char>, id: Seq<char>, i: int, j: int)
    requires
        0 <= i <= j < rs.len(),
        crate::conflict::has_key(rs[j], path, id),
    ensures
        crate::conflict::lookup(rs, path, id, i) matches Some(at) && at <= j,
    decreases rs.len() - i,
{
    if !crate::conflict::has_key(rs[i], path, id) {
        lemma_lookup_all(rs, path, id, i + 1, j);
    }
}

proof fn lemma_keys_are_apart(rs: Seq<ConflictResolution>, i: int, a: int, b: int)
    requires
        0 <= i,
        crate::conflict::resolution_fault(rs, i) is None,
        0 <= a < b < rs.len(),
        i <= b,
    ensures
        are_apart(rs[a], rs[b]),
    decreases rs.len() - i,
{
    if i < b {
        lemma_keys_are_apart(rs, i + 1, a, b);
    } else if !are_apart(rs[a], rs[b]) {
        assert(rs.take(b)[a] == rs[a]);
        lemma_lookup_all(rs.take(b), rs[b].path@, rs[b].conflict_id@, 0, a);
    }
}

/// Of resolutions that are taken, no two are for the same conflict.
pub proof fn law_a_conflict_is_resolved_once(
    files: Seq<ConflictFileContent>,
    rs: Seq<ConflictResolution>,
    a: int,
    b: int,
)
    requires
        crate::conflict::resolved(files, rs) is Ok,
        0 <= a < b < rs.len(),
    ensures
        are_apart(rs[a], rs[b]),
{
    lemma_keys_are_apart(rs, 0, a, b);
}

proof fn lemma_known(files: Seq<ConflictFileContent>, rs: Seq<ConflictResolution>, i: int, j: int)
    requires
        0 <= i <= j < rs.len(),
        crate::conflict::first_unknown(files, rs, i) is None,
    ensures
        crate::conflict::is_known(files, rs[j]),
    decreases rs.len() - i,
{
    if i < j {
        lemma_known(files, rs, i + 1, j);
    }
}

proof fn lemma_marked(rs: Seq<ConflictResolution>, i: int, j: int)
    requires
        0 <= i <= j < rs.len(),
        crate::conflict::resolution_fault(rs, i) is None,
    ensures
        !crate::conflict::marker_left(rs[j].replacement@),
    decreases rs.len() - i,
{
    if i < j {
        lemma_marked(rs, i + 1, j);
    }
}

/// A replacement with a marker in it is never taken, white space before the marker or not.
pub proof fn law_markers_are_refused(
    files: Seq<ConflictFileContent>,
    rs: Seq<ConflictResolution>,
    j: int,
    n: int,
)
    requires
        0 <= j < rs.len(),
        0 <= n < crate::strings::lines(rs[j].replacement@).len(),
        ({
            let line = crate::strings::trim_front(crate::strings::lines(rs[j].replacement@)[n]);
            crate::strings::starts(line, "<<<<<<<"@) || crate::strings::starts(line, "|||||||"@)
                || crate::strings::starts(line, "======="@) || crate::strings::starts(line, ">>>>>>>"@)
        }),
    ensures
        crate::conflict::resolved(files, rs) is Err,
{
    if crate::conflict::resolution_fault(rs, 0) is None {
        lemma_marked(rs, 0, j);
        assert(crate::conflict::begins_with_marker(
            crate::strings::trim_front(crate::strings::lines(rs[j].replacement@)[n]),
        ));
    }
}

/// The resolution is for a conflict of the file, and made for its very text.
pub open spec fn is_for(r: ConflictResolution, file: ConflictFileContent) -> bool {
    exists|lines: Seq<Seq<char>>, open: int, close: int, separator: int, k: int|
        #![trigger lines.subrange(open, close + 1), crate::strings::decimal((k + 1) as nat), crate::laws::conflict::conflict_lines(lines.subrange(open, close + 1), separator)]
        file.content@ == crate::strings::concat(lines) && 0 <= open <= close < lines.len()
            && crate::laws::conflict::conflict_lines(lines.subrange(open, close + 1), separator) && 0 <= k
            && r.path@ == file.path@ && r.conflict_id@ == "conflict-"@ + crate::strings::decimal(
            (k + 1) as nat,
        ) && r.expected_sha256@ == crate::digest::text_digest(
            crate::strings::concat(lines.subrange(open, close + 1)),
        )
}

proof fn lemma_digest_is_checked(
    path: Seq<char>,
    lines: Seq<Seq<char>>,
    found: Seq<crate::conflict::Span>,
    rs: Seq<ConflictResolution>,
    from: int,
    k: int,
    j: int,
)
    requires
        0 <= from <= k < found.len(),
        0 <= j < rs.len(),
        crate::conflict::texts_from(path, lines, found, rs, from) is Ok,
        crate::conflict::has_key(rs[j], path, crate::conflict::block_id(k)),
        forall|a: int, b: int| 0 <= a < b < rs.len() ==> are_apart(#[trigger] rs[a], #[trigger] rs[b]),
    ensures
        rs[j].expected_sha256@ == crate::digest::text_digest(
            crate::conflict::raw_text(lines, found[k]),
        ),
    decreases k - from,
{
    if from < k {
        lemma_digest_is_checked(path, lines, found, rs, from + 1, k, j);
    } else {
        lemma_lookup_all(rs, path, crate::conflict::block_id(k), 0, j);
        crate::laws::conflict::lemma_lookup(rs, path, crate::conflict::block_id(k), 0);
        let at = crate::conflict::lookup(rs, path, crate::conflict::block_id(k), 0)->0;
        if at < j {
            assert(are_apart(rs[at], rs[j]));
        }
    }
}

/// Every resolution that is taken is for a conflict that is there, as it stands there.
pub proof fn law_every_resolution_is_for_a_conflict(
    files: Seq<ConflictFileContent>,
    rs: Seq<ConflictResolution>,
    j: int,
)
    requires
        crate::conflict::resolved(files, rs) is Ok,
        0 <= j < rs.len(),
    ensures
        exists|i: int| 0 <= i < files.len() && is_for(rs[j], #[trigger] files[i]),
{
    lemma_known(files, rs, 0, j);
    let (f, k) = choose|f: int, k: int|
        #![trigger files[f], crate::conflict::block_id(k)]
        0 <= f < files.len() && crate::conflict::has_key(
            rs[j],
            files[f].path@,
            crate::conflict::block_id(k),
        ) && (crate::conflict::spans(files[f].content@) matches Ok(found) && 0 <= k < found.len());
    let file = files[f];
    let lines = crate::strings::inclusive(file.content@);
    let found = crate::conflict::spans(file.content@)->Ok_0;
    crate::laws::conflict::lemma_resolved_from(files, rs, 0);
    let texts = crate::conflict::resolved_from(files, rs, 0)->Ok_0;
    assert(crate::conflict::resolved_content(files[0 + f], rs) == Ok::<
        Seq<char>,
        crate::conflict::Fault,
    >(texts[f]));
    assert forall|a: int, b: int| 0 <= a < b < rs.len() implies are_apart(
        #[trigger] rs[a],
        #[trigger] rs[b],
    ) by {
        lemma_keys_are_apart(rs, 0, a, b);
    }
    lemma_digest_is_checked(file.path@, lines, found, rs, 0, k, j);
    crate::laws::conflict::lemma_inclusive_lines(file.content@);
    crate::strings::lemma_inclusive_concat(file.content@);
    crate::laws::conflict::lemma_spans_are_found(lines, 0, k);
    crate::laws::conflict::lemma_span_lines(lines, found[k].open);
    crate::conflict::lemma_span_at(lines, found[k].open);
    let span = found[k];
    assert(crate::laws::conflict::conflict_lines(
        lines.subrange(span.open, span.close + 1),
        span.separator - span.open,
    ));
    assert(rs[j].conflict_id@ == "conflict-"@ + crate::strings::decimal((k + 1) as nat));
    assert(is_for(rs[j], files[f]));
}

/// Every conflict of the file has a resolution, made for its very text.
pub open spec fn is_answered(file: ConflictFileContent, rs: Seq<ConflictResolution>) -> bool {
    let lines = crate::strings::inclusive(file.content@);
    crate::conflict::spans(file.content@) matches Ok(found) && found.len() > 0 && forall|k: int|
        0 <= k < found.len() ==> exists|j: int|
            0 <= j < rs.len() && (#[trigger] rs[j]).path@ == file.path@ && rs[j].conflict_id@
                == "conflict-"@ + crate::strings::decimal((k + 1) as nat) && rs[j].expected_sha256@
                == crate::digest::text_digest(
                crate::conflict::raw_text(lines, #[trigger] found[k]),
            )
}

proof fn lemma_texts_are_given(
    file: ConflictFileContent,
    rs: Seq<ConflictResolution>,
    k: int,
)
    requires
        is_answered(file, rs),
        forall|a: int, b: int| 0 <= a < b < rs.len() ==> are_apart(#[trigger] rs[a], #[trigger] rs[b]),
        0 <= k <= crate::conflict::spans(file.content@)->Ok_0.len(),
    ensures
        crate::conflict::texts_from(
            file.path@,
            crate::strings::inclusive(file.content@),
            crate::conflict::spans(file.content@)->Ok_0,
            rs,
            k,
        ) is Ok,
    decreases crate::conflict::spans(file.content@)->Ok_0.len() - k,
{
    let lines = crate::strings::inclusive(file.content@);
    let found = crate::conflict::spans(file.content@)->Ok_0;
    if k < found.len() {
        lemma_texts_are_given(file, rs, k + 1);
        let raw = crate::conflict::raw_text(lines, found[k]);
        let id = crate::conflict::block_id(k);
        let j = choose|j: int|
            0 <= j < rs.len() && (#[trigger] rs[j]).path@ == file.path@ && rs[j].conflict_id@
                == "conflict-"@ + crate::strings::decimal((k + 1) as nat) && rs[j].expected_sha256@
                == crate::digest::text_digest(raw);
        assert(crate::conflict::has_key(rs[j], file.path@, id));
        lemma_lookup_all(rs, file.path@, id, 0, j);
        crate::laws::conflict::lemma_lookup(rs, file.path@, id, 0);
        let at = crate::conflict::lookup(rs, file.path@, id, 0)->0;
        if at < j {
            assert(are_apart(rs[at], rs[j]));
        }
    }
}

proof fn lemma_all_resolved(files: Seq<ConflictFileContent>, rs: Seq<ConflictResolution>, i: int)
    requires
        0 <= i <= files.len(),
        forall|f: int| 0 <= f < files.len() ==> is_answered(#[trigger] files[f], rs),
        forall|a: int, b: int| 0 <= a < b < rs.len() ==> are_apart(#[trigger] rs[a], #[trigger] rs[b]),
    ensures
        crate::conflict::resolved_from(files, rs, i) is Ok,
    decreases files.len() - i,
{
    if i < files.len() {
        lemma_all_resolved(files, rs, i + 1);
        assert(is_answered(files[i], rs));
        lemma_texts_are_given(files[i], rs, 0);
    }
}

proof fn lemma_no_fault(rs: Seq<ConflictResolution>, i: int)
    requires
        0 <= i,
        forall|a: int, b: int| 0 <= a < b < rs.len() ==> are_apart(#[trigger] rs[a], #[trigger] rs[b]),
        forall|j: int|
            0 <= j < rs.len() ==> !crate::conflict::marker_left((#[trigger] rs[j]).replacement@),
    ensures
        crate::conflict::resolution_fault(rs, i) is None,
    decreases rs.len() - i,
{
    if i < rs.len() {
        lemma_no_fault(rs, i + 1);
        crate::laws::conflict::lemma_lookup(rs.take(i), rs[i].path@, rs[i].conflict_id@, 0);
        if crate::conflict::lookup(rs.take(i), rs[i].path@, rs[i].conflict_id@, 0) is Some {
            let at = crate::conflict::lookup(rs.take(i), rs[i].path@, rs[i].conflict_id@, 0)->0;
            assert(rs.take(i)[at] == rs[at]);
            assert(are_apart(rs[at], rs[i]));
        }
    }
}

proof fn lemma_none_unknown(files: Seq<ConflictFileContent>, rs: Seq<ConflictResolution>, i: int)
    requires
        0 <= i,
        forall|j: int| 0 <= j < rs.len() ==> crate::conflict::is_known(files, #[trigger] rs[j]),
    ensures
        crate::conflict::first_unknown(files, rs, i) is None,
    decreases rs.len() - i,
{
    if i < rs.len() {
        lemma_none_unknown(files, rs, i + 1);
    }
}

/// Resolutions that answer every conflict once, and nothing else, without a marker left, are taken.
pub proof fn law_complete_answer_is_taken(files: Seq<ConflictFileContent>, rs: Seq<ConflictResolution>)
    requires
        rs.len() > 0,
        forall|f: int| 0 <= f < files.len() ==> is_answered(#[trigger] files[f], rs),
        forall|j: int| 0 <= j < rs.len() ==> crate::conflict::is_known(files, #[trigger] rs[j]),
        forall|a: int, b: int| 0 <= a < b < rs.len() ==> are_apart(#[trigger] rs[a], #[trigger] rs[b]),
        forall|j: int|
            0 <= j < rs.len() ==> !crate::conflict::marker_left((#[trigger] rs[j]).replacement@),
    ensures
        crate::conflict::resolved(files, rs) is Ok,
{
    lemma_no_fault(rs, 0);
    lemma_all_resolved(files, rs, 0);
    lemma_none_unknown(files, rs, 0);
}

/// The two lists differ in the replacement of number `j` at most.
pub open spec fn differ_in_replacement(
    rs: Seq<ConflictResolution>,
    other: Seq<ConflictResolution>,
    j: int,
) -> bool {
    &&& rs.len() == other.len()
    &&& forall|a: int|
        0 <= a < rs.len() ==> {
            &&& (#[trigger] rs[a]).path@ == other[a].path@
            &&& rs[a].conflict_id@ == other[a].conflict_id@
            &&& rs[a].expected_sha256@ == other[a].expected_sha256@
            &&& a != j ==> rs[a].replacement@ == other[a].replacement@
        }
}

proof fn lemma_same_lookup(
    rs: Seq<ConflictResolution>,
    other: Seq<ConflictResolution>,
    j: int,
    path: Seq<char>,
    id: Seq<char>,
    i: int,
)
    requires
        differ_in_replacement(rs, other, j),
        0 <= i,
    ensures
        crate::conflict::lookup(rs, path, id, i) == crate::conflict::lookup(other, path, id, i),
    decreases rs.len() - i,
{
    if i < rs.len() {
        assert(rs[i].path@ == other[i].path@);
        lemma_same_lookup(rs, other, j, path, id, i + 1);
    }
}

proof fn lemma_same_texts(
    path: Seq<char>,
    lines: Seq<Seq<char>>,
    found: Seq<crate::conflict::Span>,
    rs: Seq<ConflictResolution>,
    other: Seq<ConflictResolution>,
    j: int,
    k: int,
)
    requires
        0 <= j < rs.len(),
        0 <= k <= found.len(),
        differ_in_replacement(rs, other, j),
        crate::conflict::texts_from(path, lines, found, rs, k) is Ok,
        crate::conflict::texts_from(path, lines, found, other, k) is Ok,
    ensures
        ({
            let a = crate::conflict::texts_from(path, lines, found, rs, k)->Ok_0;
            let b = crate::conflict::texts_from(path, lines, found, other, k)->Ok_0;
            &&& a.len() == found.len() - k == b.len()
            &&& forall|n: int|
                0 <= n < a.len() && (rs[j].path@ != path || rs[j].conflict_id@
                    != crate::conflict::block_id(k + n)) ==> #[trigger] a[n] == b[n]
        }),
    decreases found.len() - k,
{
    if k < found.len() {
        let id = crate::conflict::block_id(k);
        lemma_same_lookup(rs, other, j, path, id, 0);
        crate::laws::conflict::lemma_lookup(rs, path, id, 0);
        lemma_same_texts(path, lines, found, rs, other, j, k + 1);
        let a = crate::conflict::texts_from(path, lines, found, rs, k)->Ok_0;
        let b = crate::conflict::texts_from(path, lines, found, other, k)->Ok_0;
        let at = crate::conflict::lookup(rs, path, id, 0)->0;
        assert(rs[at].path@ == other[at].path@);
        assert forall|n: int|
            0 <= n < a.len() && (rs[j].path@ != path || rs[j].conflict_id@ != crate::conflict::block_id(
                k + n,
            )) implies #[trigger] a[n] == b[n] by {
            if n > 0 {
                assert(k + 1 + (n - 1) == k + n);
                assert(a[n] == crate::conflict::texts_from(path, lines, found, rs, k + 1)->Ok_0[n - 1]);
                assert(b[n] == crate::conflict::texts_from(path, lines, found, other, k + 1)->Ok_0[n - 1]);
            }
        }
    }
}

/// The two outcomes have the same text in the place of every conflict but those that `r` is for.
pub open spec fn agree_but_for(
    out: Seq<char>,
    other: Seq<char>,
    path: Seq<char>,
    r: ConflictResolution,
    gaps: Seq<Seq<char>>,
    a: Seq<Seq<char>>,
    b: Seq<Seq<char>>,
) -> bool {
    &&& a.len() == b.len() && gaps.len() == a.len() + 1
    &&& out == crate::laws::conflict::woven(gaps, a, 0)
    &&& other == crate::laws::conflict::woven(gaps, b, 0)
    &&& forall|k: int|
        0 <= k < a.len() && (r.path@ != path || r.conflict_id@ != "conflict-"@
            + crate::strings::decimal((k + 1) as nat)) ==> #[trigger] a[k] == b[k]
}

/// With another replacement in one resolution, another text stands in the place of its conflict, and
/// everything else is as it was.
pub proof fn law_resolution_reaches_its_conflict_only(
    files: Seq<ConflictFileContent>,
    rs: Seq<ConflictResolution>,
    other: Seq<ConflictResolution>,
    j: int,
    i: int,
)
    requires
        0 <= j < rs.len(),
        0 <= i < files.len(),
        differ_in_replacement(rs, other, j),
        crate::conflict::resolved(files, rs) is Ok,
        crate::conflict::resolved(files, other) is Ok,
    ensures
        exists|gaps: Seq<Seq<char>>, a: Seq<Seq<char>>, b: Seq<Seq<char>>|
            #[trigger] agree_but_for(
                crate::conflict::resolved(files, rs)->Ok_0[i],
                crate::conflict::resolved(files, other)->Ok_0[i],
                files[i].path@,
                rs[j],
                gaps,
                a,
                b,
            ),
        rs[j].path@ != files[i].path@ ==> crate::conflict::resolved(files, rs)->Ok_0[i]
            == crate::conflict::resolved(files, other)->Ok_0[i],
{
    let file = files[i];
    let lines = crate::strings::inclusive(file.content@);
    let found = crate::conflict::spans(file.content@)->Ok_0;
    crate::laws::conflict::lemma_resolved_from(files, rs, 0);
    crate::laws::conflict::lemma_resolved_from(files, other, 0);
    let out = crate::conflict::resolved(files, rs)->Ok_0;
    let out2 = crate::conflict::resolved(files, other)->Ok_0;
    assert(crate::conflict::resolved_content(files[0 + i], rs) == Ok::<
        Seq<char>,
        crate::conflict::Fault,
    >(out[i]));
    assert(crate::conflict::resolved_content(files[0 + i], other) == Ok::<
        Seq<char>,
        crate::conflict::Fault,
    >(out2[i]));
    let a = crate::conflict::texts_from(file.path@, lines, found, rs, 0)->Ok_0;
    let b = crate::conflict::texts_from(file.path@, lines, found, other, 0)->Ok_0;
    lemma_same_texts(file.path@, lines, found, rs, other, j, 0);
    let gaps = Seq::new(
        found.len() + 1,
        |k: int| crate::laws::conflict::gap_of(lines, found, k),
    );
    crate::laws::conflict::lemma_woven(lines, found, a, gaps, 0);
    crate::laws::conflict::lemma_woven(lines, found, b, gaps, 0);
    assert forall|k: int|
        0 <= k < a.len() && (rs[j].path@ != file.path@ || rs[j].conflict_id@ != "conflict-"@
            + crate::strings::decimal((k + 1) as nat)) implies #[trigger] a[k] == b[k] by {
        assert(0 + k == k);
        assert(crate::conflict::block_id(0 + k) == "conflict-"@ + crate::strings::decimal(
            (k + 1) as nat,
        ));
    }
    assert(agree_but_for(out[i], out2[i], file.path@, rs[j], gaps, a, b));
    if rs[j].path@ != file.path@ {
        assert(a =~= b);
    }
}

} // verus!
