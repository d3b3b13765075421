//! What becomes of a file in which one side of every conflict is taken, and which proposals are stored.
use vstd::prelude::*;

use crate::config::SyncStrategy;
use crate::git::ConflictFileContent;
use crate::llm::ConflictResolutionProposal;
use crate::service::util::{ConflictSide, SideMode, SideState};

verus! {

/// The line begins with none of the markers that tell the sides apart.
pub open spec fn is_plain(line: Seq<char>) -> bool {
    !crate::strings::starts(line, "<<<<<<<"@) && !crate::strings::starts(line, "======="@)
        && !crate::strings::starts(line, ">>>>>>>"@)
}

pub open spec fn all_plain(lines: Seq<Seq<char>>) -> bool {
    forall|i: int| 0 <= i < lines.len() ==> is_plain(#[trigger] lines[i])
}

proof fn lemma_plain_run(before: Seq<Seq<char>>, lines: Seq<Seq<char>>, side: ConflictSide)
    requires
        all_plain(lines),
        crate::service::util::side_lines(before, side) is Ok,
    ensures
        ({
            let s = crate::service::util::side_lines(before, side)->Ok_0;
            let text = crate::strings::concat(lines);
            crate::service::util::side_lines(before + lines, side) == Ok::<SideState, Seq<char>>(
                match s.mode {
                    SideMode::Normal => SideState { output: s.output + text, ..s },
                    SideMode::Ours => SideState { ours: s.ours + text, ..s },
                    SideMode::Theirs => SideState { theirs: s.theirs + text, ..s },
                },
            )
        }),
    decreases lines.len(),
{
    let s = crate::service::util::side_lines(before, side)->Ok_0;
    if lines.len() == 0 {
        assert(before + lines =~= before);
        assert(crate::strings::concat(lines) =~= Seq::empty());
        assert(s.output + crate::strings::concat(lines) =~= s.output);
        assert(s.ours + crate::strings::concat(lines) =~= s.ours);
        assert(s.theirs + crate::strings::concat(lines) =~= s.theirs);
    } else {
        let fewer = lines.drop_last();
        assert forall|i: int| 0 <= i < fewer.len() implies is_plain(#[trigger] fewer[i]) by {
            assert(fewer[i] == lines[i]);
        }
        lemma_plain_run(before, fewer, side);
        assert((before + lines).drop_last() =~= before + fewer);
        assert((before + lines).last() == lines.last());
        assert(is_plain(lines[lines.len() - 1]));
        crate::laws::conflict::lemma_markers(lines.last());
        let text = crate::strings::concat(lines);
        let less = crate::strings::concat(fewer);
        assert(text == less + lines.last());
        assert(s.output + less + lines.last() =~= s.output + text);
        assert(s.ours + less + lines.last() =~= s.ours + text);
        assert(s.theirs + less + lines.last() =~= s.theirs + text);
    }
}

proof fn lemma_one_more(before: Seq<Seq<char>>, line: Seq<char>, side: ConflictSide)
    requires
        crate::service::util::side_lines(before, side) is Ok,
    ensures
        crate::service::util::side_lines(before + seq![line], side) == crate::service::util::side_line(
            crate::service::util::side_lines(before, side)->Ok_0,
            line,
            side,
        ),
{
    assert((before + seq![line]).drop_last() =~= before);
}

/// The lines of one conflict, between `before` and `after`.
pub open spec fn one_conflict(
    before: Seq<Seq<char>>,
    open: Seq<char>,
    ours: Seq<Seq<char>>,
    separator: Seq<char>,
    theirs: Seq<Seq<char>>,
    close: Seq<char>,
    after: Seq<Seq<char>>,
) -> Seq<Seq<char>> {
    before + seq![open] + ours + seq![separator] + theirs + seq![close] + after
}

/// Lines outside of conflicts are kept, and of a conflict the lines of the side that is taken: ours
/// stand before the separator, theirs behind it.
pub proof fn law_one_side_is_taken(
    before: Seq<Seq<char>>,
    open: Seq<char>,
    ours: Seq<Seq<char>>,
    separator: Seq<char>,
    theirs: Seq<Seq<char>>,
    close: Seq<char>,
    after: Seq<Seq<char>>,
    side: ConflictSide,
)
    requires
        crate::service::util::side_lines(before, side) matches Ok(s) && s.mode is Normal,
        crate::strings::starts(open, "<<<<<<<"@),
        crate::strings::starts(separator, "======="@),
        crate::strings::starts(close, ">>>>>>>"@),
        all_plain(ours),
        all_plain(theirs),
        all_plain(after),
    ensures
        ({
            let s = crate::service::util::side_lines(before, side)->Ok_0;
            let all = one_conflict(before, open, ours, separator, theirs, close, after);
            &&& crate::service::util::side_lines(all, side) is Ok
            &&& crate::service::util::side_lines(all, side)->Ok_0.mode is Normal
            &&& crate::service::util::side_lines(all, side)->Ok_0.seen
            &&& side is Ours ==> crate::service::util::side_lines(all, side)->Ok_0.output == s.output
                + crate::strings::concat(ours) + crate::strings::concat(after)
            &&& side is Theirs ==> crate::service::util::side_lines(all, side)->Ok_0.output == s.output
                + crate::strings::concat(theirs) + crate::strings::concat(after)
        }),
{
    crate::laws::conflict::lemma_markers(open);
    crate::laws::conflict::lemma_markers(separator);
    crate::laws::conflict::lemma_markers(close);
    lemma_markers_differ(open, separator, close);
    let a = before + seq![open];
    let b = a + ours;
    let c = b + seq![separator];
    let d = c + theirs;
    let e = d + seq![close];
    lemma_one_more(before, open, side);
    lemma_plain_run(a, ours, side);
    lemma_one_more(b, separator, side);
    lemma_plain_run(c, theirs, side);
    lemma_one_more(d, close, side);
    lemma_plain_run(e, after, side);
    assert(Seq::<char>::empty() + crate::strings::concat(ours) =~= crate::strings::concat(ours));
    assert(Seq::<char>::empty() + crate::strings::concat(theirs) =~= crate::strings::concat(theirs));
    assert(one_conflict(before, open, ours, separator, theirs, close, after) == e + after);
}

proof fn lemma_markers_differ(open: Seq<char>, separator: Seq<char>, close: Seq<char>)
    requires
        crate::strings::starts(open, "<<<<<<<"@),
        crate::strings::starts(separator, "======="@),
        crate::strings::starts(close, ">>>>>>>"@),
    ensures
        !crate::strings::starts(separator, "<<<<<<<"@),
        !crate::strings::starts(close, "<<<<<<<"@),
        !crate::strings::starts(close, "======="@),
{
    reveal_strlit("<<<<<<<");
    reveal_strlit("=======");
    reveal_strlit(">>>>>>>");
    assert(separator.subrange(0, 7)[0] == '=');
    assert(close.subrange(0, 7)[0] == '>');
    assert("<<<<<<<"@[0] == '<');
}

/// A file is taken where its lines end outside of a conflict and there was one; what is kept of it is
/// what its lines leave.
pub proof fn law_one_side_of_a_file(content: Seq<char>, side: ConflictSide, text: Seq<char>)
    ensures
        crate::service::util::one_side(content, side) == Ok::<Seq<char>, Seq<char>>(text) <==> (
        crate::service::util::side_lines(crate::strings::inclusive(content), side) matches Ok(s)
            && s.mode is Normal && s.seen && s.output == text),
        all_plain(crate::strings::inclusive(content)) ==> crate::service::util::one_side(
            content,
            side,
        ) is Err,
{
    if all_plain(crate::strings::inclusive(content)) {
        lemma_plain_run(Seq::empty(), crate::strings::inclusive(content), side);
        assert(Seq::<Seq<char>>::empty() + crate::strings::inclusive(content)
            =~= crate::strings::inclusive(content));
    }
}

/// Whose version stands on which side depends on how the branch is brought in step: a merge has the
/// branch on our side, a rebase has it on theirs.
pub proof fn law_mine_and_theirs()
    ensures
        crate::service::util::standing_choice("accept-mine"@, SyncStrategy::Merge) matches Some(c)
            && c.1 is Ours,
        crate::service::util::standing_choice("accept-mine"@, SyncStrategy::Rebase) matches Some(c)
            && c.1 is Theirs,
        crate::service::util::standing_choice("accept-theirs"@, SyncStrategy::Merge) matches Some(c)
            && c.1 is Theirs,
        crate::service::util::standing_choice("accept-theirs"@, SyncStrategy::Rebase) matches Some(c)
            && c.1 is Ours,
        forall|id: Seq<char>, sync: SyncStrategy|
            id != "accept-mine"@ && id != "accept-theirs"@
                ==> #[trigger] crate::service::util::standing_choice(id, sync) is None,
{
    reveal_strlit("accept-mine");
    reveal_strlit("accept-theirs");
    assert("accept-mine"@.len() == 11);
    assert("accept-theirs"@.len() == 13);
}

/// A text is good for a file in conflict exactly when it is for one of those files, holds no marker and
/// does not come from a file that was cut.
pub open spec fn is_good(path: Seq<char>, content: Seq<char>, conflict_files: Seq<Seq<char>>) -> bool {
    &&& conflict_files.contains(path)
    &&& !crate::strings::occurs(content, "<<<<<<<"@)
    &&& !crate::strings::occurs(content, "======="@)
    &&& !crate::strings::occurs(content, ">>>>>>>"@)
    &&& !crate::strings::occurs(content, "... file truncated by TermiteRS ..."@)
}

proof fn lemma_all_good(files: Seq<(Seq<char>, Seq<char>)>, conflict_files: Seq<Seq<char>>, i: int)
    requires
        0 <= i,
    ensures
        crate::service::util::texts_fault_from(files, conflict_files, i) is None <==> forall|k: int|
            i <= k < files.len() ==> is_good((#[trigger] files[k]).0, files[k].1, conflict_files),
    decreases files.len() - i,
{
    if i < files.len() {
        lemma_all_good(files, conflict_files, i + 1);
        assert(is_good(files[i].0, files[i].1, conflict_files)
            <==> crate::service::util::text_fault(files[i].0, files[i].1, conflict_files) is None);
    }
}

/// Files are taken exactly when there are some and each of them is good.
pub proof fn law_which_files_are_taken(
    files: Seq<(Seq<char>, Seq<char>)>,
    conflict_files: Seq<Seq<char>>,
)
    ensures
        crate::service::util::file_texts_fault(files, conflict_files) is None <==> files.len() > 0
            && forall|k: int|
            0 <= k < files.len() ==> is_good((#[trigger] files[k]).0, files[k].1, conflict_files),
{
    lemma_all_good(files, conflict_files, 0);
}

/// A proposal holds every file in conflict under its own path: with the side that was asked for, or as
/// the model resolved it; and every one of its texts is good.
pub proof fn law_proposal_is_what_was_asked_for(
    files: Seq<ConflictFileContent>,
    option_id: Seq<char>,
    sync: SyncStrategy,
    decision: Option<ConflictResolutionProposal>,
    conflict_files: Seq<Seq<char>>,
    k: int,
)
    requires
        crate::service::conflicts::proposal_files(files, option_id, sync, decision, conflict_files) is Ok,
        0 <= k < files.len(),
    ensures
        ({
            let made = crate::service::conflicts::proposal_files(
                files,
                option_id,
                sync,
                decision,
                conflict_files,
            )->Ok_0;
            &&& made.len() == files.len()
            &&& made[k].0 == files[k].path@
            &&& is_good(made[k].0, made[k].1, conflict_files)
            &&& option_id == "accept-mine"@ && sync is Merge ==> crate::service::util::one_side(
                files[k].content@,
                ConflictSide::Ours,
            ) == Ok::<Seq<char>, Seq<char>>(made[k].1)
            &&& option_id == "accept-mine"@ && sync is Rebase ==> crate::service::util::one_side(
                files[k].content@,
                ConflictSide::Theirs,
            ) == Ok::<Seq<char>, Seq<char>>(made[k].1)
            &&& option_id == "accept-theirs"@ && sync is Merge ==> crate::service::util::one_side(
                files[k].content@,
                ConflictSide::Theirs,
            ) == Ok::<Seq<char>, Seq<char>>(made[k].1)
            &&& option_id == "accept-theirs"@ && sync is Rebase ==> crate::service::util::one_side(
                files[k].content@,
                ConflictSide::Ours,
            ) == Ok::<Seq<char>, Seq<char>>(made[k].1)
            &&& option_id != "accept-mine"@ && option_id != "accept-theirs"@ ==> (decision matches Some(
                d,
            ) && (crate::conflict::resolved(files, d.resolutions@) matches Ok(texts) && made[k].1
                == texts[k]))
        }),
{
    law_mine_and_theirs();
    let made = crate::service::conflicts::proposal_files(
        files,
        option_id,
        sync,
        decision,
        conflict_files,
    )->Ok_0;
    law_which_files_are_taken(made, conflict_files);
    assert(is_good(made[k].0, made[k].1, conflict_files));
    match crate::service::util::standing_choice(option_id, sync) {
        Some(c) => {
            lemma_no_side_fault(files, c.1, 0, k);
        },
        None => {},
    }
}

proof fn lemma_no_side_fault(files: Seq<ConflictFileContent>, side: ConflictSide, i: int, k: int)
    requires
        0 <= i <= k < files.len(),
        crate::service::util::sides_fault(files, side, i) is None,
    ensures
        crate::service::util::one_side(files[k].content@, side) is Ok,
    decreases k - i,
{
    if i < k {
        lemma_no_side_fault(files, side, i + 1, k);
    }
}

/// An option is found by its id: the first with that id, and none only where no option has it.
pub proof fn law_option_is_found_by_id(
    options: crate::llm::ConflictOptionsDecision,
    id: Seq<char>,
    i: int,
)
    requires
        0 <= i,
    ensures
        match crate::service::conflicts::option_at(options, id, i) {
            Some(at) => i <= at < options.options@.len() && options.options@[at].id@ == id && forall|
                k: int,
            |
                i <= k < at ==> (#[trigger] options.options@[k]).id@ != id,
            None => forall|k: int|
                i <= k < options.options@.len() ==> (#[trigger] options.options@[k]).id@ != id,
        },
    decreases options.options@.len() - i,
{
    if i < options.options@.len() && options.options@[i].id@ != id {
        law_option_is_found_by_id(options, id, i + 1);
    }
}

/// Somebody may speak to a job that waits for guidance or whose tests failed, and to no other.
pub proof fn law_which_jobs_are_guided(state: Seq<char>)
    ensures
        crate::service::conflicts::guided(state) <==> state == "waiting_guidance"@ || state
            == "test_failed"@,
{
}

/// The difference of a file is taken from the content under the same path.
pub proof fn law_difference_is_taken_from_the_same_file(
    originals: Seq<ConflictFileContent>,
    files: Seq<(Seq<char>, Seq<char>)>,
    n: int,
)
    requires
        0 < n <= files.len(),
        crate::service::util::diffs(originals, files, n) is Ok,
    ensures
        exists|k: int|
            0 <= k < originals.len() && (#[trigger] originals[k]).path@ == files[n - 1].0
                && crate::service::util::diffs(originals, files, n) == Ok::<Seq<char>, Seq<char>>(
                crate::service::util::diffs(originals, files, n - 1)->Ok_0
                    + crate::service::util::unified_diff(
                    originals[k].content@,
                    files[n - 1].1,
                    "a/"@ + files[n - 1].0,
                    "b/"@ + files[n - 1].0,
                ) + "\n"@,
            ),
{
    lemma_original(originals, files[n - 1].0, 0);
    let k = crate::service::util::original_at(originals, files[n - 1].0, 0)->0;
    assert(originals[k].path@ == files[n - 1].0);
}

proof fn lemma_original(files: Seq<ConflictFileContent>, path: Seq<char>, i: int)
    requires
        0 <= i,
    ensures
        crate::service::util::original_at(files, path, i) matches Some(k) ==> i <= k < files.len()
            && files[k].path@ == path,
    decreases files.len() - i,
{
    if i < files.len() && files[i].path@ != path {
        lemma_original(files, path, i + 1);
    }
}

} // verus!
