//! What the tags of a remote are read as, and which tag comes next.
use crate::command::CommandOutput;
use crate::release::{Doing, ReleaseRun};
use vstd::prelude::*;

verus! {

/// The line of a listing names the tag, as it is or with the mark of the commit that it points to.
pub open spec fn names_tag(line: Seq<char>, tag: Seq<char>) -> bool {
    let words = crate::strings::words(line);
    words.len() >= 2 && (words[1] == "refs/tags/"@ + tag || words[1] == "refs/tags/"@ + tag + "^{}"@)
}

/// The line of a listing has the tag as its second word, with or without what stands around it.
pub open spec fn holds_tag(line: Seq<char>, commit: Seq<char>, tag: Seq<char>) -> bool {
    let words = crate::strings::words(line);
    words.len() >= 2 && words[0] == commit && (words[1] == "refs/tags/"@ + tag || words[1]
        == "refs/tags/"@ + tag + "^{}"@ || words[1] == tag || words[1] == tag + "^{}"@)
}

proof fn lemma_plain_digits(prefix: Seq<char>, n: nat)
    requires
        n <= u64::MAX,
    ensures
        crate::release::tag_number(prefix, prefix + crate::strings::decimal(n)) == Some(n),
        !crate::strings::ends(prefix + crate::strings::decimal(n), "^{}"@),
{
    let d = crate::strings::decimal(n);
    let tag = prefix + d;
    crate::release::lemma_decimal_roundtrip(n);
    assert(tag.subrange(0, prefix.len() as int) =~= prefix);
    assert(tag.skip(prefix.len() as int) =~= d);
    reveal_strlit("^{}");
    assert(crate::strings::is_digit(d[d.len() - 1]));
    assert(tag[tag.len() - 1] == d[d.len() - 1]);
    if crate::strings::ends(tag, "^{}"@) {
        assert("^{}"@[2] == '}');
        let tail = tag.subrange(tag.len() - 3, tag.len() as int);
        assert(tail[2] == tag[tag.len() - 1]);
    }
}

proof fn lemma_line(line: Seq<char>, prefix: Seq<char>, n: nat)
    requires
        n <= u64::MAX,
        names_tag(line, prefix + crate::strings::decimal(n)),
    ensures
        crate::release::listed(line) matches Some(found) && found.1 == prefix + crate::strings::decimal(
            n,
        ),
{
    let tag = prefix + crate::strings::decimal(n);
    let words = crate::strings::words(line);
    let head = "refs/tags/"@;
    let mark = "^{}"@;
    lemma_plain_digits(prefix, n);
    reveal_strlit("^{}");
    assert(words[1].subrange(0, head.len() as int) =~= head);
    if words[1] == head + tag {
        assert(words[1].skip(head.len() as int) =~= tag);
    } else {
        let reference = words[1].skip(head.len() as int);
        assert(reference =~= tag + mark);
        assert(reference.subrange(reference.len() - 3, reference.len() as int) =~= mark);
        assert(reference.take(reference.len() - 3) =~= tag);
    }
}

/// Every tag of the prefix with a number that stands on a line of the listing is read, whatever its
/// number is and wherever its line stands.
pub proof fn law_every_tag_is_read(prefix: Seq<char>, lines: Seq<Seq<char>>, i: int, n: nat)
    requires
        0 <= i < lines.len(),
        n <= u64::MAX,
        names_tag(lines[i], prefix + crate::strings::decimal(n)),
    ensures
        crate::release::tags_in(prefix, lines).contains_key(prefix + crate::strings::decimal(n)),
    decreases lines.len(),
{
    let tag = prefix + crate::strings::decimal(n);
    lemma_plain_digits(prefix, n);
    if i < lines.len() - 1 {
        assert(lines.drop_last()[i] == lines[i]);
        law_every_tag_is_read(prefix, lines.drop_last(), i, n);
    } else {
        lemma_line(lines[i], prefix, n);
    }
}

/// Every tag that is read stands on a line of the listing, and its commit on the same line.
pub proof fn law_every_read_tag_is_listed(prefix: Seq<char>, lines: Seq<Seq<char>>, tag: Seq<char>)
    requires
        crate::release::tags_in(prefix, lines).contains_key(tag),
    ensures
        exists|i: int|
            0 <= i < lines.len() && holds_tag(
                #[trigger] lines[i],
                crate::release::tags_in(prefix, lines)[tag],
                tag,
            ),
        crate::strings::starts(tag, prefix),
    decreases lines.len(),
{
    if lines.len() > 0 {
        let head = lines.drop_last();
        let before = crate::release::tags_in(prefix, head);
        let all = crate::release::tags_in(prefix, lines);
        if before.contains_key(tag) && before[tag] == all[tag] {
            law_every_read_tag_is_listed(prefix, head, tag);
            let i = choose|i: int| 0 <= i < head.len() && holds_tag(#[trigger] head[i], before[tag], tag);
            assert(holds_tag(lines[i], all[tag], tag));
        } else {
            let words = crate::strings::words(lines.last());
            let refs = "refs/tags/"@;
            let mark = "^{}"@;
            reveal_strlit("^{}");
            let reference = if crate::strings::starts(words[1], refs) {
                words[1].skip(refs.len() as int)
            } else {
                words[1]
            };
            if crate::strings::starts(words[1], refs) {
                assert(words[1] =~= refs + reference) by {
                    assert(words[1].subrange(0, refs.len() as int) == refs);
                    assert(words[1] =~= words[1].subrange(0, refs.len() as int) + reference);
                }
            }
            if crate::strings::ends(reference, mark) {
                let stem = reference.take(reference.len() - 3);
                assert(reference.subrange(reference.len() - 3, reference.len() as int) == mark);
                assert(reference =~= stem + mark);
                assert(refs + (stem + mark) =~= refs + stem + mark);
                assert(tag == stem);
            } else {
                assert(tag == reference);
            }
            assert(holds_tag(lines[lines.len() - 1], all[tag], tag));
        }
    }
}

/// The commit of an annotated tag is the one that it points to: where the listing names that commit
/// last for the tag, it is the one that is read.
pub proof fn law_annotated_tag_is_followed(
    prefix: Seq<char>,
    lines: Seq<Seq<char>>,
    commit: Seq<char>,
    n: nat,
)
    requires
        n <= u64::MAX,
        lines.len() > 0,
        ({
            let words = crate::strings::words(lines.last());
            words.len() >= 2 && words[0] == commit && words[1] == "refs/tags/"@ + (prefix
                + crate::strings::decimal(n)) + "^{}"@
        }),
    ensures
        crate::release::tags_in(prefix, lines)[prefix + crate::strings::decimal(n)] == commit,
{
    let tag = prefix + crate::strings::decimal(n);
    let words = crate::strings::words(lines.last());
    let head = "refs/tags/"@;
    let mark = "^{}"@;
    lemma_plain_digits(prefix, n);
    reveal_strlit("^{}");
    assert(words[1].subrange(0, head.len() as int) =~= head);
    let reference = words[1].skip(head.len() as int);
    assert(reference =~= tag + mark);
    assert(reference.subrange(reference.len() - 3, reference.len() as int) =~= mark);
    assert(reference.take(reference.len() - 3) =~= tag);
}

/// The next tag is numbered on from the highest: no tag of the prefix with a number has the same or a
/// higher one, until the numbers are used up, and the first tag of all is number 0.
pub proof fn law_next_tag_numbers_on(prefix: Seq<char>, tags: Seq<Seq<char>>)
    ensures
        ({
            let next = crate::release::next_number(prefix, tags);
            &&& crate::release::next_tag(prefix, tags) == prefix + crate::strings::decimal(next)
            &&& forall|i: int, n: nat|
                0 <= i < tags.len() && n < u64::MAX && #[trigger] tags[i] == prefix
                    + #[trigger] crate::strings::decimal(n) ==> n < next
            &&& (forall|i: int|
                0 <= i < tags.len() ==> !crate::strings::starts(#[trigger] tags[i], prefix)) ==> next == 0
            &&& next > 0 ==> exists|i: int|
                0 <= i < tags.len() && (#[trigger] crate::release::tag_number(prefix, tags[i]) == Some(
                    (next - 1) as nat,
                ) || crate::release::tag_number(prefix, tags[i]) == Some(u64::MAX as nat))
        }),
    decreases tags.len(),
{
    let next = crate::release::next_number(prefix, tags);
    if tags.len() > 0 {
        let head = tags.drop_last();
        law_next_tag_numbers_on(prefix, head);
        let before = crate::release::next_number(prefix, head);
        assert forall|i: int, n: nat|
            0 <= i < tags.len() && n < u64::MAX && #[trigger] tags[i] == prefix
                + #[trigger] crate::strings::decimal(n) implies n < next by {
            lemma_plain_digits(prefix, n);
            if i < head.len() {
                assert(head[i] == tags[i]);
            }
        }
        if forall|i: int| 0 <= i < tags.len() ==> !crate::strings::starts(#[trigger] tags[i], prefix) {
            assert forall|i: int| 0 <= i < head.len() implies !crate::strings::starts(
                #[trigger] head[i],
                prefix,
            ) by {
                assert(head[i] == tags[i]);
            }
            assert(!crate::strings::starts(tags[tags.len() - 1], prefix));
        }
        if next > 0 {
            if next == before && !(crate::release::tag_number(prefix, tags.last()) == Some(
                (next - 1) as nat,
            )) && !(crate::release::tag_number(prefix, tags.last()) == Some(u64::MAX as nat)) {
                let i = choose|i: int|
                    0 <= i < head.len() && (#[trigger] crate::release::tag_number(prefix, head[i])
                        == Some((before - 1) as nat) || crate::release::tag_number(prefix, head[i])
                        == Some(u64::MAX as nat));
                assert(tags[i] == head[i]);
                assert(crate::release::tag_number(prefix, tags[i]) == Some((next - 1) as nat)
                    || crate::release::tag_number(prefix, tags[i]) == Some(u64::MAX as nat));
            } else {
                let i = tags.len() - 1;
                assert(crate::release::tag_number(prefix, tags[i]) == Some((next - 1) as nat)
                    || crate::release::tag_number(prefix, tags[i]) == Some(u64::MAX as nat));
            }
        }
    }
}

/// The tag that is pushed stands on no line of the listing that was read just before, until the numbers
/// are used up; it goes to the remote under its own name, and it names the current commit.
pub proof fn law_pushed_tag_stands_on_no_line(
    run: ReleaseRun,
    output: CommandOutput,
    next: ReleaseRun,
    doing: Doing,
    i: int,
    n: nat,
)
    requires
        run.stage is List,
        crate::release::release_step(run, output, next, doing),
        next.stage is Push,
        n < u64::MAX,
        next.tag@ == run.prefix@ + crate::strings::decimal(n),
    ensures
        doing == Doing::Run(seq!["push"@, run.remote@, "HEAD:refs/tags/"@ + next.tag@]),
        0 <= i < crate::strings::lines(output.stdout@).len() ==> !names_tag(
            crate::strings::lines(output.stdout@)[i],
            next.tag@,
        ),
{
    let lines = crate::strings::lines(output.stdout@);
    let tags = crate::release::tags_in(run.prefix@, lines);
    if 0 <= i < lines.len() && names_tag(lines[i], next.tag@) {
        law_every_tag_is_read(run.prefix@, lines, i, n);
        lemma_plain_digits(run.prefix@, n);
        let m = choose|m: nat|
            crate::release::is_next_number(run.prefix@, tags.dom(), m) && next.tag@ == run.prefix@
                + #[trigger] crate::strings::decimal(m);
        crate::release::lemma_decimal_roundtrip(n);
        crate::release::lemma_decimal_roundtrip(m);
        assert(next.tag@.skip(run.prefix@.len() as int) =~= crate::strings::decimal(m));
        assert(next.tag@.skip(run.prefix@.len() as int) =~= crate::strings::decimal(n));
        assert(m == n);
        assert(tags.dom().contains(next.tag@));
    }
}

/// A commit that one of the tags names already gets no second one.
#[verifier::spinoff_prover]
#[verifier::rlimit(60)]
pub proof fn law_tagged_commit_is_left_alone(
    run: ReleaseRun,
    output: CommandOutput,
    next: ReleaseRun,
    doing: Doing,
    n: nat,
)
    requires
        run.stage is List,
        output.ok(),
        n <= u64::MAX,
        crate::strings::words(crate::strings::lines(output.stdout@)[0]) == seq![
            run.head@,
            "refs/tags/"@ + (run.prefix@ + crate::strings::decimal(n)),
        ],
        crate::strings::lines(output.stdout@).len() == 1,
        crate::release::release_step(run, output, next, doing),
    ensures
        doing == Doing::Done(None),
{
    let lines = crate::strings::lines(output.stdout@);
    let tag = run.prefix@ + crate::strings::decimal(n);
    let tags = crate::release::tags_in(run.prefix@, lines);
    law_every_tag_is_read(run.prefix@, lines, 0, n);
    law_every_read_tag_is_listed(run.prefix@, lines, tag);
    assert(tags.dom().contains(tag) && tags[tag] == run.head@);
}

} // verus!
