//! Shortening of texts to a number of bytes.
use crate::strings::{byte_len, char_is_control, from_range, owned, to_chars, trim};
use vstd::prelude::*;

verus! {

/// The longest prefix of `s` whose UTF-8 encoding has at most `max` bytes.
pub open spec fn truncated(s: Seq<char>, max: nat) -> Seq<char>
    decreases s.len(),
{
    if s.len() == 0 || crate::strings::byte_count(s) <= max {
        s
    } else {
        truncated(s.drop_last(), max)
    }
}

/// The number of bytes of the UTF-8 encoding of a character.
pub open spec fn char_width(c: char) -> nat {
    if (c as u32) < 0x80 {
        1
    } else if (c as u32) < 0x800 {
        2
    } else if (c as u32) < 0x10000 {
        3
    } else {
        4
    }
}

pub proof fn lemma_encode_add(a: Seq<char>, b: Seq<char>)
    ensures
        vstd::utf8::encode_utf8(a + b) == vstd::utf8::encode_utf8(a) + vstd::utf8::encode_utf8(b),
    decreases a.len(),
{
    if a.len() == 0 {
        assert(a + b =~= b);
        assert(vstd::utf8::encode_utf8(a + b) =~= vstd::utf8::encode_utf8(a)
            + vstd::utf8::encode_utf8(b));
    } else {
        assert((a + b).drop_first() =~= a.drop_first() + b);
        lemma_encode_add(a.drop_first(), b);
        assert(vstd::utf8::encode_utf8(a + b) =~= vstd::utf8::encode_utf8(a)
            + vstd::utf8::encode_utf8(b));
    }
}

pub proof fn lemma_byte_count_push(s: Seq<char>, c: char)
    ensures
        crate::strings::byte_count(s.push(c)) == crate::strings::byte_count(s) + char_width(c),
{
    let one = seq![c];
    lemma_encode_add(s, one);
    assert(s + one =~= s.push(c));
    vstd::utf8::char_is_scalar(c);
    assert(one.drop_first() =~= Seq::<char>::empty());
    assert(vstd::utf8::encode_utf8(one.drop_first()) =~= Seq::<u8>::empty());
    assert(vstd::utf8::encode_utf8(one) =~= vstd::utf8::encode_scalar(c as u32));
}

/// A prefix of a text has no more bytes than the text.
pub proof fn lemma_prefix_bytes(s: Seq<char>, i: int)
    requires
        0 <= i <= s.len(),
    ensures
        crate::strings::byte_count(s.take(i)) <= crate::strings::byte_count(s),
        i < s.len() ==> crate::strings::byte_count(s.take(i)) < crate::strings::byte_count(s),
    decreases s.len() - i,
{
    if i < s.len() {
        lemma_prefix_bytes(s, i + 1);
        lemma_byte_count_push(s.take(i), s[i]);
        assert(s.take(i).push(s[i]) =~= s.take(i + 1));
    } else {
        assert(s.take(i) =~= s);
    }
}

/// A prefix that fits, and to which the next character cannot be added, is the longest one.
pub proof fn lemma_truncated_at(s: Seq<char>, i: int, max: nat)
    requires
        0 <= i <= s.len(),
        crate::strings::byte_count(s.take(i)) <= max,
        i < s.len() ==> crate::strings::byte_count(s.take(i + 1)) > max,
    ensures
        truncated(s, max) == s.take(i),
    decreases s.len(),
{
    if i == s.len() {
        assert(s.take(i) =~= s);
    } else {
        lemma_prefix_bytes(s, i + 1);
        assert(s.drop_last().take(i) =~= s.take(i));
        if i < s.drop_last().len() {
            assert(s.drop_last().take(i + 1) =~= s.take(i + 1));
        }
        lemma_truncated_at(s.drop_last(), i, max);
    }
}

fn width(c: char) -> (r: usize)
    ensures
        r == char_width(c),
{
    let n: u32 = c as u32;
    if n < 0x80 {
        1
    } else if n < 0x800 {
        2
    } else if n < 0x10000 {
        3
    } else {
        4
    }
}

/// Shortens a text to the longest prefix of at most `max_bytes` bytes.
pub fn truncate_to_char_boundary(text: &mut String, max_bytes: usize)
    ensures
        final(text)@ == truncated(old(text)@, max_bytes as nat),
{
    let v = to_chars(text.as_str());
    let mut used: usize = 0;
    let mut i: usize = 0;
    assert(v@.take(0) =~= Seq::empty());
    while i < v.len()
        invariant
            i <= v@.len(),
            v@ == text@,
            text@ == old(text)@,
            used == crate::strings::byte_count(v@.take(i as int)),
            used <= max_bytes,
        decreases v@.len() - i,
    {
        let w: usize = width(v[i]);
        proof {
            lemma_byte_count_push(v@.take(i as int), v@[i as int]);
            assert(v@.take(i as int).push(v@[i as int]) =~= v@.take(i + 1));
        }
        if w > max_bytes - used {
            proof {
                lemma_truncated_at(v@, i as int, max_bytes as nat);
                assert(v@.subrange(0, i as int) =~= v@.take(i as int));
            }
            *text = from_range(&v, 0, i);
            return;
        }
        used += w;
        i += 1;
    }
    proof {
        lemma_truncated_at(v@, v@.len() as int, max_bytes as nat);
        assert(v@.take(v@.len() as int) =~= v@);
    }
}

/// What is kept of a text is a prefix of it, fits in the limit, and is all of a text that fits.
pub proof fn law_truncated_fits(s: Seq<char>, max: nat)
    ensures
        truncated(s, max).is_prefix_of(s),
        crate::strings::byte_count(truncated(s, max)) <= max,
        crate::strings::byte_count(s) <= max ==> truncated(s, max) == s,
        forall|i: int|
            truncated(s, max).len() < i <= s.len() ==> crate::strings::byte_count(#[trigger] s.take(i))
                > max,
    decreases s.len(),
{
    if s.len() == 0 {
    } else if crate::strings::byte_count(s) > max {
        let head = s.drop_last();
        law_truncated_fits(head, max);
        assert forall|i: int| truncated(s, max).len() < i <= s.len() implies crate::strings::byte_count(
            #[trigger] s.take(i),
        ) > max by {
            if i < s.len() {
                assert(head.take(i) =~= s.take(i));
            } else {
                assert(s.take(i) =~= s);
            }
        }
    }
}

/// Shortening twice is shortening once.
pub proof fn law_truncate_idempotent(s: Seq<char>, max: nat)
    ensures
        truncated(truncated(s, max), max) == truncated(s, max),
{
    law_truncated_fits(s, max);
}

/// Some prefix of `s` has exactly `n` bytes.
pub open spec fn has_prefix_of(s: Seq<char>, n: nat) -> bool {
    crate::strings::byte_count(truncated(s, n)) == n
}

/// Whether some prefix of `s` has exactly `n` bytes.
pub fn can_cut_at(s: &str, n: usize) -> (r: bool)
    ensures
        r == has_prefix_of(s@, n as nat),
{
    let mut head = crate::strings::owned(s);
    truncate_to_char_boundary(&mut head, n);
    crate::strings::byte_len(head.as_str()) == n
}

/// The first `n` bytes of `s`.
pub fn cut_at(s: &str, n: usize) -> (r: String)
    ensures
        r@ == truncated(s@, n as nat),
{
    let mut head = crate::strings::owned(s);
    truncate_to_char_boundary(&mut head, n);
    head
}

proof fn lemma_ascii_bytes(s: Seq<char>)
    requires
        forall|i: int| 0 <= i < s.len() ==> (#[trigger] s[i] as u32) < 0x80,
    ensures
        crate::strings::byte_count(s) == s.len(),
    decreases s.len(),
{
    if s.len() > 0 {
        let head = s.drop_last();
        assert forall|i: int| 0 <= i < head.len() implies (#[trigger] head[i] as u32) < 0x80 by {
            assert(head[i] == s[i]);
        }
        lemma_ascii_bytes(head);
        lemma_byte_count_push(head, s.last());
        assert(head.push(s.last()) =~= s);
    }
}

/// An ASCII text can be cut at any place.
pub proof fn lemma_ascii_cut(s: Seq<char>, n: nat)
    requires
        forall|i: int| 0 <= i < s.len() ==> (#[trigger] s[i] as u32) < 0x80,
        n <= s.len(),
    ensures
        has_prefix_of(s, n),
        truncated(s, n) == s.take(n as int),
{
    let head = s.take(n as int);
    assert forall|i: int| 0 <= i < head.len() implies (#[trigger] head[i] as u32) < 0x80 by {
        assert(head[i] == s[i]);
    }
    lemma_ascii_bytes(head);
    if n < s.len() {
        let more = s.take(n as int + 1);
        assert forall|i: int| 0 <= i < more.len() implies (#[trigger] more[i] as u32) < 0x80 by {
            assert(more[i] == s[i]);
        }
        lemma_ascii_bytes(more);
    }
    lemma_truncated_at(s, n as int, n);
}

/// Only the empty text has no bytes.
pub proof fn lemma_no_bytes(s: Seq<char>)
    ensures
        crate::strings::byte_count(s) == 0 <==> s.len() == 0,
{
    if s.len() > 0 {
        lemma_byte_count_push(s.drop_last(), s.last());
        assert(s.drop_last().push(s.last()) =~= s);
    } else {
        assert(s =~= Seq::empty());
    }
}

/// Whether the text holds nothing but white space.
pub fn is_blank(s: &str) -> (r: bool)
    ensures
        r == (crate::strings::trimmed(s@).len() == 0),
{
    let text = trim(s);
    proof {
        lemma_no_bytes(text@);
    }
    byte_len(text.as_str()) == 0
}

/// `s` without its control characters, except for those that stand in `keep`.
pub open spec fn shown(s: Seq<char>, keep: Seq<char>) -> Seq<char>
    decreases s.len(),
{
    if s.len() == 0 {
        Seq::empty()
    } else {
        let rest = shown(s.drop_last(), keep);
        if !crate::strings::is_control(s.last()) || keep.contains(s.last()) {
            rest.push(s.last())
        } else {
            rest
        }
    }
}

fn holds_char(v: &Vec<char>, c: char) -> (r: bool)
    ensures
        r == v@.contains(c),
{
    let mut i: usize = 0;
    while i < v.len()
        invariant
            i <= v@.len(),
            forall|k: int| 0 <= k < i ==> #[trigger] v@[k] != c,
        decreases v@.len() - i,
    {
        if v[i] == c {
            assert(v@[i as int] == c);
            return true;
        }
        i += 1;
    }
    false
}

/// A text without its control characters, except for those that stand in `keep`.
pub fn drop_controls(s: &str, keep: &str) -> (r: String)
    ensures
        r@ == shown(s@, keep@),
{
    let v = to_chars(s);
    let kept = to_chars(keep);
    let mut out: String = String::new();
    let mut i: usize = 0;
    assert(v@.take(0) =~= Seq::<char>::empty());
    while i < v.len()
        invariant
            i <= v@.len(),
            v@ == s@,
            kept@ == keep@,
            out@ == shown(v@.take(i as int), keep@),
        decreases v@.len() - i,
    {
        let c: char = v[i];
        assert(v@.take(i + 1).drop_last() =~= v@.take(i as int));
        if !char_is_control(c) || holds_char(&kept, c) {
            out.push(c);
        }
        i += 1;
    }
    assert(v@.take(v@.len() as int) =~= v@);
    out
}

/// The first `n` characters of a text, or all of a shorter one.
pub open spec fn first_chars(s: Seq<char>, n: nat) -> Seq<char> {
    if s.len() <= n {
        s
    } else {
        s.take(n as int)
    }
}

/// The first `n` characters of a text.
pub fn take_chars(s: &str, n: usize) -> (r: String)
    ensures
        r@ == first_chars(s@, n as nat),
{
    let v = to_chars(s);
    if v.len() <= n {
        owned(s)
    } else {
        assert(v@.subrange(0, n as int) =~= v@.take(n as int));
        from_range(&v, 0, n)
    }
}

} // verus!
