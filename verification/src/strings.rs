//! Operations on strings, stated over their sequences of characters.
use vstd::prelude::*;

verus! {

/// `String::push` appends one character at the end.
pub assume_specification[ String::push ](s: &mut String, c: char)
    ensures
        final(s)@ == old(s)@.push(c),
;

/// The number of bytes of the UTF-8 encoding of `s`.
pub open spec fn byte_count(s: Seq<char>) -> nat {
    vstd::utf8::encode_utf8(s).len()
}

/// The contents of a list of strings.
pub open spec fn views(list: Seq<String>) -> Seq<Seq<char>> {
    Seq::new(list.len(), |i: int| list[i]@)
}

/// The contents of an optional string.
pub open spec fn opt_view(s: Option<String>) -> Option<Seq<char>> {
    match s {
        Some(s) => Some(s@),
        None => None,
    }
}

/// The contents of an optional string slice.
pub open spec fn opt_str(s: Option<&str>) -> Option<Seq<char>> {
    match s {
        Some(s) => Some(s@),
        None => None,
    }
}

/// The contents of a list of string slices.
pub open spec fn str_views(list: Seq<&str>) -> Seq<Seq<char>> {
    Seq::new(list.len(), |i: int| list[i]@)
}

/// `p` stands in `s` at position `i`.
pub open spec fn matches_at(s: Seq<char>, i: int, p: Seq<char>) -> bool {
    0 <= i && i + p.len() <= s.len() && s.subrange(i, i + p.len()) == p
}

/// `p` stands somewhere in `s`.
pub open spec fn occurs(s: Seq<char>, p: Seq<char>) -> bool {
    exists|i: int| matches_at(s, i, p)
}

/// The first position at or after `from` where `p` stands in `s`.
pub open spec fn find_from(s: Seq<char>, p: Seq<char>, from: int) -> Option<int>
    decreases s.len() - from + 1,
{
    if from < 0 || from + p.len() > s.len() {
        None
    } else if matches_at(s, from, p) {
        Some(from)
    } else {
        find_from(s, p, from + 1)
    }
}

/// `s` begins with `p`.
pub open spec fn starts(s: Seq<char>, p: Seq<char>) -> bool {
    matches_at(s, 0, p)
}

/// `s` ends with `p`.
pub open spec fn ends(s: Seq<char>, p: Seq<char>) -> bool {
    matches_at(s, s.len() - p.len(), p)
}

/// The characters that Unicode calls white space.
pub open spec fn is_space(c: char) -> bool {
    let n = c as int;
    (9 <= n <= 13) || n == 32 || n == 0x85 || n == 0xa0 || n == 0x1680 || (0x2000 <= n <= 0x200a)
        || n == 0x2028 || n == 0x2029 || n == 0x202f || n == 0x205f || n == 0x3000
}

/// The characters that Unicode calls control characters.
pub open spec fn is_control(c: char) -> bool {
    (c as int) < 32 || 127 <= c as int <= 159
}

pub open spec fn is_digit(c: char) -> bool {
    '0' <= c <= '9'
}

/// `s` without the white space at its front.
pub open spec fn trim_front(s: Seq<char>) -> Seq<char>
    decreases s.len(),
{
    if s.len() > 0 && is_space(s[0]) {
        trim_front(s.drop_first())
    } else {
        s
    }
}

/// `s` without the white space at its back.
pub open spec fn trim_back(s: Seq<char>) -> Seq<char>
    decreases s.len(),
{
    if s.len() > 0 && is_space(s.last()) {
        trim_back(s.drop_last())
    } else {
        s
    }
}

/// `s` without the white space at both ends.
pub open spec fn trimmed(s: Seq<char>) -> Seq<char> {
    trim_back(trim_front(s))
}

/// `s` without any `c` at its back.
pub open spec fn trim_back_char(s: Seq<char>, c: char) -> Seq<char>
    decreases s.len(),
{
    if s.len() > 0 && s.last() == c {
        trim_back_char(s.drop_last(), c)
    } else {
        s
    }
}

/// `s` without any copy of the non-empty `p` at its back.
pub open spec fn trim_back_str(s: Seq<char>, p: Seq<char>) -> Seq<char>
    decreases s.len(),
{
    if p.len() > 0 && ends(s, p) {
        trim_back_str(s.take(s.len() - p.len()), p)
    } else {
        s
    }
}

/// The pieces of `s` between the separators `c`.
pub open spec fn split(s: Seq<char>, c: char) -> Seq<Seq<char>>
    decreases s.len(),
{
    if s.len() == 0 {
        seq![Seq::empty()]
    } else {
        let rest = split(s.drop_last(), c);
        if s.last() == c {
            rest.push(Seq::empty())
        } else {
            rest.update(rest.len() - 1, rest.last().push(s.last()))
        }
    }
}

/// The lines of `s`, each with its line feed.
pub open spec fn inclusive(s: Seq<char>) -> Seq<Seq<char>>
    decreases s.len(),
{
    if s.len() == 0 {
        Seq::empty()
    } else {
        let rest = inclusive(s.drop_last());
        if s.len() == 1 || s[s.len() - 2] == '\n' {
            rest.push(seq![s.last()])
        } else {
            rest.update(rest.len() - 1, rest.last().push(s.last()))
        }
    }
}

/// `s` without one carriage return at its back.
pub open spec fn strip_cr(s: Seq<char>) -> Seq<char> {
    if s.len() > 0 && s.last() == '\r' {
        s.drop_last()
    } else {
        s
    }
}

/// The lines of `s`: the terminators are dropped, and so is an empty piece after the last one.
pub open spec fn lines(s: Seq<char>) -> Seq<Seq<char>> {
    let pieces = split(s, '\n');
    let full = Seq::new((pieces.len() - 1) as nat, |i: int| strip_cr(pieces[i]));
    if pieces.last().len() == 0 {
        full
    } else {
        full.push(pieces.last())
    }
}

/// The maximal runs of characters of `s` that are not white space.
pub open spec fn words(s: Seq<char>) -> Seq<Seq<char>>
    decreases s.len(),
{
    if s.len() == 0 {
        Seq::empty()
    } else {
        let rest = words(s.drop_last());
        if is_space(s.last()) {
            rest
        } else if s.len() >= 2 && !is_space(s[s.len() - 2]) {
            rest.update(rest.len() - 1, rest.last().push(s.last()))
        } else {
            rest.push(seq![s.last()])
        }
    }
}

/// `parts` one after the other with `sep` between neighbours.
pub open spec fn join(parts: Seq<Seq<char>>, sep: Seq<char>) -> Seq<char>
    decreases parts.len(),
{
    if parts.len() == 0 {
        Seq::empty()
    } else if parts.len() == 1 {
        parts[0]
    } else {
        join(parts.drop_last(), sep) + sep + parts.last()
    }
}

/// `parts` one after the other.
pub open spec fn concat(parts: Seq<Seq<char>>) -> Seq<char>
    decreases parts.len(),
{
    if parts.len() == 0 {
        Seq::empty()
    } else {
        concat(parts.drop_last()) + parts.last()
    }
}

/// `s` from position `i` on, every copy of the non-empty `p` (taken from the left, without overlap)
/// replaced by `r`.
pub open spec fn replaced_from(s: Seq<char>, p: Seq<char>, r: Seq<char>, i: int) -> Seq<char>
    decreases s.len() - i,
{
    if i < 0 || i >= s.len() || p.len() == 0 {
        Seq::empty()
    } else if matches_at(s, i, p) {
        r + replaced_from(s, p, r, i + p.len())
    } else {
        seq![s[i]] + replaced_from(s, p, r, i + 1)
    }
}

/// `s` with every copy of the non-empty `p` replaced by `r`.
pub open spec fn replaced(s: Seq<char>, p: Seq<char>, r: Seq<char>) -> Seq<char> {
    replaced_from(s, p, r, 0)
}

/// The lower case of an ASCII letter, and every other character itself.
pub open spec fn lower_char(c: char) -> char {
    if 'A' <= c <= 'Z' {
        ((c as u8 + 32) as u8) as char
    } else {
        c
    }
}

pub open spec fn lower(s: Seq<char>) -> Seq<char> {
    Seq::new(s.len(), |i: int| lower_char(s[i]))
}

/// `a` and `b` differ at most in the case of ASCII letters.
pub open spec fn same_ignoring_case(a: Seq<char>, b: Seq<char>) -> bool {
    lower(a) == lower(b)
}

pub open spec fn digit_char(d: int) -> char {
    if d == 0 {
        '0'
    } else if d == 1 {
        '1'
    } else if d == 2 {
        '2'
    } else if d == 3 {
        '3'
    } else if d == 4 {
        '4'
    } else if d == 5 {
        '5'
    } else if d == 6 {
        '6'
    } else if d == 7 {
        '7'
    } else if d == 8 {
        '8'
    } else {
        '9'
    }
}

/// The decimal digits of `n`.
pub open spec fn decimal(n: nat) -> Seq<char>
    decreases n,
{
    if n < 10 {
        seq![digit_char(n as int)]
    } else {
        decimal(n / 10).push(digit_char((n % 10) as int))
    }
}

/// The decimal digits of `n`, behind a minus sign where it is negative.
pub open spec fn decimal_int(n: int) -> Seq<char> {
    if n < 0 {
        seq!['-'] + decimal((-n) as nat)
    } else {
        decimal(n as nat)
    }
}

/// Every character of `s` is a decimal digit.
pub open spec fn all_digits(s: Seq<char>) -> bool {
    forall|i: int| 0 <= i < s.len() ==> is_digit(s[i])
}

/// The number that the decimal digits `s` spell.
pub open spec fn decimal_value(s: Seq<char>) -> nat
    decreases s.len(),
{
    if s.len() == 0 {
        0
    } else {
        (decimal_value(s.drop_last()) * 10 + (s.last() as int - '0' as int)) as nat
    }
}

/// The number that `s` spells: one or more decimal digits, behind an optional plus sign.
pub open spec fn parsed(s: Seq<char>) -> Option<nat> {
    let digits = if s.len() > 0 && s[0] == '+' {
        s.drop_first()
    } else {
        s
    };
    if digits.len() > 0 && all_digits(digits) {
        Some(decimal_value(digits))
    } else {
        None
    }
}

/// The characters of a string, in order.
pub fn to_chars(s: &str) -> (r: Vec<char>)
    ensures
        r@ == s@,
{
    let mut v: Vec<char> = Vec::new();
    for c in it: s.chars()
        invariant
            v@ == it.seq().take(it.index() as int),
            it.seq() == s@,
    {
        v.push(c);
    }
    v
}

/// The string made of the characters of `v` from `from` up to `to`.
pub fn from_range(v: &Vec<char>, from: usize, to: usize) -> (r: String)
    requires
        from <= to <= v@.len(),
    ensures
        r@ == v@.subrange(from as int, to as int),
{
    let mut s: String = String::new();
    let mut i: usize = from;
    while i < to
        invariant
            from <= i <= to <= v@.len(),
            s@ == v@.subrange(from as int, i as int),
        decreases to - i,
    {
        s.push(v[i]);
        i += 1;
    }
    s
}

/// The string made of the characters of `v`.
pub fn from_chars(v: &Vec<char>) -> (r: String)
    ensures
        r@ == v@,
{
    let r = from_range(v, 0, v.len());
    assert(v@.subrange(0, v@.len() as int) == v@);
    r
}

/// An owned copy of a string.
pub fn owned(s: &str) -> (r: String)
    ensures
        r@ == s@,
{
    String::from_str(s)
}

/// The two strings hold the same characters.
pub fn same(a: &str, b: &str) -> (r: bool)
    ensures
        r == (a@ == b@),
{
    owned(a) == owned(b)
}

/// The number of bytes of the UTF-8 encoding.
pub fn byte_len(s: &str) -> (r: usize)
    ensures
        r == byte_count(s@),
{
    s.as_bytes().len()
}

/// Whether `p` stands in `s` at position `i`.
pub fn chars_match_at(s: &Vec<char>, i: usize, p: &Vec<char>) -> (r: bool)
    ensures
        r == matches_at(s@, i as int, p@),
{
    if i > s.len() || p.len() > s.len() - i {
        return false;
    }
    let mut j: usize = 0;
    let end: usize = s.len();
    while j < p.len()
        invariant
            i + p@.len() <= s@.len(),
            end == s@.len(),
            j <= p@.len(),
            forall|k: int| 0 <= k < j ==> s@[i + k] == p@[k],
        decreases p@.len() - j,
    {
        if s[i + j] != p[j] {
            assert(s@.subrange(i as int, i + p@.len())[j as int] != p@[j as int]);
            return false;
        }
        j += 1;
    }
    assert(s@.subrange(i as int, i + p@.len()) =~= p@);
    true
}

/// A match at or after `from` is what `find_from` finds.
pub proof fn lemma_find_from(s: Seq<char>, p: Seq<char>, from: int)
    requires
        0 <= from,
    ensures
        match find_from(s, p, from) {
            Some(at) => from <= at && matches_at(s, at, p) && forall|k: int|
                from <= k < at ==> !#[trigger] matches_at(s, k, p),
            None => forall|k: int| from <= k ==> !#[trigger] matches_at(s, k, p),
        },
    decreases s.len() - from + 1,
{
    if from + p.len() <= s.len() && !matches_at(s, from, p) {
        lemma_find_from(s, p, from + 1);
    }
}

/// The first position at or after `from` where `p` stands in `s`.
pub fn chars_find_from(s: &Vec<char>, p: &Vec<char>, from: usize) -> (r: Option<usize>)
    ensures
        match r {
            Some(at) => find_from(s@, p@, from as int) == Some(at as int) && at + p@.len() <= s@.len(),
            None => find_from(s@, p@, from as int) is None,
        },
{
    let mut i: usize = from;
    if p.len() > s.len() {
        return None;
    }
    let last: usize = s.len() - p.len();
    while i <= last
        invariant
            from <= i,
            last == s@.len() - p@.len(),
            find_from(s@, p@, from as int) == find_from(s@, p@, i as int),
        decreases last + 1 - i,
    {
        if chars_match_at(s, i, p) {
            return Some(i);
        }
        if i == last {
            assert(find_from(s@, p@, i + 1) is None);
            return None;
        }
        i += 1;
    }
    None
}

/// Whether `p` stands somewhere in `s`.
pub fn contains(s: &str, p: &str) -> (r: bool)
    ensures
        r == occurs(s@, p@),
{
    let found = chars_find_from(&to_chars(s), &to_chars(p), 0);
    proof {
        lemma_find_from(s@, p@, 0);
        if let Some(at) = find_from(s@, p@, 0) {
            assert(matches_at(s@, at, p@));
        }
    }
    found.is_some()
}

/// Whether `s` is one of the strings of `list`.
pub fn is_in(s: &str, list: &Vec<String>) -> (r: bool)
    ensures
        r == views(list@).contains(s@),
{
    let mut i: usize = 0;
    while i < list.len()
        invariant
            i <= list@.len(),
            forall|k: int| 0 <= k < i ==> #[trigger] views(list@)[k] != s@,
        decreases list@.len() - i,
    {
        if same(s, list[i].as_str()) {
            assert(views(list@)[i as int] == s@);
            return true;
        }
        i += 1;
    }
    false
}

/// Whether `s` is one of the string slices of `list`.
pub fn is_one_of(s: &str, list: &[&str]) -> (r: bool)
    ensures
        r == str_views(list@).contains(s@),
{
    let mut i: usize = 0;
    while i < list.len()
        invariant
            i <= list@.len(),
            forall|k: int| 0 <= k < i ==> #[trigger] str_views(list@)[k] != s@,
        decreases list@.len() - i,
    {
        if same(s, list[i]) {
            assert(str_views(list@)[i as int] == s@);
            return true;
        }
        i += 1;
    }
    false
}

/// A copy of a list of strings.
pub fn copy_list(list: &Vec<String>) -> (r: Vec<String>)
    ensures
        views(r@) == views(list@),
        r@ == list@,
{
    let mut out: Vec<String> = Vec::new();
    let mut i: usize = 0;
    while i < list.len()
        invariant
            i <= list@.len(),
            out@ =~= list@.take(i as int),
        decreases list@.len() - i,
    {
        out.push(list[i].clone());
        i += 1;
    }
    assert(list@.take(list@.len() as int) =~= list@);
    out
}

/// A copy of an optional string.
pub fn copy_option(s: &Option<String>) -> (r: Option<String>)
    ensures
        r == *s,
{
    match s {
        Some(s) => Some(s.clone()),
        None => None,
    }
}

/// A list of the given strings, in order.
pub fn list_of(parts: &[&str]) -> (r: Vec<String>)
    ensures
        views(r@) == str_views(parts@),
{
    let mut out: Vec<String> = Vec::new();
    let mut i: usize = 0;
    while i < parts.len()
        invariant
            i <= parts@.len(),
            views(out@) =~= str_views(parts@).take(i as int),
        decreases parts@.len() - i,
    {
        let ghost before = out@;
        out.push(owned(parts[i]));
        assert(views(out@) =~= views(before).push(parts@[i as int]@));
        i += 1;
    }
    assert(views(out@) =~= str_views(parts@));
    out
}

/// Adds a copy of each string of `more` behind `list`.
pub fn extend_list(list: &mut Vec<String>, more: &Vec<String>)
    ensures
        views(final(list)@) == views(old(list)@) + views(more@),
{
    let ghost before = views(list@);
    let mut i: usize = 0;
    while i < more.len()
        invariant
            i <= more@.len(),
            views(list@) =~= before + views(more@).take(i as int),
        decreases more@.len() - i,
    {
        let ghost prior = list@;
        list.push(more[i].clone());
        assert(views(list@) =~= views(prior).push(more@[i as int]@));
        i += 1;
    }
    assert(views(more@).take(more@.len() as int) =~= views(more@));
}

/// Adds a string behind `list`.
pub fn push_string(list: &mut Vec<String>, s: String)
    ensures
        views(final(list)@) == views(old(list)@).push(s@),
{
    let ghost before = list@;
    list.push(s);
    assert(views(list@) =~= views(before).push(s@));
}

/// `true` or `false`.
pub open spec fn bool_text(b: bool) -> Seq<char> {
    if b {
        "true"@
    } else {
        "false"@
    }
}

pub fn bool_str(b: bool) -> (r: &'static str)
    ensures
        r@ == bool_text(b),
{
    if b {
        "true"
    } else {
        "false"
    }
}

/// Whether `s` begins with `p`.
pub fn starts_with(s: &str, p: &str) -> (r: bool)
    ensures
        r == starts(s@, p@),
{
    chars_match_at(&to_chars(s), 0, &to_chars(p))
}

/// Whether `s` ends with `p`.
pub fn ends_with(s: &str, p: &str) -> (r: bool)
    ensures
        r == ends(s@, p@),
{
    let s = to_chars(s);
    let p = to_chars(p);
    if p.len() > s.len() {
        false
    } else {
        chars_match_at(&s, s.len() - p.len(), &p)
    }
}

/// What follows `p` where `s` begins with it.
pub fn strip_prefix(s: &str, p: &str) -> (r: Option<String>)
    ensures
        match r {
            Some(rest) => s@ == p@ + rest@,
            None => !starts(s@, p@),
        },
{
    let s = to_chars(s);
    let p = to_chars(p);
    if chars_match_at(&s, 0, &p) {
        let rest = from_range(&s, p.len(), s.len());
        assert(s@ =~= s@.subrange(0, p@.len() as int) + s@.subrange(p@.len() as int, s@.len() as int));
        Some(rest)
    } else {
        None
    }
}

pub fn char_is_space(c: char) -> (r: bool)
    ensures
        r == is_space(c),
{
    let n: u32 = c as u32;
    (9 <= n && n <= 13) || n == 32 || n == 0x85 || n == 0xa0 || n == 0x1680 || (0x2000 <= n && n
        <= 0x200a) || n == 0x2028 || n == 0x2029 || n == 0x202f || n == 0x205f || n == 0x3000
}

pub fn char_is_control(c: char) -> (r: bool)
    ensures
        r == is_control(c),
{
    let n: u32 = c as u32;
    n < 32 || (127 <= n && n <= 159)
}

pub fn char_is_digit(c: char) -> (r: bool)
    ensures
        r == is_digit(c),
{
    '0' <= c && c <= '9'
}

/// `s` without the white space at both ends.
pub fn trim(s: &str) -> (r: String)
    ensures
        r@ == trimmed(s@),
{
    let v = to_chars(s);
    let mut from: usize = 0;
    let mut to: usize = v.len();
    assert(v@.subrange(0, v@.len() as int) =~= v@);
    while from < to && char_is_space(v[from])
        invariant
            from <= to == v@.len(),
            trim_front(v@) == trim_front(v@.subrange(from as int, to as int)),
        decreases to - from,
    {
        assert(v@.subrange(from as int, to as int).drop_first() =~= v@.subrange(from + 1, to as int));
        from += 1;
    }
    assert(trim_front(v@) == v@.subrange(from as int, to as int));
    while to > from && char_is_space(v[to - 1])
        invariant
            from <= to <= v@.len(),
            trimmed(v@) == trim_back(v@.subrange(from as int, to as int)),
        decreases to,
    {
        assert(v@.subrange(from as int, to as int).drop_last() =~= v@.subrange(from as int, to - 1));
        to -= 1;
    }
    from_range(&v, from, to)
}

/// `s` without the white space at its front.
pub fn trim_start(s: &str) -> (r: String)
    ensures
        r@ == trim_front(s@),
{
    let v = to_chars(s);
    let mut from: usize = 0;
    let to: usize = v.len();
    assert(v@.subrange(0, v@.len() as int) =~= v@);
    while from < to && char_is_space(v[from])
        invariant
            from <= to == v@.len(),
            trim_front(v@) == trim_front(v@.subrange(from as int, to as int)),
        decreases to - from,
    {
        assert(v@.subrange(from as int, to as int).drop_first() =~= v@.subrange(from + 1, to as int));
        from += 1;
    }
    from_range(&v, from, to)
}

/// `s` without the white space at its back.
pub fn trim_end(s: &str) -> (r: String)
    ensures
        r@ == trim_back(s@),
{
    let v = to_chars(s);
    let mut to: usize = v.len();
    assert(v@.subrange(0, v@.len() as int) =~= v@);
    while to > 0 && char_is_space(v[to - 1])
        invariant
            to <= v@.len(),
            trim_back(v@) == trim_back(v@.subrange(0, to as int)),
        decreases to,
    {
        assert(v@.subrange(0, to as int).drop_last() =~= v@.subrange(0, to - 1));
        to -= 1;
    }
    from_range(&v, 0, to)
}

/// `s` without any `c` at its back.
pub fn trim_end_char(s: &str, c: char) -> (r: String)
    ensures
        r@ == trim_back_char(s@, c),
{
    let v = to_chars(s);
    let mut to: usize = v.len();
    assert(v@.subrange(0, v@.len() as int) =~= v@);
    while to > 0 && v[to - 1] == c
        invariant
            to <= v@.len(),
            trim_back_char(v@, c) == trim_back_char(v@.subrange(0, to as int), c),
        decreases to,
    {
        assert(v@.subrange(0, to as int).drop_last() =~= v@.subrange(0, to - 1));
        to -= 1;
    }
    from_range(&v, 0, to)
}

/// `s` without any copy of the non-empty `p` at its back.
pub fn trim_end_str(s: &str, p: &str) -> (r: String)
    ensures
        r@ == trim_back_str(s@, p@),
{
    let v = to_chars(s);
    let p = to_chars(p);
    let mut to: usize = v.len();
    assert(v@.subrange(0, v@.len() as int) =~= v@);
    while p.len() > 0 && p.len() <= to && chars_match_at(&v, to - p.len(), &p)
        invariant
            to <= v@.len(),
            trim_back_str(v@, p@) == trim_back_str(v@.subrange(0, to as int), p@),
        decreases to,
    {
        let ghost head = v@.subrange(0, to as int);
        assert(head.subrange(to - p@.len(), to as int) =~= v@.subrange(to - p@.len(), to as int));
        assert(head.take(to - p@.len()) =~= v@.subrange(0, to - p@.len()));
        to -= p.len();
    }
    proof {
        let head = v@.subrange(0, to as int);
        if p@.len() > 0 && ends(head, p@) {
            assert(head.subrange(to - p@.len(), to as int) =~= v@.subrange(
                to - p@.len(),
                to as int,
            ));
        }
    }
    from_range(&v, 0, to)
}

/// The pieces of `s` between the separators `c`.
pub fn split_on(s: &str, c: char) -> (r: Vec<String>)
    ensures
        views(r@) == split(s@, c),
        r@.len() > 0,
{
    let v = to_chars(s);
    let mut parts: Vec<String> = Vec::new();
    let mut piece: String = String::new();
    let mut i: usize = 0;
    assert(v@.take(0) =~= Seq::empty());
    while i < v.len()
        invariant
            i <= v@.len(),
            split(v@.take(i as int), c) =~= views(parts@).push(piece@),
        decreases v@.len() - i,
    {
        assert(v@.take(i + 1).drop_last() =~= v@.take(i as int));
        if v[i] == c {
            let ghost before = parts@;
            parts.push(piece);
            assert(views(parts@) =~= views(before).push(piece@));
            piece = String::new();
        } else {
            piece.push(v[i]);
        }
        i += 1;
    }
    let ghost before = parts@;
    parts.push(piece);
    assert(views(parts@) =~= views(before).push(piece@));
    assert(v@.take(v@.len() as int) =~= v@);
    parts
}

proof fn lemma_inclusive_len(s: Seq<char>)
    ensures
        s.len() > 0 ==> inclusive(s).len() > 0,
    decreases s.len(),
{
    if s.len() > 1 {
        lemma_inclusive_len(s.drop_last());
    }
}

/// The lines of a text make it up.
pub proof fn lemma_inclusive_concat(s: Seq<char>)
    ensures
        concat(inclusive(s)) == s,
    decreases s.len(),
{
    if s.len() > 0 {
        let head = s.drop_last();
        let rest = inclusive(head);
        lemma_inclusive_concat(head);
        if s.len() == 1 || s[s.len() - 2] == '\n' {
            assert(inclusive(s).drop_last() =~= rest);
            assert(concat(inclusive(s)) =~= head + seq![s.last()]);
        } else {
            lemma_inclusive_len(head);
            assert(inclusive(s).drop_last() =~= rest.drop_last());
            assert(concat(inclusive(s)) =~= concat(rest).push(s.last()));
        }
        assert(s =~= head.push(s.last()));
    }
}

/// The lines of `s`, each with its line feed.
pub fn split_inclusive(s: &str) -> (r: Vec<String>)
    ensures
        views(r@) == inclusive(s@),
{
    let v = to_chars(s);
    let mut parts: Vec<String> = Vec::new();
    let mut line: String = String::new();
    let mut i: usize = 0;
    assert(v@.take(0) =~= Seq::empty());
    while i < v.len()
        invariant
            i <= v@.len(),
            line@.len() == 0 <==> (i == 0 || v@[i - 1] == '\n'),
            inclusive(v@.take(i as int)) =~= if line@.len() == 0 {
                views(parts@)
            } else {
                views(parts@).push(line@)
            },
        decreases v@.len() - i,
    {
        assert(v@.take(i + 1).drop_last() =~= v@.take(i as int));
        let ghost before_line = line@;
        line.push(v[i]);
        assert(before_line.len() == 0 ==> line@ =~= seq![v@[i as int]]);
        assert(inclusive(v@.take(i + 1)) =~= views(parts@).push(line@));
        if v[i] == '\n' {
            let ghost before = parts@;
            parts.push(line);
            assert(views(parts@) =~= views(before).push(line@));
            line = String::new();
        }
        i += 1;
    }
    assert(v@.take(v@.len() as int) =~= v@);
    if !line.as_str().is_empty() {
        let ghost before = parts@;
        parts.push(line);
        assert(views(parts@) =~= views(before).push(line@));
    }
    parts
}

/// The strings of `parts` from `from` up to `to`, one after the other.
pub fn concat_range(parts: &Vec<String>, from: usize, to: usize) -> (r: String)
    requires
        from <= to <= parts@.len(),
    ensures
        r@ == concat(views(parts@).subrange(from as int, to as int)),
{
    let mut s: String = String::new();
    let mut i: usize = from;
    let ghost all = views(parts@);
    while i < to
        invariant
            from <= i <= to <= parts@.len(),
            all == views(parts@),
            s@ == concat(all.subrange(from as int, i as int)),
        decreases to - i,
    {
        s.append(parts[i].as_str());
        assert(all.subrange(from as int, i + 1).drop_last() =~= all.subrange(from as int, i as int));
        i += 1;
    }
    s
}

pub proof fn lemma_concat_add(a: Seq<Seq<char>>, b: Seq<Seq<char>>)
    ensures
        concat(a + b) == concat(a) + concat(b),
    decreases b.len(),
{
    if b.len() == 0 {
        assert(a + b =~= a);
    } else {
        lemma_concat_add(a, b.drop_last());
        assert((a + b).drop_last() =~= a + b.drop_last());
        assert(concat(a + b) =~= concat(a) + concat(b));
    }
}

/// The lines of `s`.
pub fn split_lines(s: &str) -> (r: Vec<String>)
    ensures
        views(r@) == lines(s@),
{
    let parts = split_on(s, '\n');
    let ghost pieces = split(s@, '\n');
    let mut out: Vec<String> = Vec::new();
    let mut i: usize = 0;
    let last_index: usize = parts.len() - 1;
    while i < last_index
        invariant
            last_index == parts@.len() - 1,
            i <= parts@.len() - 1,
            views(parts@) == pieces,
            views(out@) =~= Seq::new(i as nat, |k: int| strip_cr(pieces[k])),
        decreases parts@.len() - i,
    {
        let v = to_chars(parts[i].as_str());
        assert(v@ == pieces[i as int]);
        let ghost before = out@;
        if v.len() > 0 && v[v.len() - 1] == '\r' {
            out.push(from_range(&v, 0, v.len() - 1));
            assert(v@.subrange(0, v@.len() - 1) =~= v@.drop_last());
        } else {
            out.push(from_chars(&v));
        }
        assert(views(out@) =~= views(before).push(strip_cr(pieces[i as int])));
        i += 1;
    }
    let last = parts[last_index].clone();
    assert(last@ == pieces.last());
    if !last.as_str().is_empty() {
        let ghost before = out@;
        out.push(last);
        assert(views(out@) =~= views(before).push(pieces.last()));
    }
    out
}

/// The maximal runs of characters of `s` that are not white space.
pub fn split_words(s: &str) -> (r: Vec<String>)
    ensures
        views(r@) == words(s@),
{
    let v = to_chars(s);
    let mut parts: Vec<String> = Vec::new();
    let mut word: String = String::new();
    let mut open: bool = false;
    let mut i: usize = 0;
    assert(v@.take(0) =~= Seq::empty());
    while i < v.len()
        invariant
            i <= v@.len(),
            open == (i > 0 && !is_space(v@[i - 1])),
            words(v@.take(i as int)) =~= if open {
                views(parts@).push(word@)
            } else {
                views(parts@)
            },
            !open ==> word@.len() == 0,
        decreases v@.len() - i,
    {
        assert(v@.take(i + 1).drop_last() =~= v@.take(i as int));
        if char_is_space(v[i]) {
            if open {
                let ghost before = parts@;
                parts.push(word);
                assert(views(parts@) =~= views(before).push(word@));
                word = String::new();
                open = false;
            }
        } else {
            let ghost before = word@;
            word.push(v[i]);
            assert(!open ==> word@ =~= seq![v@[i as int]]);
            open = true;
        }
        i += 1;
    }
    assert(v@.take(v@.len() as int) =~= v@);
    if open {
        let ghost before = parts@;
        parts.push(word);
        assert(views(parts@) =~= views(before).push(word@));
    }
    parts
}

/// `parts` one after the other with `sep` between neighbours.
pub fn join_with(parts: &Vec<String>, sep: &str) -> (r: String)
    ensures
        r@ == join(views(parts@), sep@),
{
    let mut s: String = String::new();
    let mut i: usize = 0;
    assert(views(parts@).take(0) =~= Seq::empty());
    while i < parts.len()
        invariant
            i <= parts@.len(),
            s@ == join(views(parts@).take(i as int), sep@),
        decreases parts@.len() - i,
    {
        let ghost next = views(parts@).take(i + 1);
        assert(next.drop_last() =~= views(parts@).take(i as int));
        assert(next.last() == parts@[i as int]@);
        if i > 0 {
            s.append(sep);
        }
        s.append(parts[i].as_str());
        assert(s@ =~= join(next, sep@)) by {
            if i == 0 {
                assert(join(next, sep@) == next[0]);
            }
        }
        i += 1;
    }
    assert(views(parts@).take(parts@.len() as int) =~= views(parts@));
    s
}

/// `s` with every copy of the non-empty `p` replaced by `r`.
pub fn replace(s: &str, p: &str, r: &str) -> (out: String)
    requires
        p@.len() > 0,
    ensures
        out@ == replaced(s@, p@, r@),
{
    let v = to_chars(s);
    let pat = to_chars(p);
    let mut out: String = String::new();
    let mut i: usize = 0;
    while i < v.len()
        invariant
            i <= v@.len(),
            v@ == s@,
            pat@ == p@,
            p@.len() > 0,
            replaced(s@, p@, r@) == out@ + replaced_from(s@, p@, r@, i as int),
        decreases v@.len() - i,
    {
        let ghost before = out@;
        if chars_match_at(&v, i, &pat) {
            out.append(r);
            assert(before + (r@ + replaced_from(s@, p@, r@, i + p@.len())) =~= out@ + replaced_from(
                s@,
                p@,
                r@,
                i + p@.len(),
            ));
            i += pat.len();
        } else {
            out.push(v[i]);
            assert(before + (seq![v@[i as int]] + replaced_from(s@, p@, r@, i + 1)) =~= out@
                + replaced_from(s@, p@, r@, i + 1));
            i += 1;
        }
    }
    assert(out@ + Seq::<char>::empty() =~= out@);
    out
}

pub fn char_lower(c: char) -> (r: char)
    ensures
        r == lower_char(c),
{
    if 'A' <= c && c <= 'Z' {
        let n: u8 = c as u8;
        (n + 32) as char
    } else {
        c
    }
}

/// `s` with its ASCII letters in lower case.
pub fn to_lower(s: &str) -> (r: String)
    ensures
        r@ == lower(s@),
{
    let v = to_chars(s);
    let mut out: String = String::new();
    let mut i: usize = 0;
    while i < v.len()
        invariant
            i <= v@.len(),
            out@ =~= lower(v@).take(i as int),
        decreases v@.len() - i,
    {
        out.push(char_lower(v[i]));
        i += 1;
    }
    assert(lower(v@).take(v@.len() as int) =~= lower(v@));
    out
}

/// Whether `a` and `b` differ at most in the case of ASCII letters.
pub fn eq_ignore_case(a: &str, b: &str) -> (r: bool)
    ensures
        r == same_ignoring_case(a@, b@),
{
    to_lower(a) == to_lower(b)
}

pub fn digit_of(d: u64) -> (c: char)
    requires
        d < 10,
    ensures
        c == digit_char(d as int),
{
    if d == 0 {
        '0'
    } else if d == 1 {
        '1'
    } else if d == 2 {
        '2'
    } else if d == 3 {
        '3'
    } else if d == 4 {
        '4'
    } else if d == 5 {
        '5'
    } else if d == 6 {
        '6'
    } else if d == 7 {
        '7'
    } else if d == 8 {
        '8'
    } else {
        '9'
    }
}

/// The decimal digits of `n`.
pub fn u64_to_string(n: u64) -> (r: String)
    ensures
        r@ == decimal(n as nat),
    decreases n,
{
    if n < 10 {
        let mut s: String = String::new();
        s.push(digit_of(n));
        assert(s@ =~= seq![digit_char(n as int)]);
        s
    } else {
        let mut s = u64_to_string(n / 10);
        s.push(digit_of(n % 10));
        s
    }
}

/// The decimal digits of `n`.
pub fn usize_to_string(n: usize) -> (r: String)
    ensures
        r@ == decimal(n as nat),
{
    u64_to_string(n as u64)
}

/// The decimal digits of `n`, behind a minus sign where it is negative.
pub fn i32_to_string(n: i32) -> (r: String)
    ensures
        r@ == decimal_int(n as int),
{
    if n < 0 {
        let mut s = owned("-");
        let m: i64 = -(n as i64);
        s.append(u64_to_string(m as u64).as_str());
        proof {
            reveal_strlit("-");
            assert("-"@ =~= seq!['-']);
        }
        s
    } else {
        u64_to_string(n as u64)
    }
}

pub proof fn lemma_decimal_value_grows(s: Seq<char>, i: int)
    requires
        0 <= i <= s.len(),
        all_digits(s),
    ensures
        decimal_value(s.take(i)) <= decimal_value(s),
    decreases s.len() - i,
{
    if i < s.len() {
        lemma_decimal_value_grows(s, i + 1);
        assert(s.take(i + 1).drop_last() =~= s.take(i));
        assert(is_digit(s[i]));
    } else {
        assert(s.take(i) =~= s);
    }
}

/// The number that `s` spells, where it is below the limit of `u64`.
pub fn parse_u64(s: &str) -> (r: Option<u64>)
    ensures
        match r {
            Some(n) => parsed(s@) == Some(n as nat),
            None => parsed(s@) is None || parsed(s@)->0 > u64::MAX,
        },
{
    let v = to_chars(s);
    let from: usize = if v.len() > 0 && v[0] == '+' {
        1
    } else {
        0
    };
    let ghost digits = v@.subrange(from as int, v@.len() as int);
    proof {
        if from == 1 {
            assert(digits =~= v@.drop_first());
        } else {
            assert(digits =~= v@);
        }
    }
    if from >= v.len() {
        return None;
    }
    let mut i: usize = from;
    while i < v.len()
        invariant
            from <= i <= v@.len(),
            digits == v@.subrange(from as int, v@.len() as int),
            parsed(s@) == (if digits.len() > 0 && all_digits(digits) {
                Some(decimal_value(digits))
            } else {
                None
            }),
            forall|k: int| 0 <= k < i - from ==> is_digit(#[trigger] digits[k]),
        decreases v@.len() - i,
    {
        if !char_is_digit(v[i]) {
            assert(!is_digit(digits[i - from]));
            return None;
        }
        assert(digits[i - from] == v@[i as int]);
        i += 1;
    }
    assert(all_digits(digits));
    let mut n: u64 = 0;
    let mut j: usize = from;
    assert(digits.take(0) =~= Seq::empty());
    while j < v.len()
        invariant
            from <= j <= v@.len(),
            digits == v@.subrange(from as int, v@.len() as int),
            all_digits(digits),
            parsed(s@) == Some(decimal_value(digits)),
            n == decimal_value(digits.take(j - from)),
        decreases v@.len() - j,
    {
        assert(digits.take(j - from + 1).drop_last() =~= digits.take(j - from));
        assert(is_digit(digits[j - from]));
        let d: u64 = (v[j] as u32 - '0' as u32) as u64;
        proof {
            lemma_decimal_value_grows(digits, j - from + 1);
        }
        if n > (u64::MAX - d) / 10 {
            return None;
        }
        n = n * 10 + d;
        j += 1;
    }
    assert(digits.take(v@.len() - from) =~= digits);
    Some(n)
}

} // verus!
