//! Addresses of servers.
use crate::strings::{eq_ignore_case, parse_u64, same, split_on, to_chars, trim_end_char};
use vstd::prelude::*;

verus! {

/// The host of an address, as the URL parser of `reqwest` reads it.
pub uninterp spec fn url_host(url: Seq<char>) -> Option<Seq<char>>;

/// Reads with `reqwest::Url::parse` and `host_str`.
///
/// The result is a function of the address; there is none where the address cannot be read or has no
/// host.
#[verifier::external_body]
fn host_of(url: &str) -> (r: Option<String>)
    ensures
        crate::strings::opt_view(r) == url_host(url@),
{
    reqwest::Url::parse(url).ok()?.host_str().map(str::to_owned)
}

/// A number from 0 to 255 without leading zeros.
pub open spec fn is_octet(s: Seq<char>) -> bool {
    &&& 0 < s.len() <= 3
    &&& crate::strings::all_digits(s)
    &&& s.len() > 1 ==> s[0] != '0'
    &&& crate::strings::decimal_value(s) <= 255
}

/// Four numbers with dots between them.
pub open spec fn is_ipv4(s: Seq<char>) -> bool {
    let parts = crate::strings::split(s, '.');
    parts.len() == 4 && forall|i: int| 0 <= i < 4 ==> is_octet(#[trigger] parts[i])
}

/// `s` without any `[` at its front and `]` at its back.
pub open spec fn bare_host(s: Seq<char>) -> Seq<char> {
    crate::strings::trim_back_char(trim_front_char(s, '['), ']')
}

/// `s` without any `c` at its front.
pub open spec fn trim_front_char(s: Seq<char>, c: char) -> Seq<char>
    decreases s.len(),
{
    if s.len() > 0 && s[0] == c {
        trim_front_char(s.drop_first(), c)
    } else {
        s
    }
}

/// The host is this machine: by its name, or by an address that leads back to it. The URL parser
/// writes the one such IPv6 address in its short form.
pub open spec fn is_loopback_host(host: Seq<char>) -> bool {
    let host = bare_host(host);
    ||| crate::strings::same_ignoring_case(host, "localhost"@)
    ||| is_ipv4(host) && crate::strings::split(host, '.')[0] == "127"@
    ||| host == "::1"@
}

fn octet(s: &str) -> (r: bool)
    ensures
        r == is_octet(s@),
{
    let chars = to_chars(s);
    if chars.len() == 0 || chars.len() > 3 {
        return false;
    }
    let mut i: usize = 0;
    while i < chars.len()
        invariant
            i <= chars@.len(),
            chars@ == s@,
            forall|k: int| 0 <= k < i ==> crate::strings::is_digit(s@[k]),
        decreases chars@.len() - i,
    {
        if !crate::strings::char_is_digit(chars[i]) {
            assert(!crate::strings::is_digit(s@[i as int]));
            return false;
        }
        i += 1;
    }
    if chars.len() > 1 && chars[0] == '0' {
        return false;
    }
    assert(s@[0] != '+') by {
        assert(crate::strings::is_digit(s@[0]));
    }
    match parse_u64(s) {
        Some(n) => n <= 255,
        None => false,
    }
}

fn ipv4(parts: &Vec<String>) -> (r: bool)
    ensures
        r == (parts@.len() == 4 && forall|i: int|
            0 <= i < 4 ==> is_octet(#[trigger] crate::strings::views(parts@)[i])),
{
    if parts.len() != 4 {
        return false;
    }
    let mut i: usize = 0;
    while i < 4
        invariant
            i <= 4,
            parts@.len() == 4,
            forall|k: int| 0 <= k < i ==> is_octet(#[trigger] crate::strings::views(parts@)[k]),
        decreases 4 - i,
    {
        assert(crate::strings::views(parts@)[i as int] == parts@[i as int]@);
        if !octet(parts[i].as_str()) {
            return false;
        }
        i += 1;
    }
    true
}

fn without_front(s: &str, c: char) -> (r: String)
    ensures
        r@ == trim_front_char(s@, c),
{
    let chars = to_chars(s);
    let mut i: usize = 0;
    assert(s@.skip(0) =~= s@);
    while i < chars.len() && chars[i] == c
        invariant
            i <= chars@.len(),
            chars@ == s@,
            trim_front_char(s@, c) == trim_front_char(s@.skip(i as int), c),
        decreases chars@.len() - i,
    {
        assert(s@.skip(i as int).drop_first() =~= s@.skip(i + 1));
        i += 1;
    }
    assert(chars@.subrange(i as int, chars@.len() as int) =~= s@.skip(i as int));
    crate::strings::from_range(&chars, i, chars.len())
}

/// Whether the host is this machine.
pub fn host_is_loopback(host: &str) -> (r: bool)
    ensures
        r == is_loopback_host(host@),
{
    let host = trim_end_char(without_front(host, '[').as_str(), ']');
    if eq_ignore_case(host.as_str(), "localhost") || same(host.as_str(), "::1") {
        return true;
    }
    let parts = split_on(host.as_str(), '.');
    assert(crate::strings::views(parts@)[0] == parts@[0]@);
    ipv4(&parts) && same(parts[0].as_str(), "127")
}

/// Whether the address leads to this machine.
pub fn is_loopback_url(url: &str) -> (r: bool)
    ensures
        r == (match url_host(url@) {
            Some(host) => is_loopback_host(host),
            None => false,
        }),
{
    match host_of(url) {
        Some(host) => host_is_loopback(host.as_str()),
        None => false,
    }
}

} // verus!
