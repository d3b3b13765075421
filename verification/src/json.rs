//! JSON texts.
use crate::strings::{join_with, owned};
use vstd::prelude::*;

verus! {

/// A hexadecimal digit.
pub open spec fn hex_digit(n: int) -> char {
    if n < 10 {
        ('0' as int + n) as char
    } else {
        ('a' as int + n - 10) as char
    }
}

/// How a character is written in a JSON string.
pub open spec fn json_char(c: char) -> Seq<char> {
    if c == '"' || c == '\\' {
        seq!['\\', c]
    } else if c == '\u{8}' {
        seq!['\\', 'b']
    } else if c == '\t' {
        seq!['\\', 't']
    } else if c == '\n' {
        seq!['\\', 'n']
    } else if c == '\u{c}' {
        seq!['\\', 'f']
    } else if c == '\r' {
        seq!['\\', 'r']
    } else if c as int <= 0x1f {
        seq!['\\', 'u', '0', '0', hex_digit(c as int / 16), hex_digit(c as int % 16)]
    } else {
        seq![c]
    }
}

/// How the characters of a text are written in a JSON string.
pub open spec fn json_chars(s: Seq<char>) -> Seq<char>
    decreases s.len(),
{
    if s.len() == 0 {
        Seq::empty()
    } else {
        json_chars(s.drop_last()) + json_char(s.last())
    }
}

/// The JSON string that stands for a text.
pub open spec fn json_quoted(s: Seq<char>) -> Seq<char> {
    seq!['"'] + json_chars(s) + seq!['"']
}

/// Writes a `serde_json::Value` made of the text.
///
/// The result is the text in quotation marks: a quotation mark, a backslash and the control characters
/// below the space are escaped, in the short form where JSON has one, and nothing else is.
#[verifier::external_body]
pub(crate) fn quote(s: &str) -> (r: String)
    ensures
        r@ == json_quoted(s@),
{
    serde_json::Value::from(s).to_string()
}

pub open spec fn quoted_all(list: Seq<Seq<char>>) -> Seq<Seq<char>> {
    Seq::new(list.len(), |i: int| json_quoted(list[i]))
}

/// The JSON array of texts.
pub open spec fn json_list(list: Seq<Seq<char>>) -> Seq<char> {
    "["@ + crate::strings::join(quoted_all(list), ","@) + "]"@
}

/// The JSON array of texts.
pub fn list_json(list: &Vec<String>) -> (r: String)
    ensures
        r@ == json_list(crate::strings::views(list@)),
{
    let mut out: Vec<String> = Vec::new();
    let mut i: usize = 0;
    while i < list.len()
        invariant
            i <= list@.len(),
            crate::strings::views(out@) =~= quoted_all(crate::strings::views(list@)).take(i as int),
        decreases list@.len() - i,
    {
        let ghost before = out@;
        out.push(quote(list[i].as_str()));
        assert(crate::strings::views(out@) =~= crate::strings::views(before).push(
            json_quoted(list@[i as int]@),
        ));
        i += 1;
    }
    assert(crate::strings::views(out@) =~= quoted_all(crate::strings::views(list@)));
    owned("[").concat(join_with(&out, ",").as_str()).concat("]")
}

/// The JSON value of an optional text.
pub open spec fn json_option(s: Option<Seq<char>>) -> Seq<char> {
    match s {
        Some(s) => json_quoted(s),
        None => "null"@,
    }
}

/// The JSON value of an optional text.
pub fn option_json(s: &Option<String>) -> (r: String)
    ensures
        r@ == json_option(crate::strings::opt_view(*s)),
{
    match s {
        Some(s) => quote(s.as_str()),
        None => owned("null"),
    }
}

/// The string that a JSON document holds at a pointer, as `serde_json` reads it; the words of the
/// parser where the text is no JSON.
pub uninterp spec fn json_text(doc: Seq<char>, pointer: Seq<char>) -> Result<
    Option<Seq<char>>,
    Seq<char>,
>;

/// The elements of the array that a JSON document holds at a pointer, as `serde_json` reads it, each
/// where it is a string.
pub uninterp spec fn json_texts(doc: Seq<char>, pointer: Seq<char>) -> Result<
    Option<Seq<Option<Seq<char>>>>,
    Seq<char>,
>;

/// The JSON object, on several lines, of the members `keys` of a JSON document, as `serde_json`
/// writes it; members that are missing are null.
pub uninterp spec fn json_selection(doc: Seq<char>, keys: Seq<Seq<char>>) -> Result<
    Seq<char>,
    Seq<char>,
>;

pub open spec fn opt_views(list: Seq<Option<String>>) -> Seq<Option<Seq<char>>> {
    Seq::new(list.len(), |i: int| crate::strings::opt_view(list[i]))
}

/// Parses with `serde_json::from_str` and reads with `serde_json::Value::pointer` and `as_str`.
///
/// The result is a function of the arguments.
#[verifier::external_body]
pub(crate) fn read_json_text(doc: &str, pointer: &str) -> (r: Result<Option<String>, String>)
    ensures
        match r {
            Ok(found) => json_text(doc@, pointer@) == Ok::<Option<Seq<char>>, Seq<char>>(
                crate::strings::opt_view(found),
            ),
            Err(words) => json_text(doc@, pointer@) == Err::<Option<Seq<char>>, Seq<char>>(words@),
        },
{
    let value: serde_json::Value = serde_json::from_str(doc).map_err(|e| e.to_string())?;
    Ok(value.pointer(pointer).and_then(serde_json::Value::as_str).map(str::to_owned))
}

/// Parses with `serde_json::from_str` and reads with `serde_json::Value::pointer`, `as_array` and
/// `as_str`.
///
/// The result is a function of the arguments.
#[verifier::external_body]
pub(crate) fn read_json_texts(doc: &str, pointer: &str) -> (r: Result<
    Option<Vec<Option<String>>>,
    String,
>)
    ensures
        match r {
            Ok(Some(list)) => json_texts(doc@, pointer@) == Ok::<
                Option<Seq<Option<Seq<char>>>>,
                Seq<char>,
            >(Some(opt_views(list@))),
            Ok(None) => json_texts(doc@, pointer@) == Ok::<
                Option<Seq<Option<Seq<char>>>>,
                Seq<char>,
            >(None),
            Err(words) => json_texts(doc@, pointer@) == Err::<
                Option<Seq<Option<Seq<char>>>>,
                Seq<char>,
            >(words@),
        },
{
    let value: serde_json::Value = serde_json::from_str(doc).map_err(|e| e.to_string())?;
    let items = value.pointer(pointer).and_then(serde_json::Value::as_array);
    Ok(items.map(|list| list.iter().map(|item| item.as_str().map(str::to_owned)).collect()))
}

/// Parses with `serde_json::from_str`, reads with `serde_json::Value::get` and writes with
/// `serde_json::to_string_pretty`.
///
/// The result is a function of the arguments.
#[verifier::external_body]
pub(crate) fn select_json(doc: &str, keys: &[&str]) -> (r: Result<String, String>)
    ensures
        match r {
            Ok(text) => json_selection(doc@, crate::strings::str_views(keys@)) == Ok::<
                Seq<char>,
                Seq<char>,
            >(text@),
            Err(words) => json_selection(doc@, crate::strings::str_views(keys@)) == Err::<
                Seq<char>,
                Seq<char>,
            >(words@),
        },
{
    let value: serde_json::Value = serde_json::from_str(doc).map_err(|e| e.to_string())?;
    let member = |key: &&str| (key.to_string(), value.get(*key).cloned().unwrap_or_default());
    let chosen: serde_json::Map<String, serde_json::Value> = keys.iter().map(member).collect();
    serde_json::to_string_pretty(&chosen).map_err(|e| e.to_string())
}

/// The JSON of each element of the array that a JSON document holds at a pointer, as `serde_json`
/// reads and writes it.
pub uninterp spec fn json_items(doc: Seq<char>, pointer: Seq<char>) -> Result<
    Option<Seq<Seq<char>>>,
    Seq<char>,
>;

/// The truth value that a JSON document holds at a pointer, as `serde_json` reads it.
pub uninterp spec fn json_flag(doc: Seq<char>, pointer: Seq<char>) -> Result<
    Option<bool>,
    Seq<char>,
>;

/// Parses with `serde_json::from_str`, reads with `serde_json::Value::pointer` and `as_array`, and
/// writes each element with `serde_json::Value::to_string`.
///
/// The result is a function of the arguments.
#[verifier::external_body]
pub(crate) fn read_json_items(doc: &str, pointer: &str) -> (r: Result<Option<Vec<String>>, String>)
    ensures
        match r {
            Ok(Some(list)) => json_items(doc@, pointer@) == Ok::<Option<Seq<Seq<char>>>, Seq<char>>(
                Some(crate::strings::views(list@)),
            ),
            Ok(None) => json_items(doc@, pointer@) == Ok::<Option<Seq<Seq<char>>>, Seq<char>>(None),
            Err(words) => json_items(doc@, pointer@) == Err::<Option<Seq<Seq<char>>>, Seq<char>>(
                words@,
            ),
        },
{
    let value: serde_json::Value = serde_json::from_str(doc).map_err(|e| e.to_string())?;
    let items = value.pointer(pointer).and_then(serde_json::Value::as_array);
    Ok(items.map(|list| list.iter().map(|item| item.to_string()).collect()))
}

/// Parses with `serde_json::from_str` and reads with `serde_json::Value::pointer` and `as_bool`.
///
/// The result is a function of the arguments.
#[verifier::external_body]
pub(crate) fn read_json_flag(doc: &str, pointer: &str) -> (r: Result<Option<bool>, String>)
    ensures
        match r {
            Ok(found) => json_flag(doc@, pointer@) == Ok::<Option<bool>, Seq<char>>(found),
            Err(words) => json_flag(doc@, pointer@) == Err::<Option<bool>, Seq<char>>(words@),
        },
{
    let value: serde_json::Value = serde_json::from_str(doc).map_err(|e| e.to_string())?;
    Ok(value.pointer(pointer).and_then(serde_json::Value::as_bool))
}

/// The strings among optional strings, in order.
pub open spec fn present(list: Seq<Option<Seq<char>>>) -> Seq<Seq<char>>
    decreases list.len(),
{
    if list.len() == 0 {
        Seq::empty()
    } else {
        let rest = present(list.drop_last());
        match list.last() {
            Some(s) => rest.push(s),
            None => rest,
        }
    }
}

/// The strings among optional strings, in order.
pub fn present_texts(list: &Vec<Option<String>>) -> (r: Vec<String>)
    ensures
        crate::strings::views(r@) == present(opt_views(list@)),
{
    let mut out: Vec<String> = Vec::new();
    let ghost all = opt_views(list@);
    let mut i: usize = 0;
    assert(all.take(0) =~= Seq::empty());
    assert(crate::strings::views(out@) =~= Seq::empty());
    while i < list.len()
        invariant
            i <= list@.len(),
            all == opt_views(list@),
            crate::strings::views(out@) == present(all.take(i as int)),
        decreases list@.len() - i,
    {
        assert(all.take(i + 1).drop_last() =~= all.take(i as int));
        match &list[i] {
            Some(s) => {
                crate::strings::push_string(&mut out, s.clone());
            },
            None => {},
        }
        i += 1;
    }
    assert(all.take(all.len() as int) =~= all);
    out
}

} // verus!
