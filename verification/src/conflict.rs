//! Git conflict blocks: taking them out of a file and putting replacements in their place.
use crate::digest::digest_text;
use crate::git::ConflictFileContent;
use crate::strings::{
    concat_range, contains, owned, replace, same, split_inclusive, split_lines, starts_with, to_chars,
    usize_to_string,
};
use vstd::prelude::*;

verus! {

/// One conflict, with a few lines around it.
#[derive(Debug, Clone)]
pub struct ConflictBlock {
    pub path: String,
    pub id: String,
    pub expected_sha256: String,
    pub before_context: String,
    pub ours: String,
    pub base: Option<String>,
    pub theirs: String,
    pub after_context: String,
}

/// The text that is to stand in the place of one conflict.
#[derive(Debug, Clone)]
pub struct ConflictResolution {
    pub path: String,
    pub conflict_id: String,
    pub expected_sha256: String,
    pub replacement: String,
}

#[derive(Debug, Clone)]
pub struct ResolvedFile {
    pub path: String,
    pub content: String,
}

/// The ways in which the markers of a file can be incomplete.
#[derive(Debug, Clone, Copy, PartialEq, Eq, Structural)]
pub enum MarkerFault {
    /// No separator follows the opening marker.
    Separator,
    /// No separator follows the marker of the common ancestor.
    BaseSeparator,
    /// No closing marker follows the separator.
    End,
}

#[derive(Debug, Clone)]
pub enum ConflictError {
    Markers(MarkerFault, String),
    NoBlocks,
    NoResolutions,
    Duplicate(String, String),
    MarkerLeft(String, String),
    NoConflict(String),
    Missing(String, String),
    Stale(String, String),
    Unknown(String, String),
}

/// Where a conflict stands among the lines of a file.
pub struct Span {
    /// The line of the opening marker.
    pub open: int,
    /// The line that ends our side: the marker of the common ancestor or the separator.
    pub ours_end: int,
    /// The line of the separator.
    pub separator: int,
    /// The line of the closing marker.
    pub close: int,
}

/// `line` without carriage returns and line feeds at its back.
pub open spec fn trim_eol(line: Seq<char>) -> Seq<char>
    decreases line.len(),
{
    if line.len() > 0 && (line.last() == '\r' || line.last() == '\n') {
        trim_eol(line.drop_last())
    } else {
        line
    }
}

/// `line` is a marker line that begins with `prefix`.
pub open spec fn is_marker(line: Seq<char>, prefix: Seq<char>) -> bool {
    crate::strings::starts(trim_eol(line), prefix)
}

/// The first line at or after `i` that is a marker with one of two prefixes; the number of lines
/// where there is none.
pub open spec fn seek(lines: Seq<Seq<char>>, i: int, p: Seq<char>, q: Seq<char>) -> int
    decreases lines.len() - i,
{
    if i >= lines.len() {
        lines.len() as int
    } else if is_marker(lines[i], p) || is_marker(lines[i], q) {
        i
    } else {
        seek(lines, i + 1, p, q)
    }
}

/// The conflict whose opening marker is line `open`.
pub open spec fn span_at(lines: Seq<Seq<char>>, open: int) -> Result<Span, MarkerFault> {
    let n = lines.len();
    let ours_end = seek(lines, open + 1, "|||||||"@, "======="@);
    if ours_end >= n {
        Err(MarkerFault::Separator)
    } else {
        let separator = if is_marker(lines[ours_end], "|||||||"@) {
            seek(lines, ours_end + 1, "======="@, "======="@)
        } else {
            ours_end
        };
        if separator >= n {
            Err(MarkerFault::BaseSeparator)
        } else {
            let close = seek(lines, separator + 1, ">>>>>>>"@, ">>>>>>>"@);
            if close >= n {
                Err(MarkerFault::End)
            } else {
                Ok(Span { open, ours_end, separator, close })
            }
        }
    }
}

pub proof fn lemma_seek(lines: Seq<Seq<char>>, i: int, p: Seq<char>, q: Seq<char>)
    requires
        0 <= i <= lines.len(),
    ensures
        i <= seek(lines, i, p, q) <= lines.len(),
        forall|k: int|
            i <= k < seek(lines, i, p, q) ==> !is_marker(#[trigger] lines[k], p) && !is_marker(
                lines[k],
                q,
            ),
        seek(lines, i, p, q) < lines.len() ==> is_marker(lines[seek(lines, i, p, q)], p)
            || is_marker(lines[seek(lines, i, p, q)], q),
    decreases lines.len() - i,
{
    if i < lines.len() && !is_marker(lines[i], p) && !is_marker(lines[i], q) {
        lemma_seek(lines, i + 1, p, q);
    }
}

pub proof fn lemma_span_at(lines: Seq<Seq<char>>, open: int)
    requires
        0 <= open < lines.len(),
    ensures
        match span_at(lines, open) {
            Ok(span) => span.open == open && open < span.ours_end <= span.separator < span.close
                < lines.len(),
            Err(_) => true,
        },
{
    let ours_end = seek(lines, open + 1, "|||||||"@, "======="@);
    lemma_seek(lines, open + 1, "|||||||"@, "======="@);
    if ours_end < lines.len() {
        lemma_seek(lines, ours_end + 1, "======="@, "======="@);
        let separator = if is_marker(lines[ours_end], "|||||||"@) {
            seek(lines, ours_end + 1, "======="@, "======="@)
        } else {
            ours_end
        };
        if separator < lines.len() {
            lemma_seek(lines, separator + 1, ">>>>>>>"@, ">>>>>>>"@);
        }
    }
}

/// The conflicts among the lines from `i` on, in order.
pub open spec fn spans_from(lines: Seq<Seq<char>>, i: int) -> Result<Seq<Span>, MarkerFault>
    decreases lines.len() - i,
{
    if i < 0 || i >= lines.len() {
        Ok(Seq::empty())
    } else if !is_marker(lines[i], "<<<<<<<"@) {
        spans_from(lines, i + 1)
    } else {
        proof {
            lemma_span_at(lines, i);
        }
        match span_at(lines, i) {
            Err(fault) => Err(fault),
            Ok(span) => match spans_from(lines, span.close + 1) {
                Err(fault) => Err(fault),
                Ok(rest) => Ok(seq![span] + rest),
            },
        }
    }
}

/// The conflicts of a file, in order.
pub open spec fn spans(content: Seq<char>) -> Result<Seq<Span>, MarkerFault> {
    spans_from(crate::strings::inclusive(content), 0)
}

/// The text of a conflict, markers and all.
pub open spec fn raw_text(lines: Seq<Seq<char>>, span: Span) -> Seq<char> {
    crate::strings::concat(lines.subrange(span.open, span.close + 1))
}

pub open spec fn block_id(k: int) -> Seq<char> {
    "conflict-"@ + crate::strings::decimal((k + 1) as nat)
}

/// `block` is the conflict number `k` of the file, with up to `context` lines on each side.
pub open spec fn is_block(
    block: ConflictBlock,
    path: Seq<char>,
    lines: Seq<Seq<char>>,
    span: Span,
    k: int,
    context: int,
) -> bool {
    let before = if span.open < context {
        0
    } else {
        span.open - context
    };
    let after = if span.close + 1 + context > lines.len() {
        lines.len() as int
    } else {
        span.close + 1 + context
    };
    &&& block.path@ == path
    &&& block.id@ == block_id(k)
    &&& block.expected_sha256@ == crate::digest::text_digest(raw_text(lines, span))
    &&& block.before_context@ == crate::strings::concat(lines.subrange(before, span.open))
    &&& block.ours@ == crate::strings::concat(lines.subrange(span.open + 1, span.ours_end))
    &&& match block.base {
        Some(base) => span.ours_end != span.separator && base@ == crate::strings::concat(
            lines.subrange(span.ours_end + 1, span.separator),
        ),
        None => span.ours_end == span.separator,
    }
    &&& block.theirs@ == crate::strings::concat(lines.subrange(span.separator + 1, span.close))
    &&& block.after_context@ == crate::strings::concat(lines.subrange(span.close + 1, after))
}

/// A conflict together with its place in the file.
#[derive(Debug)]
pub struct ParsedBlock {
    pub block: ConflictBlock,
    pub first: usize,
    pub last: usize,
    pub raw_ends_with_newline: bool,
    pub uses_crlf: bool,
}

pub open spec fn ends_with_newline(s: Seq<char>) -> bool {
    s.len() > 0 && s.last() == '\n'
}

pub open spec fn uses_crlf(s: Seq<char>) -> bool {
    crate::strings::occurs(s, "\r\n"@)
}

/// `parsed` is the conflict number `k` of the file.
pub open spec fn is_parsed(
    parsed: ParsedBlock,
    path: Seq<char>,
    lines: Seq<Seq<char>>,
    span: Span,
    k: int,
    context: int,
) -> bool {
    &&& is_block(parsed.block, path, lines, span, k, context)
    &&& parsed.first == span.open
    &&& parsed.last == span.close
    &&& parsed.raw_ends_with_newline == ends_with_newline(raw_text(lines, span))
    &&& parsed.uses_crlf == uses_crlf(raw_text(lines, span))
}

fn ends_newline(s: &str) -> (r: bool)
    ensures
        r == ends_with_newline(s@),
{
    let v = to_chars(s);
    v.len() > 0 && v[v.len() - 1] == '\n'
}

fn marker(line: &str, prefix: &str) -> (r: bool)
    ensures
        r == is_marker(line@, prefix@),
{
    let v = to_chars(line);
    let mut to: usize = v.len();
    assert(v@.take(v@.len() as int) =~= v@);
    while to > 0 && (v[to - 1] == '\r' || v[to - 1] == '\n')
        invariant
            to <= v@.len(),
            trim_eol(v@) == trim_eol(v@.take(to as int)),
        decreases to,
    {
        assert(v@.take(to as int).drop_last() =~= v@.take(to - 1));
        to -= 1;
    }
    assert(v@.subrange(0, to as int) =~= v@.take(to as int));
    let line = crate::strings::from_range(&v, 0, to);
    starts_with(line.as_str(), prefix)
}

fn seek_line(lines: &Vec<String>, from: usize, p: &str, q: &str) -> (r: usize)
    requires
        from <= lines@.len(),
    ensures
        r == seek(crate::strings::views(lines@), from as int, p@, q@),
        from <= r <= lines@.len(),
{
    let mut i: usize = from;
    while i < lines.len()
        invariant
            from <= i <= lines@.len(),
            seek(crate::strings::views(lines@), from as int, p@, q@) == seek(
                crate::strings::views(lines@),
                i as int,
                p@,
                q@,
            ),
        decreases lines@.len() - i,
    {
        if marker(lines[i].as_str(), p) || marker(lines[i].as_str(), q) {
            return i;
        }
        i += 1;
    }
    i
}

/// The conflict whose opening marker is line `open`: the lines that end our side, that separate
/// the sides and that close it.
fn find_span(lines: &Vec<String>, open: usize) -> (r: Result<(usize, usize, usize), MarkerFault>)
    requires
        open < lines@.len(),
    ensures
        match r {
            Ok((ours_end, separator, close)) => span_at(crate::strings::views(lines@), open as int)
                == Ok::<Span, MarkerFault>(
                (Span {
                    open: open as int,
                    ours_end: ours_end as int,
                    separator: separator as int,
                    close: close as int,
                }),
            ) && open < ours_end <= separator < close < lines@.len(),
            Err(fault) => span_at(crate::strings::views(lines@), open as int) == Err::<
                Span,
                MarkerFault,
            >(fault),
        },
{
    let count: usize = lines.len();
    let ours_end = seek_line(lines, open + 1, "|||||||", "=======");
    if ours_end >= lines.len() {
        return Err(MarkerFault::Separator);
    }
    let separator = if marker(lines[ours_end].as_str(), "|||||||") {
        seek_line(lines, ours_end + 1, "=======", "=======")
    } else {
        ours_end
    };
    if separator >= lines.len() {
        return Err(MarkerFault::BaseSeparator);
    }
    let close = seek_line(lines, separator + 1, ">>>>>>>", ">>>>>>>");
    if close >= lines.len() {
        return Err(MarkerFault::End);
    }
    Ok((ours_end, separator, close))
}

fn make_block(
    path: &str,
    lines: &Vec<String>,
    open: usize,
    ours_end: usize,
    separator: usize,
    close: usize,
    number: usize,
    context: usize,
) -> (r: ParsedBlock)
    requires
        open < ours_end <= separator < close < lines@.len(),
        number < usize::MAX,
    ensures
        is_parsed(
            r,
            path@,
            crate::strings::views(lines@),
            (Span {
                open: open as int,
                ours_end: ours_end as int,
                separator: separator as int,
                close: close as int,
            }),
            number as int,
            context as int,
        ),
{
    let count: usize = lines.len();
    let raw = concat_range(lines, open, close + 1);
    let before: usize = if open < context {
        0
    } else {
        open - context
    };
    let rest: usize = count - (close + 1);
    let after: usize = if context > rest {
        count
    } else {
        close + 1 + context
    };
    let mut id = owned("conflict-");
    id.append(usize_to_string(number + 1).as_str());
    let base = if ours_end != separator {
        Some(concat_range(lines, ours_end + 1, separator))
    } else {
        None
    };
    ParsedBlock {
        block: ConflictBlock {
            path: owned(path),
            id,
            expected_sha256: digest_text(raw.as_str()),
            before_context: concat_range(lines, before, open),
            ours: concat_range(lines, open + 1, ours_end),
            base,
            theirs: concat_range(lines, separator + 1, close),
            after_context: concat_range(lines, close + 1, after),
        },
        first: open,
        last: close,
        raw_ends_with_newline: ends_newline(raw.as_str()),
        uses_crlf: contains(raw.as_str(), "\r\n"),
    }
}

/// The conflicts among `lines`.
fn parse_lines(path: &str, lines: &Vec<String>, context_lines: usize) -> (r: Result<
    Vec<ParsedBlock>,
    MarkerFault,
>)
    ensures
        match r {
            Ok(blocks) => spans_from(crate::strings::views(lines@), 0) matches Ok(found) && {
                &&& blocks@.len() == found.len()
                &&& forall|k: int|
                    0 <= k < found.len() ==> is_parsed(
                        #[trigger] blocks@[k],
                        path@,
                        crate::strings::views(lines@),
                        found[k],
                        k,
                        context_lines as int,
                    )
            },
            Err(fault) => spans_from(crate::strings::views(lines@), 0) == Err::<
                Seq<Span>,
                MarkerFault,
            >(fault),
        },
{
    let ghost all = crate::strings::views(lines@);
    let mut blocks: Vec<ParsedBlock> = Vec::new();
    let mut index: usize = 0;
    let ghost mut found: Seq<Span> = Seq::empty();
    proof {
        if let Ok(rest) = spans_from(all, 0) {
            assert(Seq::<Span>::empty() + rest =~= rest);
        }
    }
    while index < lines.len()
        invariant
            index <= lines@.len(),
            all == crate::strings::views(lines@),
            blocks@.len() == found.len() <= index,
            spans_from(all, 0) == (match spans_from(all, index as int) {
                Ok(rest) => Ok(found + rest),
                Err(fault) => Err(fault),
            }),
            forall|k: int|
                0 <= k < found.len() ==> is_parsed(
                    #[trigger] blocks@[k],
                    path@,
                    all,
                    found[k],
                    k,
                    context_lines as int,
                ),
        decreases lines@.len() - index,
    {
        if !marker(lines[index].as_str(), "<<<<<<<") {
            index += 1;
            continue;
        }
        match find_span(lines, index) {
            Err(fault) => {
                return Err(fault);
            },
            Ok((ours_end, separator, close)) => {
                let number: usize = blocks.len();
                blocks.push(
                    make_block(path, lines, index, ours_end, separator, close, number, context_lines),
                );
                proof {
                    let span = span_at(all, index as int)->Ok_0;
                    if let Ok(rest) = spans_from(all, close + 1) {
                        assert(found + (seq![span] + rest) =~= found.push(span) + rest);
                    }
                    found = found.push(span);
                }
                index = close + 1;
            },
        }
    }
    assert(found + Seq::<Span>::empty() =~= found);
    Ok(blocks)
}

/// The conflicts of a file, each with up to `context_lines` lines on each side.
pub fn parse_file(path: &str, content: &str, context_lines: usize) -> (r: Result<
    Vec<ParsedBlock>,
    ConflictError,
>)
    ensures
        match r {
            Ok(blocks) => spans(content@) matches Ok(found) && {
                &&& blocks@.len() == found.len()
                &&& forall|k: int|
                    0 <= k < found.len() ==> is_parsed(
                        #[trigger] blocks@[k],
                        path@,
                        crate::strings::inclusive(content@),
                        found[k],
                        k,
                        context_lines as int,
                    )
            },
            Err(error) => spans(content@) matches Err(fault) && error@ == Fault::Markers(fault, path@),
        },
{
    let lines = split_inclusive(content);
    match parse_lines(path, &lines, context_lines) {
        Ok(blocks) => Ok(blocks),
        Err(fault) => Err(ConflictError::Markers(fault, owned(path))),
    }
}

/// What a `ConflictError` says.
pub enum Fault {
    Markers(MarkerFault, Seq<char>),
    NoBlocks,
    NoResolutions,
    Duplicate(Seq<char>, Seq<char>),
    MarkerLeft(Seq<char>, Seq<char>),
    NoConflict(Seq<char>),
    Missing(Seq<char>, Seq<char>),
    Stale(Seq<char>, Seq<char>),
    Unknown(Seq<char>, Seq<char>),
}

impl View for ConflictError {
    type V = Fault;

    open spec fn view(&self) -> Fault {
        match *self {
            ConflictError::Markers(fault, path) => Fault::Markers(fault, path@),
            ConflictError::NoBlocks => Fault::NoBlocks,
            ConflictError::NoResolutions => Fault::NoResolutions,
            ConflictError::Duplicate(path, id) => Fault::Duplicate(path@, id@),
            ConflictError::MarkerLeft(path, id) => Fault::MarkerLeft(path@, id@),
            ConflictError::NoConflict(path) => Fault::NoConflict(path@),
            ConflictError::Missing(path, id) => Fault::Missing(path@, id@),
            ConflictError::Stale(path, id) => Fault::Stale(path@, id@),
            ConflictError::Unknown(path, id) => Fault::Unknown(path@, id@),
        }
    }
}

/// The words of an error about one conflict.
pub open spec fn about(head: Seq<char>, path: Seq<char>, id: Seq<char>) -> Seq<char> {
    head + path + " "@ + id
}

impl Fault {
    /// The words in which a fault is reported.
    pub open spec fn words(self) -> Seq<char> {
        match self {
            Fault::Markers(MarkerFault::Separator, path) => "Git 冲突块缺少分隔符："@ + path,
            Fault::Markers(MarkerFault::BaseSeparator, path) => "Git diff3 冲突块缺少分隔符："@ + path,
            Fault::Markers(MarkerFault::End, path) => "Git 冲突块缺少结束标记："@ + path,
            Fault::NoBlocks => "冲突文件中没有可解析的 Git 冲突块"@,
            Fault::NoResolutions => "模型没有返回冲突块替换"@,
            Fault::Duplicate(path, id) => about("冲突块重复返回："@, path, id),
            Fault::MarkerLeft(path, id) => about("冲突块替换仍包含 Git 标记："@, path, id),
            Fault::NoConflict(path) => "文件不包含 Git 冲突块："@ + path,
            Fault::Missing(path, id) => about("模型遗漏冲突块："@, path, id),
            Fault::Stale(path, id) => about("冲突块哈希不匹配："@, path, id),
            Fault::Unknown(path, id) => about("模型返回了未知冲突块："@, path, id),
        }
    }
}

fn say_about(head: &str, path: &str, id: &str) -> (r: String)
    ensures
        r@ == about(head@, path@, id@),
{
    let mut s = owned(head);
    s.append(path);
    s.append(" ");
    s.append(id);
    s
}

fn say(head: &str, path: &str) -> (r: String)
    ensures
        r@ == head@ + path@,
{
    let mut s = owned(head);
    s.append(path);
    s
}

impl ConflictError {
    /// The words in which the error is reported.
    pub fn message(&self) -> (r: String)
        ensures
            r@ == self@.words(),
    {
        match self {
            ConflictError::Markers(MarkerFault::Separator, path) => say(
                "Git 冲突块缺少分隔符：",
                path.as_str(),
            ),
            ConflictError::Markers(MarkerFault::BaseSeparator, path) => say(
                "Git diff3 冲突块缺少分隔符：",
                path.as_str(),
            ),
            ConflictError::Markers(MarkerFault::End, path) => say(
                "Git 冲突块缺少结束标记：",
                path.as_str(),
            ),
            ConflictError::NoBlocks => owned("冲突文件中没有可解析的 Git 冲突块"),
            ConflictError::NoResolutions => owned("模型没有返回冲突块替换"),
            ConflictError::Duplicate(path, id) => say_about(
                "冲突块重复返回：",
                path.as_str(),
                id.as_str(),
            ),
            ConflictError::MarkerLeft(path, id) => say_about(
                "冲突块替换仍包含 Git 标记：",
                path.as_str(),
                id.as_str(),
            ),
            ConflictError::NoConflict(path) => say("文件不包含 Git 冲突块：", path.as_str()),
            ConflictError::Missing(path, id) => say_about(
                "模型遗漏冲突块：",
                path.as_str(),
                id.as_str(),
            ),
            ConflictError::Stale(path, id) => say_about(
                "冲突块哈希不匹配：",
                path.as_str(),
                id.as_str(),
            ),
            ConflictError::Unknown(path, id) => say_about(
                "模型返回了未知冲突块：",
                path.as_str(),
                id.as_str(),
            ),
        }
    }
}

/// The first of the files from `i` on whose markers are incomplete.
pub open spec fn first_faulty(files: Seq<ConflictFileContent>, i: int) -> Option<Fault>
    decreases files.len() - i,
{
    if i < 0 || i >= files.len() {
        None
    } else {
        match spans(files[i].content@) {
            Err(fault) => Some(Fault::Markers(fault, files[i].path@)),
            Ok(_) => first_faulty(files, i + 1),
        }
    }
}

/// `blocks` are the conflicts of the files, in order, each with up to `context` lines on each side.
pub open spec fn are_blocks_of(
    blocks: Seq<ConflictBlock>,
    files: Seq<ConflictFileContent>,
    context: int,
) -> bool
    decreases files.len(),
{
    if files.len() == 0 {
        blocks.len() == 0
    } else {
        let file = files.last();
        match spans(file.content@) {
            Err(_) => false,
            Ok(found) => {
                let rest = blocks.len() - found.len();
                &&& rest >= 0
                &&& are_blocks_of(blocks.take(rest), files.drop_last(), context)
                &&& forall|k: int|
                    0 <= k < found.len() ==> is_block(
                        #[trigger] blocks[rest + k],
                        file.path@,
                        crate::strings::inclusive(file.content@),
                        found[k],
                        k,
                        context,
                    )
            },
        }
    }
}

/// No file holds a conflict.
pub open spec fn conflict_free(files: Seq<ConflictFileContent>) -> bool {
    forall|i: int|
        0 <= i < files.len() ==> (spans((#[trigger] files[i]).content@) matches Ok(found) && found.len()
            == 0)
}

/// The conflicts of all files, in order.
pub fn extract_conflict_blocks(files: &[ConflictFileContent], context_lines: usize) -> (r: Result<
    Vec<ConflictBlock>,
    ConflictError,
>)
    ensures
        match r {
            Ok(blocks) => blocks@.len() > 0 && are_blocks_of(blocks@, files@, context_lines as int),
            Err(error) => first_faulty(files@, 0) == Some(error@) || (error@ is NoBlocks
                && conflict_free(files@)),
        },
        r is Ok <==> first_faulty(files@, 0) is None && !conflict_free(files@),
{
    let mut blocks: Vec<ConflictBlock> = Vec::new();
    let mut i: usize = 0;
    while i < files.len()
        invariant
            i <= files@.len(),
            first_faulty(files@, 0) == first_faulty(files@, i as int),
            are_blocks_of(blocks@, files@.take(i as int), context_lines as int),
            blocks@.len() == 0 <==> conflict_free(files@.take(i as int)),
        decreases files@.len() - i,
    {
        let ghost upto = files@.take(i + 1);
        assert(upto.drop_last() =~= files@.take(i as int));
        let parsed = match parse_file(files[i].path.as_str(), files[i].content.as_str(), context_lines) {
            Ok(parsed) => parsed,
            Err(error) => {
                proof {
                    if conflict_free(files@) {
                        assert(files@[i as int] == files@[i as int]);
                    }
                }
                return Err(error);
            },
        };
        let ghost found = spans(files@[i as int].content@)->Ok_0;
        let ghost before = blocks@;
        let ghost all_parsed = parsed@;
        for next in it: parsed
            invariant
                it.seq() == all_parsed,
                all_parsed.len() == found.len(),
                blocks@.len() == before.len() + it.index(),
                blocks@.take(before.len() as int) =~= before,
                forall|m: int|
                    0 <= m < found.len() ==> is_parsed(
                        #[trigger] all_parsed[m],
                        files@[i as int].path@,
                        crate::strings::inclusive(files@[i as int].content@),
                        found[m],
                        m,
                        context_lines as int,
                    ),
                forall|m: int|
                    0 <= m < it.index() ==> is_block(
                        #[trigger] blocks@[before.len() + m],
                        files@[i as int].path@,
                        crate::strings::inclusive(files@[i as int].content@),
                        found[m],
                        m,
                        context_lines as int,
                    ),
        {
            blocks.push(next.block);
        }
        proof {
            assert(blocks@.len() - found.len() == before.len());
            assert(are_blocks_of(blocks@, upto, context_lines as int));
            if conflict_free(files@.take(i as int)) && found.len() == 0 {
                assert forall|j: int| 0 <= j < upto.len() implies (spans(
                    (#[trigger] upto[j]).content@,
                ) matches Ok(f) && f.len() == 0) by {
                    if j < i {
                        assert(upto[j] == files@.take(i as int)[j]);
                    }
                }
            } else if conflict_free(upto) {
                assert(upto[i as int] == files@[i as int]);
                assert forall|j: int| 0 <= j < i implies (spans(
                    (#[trigger] files@.take(i as int)[j]).content@,
                ) matches Ok(f) && f.len() == 0) by {
                    assert(upto[j] == files@.take(i as int)[j]);
                }
            }
        }
        i += 1;
    }
    assert(files@.take(files@.len() as int) =~= files@);
    if blocks.len() == 0 {
        return Err(ConflictError::NoBlocks);
    }
    Ok(blocks)
}

/// `line` begins with a conflict marker.
pub open spec fn begins_with_marker(line: Seq<char>) -> bool {
    crate::strings::starts(line, "<<<<<<<"@) || crate::strings::starts(line, "|||||||"@)
        || crate::strings::starts(line, "======="@) || crate::strings::starts(line, ">>>>>>>"@)
}

/// Some line of `content` begins, after white space, with a conflict marker.
pub open spec fn marker_left(content: Seq<char>) -> bool {
    exists|i: int|
        0 <= i < crate::strings::lines(content).len() && begins_with_marker(
            crate::strings::trim_front(#[trigger] crate::strings::lines(content)[i]),
        )
}

/// `content` with every line ending turned into the one that is used.
pub open spec fn normalized(content: Seq<char>, crlf: bool) -> Seq<char> {
    let plain = crate::strings::replaced(content, "\r\n"@, "\n"@);
    if crlf {
        crate::strings::replaced(plain, "\n"@, "\r\n"@)
    } else {
        plain
    }
}

/// What stands in the place of the conflict `raw`.
pub open spec fn rendered(replacement: Seq<char>, raw: Seq<char>) -> Seq<char> {
    let body = normalized(replacement, uses_crlf(raw));
    if ends_with_newline(raw) && body.len() > 0 && !ends_with_newline(body) {
        if uses_crlf(raw) {
            body + "\r\n"@
        } else {
            body + "\n"@
        }
    } else {
        body
    }
}

/// The lines from `cursor` on, the conflicts from number `k` on replaced by `texts`.
pub open spec fn rebuilt(
    lines: Seq<Seq<char>>,
    found: Seq<Span>,
    texts: Seq<Seq<char>>,
    k: int,
    cursor: int,
) -> Seq<char>
    decreases found.len() - k,
{
    if k < 0 || k >= found.len() {
        crate::strings::concat(lines.subrange(cursor, lines.len() as int))
    } else {
        crate::strings::concat(lines.subrange(cursor, found[k].open)) + texts[k] + rebuilt(
            lines,
            found,
            texts,
            k + 1,
            found[k].close + 1,
        )
    }
}

pub open spec fn has_key(r: ConflictResolution, path: Seq<char>, id: Seq<char>) -> bool {
    r.path@ == path && r.conflict_id@ == id
}

/// The first of the resolutions from `i` on that is for the conflict `id` of `path`.
pub open spec fn lookup(
    rs: Seq<ConflictResolution>,
    path: Seq<char>,
    id: Seq<char>,
    i: int,
) -> Option<int>
    decreases rs.len() - i,
{
    if i < 0 || i >= rs.len() {
        None
    } else if has_key(rs[i], path, id) {
        Some(i)
    } else {
        lookup(rs, path, id, i + 1)
    }
}

/// What is wrong with the resolutions from `i` on by themselves: one for a conflict that already
/// has one, or one whose replacement still holds a marker.
pub open spec fn resolution_fault(rs: Seq<ConflictResolution>, i: int) -> Option<Fault>
    decreases rs.len() - i,
{
    if i < 0 || i >= rs.len() {
        None
    } else if lookup(rs.take(i), rs[i].path@, rs[i].conflict_id@, 0) is Some {
        Some(Fault::Duplicate(rs[i].path@, rs[i].conflict_id@))
    } else if marker_left(rs[i].replacement@) {
        Some(Fault::MarkerLeft(rs[i].path@, rs[i].conflict_id@))
    } else {
        resolution_fault(rs, i + 1)
    }
}

/// The texts for the conflicts of a file from number `k` on.
pub open spec fn texts_from(
    path: Seq<char>,
    lines: Seq<Seq<char>>,
    found: Seq<Span>,
    rs: Seq<ConflictResolution>,
    k: int,
) -> Result<Seq<Seq<char>>, Fault>
    decreases found.len() - k,
{
    if k < 0 || k >= found.len() {
        Ok(Seq::empty())
    } else {
        let raw = raw_text(lines, found[k]);
        match lookup(rs, path, block_id(k), 0) {
            None => Err(Fault::Missing(path, block_id(k))),
            Some(i) => if rs[i].expected_sha256@ != crate::digest::text_digest(raw) {
                Err(Fault::Stale(path, block_id(k)))
            } else {
                match texts_from(path, lines, found, rs, k + 1) {
                    Err(fault) => Err(fault),
                    Ok(rest) => Ok(seq![rendered(rs[i].replacement@, raw)] + rest),
                }
            },
        }
    }
}

/// A file with its conflicts replaced.
pub open spec fn resolved_content(file: ConflictFileContent, rs: Seq<ConflictResolution>) -> Result<
    Seq<char>,
    Fault,
> {
    let lines = crate::strings::inclusive(file.content@);
    match spans(file.content@) {
        Err(fault) => Err(Fault::Markers(fault, file.path@)),
        Ok(found) => if found.len() == 0 {
            Err(Fault::NoConflict(file.path@))
        } else {
            match texts_from(file.path@, lines, found, rs, 0) {
                Err(fault) => Err(fault),
                Ok(texts) => Ok(rebuilt(lines, found, texts, 0, 0)),
            }
        },
    }
}

/// The files from `i` on with their conflicts replaced.
pub open spec fn resolved_from(
    files: Seq<ConflictFileContent>,
    rs: Seq<ConflictResolution>,
    i: int,
) -> Result<Seq<Seq<char>>, Fault>
    decreases files.len() - i,
{
    if i < 0 || i >= files.len() {
        Ok(Seq::empty())
    } else {
        match resolved_content(files[i], rs) {
            Err(fault) => Err(fault),
            Ok(text) => match resolved_from(files, rs, i + 1) {
                Err(fault) => Err(fault),
                Ok(rest) => Ok(seq![text] + rest),
            },
        }
    }
}

/// `r` is for a conflict of one of the files.
pub open spec fn is_known(files: Seq<ConflictFileContent>, r: ConflictResolution) -> bool {
    exists|f: int, k: int|
        #![trigger files[f], block_id(k)]
        0 <= f < files.len() && has_key(r, files[f].path@, block_id(k)) && (spans(files[f].content@)
            matches Ok(found) && 0 <= k < found.len())
}

/// The first of the resolutions from `i` on that is for none of the conflicts.
pub open spec fn first_unknown(
    files: Seq<ConflictFileContent>,
    rs: Seq<ConflictResolution>,
    i: int,
) -> Option<int>
    decreases rs.len() - i,
{
    if i < 0 || i >= rs.len() {
        None
    } else if !is_known(files, rs[i]) {
        Some(i)
    } else {
        first_unknown(files, rs, i + 1)
    }
}

/// The contents of the files with their conflicts replaced.
pub open spec fn resolved(
    files: Seq<ConflictFileContent>,
    rs: Seq<ConflictResolution>,
) -> Result<Seq<Seq<char>>, Fault> {
    if rs.len() == 0 {
        Err(Fault::NoResolutions)
    } else {
        match resolution_fault(rs, 0) {
            Some(fault) => Err(fault),
            None => match resolved_from(files, rs, 0) {
                Err(fault) => Err(fault),
                Ok(texts) => match first_unknown(files, rs, 0) {
                    Some(i) => Err(Fault::Unknown(rs[i].path@, rs[i].conflict_id@)),
                    None => Ok(texts),
                },
            },
        }
    }
}

/// Whether some line of `content` begins, after white space, with a conflict marker.
pub fn contains_conflict_marker(content: &str) -> (r: bool)
    ensures
        r == marker_left(content@),
{
    let lines = split_lines(content);
    let mut i: usize = 0;
    while i < lines.len()
        invariant
            i <= lines@.len(),
            crate::strings::views(lines@) == crate::strings::lines(content@),
            forall|k: int|
                0 <= k < i ==> !begins_with_marker(
                    crate::strings::trim_front(#[trigger] crate::strings::lines(content@)[k]),
                ),
        decreases lines@.len() - i,
    {
        let line = crate::strings::trim_start(lines[i].as_str());
        assert(line@ == crate::strings::trim_front(crate::strings::lines(content@)[i as int]));
        if starts_with(line.as_str(), "<<<<<<<") || starts_with(line.as_str(), "|||||||")
            || starts_with(line.as_str(), "=======") || starts_with(line.as_str(), ">>>>>>>") {
            return true;
        }
        i += 1;
    }
    false
}

/// `content` with every line ending turned into the one that is used.
pub fn normalize_line_endings(content: &str, use_crlf: bool) -> (r: String)
    ensures
        r@ == normalized(content@, use_crlf),
{
    proof {
        reveal_strlit("\r\n");
        reveal_strlit("\n");
    }
    let plain = replace(content, "\r\n", "\n");
    if use_crlf {
        replace(plain.as_str(), "\n", "\r\n")
    } else {
        plain
    }
}

fn render(replacement: &str, crlf: bool, newline: bool) -> (r: String)
    ensures
        forall|raw: Seq<char>|
            crlf == uses_crlf(raw) && newline == ends_with_newline(raw) ==> r@ == #[trigger] rendered(
                replacement@,
                raw,
            ),
{
    let mut body = normalize_line_endings(replacement, crlf);
    if newline && !body.as_str().is_empty() && !ends_newline(body.as_str()) {
        if crlf {
            body.append("\r\n");
        } else {
            body.append("\n");
        }
    }
    body
}

fn find_resolution(rs: &[ConflictResolution], count: usize, path: &str, id: &str) -> (r: Option<
    usize,
>)
    requires
        count <= rs@.len(),
    ensures
        match r {
            Some(i) => lookup(rs@.take(count as int), path@, id@, 0) == Some(i as int) && i < count,
            None => lookup(rs@.take(count as int), path@, id@, 0) is None,
        },
{
    let ghost part = rs@.take(count as int);
    let mut i: usize = 0;
    while i < count
        invariant
            i <= count <= rs@.len(),
            part == rs@.take(count as int),
            lookup(part, path@, id@, 0) == lookup(part, path@, id@, i as int),
        decreases count - i,
    {
        if same(rs[i].path.as_str(), path) && same(rs[i].conflict_id.as_str(), id) {
            return Some(i);
        }
        i += 1;
    }
    None
}

fn check_resolutions(rs: &[ConflictResolution]) -> (r: Result<(), ConflictError>)
    ensures
        match r {
            Ok(()) => resolution_fault(rs@, 0) is None,
            Err(error) => resolution_fault(rs@, 0) == Some(error@),
        },
{
    let mut i: usize = 0;
    while i < rs.len()
        invariant
            i <= rs@.len(),
            resolution_fault(rs@, 0) == resolution_fault(rs@, i as int),
        decreases rs@.len() - i,
    {
        let path = rs[i].path.as_str();
        let id = rs[i].conflict_id.as_str();
        if find_resolution(rs, i, path, id).is_some() {
            return Err(ConflictError::Duplicate(owned(path), owned(id)));
        }
        if contains_conflict_marker(rs[i].replacement.as_str()) {
            return Err(ConflictError::MarkerLeft(owned(path), owned(id)));
        }
        i += 1;
    }
    Ok(())
}

/// The spans of a file lie one behind the other.
pub open spec fn spans_ordered(lines: Seq<Seq<char>>, found: Seq<Span>, from: int) -> bool {
    &&& forall|k: int|
        0 <= k < found.len() ==> from <= (#[trigger] found[k]).open < found[k].close < lines.len()
    &&& forall|j: int, k: int|
        0 <= j < k < found.len() ==> (#[trigger] found[j]).close < (#[trigger] found[k]).open
}

pub proof fn lemma_spans_ordered(lines: Seq<Seq<char>>, i: int)
    requires
        0 <= i,
    ensures
        spans_from(lines, i) matches Ok(found) ==> spans_ordered(lines, found, i),
    decreases lines.len() - i,
{
    if i < lines.len() {
        if !is_marker(lines[i], "<<<<<<<"@) {
            lemma_spans_ordered(lines, i + 1);
        } else {
            lemma_span_at(lines, i);
            if let Ok(span) = span_at(lines, i) {
                lemma_spans_ordered(lines, span.close + 1);
            }
        }
    }
}

fn resolve_file(file: &ConflictFileContent, rs: &[ConflictResolution]) -> (r: Result<
    (String, usize),
    ConflictError,
>)
    ensures
        match r {
            Ok((text, count)) => resolved_content(*file, rs@) == Ok::<Seq<char>, Fault>(text@) && (spans(
                file.content@,
            ) matches Ok(found) && found.len() == count),
            Err(error) => resolved_content(*file, rs@) == Err::<Seq<char>, Fault>(error@),
        },
{
    let lines = split_inclusive(file.content.as_str());
    let ghost all = crate::strings::inclusive(file.content@);
    let parsed = parse_file(file.path.as_str(), file.content.as_str(), 0)?;
    let ghost found = spans(file.content@)->Ok_0;
    if parsed.len() == 0 {
        return Err(ConflictError::NoConflict(owned(file.path.as_str())));
    }
    proof {
        lemma_spans_ordered(all, 0);
    }
    let path = file.path.as_str();
    let count: usize = parsed.len();
    let total: usize = lines.len();
    let mut output: String = String::new();
    let mut cursor: usize = 0;
    let mut k: usize = 0;
    let ghost mut texts: Seq<Seq<char>> = Seq::empty();
    proof {
        if let Ok(rest) = texts_from(path@, all, found, rs@, 0) {
            assert(texts + rest =~= rest);
        }
    }
    while k < count
        invariant
            k <= count == parsed@.len() == found.len(),
            path@ == file.path@,
            all == crate::strings::views(lines@),
            all == crate::strings::inclusive(file.content@),
            spans(file.content@) == Ok::<Seq<Span>, MarkerFault>(found),
            found.len() > 0,
            total == lines@.len(),
            spans_ordered(all, found, 0),
            cursor == (if k == 0 {
                0
            } else {
                found[k - 1].close + 1
            }),
            forall|m: int|
                0 <= m < found.len() ==> is_parsed(#[trigger] parsed@[m], path@, all, found[m], m, 0),
            texts.len() == k,
            texts_from(path@, all, found, rs@, 0) == (match texts_from(path@, all, found, rs@, k as int) {
                Ok(rest) => Ok(texts + rest),
                Err(fault) => Err(fault),
            }),
            forall|more: Seq<Seq<char>>|
                rebuilt(all, found, texts + more, 0, 0) == output@ + #[trigger] rebuilt(
                    all,
                    found,
                    texts + more,
                    k as int,
                    cursor as int,
                ),
        decreases count - k,
    {
        assert(is_parsed(parsed@[k as int], path@, all, found[k as int], k as int, 0));
        let first: usize = parsed[k].first;
        let last: usize = parsed[k].last;
        assert(cursor <= first <= last < all.len()) by {
            if k > 0 {
                assert(found[k - 1].close < found[k as int].open);
            }
        }
        let gap = concat_range(&lines, cursor, first);
        let id = parsed[k].block.id.as_str();
        let ghost raw = raw_text(all, found[k as int]);
        assert(rs@.take(rs@.len() as int) =~= rs@);
        let at = match find_resolution(rs, rs.len(), path, id) {
            Some(at) => at,
            None => {
                return Err(ConflictError::Missing(owned(path), owned(id)));
            },
        };
        if !same(rs[at].expected_sha256.as_str(), parsed[k].block.expected_sha256.as_str()) {
            return Err(ConflictError::Stale(owned(path), owned(id)));
        }
        let text = render(
            rs[at].replacement.as_str(),
            parsed[k].uses_crlf,
            parsed[k].raw_ends_with_newline,
        );
        assert(text@ == rendered(rs@[at as int].replacement@, raw));
        let ghost before = output@;
        output.append(gap.as_str());
        output.append(text.as_str());
        proof {
            let old_texts = texts;
            texts = old_texts.push(text@);
            if let Ok(rest) = texts_from(path@, all, found, rs@, k + 1) {
                assert(old_texts + (seq![text@] + rest) =~= texts + rest);
            }
            assert forall|more: Seq<Seq<char>>|
                rebuilt(all, found, texts + more, 0, 0) == output@ + #[trigger] rebuilt(
                    all,
                    found,
                    texts + more,
                    k + 1,
                    last + 1,
                ) by {
                let longer = seq![text@] + more;
                assert(old_texts + longer =~= texts + more);
                assert(rebuilt(all, found, old_texts + longer, 0, 0) == before + rebuilt(
                    all,
                    found,
                    old_texts + longer,
                    k as int,
                    cursor as int,
                ));
                let tail = rebuilt(all, found, texts + more, k + 1, last + 1);
                assert((texts + more)[k as int] == text@);
                assert(before + (gap@ + text@ + tail) =~= output@ + tail);
            }
        }
        cursor = last + 1;
        k += 1;
    }
    let tail = concat_range(&lines, cursor, total);
    output.append(tail.as_str());
    proof {
        assert(rebuilt(all, found, texts + Seq::<Seq<char>>::empty(), count as int, cursor as int)
            == tail@);
        assert(texts + Seq::<Seq<char>>::empty() =~= texts);
        assert(rebuilt(all, found, texts + Seq::<Seq<char>>::empty(), 0, 0) == output@);
    }
    Ok((output, count))
}

/// Whether one of the first `count` files, which hold `counts` conflicts, has the conflict.
fn known_to(files: &[ConflictFileContent], counts: &Vec<usize>, r: &ConflictResolution) -> (known:
    bool)
    requires
        counts@.len() == files@.len(),
        forall|f: int|
            0 <= f < files@.len() ==> (spans((#[trigger] files@[f]).content@) matches Ok(found)
                && found.len() == counts@[f]),
    ensures
        known == is_known(files@, *r),
{
    let mut f: usize = 0;
    while f < files.len()
        invariant
            f <= files@.len() == counts@.len(),
            forall|g: int|
                0 <= g < files@.len() ==> (spans((#[trigger] files@[g]).content@) matches Ok(found)
                    && found.len() == counts@[g]),
            forall|g: int, k: int|
                #![trigger files@[g], block_id(k)]
                0 <= g < f && has_key(*r, files@[g].path@, block_id(k)) ==> !(0 <= k < counts@[g]),
        decreases files@.len() - f,
    {
        if same(files[f].path.as_str(), r.path.as_str()) {
            let mut k: usize = 0;
            while k < counts[f]
                invariant
                    f < files@.len() == counts@.len(),
                    k <= counts@[f as int],
                    files@[f as int].path@ == r.path@,
                    spans(files@[f as int].content@) matches Ok(found) && found.len()
                        == counts@[f as int],
                    forall|m: int| 0 <= m < k ==> r.conflict_id@ != #[trigger] block_id(m),
                decreases counts@[f as int] - k,
            {
                let mut id = owned("conflict-");
                id.append(usize_to_string(k + 1).as_str());
                assert(id@ == block_id(k as int));
                if same(id.as_str(), r.conflict_id.as_str()) {
                    assert(has_key(*r, files@[f as int].path@, block_id(k as int)));
                    return true;
                }
                k += 1;
            }
        }
        f += 1;
    }
    false
}

/// Puts the replacements in the place of the conflicts. Everything outside the conflicts stays as
/// it is.
pub fn resolve_conflict_files(files: &[ConflictFileContent], resolutions: &[ConflictResolution])
    -> (r: Result<Vec<ResolvedFile>, ConflictError>)
    ensures
        match r {
            Ok(out) => resolved(files@, resolutions@) matches Ok(texts) && {
                &&& out@.len() == files@.len() == texts.len()
                &&& forall|i: int|
                    0 <= i < files@.len() ==> (#[trigger] out@[i]).path@ == files@[i].path@
                        && out@[i].content@ == texts[i]
            },
            Err(error) => resolved(files@, resolutions@) == Err::<Seq<Seq<char>>, Fault>(error@),
        },
{
    if resolutions.len() == 0 {
        return Err(ConflictError::NoResolutions);
    }
    check_resolutions(resolutions)?;
    let mut out: Vec<ResolvedFile> = Vec::new();
    let mut counts: Vec<usize> = Vec::new();
    let ghost mut texts: Seq<Seq<char>> = Seq::empty();
    let mut i: usize = 0;
    proof {
        if let Ok(rest) = resolved_from(files@, resolutions@, 0) {
            assert(texts + rest =~= rest);
        }
    }
    while i < files.len()
        invariant
            i <= files@.len(),
            resolutions@.len() > 0,
            resolution_fault(resolutions@, 0) is None,
            out@.len() == i == texts.len() == counts@.len(),
            resolved_from(files@, resolutions@, 0) == (match resolved_from(
                files@,
                resolutions@,
                i as int,
            ) {
                Ok(rest) => Ok(texts + rest),
                Err(fault) => Err(fault),
            }),
            forall|f: int|
                0 <= f < i ==> (#[trigger] out@[f]).path@ == files@[f].path@ && out@[f].content@
                    == texts[f],
            forall|f: int|
                0 <= f < i ==> (spans((#[trigger] files@[f]).content@) matches Ok(found)
                    && found.len() == counts@[f]),
        decreases files@.len() - i,
    {
        let (text, count) = resolve_file(&files[i], resolutions)?;
        proof {
            let old_texts = texts;
            texts = old_texts.push(text@);
            if let Ok(rest) = resolved_from(files@, resolutions@, i + 1) {
                assert(old_texts + (seq![text@] + rest) =~= texts + rest);
            }
        }
        out.push(ResolvedFile { path: owned(files[i].path.as_str()), content: text });
        counts.push(count);
        i += 1;
    }
    assert(texts + Seq::<Seq<char>>::empty() =~= texts);
    let mut j: usize = 0;
    while j < resolutions.len()
        invariant
            j <= resolutions@.len(),
            counts@.len() == files@.len(),
            resolutions@.len() > 0,
            resolution_fault(resolutions@, 0) is None,
            resolved_from(files@, resolutions@, 0) == Ok::<Seq<Seq<char>>, Fault>(texts),
            first_unknown(files@, resolutions@, 0) == first_unknown(
                files@,
                resolutions@,
                j as int,
            ),
            forall|f: int|
                0 <= f < files@.len() ==> (spans((#[trigger] files@[f]).content@) matches Ok(found)
                    && found.len() == counts@[f]),
        decreases resolutions@.len() - j,
    {
        if !known_to(files, &counts, &resolutions[j]) {
            return Err(
                ConflictError::Unknown(
                    owned(resolutions[j].path.as_str()),
                    owned(resolutions[j].conflict_id.as_str()),
                ),
            );
        }
        j += 1;
    }
    Ok(out)
}

} // verus!
