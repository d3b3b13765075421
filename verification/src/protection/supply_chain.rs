//! Static checks of Cargo lock files, manifests and build scripts before anything is built.
use crate::digest::digest_text;
use crate::protection::model::{StaticIndicator, StaticScanReport};
use crate::strings::{
    bool_str, contains, join_with, owned, same, to_chars, to_lower, u64_to_string,
};
use vstd::prelude::*;

verus! {

pub const MAX_STATIC_FILE_BYTES: u64 = 16_777_216;

pub const MAX_STATIC_FILES: usize = 10_000;

/// What an indicator says.
#[verifier::ext_equal]
pub struct Indicator {
    pub rule_id: Seq<char>,
    pub severity: Seq<char>,
    pub path: Seq<char>,
    pub summary: Seq<char>,
    pub evidence: Seq<char>,
}

impl View for StaticIndicator {
    type V = Indicator;

    open spec fn view(&self) -> Indicator {
        Indicator {
            rule_id: self.rule_id@,
            severity: self.severity@,
            path: self.path@,
            summary: self.summary@,
            evidence: self.evidence@,
        }
    }
}

/// What the indicators of a list say.
pub open spec fn said(list: Seq<StaticIndicator>) -> Seq<Indicator> {
    Seq::new(list.len(), |i: int| list[i]@)
}

/// Where the reader of Rust source stands.
pub enum Mode {
    Code,
    /// In a string, after a backslash that escapes the next character or not.
    Text(bool),
    /// In a character literal, after a backslash that escapes the next character or not.
    Letter(bool),
    /// Before the quote of a raw string with this many signs around it.
    Opening(nat),
    /// In a raw string with this many signs around it. Nothing is escaped there.
    Raw(nat),
    LineComment,
    /// In block comments, this many deep.
    BlockComment(nat),
}

/// A character of a name.
pub open spec fn is_word(c: char) -> bool {
    'a' <= c <= 'z' || 'A' <= c <= 'Z' || '0' <= c <= '9' || c == '_' || c >= '\u{80}'
}

/// The number of `#` that follow each other from position `i` on.
pub open spec fn hashes(s: Seq<char>, i: int) -> nat
    decreases s.len() - i,
{
    if 0 <= i < s.len() && s[i] == '#' {
        hashes(s, i + 1) + 1
    } else {
        0
    }
}

/// No name and no lifetime reaches up to position `i`.
pub open spec fn begins_word(s: Seq<char>, i: int) -> bool {
    i <= 0 || !(is_word(s[i - 1]) || s[i - 1] == '\'')
}

/// A raw string begins with the `r` at position `i`, which a `b` or `c` may stand before.
pub open spec fn opens_raw(s: Seq<char>, i: int) -> bool {
    let quote = i + 1 + hashes(s, i + 1);
    &&& s[i] == 'r'
    &&& quote < s.len() && s[quote] == '"'
    &&& begins_word(s, i) || (i > 0 && (s[i - 1] == 'b' || s[i - 1] == 'c') && begins_word(s, i - 1))
}

/// The quote at position `i` opens a character literal. Any other belongs to a lifetime or a label.
pub open spec fn opens_letter(s: Seq<char>, i: int) -> bool {
    (i + 1 < s.len() && s[i + 1] == '\\') || (i + 2 < s.len() && s[i + 2] == '\'')
}

/// Where the reader stands behind the character at position `i`, which begins no comment and stands
/// in none.
pub open spec fn behind(s: Seq<char>, i: int, mode: Mode) -> Mode {
    let c = s[i];
    match mode {
        Mode::Code => if c == '"' {
            Mode::Text(false)
        } else if c == '\'' && opens_letter(s, i) {
            Mode::Letter(false)
        } else if opens_raw(s, i) {
            Mode::Opening(hashes(s, i + 1))
        } else {
            Mode::Code
        },
        Mode::Text(escaped) => if c == '"' && !escaped {
            Mode::Code
        } else {
            Mode::Text(c == '\\' && !escaped)
        },
        Mode::Letter(escaped) => if c == '\'' && !escaped {
            Mode::Code
        } else {
            Mode::Letter(c == '\\' && !escaped)
        },
        Mode::Opening(signs) => if c == '"' {
            Mode::Raw(signs)
        } else {
            mode
        },
        Mode::Raw(signs) => if c == '"' && hashes(s, i + 1) >= signs {
            Mode::Code
        } else {
            mode
        },
        _ => mode,
    }
}

/// What is left of `s` from position `i` on: comments go, a space stands for the opening of each,
/// line feeds and everything in literals stay.
pub open spec fn stripped_from(s: Seq<char>, i: int, mode: Mode) -> Seq<char>
    decreases s.len() - i,
{
    if i < 0 || i >= s.len() {
        Seq::empty()
    } else {
        let c = s[i];
        let pair = |d: char| i + 1 < s.len() && s[i + 1] == d;
        let feed = if c == '\n' {
            seq!['\n']
        } else {
            Seq::empty()
        };
        match mode {
            Mode::LineComment => if c == '\n' {
                feed + stripped_from(s, i + 1, Mode::Code)
            } else {
                stripped_from(s, i + 1, Mode::LineComment)
            },
            Mode::BlockComment(depth) => if c == '/' && pair('*') {
                stripped_from(s, i + 2, Mode::BlockComment(depth + 1))
            } else if c == '*' && pair('/') {
                if depth <= 1 {
                    stripped_from(s, i + 2, Mode::Code)
                } else {
                    stripped_from(s, i + 2, Mode::BlockComment((depth - 1) as nat))
                }
            } else {
                feed + stripped_from(s, i + 1, Mode::BlockComment(depth))
            },
            _ => if mode is Code && c == '/' && pair('/') {
                seq![' '] + stripped_from(s, i + 2, Mode::LineComment)
            } else if mode is Code && c == '/' && pair('*') {
                seq![' '] + stripped_from(s, i + 2, Mode::BlockComment(1))
            } else {
                seq![c] + stripped_from(s, i + 1, behind(s, i, mode))
            },
        }
    }
}

/// Rust source without its comments.
pub open spec fn stripped(s: Seq<char>) -> Seq<char> {
    stripped_from(s, 0, Mode::Code)
}

#[derive(Clone, Copy)]
enum State {
    Code,
    Text(bool),
    Letter(bool),
    Opening(usize),
    Raw(usize),
    LineComment,
    BlockComment(usize),
}

impl State {
    spec fn mode(self) -> Mode {
        match self {
            State::Code => Mode::Code,
            State::Text(escaped) => Mode::Text(escaped),
            State::Letter(escaped) => Mode::Letter(escaped),
            State::Opening(signs) => Mode::Opening(signs as nat),
            State::Raw(signs) => Mode::Raw(signs as nat),
            State::LineComment => Mode::LineComment,
            State::BlockComment(depth) => Mode::BlockComment(depth as nat),
        }
    }
}

fn char_is_word(c: char) -> (r: bool)
    ensures
        r == is_word(c),
{
    ('a' <= c && c <= 'z') || ('A' <= c && c <= 'Z') || ('0' <= c && c <= '9') || c == '_' || c
        >= '\u{80}'
}

fn count_hashes(chars: &Vec<char>, from: usize) -> (r: usize)
    requires
        from <= chars@.len(),
    ensures
        r == hashes(chars@, from as int),
        from + r <= chars@.len(),
{
    let mut i: usize = from;
    while i < chars.len() && chars[i] == '#'
        invariant
            from <= i <= chars@.len(),
            hashes(chars@, from as int) == (i - from) + hashes(chars@, i as int),
        decreases chars@.len() - i,
    {
        i += 1;
    }
    i - from
}

fn word_begins(chars: &Vec<char>, i: usize) -> (r: bool)
    requires
        i <= chars@.len(),
    ensures
        r == begins_word(chars@, i as int),
{
    i == 0 || !(char_is_word(chars[i - 1]) || chars[i - 1] == '\'')
}

/// The number of signs around the raw string that begins at position `i`, where one does.
fn raw_opening(chars: &Vec<char>, i: usize) -> (r: Option<usize>)
    requires
        i < chars@.len(),
    ensures
        match r {
            Some(signs) => opens_raw(chars@, i as int) && signs == hashes(chars@, i + 1),
            None => !opens_raw(chars@, i as int),
        },
{
    let end: usize = chars.len();
    if chars[i] != 'r' {
        return None;
    }
    let signs: usize = count_hashes(chars, i + 1);
    if signs >= end - (i + 1) {
        return None;
    }
    let quote: usize = i + 1 + signs;
    if chars[quote] != '"' {
        return None;
    }
    if word_begins(chars, i) || (i > 0 && (chars[i - 1] == 'b' || chars[i - 1] == 'c')
        && word_begins(chars, i - 1)) {
        Some(signs)
    } else {
        None
    }
}

/// Where the reader stands behind a character that begins no comment and stands in none.
fn state_behind(chars: &Vec<char>, i: usize, state: State) -> (r: State)
    requires
        i < chars@.len(),
    ensures
        r.mode() == behind(chars@, i as int, state.mode()),
        state matches State::BlockComment(_) ==> r == state,
        !(state is BlockComment) ==> !(r is BlockComment),
{
    let current = chars[i];
    let left: usize = chars.len() - i;
    match state {
        State::Code => if current == '"' {
            State::Text(false)
        } else if current == '\'' && ((left > 1 && chars[i + 1] == '\\') || (left > 2 && chars[i + 2]
            == '\'')) {
            State::Letter(false)
        } else {
            match raw_opening(chars, i) {
                Some(signs) => State::Opening(signs),
                None => State::Code,
            }
        },
        State::Text(escaped) => if current == '"' && !escaped {
            State::Code
        } else {
            State::Text(current == '\\' && !escaped)
        },
        State::Letter(escaped) => if current == '\'' && !escaped {
            State::Code
        } else {
            State::Letter(current == '\\' && !escaped)
        },
        State::Opening(signs) => if current == '"' {
            State::Raw(signs)
        } else {
            state
        },
        State::Raw(signs) => if current == '"' && count_hashes(chars, i + 1) >= signs {
            State::Code
        } else {
            state
        },
        _ => state,
    }
}

/// Removes the comments of Rust source, so that an address in a comment is told from one in a
/// string.
pub fn strip_rust_comments(raw: &str) -> (r: String)
    ensures
        r@ == stripped(raw@),
{
    let chars = to_chars(raw);
    let mut output: String = String::new();
    let mut state = State::Code;
    let mut index: usize = 0;
    assert(Seq::<char>::empty() + stripped(chars@) =~= stripped(chars@));
    while index < chars.len()
        invariant
            index <= chars@.len(),
            chars@ == raw@,
            state matches State::BlockComment(depth) ==> depth <= index,
            stripped(chars@) == output@ + stripped_from(chars@, index as int, state.mode()),
        decreases chars@.len() - index,
    {
        let current = chars[index];
        let more: bool = index < chars.len() - 1;
        let slash_next: bool = more && chars[index + 1] == '/';
        let star_next: bool = more && chars[index + 1] == '*';
        let ghost before = output@;
        let ghost from = index as int;
        let ghost was = state.mode();
        let mut emit: Option<char> = None;
        match state {
            State::LineComment => {
                if current == '\n' {
                    emit = Some('\n');
                    state = State::Code;
                }
                index += 1;
            },
            State::BlockComment(depth) => {
                if current == '/' && star_next {
                    state = State::BlockComment(depth + 1);
                    index += 2;
                } else if current == '*' && slash_next {
                    state = if depth <= 1 {
                        State::Code
                    } else {
                        State::BlockComment(depth - 1)
                    };
                    index += 2;
                } else {
                    if current == '\n' {
                        emit = Some('\n');
                    }
                    index += 1;
                }
            },
            _ => {
                let code: bool = matches!(state, State::Code);
                if code && current == '/' && slash_next {
                    state = State::LineComment;
                    emit = Some(' ');
                    index += 2;
                } else if code && current == '/' && star_next {
                    state = State::BlockComment(1);
                    emit = Some(' ');
                    index += 2;
                } else {
                    emit = Some(current);
                    state = state_behind(&chars, index, state);
                    index += 1;
                }
            },
        }
        let ghost rest = stripped_from(chars@, index as int, state.mode());
        match emit {
            Some(c) => {
                output.push(c);
                assert(stripped_from(chars@, from, was) == seq![c] + rest);
                assert(before + (seq![c] + rest) =~= output@ + rest);
            },
            None => {
                assert(stripped_from(chars@, from, was) =~= rest);
            },
        }
    }
    assert(output@ + Seq::<char>::empty() =~= output@);
    output
}

/// The markers that occur in `raw`, in their order.
pub open spec fn matching(raw: Seq<char>, markers: Seq<Seq<char>>) -> Seq<Seq<char>>
    decreases markers.len(),
{
    if markers.len() == 0 {
        Seq::empty()
    } else {
        let rest = matching(raw, markers.drop_last());
        if crate::strings::occurs(raw, markers.last()) {
            rest.push(markers.last())
        } else {
            rest
        }
    }
}

/// The markers that occur in `raw`, in their order.
pub fn matching_markers(raw: &str, markers: &[&str]) -> (r: Vec<String>)
    ensures
        crate::strings::views(r@) == matching(raw@, crate::strings::str_views(markers@)),
{
    let mut out: Vec<String> = Vec::new();
    let mut i: usize = 0;
    let ghost all = crate::strings::str_views(markers@);
    assert(all.take(0) =~= Seq::empty());
    while i < markers.len()
        invariant
            i <= markers@.len(),
            all == crate::strings::str_views(markers@),
            crate::strings::views(out@) =~= matching(raw@, all.take(i as int)),
        decreases markers@.len() - i,
    {
        assert(all.take(i + 1).drop_last() =~= all.take(i as int));
        if contains(raw, markers[i]) {
            let ghost before = out@;
            out.push(owned(markers[i]));
            assert(crate::strings::views(out@) =~= crate::strings::views(before).push(
                all[i as int],
            ));
        }
        i += 1;
    }
    assert(all.take(all.len() as int) =~= all);
    out
}

/// Calls that reach the network.
pub open spec fn network_markers() -> Seq<Seq<char>> {
    seq![
        "reqwest::blocking"@,
        "reqwest::client"@,
        "ureq::get"@,
        "ureq::post"@,
        "tcpstream::connect"@,
        "udpsocket::connect"@,
    ]
}

/// Calls that start a process.
pub open spec fn execution_markers() -> Seq<Seq<char>> {
    seq!["command::new"@, ".spawn("@, "powershell"@, "wscript"@, "chmod"@, "create_no_window"@]
}

/// Commands that can download and run code.
pub open spec fn command_markers() -> Seq<Seq<char>> {
    seq![
        "powershell"@,
        "pwsh"@,
        "cmd.exe"@,
        "command::new(\"cmd\")"@,
        "wscript"@,
        "cscript"@,
        "invoke-webrequest"@,
        "start-bitstransfer"@,
        "curl.exe"@,
        "command::new(\"curl\")"@,
        "command::new(\"wget\")"@,
        "command::new(\"python\")"@,
        "command::new(\"python3\")"@,
        "command::new(\"sh\")"@,
        "command::new(\"bash\")"@,
    ]
}

pub open spec fn url_markers() -> Seq<Seq<char>> {
    seq!["https://"@, "http://"@]
}

/// Signs of a hidden payload.
pub open spec fn evasion_markers() -> Seq<Seq<char>> {
    seq!["dangerous()"@, "acceptall"@, "mem::forget"@, "base64"@, "detached"@]
}

/// What the text of a build script, in lower case and without comments, shows.
pub struct Traits {
    pub network: Seq<Seq<char>>,
    pub urls: Seq<Seq<char>>,
    pub execution: Seq<Seq<char>>,
    pub commands: Seq<Seq<char>>,
    pub evasion: Seq<Seq<char>>,
    pub git_download: bool,
}

pub open spec fn script_traits(raw: Seq<char>) -> Traits {
    let text = crate::strings::lower(stripped(raw));
    Traits {
        network: matching(text, network_markers()),
        urls: matching(text, url_markers()),
        execution: matching(text, execution_markers()),
        commands: matching(text, command_markers()),
        evasion: matching(text, evasion_markers()),
        git_download: crate::strings::occurs(text, "command::new(\"git\")"@) && (
        crate::strings::occurs(text, "arg(\"clone\")"@) || crate::strings::occurs(
            text,
            "arg(\"fetch\")"@,
        )),
    }
}

/// The script can fetch code and run it.
pub open spec fn downloads_and_executes(t: Traits) -> bool {
    (t.network.len() > 0 && t.execution.len() > 0) || (t.urls.len() > 0 && (t.commands.len() > 0
        || t.git_download))
}

/// The script shows signs of hiding beside something that it could hide.
pub open spec fn evades(t: Traits) -> bool {
    t.evasion.len() > 0 && (t.network.len() > 0 || t.urls.len() > 0 || t.execution.len() > 0
        || t.commands.len() > 0)
}

pub open spec fn execution_evidence(t: Traits) -> Seq<char> {
    "network=["@ + crate::strings::join(t.network, ","@) + "], urls=["@ + crate::strings::join(
        t.urls,
        ","@,
    ) + "], execution=["@ + crate::strings::join(t.execution, ","@) + "], dangerous_commands=["@
        + crate::strings::join(t.commands, ","@) + "], git_download="@ + crate::strings::bool_text(
        t.git_download,
    )
}

/// What blocks the build for the sake of a build script.
pub open spec fn script_blockers(path: Seq<char>, t: Traits) -> Seq<Indicator> {
    let first = if downloads_and_executes(t) {
        seq![
            Indicator {
                rule_id: "SC-BUILD-NETWORK-EXECUTION"@,
                severity: "blocker"@,
                path,
                summary: "构建脚本同时具备网络访问和进程执行能力"@,
                evidence: execution_evidence(t),
            },
        ]
    } else {
        Seq::empty()
    };
    if evades(t) {
        first.push(
            Indicator {
                rule_id: "SC-BUILD-EVASION"@,
                severity: "blocker"@,
                path,
                summary: "构建脚本包含与隐藏载荷或逃逸相关的行为组合"@,
                evidence: crate::strings::join(t.evasion, ","@),
            },
        )
    } else {
        first
    }
}

/// What is only reported of a build script.
pub open spec fn script_warnings(path: Seq<char>, t: Traits) -> Seq<Indicator> {
    if downloads_and_executes(t) {
        Seq::empty()
    } else if t.network.len() > 0 {
        seq![
            Indicator {
                rule_id: "SC-BUILD-NETWORK"@,
                severity: "high"@,
                path,
                summary: "构建脚本包含网络访问能力，需要在断网沙箱中复核"@,
                evidence: crate::strings::join(t.network, ","@),
            },
        ]
    } else if t.execution.len() > 0 {
        seq![
            Indicator {
                rule_id: "SC-BUILD-PROCESS"@,
                severity: "medium"@,
                path,
                summary: "构建脚本会启动外部进程，需要确认用途"@,
                evidence: crate::strings::join(t.execution, ","@),
            },
        ]
    } else {
        Seq::empty()
    }
}

fn indicator(rule_id: &str, severity: &str, path: &str, summary: &str, evidence: String) -> (r:
    StaticIndicator)
    ensures
        r@ == (Indicator {
            rule_id: rule_id@,
            severity: severity@,
            path: path@,
            summary: summary@,
            evidence: evidence@,
        }),
{
    StaticIndicator {
        rule_id: owned(rule_id),
        severity: owned(severity),
        path: owned(path),
        summary: owned(summary),
        evidence,
    }
}

fn add_indicator(list: &mut Vec<StaticIndicator>, item: StaticIndicator)
    ensures
        said(final(list)@) == said(old(list)@).push(item@),
{
    let ghost before = list@;
    list.push(item);
    assert(said(list@) =~= said(before).push(item@));
}

/// Judges a build script by the markers in its code.
pub fn inspect_build_script(
    path: &str,
    raw: &str,
    blockers: &mut Vec<StaticIndicator>,
    warnings: &mut Vec<StaticIndicator>,
)
    ensures
        said(final(blockers)@) == said(old(blockers)@) + script_blockers(path@, script_traits(raw@)),
        said(final(warnings)@) == said(old(warnings)@) + script_warnings(path@, script_traits(raw@)),
{
    let lower = to_lower(strip_rust_comments(raw).as_str());
    let lower = lower.as_str();
    let ghost t = script_traits(raw@);
    let network_list = [
        "reqwest::blocking",
        "reqwest::client",
        "ureq::get",
        "ureq::post",
        "tcpstream::connect",
        "udpsocket::connect",
    ];
    let execution_list = [
        "command::new",
        ".spawn(",
        "powershell",
        "wscript",
        "chmod",
        "create_no_window",
    ];
    let command_list = [
        "powershell",
        "pwsh",
        "cmd.exe",
        "command::new(\"cmd\")",
        "wscript",
        "cscript",
        "invoke-webrequest",
        "start-bitstransfer",
        "curl.exe",
        "command::new(\"curl\")",
        "command::new(\"wget\")",
        "command::new(\"python\")",
        "command::new(\"python3\")",
        "command::new(\"sh\")",
        "command::new(\"bash\")",
    ];
    let url_list = ["https://", "http://"];
    let evasion_list = ["dangerous()", "acceptall", "mem::forget", "base64", "detached"];
    assert(crate::strings::str_views(network_list@) =~= network_markers());
    assert(crate::strings::str_views(execution_list@) =~= execution_markers());
    assert(crate::strings::str_views(command_list@) =~= command_markers());
    assert(crate::strings::str_views(url_list@) =~= url_markers());
    assert(crate::strings::str_views(evasion_list@) =~= evasion_markers());
    let network = matching_markers(lower, &network_list);
    let execution = matching_markers(lower, &execution_list);
    let urls = matching_markers(lower, &url_list);
    let commands = matching_markers(lower, &command_list);
    let evasion = matching_markers(lower, &evasion_list);
    let git_download: bool = contains(lower, "command::new(\"git\")") && (contains(
        lower,
        "arg(\"clone\")",
    ) || contains(lower, "arg(\"fetch\")"));
    proof {
        assert(network@.len() == t.network.len());
        assert(execution@.len() == t.execution.len());
        assert(urls@.len() == t.urls.len());
        assert(commands@.len() == t.commands.len());
        assert(evasion@.len() == t.evasion.len());
    }
    let ghost blockers_before = said(blockers@);
    let ghost warnings_before = said(warnings@);
    if (network.len() > 0 && execution.len() > 0) || (urls.len() > 0 && (commands.len() > 0
        || git_download)) {
        let evidence = owned("network=[").concat(join_with(&network, ",").as_str()).concat(
            "], urls=[",
        ).concat(join_with(&urls, ",").as_str()).concat("], execution=[").concat(
            join_with(&execution, ",").as_str(),
        ).concat("], dangerous_commands=[").concat(join_with(&commands, ",").as_str()).concat(
            "], git_download=",
        ).concat(bool_str(git_download));
        add_indicator(
            blockers,
            indicator(
                "SC-BUILD-NETWORK-EXECUTION",
                "blocker",
                path,
                "构建脚本同时具备网络访问和进程执行能力",
                evidence,
            ),
        );
    } else if network.len() > 0 {
        add_indicator(
            warnings,
            indicator(
                "SC-BUILD-NETWORK",
                "high",
                path,
                "构建脚本包含网络访问能力，需要在断网沙箱中复核",
                join_with(&network, ","),
            ),
        );
    } else if execution.len() > 0 {
        add_indicator(
            warnings,
            indicator(
                "SC-BUILD-PROCESS",
                "medium",
                path,
                "构建脚本会启动外部进程，需要确认用途",
                join_with(&execution, ","),
            ),
        );
    }
    if evasion.len() > 0 && (network.len() > 0 || urls.len() > 0 || execution.len() > 0
        || commands.len() > 0) {
        add_indicator(
            blockers,
            indicator(
                "SC-BUILD-EVASION",
                "blocker",
                path,
                "构建脚本包含与隐藏载荷或逃逸相关的行为组合",
                join_with(&evasion, ","),
            ),
        );
    }
    assert(said(blockers@) =~= blockers_before + script_blockers(path@, t));
    assert(said(warnings@) =~= warnings_before + script_warnings(path@, t));
}

/// The texts of a list of rows with optional cells.
pub open spec fn cells(rows: Seq<Vec<Option<String>>>) -> Seq<Seq<Option<Seq<char>>>> {
    Seq::new(rows.len(), |i: int| Seq::new(rows[i]@.len(), |j: int| crate::strings::opt_view(rows[i]@[j])))
}

/// The contents of an optional text, empty where it is absent.
pub open spec fn text_or_empty(o: Option<Seq<char>>) -> Seq<char> {
    match o {
        Some(s) => s,
        None => Seq::empty(),
    }
}

/// The string fields `fields` of the elements of the array `key` of the TOML document `raw`, as the
/// `toml` crate reads it; `None` where there is no such array, and the words of the parser where
/// `raw` is no TOML.
pub uninterp spec fn toml_rows(raw: Seq<char>, key: Seq<char>, fields: Seq<Seq<char>>) -> Result<
    Option<Seq<Seq<Option<Seq<char>>>>>,
    Seq<char>,
>;

/// The elements of the array `field` of each element of the array `key` of the TOML document `raw`,
/// as the `toml` crate reads it: `None` for one that is no string, and no elements where there is no
/// such field; `None` where there is no array `key`, and the words of the parser where `raw` is no
/// TOML.
pub uninterp spec fn toml_lists(raw: Seq<char>, key: Seq<char>, field: Seq<char>) -> Result<
    Option<Seq<Seq<Option<Seq<char>>>>>,
    Seq<char>,
>;

/// The string `key` of the table `table` of the TOML document `raw`, as the `toml` crate reads it.
pub uninterp spec fn toml_text(raw: Seq<char>, table: Seq<char>, key: Seq<char>) -> Result<
    Option<Seq<char>>,
    Seq<char>,
>;

/// The table `table` of the TOML document `raw`, as the `toml` crate reads it, has the key `key`.
pub uninterp spec fn toml_has_key(raw: Seq<char>, table: Seq<char>, key: Seq<char>) -> Result<
    bool,
    Seq<char>,
>;

pub open spec fn text_result<T>(r: Result<T, String>) -> Result<T, Seq<char>> {
    match r {
        Ok(value) => Ok(value),
        Err(words) => Err(words@),
    }
}

/// Parses with `toml::Value::from_str` and reads with `toml::Value::get`, `as_array` and `as_str`.
///
/// The result is a function of the arguments; each row has one cell for each field.
#[verifier::external_body]
pub(crate) fn read_toml_rows(raw: &str, key: &str, fields: &[&str]) -> (r: Result<
    Option<Vec<Vec<Option<String>>>>,
    String,
>)
    ensures
        match r {
            Ok(Some(rows)) => toml_rows(raw@, key@, crate::strings::str_views(fields@)) == Ok::<
                Option<Seq<Seq<Option<Seq<char>>>>>,
                Seq<char>,
            >(Some(cells(rows@))) && forall|i: int|
                0 <= i < rows@.len() ==> (#[trigger] rows@[i])@.len() == fields@.len(),
            Ok(None) => toml_rows(raw@, key@, crate::strings::str_views(fields@)) == Ok::<
                Option<Seq<Seq<Option<Seq<char>>>>>,
                Seq<char>,
            >(None),
            Err(words) => toml_rows(raw@, key@, crate::strings::str_views(fields@)) == Err::<
                Option<Seq<Seq<Option<Seq<char>>>>>,
                Seq<char>,
            >(words@),
        },
{
    let document: toml::Value = raw.parse().map_err(|e: toml::de::Error| e.to_string())?;
    let text = |v: &toml::Value, f: &str| v.get(f).and_then(toml::Value::as_str).map(str::to_owned);
    Ok(document.get(key).and_then(toml::Value::as_array).map(|items| {
        items.iter().map(|item| fields.iter().map(|f| text(item, f)).collect()).collect()
    }))
}

/// Parses with `toml::Value::from_str` and reads with `toml::Value::get`, `as_array` and `as_str`.
///
/// The result is a function of the arguments.
#[verifier::external_body]
pub(crate) fn read_toml_lists(raw: &str, key: &str, field: &str) -> (r: Result<
    Option<Vec<Vec<Option<String>>>>,
    String,
>)
    ensures
        match r {
            Ok(Some(lists)) => toml_lists(raw@, key@, field@) == Ok::<
                Option<Seq<Seq<Option<Seq<char>>>>>,
                Seq<char>,
            >(Some(cells(lists@))),
            Ok(None) => toml_lists(raw@, key@, field@) == Ok::<
                Option<Seq<Seq<Option<Seq<char>>>>>,
                Seq<char>,
            >(None),
            Err(words) => toml_lists(raw@, key@, field@) == Err::<
                Option<Seq<Seq<Option<Seq<char>>>>>,
                Seq<char>,
            >(words@),
        },
{
    let document: toml::Value = raw.parse().map_err(|e: toml::de::Error| e.to_string())?;
    let text = |v: &toml::Value| v.as_str().map(str::to_owned);
    let list = |v: &toml::Value| v.get(field).and_then(toml::Value::as_array).cloned();
    Ok(document.get(key).and_then(toml::Value::as_array).map(|items| {
        items.iter().map(|v| list(v).unwrap_or_default().iter().map(text).collect()).collect()
    }))
}

/// Parses with `toml::Value::from_str` and reads with `toml::Value::get` and `as_str`.
///
/// The result is a function of the arguments.
#[verifier::external_body]
fn read_toml_text(raw: &str, table: &str, key: &str) -> (r: Result<Option<String>, String>)
    ensures
        match r {
            Ok(found) => toml_text(raw@, table@, key@) == Ok::<Option<Seq<char>>, Seq<char>>(
                crate::strings::opt_view(found),
            ),
            Err(words) => toml_text(raw@, table@, key@) == Err::<Option<Seq<char>>, Seq<char>>(words@),
        },
{
    let document: toml::Value = raw.parse().map_err(|e: toml::de::Error| e.to_string())?;
    let found = document.get(table).and_then(|value| value.get(key));
    Ok(found.and_then(toml::Value::as_str).map(str::to_owned))
}

/// Parses with `toml::Value::from_str` and reads with `toml::Value::get`, `as_table` and
/// `contains_key`.
///
/// The result is a function of the arguments.
#[verifier::external_body]
fn read_toml_has_key(raw: &str, table: &str, key: &str) -> (r: Result<bool, String>)
    ensures
        text_result(r) == toml_has_key(raw@, table@, key@),
{
    let document: toml::Value = raw.parse().map_err(|e: toml::de::Error| e.to_string())?;
    let found = document.get(table).and_then(toml::Value::as_table);
    Ok(found.is_some_and(|entries| entries.contains_key(key)))
}

/// A package of a lock file.
#[derive(Debug)]
pub struct LockedPackage {
    pub name: String,
    pub version: String,
    pub checksum: String,
}

/// What is known of a package: name, version and checksum.
pub type Package = (Seq<char>, Seq<char>, Seq<char>);

impl View for LockedPackage {
    type V = Package;

    open spec fn view(&self) -> Package {
        (self.name@, self.version@, self.checksum@)
    }
}

pub open spec fn packages(list: Seq<LockedPackage>) -> Seq<Package> {
    Seq::new(list.len(), |i: int| list[i]@)
}

pub open spec fn package_said(name: Seq<char>, version: Seq<char>, checksum: Seq<char>) -> Seq<char> {
    let head = "package="@ + name + ", version="@ + version;
    if checksum.len() == 0 {
        head
    } else {
        head + ", checksum="@ + checksum
    }
}

/// What blocks the build for the sake of one package.
pub open spec fn package_blockers(path: Seq<char>, package: Package) -> Seq<Indicator> {
    let (name, version, checksum) = package;
    let first = if name == "arrayref"@ && version == "0.3.10"@ {
        seq![
            Indicator {
                rule_id: "SC-RUST-ARRAYREF-0.3.10"@,
                severity: "blocker"@,
                path,
                summary: "锁定了已确认携带恶意传递依赖的 arrayref 0.3.10"@,
                evidence: package_said(name, version, checksum),
            },
        ]
    } else {
        Seq::empty()
    };
    if name == "proc-macro1"@ {
        first.push(
            Indicator {
                rule_id: "SC-RUST-TYPOSQUAT-PROC-MACRO1"@,
                severity: "blocker"@,
                path,
                summary: "锁定了冒充 proc-macro2 的恶意 crate proc-macro1"@,
                evidence: package_said(name, version, checksum),
            },
        )
    } else {
        first
    }
}

/// What blocks the build for the sake of a list of packages.
pub open spec fn lock_blockers(path: Seq<char>, list: Seq<Package>) -> Seq<Indicator>
    decreases list.len(),
{
    if list.len() == 0 {
        Seq::empty()
    } else {
        lock_blockers(path, list.drop_last()) + package_blockers(path, list.last())
    }
}

fn package_evidence(name: &str, version: &str, checksum: &str) -> (r: String)
    ensures
        r@ == package_said(name@, version@, checksum@),
{
    let head = owned("package=").concat(name).concat(", version=").concat(version);
    if checksum.is_empty() {
        head
    } else {
        head.concat(", checksum=").concat(checksum)
    }
}

/// Compares a package with those known to be malicious.
pub fn inspect_known_malicious_package(
    path: &str,
    name: &str,
    version: &str,
    checksum: &str,
    blockers: &mut Vec<StaticIndicator>,
)
    ensures
        said(final(blockers)@) == said(old(blockers)@) + package_blockers(
            path@,
            (name@, version@, checksum@),
        ),
{
    let ghost before = said(blockers@);
    if same(name, "arrayref") && same(version, "0.3.10") {
        add_indicator(
            blockers,
            indicator(
                "SC-RUST-ARRAYREF-0.3.10",
                "blocker",
                path,
                "锁定了已确认携带恶意传递依赖的 arrayref 0.3.10",
                package_evidence(name, version, checksum),
            ),
        );
    }
    if same(name, "proc-macro1") {
        add_indicator(
            blockers,
            indicator(
                "SC-RUST-TYPOSQUAT-PROC-MACRO1",
                "blocker",
                path,
                "锁定了冒充 proc-macro2 的恶意 crate proc-macro1",
                package_evidence(name, version, checksum),
            ),
        );
    }
    assert(said(blockers@) =~= before + package_blockers(path@, (name@, version@, checksum@)));
}

/// Judges the packages of a lock file.
pub fn inspect_packages(path: &str, list: &Vec<LockedPackage>, blockers: &mut Vec<StaticIndicator>)
    ensures
        said(final(blockers)@) == said(old(blockers)@) + lock_blockers(path@, packages(list@)),
{
    let ghost before = said(blockers@);
    let ghost all = packages(list@);
    let mut i: usize = 0;
    assert(all.take(0) =~= Seq::empty());
    assert(said(blockers@) =~= before + lock_blockers(path@, all.take(0)));
    while i < list.len()
        invariant
            i <= list@.len(),
            all == packages(list@),
            said(blockers@) == before + lock_blockers(path@, all.take(i as int)),
        decreases list@.len() - i,
    {
        assert(all.take(i + 1).drop_last() =~= all.take(i as int));
        let ghost prior = said(blockers@);
        inspect_known_malicious_package(
            path,
            list[i].name.as_str(),
            list[i].version.as_str(),
            list[i].checksum.as_str(),
            blockers,
        );
        assert(said(blockers@) =~= before + lock_blockers(path@, all.take(i + 1)));
        i += 1;
    }
    assert(all.take(all.len() as int) =~= all);
}

#[derive(Debug)]
pub enum SupplyChainError {
    /// The lock file at this path is no TOML; the words of the parser.
    LockSyntax(String, String),
    /// The manifest at this path is no TOML; the words of the parser.
    ManifestSyntax(String, String),
    /// The file at this path is too large.
    TooLarge(String),
    TooMany,
}

/// What a `SupplyChainError` says.
pub enum ScanFault {
    LockSyntax(Seq<char>, Seq<char>),
    ManifestSyntax(Seq<char>, Seq<char>),
    TooLarge(Seq<char>),
    TooMany,
}

impl View for SupplyChainError {
    type V = ScanFault;

    open spec fn view(&self) -> ScanFault {
        match *self {
            SupplyChainError::LockSyntax(path, cause) => ScanFault::LockSyntax(path@, cause@),
            SupplyChainError::ManifestSyntax(path, cause) => ScanFault::ManifestSyntax(path@, cause@),
            SupplyChainError::TooLarge(path) => ScanFault::TooLarge(path@),
            SupplyChainError::TooMany => ScanFault::TooMany,
        }
    }
}

impl ScanFault {
    /// The words in which a fault is reported.
    pub open spec fn words(self) -> Seq<char> {
        match self {
            ScanFault::LockSyntax(path, cause) => "解析 Cargo.lock 失败："@ + path + ": "@ + cause,
            ScanFault::ManifestSyntax(path, cause) => "解析 Cargo.toml 失败："@ + path + ": "@ + cause,
            ScanFault::TooLarge(path) => "静态审计文件超过 "@ + crate::strings::decimal(
                MAX_STATIC_FILE_BYTES as nat,
            ) + " 字节，已拒绝继续："@ + path,
            ScanFault::TooMany => "静态审计文件超过 "@ + crate::strings::decimal(
                MAX_STATIC_FILES as nat,
            ) + " 个，已拒绝继续"@,
        }
    }
}

impl SupplyChainError {
    /// The words in which the error is reported.
    pub fn message(&self) -> (r: String)
        ensures
            r@ == self@.words(),
    {
        match self {
            SupplyChainError::LockSyntax(path, cause) => owned("解析 Cargo.lock 失败：").concat(
                path.as_str(),
            ).concat(": ").concat(cause.as_str()),
            SupplyChainError::ManifestSyntax(path, cause) => owned(
                "解析 Cargo.toml 失败：",
            ).concat(path.as_str()).concat(": ").concat(cause.as_str()),
            SupplyChainError::TooLarge(path) => owned("静态审计文件超过 ").concat(
                u64_to_string(MAX_STATIC_FILE_BYTES).as_str(),
            ).concat(" 字节，已拒绝继续：").concat(path.as_str()),
            SupplyChainError::TooMany => owned("静态审计文件超过 ").concat(
                u64_to_string(MAX_STATIC_FILES as u64).as_str(),
            ).concat(" 个，已拒绝继续"),
        }
    }
}

/// The fields that are read of a package of a lock file.
pub open spec fn lock_fields() -> Seq<Seq<char>> {
    seq!["name"@, "version"@, "checksum"@]
}

/// The packages of a lock file, given the cells of its package table.
pub open spec fn packages_of(rows: Option<Seq<Seq<Option<Seq<char>>>>>) -> Seq<Package> {
    match rows {
        None => Seq::empty(),
        Some(rows) => Seq::new(
            rows.len(),
            |i: int|
                (text_or_empty(rows[i][0]), text_or_empty(rows[i][1]), text_or_empty(rows[i][2])),
        ),
    }
}

pub(crate) fn cell(o: &Option<String>) -> (r: String)
    ensures
        r@ == text_or_empty(crate::strings::opt_view(*o)),
{
    match o {
        Some(s) => s.clone(),
        None => String::new(),
    }
}

/// Judges the packages of a lock file.
pub fn inspect_cargo_lock(path: &str, raw: &str, blockers: &mut Vec<StaticIndicator>) -> (r: Result<
    (),
    SupplyChainError,
>)
    ensures
        match toml_rows(raw@, "package"@, lock_fields()) {
            Ok(rows) => r is Ok && said(final(blockers)@) == said(old(blockers)@) + lock_blockers(
                path@,
                packages_of(rows),
            ),
            Err(words) => final(blockers)@ == old(blockers)@ && (r matches Err(error) && error@
                == ScanFault::LockSyntax(path@, words)),
        },
{
    let fields = ["name", "version", "checksum"];
    assert(crate::strings::str_views(fields@) =~= lock_fields());
    let mut list: Vec<LockedPackage> = Vec::new();
    match read_toml_rows(raw, "package", &fields) {
        Err(words) => {
            return Err(SupplyChainError::LockSyntax(owned(path), words));
        },
        Ok(None) => {
            assert(packages(list@) =~= packages_of(None));
        },
        Ok(Some(rows)) => {
            let mut i: usize = 0;
            while i < rows.len()
                invariant
                    i <= rows@.len(),
                    forall|k: int| 0 <= k < rows@.len() ==> (#[trigger] rows@[k])@.len() == 3,
                    packages(list@) =~= packages_of(Some(cells(rows@))).take(i as int),
                decreases rows@.len() - i,
            {
                assert(cells(rows@)[i as int] == Seq::new(
                    rows@[i as int]@.len(),
                    |j: int| crate::strings::opt_view(rows@[i as int]@[j]),
                ));
                let ghost before = list@;
                list.push(
                    LockedPackage {
                        name: cell(&rows[i][0]),
                        version: cell(&rows[i][1]),
                        checksum: cell(&rows[i][2]),
                    },
                );
                assert(packages(list@) =~= packages(before).push(list@.last()@));
                i += 1;
            }
            assert(packages(list@) =~= packages_of(Some(cells(rows@))));
        },
    }
    inspect_packages(path, &list, blockers);
    Ok(())
}

/// The parts of a manifest that list dependencies.
pub open spec fn dependency_sections() -> Seq<Seq<char>> {
    seq!["dependencies"@, "build-dependencies"@, "dev-dependencies"@]
}

/// What blocks the build for the sake of a manifest: its own name and version, and the sections, in
/// order, that name the malicious package.
pub open spec fn manifest_blockers(
    path: Seq<char>,
    name: Seq<char>,
    version: Seq<char>,
    hits: Seq<bool>,
) -> Seq<Indicator> {
    package_blockers(path, (name, version, Seq::empty())) + section_blockers(path, hits)
}

pub open spec fn section_blockers(path: Seq<char>, hits: Seq<bool>) -> Seq<Indicator>
    decreases hits.len(),
{
    if hits.len() == 0 {
        Seq::empty()
    } else {
        let rest = section_blockers(path, hits.drop_last());
        if hits.last() {
            rest.push(
                Indicator {
                    rule_id: "SC-RUST-TYPOSQUAT-PROC-MACRO1"@,
                    severity: "blocker"@,
                    path,
                    summary: "清单引用已确认的拼写劫持 crate proc-macro1"@,
                    evidence: dependency_sections()[hits.len() - 1] + ".proc-macro1"@,
                },
            )
        } else {
            rest
        }
    }
}

/// Judges a manifest whose name, version and dependencies are known.
pub fn inspect_manifest_entries(
    path: &str,
    name: &str,
    version: &str,
    hits: [bool; 3],
    blockers: &mut Vec<StaticIndicator>,
)
    ensures
        said(final(blockers)@) == said(old(blockers)@) + manifest_blockers(
            path@,
            name@,
            version@,
            hits@,
        ),
{
    let ghost before = said(blockers@);
    proof {
        reveal_strlit("");
        assert(""@ =~= Seq::<char>::empty());
    }
    inspect_known_malicious_package(path, name, version, "", blockers);
    let ghost prior = said(blockers@);
    let sections = ["dependencies", "build-dependencies", "dev-dependencies"];
    let mut i: usize = 0;
    assert(hits@.take(0) =~= Seq::empty());
    assert(said(blockers@) =~= prior + section_blockers(path@, hits@.take(0)));
    while i < 3
        invariant
            i <= 3,
            hits@.len() == 3,
            sections@.len() == 3,
            crate::strings::str_views(sections@) =~= dependency_sections(),
            said(blockers@) == prior + section_blockers(path@, hits@.take(i as int)),
        decreases 3 - i,
    {
        assert(hits@.take(i + 1).drop_last() =~= hits@.take(i as int));
        if hits[i] {
            let section = sections[i];
            assert(section@ == crate::strings::str_views(sections@)[i as int]);
            let evidence = owned(section).concat(".proc-macro1");
            add_indicator(
                blockers,
                indicator(
                    "SC-RUST-TYPOSQUAT-PROC-MACRO1",
                    "blocker",
                    path,
                    "清单引用已确认的拼写劫持 crate proc-macro1",
                    evidence,
                ),
            );
        }
        assert(said(blockers@) =~= prior + section_blockers(path@, hits@.take(i + 1)));
        i += 1;
    }
    assert(hits@.take(3) =~= hits@);
    assert(said(blockers@) =~= before + manifest_blockers(path@, name@, version@, hits@));
}

/// What a manifest says, or the words of the parser.
pub open spec fn manifest_said(raw: Seq<char>) -> Result<(Seq<char>, Seq<char>, Seq<bool>), Seq<char>> {
    match (
        toml_text(raw, "package"@, "name"@),
        toml_text(raw, "package"@, "version"@),
        toml_has_key(raw, "dependencies"@, "proc-macro1"@),
        toml_has_key(raw, "build-dependencies"@, "proc-macro1"@),
        toml_has_key(raw, "dev-dependencies"@, "proc-macro1"@),
    ) {
        (Err(words), _, _, _, _) => Err(words),
        (_, Err(words), _, _, _) => Err(words),
        (_, _, Err(words), _, _) => Err(words),
        (_, _, _, Err(words), _) => Err(words),
        (_, _, _, _, Err(words)) => Err(words),
        (Ok(name), Ok(version), Ok(normal), Ok(build), Ok(dev)) => Ok(
            (text_or_empty(name), text_or_empty(version), seq![normal, build, dev]),
        ),
    }
}

fn read_manifest(raw: &str) -> (r: Result<(String, String, [bool; 3]), String>)
    ensures
        match r {
            Ok((name, version, hits)) => manifest_said(raw@) == Ok::<
                (Seq<char>, Seq<char>, Seq<bool>),
                Seq<char>,
            >((name@, version@, hits@)),
            Err(words) => manifest_said(raw@) == Err::<(Seq<char>, Seq<char>, Seq<bool>), Seq<char>>(
                words@,
            ),
        },
{
    let name = match read_toml_text(raw, "package", "name") {
        Ok(found) => cell(&found),
        Err(words) => {
            return Err(words);
        },
    };
    let version = match read_toml_text(raw, "package", "version") {
        Ok(found) => cell(&found),
        Err(words) => {
            return Err(words);
        },
    };
    let normal = match read_toml_has_key(raw, "dependencies", "proc-macro1") {
        Ok(found) => found,
        Err(words) => {
            return Err(words);
        },
    };
    let build = match read_toml_has_key(raw, "build-dependencies", "proc-macro1") {
        Ok(found) => found,
        Err(words) => {
            return Err(words);
        },
    };
    let dev = match read_toml_has_key(raw, "dev-dependencies", "proc-macro1") {
        Ok(found) => found,
        Err(words) => {
            return Err(words);
        },
    };
    let hits = [normal, build, dev];
    assert(hits@ =~= seq![normal, build, dev]);
    Ok((name, version, hits))
}

/// Judges a manifest.
pub fn inspect_cargo_manifest(path: &str, raw: &str, blockers: &mut Vec<StaticIndicator>) -> (r:
    Result<(), SupplyChainError>)
    ensures
        match manifest_said(raw@) {
            Ok((name, version, hits)) => r is Ok && said(final(blockers)@) == said(old(blockers)@)
                + manifest_blockers(path@, name, version, hits),
            Err(words) => final(blockers)@ == old(blockers)@ && (r matches Err(error) && error@
                == ScanFault::ManifestSyntax(path@, words)),
        },
{
    match read_manifest(raw) {
        Err(words) => Err(SupplyChainError::ManifestSyntax(owned(path), words)),
        Ok((name, version, hits)) => {
            inspect_manifest_entries(path, name.as_str(), version.as_str(), hits, blockers);
            Ok(())
        },
    }
}

/// What tells two indicators apart.
pub open spec fn key(item: Indicator) -> Seq<char> {
    item.rule_id + ":"@ + item.path + ":"@ + item.evidence
}

pub open spec fn keys(list: Seq<Indicator>) -> Seq<Seq<char>> {
    Seq::new(list.len(), |i: int| key(list[i]))
}

/// The indicators without those whose key came before.
pub open spec fn deduplicated(list: Seq<Indicator>) -> Seq<Indicator>
    decreases list.len(),
{
    if list.len() == 0 {
        Seq::empty()
    } else {
        let rest = deduplicated(list.drop_last());
        if keys(rest).contains(key(list.last())) {
            rest
        } else {
            rest.push(list.last())
        }
    }
}

fn key_of(item: &StaticIndicator) -> (r: String)
    ensures
        r@ == key(item@),
{
    owned(item.rule_id.as_str()).concat(":").concat(item.path.as_str()).concat(":").concat(
        item.evidence.as_str(),
    )
}

fn copy_indicator(item: &StaticIndicator) -> (r: StaticIndicator)
    ensures
        r@ == item@,
{
    StaticIndicator {
        rule_id: item.rule_id.clone(),
        severity: item.severity.clone(),
        path: item.path.clone(),
        summary: item.summary.clone(),
        evidence: item.evidence.clone(),
    }
}

/// Keeps the first of the indicators with one key.
pub fn deduplicate_indicators(indicators: &mut Vec<StaticIndicator>)
    ensures
        said(final(indicators)@) == deduplicated(said(old(indicators)@)),
{
    let mut kept: Vec<StaticIndicator> = Vec::new();
    let mut seen: Vec<String> = Vec::new();
    let ghost all = said(indicators@);
    let mut i: usize = 0;
    assert(all.take(0) =~= Seq::empty());
    while i < indicators.len()
        invariant
            i <= indicators@.len(),
            all == said(indicators@),
            all == said(old(indicators)@),
            said(kept@) =~= deduplicated(all.take(i as int)),
            crate::strings::views(seen@) =~= keys(said(kept@)),
        decreases indicators@.len() - i,
    {
        assert(all.take(i + 1).drop_last() =~= all.take(i as int));
        let k = key_of(&indicators[i]);
        if !crate::strings::is_in(k.as_str(), &seen) {
            let ghost prior = seen@;
            let ghost prior_kept = said(kept@);
            seen.push(k);
            add_indicator(&mut kept, copy_indicator(&indicators[i]));
            assert(crate::strings::views(seen@) =~= crate::strings::views(prior).push(k@));
            assert(keys(said(kept@)) =~= keys(prior_kept).push(k@));
        }
        i += 1;
    }
    assert(all.take(all.len() as int) =~= all);
    *indicators = kept;
}

/// A report in which nothing stands twice, and which allows the build where nothing blocks it.
pub open spec fn is_report(
    report: StaticScanReport,
    project: Seq<char>,
    root: Seq<char>,
    scanned: int,
    blockers: Seq<Indicator>,
    warnings: Seq<Indicator>,
) -> bool {
    &&& report.project@ == project
    &&& report.root@ == root
    &&& report.scanned_files == scanned
    &&& said(report.blockers@) == deduplicated(blockers)
    &&& said(report.warnings@) == deduplicated(warnings)
    &&& report.build_allowed == (deduplicated(blockers).len() == 0)
    &&& report.dedupe_key@ == crate::digest::text_digest(
        crate::strings::join(
            keys(deduplicated(blockers) + deduplicated(warnings)),
            "\n"@,
        ),
    )
}

fn add_keys(list: &Vec<StaticIndicator>, out: &mut Vec<String>)
    ensures
        crate::strings::views(final(out)@) == crate::strings::views(old(out)@) + keys(said(list@)),
{
    let ghost before = crate::strings::views(out@);
    let mut i: usize = 0;
    while i < list.len()
        invariant
            i <= list@.len(),
            crate::strings::views(out@) =~= before + keys(said(list@)).take(i as int),
        decreases list@.len() - i,
    {
        let ghost prior = out@;
        out.push(key_of(&list[i]));
        assert(crate::strings::views(out@) =~= crate::strings::views(prior).push(
            keys(said(list@))[i as int],
        ));
        i += 1;
    }
    assert(keys(said(list@)).take(list@.len() as int) =~= keys(said(list@)));
}

/// Puts what was found together to a report.
pub fn finalize_static_report(
    project: &str,
    root: String,
    scanned_files: usize,
    blockers: Vec<StaticIndicator>,
    warnings: Vec<StaticIndicator>,
) -> (r: StaticScanReport)
    ensures
        is_report(r, project@, root@, scanned_files as int, said(blockers@), said(warnings@)),
        crate::text::has_prefix_of(r.dedupe_key@, 32),
{
    let mut blockers = blockers;
    let mut warnings = warnings;
    deduplicate_indicators(&mut blockers);
    deduplicate_indicators(&mut warnings);
    let mut source: Vec<String> = Vec::new();
    add_keys(&blockers, &mut source);
    add_keys(&warnings, &mut source);
    assert(crate::strings::views(source@) =~= keys(said(blockers@) + said(warnings@)));
    let dedupe_key = digest_text(join_with(&source, "\n").as_str());
    StaticScanReport {
        project: owned(project),
        root,
        scanned_files,
        build_allowed: blockers.len() == 0,
        blockers,
        warnings,
        dedupe_key,
    }
}

pub open spec fn all_blockers(reports: Seq<StaticScanReport>) -> Seq<Indicator>
    decreases reports.len(),
{
    if reports.len() == 0 {
        Seq::empty()
    } else {
        all_blockers(reports.drop_last()) + said(reports.last().blockers@)
    }
}

pub open spec fn all_warnings(reports: Seq<StaticScanReport>) -> Seq<Indicator>
    decreases reports.len(),
{
    if reports.len() == 0 {
        Seq::empty()
    } else {
        all_warnings(reports.drop_last()) + said(reports.last().warnings@)
    }
}

pub open spec fn all_scanned(reports: Seq<StaticScanReport>) -> int
    decreases reports.len(),
{
    if reports.len() == 0 {
        0
    } else {
        all_scanned(reports.drop_last()) + reports.last().scanned_files
    }
}

proof fn lemma_scanned_grows(reports: Seq<StaticScanReport>, i: int)
    requires
        0 <= i <= reports.len(),
    ensures
        0 <= all_scanned(reports.take(i)) <= all_scanned(reports),
    decreases reports.len() - i,
{
    if i < reports.len() {
        lemma_scanned_grows(reports, i + 1);
        assert(reports.take(i + 1).drop_last() =~= reports.take(i));
        lemma_scanned_nonnegative(reports.take(i));
    } else {
        assert(reports.take(i) =~= reports);
        lemma_scanned_nonnegative(reports);
    }
}

proof fn lemma_scanned_nonnegative(reports: Seq<StaticScanReport>)
    ensures
        0 <= all_scanned(reports),
    decreases reports.len(),
{
    if reports.len() > 0 {
        lemma_scanned_nonnegative(reports.drop_last());
    }
}

fn add_copies(list: &Vec<StaticIndicator>, out: &mut Vec<StaticIndicator>)
    ensures
        said(final(out)@) == said(old(out)@) + said(list@),
{
    let ghost before = said(out@);
    let mut i: usize = 0;
    while i < list.len()
        invariant
            i <= list@.len(),
            said(out@) =~= before + said(list@).take(i as int),
        decreases list@.len() - i,
    {
        add_indicator(out, copy_indicator(&list[i]));
        i += 1;
    }
    assert(said(list@).take(list@.len() as int) =~= said(list@));
}

/// One report out of several.
pub fn merge_static_reports(project: &str, root: String, reports: &Vec<StaticScanReport>) -> (r:
    StaticScanReport)
    requires
        all_scanned(reports@) <= usize::MAX,
    ensures
        is_report(
            r,
            project@,
            root@,
            all_scanned(reports@),
            all_blockers(reports@),
            all_warnings(reports@),
        ),
        crate::text::has_prefix_of(r.dedupe_key@, 32),
{
    let mut scanned: usize = 0;
    let mut blockers: Vec<StaticIndicator> = Vec::new();
    let mut warnings: Vec<StaticIndicator> = Vec::new();
    let mut i: usize = 0;
    assert(reports@.take(0) =~= Seq::empty());
    assert(said(blockers@) =~= Seq::empty());
    while i < reports.len()
        invariant
            i <= reports@.len(),
            all_scanned(reports@) <= usize::MAX,
            scanned == all_scanned(reports@.take(i as int)),
            said(blockers@) =~= all_blockers(reports@.take(i as int)),
            said(warnings@) =~= all_warnings(reports@.take(i as int)),
        decreases reports@.len() - i,
    {
        assert(reports@.take(i + 1).drop_last() =~= reports@.take(i as int));
        proof {
            lemma_scanned_grows(reports@, i + 1);
        }
        scanned += reports[i].scanned_files;
        add_copies(&reports[i].blockers, &mut blockers);
        add_copies(&reports[i].warnings, &mut warnings);
        i += 1;
    }
    assert(reports@.take(reports@.len() as int) =~= reports@);
    finalize_static_report(project, root, scanned, blockers, warnings)
}

/// A directory that holds nothing that is built.
pub open spec fn is_ignored(parent: Seq<char>, name: Seq<char>) -> bool {
    name == ".git"@ || name == "target"@ || name == "node_modules"@ || (name == "fixtures"@ && parent
        == "tests"@)
}

/// Whether the directory `name` in a directory called `parent` is passed over.
pub fn directory_is_ignored(parent: &str, name: &str) -> (r: bool)
    ensures
        r == is_ignored(parent@, name@),
{
    same(name, ".git") || same(name, "target") || same(name, "node_modules") || (same(
        name,
        "fixtures",
    ) && same(parent, "tests"))
}

/// What is found in a directory.
#[derive(Debug)]
pub struct TreeEntry {
    pub parent: String,
    pub name: String,
    pub path: String,
    pub is_symlink: bool,
    pub is_dir: bool,
    pub bytes: u64,
}

/// What to do with an entry.
#[derive(Debug, Clone, Copy, PartialEq, Eq, Structural)]
pub enum EntryAction {
    Skip,
    Descend,
    Take,
}

/// The names of the files that are checked.
pub open spec fn is_static_name(name: Seq<char>) -> bool {
    name == "Cargo.lock"@ || name == "Cargo.toml"@ || name == "build.rs"@
}

/// What to do with an entry when `taken` files were taken before: links are passed over, so are
/// directories without sources, and the files to be checked have to keep to the limits.
pub open spec fn entry_rule(entry: TreeEntry, taken: int) -> Result<EntryAction, ScanFault> {
    if entry.is_symlink {
        Ok(EntryAction::Skip)
    } else if entry.is_dir {
        if is_ignored(entry.parent@, entry.name@) {
            Ok(EntryAction::Skip)
        } else {
            Ok(EntryAction::Descend)
        }
    } else if !is_static_name(entry.name@) {
        Ok(EntryAction::Skip)
    } else if entry.bytes > MAX_STATIC_FILE_BYTES {
        Err(ScanFault::TooLarge(entry.path@))
    } else if taken + 1 > MAX_STATIC_FILES {
        Err(ScanFault::TooMany)
    } else {
        Ok(EntryAction::Take)
    }
}

/// Decides what to do with an entry of the tree.
pub fn collect_static_entry(entry: &TreeEntry, taken: usize) -> (r: Result<
    EntryAction,
    SupplyChainError,
>)
    ensures
        match r {
            Ok(action) => entry_rule(*entry, taken as int) == Ok::<EntryAction, ScanFault>(action),
            Err(error) => entry_rule(*entry, taken as int) == Err::<EntryAction, ScanFault>(error@),
        },
        r == Ok::<EntryAction, SupplyChainError>(EntryAction::Take) <==> !entry.is_symlink
            && !entry.is_dir && (entry.name@ == "Cargo.lock"@ || entry.name@ == "Cargo.toml"@
            || entry.name@ == "build.rs"@) && entry.bytes <= MAX_STATIC_FILE_BYTES && taken
            < MAX_STATIC_FILES,
{
    let name = entry.name.as_str();
    if entry.is_symlink {
        Ok(EntryAction::Skip)
    } else if entry.is_dir {
        if directory_is_ignored(entry.parent.as_str(), name) {
            Ok(EntryAction::Skip)
        } else {
            Ok(EntryAction::Descend)
        }
    } else if !(same(name, "Cargo.lock") || same(name, "Cargo.toml") || same(name, "build.rs")) {
        Ok(EntryAction::Skip)
    } else if entry.bytes > MAX_STATIC_FILE_BYTES {
        Err(SupplyChainError::TooLarge(owned(entry.path.as_str())))
    } else if taken >= MAX_STATIC_FILES {
        Err(SupplyChainError::TooMany)
    } else {
        Ok(EntryAction::Take)
    }
}

/// A file of the tree: its name, its path below the root and its text.
#[derive(Debug)]
pub struct StaticFile {
    pub name: String,
    pub path: String,
    pub text: String,
}

/// What one file adds to the blockers and the warnings.
pub open spec fn file_said(file: StaticFile) -> Result<(Seq<Indicator>, Seq<Indicator>), ScanFault> {
    if file.name@ == "Cargo.lock"@ {
        match toml_rows(file.text@, "package"@, lock_fields()) {
            Ok(rows) => Ok((lock_blockers(file.path@, packages_of(rows)), Seq::empty())),
            Err(words) => Err(ScanFault::LockSyntax(file.path@, words)),
        }
    } else if file.name@ == "Cargo.toml"@ {
        match manifest_said(file.text@) {
            Ok((name, version, hits)) => Ok(
                (manifest_blockers(file.path@, name, version, hits), Seq::empty()),
            ),
            Err(words) => Err(ScanFault::ManifestSyntax(file.path@, words)),
        }
    } else if file.name@ == "build.rs"@ {
        Ok(
            (
                script_blockers(file.path@, script_traits(file.text@)),
                script_warnings(file.path@, script_traits(file.text@)),
            ),
        )
    } else {
        Ok((Seq::empty(), Seq::empty()))
    }
}

/// What the first `n` files add, or the fault of the first of them that has one.
pub open spec fn tree_said(files: Seq<StaticFile>, n: int) -> Result<
    (Seq<Indicator>, Seq<Indicator>),
    ScanFault,
>
    decreases n,
{
    if n <= 0 {
        Ok((Seq::empty(), Seq::empty()))
    } else {
        match tree_said(files, n - 1) {
            Err(fault) => Err(fault),
            Ok((blockers, warnings)) => match file_said(files[n - 1]) {
                Err(fault) => Err(fault),
                Ok((more_blockers, more_warnings)) => Ok(
                    (blockers + more_blockers, warnings + more_warnings),
                ),
            },
        }
    }
}

proof fn lemma_tree_fault(files: Seq<StaticFile>, i: int, n: int)
    requires
        0 <= i <= n,
        tree_said(files, i) is Err,
    ensures
        tree_said(files, n) == tree_said(files, i),
    decreases n - i,
{
    if i < n {
        lemma_tree_fault(files, i, n - 1);
    }
}

/// Judges the files of a tree, in the order in which they are given.
pub fn scan_supply_chain_tree(project: &str, root: String, files: &Vec<StaticFile>) -> (r: Result<
    StaticScanReport,
    SupplyChainError,
>)
    ensures
        match r {
            Ok(report) => tree_said(files@, files@.len() as int) matches Ok((blockers, warnings))
                && is_report(
                report,
                project@,
                root@,
                files@.len() as int,
                blockers,
                warnings,
            ) && crate::text::has_prefix_of(report.dedupe_key@, 32),
            Err(error) => tree_said(files@, files@.len() as int) == Err::<
                (Seq<Indicator>, Seq<Indicator>),
                ScanFault,
            >(error@),
        },
{
    let mut blockers: Vec<StaticIndicator> = Vec::new();
    let mut warnings: Vec<StaticIndicator> = Vec::new();
    let mut i: usize = 0;
    assert(said(blockers@) =~= Seq::empty());
    while i < files.len()
        invariant
            i <= files@.len(),
            tree_said(files@, i as int) == Ok::<(Seq<Indicator>, Seq<Indicator>), ScanFault>(
                (said(blockers@), said(warnings@)),
            ),
        decreases files@.len() - i,
    {
        let name = files[i].name.as_str();
        let path = files[i].path.as_str();
        let text = files[i].text.as_str();
        let ghost prior_blockers = said(blockers@);
        let ghost prior_warnings = said(warnings@);
        let outcome = if same(name, "Cargo.lock") {
            inspect_cargo_lock(path, text, &mut blockers)
        } else if same(name, "Cargo.toml") {
            inspect_cargo_manifest(path, text, &mut blockers)
        } else if same(name, "build.rs") {
            inspect_build_script(path, text, &mut blockers, &mut warnings);
            Ok(())
        } else {
            Ok(())
        };
        match outcome {
            Ok(()) => {},
            Err(error) => {
                proof {
                    lemma_tree_fault(files@, i + 1, files@.len() as int);
                }
                return Err(error);
            },
        }
        proof {
            assert(prior_blockers + Seq::<Indicator>::empty() =~= prior_blockers);
            assert(prior_warnings + Seq::<Indicator>::empty() =~= prior_warnings);
        }
        i += 1;
    }
    Ok(finalize_static_report(project, root, files.len(), blockers, warnings))
}

} // verus!
