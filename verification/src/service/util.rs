//! Small rules of the service.
use crate::command::CommandOutput;
use crate::config::{BranchConfig, Config, SyncStrategy};
use crate::conflict::ResolvedFile;
use crate::git::ConflictFileContent;
use crate::llm::ConflictProposal;
use crate::protection::investigate::find_branch;
use crate::strings::{
    byte_len, contains, i32_to_string, is_in, is_one_of, owned, same, split_inclusive,
    starts_with, to_chars, trim, trim_end_char,
};
use vstd::prelude::*;

verus! {

/// What is kept of a command that failed.
pub open spec fn output_details(action: Seq<char>, o: CommandOutput) -> Seq<char> {
    action + "\n\nexit code: "@ + crate::strings::decimal_int(o.status as int) + "\n\nstdout:\n"@
        + crate::strings::trimmed(o.stdout@) + "\n\nstderr:\n"@ + crate::strings::trimmed(o.stderr@)
}

pub fn command_output_details(action: &str, output: &CommandOutput) -> (r: String)
    ensures
        r@ == output_details(action@, *output),
{
    owned(action).concat("\n\nexit code: ").concat(i32_to_string(output.status).as_str()).concat(
        "\n\nstdout:\n",
    ).concat(trim(output.stdout.as_str()).as_str()).concat("\n\nstderr:\n").concat(
        trim(output.stderr.as_str()).as_str(),
    )
}

/// What is wrong with a file that is to stand in the place of one in conflict.
pub open spec fn text_fault(path: Seq<char>, content: Seq<char>, conflict_files: Seq<Seq<char>>) -> Option<
    Seq<char>,
> {
    if !conflict_files.contains(path) {
        Some("候选文件不属于冲突文件："@ + path)
    } else if crate::strings::occurs(content, "<<<<<<<"@) || crate::strings::occurs(
        content,
        "======="@,
    ) || crate::strings::occurs(content, ">>>>>>>"@) {
        Some("候选文件仍包含冲突标记："@ + path)
    } else if crate::strings::occurs(content, "... file truncated by TermiteRS ..."@) {
        Some("候选文件基于被截断的内容："@ + path)
    } else {
        None
    }
}

/// What is wrong with the first file, at or behind `i`, that is wrong.
pub open spec fn texts_fault_from(
    files: Seq<(Seq<char>, Seq<char>)>,
    conflict_files: Seq<Seq<char>>,
    i: int,
) -> Option<Seq<char>>
    decreases files.len() - i,
{
    if i >= files.len() {
        None
    } else {
        match text_fault(files[i].0, files[i].1, conflict_files) {
            Some(words) => Some(words),
            None => texts_fault_from(files, conflict_files, i + 1),
        }
    }
}

/// Why files cannot stand in the place of those in conflict.
pub open spec fn file_texts_fault(
    files: Seq<(Seq<char>, Seq<char>)>,
    conflict_files: Seq<Seq<char>>,
) -> Option<Seq<char>> {
    if files.len() == 0 {
        Some("DeepSeek 没有返回候选文件"@)
    } else {
        texts_fault_from(files, conflict_files, 0)
    }
}

pub fn validate_files(files: &Vec<ResolvedFile>, conflict_files: &Vec<String>) -> (r: Result<(), String>)
    ensures
        match r {
            Ok(_) => file_texts_fault(
                crate::service::work::file_texts(files@),
                crate::strings::views(conflict_files@),
            ) is None,
            Err(words) => file_texts_fault(
                crate::service::work::file_texts(files@),
                crate::strings::views(conflict_files@),
            ) == Some(words@),
        },
{
    let ghost texts = crate::service::work::file_texts(files@);
    let ghost names = crate::strings::views(conflict_files@);
    if files.len() == 0 {
        return Err(owned("DeepSeek 没有返回候选文件"));
    }
    let mut i: usize = 0;
    while i < files.len()
        invariant
            i <= files@.len(),
            files@.len() > 0,
            texts == crate::service::work::file_texts(files@),
            names == crate::strings::views(conflict_files@),
            texts_fault_from(texts, names, 0) == texts_fault_from(texts, names, i as int),
        decreases files@.len() - i,
    {
        let path = files[i].path.as_str();
        let content = files[i].content.as_str();
        if !is_in(path, conflict_files) {
            return Err(owned("候选文件不属于冲突文件：").concat(path));
        }
        if contains(content, "<<<<<<<") || contains(content, "=======") || contains(content, ">>>>>>>") {
            return Err(owned("候选文件仍包含冲突标记：").concat(path));
        }
        if contains(content, "... file truncated by TermiteRS ...") {
            return Err(owned("候选文件基于被截断的内容：").concat(path));
        }
        i += 1;
    }
    Ok(())
}

/// The branch with this name.
pub fn configured_branch(config: &Config, name: &str) -> (r: Result<usize, String>)
    ensures
        match r {
            Ok(i) => i < config.branches@.len() && crate::protection::investigate::branch_named(
                config.branches@,
                name@,
                0,
            ) == Some(i as int),
            Err(words) => crate::protection::investigate::branch_named(config.branches@, name@, 0) is None
                && words@ == "分支不在白名单中："@ + name@,
        },
{
    match find_branch(&config.branches, name) {
        Some(i) => Ok(i),
        None => Err(owned("分支不在白名单中：").concat(name)),
    }
}

/// Refuses an operation on a job that is not in one of the allowed states.
pub fn ensure_state(state: &str, allowed: &[&str]) -> (r: Result<(), String>)
    ensures
        match r {
            Ok(_) => crate::strings::str_views(allowed@).contains(state@),
            Err(words) => !crate::strings::str_views(allowed@).contains(state@) && words@ == "任务状态 "@
                + state@ + " 不允许执行该操作"@,
        },
{
    if is_one_of(state, allowed) {
        Ok(())
    } else {
        Err(owned("任务状态 ").concat(state).concat(" 不允许执行该操作"))
    }
}

/// How many bytes of a conflicted file are kept.
pub fn capture_limit(branch: &BranchConfig) -> (r: usize)
    ensures
        r == (if branch.auto_resolve.max_file_bytes < 40 * 1024 {
            40960
        } else {
            branch.auto_resolve.max_file_bytes
        }),
{
    if branch.auto_resolve.max_file_bytes < 40 * 1024 {
        40 * 1024
    } else {
        branch.auto_resolve.max_file_bytes
    }
}

#[derive(Debug, Clone, Copy, PartialEq, Eq, Structural)]
pub enum ConflictSide {
    Ours,
    Theirs,
}

/// Where the reading of a file with conflicts stands.
#[derive(Debug, Clone, Copy, PartialEq, Eq, Structural)]
pub enum SideMode {
    Normal,
    Ours,
    Theirs,
}

/// What has been read of a file with conflicts.
#[verifier::ext_equal]
pub struct SideState {
    pub mode: SideMode,
    pub output: Seq<char>,
    pub ours: Seq<char>,
    pub theirs: Seq<char>,
    pub seen: bool,
}

pub open spec fn side_start() -> SideState {
    SideState {
        mode: SideMode::Normal,
        output: Seq::empty(),
        ours: Seq::empty(),
        theirs: Seq::empty(),
        seen: false,
    }
}

/// One more line is read.
pub open spec fn side_line(s: SideState, line: Seq<char>, side: ConflictSide) -> Result<
    SideState,
    Seq<char>,
> {
    if crate::conflict::is_marker(line, "<<<<<<<"@) {
        if s.mode is Normal {
            Ok(
                SideState {
                    mode: SideMode::Ours,
                    ours: Seq::empty(),
                    theirs: Seq::empty(),
                    seen: true,
                    ..s
                },
            )
        } else {
            Err("冲突标记嵌套或顺序错误"@)
        }
    } else if crate::conflict::is_marker(line, "======="@) {
        if s.mode is Ours {
            Ok(SideState { mode: SideMode::Theirs, ..s })
        } else {
            Err("冲突分隔符顺序错误"@)
        }
    } else if crate::conflict::is_marker(line, ">>>>>>>"@) {
        if s.mode is Theirs {
            Ok(
                SideState {
                    mode: SideMode::Normal,
                    output: s.output + match side {
                        ConflictSide::Ours => s.ours,
                        ConflictSide::Theirs => s.theirs,
                    },
                    ..s
                },
            )
        } else {
            Err("冲突结束标记顺序错误"@)
        }
    } else {
        Ok(
            match s.mode {
                SideMode::Normal => SideState { output: s.output + line, ..s },
                SideMode::Ours => SideState { ours: s.ours + line, ..s },
                SideMode::Theirs => SideState { theirs: s.theirs + line, ..s },
            },
        )
    }
}

/// The first lines are read.
pub open spec fn side_lines(lines: Seq<Seq<char>>, side: ConflictSide) -> Result<SideState, Seq<char>>
    decreases lines.len(),
{
    if lines.len() == 0 {
        Ok(side_start())
    } else {
        match side_lines(lines.drop_last(), side) {
            Err(words) => Err(words),
            Ok(s) => side_line(s, lines.last(), side),
        }
    }
}

/// A file with one side of every conflict.
pub open spec fn one_side(content: Seq<char>, side: ConflictSide) -> Result<Seq<char>, Seq<char>> {
    match side_lines(crate::strings::inclusive(content), side) {
        Err(words) => Err(words),
        Ok(s) => if !(s.mode is Normal) {
            Err("冲突标记未闭合"@)
        } else if !s.seen {
            Err("文件不包含 Git 冲突标记"@)
        } else {
            Ok(s.output)
        },
    }
}

proof fn lemma_side_error(lines: Seq<Seq<char>>, side: ConflictSide, i: int)
    requires
        0 <= i <= lines.len(),
        side_lines(lines.take(i), side) is Err,
    ensures
        side_lines(lines, side) == side_lines(lines.take(i), side),
    decreases lines.len() - i,
{
    if i < lines.len() {
        assert(lines.take(i + 1).drop_last() =~= lines.take(i));
        lemma_side_error(lines, side, i + 1);
    } else {
        assert(lines.take(i) =~= lines);
    }
}

/// Takes one side of every conflict.
pub fn resolve_conflict_side(content: &str, side: ConflictSide) -> (r: Result<String, String>)
    ensures
        match r {
            Ok(text) => one_side(content@, side) == Ok::<Seq<char>, Seq<char>>(text@),
            Err(words) => one_side(content@, side) == Err::<Seq<char>, Seq<char>>(words@),
        },
{
    let lines = split_inclusive(content);
    let ghost all = crate::strings::views(lines@);
    let mut mode = SideMode::Normal;
    let mut output = String::new();
    let mut ours = String::new();
    let mut theirs = String::new();
    let mut seen = false;
    let mut i: usize = 0;
    assert(all.take(0) =~= Seq::empty());
    while i < lines.len()
        invariant
            i <= lines@.len(),
            all == crate::strings::views(lines@),
            all == crate::strings::inclusive(content@),
            side_lines(all.take(i as int), side) == Ok::<SideState, Seq<char>>(
                SideState { mode, output: output@, ours: ours@, theirs: theirs@, seen },
            ),
        decreases lines@.len() - i,
    {
        let ghost before = SideState { mode, output: output@, ours: ours@, theirs: theirs@, seen };
        let ghost line = all[i as int];
        assert(all.take(i + 1).drop_last() =~= all.take(i as int));
        assert(all.take(i + 1).last() == line);
        assert(side_lines(all.take(i + 1), side) == side_line(before, line, side));
        let marker = without_eol(lines[i].as_str());
        if starts_with(marker.as_str(), "<<<<<<<") {
            match mode {
                SideMode::Normal => {},
                _ => {
                    proof {
                        lemma_side_error(all, side, i + 1);
                    }
                    return Err(owned("冲突标记嵌套或顺序错误"));
                },
            }
            seen = true;
            ours = String::new();
            theirs = String::new();
            mode = SideMode::Ours;
        } else if starts_with(marker.as_str(), "=======") {
            match mode {
                SideMode::Ours => {},
                _ => {
                    proof {
                        lemma_side_error(all, side, i + 1);
                    }
                    return Err(owned("冲突分隔符顺序错误"));
                },
            }
            mode = SideMode::Theirs;
        } else if starts_with(marker.as_str(), ">>>>>>>") {
            match mode {
                SideMode::Theirs => {},
                _ => {
                    proof {
                        lemma_side_error(all, side, i + 1);
                    }
                    return Err(owned("冲突结束标记顺序错误"));
                },
            }
            match side {
                ConflictSide::Ours => {
                    output.append(ours.as_str());
                },
                ConflictSide::Theirs => {
                    output.append(theirs.as_str());
                },
            }
            mode = SideMode::Normal;
        } else {
            match mode {
                SideMode::Normal => {
                    output.append(lines[i].as_str());
                },
                SideMode::Ours => {
                    ours.append(lines[i].as_str());
                },
                SideMode::Theirs => {
                    theirs.append(lines[i].as_str());
                },
            }
        }
        assert(side_line(before, line, side) == Ok::<SideState, Seq<char>>(
            SideState { mode, output: output@, ours: ours@, theirs: theirs@, seen },
        ));
        i += 1;
    }
    assert(all.take(all.len() as int) =~= all);
    match mode {
        SideMode::Normal => if seen {
            Ok(output)
        } else {
            Err(owned("文件不包含 Git 冲突标记"))
        },
        _ => Err(owned("冲突标记未闭合")),
    }
}

fn without_eol(line: &str) -> (r: String)
    ensures
        r@ == crate::conflict::trim_eol(line@),
{
    let chars = to_chars(line);
    let mut n: usize = chars.len();
    assert(line@.take(n as int) =~= line@);
    while n > 0 && (chars[n - 1] == '\r' || chars[n - 1] == '\n')
        invariant
            n <= chars@.len(),
            chars@ == line@,
            crate::conflict::trim_eol(line@) == crate::conflict::trim_eol(line@.take(n as int)),
        decreases n,
    {
        assert(line@.take(n as int).drop_last() =~= line@.take(n - 1));
        n -= 1;
    }
    assert(chars@.subrange(0, n as int) =~= line@.take(n as int));
    crate::strings::from_range(&chars, 0, n)
}

/// The summary of a choice that needs no model, and the side that it takes.
pub open spec fn standing_choice(option_id: Seq<char>, sync: SyncStrategy) -> Option<
    (Seq<char>, ConflictSide),
> {
    let rebase = sync is Rebase;
    if option_id == "accept-mine"@ {
        Some(
            (
                "全盘接受分支版本"@,
                if rebase {
                    ConflictSide::Theirs
                } else {
                    ConflictSide::Ours
                },
            ),
        )
    } else if option_id == "accept-theirs"@ {
        Some(
            (
                "全盘采用主干版本"@,
                if rebase {
                    ConflictSide::Ours
                } else {
                    ConflictSide::Theirs
                },
            ),
        )
    } else {
        None
    }
}

/// Why one side of a file cannot be taken.
pub open spec fn side_fault(file: ConflictFileContent, side: ConflictSide) -> Option<Seq<char>> {
    if crate::strings::occurs(file.content@, "... file truncated by TermiteRS ..."@) {
        Some(file.path@ + " 内容已被截断，不能执行全盘接收"@)
    } else {
        match one_side(file.content@, side) {
            Err(words) => Some("无法解析 "@ + file.path@ + ": "@ + words),
            Ok(_) => None,
        }
    }
}

/// Why one side of the first file, at or behind `i`, that is at fault cannot be taken.
pub open spec fn sides_fault(files: Seq<ConflictFileContent>, side: ConflictSide, i: int) -> Option<
    Seq<char>,
>
    decreases files.len() - i,
{
    if i >= files.len() {
        None
    } else {
        match side_fault(files[i], side) {
            Some(words) => Some(words),
            None => sides_fault(files, side, i + 1),
        }
    }
}

/// One side of every file.
pub open spec fn sides(files: Seq<ConflictFileContent>, side: ConflictSide) -> Seq<
    (Seq<char>, Seq<char>),
> {
    Seq::new(files.len(), |i: int| (files[i].path@, one_side(files[i].content@, side)->Ok_0))
}

/// The words where there is nothing to take a side of.
pub open spec fn nothing_to_take() -> Seq<char> {
    "当前任务没有可用于生成候选修改的冲突文件内容，请放弃后重新同步生成新的冲突现场"@
}

/// The proposal that takes one side throughout, where the option asks for that.
pub fn deterministic_proposal(
    files: &Vec<ConflictFileContent>,
    option_id: &str,
    sync: SyncStrategy,
) -> (r: Result<Option<ConflictProposal>, String>)
    ensures
        ({
            let choice = standing_choice(option_id@, sync);
            let picked = choice->0;
            match r {
                Ok(None) => choice is None,
                Ok(Some(proposal)) => {
                    &&& choice is Some
                    &&& files@.len() > 0
                    &&& sides_fault(files@, picked.1, 0) is None
                    &&& proposal.summary@ == picked.0
                    &&& crate::service::work::file_texts(proposal.files@) == sides(files@, picked.1)
                },
                Err(words) => choice is Some && if files@.len() == 0 {
                    words@ == nothing_to_take()
                } else {
                    sides_fault(files@, picked.1, 0) == Some(words@)
                },
            }
        }),
{
    let rebase = match sync {
        SyncStrategy::Rebase => true,
        SyncStrategy::Merge => false,
    };
    let mine = same(option_id, "accept-mine");
    if !mine && !same(option_id, "accept-theirs") {
        return Ok(None);
    }
    let summary = if mine {
        owned("全盘接受分支版本")
    } else {
        owned("全盘采用主干版本")
    };
    let side = if mine == rebase {
        ConflictSide::Theirs
    } else {
        ConflictSide::Ours
    };
    assert(standing_choice(option_id@, sync) == Some((summary@, side)));
    if files.len() == 0 {
        return Err(
            owned(
                "当前任务没有可用于生成候选修改的冲突文件内容，请放弃后重新同步生成新的冲突现场",
            ),
        );
    }
    let mut resolved: Vec<ResolvedFile> = Vec::new();
    let mut i: usize = 0;
    while i < files.len()
        invariant
            i <= files@.len(),
            files@.len() > 0,
            standing_choice(option_id@, sync) == Some((summary@, side)),
            sides_fault(files@, side, 0) == sides_fault(files@, side, i as int),
            resolved@.len() == i,
            forall|k: int|
                0 <= k < i ==> (#[trigger] resolved@[k]).path@ == files@[k].path@ && one_side(
                    files@[k].content@,
                    side,
                ) == Ok::<Seq<char>, Seq<char>>(resolved@[k].content@),
        decreases files@.len() - i,
    {
        let file = &files[i];
        if contains(file.content.as_str(), "... file truncated by TermiteRS ...") {
            return Err(owned(file.path.as_str()).concat(" 内容已被截断，不能执行全盘接收"));
        }
        match resolve_conflict_side(file.content.as_str(), side) {
            Err(words) => {
                return Err(
                    owned("无法解析 ").concat(file.path.as_str()).concat(": ").concat(words.as_str()),
                );
            },
            Ok(content) => {
                resolved.push(ResolvedFile { path: file.path.clone(), content });
            },
        }
        i += 1;
    }
    assert(crate::service::work::file_texts(resolved@) =~= sides(files@, side));
    Ok(Some(ConflictProposal { summary, files: resolved }))
}

/// The difference between two texts as `similar` writes it: unified, under two headings.
pub uninterp spec fn unified_diff(
    from: Seq<char>,
    to: Seq<char>,
    from_name: Seq<char>,
    to_name: Seq<char>,
) -> Seq<char>;

/// Compares with `similar::TextDiff::from_lines` and writes with `unified_diff` and `header`.
///
/// The result is a function of the texts and the headings.
#[verifier::external_body]
fn diff_of(from: &str, to: &str, from_name: &str, to_name: &str) -> (r: String)
    ensures
        r@ == unified_diff(from@, to@, from_name@, to_name@),
{
    let diff = similar::TextDiff::from_lines(from, to);
    diff.unified_diff().header(from_name, to_name).to_string()
}

/// The first original with this path.
pub open spec fn original_at(files: Seq<ConflictFileContent>, path: Seq<char>, i: int) -> Option<int>
    decreases files.len() - i,
{
    if i >= files.len() {
        None
    } else if files[i].path@ == path {
        Some(i)
    } else {
        original_at(files, path, i + 1)
    }
}

/// The differences that the first `n` files make.
pub open spec fn diffs(originals: Seq<ConflictFileContent>, files: Seq<(Seq<char>, Seq<char>)>, n: int)
    -> Result<Seq<char>, Seq<char>>
    decreases n,
{
    if n <= 0 {
        Ok(Seq::empty())
    } else {
        let (path, content) = files[n - 1];
        match diffs(originals, files, n - 1) {
            Err(words) => Err(words),
            Ok(text) => match original_at(originals, path, 0) {
                None => Err("找不到冲突文件内容："@ + path),
                Some(k) => Ok(
                    text + unified_diff(originals[k].content@, content, "a/"@ + path, "b/"@ + path)
                        + "\n"@,
                ),
            },
        }
    }
}

proof fn lemma_diff_error(
    originals: Seq<ConflictFileContent>,
    files: Seq<(Seq<char>, Seq<char>)>,
    i: int,
    n: int,
)
    requires
        0 <= i <= n,
        diffs(originals, files, i) is Err,
    ensures
        diffs(originals, files, n) == diffs(originals, files, i),
    decreases n - i,
{
    if i < n {
        lemma_diff_error(originals, files, i, n - 1);
    }
}

fn find_original(files: &Vec<ConflictFileContent>, path: &str) -> (r: Option<usize>)
    ensures
        match r {
            Some(i) => original_at(files@, path@, 0) == Some(i as int) && i < files@.len(),
            None => original_at(files@, path@, 0) is None,
        },
{
    let mut i: usize = 0;
    while i < files.len()
        invariant
            i <= files@.len(),
            original_at(files@, path@, 0) == original_at(files@, path@, i as int),
        decreases files@.len() - i,
    {
        if same(files[i].path.as_str(), path) {
            return Some(i);
        }
        i += 1;
    }
    None
}

/// The difference that a proposal makes to the files in conflict.
pub fn proposal_diff(original_files: &Vec<ConflictFileContent>, proposal: &ConflictProposal) -> (r: Result<
    String,
    String,
>)
    ensures
        ({
            let files = crate::service::work::file_texts(proposal.files@);
            match r {
                Ok(text) => diffs(original_files@, files, files.len() as int) == Ok::<
                    Seq<char>,
                    Seq<char>,
                >(text@),
                Err(words) => diffs(original_files@, files, files.len() as int) == Err::<
                    Seq<char>,
                    Seq<char>,
                >(words@),
            }
        }),
{
    let ghost files = crate::service::work::file_texts(proposal.files@);
    let mut output = String::new();
    let mut i: usize = 0;
    assert(diffs(original_files@, files, 0) == Ok::<Seq<char>, Seq<char>>(Seq::empty()));
    assert(output@ =~= Seq::empty());
    while i < proposal.files.len()
        invariant
            i <= proposal.files@.len(),
            files == crate::service::work::file_texts(proposal.files@),
            diffs(original_files@, files, i as int) == Ok::<Seq<char>, Seq<char>>(output@),
        decreases proposal.files@.len() - i,
    {
        let file = &proposal.files[i];
        let path = file.path.as_str();
        match find_original(original_files, path) {
            None => {
                proof {
                    lemma_diff_error(original_files@, files, i + 1, files.len() as int);
                }
                return Err(owned("找不到冲突文件内容：").concat(path));
            },
            Some(k) => {
                let from_name = owned("a/").concat(path);
                let to_name = owned("b/").concat(path);
                let diff = diff_of(
                    original_files[k].content.as_str(),
                    file.content.as_str(),
                    from_name.as_str(),
                    to_name.as_str(),
                );
                output.append(diff.as_str());
                output.append("\n");
            },
        }
        i += 1;
    }
    Ok(output)
}

/// Where a job is dealt with.
pub open spec fn job_link(base: Seq<char>, job_id: Seq<char>) -> Seq<char> {
    let base = crate::strings::trim_back_char(base, '/');
    if base.len() == 0 {
        "请登录博客后台处理。"@
    } else {
        base + "?job="@ + job_id
    }
}

pub fn dashboard_link(config: &Config, job_id: &str) -> (r: String)
    ensures
        r@ == job_link(config.service.public_dashboard_url@, job_id@),
{
    let base = trim_end_char(config.service.public_dashboard_url.as_str(), '/');
    proof {
        crate::text::lemma_no_bytes(base@);
    }
    if byte_len(base.as_str()) == 0 {
        owned("请登录博客后台处理。")
    } else {
        base.concat("?job=").concat(job_id)
    }
}

} // verus!
