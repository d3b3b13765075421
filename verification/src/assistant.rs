//! The assistant that answers questions about the configuration.
use crate::config::{BranchConfig, BranchKind, Config, PushStrategy, SyncStrategy};
use crate::strings::{
    join_with, list_of, owned, push_string, same, split_lines, starts_with, trim, u64_to_string,
};
use crate::text::is_blank;
use vstd::prelude::*;

verus! {

pub struct Assistant {
    pub config_path: String,
}

/// What a line of the user asks for.
#[derive(Debug)]
pub enum AssistantCommand {
    /// The line is empty.
    Nothing,
    Exit,
    Help,
    Doctor,
    Status,
    /// The doctor, and a rehearsal of the sync.
    Check,
    /// The doctor, and the sync.
    Sync,
    /// One run of the daemon.
    Once,
    /// The daemon, and nothing after it.
    Daemon,
    /// Any other words go to the model.
    Reply(String),
}

/// The words that are commands.
pub open spec fn is_command(text: Seq<char>) -> bool {
    text == "/exit"@ || text == "/quit"@ || text == "/help"@ || text == "/doctor"@ || text
        == "/status"@ || text == "/check"@ || text == "/sync"@ || text == "/once"@ || text
        == "/daemon"@
}

/// The lines of the help.
pub open spec fn help_lines() -> Seq<Seq<char>> {
    seq![
        "可用命令："@,
        "  /help    显示帮助"@,
        "  /doctor  检查 Git、SSH、远端和推送权限"@,
        "  /status  查看分支状态"@,
        "  /once    运行一次 daemon 同步并退出本次同步"@,
        "  /daemon  启动常驻核心进程"@,
        "  /exit    退出助理"@,
        ""@,
        "自然语言示例："@,
        "  我只想维护 my/ok-ww，自用分支，允许改远端历史，每小时检查一次。"@,
    ]
}

impl Assistant {
    pub fn new(config_path: String) -> (r: Assistant)
        ensures
            r.config_path == config_path,
    {
        Assistant { config_path }
    }

    /// What a line of the user asks for.
    pub fn run(&self, line: &str) -> (r: AssistantCommand)
        ensures
            ({
                let text = crate::strings::trimmed(line@);
                match r {
                    AssistantCommand::Nothing => text.len() == 0,
                    AssistantCommand::Exit => text == "/exit"@ || text == "/quit"@,
                    AssistantCommand::Help => text == "/help"@,
                    AssistantCommand::Doctor => text == "/doctor"@,
                    AssistantCommand::Status => text == "/status"@,
                    AssistantCommand::Check => text == "/check"@,
                    AssistantCommand::Sync => text == "/sync"@,
                    AssistantCommand::Once => text == "/once"@,
                    AssistantCommand::Daemon => text == "/daemon"@,
                    AssistantCommand::Reply(words) => text.len() > 0 && !is_command(text) && words@
                        == text,
                }
            }),
    {
        if is_blank(line) {
            return AssistantCommand::Nothing;
        }
        let text = trim(line);
        let input = text.as_str();
        if same(input, "/exit") || same(input, "/quit") {
            AssistantCommand::Exit
        } else if same(input, "/help") {
            AssistantCommand::Help
        } else if same(input, "/doctor") {
            AssistantCommand::Doctor
        } else if same(input, "/status") {
            AssistantCommand::Status
        } else if same(input, "/check") {
            AssistantCommand::Check
        } else if same(input, "/sync") {
            AssistantCommand::Sync
        } else if same(input, "/once") {
            AssistantCommand::Once
        } else if same(input, "/daemon") {
            AssistantCommand::Daemon
        } else {
            AssistantCommand::Reply(text)
        }
    }
}

/// The lines of the help.
pub fn print_help() -> (r: Vec<String>)
    ensures
        crate::strings::views(r@) == help_lines(),
{
    let lines = [
        "可用命令：",
        "  /help    显示帮助",
        "  /doctor  检查 Git、SSH、远端和推送权限",
        "  /status  查看分支状态",
        "  /once    运行一次 daemon 同步并退出本次同步",
        "  /daemon  启动常驻核心进程",
        "  /exit    退出助理",
        "",
        "自然语言示例：",
        "  我只想维护 my/ok-ww，自用分支，允许改远端历史，每小时检查一次。",
    ];
    assert(crate::strings::str_views(lines@) =~= help_lines());
    list_of(&lines)
}

/// A line of the instructions that is shown to the user.
pub open spec fn is_rule(line: Seq<char>) -> bool {
    crate::strings::starts(line, "- "@) || crate::strings::starts(line, "TermiteRS "@)
}

/// The rules among the first `n` lines, twelve of them at most.
pub open spec fn rules(lines: Seq<Seq<char>>, n: int) -> Seq<Seq<char>>
    decreases n,
{
    if n <= 0 {
        Seq::empty()
    } else {
        let before = rules(lines, n - 1);
        if is_rule(lines[n - 1]) && before.len() < 12 {
            before.push(lines[n - 1])
        } else {
            before
        }
    }
}

/// The first twelve rules of the instructions.
pub fn agent_summary(raw: &str) -> (r: Vec<String>)
    ensures
        crate::strings::views(r@) == rules(
            crate::strings::lines(raw@),
            crate::strings::lines(raw@).len() as int,
        ),
{
    let all = split_lines(raw);
    let ghost texts = crate::strings::lines(raw@);
    assert(all@.len() == texts.len());
    let mut out: Vec<String> = Vec::new();
    let mut i: usize = 0;
    assert(crate::strings::views(out@) =~= Seq::empty());
    while i < all.len()
        invariant
            i <= all@.len(),
            texts == crate::strings::views(all@),
            crate::strings::views(out@) == rules(texts, i as int),
        decreases all@.len() - i,
    {
        let line = all[i].as_str();
        assert(texts[i as int] == line@);
        assert(crate::strings::views(out@).len() == out@.len());
        if (starts_with(line, "- ") || starts_with(line, "TermiteRS ")) && out.len() < 12 {
            push_string(&mut out, owned(line));
        }
        i += 1;
    }
    out
}

pub open spec fn kind_word(kind: BranchKind) -> Seq<char> {
    match kind {
        BranchKind::Product => "Product"@,
        BranchKind::Pr => "Pr"@,
    }
}

pub open spec fn sync_word(sync: SyncStrategy) -> Seq<char> {
    match sync {
        SyncStrategy::Rebase => "Rebase"@,
        SyncStrategy::Merge => "Merge"@,
    }
}

pub open spec fn push_word(push: PushStrategy) -> Seq<char> {
    match push {
        PushStrategy::Never => "None"@,
        PushStrategy::Normal => "Normal"@,
        PushStrategy::ForceWithLease => "ForceWithLease"@,
    }
}

/// The line on a branch.
pub open spec fn branch_line(branch: BranchConfig) -> Seq<char> {
    "  - name: "@ + branch.name@ + ", kind: "@ + kind_word(branch.kind) + ", sync: "@ + sync_word(
        branch.sync,
    ) + ", push: "@ + push_word(branch.push) + ", note: "@ + (match branch.note {
        Some(note) => note@,
        None => "none"@,
    })
}

/// The lines on the branches.
pub open spec fn branch_lines(config: Config) -> Seq<char> {
    if config.branches@.len() == 0 {
        "  none"@
    } else {
        crate::strings::join(
            Seq::new(config.branches@.len(), |i: int| branch_line(config.branches@[i])),
            "\n"@,
        )
    }
}

fn describe_branch(branch: &BranchConfig) -> (r: String)
    ensures
        r@ == branch_line(*branch),
{
    let kind = match branch.kind {
        BranchKind::Product => "Product",
        BranchKind::Pr => "Pr",
    };
    let sync = match branch.sync {
        SyncStrategy::Rebase => "Rebase",
        SyncStrategy::Merge => "Merge",
    };
    let push = match branch.push {
        PushStrategy::Never => "None",
        PushStrategy::Normal => "Normal",
        PushStrategy::ForceWithLease => "ForceWithLease",
    };
    let note = match &branch.note {
        Some(note) => note.as_str(),
        None => "none",
    };
    owned("  - name: ").concat(branch.name.as_str()).concat(", kind: ").concat(kind).concat(
        ", sync: ",
    ).concat(sync).concat(", push: ").concat(push).concat(", note: ").concat(note)
}

/// The lines on the branches.
pub fn branch_summary(config: &Config) -> (r: String)
    ensures
        r@ == branch_lines(*config),
{
    if config.branches.len() == 0 {
        return owned("  none");
    }
    let ghost all = Seq::new(config.branches@.len(), |i: int| branch_line(config.branches@[i]));
    let mut lines: Vec<String> = Vec::new();
    let mut i: usize = 0;
    assert(crate::strings::views(lines@) =~= all.take(0));
    while i < config.branches.len()
        invariant
            i <= config.branches@.len(),
            all == Seq::new(config.branches@.len(), |i: int| branch_line(config.branches@[i])),
            crate::strings::views(lines@) == all.take(i as int),
        decreases config.branches@.len() - i,
    {
        push_string(&mut lines, describe_branch(&config.branches[i]));
        assert(all.take(i + 1) =~= all.take(i as int).push(all[i as int]));
        i += 1;
    }
    assert(all.take(all.len() as int) =~= all);
    join_with(&lines, "\n")
}

/// What the model is told of the question and the configuration.
pub fn build_user_prompt(input: &str, config: &Config) -> (r: String)
    ensures
        r@ == "用户需求：\n"@ + input@ + "\n\n当前配置摘要：\n- repo.path: "@ + config.repo.path@
            + "\n- upstream_remote: "@ + config.repo.upstream_remote@ + "\n- fork_remote: "@
            + config.repo.fork_remote@ + "\n- base_branch: "@ + config.repo.base_branch@
            + "\n- daemon.interval_seconds: "@ + crate::strings::decimal(
            config.daemon.interval_seconds as nat,
        ) + "\n- daemon.max_consecutive_failures: "@ + crate::strings::decimal(
            config.daemon.max_consecutive_failures as nat,
        ) + "\n- branches:\n"@ + branch_lines(*config)
            + "\n\n请根据助理规则给出配置建议。不要直接声称已经修改文件；如果需要修改，请列出建议修改的 YAML 片段和需要用户确认的问题。\n"@,
{
    owned("用户需求：\n").concat(input).concat("\n\n当前配置摘要：\n- repo.path: ").concat(
        config.repo.path.as_str(),
    ).concat("\n- upstream_remote: ").concat(config.repo.upstream_remote.as_str()).concat(
        "\n- fork_remote: ",
    ).concat(config.repo.fork_remote.as_str()).concat("\n- base_branch: ").concat(
        config.repo.base_branch.as_str(),
    ).concat("\n- daemon.interval_seconds: ").concat(
        u64_to_string(config.daemon.interval_seconds).as_str(),
    ).concat("\n- daemon.max_consecutive_failures: ").concat(
        u64_to_string(config.daemon.max_consecutive_failures as u64).as_str(),
    ).concat("\n- branches:\n").concat(branch_summary(config).as_str()).concat(
        "\n\n请根据助理规则给出配置建议。不要直接声称已经修改文件；如果需要修改，请列出建议修改的 YAML 片段和需要用户确认的问题。\n",
    )
}

/// What the user is shown when the model was asked. An answer stands between two empty lines.
pub fn reply_text(answer: &Result<Option<String>, String>) -> (r: String)
    ensures
        r@ == match *answer {
            Ok(Some(reply)) => "\n"@ + reply@ + "\n"@,
            Ok(None) =>
                "LLM 未启用。请在配置里设置 llm.enabled: true，并确保 API key 环境变量存在。"@,
            Err(words) => "AI 助理调用失败："@ + words@,
        },
{
    match answer {
        Ok(Some(reply)) => owned("\n").concat(reply.as_str()).concat("\n"),
        Ok(None) => owned(
            "LLM 未启用。请在配置里设置 llm.enabled: true，并确保 API key 环境变量存在。",
        ),
        Err(words) => owned("AI 助理调用失败：").concat(words.as_str()),
    }
}

} // verus!
