//! The report on whether everything that a synchronisation needs is there.
use crate::command::CommandOutput;
use crate::config::{BranchConfig, Config, PushStrategy};
use crate::git::{read_found, shorten};
use crate::strings::{
    contains, join_with, owned, parse_u64, push_string, replace, same, split_on, split_words, trim,
    usize_to_string,
};
use vstd::prelude::*;

verus! {

pub struct Doctor {
    pub config: Config,
}

/// What was found out. An error says why something could not be found out.
pub struct DoctorFacts {
    pub git: Result<CommandOutput, String>,
    pub ssh: Result<CommandOutput, String>,
    /// Nothing where the directory is missing.
    pub repo: Option<Result<CommandOutput, String>>,
    pub upstream: Result<CommandOutput, String>,
    pub fork: Result<CommandOutput, String>,
    pub fetch: Result<(), String>,
    pub base: Result<bool, String>,
    /// One for each branch of the configuration.
    pub branches: Vec<BranchCheck>,
}

/// What was found out about a branch.
pub struct BranchCheck {
    pub local: Result<bool, String>,
    pub remote: Result<bool, String>,
    /// The push that was tried without doing it.
    pub push: Result<CommandOutput, String>,
}

#[derive(Debug, Clone, Copy, PartialEq, Eq, Structural)]
pub enum Level {
    Good,
    Warning,
    Failure,
}

/// A line of the report.
#[verifier::ext_equal]
pub struct Finding {
    pub level: Level,
    pub text: Seq<char>,
}

pub open spec fn good(text: Seq<char>) -> Finding {
    Finding { level: Level::Good, text }
}

pub open spec fn warning(text: Seq<char>) -> Finding {
    Finding { level: Level::Warning, text }
}

pub open spec fn failure(text: Seq<char>) -> Finding {
    Finding { level: Level::Failure, text }
}

pub open spec fn finding_line(finding: Finding) -> Seq<char> {
    match finding.level {
        Level::Good => "[OK] "@ + finding.text,
        Level::Warning => "[WARN] "@ + finding.text,
        Level::Failure => "[FAIL] "@ + finding.text,
    }
}

pub open spec fn finding_lines(findings: Seq<Finding>) -> Seq<Seq<char>> {
    Seq::new(findings.len(), |i: int| finding_line(findings[i]))
}

/// How many findings are of a level.
pub open spec fn count(findings: Seq<Finding>, level: Level) -> nat
    decreases findings.len(),
{
    if findings.len() == 0 {
        0
    } else {
        count(findings.drop_last(), level) + if findings.last().level == level {
            1nat
        } else {
            0nat
        }
    }
}

/// The last line of the report.
pub open spec fn verdict(findings: Seq<Finding>) -> Seq<char> {
    let failed = count(findings, Level::Failure);
    let warned = count(findings, Level::Warning);
    if failed == 0 && warned == 0 {
        "结果：可以运行 sync。"@
    } else if failed == 0 {
        "结果：可以尝试运行 sync，但有 "@ + crate::strings::decimal(warned) + " 个警告。"@
    } else {
        "结果：暂不建议运行 sync；需要先处理 "@ + crate::strings::decimal(failed) + " 个失败项。"@
    }
}

/// The text of the report.
pub open spec fn report_text(findings: Seq<Finding>) -> Seq<char> {
    crate::strings::join(
        seq!["TermiteRS doctor report"@, "======================="@, Seq::empty()] + finding_lines(
            findings,
        ) + seq![Seq::empty(), verdict(findings)],
        "\n"@,
    )
}

/// The report while it is being written.
pub struct DoctorReport {
    pub lines: Vec<String>,
    pub failed: usize,
    pub warned: usize,
    pub findings: Ghost<Seq<Finding>>,
}

proof fn lemma_counts(findings: Seq<Finding>)
    ensures
        count(findings, Level::Failure) + count(findings, Level::Warning) <= findings.len(),
    decreases findings.len(),
{
    if findings.len() > 0 {
        lemma_counts(findings.drop_last());
    }
}

impl DoctorReport {
    pub open spec fn wf(self) -> bool {
        &&& crate::strings::views(self.lines@) == seq![
            "TermiteRS doctor report"@,
            "======================="@,
            Seq::empty(),
        ] + finding_lines(self.findings@)
        &&& self.failed == count(self.findings@, Level::Failure)
        &&& self.warned == count(self.findings@, Level::Warning)
    }

    /// A report with nothing but its title.
    pub fn title() -> (r: DoctorReport)
        ensures
            r.wf(),
            r.findings@ == Seq::<Finding>::empty(),
    {
        let mut lines: Vec<String> = Vec::new();
        lines.push(owned("TermiteRS doctor report"));
        lines.push(owned("======================="));
        lines.push(String::new());
        assert(crate::strings::views(lines@) =~= seq![
            "TermiteRS doctor report"@,
            "======================="@,
            Seq::empty(),
        ] + finding_lines(Seq::empty()));
        DoctorReport { lines, failed: 0, warned: 0, findings: Ghost(Seq::empty()) }
    }

    fn add_line(&mut self, level: Level, line: String, text: Ghost<Seq<char>>)
        requires
            old(self).wf(),
            line@ == finding_line(Finding { level, text: text@ }),
        ensures
            final(self).wf(),
            final(self).findings@ == old(self).findings@.push(Finding { level, text: text@ }),
    {
        let ghost finding = Finding { level, text: text@ };
        let ghost before = self.findings@;
        proof {
            lemma_counts(before);
            assert(before.push(finding).drop_last() =~= before);
        }
        let size: usize = self.lines.len();
        assert(crate::strings::views(self.lines@).len() == size);
        match level {
            Level::Good => {},
            Level::Warning => {
                self.warned = self.warned + 1;
            },
            Level::Failure => {
                self.failed = self.failed + 1;
            },
        }
        push_string(&mut self.lines, line);
        self.findings = Ghost(before.push(finding));
        assert(finding_lines(before.push(finding)) =~= finding_lines(before).push(
            finding_line(finding),
        ));
        assert(crate::strings::views(self.lines@) =~= seq![
            "TermiteRS doctor report"@,
            "======================="@,
            Seq::empty(),
        ] + finding_lines(self.findings@));
    }

    pub fn ok(&mut self, message: String)
        requires
            old(self).wf(),
        ensures
            final(self).wf(),
            final(self).findings@ == old(self).findings@.push(good(message@)),
    {
        let line = owned("[OK] ").concat(message.as_str());
        self.add_line(Level::Good, line, Ghost(message@));
    }

    pub fn warn(&mut self, message: String)
        requires
            old(self).wf(),
        ensures
            final(self).wf(),
            final(self).findings@ == old(self).findings@.push(warning(message@)),
    {
        let line = owned("[WARN] ").concat(message.as_str());
        self.add_line(Level::Warning, line, Ghost(message@));
    }

    pub fn fail(&mut self, message: String)
        requires
            old(self).wf(),
        ensures
            final(self).wf(),
            final(self).findings@ == old(self).findings@.push(failure(message@)),
    {
        let line = owned("[FAIL] ").concat(message.as_str());
        self.add_line(Level::Failure, line, Ghost(message@));
    }

    pub fn finish(self) -> (r: String)
        requires
            self.wf(),
        ensures
            r@ == report_text(self.findings@),
    {
        let mut lines = self.lines;
        push_string(&mut lines, String::new());
        let words = if self.failed == 0 && self.warned == 0 {
            owned("结果：可以运行 sync。")
        } else if self.failed == 0 {
            owned("结果：可以尝试运行 sync，但有 ").concat(
                usize_to_string(self.warned).as_str(),
            ).concat(" 个警告。")
        } else {
            owned("结果：暂不建议运行 sync；需要先处理 ").concat(
                usize_to_string(self.failed).as_str(),
            ).concat(" 个失败项。")
        };
        push_string(&mut lines, words);
        assert(crate::strings::views(lines@) =~= seq![
            "TermiteRS doctor report"@,
            "======================="@,
            Seq::empty(),
        ] + finding_lines(self.findings@) + seq![Seq::empty(), verdict(self.findings@)]);
        join_with(&lines, "\n")
    }
}

/// What a command wrote, on one line, cut at 500 bytes.
pub open spec fn output_line(output: CommandOutput) -> Seq<char> {
    let text = crate::strings::trimmed(output.stdout@) + " "@ + crate::strings::trimmed(output.stderr@);
    crate::strings::trimmed(
        crate::git::shortened(
            crate::strings::replaced(crate::strings::replaced(text, "\r"@, ""@), "\n"@, " | "@),
            500,
            "..."@,
        ),
    )
}

pub fn one_line_output(output: &CommandOutput) -> (r: String)
    ensures
        r@ == output_line(*output),
{
    proof {
        reveal_strlit("\r");
        reveal_strlit("\n");
    }
    let text = trim(output.stdout.as_str()).concat(" ").concat(trim(output.stderr.as_str()).as_str());
    let line = replace(replace(text.as_str(), "\r", "").as_str(), "\n", " | ");
    trim(shorten(line.as_str(), 500, "...").as_str())
}

/// A number that fits 32 bits.
pub open spec fn small_number(s: Seq<char>) -> Option<nat> {
    match crate::strings::parsed(s) {
        Some(n) => if n <= u32::MAX {
            Some(n)
        } else {
            None
        },
        None => None,
    }
}

/// The text of `git --version` names a version before 2.20.
pub open spec fn old_git(version: Seq<char>) -> bool {
    let words = crate::strings::words(version);
    if words.len() < 3 {
        false
    } else {
        let parts = crate::strings::split(words[2], '.');
        let major = small_number(parts[0]);
        let minor = if parts.len() > 1 {
            small_number(parts[1])
        } else {
            None
        };
        ||| major is Some && major->0 < 2
        ||| major == Some(2nat) && minor is Some && minor->0 < 20
    }
}

fn small(s: &str) -> (r: Option<u64>)
    ensures
        match r {
            Some(n) => small_number(s@) == Some(n as nat),
            None => small_number(s@) is None,
        },
{
    match parse_u64(s) {
        Some(n) => if n <= u32::MAX as u64 {
            Some(n)
        } else {
            None
        },
        None => None,
    }
}

pub fn git_version_is_old(version: &str) -> (r: bool)
    ensures
        r == old_git(version@),
{
    let words = split_words(version);
    assert(crate::strings::views(words@) == crate::strings::words(version@));
    if words.len() < 3 {
        return false;
    }
    assert(crate::strings::views(words@)[2] == words@[2]@);
    let parts = split_on(words[2].as_str(), '.');
    assert(crate::strings::views(parts@)[0] == parts@[0]@);
    let major = match small(parts[0].as_str()) {
        None => {
            return false;
        },
        Some(major) => major,
    };
    if major < 2 {
        return true;
    }
    if major > 2 || parts.len() < 2 {
        return false;
    }
    assert(crate::strings::views(parts@)[1] == parts@[1]@);
    match small(parts[1].as_str()) {
        Some(minor) => minor < 20,
        None => false,
    }
}

pub open spec fn git_finding(git: Result<CommandOutput, String>) -> Finding {
    match git {
        Err(words) => failure("找不到 Git："@ + words@),
        Ok(output) => if !output.ok() {
            failure("Git 不可用："@ + output_line(output))
        } else {
            let version = crate::strings::trimmed(output.stdout@);
            if old_git(version) {
                warning("Git 可用，但版本偏旧："@ + version + "；建议使用 Git 2.20 或更新版本"@)
            } else {
                good("Git 可用："@ + version)
            }
        },
    }
}

pub open spec fn ssh_finding(ssh: Result<CommandOutput, String>) -> Finding {
    match ssh {
        Err(words) => warning("无法运行 ssh 授权检查："@ + words@),
        Ok(output) => if crate::strings::occurs(
            output.stdout@ + output.stderr@,
            "successfully authenticated"@,
        ) {
            good("GitHub SSH 授权可用"@)
        } else {
            warning("GitHub SSH 未确认可用："@ + output_line(output))
        },
    }
}

pub open spec fn repo_finding(path: Seq<char>, repo: Option<Result<CommandOutput, String>>) -> Finding {
    match repo {
        None => failure("仓库路径不存在："@ + path),
        Some(Err(words)) => failure("仓库路径不是 Git 仓库："@ + words@),
        Some(Ok(output)) => if output.ok() {
            good("仓库路径有效："@ + path)
        } else {
            failure("仓库路径不是 Git 仓库："@ + "not a git repository: "@ + path)
        },
    }
}

pub open spec fn remote_finding(
    label: Seq<char>,
    name: Seq<char>,
    expected: Seq<char>,
    url: Result<CommandOutput, String>,
) -> Finding {
    match url {
        Err(words) => failure("检查 "@ + label + " 失败："@ + words@),
        Ok(output) => match crate::git::found(output) {
            None => failure(label + " 不存在："@ + name),
            Some(current) => if current == expected {
                good(label + " 正确："@ + name + " -> "@ + current)
            } else {
                warning(
                    label + " 地址不一致："@ + name + " 当前是 "@ + current + "，配置是 "@ + expected,
                )
            },
        },
    }
}

pub open spec fn fetch_finding(fetch: Result<(), String>) -> Finding {
    match fetch {
        Ok(_) => good("fetch 上游和 fork 成功"@),
        Err(words) => failure("fetch 失败："@ + words@),
    }
}

pub open spec fn base_finding(base: Seq<char>, found: Result<bool, String>) -> Finding {
    match found {
        Ok(true) => good("上游基线存在："@ + base),
        Ok(false) => failure("上游基线不存在："@ + base),
        Err(words) => failure("检查上游基线失败："@ + words@),
    }
}

/// What is said of the first `n` branches.
pub open spec fn branch_findings(
    branches: Seq<BranchConfig>,
    remote: Seq<char>,
    checks: Seq<BranchCheck>,
    n: int,
) -> Seq<Finding>
    decreases n,
{
    if n <= 0 {
        Seq::empty()
    } else {
        let name = branches[n - 1].name@;
        let check = checks[n - 1];
        branch_findings(branches, remote, checks, n - 1).push(
            match check.local {
                Ok(true) => good("本地分支存在："@ + name),
                Ok(false) => failure("本地分支不存在："@ + name),
                Err(words) => failure("检查本地分支失败 "@ + name + "："@ + words@),
            },
        ).push(
            match check.remote {
                Ok(true) => good("fork 远端分支存在："@ + remote + "/"@ + name),
                Ok(false) => warning(
                    "fork 远端分支不存在："@ + remote + "/"@ + name + "；首次 push 后会出现"@,
                ),
                Err(words) => warning("检查 fork 分支失败 "@ + name + "："@ + words@),
            },
        )
    }
}

/// The push of the branch is tried.
pub open spec fn push_tried(branch: BranchConfig, check: BranchCheck) -> bool {
    branch.push != PushStrategy::Never && check.local == Ok::<bool, String>(true)
}

/// What is said of the right to push the first `n` branches.
pub open spec fn push_findings(branches: Seq<BranchConfig>, checks: Seq<BranchCheck>, n: int) -> Seq<
    Finding,
>
    decreases n,
{
    if n <= 0 {
        Seq::empty()
    } else {
        let rest = push_findings(branches, checks, n - 1);
        let name = branches[n - 1].name@;
        if !push_tried(branches[n - 1], checks[n - 1]) {
            rest
        } else {
            rest.push(
                match checks[n - 1].push {
                    Ok(output) => if output.ok() {
                        good("fork 推送权限可用："@ + name)
                    } else {
                        failure("fork 推送权限检查失败 "@ + name + "："@ + output_line(output))
                    },
                    Err(words) => failure("fork 推送权限检查失败 "@ + name + "："@ + words@),
                },
            )
        }
    }
}

/// The branch is released and never pushed.
pub open spec fn release_at_odds(branch: BranchConfig) -> bool {
    branch.push == PushStrategy::Never && branch.release.enabled
}

/// What is said of releases that cannot be pushed, among the first `n` branches.
pub open spec fn release_findings(branches: Seq<BranchConfig>, n: int) -> Seq<Finding>
    decreases n,
{
    if n <= 0 {
        Seq::empty()
    } else {
        let rest = release_findings(branches, n - 1);
        if release_at_odds(branches[n - 1]) {
            rest.push(failure("push: none 与自动发布互斥："@ + branches[n - 1].name@))
        } else {
            rest
        }
    }
}

/// All that is said.
pub open spec fn all_findings(config: Config, facts: DoctorFacts) -> Seq<Finding> {
    let repo = config.repo;
    let n = config.branches@.len() as int;
    seq![
        git_finding(facts.git),
        ssh_finding(facts.ssh),
        repo_finding(repo.path@, facts.repo),
        remote_finding("上游 remote"@, repo.upstream_remote@, repo.upstream@, facts.upstream),
        remote_finding("fork remote"@, repo.fork_remote@, repo.fork@, facts.fork),
        fetch_finding(facts.fetch),
        base_finding(repo.upstream_remote@ + "/"@ + repo.base_branch@, facts.base),
    ] + branch_findings(config.branches@, repo.fork_remote@, facts.branches@, n) + push_findings(
        config.branches@,
        facts.branches@,
        n,
    ) + release_findings(config.branches@, n)
}

fn check_remote(
    report: &mut DoctorReport,
    label: &str,
    name: &str,
    expected: &str,
    url: &Result<CommandOutput, String>,
)
    requires
        old(report).wf(),
    ensures
        final(report).wf(),
        final(report).findings@ == old(report).findings@.push(
            remote_finding(label@, name@, expected@, *url),
        ),
{
    match url {
        Err(words) => {
            report.fail(owned("检查 ").concat(label).concat(" 失败：").concat(words.as_str()));
        },
        Ok(output) => match read_found(output) {
            None => {
                report.fail(owned(label).concat(" 不存在：").concat(name));
            },
            Some(current) => if same(current.as_str(), expected) {
                report.ok(
                    owned(label).concat(" 正确：").concat(name).concat(" -> ").concat(
                        current.as_str(),
                    ),
                );
            } else {
                report.warn(
                    owned(label).concat(" 地址不一致：").concat(name).concat(" 当前是 ").concat(
                        current.as_str(),
                    ).concat("，配置是 ").concat(expected),
                );
            },
        },
    }
}

impl Doctor {
    pub fn new(config: Config) -> (r: Doctor)
        ensures
            r.config == config,
    {
        Doctor { config }
    }

    /// The report on what was found out.
    pub fn run(&self, facts: &DoctorFacts) -> (r: String)
        requires
            facts.branches@.len() == self.config.branches@.len(),
        ensures
            r@ == report_text(all_findings(self.config, *facts)),
    {
        let repo = &self.config.repo;
        let mut report = DoctorReport::title();
        check_git(&mut report, &facts.git);
        check_github_ssh(&mut report, &facts.ssh);
        check_repo(&mut report, repo.path.as_str(), &facts.repo);
        check_remote(
            &mut report,
            "上游 remote",
            repo.upstream_remote.as_str(),
            repo.upstream.as_str(),
            &facts.upstream,
        );
        check_remote(
            &mut report,
            "fork remote",
            repo.fork_remote.as_str(),
            repo.fork.as_str(),
            &facts.fork,
        );
        match &facts.fetch {
            Ok(()) => {
                report.ok(owned("fetch 上游和 fork 成功"));
            },
            Err(words) => {
                report.fail(owned("fetch 失败：").concat(words.as_str()));
            },
        }
        let base = owned(repo.upstream_remote.as_str()).concat("/").concat(repo.base_branch.as_str());
        match &facts.base {
            Ok(true) => {
                report.ok(owned("上游基线存在：").concat(base.as_str()));
            },
            Ok(false) => {
                report.fail(owned("上游基线不存在：").concat(base.as_str()));
            },
            Err(words) => {
                report.fail(owned("检查上游基线失败：").concat(words.as_str()));
            },
        }
        let ghost head = seq![
            git_finding(facts.git),
            ssh_finding(facts.ssh),
            repo_finding(repo.path@, facts.repo),
            remote_finding("上游 remote"@, repo.upstream_remote@, repo.upstream@, facts.upstream),
            remote_finding("fork remote"@, repo.fork_remote@, repo.fork@, facts.fork),
            fetch_finding(facts.fetch),
            base_finding(repo.upstream_remote@ + "/"@ + repo.base_branch@, facts.base),
        ];
        assert(report.findings@ =~= head);
        self.check_branches(&mut report, facts);
        self.check_push_permission(&mut report, facts);
        self.check_releases(&mut report);
        assert(report.findings@ =~= all_findings(self.config, *facts));
        report.finish()
    }

    fn check_branches(&self, report: &mut DoctorReport, facts: &DoctorFacts)
        requires
            old(report).wf(),
            facts.branches@.len() == self.config.branches@.len(),
        ensures
            final(report).wf(),
            final(report).findings@ == old(report).findings@ + branch_findings(
                self.config.branches@,
                self.config.repo.fork_remote@,
                facts.branches@,
                self.config.branches@.len() as int,
            ),
    {
        let remote = self.config.repo.fork_remote.as_str();
        let ghost before = report.findings@;
        let mut i: usize = 0;
        assert(report.findings@ =~= before + branch_findings(
            self.config.branches@,
            remote@,
            facts.branches@,
            0,
        ));
        while i < self.config.branches.len()
            invariant
                i <= self.config.branches@.len(),
                facts.branches@.len() == self.config.branches@.len(),
                remote@ == self.config.repo.fork_remote@,
                report.wf(),
                report.findings@ == before + branch_findings(
                    self.config.branches@,
                    remote@,
                    facts.branches@,
                    i as int,
                ),
            decreases self.config.branches@.len() - i,
        {
            let name = self.config.branches[i].name.as_str();
            match &facts.branches[i].local {
                Ok(true) => {
                    report.ok(owned("本地分支存在：").concat(name));
                },
                Ok(false) => {
                    report.fail(owned("本地分支不存在：").concat(name));
                },
                Err(words) => {
                    report.fail(
                        owned("检查本地分支失败 ").concat(name).concat("：").concat(words.as_str()),
                    );
                },
            }
            match &facts.branches[i].remote {
                Ok(true) => {
                    report.ok(
                        owned("fork 远端分支存在：").concat(remote).concat("/").concat(name),
                    );
                },
                Ok(false) => {
                    report.warn(
                        owned("fork 远端分支不存在：").concat(remote).concat("/").concat(name).concat(
                            "；首次 push 后会出现",
                        ),
                    );
                },
                Err(words) => {
                    report.warn(
                        owned("检查 fork 分支失败 ").concat(name).concat("：").concat(
                            words.as_str(),
                        ),
                    );
                },
            }
            assert(report.findings@ =~= before + branch_findings(
                self.config.branches@,
                remote@,
                facts.branches@,
                i + 1,
            ));
            i += 1;
        }
    }

    fn check_push_permission(&self, report: &mut DoctorReport, facts: &DoctorFacts)
        requires
            old(report).wf(),
            facts.branches@.len() == self.config.branches@.len(),
        ensures
            final(report).wf(),
            final(report).findings@ == old(report).findings@ + push_findings(
                self.config.branches@,
                facts.branches@,
                self.config.branches@.len() as int,
            ),
    {
        let ghost before = report.findings@;
        let mut i: usize = 0;
        assert(report.findings@ =~= before + push_findings(
            self.config.branches@,
            facts.branches@,
            0,
        ));
        while i < self.config.branches.len()
            invariant
                i <= self.config.branches@.len(),
                facts.branches@.len() == self.config.branches@.len(),
                report.wf(),
                report.findings@ == before + push_findings(
                    self.config.branches@,
                    facts.branches@,
                    i as int,
                ),
            decreases self.config.branches@.len() - i,
        {
            let name = self.config.branches[i].name.as_str();
            if tries_push(&self.config.branches[i], &facts.branches[i]) {
                match &facts.branches[i].push {
                    Ok(output) => if output.success() {
                        report.ok(owned("fork 推送权限可用：").concat(name));
                    } else {
                        report.fail(
                            owned("fork 推送权限检查失败 ").concat(name).concat("：").concat(
                                one_line_output(output).as_str(),
                            ),
                        );
                    },
                    Err(words) => {
                        report.fail(
                            owned("fork 推送权限检查失败 ").concat(name).concat("：").concat(
                                words.as_str(),
                            ),
                        );
                    },
                }
            }
            assert(report.findings@ =~= before + push_findings(
                self.config.branches@,
                facts.branches@,
                i + 1,
            ));
            i += 1;
        }
    }

    fn check_releases(&self, report: &mut DoctorReport)
        requires
            old(report).wf(),
        ensures
            final(report).wf(),
            final(report).findings@ == old(report).findings@ + release_findings(
                self.config.branches@,
                self.config.branches@.len() as int,
            ),
    {
        let ghost before = report.findings@;
        let mut i: usize = 0;
        assert(report.findings@ =~= before + release_findings(self.config.branches@, 0));
        while i < self.config.branches.len()
            invariant
                i <= self.config.branches@.len(),
                report.wf(),
                report.findings@ == before + release_findings(self.config.branches@, i as int),
            decreases self.config.branches@.len() - i,
        {
            let branch = &self.config.branches[i];
            let pushed = match branch.push {
                PushStrategy::Never => false,
                _ => true,
            };
            if !pushed && branch.release.enabled {
                report.fail(owned("push: none 与自动发布互斥：").concat(branch.name.as_str()));
            }
            assert(report.findings@ =~= before + release_findings(
                self.config.branches@,
                i + 1,
            ));
            i += 1;
        }
    }
}

/// Whether the push of a branch is to be tried.
pub fn tries_push(branch: &BranchConfig, check: &BranchCheck) -> (r: bool)
    ensures
        r == push_tried(*branch, *check),
{
    match branch.push {
        PushStrategy::Never => false,
        _ => match &check.local {
            Ok(true) => true,
            _ => false,
        },
    }
}

fn check_git(report: &mut DoctorReport, git: &Result<CommandOutput, String>)
    requires
        old(report).wf(),
    ensures
        final(report).wf(),
        final(report).findings@ == old(report).findings@.push(git_finding(*git)),
{
    match git {
        Err(words) => {
            report.fail(owned("找不到 Git：").concat(words.as_str()));
        },
        Ok(output) => if !output.success() {
            report.fail(owned("Git 不可用：").concat(one_line_output(output).as_str()));
        } else {
            let version = trim(output.stdout.as_str());
            if git_version_is_old(version.as_str()) {
                report.warn(
                    owned("Git 可用，但版本偏旧：").concat(version.as_str()).concat(
                        "；建议使用 Git 2.20 或更新版本",
                    ),
                );
            } else {
                report.ok(owned("Git 可用：").concat(version.as_str()));
            }
        },
    }
}

fn check_github_ssh(report: &mut DoctorReport, ssh: &Result<CommandOutput, String>)
    requires
        old(report).wf(),
    ensures
        final(report).wf(),
        final(report).findings@ == old(report).findings@.push(ssh_finding(*ssh)),
{
    match ssh {
        Err(words) => {
            report.warn(owned("无法运行 ssh 授权检查：").concat(words.as_str()));
        },
        Ok(output) => {
            let text = owned(output.stdout.as_str()).concat(output.stderr.as_str());
            if contains(text.as_str(), "successfully authenticated") {
                report.ok(owned("GitHub SSH 授权可用"));
            } else {
                report.warn(
                    owned("GitHub SSH 未确认可用：").concat(one_line_output(output).as_str()),
                );
            }
        },
    }
}

fn check_repo(report: &mut DoctorReport, path: &str, repo: &Option<Result<CommandOutput, String>>)
    requires
        old(report).wf(),
    ensures
        final(report).wf(),
        final(report).findings@ == old(report).findings@.push(repo_finding(path@, *repo)),
{
    match repo {
        None => {
            report.fail(owned("仓库路径不存在：").concat(path));
        },
        Some(Err(words)) => {
            report.fail(owned("仓库路径不是 Git 仓库：").concat(words.as_str()));
        },
        Some(Ok(output)) => if output.success() {
            report.ok(owned("仓库路径有效：").concat(path));
        } else {
            report.fail(
                owned("仓库路径不是 Git 仓库：").concat("not a git repository: ").concat(path),
            );
        },
    }
}

} // verus!
