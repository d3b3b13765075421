//! Reads pull requests from GitHub. The commands are given to `gh`, and what it writes is read
//! here.
use crate::command::CommandOutput;
use crate::json::{read_json_flag, read_json_items, read_json_text};
use crate::order::{not_after, sort_strings};
use crate::strings::{
    byte_len, char_is_digit, chars_find_from, contains, extend_list, from_range, join_with, list_of,
    owned, push_string, same, split_on, to_chars, trim, u64_to_string,
};
use crate::text::{drop_controls, is_blank, truncate_to_char_boundary};
use crate::watch::model::{
    check_failed, Check, CheckSnapshot, Pull, PullRequestLifecycle, PullRequestSnapshot,
};
use vstd::prelude::*;

verus! {

#[derive(Debug, Clone)]
pub struct WatchGithubConfig {
    pub owner: String,
    pub author: String,
    pub repositories: Vec<String>,
}

/// A pull request as `gh` lists it. Each check is a JSON text.
#[derive(Debug)]
pub struct GithubPullRequest {
    pub number: u64,
    pub title: String,
    pub url: String,
    pub is_draft: bool,
    pub head_ref_name: String,
    pub head_ref_oid: String,
    pub base_ref_name: String,
    pub merge_state_status: String,
    pub review_decision: String,
    pub updated_at: String,
    pub status_check_rollup: Vec<String>,
}

pub struct GithubCollector {
    pub config: WatchGithubConfig,
}

/// The string at a pointer, where the text is JSON and holds one there.
pub open spec fn text_in(doc: Seq<char>, pointer: Seq<char>) -> Option<Seq<char>> {
    match crate::json::json_text(doc, pointer) {
        Ok(found) => found,
        Err(_) => None,
    }
}

/// The string at a pointer, or another in its place.
pub open spec fn text_or(doc: Seq<char>, pointer: Seq<char>, other: Seq<char>) -> Seq<char> {
    match text_in(doc, pointer) {
        Some(text) => text,
        None => other,
    }
}

/// The elements at a pointer; none where the text is no JSON or holds no array there.
pub open spec fn items_in(doc: Seq<char>, pointer: Seq<char>) -> Seq<Seq<char>> {
    match crate::json::json_items(doc, pointer) {
        Ok(Some(items)) => items,
        _ => Seq::empty(),
    }
}

/// The truth value at a pointer is true.
pub open spec fn holds_in(doc: Seq<char>, pointer: Seq<char>) -> bool {
    crate::json::json_flag(doc, pointer) == Ok::<Option<bool>, Seq<char>>(Some(true))
}

fn find_text(doc: &str, pointer: &str) -> (r: Option<String>)
    ensures
        crate::strings::opt_view(r) == text_in(doc@, pointer@),
{
    match read_json_text(doc, pointer) {
        Ok(found) => found,
        Err(_) => None,
    }
}

fn find_text_or(doc: &str, pointer: &str, other: &str) -> (r: String)
    ensures
        r@ == text_or(doc@, pointer@, other@),
{
    match find_text(doc, pointer) {
        Some(text) => text,
        None => owned(other),
    }
}

fn find_items(doc: &str, pointer: &str) -> (r: Vec<String>)
    ensures
        crate::strings::views(r@) == items_in(doc@, pointer@),
{
    match read_json_items(doc, pointer) {
        Ok(Some(items)) => items,
        _ => {
            let none: Vec<String> = Vec::new();
            assert(crate::strings::views(none@) =~= Seq::empty());
            none
        },
    }
}

fn find_flag(doc: &str, pointer: &str) -> (r: bool)
    ensures
        r == holds_in(doc@, pointer@),
{
    match read_json_flag(doc, pointer) {
        Ok(Some(flag)) => flag,
        _ => false,
    }
}

/// The words of a command of `gh` that failed.
pub open spec fn gh_words(args: Seq<Seq<char>>, stderr: Seq<char>) -> Seq<char> {
    "gh "@ + crate::strings::join(args, " "@) + " 失败："@ + crate::strings::trimmed(stderr)
}

/// What a command of `gh` wrote, where it succeeded.
pub fn run_gh_text(args: &Vec<String>, output: &CommandOutput) -> (r: Result<String, String>)
    ensures
        match r {
            Ok(text) => output.ok() && text@ == output.stdout@,
            Err(words) => !output.ok() && words@ == gh_words(
                crate::strings::views(args@),
                output.stderr@,
            ),
        },
{
    if output.success() {
        Ok(owned(output.stdout.as_str()))
    } else {
        Err(
            owned("gh ").concat(join_with(args, " ").as_str()).concat(" 失败：").concat(
                trim(output.stderr.as_str()).as_str(),
            ),
        )
    }
}

/// The JSON that a command of `gh` wrote, where it succeeded.
pub fn run_gh_json(args: &Vec<String>, output: &CommandOutput) -> (r: Result<String, String>)
    ensures
        match r {
            Ok(text) => output.ok() && crate::json::json_text(output.stdout@, ""@) is Ok && text@
                == output.stdout@,
            Err(words) => if output.ok() {
                crate::json::json_text(output.stdout@, ""@) is Err && words@
                    == "gh 输出不是有效 JSON: "@ + crate::json::json_text(output.stdout@, ""@)->Err_0
            } else {
                words@ == gh_words(crate::strings::views(args@), output.stderr@)
            },
        },
{
    match run_gh_text(args, output) {
        Err(words) => Err(words),
        Ok(text) => match read_json_text(text.as_str(), "") {
            Ok(_) => Ok(text),
            Err(words) => Err(owned("gh 输出不是有效 JSON: ").concat(words.as_str())),
        },
    }
}

/// The full name of a repository: with the owner before it, where it has none and there is one.
pub open spec fn full_name(owner: Seq<char>, repository: Seq<char>) -> Seq<char> {
    if crate::strings::occurs(repository, "/"@) || crate::strings::trimmed(owner).len() == 0 {
        repository
    } else {
        crate::strings::trimmed(owner) + "/"@ + repository
    }
}

pub fn normalize_repository(owner: &str, repository: &str) -> (r: String)
    ensures
        r@ == full_name(owner@, repository@),
{
    if contains(repository, "/") || is_blank(owner) {
        owned(repository)
    } else {
        trim(owner).concat("/").concat(repository)
    }
}

/// Where the repositories are known from.
#[derive(Debug)]
pub enum RepositorySource {
    /// They are configured.
    Listed(Vec<String>),
    /// `gh` is to be asked.
    Ask(Vec<String>),
}

/// The arguments that ask for the repositories of an owner.
pub open spec fn repo_list_args(owner: Seq<char>) -> Seq<Seq<char>> {
    seq![
        "repo"@,
        "list"@,
        owner,
        "--limit"@,
        "200"@,
        "--json"@,
        "nameWithOwner,isArchived"@,
    ]
}

/// The names of the first `n` of the repositories that are not archived.
pub open spec fn live_repositories(items: Seq<Seq<char>>, n: int) -> Seq<Seq<char>>
    decreases n,
{
    if n <= 0 {
        Seq::empty()
    } else {
        let before = live_repositories(items, n - 1);
        let item = items[n - 1];
        if !holds_in(item, "/isArchived"@) && text_in(item, "/nameWithOwner"@) is Some {
            before.push(text_in(item, "/nameWithOwner"@)->0)
        } else {
            before
        }
    }
}

/// The fields of a pull request that are asked for.
pub const PULL_REQUEST_FIELDS: &'static str =
    "number,title,url,isDraft,headRefName,headRefOid,baseRefName,mergeStateStatus,reviewDecision,updatedAt,statusCheckRollup";

/// The query for what was said on a pull request.
pub const ACTIVITY_QUERY: &'static str =
    "query($owner:String!,$name:String!,$number:Int!){repository(owner:$owner,name:$name){pullRequest(number:$number){comments(last:10){nodes{id author{login} body createdAt url}} reviews(last:10){nodes{id author{login} body state submittedAt url}} reviewThreads(last:10){nodes{isResolved comments(last:5){nodes{id author{login} body createdAt url}}}}}}}";

impl GithubCollector {
    pub fn new(config: WatchGithubConfig) -> (r: GithubCollector)
        ensures
            r.config == config,
    {
        GithubCollector { config }
    }

    /// The configured author. Without one `gh api user` is to be asked.
    pub fn current_user(&self) -> (r: Option<String>)
        ensures
            match r {
                Some(author) => author@ == crate::strings::trimmed(self.config.author@)
                    && author@.len() > 0,
                None => crate::strings::trimmed(self.config.author@).len() == 0,
            },
    {
        if is_blank(self.config.author.as_str()) {
            None
        } else {
            Some(trim(self.config.author.as_str()))
        }
    }

    /// The configured repositories, or how to ask for those of the owner.
    pub fn repositories(&self) -> (r: Result<RepositorySource, String>)
        ensures
            match r {
                Ok(RepositorySource::Listed(list)) => {
                    let given = self.config.repositories@;
                    &&& given.len() > 0
                    &&& crate::strings::views(list@) == Seq::new(
                        given.len(),
                        |i: int| full_name(self.config.owner@, given[i]@),
                    )
                },
                Ok(RepositorySource::Ask(args)) => {
                    &&& self.config.repositories@.len() == 0
                    &&& crate::strings::trimmed(self.config.owner@).len() > 0
                    &&& crate::strings::views(args@) == repo_list_args(
                        crate::strings::trimmed(self.config.owner@),
                    )
                },
                Err(words) => {
                    &&& self.config.repositories@.len() == 0
                    &&& crate::strings::trimmed(self.config.owner@).len() == 0
                    &&& words@ == "watch.github.owner 与 repositories 不能同时为空"@
                },
            },
    {
        let given = &self.config.repositories;
        if given.len() > 0 {
            let ghost all = Seq::new(
                given@.len(),
                |i: int| full_name(self.config.owner@, given@[i]@),
            );
            let mut list: Vec<String> = Vec::new();
            let mut i: usize = 0;
            assert(crate::strings::views(list@) =~= all.take(0));
            while i < given.len()
                invariant
                    i <= given@.len(),
                    all == Seq::new(
                        given@.len(),
                        |i: int| full_name(self.config.owner@, given@[i]@),
                    ),
                    crate::strings::views(list@) == all.take(i as int),
                decreases given@.len() - i,
            {
                push_string(
                    &mut list,
                    normalize_repository(self.config.owner.as_str(), given[i].as_str()),
                );
                assert(all.take(i + 1) =~= all.take(i as int).push(all[i as int]));
                i += 1;
            }
            assert(all.take(all.len() as int) =~= all);
            return Ok(RepositorySource::Listed(list));
        }
        if is_blank(self.config.owner.as_str()) {
            return Err(owned("watch.github.owner 与 repositories 不能同时为空"));
        }
        let owner = trim(self.config.owner.as_str());
        let parts = [
            "repo",
            "list",
            owner.as_str(),
            "--limit",
            "200",
            "--json",
            "nameWithOwner,isArchived",
        ];
        assert(crate::strings::str_views(parts@) =~= repo_list_args(owner@));
        Ok(RepositorySource::Ask(list_of(&parts)))
    }

    /// The arguments that ask for the open pull requests of a person.
    pub fn pull_requests(&self, repository: &str, author: &str) -> (r: Vec<String>)
        ensures
            crate::strings::views(r@) == seq![
                "pr"@,
                "list"@,
                "--repo"@,
                repository@,
                "--author"@,
                author@,
                "--state"@,
                "open"@,
                "--limit"@,
                "100"@,
                "--json"@,
                PULL_REQUEST_FIELDS@,
            ],
    {
        let parts = [
            "pr",
            "list",
            "--repo",
            repository,
            "--author",
            author,
            "--state",
            "open",
            "--limit",
            "100",
            "--json",
            PULL_REQUEST_FIELDS,
        ];
        assert(crate::strings::str_views(parts@) =~= seq![
            "pr"@,
            "list"@,
            "--repo"@,
            repository@,
            "--author"@,
            author@,
            "--state"@,
            "open"@,
            "--limit"@,
            "100"@,
            "--json"@,
            PULL_REQUEST_FIELDS@,
        ]);
        list_of(&parts)
    }

    /// The arguments that ask what became of a pull request.
    pub fn pull_request_lifecycle(&self, repository: &str, number: u64) -> (r: Vec<String>)
        ensures
            crate::strings::views(r@) == seq![
                "pr"@,
                "view"@,
                crate::strings::decimal(number as nat),
                "--repo"@,
                repository@,
                "--json"@,
                "state,mergedAt,closedAt,url,title"@,
            ],
    {
        let digits = u64_to_string(number);
        let parts = [
            "pr",
            "view",
            digits.as_str(),
            "--repo",
            repository,
            "--json",
            "state,mergedAt,closedAt,url,title",
        ];
        assert(crate::strings::str_views(parts@) =~= seq![
            "pr"@,
            "view"@,
            crate::strings::decimal(number as nat),
            "--repo"@,
            repository@,
            "--json"@,
            "state,mergedAt,closedAt,url,title"@,
        ]);
        list_of(&parts)
    }

    /// Which evidence a change asks for: what was said since, and the logs of failed checks.
    pub fn wanted_evidence(&self, previous: &PullRequestSnapshot, current: &PullRequestSnapshot) -> (r:
        (bool, bool))
        ensures
            r.0 == (previous.updated_at@ != current.updated_at@),
            r.1 == (crate::watch::model::tally(previous@.checks) != crate::watch::model::tally(
                current@.checks,
            )),
    {
        let before = previous.check_summary();
        let after = current.check_summary();
        assert(before == after <==> before@ == after@);
        (!same(previous.updated_at.as_str(), current.updated_at.as_str()), before != after)
    }

    /// The evidence for a change: what was said, then the logs, cut to what can be looked at.
    pub fn change_evidence(&self, activity: Vec<String>, logs: &Vec<String>) -> (r: Vec<String>)
        ensures
            crate::strings::views(r@) == bounded_items(
                crate::strings::views(activity@) + crate::strings::views(logs@),
                (activity@.len() + logs@.len()) as int,
                24_000,
            ).0,
    {
        let mut evidence = activity;
        extend_list(&mut evidence, logs);
        assert(evidence@.len() == crate::strings::views(evidence@).len());
        assert(crate::strings::views(activity@).len() == activity@.len());
        assert(crate::strings::views(logs@).len() == logs@.len());
        bound_evidence(&evidence, 24_000)
    }

    /// The runs whose logs are looked at: those of the failed checks, three at most.
    pub fn failed_check_logs(&self, snapshot: &PullRequestSnapshot) -> (r: Vec<String>)
        ensures
            crate::strings::views(r@) == first_runs(
                failed_runs(snapshot@.checks, snapshot@.checks.len() as int),
            ),
    {
        let ghost checks = snapshot@.checks;
        let mut ids: Vec<String> = Vec::new();
        let mut i: usize = 0;
        assert(crate::strings::views(ids@) =~= Seq::empty());
        while i < snapshot.checks.len()
            invariant
                i <= snapshot.checks@.len(),
                checks == crate::watch::model::check_views(snapshot.checks@),
                crate::strings::views(ids@) == failed_runs(checks, i as int),
            decreases snapshot.checks@.len() - i,
        {
            let check = &snapshot.checks[i];
            assert(checks[i as int] == check@);
            if check_failed(check) {
                if let Some(id) = action_run_id(check.details_url.as_str()) {
                    push_string(&mut ids, id);
                }
            }
            i += 1;
        }
        let sorted = sort_strings(&ids);
        let mut out = drop_repeats(&sorted);
        let ghost all = out@;
        if out.len() > 3 {
            out.truncate(3);
            assert(crate::strings::views(all.subrange(0, 3)) =~= crate::strings::views(all).take(3));
        }
        assert(crate::strings::views(all).len() == all.len());
        out
    }

    /// The arguments that ask for what was said on a pull request.
    pub fn recent_activity_since(&self, repository: &str, number: u64) -> (r: Result<
        Vec<String>,
        String,
    >)
        ensures
            match r {
                Ok(args) => owner_and_name(repository@) is Some && crate::strings::views(args@)
                    == activity_args(owner_and_name(repository@)->0, number as nat),
                Err(words) => owner_and_name(repository@) is None && words@
                    == "仓库名不是 owner/name 格式"@,
            },
    {
        let pieces = split_on(repository, '/');
        let ghost all = crate::strings::views(pieces@);
        assert(all.len() == pieces@.len());
        if pieces.len() < 2 {
            return Err(owned("仓库名不是 owner/name 格式"));
        }
        assert(all[0] == pieces@[0]@);
        let owner = pieces[0].as_str();
        let v = to_chars(repository);
        let head: usize = to_chars(owner).len();
        let end: usize = v.len();
        proof {
            lemma_split_first(repository@, '/');
        }
        assert(head + 1 <= end);
        let name = from_range(&v, head + 1, end);
        let query = owned("query=").concat(ACTIVITY_QUERY);
        let owner_part = owned("owner=").concat(owner);
        let name_part = owned("name=").concat(name.as_str());
        let number_part = owned("number=").concat(u64_to_string(number).as_str());
        let parts = [
            "api",
            "graphql",
            "-f",
            query.as_str(),
            "-F",
            owner_part.as_str(),
            "-F",
            name_part.as_str(),
            "-F",
            number_part.as_str(),
        ];
        assert(name@ =~= repository@.skip(head + 1));
        assert(crate::strings::str_views(parts@) =~= activity_args(
            owner_and_name(repository@)->0,
            number as nat,
        ));
        Ok(list_of(&parts))
    }
}

/// The first piece of a text that has more than one, and the separator behind it, stand in it.
proof fn lemma_split_first(s: Seq<char>, c: char)
    requires
        crate::strings::split(s, c).len() >= 2,
    ensures
        crate::strings::split(s, c)[0].len() + 1 <= s.len(),
    decreases s.len(),
{
    if s.len() > 0 {
        let rest = crate::strings::split(s.drop_last(), c);
        if rest.len() >= 2 {
            lemma_split_first(s.drop_last(), c);
        } else {
            lemma_split_one(s.drop_last(), c);
        }
    }
}

/// The one piece of a text is all of it.
proof fn lemma_split_one(s: Seq<char>, c: char)
    ensures
        crate::strings::split(s, c).len() >= 1,
        crate::strings::split(s, c)[0].len() <= s.len(),
    decreases s.len(),
{
    if s.len() > 0 {
        lemma_split_one(s.drop_last(), c);
    }
}

/// The part of the name of a repository before the first slash, and the part behind it.
pub open spec fn owner_and_name(repository: Seq<char>) -> Option<(Seq<char>, Seq<char>)> {
    let pieces = crate::strings::split(repository, '/');
    if pieces.len() < 2 {
        None
    } else {
        Some((pieces[0], repository.skip(pieces[0].len() as int + 1)))
    }
}

/// The arguments that ask for what was said on a pull request.
pub open spec fn activity_args(names: (Seq<char>, Seq<char>), number: nat) -> Seq<Seq<char>> {
    seq![
        "api"@,
        "graphql"@,
        "-f"@,
        "query="@ + ACTIVITY_QUERY@,
        "-F"@,
        "owner="@ + names.0,
        "-F"@,
        "name="@ + names.1,
        "-F"@,
        "number="@ + crate::strings::decimal(number),
    ]
}

/// The arguments that ask for the log of a failed run.
pub fn log_args(repository: &str, run_id: &str) -> (r: Vec<String>)
    ensures
        crate::strings::views(r@) == seq![
            "run"@,
            "view"@,
            run_id@,
            "--repo"@,
            repository@,
            "--log-failed"@,
        ],
{
    let parts = ["run", "view", run_id, "--repo", repository, "--log-failed"];
    assert(crate::strings::str_views(parts@) =~= seq![
        "run"@,
        "view"@,
        run_id@,
        "--repo"@,
        repository@,
        "--log-failed"@,
    ]);
    list_of(&parts)
}

/// The evidence that a log of a run makes.
pub fn log_evidence(run_id: &str, log: &Result<String, String>) -> (r: String)
    ensures
        r@ == (match *log {
            Ok(log) => "GitHub Actions run "@ + run_id@ + " 失败日志：\n"@ + terminal_tail(
                log@,
                8_000,
            ),
            Err(words) => "GitHub Actions run "@ + run_id@ + " 失败日志读取失败："@ + words@,
        }),
{
    match log {
        Ok(log) => owned("GitHub Actions run ").concat(run_id).concat(" 失败日志：\n").concat(
            bounded_terminal_tail(log.as_str(), 8_000).as_str(),
        ),
        Err(words) => owned("GitHub Actions run ").concat(run_id).concat(
            " 失败日志读取失败：",
        ).concat(words.as_str()),
    }
}

/// The login of the user in the answer of `gh api user`.
pub fn read_user(doc: &str) -> (r: Result<String, String>)
    ensures
        match r {
            Ok(login) => text_in(doc@, "/login"@) == Some(login@),
            Err(words) => text_in(doc@, "/login"@) is None && words@
                == "gh api user 未返回 login"@,
        },
{
    match find_text(doc, "/login") {
        Some(login) => Ok(login),
        None => Err(owned("gh api user 未返回 login")),
    }
}

/// The repositories in the answer of `gh repo list`, without those that are archived.
pub fn read_repositories(doc: &str) -> (r: Result<Vec<String>, String>)
    ensures
        match r {
            Ok(list) => crate::json::json_items(doc@, ""@) matches Ok(Some(items))
                && crate::strings::views(list@) == live_repositories(items, items.len() as int),
            Err(words) => !(crate::json::json_items(doc@, ""@) matches Ok(Some(_))) && words@
                == "gh repo list 未返回数组"@,
        },
{
    match read_json_items(doc, "") {
        Ok(Some(items)) => {
            let ghost all = crate::strings::views(items@);
            let mut list: Vec<String> = Vec::new();
            let mut i: usize = 0;
            assert(crate::strings::views(list@) =~= Seq::empty());
            while i < items.len()
                invariant
                    i <= items@.len(),
                    all == crate::strings::views(items@),
                    crate::strings::views(list@) == live_repositories(all, i as int),
                decreases items@.len() - i,
            {
                let item = items[i].as_str();
                assert(all[i as int] == item@);
                if !find_flag(item, "/isArchived") {
                    if let Some(name) = find_text(item, "/nameWithOwner") {
                        push_string(&mut list, name);
                    }
                }
                i += 1;
            }
            Ok(list)
        },
        _ => Err(owned("gh repo list 未返回数组")),
    }
}

/// What became of a pull request, in the answer of `gh pr view`.
pub fn read_lifecycle(doc: &str) -> (r: PullRequestLifecycle)
    ensures
        r.state@ == text_or(doc@, "/state"@, "UNKNOWN"@),
        r.merged_at@ == text_or(doc@, "/mergedAt"@, ""@),
        r.closed_at@ == text_or(doc@, "/closedAt"@, ""@),
        r.url@ == text_or(doc@, "/url"@, ""@),
        r.title@ == text_or(doc@, "/title"@, ""@),
{
    PullRequestLifecycle {
        state: find_text_or(doc, "/state", "UNKNOWN"),
        merged_at: find_text_or(doc, "/mergedAt", ""),
        closed_at: find_text_or(doc, "/closedAt", ""),
        url: find_text_or(doc, "/url", ""),
        title: find_text_or(doc, "/title", ""),
    }
}

/// A listed pull request as it is known from then on.
pub fn read_pull_request(repository: &str, raw: GithubPullRequest) -> (r: PullRequestSnapshot)
    ensures
        r@ == (Pull {
            repository: repository@,
            number: raw.number as nat,
            title: raw.title@,
            url: raw.url@,
            is_draft: raw.is_draft,
            head_ref_name: raw.head_ref_name@,
            head_oid: raw.head_ref_oid@,
            base_ref_name: raw.base_ref_name@,
            merge_state: raw.merge_state_status@,
            review_decision: raw.review_decision@,
            updated_at: raw.updated_at@,
            checks: normalized(crate::strings::views(raw.status_check_rollup@)),
        }),
{
    let checks = normalize_checks(&raw.status_check_rollup);
    PullRequestSnapshot {
        repository: owned(repository),
        number: raw.number,
        title: raw.title,
        url: raw.url,
        is_draft: raw.is_draft,
        head_ref_name: raw.head_ref_name,
        head_oid: raw.head_ref_oid,
        base_ref_name: raw.base_ref_name,
        merge_state: raw.merge_state_status,
        review_decision: raw.review_decision,
        updated_at: raw.updated_at,
        checks,
    }
}

/// The check in a JSON text. There are two kinds, which name their parts differently.
pub open spec fn check_in(doc: Seq<char>) -> Check {
    if text_in(doc, "/__typename"@) == Some("StatusContext"@) {
        Check {
            name: text_or(doc, "/context"@, "unknown"@),
            status: text_or(doc, "/state"@, ""@),
            conclusion: text_or(doc, "/conclusion"@, ""@),
            details_url: text_or(doc, "/targetUrl"@, ""@),
        }
    } else {
        Check {
            name: text_or(doc, "/name"@, "unknown"@),
            status: text_or(doc, "/status"@, ""@),
            conclusion: text_or(doc, "/conclusion"@, ""@),
            details_url: text_or(doc, "/detailsUrl"@, ""@),
        }
    }
}

fn read_check(doc: &str) -> (r: CheckSnapshot)
    ensures
        r@ == check_in(doc@),
{
    let is_context = match find_text(doc, "/__typename") {
        Some(name) => same(name.as_str(), "StatusContext"),
        None => false,
    };
    if is_context {
        CheckSnapshot {
            name: find_text_or(doc, "/context", "unknown"),
            status: find_text_or(doc, "/state", ""),
            conclusion: find_text_or(doc, "/conclusion", ""),
            details_url: find_text_or(doc, "/targetUrl", ""),
        }
    } else {
        CheckSnapshot {
            name: find_text_or(doc, "/name", "unknown"),
            status: find_text_or(doc, "/status", ""),
            conclusion: find_text_or(doc, "/conclusion", ""),
            details_url: find_text_or(doc, "/detailsUrl", ""),
        }
    }
}

/// The check does not stand after the other: by its name, and then by its address.
pub open spec fn check_le(a: Check, b: Check) -> bool {
    if a.name == b.name {
        crate::order::le(a.details_url, b.details_url)
    } else {
        crate::order::le(a.name, b.name)
    }
}

fn check_not_after(a: &CheckSnapshot, b: &CheckSnapshot) -> (r: bool)
    ensures
        r == check_le(a@, b@),
{
    if same(a.name.as_str(), b.name.as_str()) {
        not_after(a.details_url.as_str(), b.details_url.as_str())
    } else {
        not_after(a.name.as_str(), b.name.as_str())
    }
}

/// `s` with `x` put behind the last check that does not stand after it.
pub open spec fn check_inserted(s: Seq<Check>, x: Check) -> Seq<Check>
    decreases s.len(),
{
    if s.len() == 0 {
        seq![x]
    } else if check_le(s.last(), x) {
        s.push(x)
    } else {
        check_inserted(s.drop_last(), x).push(s.last())
    }
}

/// The checks in JSON texts, in their order.
pub open spec fn normalized(docs: Seq<Seq<char>>) -> Seq<Check>
    decreases docs.len(),
{
    if docs.len() == 0 {
        Seq::empty()
    } else {
        check_inserted(normalized(docs.drop_last()), check_in(docs.last()))
    }
}

proof fn lemma_check_inserted_at(s: Seq<Check>, x: Check, j: int)
    requires
        0 <= j <= s.len(),
        j > 0 ==> check_le(s[j - 1], x),
        forall|k: int| j <= k < s.len() ==> !check_le(#[trigger] s[k], x),
    ensures
        check_inserted(s, x) == s.insert(j, x),
    decreases s.len(),
{
    if s.len() == 0 {
        assert(seq![x] =~= s.insert(j, x));
    } else if j == s.len() {
        assert(s.push(x) =~= s.insert(j, x));
    } else {
        assert(!check_le(s[s.len() - 1], x));
        lemma_check_inserted_at(s.drop_last(), x, j);
        assert(s.drop_last().insert(j, x).push(s.last()) =~= s.insert(j, x));
    }
}

/// The checks in JSON texts, by their names and then by their addresses.
pub fn normalize_checks(checks: &Vec<String>) -> (r: Vec<CheckSnapshot>)
    ensures
        crate::watch::model::check_views(r@) == normalized(crate::strings::views(checks@)),
{
    let ghost all = crate::strings::views(checks@);
    let mut out: Vec<CheckSnapshot> = Vec::new();
    let mut i: usize = 0;
    assert(all.take(0) =~= Seq::empty());
    assert(crate::watch::model::check_views(out@) =~= Seq::empty());
    while i < checks.len()
        invariant
            i <= checks@.len(),
            all == crate::strings::views(checks@),
            crate::watch::model::check_views(out@) == normalized(all.take(i as int)),
        decreases checks@.len() - i,
    {
        assert(all.take(i + 1).drop_last() =~= all.take(i as int));
        let check = read_check(checks[i].as_str());
        let ghost before = crate::watch::model::check_views(out@);
        let ghost old_out = out@;
        let mut j: usize = out.len();
        while j > 0 && !check_not_after(&out[j - 1], &check)
            invariant
                j <= out@.len(),
                out@ == old_out,
                before == crate::watch::model::check_views(out@),
                forall|k: int| j <= k < out@.len() ==> !check_le(#[trigger] before[k], check@),
            decreases j,
        {
            j -= 1;
        }
        let ghost told = check@;
        proof {
            lemma_check_inserted_at(before, told, j as int);
        }
        out.insert(j, check);
        assert(crate::watch::model::check_views(out@) =~= before.insert(j as int, told));
        i += 1;
    }
    assert(all.take(all.len() as int) =~= all);
    out
}

/// The identifier of a run in the address of a check.
pub open spec fn run_id_in(url: Seq<char>) -> Option<Seq<char>> {
    match crate::strings::find_from(url, "/actions/runs/"@, 0) {
        None => None,
        Some(at) => {
            let id = crate::strings::split(url.skip(at + "/actions/runs/"@.len()), '/')[0];
            if id.len() > 0 && crate::strings::all_digits(id) {
                Some(id)
            } else {
                None
            }
        },
    }
}

fn is_number(v: &Vec<char>) -> (r: bool)
    ensures
        r == (v@.len() > 0 && crate::strings::all_digits(v@)),
{
    let mut i: usize = 0;
    while i < v.len()
        invariant
            i <= v@.len(),
            forall|k: int| 0 <= k < i ==> crate::strings::is_digit(#[trigger] v@[k]),
        decreases v@.len() - i,
    {
        if !char_is_digit(v[i]) {
            assert(!crate::strings::is_digit(v@[i as int]));
            return false;
        }
        i += 1;
    }
    v.len() > 0
}

/// The identifier of a run, which is a number, in the address of a check.
pub fn action_run_id(url: &str) -> (r: Option<String>)
    ensures
        crate::strings::opt_view(r) == run_id_in(url@),
{
    let v = to_chars(url);
    let marker = to_chars("/actions/runs/");
    match chars_find_from(&v, &marker, 0) {
        None => None,
        Some(at) => {
            proof {
                crate::strings::lemma_find_from(url@, "/actions/runs/"@, 0);
            }
            let end: usize = v.len();
            assert(at + marker@.len() <= end);
            let from: usize = at + marker.len();
            let tail = from_range(&v, from, end);
            assert(tail@ =~= url@.skip(from as int));
            let pieces = split_on(tail.as_str(), '/');
            proof {
                lemma_split_one(tail@, '/');
            }
            assert(crate::strings::views(pieces@).len() == pieces@.len());
            assert(crate::strings::views(pieces@)[0] == pieces@[0]@);
            if is_number(&to_chars(pieces[0].as_str())) {
                Some(owned(pieces[0].as_str()))
            } else {
                None
            }
        },
    }
}

/// The runs of those of the first `n` checks that failed.
pub open spec fn failed_runs(checks: Seq<Check>, n: int) -> Seq<Seq<char>>
    decreases n,
{
    if n <= 0 {
        Seq::empty()
    } else {
        let before = failed_runs(checks, n - 1);
        let check = checks[n - 1];
        if crate::watch::model::failed(check) && run_id_in(check.details_url) is Some {
            before.push(run_id_in(check.details_url)->0)
        } else {
            before
        }
    }
}

/// A list without what repeats the entry before it.
pub open spec fn without_repeats(s: Seq<Seq<char>>) -> Seq<Seq<char>>
    decreases s.len(),
{
    if s.len() == 0 {
        Seq::empty()
    } else {
        let before = without_repeats(s.drop_last());
        if before.len() > 0 && before.last() == s.last() {
            before
        } else {
            before.push(s.last())
        }
    }
}

fn drop_repeats(list: &Vec<String>) -> (r: Vec<String>)
    ensures
        crate::strings::views(r@) == without_repeats(crate::strings::views(list@)),
{
    let ghost all = crate::strings::views(list@);
    let mut out: Vec<String> = Vec::new();
    let mut i: usize = 0;
    assert(all.take(0) =~= Seq::empty());
    assert(crate::strings::views(out@) =~= Seq::empty());
    while i < list.len()
        invariant
            i <= list@.len(),
            all == crate::strings::views(list@),
            crate::strings::views(out@) == without_repeats(all.take(i as int)),
        decreases list@.len() - i,
    {
        assert(all.take(i + 1).drop_last() =~= all.take(i as int));
        let ghost told = crate::strings::views(out@);
        assert(told.len() == out@.len());
        let n: usize = out.len();
        let repeated = if n > 0 {
            assert(told.last() == out@[n - 1]@);
            same(out[n - 1].as_str(), list[i].as_str())
        } else {
            false
        };
        if !repeated {
            push_string(&mut out, owned(list[i].as_str()));
        }
        i += 1;
    }
    assert(all.take(all.len() as int) =~= all);
    out
}

/// The first three of the runs, each once, in the order of their identifiers.
pub open spec fn first_runs(ids: Seq<Seq<char>>) -> Seq<Seq<char>> {
    let all = without_repeats(crate::order::sorted(ids));
    if all.len() > 3 {
        all.take(3)
    } else {
        all
    }
}

/// What is kept of the first `n` items where `max` bytes can be kept in all, and how many bytes are
/// left.
pub open spec fn bounded_items(items: Seq<Seq<char>>, n: int, max: nat) -> (Seq<Seq<char>>, nat)
    decreases n,
{
    if n <= 0 {
        (Seq::empty(), max)
    } else {
        let (kept, left) = bounded_items(items, n - 1, max);
        let item = crate::text::truncated(items[n - 1], left);
        let rest = (left - crate::strings::byte_count(item)) as nat;
        if left == 0 {
            (kept, left)
        } else if item.len() == 0 {
            (kept, rest)
        } else {
            (kept.push(item), rest)
        }
    }
}

/// Items of at most `max_bytes` bytes in all: each is cut to what is left, and dropped where
/// nothing is.
pub fn bound_evidence(evidence: &Vec<String>, max_bytes: usize) -> (r: Vec<String>)
    ensures
        crate::strings::views(r@) == bounded_items(
            crate::strings::views(evidence@),
            evidence@.len() as int,
            max_bytes as nat,
        ).0,
{
    let ghost items = crate::strings::views(evidence@);
    let mut kept: Vec<String> = Vec::new();
    let mut left: usize = max_bytes;
    let mut i: usize = 0;
    assert(crate::strings::views(kept@) =~= Seq::empty());
    while i < evidence.len()
        invariant
            i <= evidence@.len(),
            items == crate::strings::views(evidence@),
            bounded_items(items, i as int, max_bytes as nat) == (
                crate::strings::views(kept@),
                left as nat,
            ),
        decreases evidence@.len() - i,
    {
        if left > 0 {
            let mut item = owned(evidence[i].as_str());
            assert(items[i as int] == item@);
            truncate_to_char_boundary(&mut item, left);
            let size: usize = byte_len(item.as_str());
            proof {
                crate::text::law_truncated_fits(items[i as int], left as nat);
                crate::text::lemma_no_bytes(item@);
            }
            left = left - size;
            if size > 0 {
                push_string(&mut kept, item);
            }
        }
        i += 1;
    }
    kept
}

/// The bytes of the items of a list.
pub open spec fn total_bytes(items: Seq<Seq<char>>) -> nat
    decreases items.len(),
{
    if items.len() == 0 {
        0
    } else {
        total_bytes(items.drop_last()) + crate::strings::byte_count(items.last())
    }
}

/// What is kept of the evidence has no more bytes than it may, and no item of it is empty.
pub proof fn law_evidence_is_bounded(items: Seq<Seq<char>>, n: int, max: nat)
    requires
        0 <= n <= items.len(),
    ensures
        ({
            let (kept, left) = bounded_items(items, n, max);
            &&& total_bytes(kept) + left == max
            &&& kept.len() <= n
            &&& forall|i: int| 0 <= i < kept.len() ==> (#[trigger] kept[i]).len() > 0
        }),
    decreases n,
{
    if n > 0 {
        law_evidence_is_bounded(items, n - 1, max);
        let (kept, left) = bounded_items(items, n - 1, max);
        let item = crate::text::truncated(items[n - 1], left);
        crate::text::law_truncated_fits(items[n - 1], left);
        crate::text::lemma_no_bytes(item);
        if item.len() > 0 {
            assert(kept.push(item).drop_last() =~= kept);
        }
    }
}

/// A text as a terminal may show it, cut at `max` bytes.
pub open spec fn terminal_text(value: Seq<char>, max: nat) -> Seq<char> {
    crate::text::truncated(crate::text::shown(value, "\n\r\t"@), max)
}

/// A text without control characters, cut at `max_bytes` bytes.
pub fn bounded_terminal_text(value: &str, max_bytes: usize) -> (r: String)
    ensures
        r@ == terminal_text(value@, max_bytes as nat),
{
    let mut output = drop_controls(value, "\n\r\t");
    truncate_to_char_boundary(&mut output, max_bytes);
    output
}

/// The longest end of a text that has at most `max` bytes.
pub open spec fn end_of(s: Seq<char>, max: nat) -> Seq<char>
    decreases s.len(),
{
    if s.len() == 0 || crate::strings::byte_count(s) <= max {
        s
    } else {
        end_of(s.drop_first(), max)
    }
}

/// The end of a text as a terminal may show it: all of it, or what fits behind a mark.
pub open spec fn terminal_tail(value: Seq<char>, max: nat) -> Seq<char> {
    let text = crate::text::shown(value, "\n\r\t"@);
    let mark = "... 日志开头已截断 ...\n"@;
    if crate::strings::byte_count(text) <= max {
        text
    } else {
        mark + end_of(
            text,
            if max >= crate::strings::byte_count(mark) {
                (max - crate::strings::byte_count(mark)) as nat
            } else {
                0
            },
        )
    }
}

/// The end of a text, without control characters, in at most `max_bytes` bytes where these hold the
/// mark.
pub fn bounded_terminal_tail(value: &str, max_bytes: usize) -> (r: String)
    ensures
        r@ == terminal_tail(value@, max_bytes as nat),
{
    let text = drop_controls(value, "\n\r\t");
    if byte_len(text.as_str()) <= max_bytes {
        return text;
    }
    let mark = "... 日志开头已截断 ...\n";
    let size: usize = byte_len(mark);
    let room: usize = if max_bytes >= size {
        max_bytes - size
    } else {
        0
    };
    let v = to_chars(text.as_str());
    let mut from: usize = 0;
    assert(v@.skip(0) =~= v@);
    let mut tail = from_range(&v, 0, v.len());
    assert(tail@ =~= v@.skip(0));
    while from < v.len() && byte_len(tail.as_str()) > room
        invariant
            from <= v@.len(),
            tail@ == v@.skip(from as int),
            end_of(v@, room as nat) == end_of(v@.skip(from as int), room as nat),
        decreases v@.len() - from,
    {
        assert(v@.skip(from as int).drop_first() =~= v@.skip(from + 1));
        from += 1;
        tail = from_range(&v, from, v.len());
        assert(tail@ =~= v@.skip(from as int));
    }
    owned(mark).concat(tail.as_str())
}

proof fn lemma_end_fits(s: Seq<char>, max: nat)
    ensures
        crate::strings::byte_count(end_of(s, max)) <= max,
    decreases s.len(),
{
    crate::text::lemma_no_bytes(s);
    if s.len() > 0 && crate::strings::byte_count(s) > max {
        lemma_end_fits(s.drop_first(), max);
    }
}

/// What is kept of a log fits in the limit, wherever the limit holds the mark.
pub proof fn law_tail_is_bounded(value: Seq<char>, max: nat)
    requires
        max >= crate::strings::byte_count("... 日志开头已截断 ...\n"@),
    ensures
        crate::strings::byte_count(terminal_tail(value, max)) <= max,
{
    let text = crate::text::shown(value, "\n\r\t"@);
    let mark = "... 日志开头已截断 ...\n"@;
    let room = (max - crate::strings::byte_count(mark)) as nat;
    lemma_end_fits(text, room);
    crate::text::lemma_encode_add(mark, end_of(text, room));
}

/// What is told of something that was said, unless it is too old.
pub open spec fn node_line(
    node: Seq<char>,
    kind: Seq<char>,
    time_field: Seq<char>,
    since: Seq<char>,
) -> Option<Seq<char>> {
    let occurred_at = text_or(node, time_field, ""@);
    let state = text_or(node, "/state"@, ""@);
    if crate::order::le(occurred_at, since) {
        None
    } else {
        Some(
            kind + " "@ + text_or(node, "/author/login"@, "unknown"@) + " "@ + (if state.len()
                == 0 {
                occurred_at
            } else {
                state
            }) + " "@ + text_or(node, "/url"@, ""@) + "：\n"@ + terminal_text(
                text_or(node, "/body"@, ""@),
                2_000,
            ),
        )
    }
}

/// What is told of the first `n` nodes.
pub open spec fn node_lines(
    nodes: Seq<Seq<char>>,
    kind: Seq<char>,
    time_field: Seq<char>,
    since: Seq<char>,
    n: int,
) -> Seq<Seq<char>>
    decreases n,
{
    if n <= 0 {
        Seq::empty()
    } else {
        let before = node_lines(nodes, kind, time_field, since, n - 1);
        match node_line(nodes[n - 1], kind, time_field, since) {
            Some(line) => before.push(line),
            None => before,
        }
    }
}

/// What is told of all nodes at a place.
pub open spec fn lines_at(
    doc: Seq<char>,
    pointer: Seq<char>,
    kind: Seq<char>,
    time_field: Seq<char>,
    since: Seq<char>,
) -> Seq<Seq<char>> {
    let nodes = items_in(doc, pointer);
    node_lines(nodes, kind, time_field, since, nodes.len() as int)
}

/// What is told of the first `n` threads.
pub open spec fn thread_lines(threads: Seq<Seq<char>>, since: Seq<char>, n: int) -> Seq<Seq<char>>
    decreases n,
{
    if n <= 0 {
        Seq::empty()
    } else {
        let thread = threads[n - 1];
        thread_lines(threads, since, n - 1) + lines_at(
            thread,
            "/comments/nodes"@,
            if holds_in(thread, "/isResolved"@) {
                "已解决审查线程"@
            } else {
                "未解决审查线程"@
            },
            "/createdAt"@,
            since,
        )
    }
}

/// What was said on a pull request after `since`: comments, then decisions, then threads.
pub open spec fn activity(doc: Seq<char>, since: Seq<char>) -> Seq<Seq<char>> {
    let threads = items_in(doc, "/data/repository/pullRequest/reviewThreads/nodes"@);
    lines_at(
        doc,
        "/data/repository/pullRequest/comments/nodes"@,
        "评论"@,
        "/createdAt"@,
        since,
    ) + lines_at(
        doc,
        "/data/repository/pullRequest/reviews/nodes"@,
        "审查"@,
        "/submittedAt"@,
        since,
    ) + thread_lines(threads, since, threads.len() as int)
}

fn append_activity_nodes(
    output: &mut Vec<String>,
    doc: &str,
    pointer: &str,
    kind: &str,
    time_field: &str,
    since: &str,
)
    ensures
        crate::strings::views(final(output)@) == crate::strings::views(old(output)@) + lines_at(
            doc@,
            pointer@,
            kind@,
            time_field@,
            since@,
        ),
{
    let nodes = find_items(doc, pointer);
    let ghost all = crate::strings::views(nodes@);
    let ghost before = crate::strings::views(output@);
    let mut i: usize = 0;
    assert(before + node_lines(all, kind@, time_field@, since@, 0) =~= before);
    while i < nodes.len()
        invariant
            i <= nodes@.len(),
            all == crate::strings::views(nodes@),
            crate::strings::views(output@) == before + node_lines(
                all,
                kind@,
                time_field@,
                since@,
                i as int,
            ),
        decreases nodes@.len() - i,
    {
        let node = nodes[i].as_str();
        assert(all[i as int] == node@);
        let occurred_at = find_text_or(node, time_field, "");
        if !not_after(occurred_at.as_str(), since) {
            let author = find_text_or(node, "/author/login", "unknown");
            let state = find_text_or(node, "/state", "");
            let url = find_text_or(node, "/url", "");
            let body = bounded_terminal_text(find_text_or(node, "/body", "").as_str(), 2_000);
            proof {
                crate::text::lemma_no_bytes(state@);
            }
            let when = if byte_len(state.as_str()) == 0 {
                occurred_at
            } else {
                state
            };
            push_string(
                output,
                owned(kind).concat(" ").concat(author.as_str()).concat(" ").concat(
                    when.as_str(),
                ).concat(" ").concat(url.as_str()).concat("：\n").concat(body.as_str()),
            );
        }
        i += 1;
        assert(crate::strings::views(output@) =~= before + node_lines(
            all,
            kind@,
            time_field@,
            since@,
            i as int,
        ));
    }
}

/// What was said on a pull request after `since`. All of it is evidence, and none of it an order.
pub fn normalize_activity(doc: &str, since: &str) -> (r: Vec<String>)
    ensures
        crate::strings::views(r@) == activity(doc@, since@),
{
    let mut output: Vec<String> = Vec::new();
    assert(crate::strings::views(output@) =~= Seq::empty());
    append_activity_nodes(
        &mut output,
        doc,
        "/data/repository/pullRequest/comments/nodes",
        "评论",
        "/createdAt",
        since,
    );
    append_activity_nodes(
        &mut output,
        doc,
        "/data/repository/pullRequest/reviews/nodes",
        "审查",
        "/submittedAt",
        since,
    );
    let ghost before = crate::strings::views(output@);
    let threads = find_items(doc, "/data/repository/pullRequest/reviewThreads/nodes");
    let ghost all = crate::strings::views(threads@);
    let mut i: usize = 0;
    assert(before + thread_lines(all, since@, 0) =~= before);
    while i < threads.len()
        invariant
            i <= threads@.len(),
            all == crate::strings::views(threads@),
            crate::strings::views(output@) == before + thread_lines(all, since@, i as int),
        decreases threads@.len() - i,
    {
        let thread = threads[i].as_str();
        assert(all[i as int] == thread@);
        let kind = if find_flag(thread, "/isResolved") {
            "已解决审查线程"
        } else {
            "未解决审查线程"
        };
        append_activity_nodes(
            &mut output,
            thread,
            "/comments/nodes",
            kind,
            "/createdAt",
            since,
        );
        i += 1;
        assert(crate::strings::views(output@) =~= before + thread_lines(all, since@, i as int));
    }
    assert(crate::strings::views(output@) =~= activity(doc@, since@));
    output
}

} // verus!
