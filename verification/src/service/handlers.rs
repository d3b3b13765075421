//! The requests that the service accepts.
use crate::config::Config;
use crate::protection::investigate::find_branch;
use crate::service::db::{create_job, ensure_no_active_sync, JobRow};
use crate::strings::{byte_len, owned, same, to_chars, trim};
use crate::text::is_blank;
use vstd::prelude::*;

verus! {

#[derive(Debug, Clone)]
pub struct ProtectionInvestigationRequest {
    pub summary: String,
    pub reference: Option<String>,
    pub content: String,
    pub branch: Option<String>,
}

/// A request that is refused: whether the caller is at fault, and the words.
#[derive(Debug, Clone)]
pub struct Refusal {
    pub status: u16,
    pub message: String,
}

pub open spec fn is_bad_request(r: Refusal, words: Seq<char>) -> bool {
    r.status == 400 && r.message@ == words
}

fn bad_request(words: &str) -> (r: Refusal)
    ensures
        is_bad_request(r, words@),
{
    Refusal { status: 400, message: owned(words) }
}

fn char_count(s: &str) -> (r: usize)
    ensures
        r == s@.len(),
{
    to_chars(s).len()
}

/// Accepts the message of an operator, without the white space around it.
pub fn add_message(message: &str) -> (r: Result<String, Refusal>)
    ensures
        match r {
            Ok(text) => crate::strings::trimmed(message@).len() > 0 && message@.len() <= 4000
                && text@ == crate::strings::trimmed(message@),
            Err(refusal) => (crate::strings::trimmed(message@).len() == 0 || message@.len() > 4000)
                && is_bad_request(refusal, "指导内容必须为 1 到 4000 个字符"@),
        },
{
    if is_blank(message) || char_count(message) > 4000 {
        Err(bad_request("指导内容必须为 1 到 4000 个字符"))
    } else {
        Ok(trim(message))
    }
}

/// Accepts what an operator asks of a proposal.
pub fn generate_proposal(requirements: &str) -> (r: Result<(), Refusal>)
    ensures
        match r {
            Ok(_) => requirements@.len() <= 4000,
            Err(refusal) => requirements@.len() > 4000 && is_bad_request(
                refusal,
                "补充修改要求不能超过 4000 个字符"@,
            ),
        },
{
    if char_count(requirements) > 4000 {
        Err(bad_request("补充修改要求不能超过 4000 个字符"))
    } else {
        Ok(())
    }
}

/// The branch is one of the configuration.
pub open spec fn known_branch(config: Config, name: Seq<char>) -> bool {
    crate::protection::investigate::branch_named(config.branches@, name, 0) is Some
}

/// Accepts the synchronisation of a branch of the configuration.
pub fn start_sync(config: &Config, branch: &str) -> (r: Result<(), Refusal>)
    ensures
        match r {
            Ok(_) => known_branch(*config, branch@),
            Err(refusal) => !known_branch(*config, branch@) && is_bad_request(
                refusal,
                "分支不在 TermiteRS 白名单中"@,
            ),
        },
{
    match find_branch(&config.branches, branch) {
        Some(_) => Ok(()),
        None => Err(bad_request("分支不在 TermiteRS 白名单中")),
    }
}

/// No branch of the configuration has a job that is not at an end.
pub open spec fn all_idle(config: Config, rows: Seq<JobRow>) -> bool {
    forall|i: int|
        0 <= i < config.branches@.len() ==> !crate::service::db::busy(
            rows,
            (#[trigger] config.branches@[i]).name@,
        )
}

/// A job that is to synchronise a branch, as it is made.
pub open spec fn is_queued(job: JobRow, id: Seq<char>, branch: Seq<char>, now: Seq<char>) -> bool {
    &&& job.id@ == id
    &&& job.kind@ == "sync"@
    &&& job.branch@ == branch
    &&& job.state@ == "queued"@
    &&& job.summary@.len() == 0
    &&& job.worktree_path@.len() == 0
    &&& job.created_at@ == now
    &&& job.updated_at@ == now
}

/// The rows of the jobs that synchronise all branches. Where one branch has a job that is not at an
/// end none is started. `ids` holds a name for each job.
pub fn start_sync_all(config: &Config, rows: &Vec<JobRow>, ids: &Vec<String>, now: &str) -> (r: Result<
    Vec<JobRow>,
    String,
>)
    requires
        ids@.len() == config.branches@.len(),
        first_repeated(*config, 0) is None,
    ensures
        match r {
            Ok(jobs) => {
                &&& all_idle(*config, rows@)
                &&& jobs@.len() == config.branches@.len()
                &&& forall|i: int|
                    0 <= i < jobs@.len() ==> is_queued(
                        #[trigger] jobs@[i],
                        ids@[i]@,
                        config.branches@[i].name@,
                        now@,
                    )
            },
            Err(words) => !all_idle(*config, rows@) && words@ == "该分支已有活动任务"@,
        },
{
    let mut i: usize = 0;
    while i < config.branches.len()
        invariant
            i <= config.branches@.len(),
            forall|k: int|
                0 <= k < i ==> !crate::service::db::busy(
                    rows@,
                    (#[trigger] config.branches@[k]).name@,
                ),
        decreases config.branches@.len() - i,
    {
        match ensure_no_active_sync(rows, config.branches[i].name.as_str()) {
            Ok(()) => {},
            Err(words) => {
                assert(crate::service::db::busy(rows@, config.branches@[i as int].name@));
                return Err(words);
            },
        }
        i += 1;
    }
    let mut jobs: Vec<JobRow> = Vec::new();
    let mut k: usize = 0;
    while k < config.branches.len()
        invariant
            k <= config.branches@.len() == ids@.len(),
            all_idle(*config, rows@),
            jobs@.len() == k,
            forall|i: int|
                0 <= i < k ==> is_queued(
                    #[trigger] jobs@[i],
                    ids@[i]@,
                    config.branches@[i].name@,
                    now@,
                ),
        decreases config.branches@.len() - k,
    {
        assert(!crate::service::db::busy(rows@, config.branches@[k as int].name@));
        match create_job(rows, "sync", config.branches[k].name.as_str(), ids[k].as_str(), now) {
            Ok(row) => {
                jobs.push(row);
            },
            Err(words) => {
                return Err(words);
            },
        }
        k += 1;
    }
    Ok(jobs)
}

/// The parts of a message on a security problem have the right sizes.
pub open spec fn sized(request: ProtectionInvestigationRequest) -> bool {
    &&& crate::strings::trimmed(request.summary@).len() > 0
    &&& request.summary@.len() <= 500
    &&& crate::strings::trimmed(request.content@).len() > 0
    &&& crate::strings::byte_count(request.content@) <= 64 * 1024
    &&& request.reference is Some ==> crate::strings::byte_count(request.reference->0@) <= 2048
}

/// Accepts a message on a security problem; the job is for the branch that it names, or for all.
pub fn start_protection_investigation(config: &Config, request: &ProtectionInvestigationRequest) -> (r:
    Result<String, Refusal>)
    ensures
        match r {
            Ok(branch) => {
                &&& sized(*request)
                &&& match request.branch {
                    Some(name) => known_branch(*config, name@) && branch@ == name@,
                    None => branch@ == "*"@,
                }
            },
            Err(refusal) => if !sized(*request) {
                is_bad_request(
                    refusal,
                    "安全消息要求 1-500 字摘要、1-65536 字节正文和最多 2048 字节引用"@,
                )
            } else {
                request.branch is Some && !known_branch(*config, request.branch->0@) && is_bad_request(
                    refusal,
                    "测试分支不在白名单中"@,
                )
            },
        },
{
    let long_reference = match &request.reference {
        Some(reference) => byte_len(reference.as_str()) > 2048,
        None => false,
    };
    if is_blank(request.summary.as_str()) || char_count(request.summary.as_str()) > 500 || is_blank(
        request.content.as_str(),
    ) || byte_len(request.content.as_str()) > 64 * 1024 || long_reference {
        return Err(
            bad_request("安全消息要求 1-500 字摘要、1-65536 字节正文和最多 2048 字节引用"),
        );
    }
    match &request.branch {
        Some(name) => match find_branch(&config.branches, name.as_str()) {
            Some(_) => Ok(name.clone()),
            None => Err(bad_request("测试分支不在白名单中")),
        },
        None => Ok(owned("*")),
    }
}

/// An upper-case letter, a digit or an underscore.
pub open spec fn is_env_char(c: char) -> bool {
    ('A' <= c && c <= 'Z') || crate::strings::is_digit(c) || c == '_'
}

/// The name of an environment variable.
pub open spec fn is_env_name(s: Seq<char>) -> bool {
    &&& 0 < s.len()
    &&& crate::strings::byte_count(s) <= 128
    &&& forall|i: int| 0 <= i < s.len() ==> is_env_char(#[trigger] s[i])
}

fn env_name(s: &str) -> (r: bool)
    ensures
        r == is_env_name(s@),
{
    let chars = to_chars(s);
    if chars.len() == 0 || byte_len(s) > 128 {
        return false;
    }
    let mut i: usize = 0;
    while i < chars.len()
        invariant
            i <= chars@.len(),
            chars@ == s@,
            forall|k: int| 0 <= k < i ==> is_env_char(#[trigger] s@[k]),
        decreases chars@.len() - i,
    {
        let c = chars[i];
        if !(('A' <= c && c <= 'Z') || crate::strings::char_is_digit(c) || c == '_') {
            assert(!is_env_char(s@[i as int]));
            return false;
        }
        i += 1;
    }
    true
}

/// Accepts the publication of an issue: it is agreed to, and the token is in a variable with a
/// plain name.
pub fn publish_protection_issue(approve: bool, token_env: &str) -> (r: Result<(), Refusal>)
    ensures
        match r {
            Ok(_) => approve && is_env_name(token_env@),
            Err(refusal) => if !approve {
                is_bad_request(refusal, "必须显式 approve=true"@)
            } else {
                !is_env_name(token_env@) && is_bad_request(refusal, "Token 环境变量名非法"@)
            },
        },
{
    if !approve {
        return Err(bad_request("必须显式 approve=true"));
    }
    if env_name(token_env) {
        Ok(())
    } else {
        Err(bad_request("Token 环境变量名非法"))
    }
}

/// The kinds of job that can be run again.
#[derive(Debug, Clone, Copy, PartialEq, Eq, Structural)]
pub enum Retry {
    Check,
    Sync,
}

/// How a job is run again.
pub fn retry_job(kind: &str) -> (r: Result<Retry, Refusal>)
    ensures
        match r {
            Ok(Retry::Check) => kind@ == "check"@,
            Ok(Retry::Sync) => kind@ == "sync"@ && kind@ != "check"@,
            Err(refusal) => kind@ != "check"@ && kind@ != "sync"@ && is_bad_request(
                refusal,
                "只支持重试 check 或 sync 任务"@,
            ),
        },
{
    if same(kind, "check") {
        Ok(Retry::Check)
    } else if same(kind, "sync") {
        Ok(Retry::Sync)
    } else {
        Err(bad_request("只支持重试 check 或 sync 任务"))
    }
}

/// What can be asked of the service.
#[derive(Debug, Clone, Copy, PartialEq, Eq, Structural)]
pub enum Endpoint {
    Status,
    Stats,
    Dashboard,
    Branches,
    Branch,
    ConfigSummary,
    Jobs,
    Job,
    Events,
    StartCheck,
    StartSyncAll,
    StartSync,
    Investigate,
    PublishIssue,
    ScheduledSyncAll,
    ScheduledAdvisories,
    CancelJob,
    RetryJob,
    CleanupJobs,
    AddMessage,
    GenerateProposal,
    ApplyProposal,
    AbandonJob,
    RetryPush,
    CreateChallenge,
    ConfirmPush,
}

/// The request only reads.
pub open spec fn only_reads(endpoint: Endpoint) -> bool {
    match endpoint {
        Endpoint::Status | Endpoint::Stats | Endpoint::Dashboard | Endpoint::Branches
        | Endpoint::Branch | Endpoint::ConfigSummary | Endpoint::Jobs | Endpoint::Job
        | Endpoint::Events => true,
        _ => false,
    }
}

impl Endpoint {
    /// Whether the request only reads. Those that change something are posted.
    pub fn is_read_only(self) -> (r: bool)
        ensures
            r == only_reads(self),
    {
        match self {
            Endpoint::Status | Endpoint::Stats | Endpoint::Dashboard | Endpoint::Branches
            | Endpoint::Branch | Endpoint::ConfigSummary | Endpoint::Jobs | Endpoint::Job
            | Endpoint::Events => true,
            _ => false,
        }
    }

    pub fn path(self) -> (r: &'static str)
        ensures
            r@ == path_of(self),
    {
        match self {
            Endpoint::Status => "/v1/status",
            Endpoint::Stats => "/v1/stats",
            Endpoint::Dashboard => "/v1/dashboard",
            Endpoint::Branches => "/v1/branches",
            Endpoint::Branch => "/v1/branches/:name",
            Endpoint::ConfigSummary => "/v1/config/summary",
            Endpoint::Jobs => "/v1/jobs",
            Endpoint::Job => "/v1/jobs/:id",
            Endpoint::Events => "/v1/events",
            Endpoint::StartCheck => "/v1/jobs/check",
            Endpoint::StartSyncAll => "/v1/jobs/sync-all",
            Endpoint::StartSync => "/v1/jobs/sync",
            Endpoint::Investigate => "/v1/protection/investigate",
            Endpoint::PublishIssue => "/v1/protection/issues/:id/publish",
            Endpoint::ScheduledSyncAll => "/v1/internal/scheduled-sync-all",
            Endpoint::ScheduledAdvisories => "/v1/internal/scheduled-advisories",
            Endpoint::CancelJob => "/v1/jobs/:id/cancel",
            Endpoint::RetryJob => "/v1/jobs/:id/retry",
            Endpoint::CleanupJobs => "/v1/jobs/cleanup",
            Endpoint::AddMessage => "/v1/conflicts/:id/messages",
            Endpoint::GenerateProposal => "/v1/conflicts/:id/proposal",
            Endpoint::ApplyProposal => "/v1/conflicts/:id/apply",
            Endpoint::AbandonJob => "/v1/conflicts/:id/abandon",
            Endpoint::RetryPush => "/v1/conflicts/:id/push",
            Endpoint::CreateChallenge => "/v1/conflicts/:id/challenge",
            Endpoint::ConfirmPush => "/v1/push/confirm",
        }
    }
}

pub open spec fn path_of(endpoint: Endpoint) -> Seq<char> {
    match endpoint {
        Endpoint::Status => "/v1/status"@,
        Endpoint::Stats => "/v1/stats"@,
        Endpoint::Dashboard => "/v1/dashboard"@,
        Endpoint::Branches => "/v1/branches"@,
        Endpoint::Branch => "/v1/branches/:name"@,
        Endpoint::ConfigSummary => "/v1/config/summary"@,
        Endpoint::Jobs => "/v1/jobs"@,
        Endpoint::Job => "/v1/jobs/:id"@,
        Endpoint::Events => "/v1/events"@,
        Endpoint::StartCheck => "/v1/jobs/check"@,
        Endpoint::StartSyncAll => "/v1/jobs/sync-all"@,
        Endpoint::StartSync => "/v1/jobs/sync"@,
        Endpoint::Investigate => "/v1/protection/investigate"@,
        Endpoint::PublishIssue => "/v1/protection/issues/:id/publish"@,
        Endpoint::ScheduledSyncAll => "/v1/internal/scheduled-sync-all"@,
        Endpoint::ScheduledAdvisories => "/v1/internal/scheduled-advisories"@,
        Endpoint::CancelJob => "/v1/jobs/:id/cancel"@,
        Endpoint::RetryJob => "/v1/jobs/:id/retry"@,
        Endpoint::CleanupJobs => "/v1/jobs/cleanup"@,
        Endpoint::AddMessage => "/v1/conflicts/:id/messages"@,
        Endpoint::GenerateProposal => "/v1/conflicts/:id/proposal"@,
        Endpoint::ApplyProposal => "/v1/conflicts/:id/apply"@,
        Endpoint::AbandonJob => "/v1/conflicts/:id/abandon"@,
        Endpoint::RetryPush => "/v1/conflicts/:id/push"@,
        Endpoint::CreateChallenge => "/v1/conflicts/:id/challenge"@,
        Endpoint::ConfirmPush => "/v1/push/confirm"@,
    }
}

/// What the public socket offers: nothing that changes anything.
pub fn read_only_router() -> (r: Vec<Endpoint>)
    ensures
        forall|i: int| 0 <= i < r@.len() ==> only_reads(#[trigger] r@[i]),
        forall|endpoint: Endpoint| only_reads(endpoint) ==> #[trigger] r@.contains(endpoint),
{
    let mut list: Vec<Endpoint> = Vec::new();
    list.push(Endpoint::Status);
    list.push(Endpoint::Stats);
    list.push(Endpoint::Dashboard);
    list.push(Endpoint::Branches);
    list.push(Endpoint::Branch);
    list.push(Endpoint::ConfigSummary);
    list.push(Endpoint::Jobs);
    list.push(Endpoint::Job);
    list.push(Endpoint::Events);
    assert(list@[0] == Endpoint::Status && list@[1] == Endpoint::Stats && list@[2]
        == Endpoint::Dashboard && list@[3] == Endpoint::Branches && list@[4] == Endpoint::Branch
        && list@[5] == Endpoint::ConfigSummary && list@[6] == Endpoint::Jobs && list@[7]
        == Endpoint::Job && list@[8] == Endpoint::Events);
    list
}

/// Why the service does not start.
pub open spec fn service_fault(config: Config) -> Option<Seq<char>> {
    let repeated = first_repeated(config, 0);
    if config.branches@.len() == 0 {
        Some("TermiteRS 至少需要一个维护分支"@)
    } else if repeated is Some {
        Some("维护分支重复："@ + config.branches@[repeated->0].name@)
    } else if config.service.public_socket_path is Some && config.service.public_socket_path->0@
        == config.service.socket_path@ {
        Some("service.public_socket_path 必须与控制 socket_path 不同"@)
    } else {
        None
    }
}

/// The first branch, at or behind `i`, whose name an earlier one has.
pub open spec fn first_repeated(config: Config, i: int) -> Option<int>
    decreases config.branches@.len() - i,
{
    if i >= config.branches@.len() {
        None
    } else if crate::protection::investigate::branch_named(
        config.branches@,
        config.branches@[i].name@,
        0,
    ) != Some(i) {
        Some(i)
    } else {
        first_repeated(config, i + 1)
    }
}

/// Accepts a configuration with which the service can start: branches with different names, and two
/// sockets where there is a public one.
pub fn validate_service_config(config: &Config) -> (r: Result<(), String>)
    ensures
        match r {
            Ok(_) => service_fault(*config) is None,
            Err(words) => service_fault(*config) == Some(words@),
        },
{
    if config.branches.len() == 0 {
        return Err(owned("TermiteRS 至少需要一个维护分支"));
    }
    let mut i: usize = 0;
    while i < config.branches.len()
        invariant
            i <= config.branches@.len(),
            config.branches@.len() > 0,
            first_repeated(*config, 0) == first_repeated(*config, i as int),
        decreases config.branches@.len() - i,
    {
        let name = config.branches[i].name.as_str();
        let first = match find_branch(&config.branches, name) {
            Some(k) => k == i,
            None => false,
        };
        if !first {
            return Err(owned("维护分支重复：").concat(name));
        }
        i += 1;
    }
    match &config.service.public_socket_path {
        Some(path) => if same(path.as_str(), config.service.socket_path.as_str()) {
            return Err(owned("service.public_socket_path 必须与控制 socket_path 不同"));
        },
        None => {},
    }
    Ok(())
}

proof fn lemma_none_repeated(config: Config, from: int, i: int)
    requires
        0 <= from <= i < config.branches@.len(),
        first_repeated(config, from) is None,
    ensures
        crate::protection::investigate::branch_named(
            config.branches@,
            config.branches@[i].name@,
            0,
        ) == Some(i),
    decreases i - from,
{
    if from < i {
        lemma_none_repeated(config, from + 1, i);
    }
}

/// A configuration with which the service starts names every branch once.
pub proof fn law_branches_are_named_once(config: Config, i: int, j: int)
    requires
        service_fault(config) is None,
        0 <= i < j < config.branches@.len(),
    ensures
        config.branches@[i].name@ != config.branches@[j].name@,
{
    lemma_none_repeated(config, 0, i);
    lemma_none_repeated(config, 0, j);
}

} // verus!
