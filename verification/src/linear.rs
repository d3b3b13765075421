//! Reads the issues of Linear that are assigned to the holder of the key.
use crate::strings::{owned, same};
use crate::text::{drop_controls, is_blank, take_chars};
use vstd::prelude::*;

verus! {

pub const LINEAR_ENDPOINT: &'static str = "https://api.linear.app/graphql";

pub const ASSIGNED_ISSUES_QUERY: &'static str =
    "query TermiteAssignedIssues($first: Int!) {\n  viewer {\n    id\n    assignedIssues(first: $first, orderBy: updatedAt) {\n      nodes {\n        id\n        identifier\n        title\n        url\n        updatedAt\n        state { name }\n        assignee { id }\n        team { key }\n      }\n    }\n  }\n}";

#[derive(Debug, Clone)]
pub struct LinearConfig {
    pub enabled: bool,
    pub api_key_env: String,
    pub max_issues: u32,
}

#[derive(Debug, Clone)]
pub struct LinearIssueSummary {
    pub identifier: String,
    pub title: String,
    pub status: String,
    pub team: String,
    pub updated_at: String,
    pub url: String,
}

/// The answer to the query.
#[derive(Debug)]
pub struct GraphQlEnvelope {
    pub data: Option<Viewer>,
    /// The messages of the errors.
    pub errors: Vec<String>,
}

/// The person that the key belongs to, and their issues.
#[derive(Debug)]
pub struct Viewer {
    pub id: String,
    pub nodes: Vec<IssueNode>,
}

#[derive(Debug)]
pub struct IssueNode {
    pub identifier: String,
    pub title: String,
    pub url: String,
    pub updated_at: String,
    pub state: String,
    pub assignee: Option<String>,
    pub team: String,
}

/// What is sent.
#[derive(Debug)]
pub struct LinearRequest {
    pub endpoint: String,
    pub query: String,
    pub first: u32,
}

/// A text without control characters, and of at most `max` characters.
pub open spec fn sanitized_text(value: Seq<char>, max: nat) -> Seq<char> {
    crate::text::first_chars(crate::text::shown(value, ""@), max)
}

fn sanitized(value: &str, max_chars: usize) -> (r: String)
    ensures
        r@ == sanitized_text(value@, max_chars as nat),
{
    take_chars(drop_controls(value, "").as_str(), max_chars)
}

/// The issue as it is told.
pub open spec fn tells(told: LinearIssueSummary, issue: IssueNode) -> bool {
    &&& told.identifier@ == sanitized_text(issue.identifier@, 64)
    &&& told.title@ == sanitized_text(issue.title@, 500)
    &&& told.status@ == sanitized_text(issue.state@, 100)
    &&& told.team@ == sanitized_text(issue.team@, 40)
    &&& told.updated_at@ == issue.updated_at@
    &&& told.url@ == issue.url@
}

/// The issue is assigned to that person.
pub open spec fn belongs_to(issue: IssueNode, person: Seq<char>) -> bool {
    crate::strings::opt_view(issue.assignee) == Some(person)
}

pub open spec fn all_belong_to(issues: Seq<IssueNode>, person: Seq<char>) -> bool {
    forall|i: int| 0 <= i < issues.len() ==> belongs_to(#[trigger] issues[i], person)
}

/// Why an answer is not taken, if it is not.
pub open spec fn answer_fault(envelope: GraphQlEnvelope, expected: Seq<char>) -> Option<Seq<char>> {
    if envelope.errors@.len() > 0 {
        Some("Linear GraphQL 返回错误："@ + sanitized_text(envelope.errors@[0]@, 200))
    } else {
        match envelope.data {
            None => Some("Linear 响应缺少 data"@),
            Some(viewer) => if viewer.id@ != expected {
                Some("Linear 授权身份与 scope.linear_assignee 不一致"@)
            } else if !all_belong_to(viewer.nodes@, expected) {
                Some("Linear 返回了不属于当前授权用户的事项"@)
            } else {
                None
            },
        }
    }
}

/// Why nothing is asked, if nothing is. `key` is the key, where there is one.
pub open spec fn request_fault(
    config: LinearConfig,
    expected: Seq<char>,
    key: Option<Seq<char>>,
) -> Option<Seq<char>> {
    if !config.enabled {
        Some("Linear 本地读取未启用"@)
    } else if crate::strings::trimmed(expected).len() == 0 {
        Some("Linear 个人负责人范围未配置"@)
    } else if !(1 <= config.max_issues <= 50) {
        Some("Linear max_issues 必须在 1 到 50 之间"@)
    } else {
        match key {
            None => Some("缺少 Linear API key 环境变量 "@ + config.api_key_env@),
            Some(key) => if crate::strings::trimmed(key).len() == 0 {
                Some("Linear API key 为空"@)
            } else {
                None
            },
        }
    }
}

pub struct LinearClient<'a> {
    pub config: &'a LinearConfig,
    pub endpoint: &'a str,
}

impl<'a> LinearClient<'a> {
    pub fn new(config: &'a LinearConfig) -> (r: LinearClient<'a>)
        ensures
            r.config == config,
            r.endpoint@ == "https://api.linear.app/graphql"@,
    {
        LinearClient { config, endpoint: LINEAR_ENDPOINT }
    }

    /// What is asked for the issues of a person, or why nothing is.
    pub fn assigned_issues(&self, expected_assignee_id: &str, api_key: Option<&str>) -> (r: Result<
        LinearRequest,
        String,
    >)
        ensures
            match r {
                Ok(request) => {
                    &&& request_fault(
                        *self.config,
                        expected_assignee_id@,
                        crate::strings::opt_str(api_key),
                    ) is None
                    &&& request.endpoint@ == self.endpoint@
                    &&& request.query@ == ASSIGNED_ISSUES_QUERY@
                    &&& request.first == self.config.max_issues
                },
                Err(words) => request_fault(
                    *self.config,
                    expected_assignee_id@,
                    crate::strings::opt_str(api_key),
                ) == Some(words@),
            },
    {
        if !self.config.enabled {
            return Err(owned("Linear 本地读取未启用"));
        }
        if is_blank(expected_assignee_id) {
            return Err(owned("Linear 个人负责人范围未配置"));
        }
        if self.config.max_issues < 1 || self.config.max_issues > 50 {
            return Err(owned("Linear max_issues 必须在 1 到 50 之间"));
        }
        match api_key {
            None => Err(
                owned("缺少 Linear API key 环境变量 ").concat(self.config.api_key_env.as_str()),
            ),
            Some(key) => if is_blank(key) {
                Err(owned("Linear API key 为空"))
            } else {
                Ok(
                    LinearRequest {
                        endpoint: owned(self.endpoint),
                        query: owned(ASSIGNED_ISSUES_QUERY),
                        first: self.config.max_issues,
                    },
                )
            },
        }
    }
}

/// The issues in an answer. An answer to another person, or with an issue of another person in it,
/// is refused as a whole.
pub fn read_issues(envelope: &GraphQlEnvelope, expected_assignee_id: &str) -> (r: Result<
    Vec<LinearIssueSummary>,
    String,
>)
    ensures
        match r {
            Ok(issues) => {
                let nodes = envelope.data->0.nodes@;
                &&& answer_fault(*envelope, expected_assignee_id@) is None
                &&& issues@.len() == nodes.len()
                &&& forall|i: int| 0 <= i < nodes.len() ==> tells(#[trigger] issues@[i], nodes[i])
            },
            Err(words) => answer_fault(*envelope, expected_assignee_id@) == Some(words@),
        },
{
    if envelope.errors.len() > 0 {
        return Err(
            owned("Linear GraphQL 返回错误：").concat(
                sanitized(envelope.errors[0].as_str(), 200).as_str(),
            ),
        );
    }
    match &envelope.data {
        None => Err(owned("Linear 响应缺少 data")),
        Some(viewer) => {
            if !same(viewer.id.as_str(), expected_assignee_id) {
                return Err(owned("Linear 授权身份与 scope.linear_assignee 不一致"));
            }
            let nodes = &viewer.nodes;
            let mut issues: Vec<LinearIssueSummary> = Vec::new();
            let mut i: usize = 0;
            while i < nodes.len()
                invariant
                    i <= nodes@.len(),
                    envelope.errors@.len() == 0,
                    envelope.data == Some(*viewer),
                    *nodes == viewer.nodes,
                    viewer.id@ == expected_assignee_id@,
                    issues@.len() == i,
                    forall|k: int|
                        0 <= k < i ==> belongs_to(#[trigger] nodes@[k], expected_assignee_id@),
                    forall|k: int| 0 <= k < i ==> tells(#[trigger] issues@[k], nodes@[k]),
                decreases nodes@.len() - i,
            {
                let issue = &nodes[i];
                let own = match &issue.assignee {
                    Some(person) => same(person.as_str(), expected_assignee_id),
                    None => false,
                };
                if !own {
                    assert(!belongs_to(nodes@[i as int], expected_assignee_id@));
                    return Err(owned("Linear 返回了不属于当前授权用户的事项"));
                }
                issues.push(
                    LinearIssueSummary {
                        identifier: sanitized(issue.identifier.as_str(), 64),
                        title: sanitized(issue.title.as_str(), 500),
                        status: sanitized(issue.state.as_str(), 100),
                        team: sanitized(issue.team.as_str(), 40),
                        updated_at: owned(issue.updated_at.as_str()),
                        url: owned(issue.url.as_str()),
                    },
                );
                i += 1;
            }
            Ok(issues)
        },
    }
}

/// An answer is taken only where it is free of errors, is one to the expected person, and holds
/// issues of that person alone.
pub proof fn law_only_own_issues(envelope: GraphQlEnvelope, expected: Seq<char>)
    requires
        answer_fault(envelope, expected) is None,
    ensures
        envelope.errors@.len() == 0,
        envelope.data is Some,
        envelope.data->0.id@ == expected,
        all_belong_to(envelope.data->0.nodes@, expected),
{
}

} // verus!
