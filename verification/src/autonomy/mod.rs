//! What the autonomous flow may do, and on what.
use crate::strings::{eq_ignore_case, owned, same, split_on};
use crate::table::TextTable;
use vstd::prelude::*;

pub mod local_task;
pub mod task_report;

verus! {

/// What is to happen when an action comes up.
#[derive(Debug, Clone, Copy, PartialEq, Eq, Structural)]
pub enum PermissionMode {
    Deny,
    Ask,
    Allow,
}

impl Default for PermissionMode {
    fn default() -> (r: PermissionMode)
        ensures
            r == PermissionMode::Deny,
    {
        PermissionMode::Deny
    }
}

/// The word for a mode.
pub open spec fn mode_label(mode: PermissionMode) -> Seq<char> {
    match mode {
        PermissionMode::Deny => "deny"@,
        PermissionMode::Ask => "ask"@,
        PermissionMode::Allow => "allow"@,
    }
}

impl PermissionMode {
    pub fn label(self) -> (r: &'static str)
        ensures
            r@ == mode_label(self),
    {
        match self {
            PermissionMode::Deny => "deny",
            PermissionMode::Ask => "ask",
            PermissionMode::Allow => "allow",
        }
    }
}

/// The mode of each action. No answer of a model and no remote text changes it.
#[derive(Debug, Clone)]
pub struct AutonomyPermissions {
    pub github_read: PermissionMode,
    pub linear_read: PermissionMode,
    pub local_read: PermissionMode,
    pub edit_code: PermissionMode,
    pub run_tests: PermissionMode,
    pub local_commit: PermissionMode,
    pub push_branch: PermissionMode,
    pub github_reply: PermissionMode,
    pub linear_write: PermissionMode,
    pub merge_pr: PermissionMode,
}

/// The mode of an action where the configuration is silent.
pub open spec fn default_mode(action: AutonomyAction) -> PermissionMode {
    match action {
        AutonomyAction::GithubRead => PermissionMode::Allow,
        AutonomyAction::EditCode
        | AutonomyAction::RunTests
        | AutonomyAction::LocalCommit => PermissionMode::Ask,
        _ => PermissionMode::Deny,
    }
}

impl Default for AutonomyPermissions {
    fn default() -> (r: AutonomyPermissions)
        ensures
            forall|action: AutonomyAction| #[trigger] r.of(action) == default_mode(action),
    {
        AutonomyPermissions {
            github_read: PermissionMode::Allow,
            linear_read: PermissionMode::Deny,
            local_read: PermissionMode::Deny,
            edit_code: PermissionMode::Ask,
            run_tests: PermissionMode::Ask,
            local_commit: PermissionMode::Ask,
            push_branch: PermissionMode::Deny,
            github_reply: PermissionMode::Deny,
            linear_write: PermissionMode::Deny,
            merge_pr: PermissionMode::Deny,
        }
    }
}

#[derive(Debug, Clone)]
pub struct AutonomyConfig {
    pub enabled: bool,
    pub permissions: AutonomyPermissions,
    pub scope: AutonomyScope,
}

impl Default for AutonomyConfig {
    fn default() -> (r: AutonomyConfig)
        ensures
            !r.enabled,
            forall|action: AutonomyAction|
                #[trigger] r.permissions.of(action) == default_mode(action),
            r.scope.is_empty(),
    {
        AutonomyConfig {
            enabled: false,
            permissions: AutonomyPermissions::default(),
            scope: AutonomyScope::default(),
        }
    }
}

/// The objects on which actions may run. An empty list admits nothing.
#[derive(Debug, Clone)]
pub struct AutonomyScope {
    pub github_owners: Vec<String>,
    pub github_repositories: Vec<String>,
    pub github_author: String,
    pub local_repositories: Vec<String>,
    pub linear_assignee: String,
}

impl Default for AutonomyScope {
    fn default() -> (r: AutonomyScope)
        ensures
            r.is_empty(),
    {
        AutonomyScope {
            github_owners: Vec::new(),
            github_repositories: Vec::new(),
            github_author: String::new(),
            local_repositories: Vec::new(),
            linear_assignee: String::new(),
        }
    }
}

/// What an action is to run on. `places` holds, for each path that the file
/// system knows, the path without links that it stands for.
pub enum AutonomyTarget<'a> {
    Github { repository: &'a str, author: &'a str },
    Local { path: &'a str, places: &'a TextTable },
    Push { path: &'a str, places: &'a TextTable, repository: &'a str, author: &'a str },
    Linear { assignee: &'a str },
}

#[derive(Debug, Clone, Copy, PartialEq, Eq, Structural)]
pub enum AutonomyAction {
    GithubRead,
    LinearRead,
    LocalRead,
    EditCode,
    RunTests,
    LocalCommit,
    PushBranch,
    GithubReply,
    LinearWrite,
    MergePr,
}

/// The actions that the overview lists, in its order.
pub open spec fn listed_actions() -> Seq<AutonomyAction> {
    seq![
        AutonomyAction::GithubRead,
        AutonomyAction::LinearRead,
        AutonomyAction::EditCode,
        AutonomyAction::RunTests,
        AutonomyAction::LocalCommit,
        AutonomyAction::PushBranch,
        AutonomyAction::GithubReply,
        AutonomyAction::LinearWrite,
        AutonomyAction::MergePr,
    ]
}

/// The word for an action in the configuration.
pub open spec fn action_key(action: AutonomyAction) -> Seq<char> {
    match action {
        AutonomyAction::GithubRead => "github_read"@,
        AutonomyAction::LinearRead => "linear_read"@,
        AutonomyAction::LocalRead => "local_read"@,
        AutonomyAction::EditCode => "edit_code"@,
        AutonomyAction::RunTests => "run_tests"@,
        AutonomyAction::LocalCommit => "local_commit"@,
        AutonomyAction::PushBranch => "push_branch"@,
        AutonomyAction::GithubReply => "github_reply"@,
        AutonomyAction::LinearWrite => "linear_write"@,
        AutonomyAction::MergePr => "merge_pr"@,
    }
}

impl AutonomyAction {
    pub fn listed() -> (r: Vec<AutonomyAction>)
        ensures
            r@ == listed_actions(),
    {
        let r = vec![
            AutonomyAction::GithubRead,
            AutonomyAction::LinearRead,
            AutonomyAction::EditCode,
            AutonomyAction::RunTests,
            AutonomyAction::LocalCommit,
            AutonomyAction::PushBranch,
            AutonomyAction::GithubReply,
            AutonomyAction::LinearWrite,
            AutonomyAction::MergePr,
        ];
        assert(r@ =~= listed_actions());
        r
    }

    pub fn key(self) -> (r: &'static str)
        ensures
            r@ == action_key(self),
    {
        match self {
            AutonomyAction::GithubRead => "github_read",
            AutonomyAction::LinearRead => "linear_read",
            AutonomyAction::LocalRead => "local_read",
            AutonomyAction::EditCode => "edit_code",
            AutonomyAction::RunTests => "run_tests",
            AutonomyAction::LocalCommit => "local_commit",
            AutonomyAction::PushBranch => "push_branch",
            AutonomyAction::GithubReply => "github_reply",
            AutonomyAction::LinearWrite => "linear_write",
            AutonomyAction::MergePr => "merge_pr",
        }
    }
}

impl AutonomyPermissions {
    /// The mode that is written down for an action.
    pub open spec fn of(self, action: AutonomyAction) -> PermissionMode {
        match action {
            AutonomyAction::GithubRead => self.github_read,
            AutonomyAction::LinearRead => self.linear_read,
            AutonomyAction::LocalRead => self.local_read,
            AutonomyAction::EditCode => self.edit_code,
            AutonomyAction::RunTests => self.run_tests,
            AutonomyAction::LocalCommit => self.local_commit,
            AutonomyAction::PushBranch => self.push_branch,
            AutonomyAction::GithubReply => self.github_reply,
            AutonomyAction::LinearWrite => self.linear_write,
            AutonomyAction::MergePr => self.merge_pr,
        }
    }

    pub fn mode(&self, action: AutonomyAction) -> (r: PermissionMode)
        ensures
            r == self.of(action),
    {
        match action {
            AutonomyAction::GithubRead => self.github_read,
            AutonomyAction::LinearRead => self.linear_read,
            AutonomyAction::LocalRead => self.local_read,
            AutonomyAction::EditCode => self.edit_code,
            AutonomyAction::RunTests => self.run_tests,
            AutonomyAction::LocalCommit => self.local_commit,
            AutonomyAction::PushBranch => self.push_branch,
            AutonomyAction::GithubReply => self.github_reply,
            AutonomyAction::LinearWrite => self.linear_write,
            AutonomyAction::MergePr => self.merge_pr,
        }
    }
}

/// `allowed` holds `text` up to the case of its letters.
pub open spec fn holds_ignoring_case(allowed: Seq<String>, text: Seq<char>) -> bool {
    exists|i: int|
        0 <= i < allowed.len() && crate::strings::same_ignoring_case(
            (#[trigger] allowed[i])@,
            text,
        )
}

/// Whether a list holds a text up to the case of its letters.
fn any_ignoring_case(allowed: &Vec<String>, text: &str) -> (r: bool)
    ensures
        r == holds_ignoring_case(allowed@, text@),
{
    let mut i: usize = 0;
    while i < allowed.len()
        invariant
            i <= allowed@.len(),
            forall|k: int|
                0 <= k < i ==> !crate::strings::same_ignoring_case(
                    (#[trigger] allowed@[k])@,
                    text@,
                ),
        decreases allowed@.len() - i,
    {
        if eq_ignore_case(allowed[i].as_str(), text) {
            assert(crate::strings::same_ignoring_case(allowed@[i as int]@, text@));
            return true;
        }
        i += 1;
    }
    false
}

/// The owner of a repository, where its name is an owner, a slash and a name.
pub open spec fn repository_owner(repository: Seq<char>) -> Option<Seq<char>> {
    let pieces = crate::strings::split(repository, '/');
    if pieces.len() == 2 && pieces[0].len() > 0 && pieces[1].len() > 0 {
        Some(pieces[0])
    } else {
        None
    }
}

/// Some path of the list stands for the same place as `path`.
pub open spec fn stands_for_one(
    list: Seq<String>,
    path: Seq<char>,
    places: Map<Seq<char>, Seq<char>>,
) -> bool {
    places.dom().contains(path) && exists|i: int|
        0 <= i < list.len() && places.dom().contains((#[trigger] list[i])@) && places[list[i]@]
            == places[path]
}

impl AutonomyScope {
    /// Nothing is in scope.
    pub open spec fn is_empty(self) -> bool {
        &&& self.github_owners@.len() == 0
        &&& self.github_repositories@.len() == 0
        &&& self.github_author@.len() == 0
        &&& self.local_repositories@.len() == 0
        &&& self.linear_assignee@.len() == 0
    }

    /// The author is the configured one, and the repository or its owner is listed.
    pub open spec fn admits_github(self, repository: Seq<char>, author: Seq<char>) -> bool {
        &&& self.github_author@.len() > 0
        &&& crate::strings::same_ignoring_case(self.github_author@, author)
        &&& repository_owner(repository) is Some
        &&& (holds_ignoring_case(self.github_repositories@, repository) || holds_ignoring_case(
            self.github_owners@,
            repository_owner(repository)->0,
        ))
    }

    /// The path stands for one of the listed repositories, which it may not merely lie in.
    pub open spec fn admits_local(
        self,
        path: Seq<char>,
        places: Map<Seq<char>, Seq<char>>,
    ) -> bool {
        stands_for_one(self.local_repositories@, path, places)
    }

    pub open spec fn admits_linear(self, assignee: Seq<char>) -> bool {
        self.linear_assignee@.len() > 0 && self.linear_assignee@ == assignee
    }

    fn github_matches(&self, repository: &str, author: &str) -> (r: bool)
        ensures
            r == self.admits_github(repository@, author@),
    {
        proof {
            reveal_strlit("");
            assert(self.github_author@.len() == 0 ==> self.github_author@ =~= ""@);
        }
        if same(self.github_author.as_str(), "") || !eq_ignore_case(
            self.github_author.as_str(),
            author,
        ) {
            return false;
        }
        let pieces = split_on(repository, '/');
        assert(pieces@.len() == crate::strings::views(pieces@).len());
        if pieces.len() != 2 {
            return false;
        }
        assert(crate::strings::views(pieces@)[0] == pieces@[0]@);
        assert(crate::strings::views(pieces@)[1] == pieces@[1]@);
        proof {
            crate::text::lemma_no_bytes(pieces@[0]@);
            crate::text::lemma_no_bytes(pieces@[1]@);
        }
        if crate::strings::byte_len(pieces[0].as_str()) == 0 || crate::strings::byte_len(
            pieces[1].as_str(),
        ) == 0 {
            return false;
        }
        any_ignoring_case(&self.github_repositories, repository) || any_ignoring_case(
            &self.github_owners,
            pieces[0].as_str(),
        )
    }

    fn local_matches(&self, path: &str, places: &TextTable) -> (r: bool)
        requires
            places.wf(),
        ensures
            r == self.admits_local(path@, places@),
    {
        match places.get(path) {
            None => false,
            Some(target) => {
                let mut i: usize = 0;
                while i < self.local_repositories.len()
                    invariant
                        places.wf(),
                        i <= self.local_repositories@.len(),
                        places@.dom().contains(path@),
                        places@[path@] == target@,
                        forall|k: int|
                            0 <= k < i ==> !(places@.dom().contains(
                                (#[trigger] self.local_repositories@[k])@,
                            ) && places@[self.local_repositories@[k]@] == target@),
                    decreases self.local_repositories@.len() - i,
                {
                    if let Some(allowed) = places.get(self.local_repositories[i].as_str()) {
                        if same(allowed, target) {
                            assert(places@[self.local_repositories@[i as int]@] == target@);
                            return true;
                        }
                    }
                    i += 1;
                }
                false
            },
        }
    }

    fn linear_matches(&self, assignee: &str) -> (r: bool)
        ensures
            r == self.admits_linear(assignee@),
    {
        proof {
            reveal_strlit("");
            assert(self.linear_assignee@.len() == 0 ==> self.linear_assignee@ =~= ""@);
        }
        !same(self.linear_assignee.as_str(), "") && same(self.linear_assignee.as_str(), assignee)
    }
}

impl AutonomyConfig {
    /// The mode that an action has while the flow is on, and denial while it is off.
    pub open spec fn effective(self, action: AutonomyAction) -> PermissionMode {
        if self.enabled {
            self.permissions.of(action)
        } else {
            PermissionMode::Deny
        }
    }

    /// The action fits the target, and the target is in scope.
    pub open spec fn in_scope(self, action: AutonomyAction, target: AutonomyTarget<'_>) -> bool {
        match target {
            AutonomyTarget::Github { repository, author } => {
                (action is GithubRead || action is GithubReply || action is MergePr)
                    && self.scope.admits_github(repository@, author@)
            },
            AutonomyTarget::Local { path, places } => {
                (action is LocalRead || action is EditCode || action is RunTests
                    || action is LocalCommit) && self.scope.admits_local(path@, places@)
            },
            AutonomyTarget::Push { path, places, repository, author } => {
                action is PushBranch && self.scope.admits_local(path@, places@)
                    && self.scope.admits_github(repository@, author@)
            },
            AutonomyTarget::Linear { assignee } => {
                (action is LinearRead || action is LinearWrite) && self.scope.admits_linear(
                    assignee@,
                )
            },
        }
    }

    /// The mode of an action, whatever it runs on.
    pub fn gate(&self, action: AutonomyAction) -> (r: PermissionMode)
        ensures
            r == self.effective(action),
    {
        if self.enabled {
            self.permissions.mode(action)
        } else {
            PermissionMode::Deny
        }
    }

    /// Decides on one action on one target. An action that does not fit the target is denied.
    pub fn authorize(&self, action: AutonomyAction, target: AutonomyTarget<'_>) -> (r:
        PermissionMode)
        requires
            target matches AutonomyTarget::Local { places, .. } ==> places.wf(),
            target matches AutonomyTarget::Push { places, .. } ==> places.wf(),
        ensures
            r == (if self.in_scope(action, target) {
                self.effective(action)
            } else {
                PermissionMode::Deny
            }),
    {
        let in_scope = match target {
            AutonomyTarget::Github { repository, author } => match action {
                AutonomyAction::GithubRead
                | AutonomyAction::GithubReply
                | AutonomyAction::MergePr => self.scope.github_matches(repository, author),
                _ => false,
            },
            AutonomyTarget::Local { path, places } => match action {
                AutonomyAction::LocalRead
                | AutonomyAction::EditCode
                | AutonomyAction::RunTests
                | AutonomyAction::LocalCommit => self.scope.local_matches(path, places),
                _ => false,
            },
            AutonomyTarget::Push { path, places, repository, author } => match action {
                AutonomyAction::PushBranch => self.scope.local_matches(path, places)
                    && self.scope.github_matches(repository, author),
                _ => false,
            },
            AutonomyTarget::Linear { assignee } => match action {
                AutonomyAction::LinearRead
                | AutonomyAction::LinearWrite => self.scope.linear_matches(assignee),
                _ => false,
            },
        };
        if in_scope {
            self.gate(action)
        } else {
            PermissionMode::Deny
        }
    }

    /// The line on one action.
    pub open spec fn action_line(self, action: AutonomyAction) -> Seq<char> {
        "- "@ + action_key(action) + ": "@ + mode_label(self.effective(action)) + (
        if self.permissions.of(action) != self.effective(action) {
            "（配置为 "@ + mode_label(self.permissions.of(action)) + "，但总开关未启用）"@
        } else {
            ""@
        }) + "\n"@
    }

    /// The lines on the first `n` listed actions.
    pub open spec fn action_lines(self, n: int) -> Seq<char>
        decreases n,
    {
        if n <= 0 {
            Seq::empty()
        } else {
            self.action_lines(n - 1) + self.action_line(listed_actions()[n - 1])
        }
    }

    /// The overview of the configuration.
    pub open spec fn overview(self) -> Seq<char> {
        "自治流程："@ + (if self.enabled {
            "启用"@
        } else {
            "停用"@
        }) + "\n"@ + self.action_lines(9)
            + "范围规则：未填写的作者、负责人或仓库列表不表示全部；执行前还会检查具体目标。"@
    }

    pub fn render(&self) -> (r: String)
        ensures
            r@ == self.overview(),
    {
        let ghost head = "自治流程："@ + (if self.enabled {
            "启用"@
        } else {
            "停用"@
        }) + "\n"@;
        let mut output: String = owned("自治流程：").concat(
            if self.enabled {
                "启用"
            } else {
                "停用"
            },
        ).concat("\n");
        let actions = AutonomyAction::listed();
        let mut i: usize = 0;
        assert(output@ =~= head + self.action_lines(0));
        while i < actions.len()
            invariant
                i <= 9,
                actions@ == listed_actions(),
                output@ == head + self.action_lines(i as int),
            decreases 9 - i,
        {
            let action = actions[i];
            let configured = self.permissions.mode(action);
            let effective = self.gate(action);
            let remark: String = if configured != effective {
                owned("（配置为 ").concat(configured.label()).concat("，但总开关未启用）")
            } else {
                owned("")
            };
            let line: String = owned("- ").concat(action.key()).concat(": ").concat(
                effective.label(),
            ).concat(remark.as_str()).concat("\n");
            assert(line@ =~= self.action_line(action));
            output = output.concat(line.as_str());
            i += 1;
            assert(output@ =~= head + self.action_lines(i as int));
        }
        output.concat(
            "范围规则：未填写的作者、负责人或仓库列表不表示全部；执行前还会检查具体目标。",
        )
    }
}

/// Nothing is permitted while the flow is off, whatever the fields say.
pub proof fn law_off_means_denied(config: AutonomyConfig, action: AutonomyAction)
    requires
        !config.enabled,
    ensures
        config.effective(action) is Deny,
{
}

/// No target is in a scope in which nothing is written down.
pub proof fn law_empty_scope_admits_nothing(
    config: AutonomyConfig,
    action: AutonomyAction,
    target: AutonomyTarget<'_>,
)
    requires
        config.scope.is_empty(),
    ensures
        !config.in_scope(action, target),
{
}

/// Where the configuration is silent on permissions, nothing that others see happens, and
/// nothing is changed here without asking.
pub proof fn law_writes_are_not_granted_by_default(config: AutonomyConfig, action: AutonomyAction)
    requires
        forall|a: AutonomyAction| #[trigger] config.permissions.of(a) == default_mode(a),
    ensures
        action is PushBranch || action is GithubReply || action is LinearWrite
            || action is MergePr ==> config.effective(action) is Deny,
        !(action is GithubRead) ==> !(config.effective(action) is Allow),
{
    assert(config.permissions.of(action) == default_mode(action));
}

/// What is decided on an action depends on the mode of that action alone: two
/// configurations that agree on it, on the switch and on the scope decide alike.
pub proof fn law_permissions_are_independent(
    a: AutonomyConfig,
    b: AutonomyConfig,
    action: AutonomyAction,
    target: AutonomyTarget<'_>,
)
    requires
        a.enabled == b.enabled,
        a.scope == b.scope,
        a.permissions.of(action) == b.permissions.of(action),
    ensures
        a.effective(action) == b.effective(action),
        a.in_scope(action, target) == b.in_scope(action, target),
{
}

/// A push is in scope only where the same repository and author are in scope on GitHub
/// and the same path is in scope for edits.
pub proof fn law_push_needs_both_scopes(
    config: AutonomyConfig,
    path: &str,
    places: &TextTable,
    repository: &str,
    author: &str,
)
    ensures
        config.in_scope(
            AutonomyAction::PushBranch,
            AutonomyTarget::Push { path, places, repository, author },
        ) == (config.in_scope(AutonomyAction::EditCode, AutonomyTarget::Local { path, places })
            && config.in_scope(
            AutonomyAction::GithubReply,
            AutonomyTarget::Github { repository, author },
        )),
{
}

} // verus!
