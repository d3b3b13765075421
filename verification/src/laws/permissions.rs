//! What the autonomous flow is let do, spelled out.
use vstd::prelude::*;

use crate::autonomy::{AutonomyAction, AutonomyConfig, AutonomyPermissions, AutonomyTarget, PermissionMode};

verus! {

/// Every action goes by the permission of its own name.
pub proof fn law_action_goes_by_its_own_permission(p: AutonomyPermissions)
    ensures
        p.of(AutonomyAction::GithubRead) == p.github_read,
        p.of(AutonomyAction::LinearRead) == p.linear_read,
        p.of(AutonomyAction::LocalRead) == p.local_read,
        p.of(AutonomyAction::EditCode) == p.edit_code,
        p.of(AutonomyAction::RunTests) == p.run_tests,
        p.of(AutonomyAction::LocalCommit) == p.local_commit,
        p.of(AutonomyAction::PushBranch) == p.push_branch,
        p.of(AutonomyAction::GithubReply) == p.github_reply,
        p.of(AutonomyAction::LinearWrite) == p.linear_write,
        p.of(AutonomyAction::MergePr) == p.merge_pr,
{
}

/// Where nothing is said, reading from GitHub is allowed, local work is asked about, and everything else
/// is denied.
pub proof fn law_defaults_are_careful()
    ensures
        crate::autonomy::default_mode(AutonomyAction::GithubRead) is Allow,
        crate::autonomy::default_mode(AutonomyAction::EditCode) is Ask,
        crate::autonomy::default_mode(AutonomyAction::RunTests) is Ask,
        crate::autonomy::default_mode(AutonomyAction::LocalCommit) is Ask,
        crate::autonomy::default_mode(AutonomyAction::LinearRead) is Deny,
        crate::autonomy::default_mode(AutonomyAction::LocalRead) is Deny,
        crate::autonomy::default_mode(AutonomyAction::PushBranch) is Deny,
        crate::autonomy::default_mode(AutonomyAction::GithubReply) is Deny,
        crate::autonomy::default_mode(AutonomyAction::LinearWrite) is Deny,
        crate::autonomy::default_mode(AutonomyAction::MergePr) is Deny,
{
}

/// The switch of the whole flow is above every permission.
pub proof fn law_switch_is_above_permissions(config: AutonomyConfig, action: AutonomyAction)
    ensures
        !config.enabled ==> config.effective(action) is Deny,
        config.enabled ==> config.effective(action) == config.permissions.of(action),
{
}

/// The list holds the text, whatever the case of the letters.
pub open spec fn lists(list: Seq<String>, text: Seq<char>) -> bool {
    exists|i: int|
        0 <= i < list.len() && crate::strings::same_ignoring_case((#[trigger] list[i])@, text)
}

/// What is in scope on GitHub is of the author that is named, in a repository that is listed, by itself
/// or by its owner; and only reading, replying and merging are done there.
pub proof fn law_scope_on_github(
    config: AutonomyConfig,
    action: AutonomyAction,
    repository: &str,
    author: &str,
    owner: Seq<char>,
    name: Seq<char>,
)
    requires
        repository@ == owner + seq!['/'] + name,
        owner.len() > 0,
        name.len() > 0,
        !owner.contains('/'),
        !name.contains('/'),
    ensures
        config.in_scope(action, AutonomyTarget::Github { repository, author }) <==> (
        action is GithubRead || action is GithubReply || action is MergePr)
            && config.scope.github_author@.len() > 0 && crate::strings::same_ignoring_case(
            config.scope.github_author@,
            author@,
        ) && (lists(config.scope.github_repositories@, repository@) || lists(
            config.scope.github_owners@,
            owner,
        )),
{
    lemma_owner(repository@, owner, name);
    assert(crate::autonomy::holds_ignoring_case(config.scope.github_repositories@, repository@)
        == lists(config.scope.github_repositories@, repository@));
    assert(crate::autonomy::holds_ignoring_case(config.scope.github_owners@, owner) == lists(
        config.scope.github_owners@,
        owner,
    ));
}

/// What is in scope on this machine is one of the repositories that are listed, by the place it really
/// is at; a push needs the place and the repository on GitHub both.
pub proof fn law_scope_on_this_machine(
    config: AutonomyConfig,
    action: AutonomyAction,
    path: &str,
    places: &crate::table::TextTable,
    repository: &str,
    author: &str,
)
    ensures
        config.in_scope(action, AutonomyTarget::Local { path, places }) ==> (action is LocalRead
            || action is EditCode || action is RunTests || action is LocalCommit)
            && places@.dom().contains(path@) && exists|i: int|
            0 <= i < config.scope.local_repositories@.len() && places@.dom().contains(
                (#[trigger] config.scope.local_repositories@[i])@,
            ) && places@[config.scope.local_repositories@[i]@] == places@[path@],
        config.in_scope(action, AutonomyTarget::Push { path, places, repository, author })
            ==> action is PushBranch && config.in_scope(
            AutonomyAction::LocalCommit,
            AutonomyTarget::Local { path, places },
        ) && config.in_scope(
            AutonomyAction::GithubReply,
            AutonomyTarget::Github { repository, author },
        ),
        config.in_scope(AutonomyAction::LocalCommit, AutonomyTarget::Local { path, places })
            && config.in_scope(
            AutonomyAction::GithubReply,
            AutonomyTarget::Github { repository, author },
        ) ==> config.in_scope(
            AutonomyAction::PushBranch,
            AutonomyTarget::Push { path, places, repository, author },
        ),
{
}

/// A listed repository is in scope for local work, at whatever path it is reached.
pub proof fn law_listed_repository_is_in_scope(
    config: AutonomyConfig,
    path: &str,
    places: &crate::table::TextTable,
    i: int,
)
    requires
        0 <= i < config.scope.local_repositories@.len(),
        places@.dom().contains(path@),
        places@.dom().contains(config.scope.local_repositories@[i]@),
        places@[config.scope.local_repositories@[i]@] == places@[path@],
    ensures
        config.in_scope(AutonomyAction::LocalRead, AutonomyTarget::Local { path, places }),
        config.in_scope(AutonomyAction::EditCode, AutonomyTarget::Local { path, places }),
        config.in_scope(AutonomyAction::RunTests, AutonomyTarget::Local { path, places }),
        config.in_scope(AutonomyAction::LocalCommit, AutonomyTarget::Local { path, places }),
{
}

/// On Linear only the issues of the assignee that is named are in scope, to read and to write.
pub proof fn law_scope_on_linear(config: AutonomyConfig, action: AutonomyAction, assignee: &str)
    ensures
        config.in_scope(action, AutonomyTarget::Linear { assignee }) <==> (action is LinearRead
            || action is LinearWrite) && assignee@.len() > 0 && config.scope.linear_assignee@
            == assignee@,
{
}

/// The owner of a repository is what stands before the stroke.
proof fn lemma_owner(repository: Seq<char>, owner: Seq<char>, name: Seq<char>)
    requires
        repository == owner + seq!['/'] + name,
        owner.len() > 0,
        name.len() > 0,
        !owner.contains('/'),
        !name.contains('/'),
    ensures
        crate::autonomy::repository_owner(repository) == Some(owner),
{
    lemma_split_two(owner, name);
}

proof fn lemma_split_one(s: Seq<char>, c: char)
    requires
        !s.contains(c),
    ensures
        crate::strings::split(s, c) == seq![s],
    decreases s.len(),
{
    if s.len() > 0 {
        let head = s.drop_last();
        assert forall|x: char| head.contains(x) implies s.contains(x) by {
            let i = head.index_of(x);
            assert(s[i] == x);
        }
        lemma_split_one(head, c);
        assert(s.contains(s[s.len() - 1]));
        assert(head.push(s.last()) =~= s);
        assert(crate::strings::split(s, c) =~= seq![s]);
    } else {
        assert(s =~= Seq::empty());
    }
}

pub proof fn lemma_split_two(owner: Seq<char>, name: Seq<char>)
    requires
        !owner.contains('/'),
        !name.contains('/'),
    ensures
        crate::strings::split(owner + seq!['/'] + name, '/') == seq![owner, name],
    decreases name.len(),
{
    let s = owner + seq!['/'] + name;
    if name.len() == 0 {
        lemma_split_one(owner, '/');
        assert(s.drop_last() =~= owner);
        assert(name =~= Seq::empty());
        assert(crate::strings::split(s, '/') =~= seq![owner, name]);
    } else {
        let head = name.drop_last();
        assert forall|x: char| head.contains(x) implies name.contains(x) by {
            let i = head.index_of(x);
            assert(name[i] == x);
        }
        lemma_split_two(owner, head);
        assert(name.contains(name[name.len() - 1]));
        assert(s.drop_last() =~= owner + seq!['/'] + head);
        assert(head.push(name.last()) =~= name);
        assert(crate::strings::split(s, '/') =~= seq![owner, name]);
    }
}

} // verus!
