//! The overview of branches and jobs.
use crate::config::{BranchConfig, Config};
use crate::git::AheadBehind;
use crate::service::db::JobRow;
use crate::service::types::{is_active, BranchDashboard, ServiceStats, StatusView};
use crate::strings::{copy_option, owned, same};
use vstd::prelude::*;

verus! {

/// What is compared with the upstream: the local branch, else the branch on the remote.
pub open spec fn compared(
    config: Config,
    branch: BranchConfig,
    local_head: Option<Seq<char>>,
    remote_head: Option<Seq<char>>,
) -> Option<Seq<char>> {
    if local_head is Some {
        Some(branch.name@)
    } else if remote_head is Some {
        Some(config.repo.fork_remote@ + "/"@ + branch.name@)
    } else {
        None
    }
}

/// What is compared with the upstream, where the upstream is known.
pub fn compare_ref(
    config: &Config,
    branch: &BranchConfig,
    local_head: &Option<String>,
    remote_head: &Option<String>,
    upstream_head: &Option<String>,
) -> (r: Option<String>)
    ensures
        crate::strings::opt_view(r) == (if upstream_head is Some {
            compared(
                *config,
                *branch,
                crate::strings::opt_view(*local_head),
                crate::strings::opt_view(*remote_head),
            )
        } else {
            None
        }),
{
    if upstream_head.is_none() {
        return None;
    }
    if local_head.is_some() {
        Some(branch.name.clone())
    } else if remote_head.is_some() {
        Some(
            owned(config.repo.fork_remote.as_str()).concat("/").concat(branch.name.as_str()),
        )
    } else {
        None
    }
}

/// The first job, at or behind `i`, on the branch that is not at an end.
pub open spec fn current_job(rows: Seq<JobRow>, branch: Seq<char>, i: int) -> Option<int>
    decreases rows.len() - i,
{
    if i >= rows.len() {
        None
    } else if crate::service::types::active(rows[i].state@) && rows[i].branch@ == branch {
        Some(i)
    } else {
        current_job(rows, branch, i + 1)
    }
}

fn find_current(rows: &Vec<JobRow>, branch: &str) -> (r: Option<usize>)
    ensures
        match r {
            Some(i) => current_job(rows@, branch@, 0) == Some(i as int) && i < rows@.len(),
            None => current_job(rows@, branch@, 0) is None,
        },
{
    let mut i: usize = 0;
    while i < rows.len()
        invariant
            i <= rows@.len(),
            current_job(rows@, branch@, 0) == current_job(rows@, branch@, i as int),
        decreases rows@.len() - i,
    {
        if is_active(rows[i].state.as_str()) && same(rows[i].branch.as_str(), branch) {
            return Some(i);
        }
        i += 1;
    }
    None
}

/// What git says of a branch.
#[derive(Debug, Clone)]
pub struct BranchHeads {
    pub local_head: Option<String>,
    pub upstream_head: Option<String>,
    pub remote_head: Option<String>,
    pub upstream: Option<AheadBehind>,
}

/// The overview of a branch.
pub fn branch_dashboard(branch: &BranchConfig, heads: &BranchHeads, rows: &Vec<JobRow>) -> (r:
    BranchDashboard)
    ensures
        r.name@ == branch.name@,
        r.note@ == (match branch.note {
            Some(note) => note@,
            None => Seq::empty(),
        }),
        r.local_head == heads.local_head,
        r.upstream_head == heads.upstream_head,
        r.remote_head == heads.remote_head,
        r.upstream_ahead == (match heads.upstream {
            Some(counts) => Some(counts.ahead),
            None => None,
        }),
        r.upstream_behind == (match heads.upstream {
            Some(counts) => Some(counts.behind),
            None => None,
        }),
        match current_job(rows@, branch.name@, 0) {
            Some(i) => r.current_job_id is Some && r.current_job_id->0@ == rows@[i].id@
                && r.current_state is Some && r.current_state->0@ == rows@[i].state@,
            None => r.current_job_id is None && r.current_state is None,
        },
{
    let (current_job_id, current_state) = match find_current(rows, branch.name.as_str()) {
        Some(i) => (Some(rows[i].id.clone()), Some(rows[i].state.clone())),
        None => (None, None),
    };
    BranchDashboard {
        name: branch.name.clone(),
        note: match &branch.note {
            Some(note) => note.clone(),
            None => String::new(),
        },
        local_head: copy_option(&heads.local_head),
        upstream_head: copy_option(&heads.upstream_head),
        remote_head: copy_option(&heads.remote_head),
        upstream_ahead: match &heads.upstream {
            Some(counts) => Some(counts.ahead),
            None => None,
        },
        upstream_behind: match &heads.upstream {
            Some(counts) => Some(counts.behind),
            None => None,
        },
        current_job_id,
        current_state,
    }
}

/// The state of the service: every job that is not at an end counts, however old it is.
pub fn status_view(config: &Config, rows: &Vec<JobRow>, stats: ServiceStats) -> (r: StatusView)
    ensures
        r.repository@ == config.repo.path@,
        r.upstream_url@ == config.repo.upstream@,
        r.fork_url@ == config.repo.fork@,
        r.branch_count == config.branches@.len(),
        r.active_jobs == crate::service::db::active_places(rows@, rows@.len() as int).len(),
        r.stats == stats,
{
    let active = crate::service::db::active_job_summaries(rows);
    assert(crate::sync::places(active@).len() == active@.len());
    StatusView {
        repository: config.repo.path.clone(),
        upstream_url: config.repo.upstream.clone(),
        fork_url: config.repo.fork.clone(),
        branch_count: config.branches.len(),
        active_jobs: active.len(),
        stats,
    }
}

/// The place of the overview of a branch.
pub open spec fn dashboard_at(branches: Seq<BranchDashboard>, name: Seq<char>, i: int) -> Option<int>
    decreases branches.len() - i,
{
    if i >= branches.len() {
        None
    } else if branches[i].name@ == name {
        Some(i)
    } else {
        dashboard_at(branches, name, i + 1)
    }
}

/// The place of the overview of a branch.
pub fn branch_view(branches: &Vec<BranchDashboard>, name: &str) -> (r: Result<usize, String>)
    ensures
        match r {
            Ok(i) => dashboard_at(branches@, name@, 0) == Some(i as int) && i < branches@.len(),
            Err(words) => dashboard_at(branches@, name@, 0) is None && words@
                == "分支不在 TermiteRS 白名单中："@ + name@,
        },
{
    let mut i: usize = 0;
    while i < branches.len()
        invariant
            i <= branches@.len(),
            dashboard_at(branches@, name@, 0) == dashboard_at(branches@, name@, i as int),
        decreases branches@.len() - i,
    {
        if same(branches[i].name.as_str(), name) {
            return Ok(i);
        }
        i += 1;
    }
    Err(owned("分支不在 TermiteRS 白名单中：").concat(name))
}

} // verus!
