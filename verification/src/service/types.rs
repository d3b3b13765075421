//! What the service stores and answers.
use crate::llm::{ConflictOptionsDecision, ResolvedFile};
use vstd::prelude::*;

verus! {

/// How long a challenge can be answered.
pub const CHALLENGE_TTL_SECONDS: i64 = 300;

/// A job in one of these states still has something before it.
pub open spec fn active(state: Seq<char>) -> bool {
    state == "queued"@ || state == "running"@ || state == "waiting_guidance"@ || state
        == "generating_proposal"@ || state == "applying"@ || state == "test_failed"@ || state
        == "waiting_push"@ || state == "pushing"@
}

pub fn is_active(state: &str) -> (r: bool)
    ensures
        r == active(state@),
{
    crate::strings::same(state, "queued") || crate::strings::same(state, "running")
        || crate::strings::same(state, "waiting_guidance") || crate::strings::same(
        state,
        "generating_proposal",
    ) || crate::strings::same(state, "applying") || crate::strings::same(state, "test_failed")
        || crate::strings::same(state, "waiting_push") || crate::strings::same(state, "pushing")
}

#[derive(Debug, Clone)]
pub struct ServiceEvent {
    pub id: String,
    pub job_id: Option<String>,
    pub kind: String,
    pub message: String,
    pub created_at: String,
}

#[derive(Debug, Clone)]
pub struct CleanupReport {
    pub cutoff: String,
    pub jobs: usize,
    pub messages: usize,
    pub events: usize,
    pub challenges: usize,
    pub notifications: usize,
    pub worktrees: usize,
}

#[derive(Debug)]
pub struct Dashboard {
    pub repository: String,
    pub fork_url: String,
    pub upstream_url: String,
    pub branches: Vec<BranchDashboard>,
    pub jobs: Vec<JobView>,
    pub stats: ServiceStats,
}

#[derive(Debug)]
pub struct BranchDashboard {
    pub name: String,
    pub note: String,
    pub local_head: Option<String>,
    pub upstream_head: Option<String>,
    pub remote_head: Option<String>,
    pub upstream_ahead: Option<u32>,
    pub upstream_behind: Option<u32>,
    pub current_job_id: Option<String>,
    pub current_state: Option<String>,
}

#[derive(Debug)]
pub struct StatusView {
    pub repository: String,
    pub upstream_url: String,
    pub fork_url: String,
    pub branch_count: usize,
    pub active_jobs: usize,
    pub stats: ServiceStats,
}

#[derive(Debug, Clone, Copy)]
pub struct ServiceStats {
    pub sync_total: u32,
    pub sync_completed: u32,
    pub sync_failed: u32,
    pub sync_conflict: u32,
    pub sync_active: u32,
    pub check_total: u32,
    pub job_total: u32,
}

#[derive(Debug, Clone)]
pub struct JobView {
    pub id: String,
    pub kind: String,
    pub branch: String,
    pub state: String,
    pub risk: String,
    pub summary: String,
    pub worktree_path: String,
    pub base_ref: String,
    pub before_head: String,
    pub base_head: String,
    pub remote_head: String,
    pub conflict_files: Vec<String>,
    pub options: Option<ConflictOptionsDecision>,
    pub proposal: Option<StoredProposal>,
    pub test_output: String,
    pub messages: Vec<ConversationMessage>,
    pub created_at: String,
    pub updated_at: String,
}

#[derive(Debug, Clone)]
pub struct ConversationMessage {
    pub role: String,
    pub content: String,
    pub created_at: String,
}

#[derive(Debug, Clone)]
pub struct StoredProposal {
    pub summary: String,
    pub files: Vec<ResolvedFile>,
    pub diff: String,
    pub selected_option: String,
    pub requirements: String,
}

/// A notice that goes out once for each job and event.
#[derive(Debug, Clone)]
pub struct JobNotice {
    pub event: &'static str,
    pub subject: String,
    pub body: String,
}

/// How a piece of work on a job ends.
#[derive(Debug)]
pub struct JobEnding {
    pub state: &'static str,
    pub summary: String,
    /// What is kept as the output of the tests.
    pub output: Option<String>,
    /// The kind of the event that is told.
    pub kind: &'static str,
    pub message: String,
    pub notice: Option<JobNotice>,
    /// Whether the rebase or merge is left and the work tree removed.
    pub discard: bool,
}

/// How a piece of work on a job ends, as text.
#[verifier::ext_equal]
pub struct Ended {
    pub state: Seq<char>,
    pub summary: Seq<char>,
    pub output: Option<Seq<char>>,
    pub kind: Seq<char>,
    pub message: Seq<char>,
    pub notice: Option<(Seq<char>, Seq<char>, Seq<char>)>,
    pub discard: bool,
}

impl View for JobEnding {
    type V = Ended;

    open spec fn view(&self) -> Ended {
        Ended {
            state: self.state@,
            summary: self.summary@,
            output: crate::strings::opt_view(self.output),
            kind: self.kind@,
            message: self.message@,
            notice: match self.notice {
                Some(notice) => Some((notice.event@, notice.subject@, notice.body@)),
                None => None,
            },
            discard: self.discard,
        }
    }
}

} // verus!
