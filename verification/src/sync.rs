//! The synchronisation of a branch with its base.
use crate::command::CommandOutput;
use crate::config::{BranchConfig, Config, PushStrategy, RepoConfig, SyncStrategy};
use crate::conflict::ResolvedFile;
use crate::git::{
    ensure_relative_repo_path, git_checked, has_staged_changes, read_changed_files, read_found,
    read_lines, read_remote_head, shorten, AheadBehind, ConflictSnapshot, Conflicts, Git,
};
use crate::protection::guard::Deed;
use crate::report::{BranchReport, BranchStatus, Reported};
use crate::strings::{
    contains, eq_ignore_case, extend_list, from_range, i32_to_string, is_in, join_with, list_of, owned,
    push_string, replace, same, starts_with, to_chars, trim, trim_end_char, usize_to_string,
};
use crate::text::is_blank;
use vstd::prelude::*;

verus! {

/// How many commits a report names.
pub const MAX_REPORTED_COMMITS: usize = 12;

/// How many files a report names.
pub const MAX_REPORTED_FILES: usize = 30;

#[derive(Debug, Clone)]
pub struct SyncOptions {
    pub branch: Option<String>,
    pub dry_run: bool,
    pub notify_on_noop: bool,
}

impl SyncOptions {
    pub fn status_only() -> (r: SyncOptions)
        ensures
            r.branch is None,
            r.dry_run,
            !r.notify_on_noop,
    {
        SyncOptions { branch: None, dry_run: true, notify_on_noop: false }
    }
}

/// What the model makes of a conflict: whole files, with its view of the risk.
#[derive(Debug, Clone)]
pub struct AutoResolveDecision {
    pub risk: String,
    pub summary: String,
    pub files: Vec<ResolvedFile>,
}

/// The text on one line, cut at 500 bytes.
pub open spec fn on_one_line(s: Seq<char>) -> Seq<char> {
    crate::git::shortened(
        crate::strings::replaced(crate::strings::replaced(s, "\r"@, ""@), "\n"@, " | "@),
        500,
        "..."@,
    )
}

pub fn one_line(text: &str) -> (r: String)
    ensures
        r@ == on_one_line(text@),
{
    proof {
        reveal_strlit("\r");
        reveal_strlit("\n");
    }
    let line = replace(replace(text, "\r", "").as_str(), "\n", " | ");
    shorten(line.as_str(), 500, "...")
}

/// The path with slashes.
pub open spec fn with_slashes(path: Seq<char>) -> Seq<char> {
    crate::strings::replaced(path, "\\"@, "/"@)
}

/// `path` is `allowed` or lies below it.
pub open spec fn is_under(path: Seq<char>, allowed: Seq<char>) -> bool {
    let path = with_slashes(path);
    let allowed = crate::strings::trim_back_char(with_slashes(allowed), '/');
    path == allowed || crate::strings::starts(path, allowed + "/"@)
}

/// `path` is one of the allowed paths or lies below one.
pub open spec fn allowed_path(path: Seq<char>, allowed: Seq<Seq<char>>) -> bool {
    exists|i: int| 0 <= i < allowed.len() && is_under(path, #[trigger] allowed[i])
}

pub fn path_is_allowed(path: &str, allowed_paths: &Vec<String>) -> (r: bool)
    ensures
        r == allowed_path(path@, crate::strings::views(allowed_paths@)),
{
    proof {
        reveal_strlit("\\");
    }
    let normalized = replace(path, "\\", "/");
    let mut i: usize = 0;
    while i < allowed_paths.len()
        invariant
            i <= allowed_paths@.len(),
            normalized@ == with_slashes(path@),
            "\\"@.len() > 0,
            forall|k: int|
                0 <= k < i ==> !is_under(
                    path@,
                    #[trigger] crate::strings::views(allowed_paths@)[k],
                ),
        decreases allowed_paths@.len() - i,
    {
        let allowed = trim_end_char(replace(allowed_paths[i].as_str(), "\\", "/").as_str(), '/');
        let below = allowed.clone().concat("/");
        assert(crate::strings::views(allowed_paths@)[i as int] == allowed_paths@[i as int]@);
        if same(normalized.as_str(), allowed.as_str()) || starts_with(
            normalized.as_str(),
            below.as_str(),
        ) {
            return true;
        }
        i += 1;
    }
    false
}

/// What is wrong with a resolved file.
pub open spec fn file_fault(file: ResolvedFile, conflict_files: Seq<Seq<char>>) -> Option<Seq<char>> {
    if !conflict_files.contains(file.path@) {
        Some("resolved file is not a conflict file: "@ + file.path@)
    } else if crate::strings::occurs(file.content@, "<<<<<<<"@) || crate::strings::occurs(
        file.content@,
        "======="@,
    ) || crate::strings::occurs(file.content@, ">>>>>>>"@) {
        Some("resolved file still contains conflict markers: "@ + file.path@)
    } else if crate::strings::occurs(file.content@, "... file truncated by TermiteRS ..."@) {
        Some("resolved file was based on truncated content: "@ + file.path@)
    } else {
        None
    }
}

/// What is wrong with the first file that is wrong.
pub open spec fn files_fault(files: Seq<ResolvedFile>, conflict_files: Seq<Seq<char>>, i: int) -> Option<
    Seq<char>,
>
    decreases files.len() - i,
{
    if i >= files.len() {
        None
    } else {
        match file_fault(files[i], conflict_files) {
            Some(words) => Some(words),
            None => files_fault(files, conflict_files, i + 1),
        }
    }
}

/// Why a decision cannot be taken over.
pub open spec fn decision_fault(decision: AutoResolveDecision, conflict_files: Seq<Seq<char>>) -> Option<
    Seq<char>,
> {
    if decision.files@.len() == 0 {
        Some("no resolved files returned"@)
    } else {
        files_fault(decision.files@, conflict_files, 0)
    }
}

pub fn validate_auto_resolve_decision(
    decision: &AutoResolveDecision,
    conflict_files: &Vec<String>,
) -> (r: Result<(), String>)
    ensures
        match r {
            Ok(_) => decision_fault(*decision, crate::strings::views(conflict_files@)) is None,
            Err(words) => decision_fault(*decision, crate::strings::views(conflict_files@)) == Some(
                words@,
            ),
        },
{
    if decision.files.len() == 0 {
        return Err(owned("no resolved files returned"));
    }
    let ghost names = crate::strings::views(conflict_files@);
    let mut i: usize = 0;
    while i < decision.files.len()
        invariant
            i <= decision.files@.len(),
            decision.files@.len() > 0,
            names == crate::strings::views(conflict_files@),
            files_fault(decision.files@, names, 0) == files_fault(decision.files@, names, i as int),
        decreases decision.files@.len() - i,
    {
        let file = &decision.files[i];
        if !is_in(file.path.as_str(), conflict_files) {
            return Err(
                owned("resolved file is not a conflict file: ").concat(file.path.as_str()),
            );
        }
        let content = file.content.as_str();
        if contains(content, "<<<<<<<") || contains(content, "=======") || contains(content, ">>>>>>>") {
            return Err(
                owned("resolved file still contains conflict markers: ").concat(file.path.as_str()),
            );
        }
        if contains(content, "... file truncated by TermiteRS ...") {
            return Err(
                owned("resolved file was based on truncated content: ").concat(file.path.as_str()),
            );
        }
        i += 1;
    }
    Ok(())
}

/// The first eight characters of a commit.
pub open spec fn short_of(head: Seq<char>) -> Seq<char> {
    if head.len() > 8 {
        head.take(8)
    } else {
        head
    }
}

pub fn short_head(head: &str) -> (r: String)
    ensures
        r@ == short_of(head@),
{
    let chars = to_chars(head);
    if chars.len() > 8 {
        assert(chars@.subrange(0, 8) =~= chars@.take(8));
        from_range(&chars, 0, 8)
    } else {
        owned(head)
    }
}

/// How the commit of a remote branch is shown.
pub open spec fn shown_head(head: Option<Seq<char>>) -> Seq<char> {
    match head {
        Some(head) => short_of(head),
        None => "not found"@,
    }
}

pub fn display_remote_head(head: &Option<String>) -> (r: String)
    ensures
        r@ == shown_head(crate::strings::opt_view(*head)),
{
    match head {
        Some(head) => short_head(head.as_str()),
        None => owned("not found"),
    }
}

/// What a report says of the note of a branch.
pub open spec fn note_text(branch: BranchConfig) -> Seq<char> {
    match branch.note {
        Some(note) => "note: "@ + note@,
        None => "note: none"@,
    }
}

pub fn branch_note_detail(branch: &BranchConfig) -> (r: String)
    ensures
        r@ == note_text(*branch),
{
    match &branch.note {
        Some(note) => owned("note: ").concat(note.as_str()),
        None => owned("note: none"),
    }
}

/// Two spaces in front of each line.
pub open spec fn indented(items: Seq<Seq<char>>) -> Seq<Seq<char>> {
    Seq::new(items.len(), |i: int| "  "@ + items[i])
}

/// A titled list, as details of a report.
pub open spec fn list_details(title: Seq<char>, items: Seq<Seq<char>>) -> Seq<Seq<char>> {
    if items.len() == 0 {
        seq![title + ": none"@]
    } else {
        seq![title + " ("@ + crate::strings::decimal(items.len()) + "):"@] + indented(items)
    }
}

pub fn push_list_details(entry: &mut BranchReport, title: &str, items: &Vec<String>)
    ensures
        final(entry)@ == (Reported {
            details: old(entry)@.details + list_details(title@, crate::strings::views(items@)),
            ..old(entry)@
        }),
{
    let ghost before = entry@;
    let ghost all = crate::strings::views(items@);
    if items.len() == 0 {
        entry.push_detail(owned(title).concat(": none"));
        assert(entry@.details =~= before.details + list_details(title@, all));
        return;
    }
    entry.push_detail(
        owned(title).concat(" (").concat(usize_to_string(items.len()).as_str()).concat("):"),
    );
    let ghost head = entry@;
    let mut i: usize = 0;
    assert(entry@.details =~= head.details + indented(all).take(0));
    while i < items.len()
        invariant
            i <= items@.len(),
            all == crate::strings::views(items@),
            entry@ == (Reported {
                details: head.details + indented(all).take(i as int),
                ..before
            }),
        decreases items@.len() - i,
    {
        entry.push_detail(owned("  ").concat(items[i].as_str()));
        assert(entry@.details =~= head.details + indented(all).take(i + 1));
        i += 1;
    }
    assert(indented(all).take(all.len() as int) =~= indented(all));
    assert(entry@.details =~= before.details + list_details(title@, all));
}

pub fn push_commit_details(entry: &mut BranchReport, title: &str, commits: &Vec<String>)
    ensures
        final(entry)@ == (Reported {
            details: old(entry)@.details + list_details(title@, crate::strings::views(commits@)),
            ..old(entry)@
        }),
{
    push_list_details(entry, title, commits);
}

/// The report on a push that failed.
pub open spec fn push_failure(branch: BranchConfig, output: CommandOutput) -> Reported {
    Reported {
        branch: branch.name@,
        kind: branch.kind,
        status: BranchStatus::Failed,
        head: None,
        activity: true,
        details: seq![
            note_text(branch),
            "push failed with code "@ + crate::strings::decimal_int(output.status as int),
            "stderr: "@ + on_one_line(output.stderr@),
        ],
    }
}

pub fn push_failed_report(branch: &BranchConfig, output: &CommandOutput) -> (r: BranchReport)
    ensures
        r@ == push_failure(*branch, *output),
{
    let r = BranchReport::new(branch.name.as_str(), branch.kind, BranchStatus::Failed).active().detail(
        branch_note_detail(branch).as_str(),
    ).detail(owned("push failed with code ").concat(i32_to_string(output.status).as_str()).as_str()).detail(
        owned("stderr: ").concat(one_line(output.stderr.as_str()).as_str()).as_str(),
    );
    assert(r@.details =~= push_failure(*branch, *output).details);
    r
}

/// What the synchronisation waits for.
#[derive(Debug, Clone, Copy, PartialEq, Eq, Structural)]
pub enum SyncStage {
    Checkout,
    /// The commit of the branch before anything is done.
    Head,
    BaseHead,
    MergeBase,
    /// The commits of the base that the branch lacks.
    UpstreamLog,
    /// The commit that the branch has on the remote.
    RemoteHead,
    /// The notice that the synchronisation begins.
    Notice,
    Sync,
    /// The state of the conflict.
    Snapshot,
    /// The decision of the model.
    Model,
    /// A resolved file is written.
    Write,
    /// A resolved file is staged.
    Add,
    /// The synchronisation goes on with the resolved files.
    Continue,
    /// Whether git has resolved the conflict from its memory.
    Staged,
    FirstHead,
    /// The synchronisation goes on with what git resolved.
    Retry,
    RetrySnapshot,
    RetryHead,
    RetryStaged,
    LastSnapshot,
    /// The conflict is left.
    Abort,
    /// The explanation of the model.
    Analysis,
    Test,
    /// The commit of the branch after the synchronisation.
    AfterHead,
    Commits,
    Changes,
    Fetch,
    /// The commit that the branch has on the remote just before the push.
    RemoteAgain,
    Push,
    Done,
    Failed,
}

/// What came of the last action.
#[derive(Debug)]
pub enum SyncEvent {
    Output(CommandOutput),
    Notified,
    Snapshot(ConflictSnapshot),
    Decision(Result<Option<AutoResolveDecision>, String>),
    Written,
    Aborted,
    Analysis(Result<Option<String>, String>),
}

/// What the caller is to do next.
#[derive(Debug)]
pub enum SyncAction {
    Git(Vec<String>),
    NotifyStart,
    /// Gather the state of the conflict.
    ReadConflict,
    /// Ask the model for a resolution of the files in conflict.
    AskModel,
    /// Write a resolved file.
    WriteFile(usize),
    /// Leave the rebase or merge.
    Abort,
    /// Ask the model for an explanation of the conflict.
    AskAnalysis,
    Test(String),
    Done(BranchReport),
    Fail(String),
}

/// What an action is.
#[verifier::ext_equal]
pub enum SyncDoing {
    Git(Seq<Seq<char>>),
    NotifyStart,
    ReadConflict,
    AskModel,
    WriteFile(nat),
    Abort,
    AskAnalysis,
    Test(Seq<char>),
    Done(Reported),
    Fail(Seq<char>),
}

impl View for SyncAction {
    type V = SyncDoing;

    open spec fn view(&self) -> SyncDoing {
        match *self {
            SyncAction::Git(args) => SyncDoing::Git(crate::strings::views(args@)),
            SyncAction::NotifyStart => SyncDoing::NotifyStart,
            SyncAction::ReadConflict => SyncDoing::ReadConflict,
            SyncAction::AskModel => SyncDoing::AskModel,
            SyncAction::WriteFile(i) => SyncDoing::WriteFile(i as nat),
            SyncAction::Abort => SyncDoing::Abort,
            SyncAction::AskAnalysis => SyncDoing::AskAnalysis,
            SyncAction::Test(command) => SyncDoing::Test(command@),
            SyncAction::Done(report) => SyncDoing::Done(report@),
            SyncAction::Fail(words) => SyncDoing::Fail(words@),
        }
    }
}

/// The synchronisation of a branch.
pub struct SyncRun {
    pub stage: SyncStage,
    /// The number of the test, of the file or of the attempt.
    pub at: usize,
    /// Whether a notice is sent before the synchronisation.
    pub notice: bool,
    pub before_head: String,
    pub base_head: String,
    pub upstream: Vec<String>,
    pub remote_before: Option<String>,
    pub sync_status: i32,
    pub sync_stderr: String,
    pub snapshot: ConflictSnapshot,
    /// What is said of the resolution of the conflict.
    pub details: Vec<String>,
    pub last_head: String,
    pub resolved: Vec<ResolvedFile>,
    pub after_head: String,
    pub commits: Vec<String>,
    pub files: Vec<String>,
}

/// The state of the synchronisation.
#[verifier::ext_equal]
pub struct SyncState {
    pub stage: SyncStage,
    pub at: nat,
    pub notice: bool,
    pub before_head: Seq<char>,
    pub base_head: Seq<char>,
    pub upstream: Seq<Seq<char>>,
    pub remote_before: Option<Seq<char>>,
    pub sync_status: i32,
    pub sync_stderr: Seq<char>,
    pub snapshot: Conflicts,
    pub details: Seq<Seq<char>>,
    pub last_head: Seq<char>,
    pub resolved: Seq<ResolvedFile>,
    pub after_head: Seq<char>,
    pub commits: Seq<Seq<char>>,
    pub files: Seq<Seq<char>>,
}

impl View for SyncRun {
    type V = SyncState;

    open spec fn view(&self) -> SyncState {
        SyncState {
            stage: self.stage,
            at: self.at as nat,
            notice: self.notice,
            before_head: self.before_head@,
            base_head: self.base_head@,
            upstream: crate::strings::views(self.upstream@),
            remote_before: crate::strings::opt_view(self.remote_before),
            sync_status: self.sync_status,
            sync_stderr: self.sync_stderr@,
            snapshot: self.snapshot@,
            details: crate::strings::views(self.details@),
            last_head: self.last_head@,
            resolved: self.resolved@,
            after_head: self.after_head@,
            commits: crate::strings::views(self.commits@),
            files: crate::strings::views(self.files@),
        }
    }
}

/// The base of the branches.
pub open spec fn base_of(repo: RepoConfig) -> Seq<char> {
    repo.upstream_remote@ + "/"@ + repo.base_branch@
}

/// The branch on the remote.
pub open spec fn remote_branch_of(repo: RepoConfig, branch: BranchConfig) -> Seq<char> {
    repo.fork_remote@ + "/"@ + branch.name@
}

fn base_name(repo: &RepoConfig) -> (r: String)
    ensures
        r@ == base_of(*repo),
{
    owned(repo.upstream_remote.as_str()).concat("/").concat(repo.base_branch.as_str())
}

fn remote_branch_name(repo: &RepoConfig, branch: &BranchConfig) -> (r: String)
    ensures
        r@ == remote_branch_of(*repo, *branch),
{
    owned(repo.fork_remote.as_str()).concat("/").concat(branch.name.as_str())
}

/// The number of the test, of the file or of the attempt is in range.
pub open spec fn in_range(s: SyncState, branch: BranchConfig) -> bool {
    match s.stage {
        SyncStage::Test => s.at < branch.tests@.len(),
        SyncStage::Write | SyncStage::Add => s.at < s.resolved.len(),
        SyncStage::Retry | SyncStage::RetrySnapshot | SyncStage::RetryHead | SyncStage::RetryStaged => s.at
            < 20,
        _ => true,
    }
}

/// The event is one that the stage waits for.
pub open spec fn fits(stage: SyncStage, event: SyncEvent) -> bool {
    match stage {
        SyncStage::Notice => event is Notified,
        SyncStage::Snapshot | SyncStage::RetrySnapshot | SyncStage::LastSnapshot => event is Snapshot,
        SyncStage::Model => event is Decision,
        SyncStage::Write => event is Written,
        SyncStage::Abort => event is Aborted,
        SyncStage::Analysis => event is Analysis,
        SyncStage::Done | SyncStage::Failed => false,
        _ => event is Output,
    }
}

/// The synchronisation stops with an error.
pub open spec fn failing(s: SyncState, words: Seq<char>) -> (SyncState, SyncDoing) {
    (SyncState { stage: SyncStage::Failed, ..s }, SyncDoing::Fail(words))
}

/// The synchronisation ends with a report.
pub open spec fn ending(s: SyncState, report: Reported) -> (SyncState, SyncDoing) {
    (SyncState { stage: SyncStage::Done, ..s }, SyncDoing::Done(report))
}

/// The next stage, with a git command.
pub open spec fn asking(s: SyncState, stage: SyncStage, args: Seq<Seq<char>>) -> (SyncState, SyncDoing) {
    (SyncState { stage, ..s }, SyncDoing::Git(args))
}

/// The conflict is left, with a last remark.
pub open spec fn aborting(s: SyncState) -> (SyncState, SyncDoing) {
    (SyncState { stage: SyncStage::Abort, ..s }, SyncDoing::Abort)
}

pub open spec fn remarked(s: SyncState, words: Seq<char>) -> SyncState {
    SyncState { details: s.details.push(words), ..s }
}

pub open spec fn head_args() -> Seq<Seq<char>> {
    seq!["rev-parse"@, "--short"@, "HEAD"@]
}

pub open spec fn short_ref_args(reference: Seq<char>) -> Seq<Seq<char>> {
    seq!["rev-parse"@, "--short"@, reference]
}

pub open spec fn log_args(range: Seq<char>) -> Seq<Seq<char>> {
    seq![
        "log"@,
        "--oneline"@,
        "--no-decorate"@,
        "-n"@ + crate::strings::decimal(12),
        range,
    ]
}

pub open spec fn staged_args() -> Seq<Seq<char>> {
    seq!["diff"@, "--cached"@, "--quiet"@]
}

pub open spec fn sync_args(repo: RepoConfig, branch: BranchConfig) -> Seq<Seq<char>> {
    match branch.sync {
        SyncStrategy::Rebase => seq!["rebase"@, base_of(repo)],
        SyncStrategy::Merge => seq!["merge"@, "--no-edit"@, base_of(repo)],
    }
}

pub open spec fn remote_head_args(repo: RepoConfig, branch: BranchConfig) -> Seq<Seq<char>> {
    seq!["ls-remote"@, "--heads"@, repo.fork_remote@, "refs/heads/"@ + branch.name@]
}

/// The comparison of the branch with what the remote has of it.
pub open spec fn push_range(s: SyncState, repo: RepoConfig, branch: BranchConfig) -> Seq<char> {
    match s.remote_before {
        Some(_) => remote_branch_of(repo, branch) + "..HEAD"@,
        None => s.after_head + "^.."@ + s.after_head,
    }
}

pub open spec fn push_args(s: SyncState, repo: RepoConfig, branch: BranchConfig) -> Seq<Seq<char>> {
    match (branch.push, s.remote_before) {
        (PushStrategy::ForceWithLease, Some(head)) => seq![
            "push"@,
            "--force-with-lease=refs/heads/"@ + branch.name@ + ":"@ + head,
            repo.fork_remote@,
            "HEAD:refs/heads/"@ + branch.name@,
        ],
        _ => seq!["push"@, repo.fork_remote@, branch.name@],
    }
}

/// The first file in conflict that may not be changed without being asked.
pub open spec fn first_barred(files: Seq<Seq<char>>, allowed: Seq<Seq<char>>, i: int) -> Option<Seq<char>>
    decreases files.len() - i,
{
    if i >= files.len() {
        None
    } else if !allowed_path(files[i], allowed) {
        Some(files[i])
    } else {
        first_barred(files, allowed, i + 1)
    }
}

/// Why the model is not asked for a resolution.
pub open spec fn resolve_bar(branch: BranchConfig, files: Seq<Seq<char>>) -> Option<Seq<char>> {
    let allowed = crate::strings::views(branch.auto_resolve.allowed_paths@);
    let limit = branch.auto_resolve.max_conflict_files;
    let barred = first_barred(files, allowed, 0);
    if allowed.len() == 0 {
        Some("auto resolve skipped: allowed_paths is empty"@)
    } else if files.len() > limit {
        Some(
            "auto resolve skipped: "@ + crate::strings::decimal(files.len())
                + " conflict files exceeds limit "@ + crate::strings::decimal(limit as nat),
        )
    } else if barred is Some {
        Some("auto resolve skipped: path not allowed: "@ + barred->0)
    } else {
        None
    }
}

/// A conflict is met: what git has resolved is gone on with, the model is asked, or the conflict is
/// left.
pub open spec fn on_conflict(s: SyncState, branch: BranchConfig) -> (SyncState, SyncDoing) {
    if s.snapshot.files.len() == 0 {
        asking(s, SyncStage::Staged, staged_args())
    } else if !branch.auto_resolve.enabled {
        aborting(s)
    } else {
        let s = remarked(s, "auto resolve: enabled"@);
        match resolve_bar(branch, s.snapshot.files) {
            Some(words) => aborting(remarked(s, words)),
            None => (SyncState { stage: SyncStage::Model, ..s }, SyncDoing::AskModel),
        }
    }
}

/// The file number `s.at` of the resolution is written.
pub open spec fn writing(s: SyncState) -> (SyncState, SyncDoing) {
    let path = s.resolved[s.at as int].path@;
    if crate::git::leads_out(path) {
        failing(s, "unsafe repository path: "@ + path)
    } else {
        (SyncState { stage: SyncStage::Write, ..s }, SyncDoing::WriteFile(s.at))
    }
}

/// The decision of the model is taken over, or the conflict is left.
pub open spec fn on_decision(
    s: SyncState,
    decision: Result<Option<AutoResolveDecision>, String>,
) -> (SyncState, SyncDoing) {
    match decision {
        Err(words) => aborting(remarked(s, "auto resolve failed: "@ + words@)),
        Ok(None) => aborting(remarked(s, "auto resolve skipped: LLM disabled"@)),
        Ok(Some(decision)) => {
            let s = remarked(
                remarked(s, "auto resolve risk: "@ + decision.risk@),
                "auto resolve summary: "@ + on_one_line(decision.summary@),
            );
            let fault = decision_fault(decision, s.snapshot.files);
            if !crate::strings::same_ignoring_case(decision.risk@, "low"@) {
                aborting(s)
            } else if fault is Some {
                aborting(remarked(s, "auto resolve rejected: "@ + fault->0))
            } else {
                writing(SyncState { at: 0, resolved: decision.files@, ..s })
            }
        },
    }
}

/// A remark on what a command wrote to its error stream, where it wrote anything.
pub open spec fn with_stderr(s: SyncState, output: CommandOutput) -> SyncState {
    if crate::strings::trimmed(output.stderr@).len() == 0 {
        s
    } else {
        remarked(s, "continue stderr: "@ + on_one_line(output.stderr@))
    }
}

/// The conflict is resolved, or there was none: the tests begin.
pub open spec fn synced(s: SyncState, branch: BranchConfig) -> (SyncState, SyncDoing) {
    if branch.tests@.len() > 0 {
        (SyncState { stage: SyncStage::Test, at: 0, ..s }, SyncDoing::Test(branch.tests@[0]@))
    } else if branch.auto_resolve.enabled && branch.auto_resolve.require_tests && s.details.len() > 0 {
        ending(
            s,
            Reported {
                branch: branch.name@,
                kind: branch.kind,
                status: BranchStatus::Failed,
                head: None,
                activity: true,
                details: seq!["auto resolve failed: require_tests is true but no tests configured"@],
            },
        )
    } else {
        asking(s, SyncStage::AfterHead, head_args())
    }
}

/// The report on a test that failed.
pub open spec fn test_failure(s: SyncState, branch: BranchConfig, output: CommandOutput) -> Reported {
    let details = seq![
        "test failed: "@ + branch.tests@[s.at as int]@,
        "exit code: "@ + crate::strings::decimal_int(output.status as int),
    ] + s.details;
    Reported {
        branch: branch.name@,
        kind: branch.kind,
        status: BranchStatus::Failed,
        head: None,
        activity: true,
        details: if crate::strings::trimmed(output.stderr@).len() == 0 {
            details
        } else {
            details.push("stderr: "@ + on_one_line(output.stderr@))
        },
    }
}

/// The report on a conflict that was left.
pub open spec fn conflict_entry(
    s: SyncState,
    repo: RepoConfig,
    branch: BranchConfig,
    analysis: Result<Option<String>, String>,
) -> Reported {
    let base = base_of(repo);
    let head = seq![
        note_text(branch),
        "before sync: "@ + s.before_head,
        "target base: "@ + base + " @ "@ + s.base_head,
        "sync failed with code "@ + crate::strings::decimal_int(s.sync_status as int) + " against "@
            + base,
        "conflict files: "@ + crate::strings::join(s.snapshot.files, ", "@),
    ] + list_details("upstream commits planned"@, s.upstream) + s.details;
    let status = if crate::strings::trimmed(s.snapshot.status).len() == 0 {
        head
    } else {
        head.push("git status: "@ + crate::strings::replaced(s.snapshot.status, "\n"@, "; "@))
    };
    let diff = if crate::strings::trimmed(s.snapshot.combined_diff).len() == 0 {
        status
    } else {
        status.push("combined diff captured for future LLM analysis"@)
    };
    Reported {
        branch: branch.name@,
        kind: branch.kind,
        status: BranchStatus::Conflict,
        head: None,
        activity: true,
        details: diff.push(
            match analysis {
                Ok(Some(text)) => "LLM analysis: "@ + on_one_line(text@),
                Ok(None) => "LLM analysis skipped"@,
                Err(words) => "LLM analysis failed: "@ + words@,
            },
        ),
    }
}

/// The report on a remote branch that moved in the meantime.
pub open spec fn moved_remote(
    s: SyncState,
    repo: RepoConfig,
    branch: BranchConfig,
    current: Option<Seq<char>>,
) -> Reported {
    Reported {
        branch: branch.name@,
        kind: branch.kind,
        status: BranchStatus::Failed,
        head: None,
        activity: true,
        details: seq![
            note_text(branch),
            "push blocked: remote branch changed before push"@,
            "remote branch: "@ + remote_branch_of(repo, branch),
            "expected remote head: "@ + shown_head(s.remote_before),
            "current remote head: "@ + shown_head(current),
            "rerun sync after fetching the latest remote branch"@,
        ],
    }
}

/// The report on a branch that is in step with its base.
pub open spec fn success_entry(s: SyncState, repo: RepoConfig, branch: BranchConfig) -> Reported {
    let remote = remote_branch_of(repo, branch);
    Reported {
        branch: branch.name@,
        kind: branch.kind,
        status: BranchStatus::Success,
        head: Some(s.after_head),
        activity: s.upstream.len() > 0 || s.commits.len() > 0 || s.files.len() > 0 || s.before_head
            != s.after_head,
        details: seq![
            note_text(branch),
            "before sync: "@ + s.before_head,
            "after sync: "@ + s.after_head,
            "target base: "@ + base_of(repo) + " @ "@ + s.base_head,
            match s.remote_before {
                Some(head) => "remote before push: "@ + remote + " @ "@ + short_of(head),
                None => "remote before push: "@ + remote + " not found"@,
            },
        ] + list_details("upstream commits included"@, s.upstream) + list_details(
            "commits pushed to remote"@,
            s.commits,
        ) + list_details("files pushed to remote"@, s.files) + s.details + seq![
            if branch.tests@.len() == 0 {
                "no tests configured"@
            } else {
                crate::strings::decimal(branch.tests@.len()) + " test command(s) passed"@
            },
            match branch.push {
                PushStrategy::Never => "push skipped by config"@,
                _ => "pushed to "@ + remote,
            },
        ],
    }
}

/// One step of the synchronisation, where the event is the outcome of a command.
pub open spec fn output_step(s: SyncState, repo: RepoConfig, branch: BranchConfig, o: CommandOutput) -> (
    SyncState,
    SyncDoing,
) {
    let base = base_of(repo);
    let text = crate::strings::trimmed(o.stdout@);
    let found = crate::git::found(o);
    match s.stage {
        SyncStage::Checkout => if o.ok() {
            asking(s, SyncStage::Head, head_args())
        } else {
            failing(
                s,
                "failed to checkout "@ + branch.name@ + ": "@ + crate::git::failed_words(
                    seq!["checkout"@, branch.name@],
                    o,
                ),
            )
        },
        SyncStage::Head => if o.ok() {
            asking(
                SyncState { before_head: text, ..s },
                SyncStage::BaseHead,
                short_ref_args(base),
            )
        } else {
            failing(s, crate::git::failed_words(head_args(), o))
        },
        SyncStage::BaseHead => if o.ok() {
            asking(
                SyncState { base_head: text, ..s },
                SyncStage::MergeBase,
                seq!["merge-base"@, "HEAD"@, base],
            )
        } else {
            failing(s, crate::git::failed_words(short_ref_args(base), o))
        },
        SyncStage::MergeBase => match found {
            Some(commit) => asking(
                SyncState { last_head: commit, ..s },
                SyncStage::UpstreamLog,
                log_args(commit + ".."@ + base),
            ),
            None => asking(s, SyncStage::RemoteHead, remote_head_args(repo, branch)),
        },
        SyncStage::UpstreamLog => if o.ok() {
            asking(
                SyncState { upstream: crate::git::filled_lines(o.stdout@), ..s },
                SyncStage::RemoteHead,
                remote_head_args(repo, branch),
            )
        } else {
            failing(s, crate::git::failed_words(log_args(s.last_head + ".."@ + base), o))
        },
        SyncStage::RemoteHead => if o.ok() {
            let s = SyncState { remote_before: crate::git::first_word(o.stdout@), ..s };
            if s.notice {
                (SyncState { stage: SyncStage::Notice, ..s }, SyncDoing::NotifyStart)
            } else {
                asking(s, SyncStage::Sync, sync_args(repo, branch))
            }
        } else {
            failing(
                s,
                "failed to read remote head for "@ + repo.fork_remote@ + "/"@ + branch.name@,
            )
        },
        SyncStage::Sync => if o.ok() {
            synced(s, branch)
        } else {
            (
                SyncState {
                    stage: SyncStage::Snapshot,
                    sync_status: o.status,
                    sync_stderr: o.stderr@,
                    ..s
                },
                SyncDoing::ReadConflict,
            )
        },
        SyncStage::Add => if !o.ok() {
            failing(s, crate::git::failed_words(seq!["add"@, s.resolved[s.at as int].path@], o))
        } else if s.at + 1 < s.resolved.len() {
            writing(SyncState { at: s.at + 1, ..s })
        } else {
            asking(s, SyncStage::Continue, crate::git::continue_args(branch.sync))
        },
        SyncStage::Continue => if o.ok() {
            synced(
                remarked(
                    s,
                    "auto resolve applied files: "@ + crate::strings::decimal(s.resolved.len()),
                ),
                branch,
            )
        } else {
            aborting(
                with_stderr(
                    remarked(
                        s,
                        "auto resolve failed: continue sync exited "@ + crate::strings::decimal_int(
                            o.status as int,
                        ),
                    ),
                    o,
                ),
            )
        },
        SyncStage::Staged => if o.status == 0 {
            aborting(s)
        } else if o.status == 1 {
            asking(
                remarked(
                    remarked(s, "rerere/autostaged resolution detected: continuing sync"@),
                    "initial continue stderr: "@ + on_one_line(s.sync_stderr),
                ),
                SyncStage::FirstHead,
                head_args(),
            )
        } else {
            failing(
                s,
                "failed to inspect staged changes: "@ + crate::strings::trimmed(o.stderr@),
            )
        },
        SyncStage::FirstHead => asking(
            SyncState {
                last_head: match found {
                    Some(head) => head,
                    None => Seq::empty(),
                },
                at: 0,
                ..s
            },
            SyncStage::Retry,
            crate::git::continue_args(branch.sync),
        ),
        SyncStage::Retry => if o.ok() {
            synced(remarked(s, "rerere/autostaged resolution applied"@), branch)
        } else {
            (
                SyncState { stage: SyncStage::RetrySnapshot, ..with_stderr(s, o) },
                SyncDoing::ReadConflict,
            )
        },
        SyncStage::RetryHead => {
            let current = match found {
                Some(head) => head,
                None => Seq::empty(),
            };
            if current == s.last_head {
                aborting(remarked(s, "continue did not advance HEAD; stopped retrying"@))
            } else {
                asking(SyncState { last_head: current, ..s }, SyncStage::RetryStaged, staged_args())
            }
        },
        SyncStage::RetryStaged => if o.status == 0 {
            aborting(remarked(s, "continue stopped without staged changes"@))
        } else if o.status == 1 {
            if s.at + 1 < 20 {
                asking(
                    SyncState { at: s.at + 1, ..s },
                    SyncStage::Retry,
                    crate::git::continue_args(branch.sync),
                )
            } else {
                (SyncState { stage: SyncStage::LastSnapshot, ..s }, SyncDoing::ReadConflict)
            }
        } else {
            failing(
                s,
                "failed to inspect staged changes: "@ + crate::strings::trimmed(o.stderr@),
            )
        },
        SyncStage::Test => if !o.ok() {
            ending(s, test_failure(s, branch, o))
        } else if s.at + 1 < branch.tests@.len() {
            (
                SyncState { at: s.at + 1, ..s },
                SyncDoing::Test(branch.tests@[s.at as int + 1]@),
            )
        } else {
            asking(s, SyncStage::AfterHead, head_args())
        },
        SyncStage::AfterHead => if o.ok() {
            let s = SyncState { after_head: text, ..s };
            asking(
                s,
                SyncStage::Commits,
                log_args(
                    match s.remote_before {
                        Some(_) => remote_branch_of(repo, branch) + "..HEAD"@,
                        None => "HEAD"@,
                    },
                ),
            )
        } else {
            failing(s, crate::git::failed_words(head_args(), o))
        },
        SyncStage::Commits => if o.ok() {
            let s = SyncState { commits: crate::git::filled_lines(o.stdout@), ..s };
            asking(
                s,
                SyncStage::Changes,
                seq!["diff"@, "--name-status"@, push_range(s, repo, branch)],
            )
        } else {
            failing(
                s,
                crate::git::failed_words(
                    log_args(
                        match s.remote_before {
                            Some(_) => remote_branch_of(repo, branch) + "..HEAD"@,
                            None => "HEAD"@,
                        },
                    ),
                    o,
                ),
            )
        },
        SyncStage::Changes => if !o.ok() && s.remote_before is Some {
            failing(
                s,
                crate::git::failed_words(
                    seq!["diff"@, "--name-status"@, push_range(s, repo, branch)],
                    o,
                ),
            )
        } else {
            let s = SyncState {
                files: if o.ok() {
                    crate::git::listed(crate::git::filled_lines(o.stdout@), 30)
                } else {
                    Seq::empty()
                },
                ..s
            };
            match branch.push {
                PushStrategy::Never => ending(s, success_entry(s, repo, branch)),
                _ => asking(s, SyncStage::Fetch, seq!["fetch"@, repo.fork_remote@, branch.name@]),
            }
        },
        SyncStage::Fetch => if o.ok() {
            asking(s, SyncStage::RemoteAgain, remote_head_args(repo, branch))
        } else {
            failing(
                s,
                crate::git::failed_words(seq!["fetch"@, repo.fork_remote@, branch.name@], o),
            )
        },
        SyncStage::RemoteAgain => if !o.ok() {
            failing(
                s,
                "failed to read remote head for "@ + repo.fork_remote@ + "/"@ + branch.name@,
            )
        } else if crate::git::first_word(o.stdout@) != s.remote_before {
            ending(s, moved_remote(s, repo, branch, crate::git::first_word(o.stdout@)))
        } else {
            asking(s, SyncStage::Push, push_args(s, repo, branch))
        },
        SyncStage::Push => if o.ok() {
            ending(s, success_entry(s, repo, branch))
        } else {
            ending(s, push_failure(branch, o))
        },
        _ => failing(s, Seq::empty()),
    }
}

/// One step of the synchronisation.
pub open spec fn step_of(s: SyncState, repo: RepoConfig, branch: BranchConfig, event: SyncEvent) -> (
    SyncState,
    SyncDoing,
) {
    match (s.stage, event) {
        (_, SyncEvent::Output(o)) => output_step(s, repo, branch, o),
        (SyncStage::Notice, SyncEvent::Notified) => asking(
            s,
            SyncStage::Sync,
            sync_args(repo, branch),
        ),
        (SyncStage::Snapshot, SyncEvent::Snapshot(snapshot)) => on_conflict(
            SyncState { snapshot: snapshot@, ..s },
            branch,
        ),
        (SyncStage::RetrySnapshot, SyncEvent::Snapshot(snapshot)) => {
            let s = SyncState { snapshot: snapshot@, ..s };
            if s.snapshot.files.len() > 0 {
                aborting(remarked(s, "continue stopped on another conflict"@))
            } else {
                asking(s, SyncStage::RetryHead, head_args())
            }
        },
        (SyncStage::LastSnapshot, SyncEvent::Snapshot(snapshot)) => aborting(
            remarked(
                SyncState { snapshot: snapshot@, ..s },
                "continue retried more than 20 times; stopped"@,
            ),
        ),
        (SyncStage::Model, SyncEvent::Decision(decision)) => on_decision(s, decision),
        (SyncStage::Write, SyncEvent::Written) => asking(
            s,
            SyncStage::Add,
            seq!["add"@, s.resolved[s.at as int].path@],
        ),
        (SyncStage::Abort, SyncEvent::Aborted) => (
            SyncState { stage: SyncStage::Analysis, ..s },
            SyncDoing::AskAnalysis,
        ),
        (SyncStage::Analysis, SyncEvent::Analysis(analysis)) => ending(
            s,
            conflict_entry(s, repo, branch, analysis),
        ),
        _ => failing(s, Seq::empty()),
    }
}

/// What the guard is asked about before an action.
pub open spec fn sync_deed(stage: SyncStage, doing: SyncDoing) -> Option<Deed> {
    match doing {
        SyncDoing::Test(_) => Some(Deed::Test),
        SyncDoing::Git(_) => if stage is Push {
            Some(Deed::Push)
        } else {
            None
        },
        _ => None,
    }
}

impl SyncRun {
    /// What the guard is to be asked about before the action.
    pub fn deed(&self, action: &SyncAction) -> (r: Option<Deed>)
        ensures
            r == sync_deed(self@.stage, action@),
    {
        match action {
            SyncAction::Test(_) => Some(Deed::Test),
            SyncAction::Git(_) => match self.stage {
                SyncStage::Push => Some(Deed::Push),
                _ => None,
            },
            _ => None,
        }
    }

    /// Begins the synchronisation of a branch.
    pub fn sync_branch(branch: &BranchConfig, notice: bool) -> (r: (SyncRun, SyncAction))
        ensures
            r.0@ == (SyncState {
                stage: SyncStage::Checkout,
                at: 0,
                notice,
                before_head: Seq::empty(),
                base_head: Seq::empty(),
                upstream: Seq::empty(),
                remote_before: None,
                sync_status: 0,
                sync_stderr: Seq::empty(),
                snapshot: Conflicts {
                    status: Seq::empty(),
                    files: Seq::empty(),
                    combined_diff: Seq::empty(),
                },
                details: Seq::empty(),
                last_head: Seq::empty(),
                resolved: Seq::empty(),
                after_head: Seq::empty(),
                commits: Seq::empty(),
                files: Seq::empty(),
            }),
            r.1@ == SyncDoing::Git(seq!["checkout"@, branch.name@]),
    {
        let run = SyncRun {
            stage: SyncStage::Checkout,
            at: 0,
            notice,
            before_head: String::new(),
            base_head: String::new(),
            upstream: Vec::new(),
            remote_before: None,
            sync_status: 0,
            sync_stderr: String::new(),
            snapshot: ConflictSnapshot {
                status: String::new(),
                files: Vec::new(),
                combined_diff: String::new(),
            },
            details: Vec::new(),
            last_head: String::new(),
            resolved: Vec::new(),
            after_head: String::new(),
            commits: Vec::new(),
            files: Vec::new(),
        };
        assert(run@.snapshot.files =~= Seq::empty());
        assert(run@.upstream =~= Seq::empty());
        assert(run@.details =~= Seq::empty());
        assert(run@.commits =~= Seq::empty());
        assert(run@.files =~= Seq::empty());
        let args = ["checkout", branch.name.as_str()];
        assert(crate::strings::str_views(args@) =~= seq!["checkout"@, branch.name@]);
        (run, SyncAction::Git(list_of(&args)))
    }

    fn fail(&mut self, words: String) -> (r: SyncAction)
        ensures
            final(self)@ == failing(old(self)@, words@).0,
            r@ == failing(old(self)@, words@).1,
    {
        self.stage = SyncStage::Failed;
        SyncAction::Fail(words)
    }

    fn finish(&mut self, report: BranchReport) -> (r: SyncAction)
        ensures
            final(self)@ == ending(old(self)@, report@).0,
            r@ == ending(old(self)@, report@).1,
    {
        self.stage = SyncStage::Done;
        SyncAction::Done(report)
    }

    fn ask(&mut self, stage: SyncStage, args: Vec<String>) -> (r: SyncAction)
        ensures
            final(self)@ == asking(old(self)@, stage, crate::strings::views(args@)).0,
            r@ == asking(old(self)@, stage, crate::strings::views(args@)).1,
    {
        self.stage = stage;
        SyncAction::Git(args)
    }

    fn abort(&mut self) -> (r: SyncAction)
        ensures
            final(self)@ == aborting(old(self)@).0,
            r@ == aborting(old(self)@).1,
    {
        self.stage = SyncStage::Abort;
        SyncAction::Abort
    }

    fn remark(&mut self, words: String)
        ensures
            final(self)@ == remarked(old(self)@, words@),
    {
        push_string(&mut self.details, words);
    }

    fn remark_stderr(&mut self, output: &CommandOutput)
        ensures
            final(self)@ == with_stderr(old(self)@, *output),
    {
        if !is_blank(output.stderr.as_str()) {
            self.remark(
                owned("continue stderr: ").concat(one_line(output.stderr.as_str()).as_str()),
            );
        }
    }

    fn write_next(&mut self) -> (r: SyncAction)
        requires
            old(self).at < old(self).resolved@.len(),
        ensures
            final(self)@ == writing(old(self)@).0,
            r@ == writing(old(self)@).1,
    {
        match ensure_relative_repo_path(self.resolved[self.at].path.as_str()) {
            Err(words) => self.fail(words),
            Ok(()) => {
                self.stage = SyncStage::Write;
                SyncAction::WriteFile(self.at)
            },
        }
    }

    fn begin_tests(&mut self, branch: &BranchConfig) -> (r: SyncAction)
        ensures
            final(self)@ == synced(old(self)@, *branch).0,
            r@ == synced(old(self)@, *branch).1,
    {
        if branch.tests.len() > 0 {
            self.stage = SyncStage::Test;
            self.at = 0;
            return SyncAction::Test(branch.tests[0].clone());
        }
        if branch.auto_resolve.enabled && branch.auto_resolve.require_tests && self.details.len() > 0 {
            let report = BranchReport::new(
                branch.name.as_str(),
                branch.kind,
                BranchStatus::Failed,
            ).active().detail("auto resolve failed: require_tests is true but no tests configured");
            assert(report@.details =~= seq![
                "auto resolve failed: require_tests is true but no tests configured"@,
            ]);
            return self.finish(report);
        }
        self.ask(SyncStage::AfterHead, head_command())
    }

    /// Decides whether the model may be asked for a resolution.
    fn try_auto_resolve_conflict(&mut self, branch: &BranchConfig) -> (r: SyncAction)
        ensures
            final(self)@ == on_conflict(old(self)@, *branch).0,
            r@ == on_conflict(old(self)@, *branch).1,
    {
        if self.snapshot.files.len() == 0 {
            return self.ask(SyncStage::Staged, staged_command());
        }
        if !branch.auto_resolve.enabled {
            return self.abort();
        }
        self.remark(owned("auto resolve: enabled"));
        match resolve_barred(branch, &self.snapshot.files) {
            Some(words) => {
                self.remark(words);
                self.abort()
            },
            None => {
                self.stage = SyncStage::Model;
                SyncAction::AskModel
            },
        }
    }

    /// Takes over what the model decided, where it is of low risk and touches only what is in
    /// conflict.
    fn take_decision(&mut self, decision: Result<Option<AutoResolveDecision>, String>) -> (r: SyncAction)
        ensures
            final(self)@ == on_decision(old(self)@, decision).0,
            r@ == on_decision(old(self)@, decision).1,
    {
        let decision = match decision {
            Err(words) => {
                self.remark(owned("auto resolve failed: ").concat(words.as_str()));
                return self.abort();
            },
            Ok(None) => {
                self.remark(owned("auto resolve skipped: LLM disabled"));
                return self.abort();
            },
            Ok(Some(decision)) => decision,
        };
        self.remark(owned("auto resolve risk: ").concat(decision.risk.as_str()));
        self.remark(
            owned("auto resolve summary: ").concat(one_line(decision.summary.as_str()).as_str()),
        );
        if !eq_ignore_case(decision.risk.as_str(), "low") {
            return self.abort();
        }
        match validate_auto_resolve_decision(&decision, &self.snapshot.files) {
            Err(reason) => {
                self.remark(owned("auto resolve rejected: ").concat(reason.as_str()));
                self.abort()
            },
            Ok(()) => {
                self.at = 0;
                self.resolved = decision.files;
                self.write_next()
            },
        }
    }

    fn before_sync(&mut self, repo: &RepoConfig, branch: &BranchConfig, o: &CommandOutput) -> (r:
        SyncAction)
        requires
            old(self).stage is Checkout || old(self).stage is Head || old(self).stage is BaseHead || old(
                self,
            ).stage is MergeBase || old(self).stage is UpstreamLog || old(self).stage is RemoteHead
                || old(self).stage is Sync,
        ensures
            final(self)@ == output_step(old(self)@, *repo, *branch, *o).0,
            r@ == output_step(old(self)@, *repo, *branch, *o).1,
    {
        let base = base_name(repo);
        match self.stage {
            SyncStage::Checkout => {
                let args = ["checkout", branch.name.as_str()];
                assert(crate::strings::str_views(args@) =~= seq!["checkout"@, branch.name@]);
                match git_checked(&list_of(&args), o) {
                    Err(words) => self.fail(
                        owned("failed to checkout ").concat(branch.name.as_str()).concat(": ").concat(
                            words.as_str(),
                        ),
                    ),
                    Ok(()) => self.ask(SyncStage::Head, head_command()),
                }
            },
            SyncStage::Head => match git_checked(&head_command(), o) {
                Err(words) => self.fail(words),
                Ok(()) => {
                    self.before_head = trim(o.stdout.as_str());
                    self.ask(SyncStage::BaseHead, short_ref_command(base.as_str()))
                },
            },
            SyncStage::BaseHead => match git_checked(&short_ref_command(base.as_str()), o) {
                Err(words) => self.fail(words),
                Ok(()) => {
                    self.base_head = trim(o.stdout.as_str());
                    let args = ["merge-base", "HEAD", base.as_str()];
                    assert(crate::strings::str_views(args@) =~= seq![
                        "merge-base"@,
                        "HEAD"@,
                        base@,
                    ]);
                    self.ask(SyncStage::MergeBase, list_of(&args))
                },
            },
            SyncStage::MergeBase => match read_found(o) {
                Some(commit) => {
                    let range = commit.clone().concat("..").concat(base.as_str());
                    self.last_head = commit;
                    self.ask(SyncStage::UpstreamLog, log_command(range.as_str()))
                },
                None => self.ask(SyncStage::RemoteHead, remote_head_command(repo, branch)),
            },
            SyncStage::UpstreamLog => {
                let range = self.last_head.clone().concat("..").concat(base.as_str());
                match git_checked(&log_command(range.as_str()), o) {
                    Err(words) => self.fail(words),
                    Ok(()) => {
                        self.upstream = read_lines(o.stdout.as_str());
                        self.ask(SyncStage::RemoteHead, remote_head_command(repo, branch))
                    },
                }
            },
            SyncStage::RemoteHead => match read_remote_head(
                repo.fork_remote.as_str(),
                branch.name.as_str(),
                o,
            ) {
                Err(words) => self.fail(words),
                Ok(head) => {
                    self.remote_before = head;
                    if self.notice {
                        self.stage = SyncStage::Notice;
                        SyncAction::NotifyStart
                    } else {
                        self.ask(SyncStage::Sync, sync_command(repo, branch))
                    }
                },
            },
            _ => if o.success() {
                self.begin_tests(branch)
            } else {
                self.stage = SyncStage::Snapshot;
                self.sync_status = o.status;
                self.sync_stderr = o.stderr.clone();
                SyncAction::ReadConflict
            },
        }
    }

    fn on_resolution(&mut self, repo: &RepoConfig, branch: &BranchConfig, o: &CommandOutput) -> (r:
        SyncAction)
        requires
            in_range(old(self)@, *branch),
            old(self).stage is Add || old(self).stage is Continue,
        ensures
            final(self)@ == output_step(old(self)@, *repo, *branch, *o).0,
            r@ == output_step(old(self)@, *repo, *branch, *o).1,
    {
        match self.stage {
            SyncStage::Add => {
                let path = self.resolved[self.at].path.as_str();
                let args = ["add", path];
                assert(crate::strings::str_views(args@) =~= seq!["add"@, path@]);
                match git_checked(&list_of(&args), o) {
                    Err(words) => self.fail(words),
                    Ok(()) => {
                        let count: usize = self.resolved.len();
                        if self.at + 1 < count {
                            self.at = self.at + 1;
                            self.write_next()
                        } else {
                            self.ask(SyncStage::Continue, continue_command(branch.sync))
                        }
                    },
                }
            },
            _ => if o.success() {
                self.remark(
                    owned("auto resolve applied files: ").concat(
                        usize_to_string(self.resolved.len()).as_str(),
                    ),
                );
                self.begin_tests(branch)
            } else {
                self.remark(
                    owned("auto resolve failed: continue sync exited ").concat(
                        i32_to_string(o.status).as_str(),
                    ),
                );
                self.remark_stderr(o);
                self.abort()
            },
        }
    }

    /// Goes on with what git resolved from its memory, twenty times at most.
    fn try_continue_autoresolved_sync(
        &mut self,
        repo: &RepoConfig,
        branch: &BranchConfig,
        o: &CommandOutput,
    ) -> (r: SyncAction)
        requires
            in_range(old(self)@, *branch),
            old(self).stage is Staged || old(self).stage is FirstHead || old(self).stage is Retry || old(
                self,
            ).stage is RetryHead || old(self).stage is RetryStaged,
        ensures
            final(self)@ == output_step(old(self)@, *repo, *branch, *o).0,
            r@ == output_step(old(self)@, *repo, *branch, *o).1,
    {
        match self.stage {
            SyncStage::Staged => match has_staged_changes(o) {
                Err(words) => self.fail(words),
                Ok(false) => self.abort(),
                Ok(true) => {
                    self.remark(owned("rerere/autostaged resolution detected: continuing sync"));
                    let line = one_line(self.sync_stderr.as_str());
                    self.remark(owned("initial continue stderr: ").concat(line.as_str()));
                    self.ask(SyncStage::FirstHead, head_command())
                },
            },
            SyncStage::FirstHead => {
                self.last_head = match read_found(o) {
                    Some(head) => head,
                    None => String::new(),
                };
                self.at = 0;
                self.ask(SyncStage::Retry, continue_command(branch.sync))
            },
            SyncStage::Retry => if o.success() {
                self.remark(owned("rerere/autostaged resolution applied"));
                self.begin_tests(branch)
            } else {
                self.remark_stderr(o);
                self.stage = SyncStage::RetrySnapshot;
                SyncAction::ReadConflict
            },
            SyncStage::RetryHead => {
                let current = match read_found(o) {
                    Some(head) => head,
                    None => String::new(),
                };
                if same(current.as_str(), self.last_head.as_str()) {
                    self.remark(owned("continue did not advance HEAD; stopped retrying"));
                    self.abort()
                } else {
                    self.last_head = current;
                    self.ask(SyncStage::RetryStaged, staged_command())
                }
            },
            _ => match has_staged_changes(o) {
                Err(words) => self.fail(words),
                Ok(false) => {
                    self.remark(owned("continue stopped without staged changes"));
                    self.abort()
                },
                Ok(true) => if self.at + 1 < 20 {
                    self.at = self.at + 1;
                    self.ask(SyncStage::Retry, continue_command(branch.sync))
                } else {
                    self.stage = SyncStage::LastSnapshot;
                    SyncAction::ReadConflict
                },
            },
        }
    }

    fn after_sync(&mut self, repo: &RepoConfig, branch: &BranchConfig, o: &CommandOutput) -> (r:
        SyncAction)
        requires
            in_range(old(self)@, *branch),
            old(self).stage is Test || old(self).stage is AfterHead || old(self).stage is Commits || old(
                self,
            ).stage is Changes,
        ensures
            final(self)@ == output_step(old(self)@, *repo, *branch, *o).0,
            r@ == output_step(old(self)@, *repo, *branch, *o).1,
    {
        match self.stage {
            SyncStage::Test => if !o.success() {
                let report = self.test_report(branch, o);
                self.finish(report)
            } else {
                let count: usize = branch.tests.len();
                if self.at + 1 < count {
                    self.at = self.at + 1;
                    SyncAction::Test(branch.tests[self.at].clone())
                } else {
                    self.ask(SyncStage::AfterHead, head_command())
                }
            },
            SyncStage::AfterHead => match git_checked(&head_command(), o) {
                Err(words) => self.fail(words),
                Ok(()) => {
                    self.after_head = trim(o.stdout.as_str());
                    let range = self.log_range(repo, branch);
                    self.ask(SyncStage::Commits, log_command(range.as_str()))
                },
            },
            SyncStage::Commits => {
                let range = self.log_range(repo, branch);
                match git_checked(&log_command(range.as_str()), o) {
                    Err(words) => self.fail(words),
                    Ok(()) => {
                        self.commits = read_lines(o.stdout.as_str());
                        let args = self.changes_command(repo, branch);
                        self.ask(SyncStage::Changes, args)
                    },
                }
            },
            _ => {
                if !o.success() && self.remote_before.is_some() {
                    let args = self.changes_command(repo, branch);
                    match git_checked(&args, o) {
                        Err(words) => {
                            return self.fail(words);
                        },
                        Ok(()) => {},
                    }
                }
                self.files = if o.success() {
                    read_changed_files(o, MAX_REPORTED_FILES)
                } else {
                    Vec::new()
                };
                assert(!o.ok() ==> self@.files =~= Seq::empty());
                match branch.push {
                    PushStrategy::Never => {
                        let report = self.success_report(repo, branch);
                        self.finish(report)
                    },
                    _ => self.ask(SyncStage::Fetch, fetch_command(repo, branch)),
                }
            },
        }
    }

    /// Pushes only where the remote branch is where it was when the synchronisation began.
    fn verify_remote_before_push(
        &mut self,
        repo: &RepoConfig,
        branch: &BranchConfig,
        o: &CommandOutput,
    ) -> (r: SyncAction)
        requires
            old(self).stage is Fetch || old(self).stage is RemoteAgain || old(self).stage is Push,
        ensures
            final(self)@ == output_step(old(self)@, *repo, *branch, *o).0,
            r@ == output_step(old(self)@, *repo, *branch, *o).1,
    {
        match self.stage {
            SyncStage::Fetch => match git_checked(&fetch_command(repo, branch), o) {
                Err(words) => self.fail(words),
                Ok(()) => self.ask(SyncStage::RemoteAgain, remote_head_command(repo, branch)),
            },
            SyncStage::RemoteAgain => match read_remote_head(
                repo.fork_remote.as_str(),
                branch.name.as_str(),
                o,
            ) {
                Err(words) => self.fail(words),
                Ok(current) => if same_head(&current, &self.remote_before) {
                    let args = self.push_command(repo, branch);
                    self.ask(SyncStage::Push, args)
                } else {
                    let report = self.moved_report(repo, branch, &current);
                    self.finish(report)
                },
            },
            _ => if o.success() {
                let report = self.success_report(repo, branch);
                self.finish(report)
            } else {
                self.finish(push_failed_report(branch, o))
            },
        }
    }

    /// Takes note of what came of the last action, and says what to do next.
    pub fn step(&mut self, repo: &RepoConfig, branch: &BranchConfig, event: SyncEvent) -> (r: SyncAction)
        requires
            fits(old(self).stage, event),
            in_range(old(self)@, *branch),
        ensures
            final(self)@ == step_of(old(self)@, *repo, *branch, event).0,
            r@ == step_of(old(self)@, *repo, *branch, event).1,
            in_range(final(self)@, *branch),
    {
        match event {
            SyncEvent::Output(o) => match self.stage {
                SyncStage::Checkout | SyncStage::Head | SyncStage::BaseHead | SyncStage::MergeBase
                | SyncStage::UpstreamLog | SyncStage::RemoteHead | SyncStage::Sync => self.before_sync(
                    repo,
                    branch,
                    &o,
                ),
                SyncStage::Add | SyncStage::Continue => self.on_resolution(repo, branch, &o),
                SyncStage::Staged | SyncStage::FirstHead | SyncStage::Retry | SyncStage::RetryHead
                | SyncStage::RetryStaged => self.try_continue_autoresolved_sync(repo, branch, &o),
                SyncStage::Test | SyncStage::AfterHead | SyncStage::Commits | SyncStage::Changes => self.after_sync(
                    repo,
                    branch,
                    &o,
                ),
                _ => self.verify_remote_before_push(repo, branch, &o),
            },
            SyncEvent::Notified => self.ask(SyncStage::Sync, sync_command(repo, branch)),
            SyncEvent::Snapshot(snapshot) => {
                self.snapshot = snapshot;
                match self.stage {
                    SyncStage::Snapshot => self.try_auto_resolve_conflict(branch),
                    SyncStage::RetrySnapshot => if self.snapshot.files.len() > 0 {
                        self.remark(owned("continue stopped on another conflict"));
                        self.abort()
                    } else {
                        self.ask(SyncStage::RetryHead, head_command())
                    },
                    _ => {
                        self.remark(owned("continue retried more than 20 times; stopped"));
                        self.abort()
                    },
                }
            },
            SyncEvent::Decision(decision) => self.take_decision(decision),
            SyncEvent::Written => {
                let path = self.resolved[self.at].path.as_str();
                let args = ["add", path];
                assert(crate::strings::str_views(args@) =~= seq!["add"@, path@]);
                let args = list_of(&args);
                self.ask(SyncStage::Add, args)
            },
            SyncEvent::Aborted => {
                self.stage = SyncStage::Analysis;
                SyncAction::AskAnalysis
            },
            SyncEvent::Analysis(analysis) => {
                let report = self.conflict_report(repo, branch, &analysis);
                self.finish(report)
            },
        }
    }

    fn log_range(&self, repo: &RepoConfig, branch: &BranchConfig) -> (r: String)
        ensures
            r@ == (match self@.remote_before {
                Some(_) => remote_branch_of(*repo, *branch) + "..HEAD"@,
                None => "HEAD"@,
            }),
    {
        match &self.remote_before {
            Some(_) => remote_branch_name(repo, branch).concat("..HEAD"),
            None => owned("HEAD"),
        }
    }

    fn changes_command(&self, repo: &RepoConfig, branch: &BranchConfig) -> (r: Vec<String>)
        ensures
            crate::strings::views(r@) == seq![
                "diff"@,
                "--name-status"@,
                push_range(self@, *repo, *branch),
            ],
    {
        let range = match &self.remote_before {
            Some(_) => remote_branch_name(repo, branch).concat("..HEAD"),
            None => self.after_head.clone().concat("^..").concat(self.after_head.as_str()),
        };
        let args = ["diff", "--name-status", range.as_str()];
        assert(crate::strings::str_views(args@) =~= seq!["diff"@, "--name-status"@, range@]);
        list_of(&args)
    }

    fn push_command(&self, repo: &RepoConfig, branch: &BranchConfig) -> (r: Vec<String>)
        ensures
            crate::strings::views(r@) == push_args(self@, *repo, *branch),
    {
        let git = Git { root: String::new() };
        match branch.push {
            PushStrategy::ForceWithLease => match &self.remote_before {
                Some(head) => git.push_with_lease(
                    repo.fork_remote.as_str(),
                    branch.name.as_str(),
                    head.as_str(),
                ),
                None => git.push(repo.fork_remote.as_str(), branch.name.as_str(), false),
            },
            _ => git.push(repo.fork_remote.as_str(), branch.name.as_str(), false),
        }
    }

    fn test_report(&self, branch: &BranchConfig, output: &CommandOutput) -> (r: BranchReport)
        requires
            self.at < branch.tests@.len(),
        ensures
            r@ == test_failure(self@, *branch, *output),
    {
        let mut report = BranchReport::new(
            branch.name.as_str(),
            branch.kind,
            BranchStatus::Failed,
        ).active().detail(owned("test failed: ").concat(branch.tests[self.at].as_str()).as_str()).detail(
            owned("exit code: ").concat(i32_to_string(output.status).as_str()).as_str(),
        );
        extend_list(&mut report.details, &self.details);
        if !is_blank(output.stderr.as_str()) {
            report.push_detail(owned("stderr: ").concat(one_line(output.stderr.as_str()).as_str()));
        }
        assert(report@.details =~= test_failure(self@, *branch, *output).details);
        report
    }

    fn conflict_report(
        &self,
        repo: &RepoConfig,
        branch: &BranchConfig,
        analysis: &Result<Option<String>, String>,
    ) -> (r: BranchReport)
        ensures
            r@ == conflict_entry(self@, *repo, *branch, *analysis),
    {
        let base = base_name(repo);
        let mut report = BranchReport::new(
            branch.name.as_str(),
            branch.kind,
            BranchStatus::Conflict,
        ).active();
        report.push_detail(branch_note_detail(branch));
        report.push_detail(owned("before sync: ").concat(self.before_head.as_str()));
        report.push_detail(
            owned("target base: ").concat(base.as_str()).concat(" @ ").concat(
                self.base_head.as_str(),
            ),
        );
        report.push_detail(
            owned("sync failed with code ").concat(i32_to_string(self.sync_status).as_str()).concat(
                " against ",
            ).concat(base.as_str()),
        );
        report.push_detail(
            owned("conflict files: ").concat(join_with(&self.snapshot.files, ", ").as_str()),
        );
        let ghost first = seq![
            note_text(*branch),
            "before sync: "@ + self@.before_head,
            "target base: "@ + base@ + " @ "@ + self@.base_head,
            "sync failed with code "@ + crate::strings::decimal_int(self@.sync_status as int)
                + " against "@ + base@,
            "conflict files: "@ + crate::strings::join(self@.snapshot.files, ", "@),
        ];
        assert(report@.details =~= first);
        push_commit_details(&mut report, "upstream commits planned", &self.upstream);
        extend_list(&mut report.details, &self.details);
        if !is_blank(self.snapshot.status.as_str()) {
            proof {
                reveal_strlit("\n");
            }
            report.push_detail(
                owned("git status: ").concat(
                    replace(self.snapshot.status.as_str(), "\n", "; ").as_str(),
                ),
            );
        }
        if !is_blank(self.snapshot.combined_diff.as_str()) {
            report.push_detail(owned("combined diff captured for future LLM analysis"));
        }
        report.push_detail(
            match analysis {
                Ok(Some(text)) => owned("LLM analysis: ").concat(one_line(text.as_str()).as_str()),
                Ok(None) => owned("LLM analysis skipped"),
                Err(words) => owned("LLM analysis failed: ").concat(words.as_str()),
            },
        );
        assert(report@.details =~= conflict_entry(self@, *repo, *branch, *analysis).details);
        report
    }

    fn moved_report(&self, repo: &RepoConfig, branch: &BranchConfig, current: &Option<String>) -> (r:
        BranchReport)
        ensures
            r@ == moved_remote(self@, *repo, *branch, crate::strings::opt_view(*current)),
    {
        let mut report = BranchReport::new(
            branch.name.as_str(),
            branch.kind,
            BranchStatus::Failed,
        ).active();
        report.push_detail(branch_note_detail(branch));
        report.push_detail(owned("push blocked: remote branch changed before push"));
        report.push_detail(
            owned("remote branch: ").concat(remote_branch_name(repo, branch).as_str()),
        );
        report.push_detail(
            owned("expected remote head: ").concat(
                display_remote_head(&self.remote_before).as_str(),
            ),
        );
        report.push_detail(
            owned("current remote head: ").concat(display_remote_head(current).as_str()),
        );
        report.push_detail(owned("rerun sync after fetching the latest remote branch"));
        assert(report@.details =~= moved_remote(
            self@,
            *repo,
            *branch,
            crate::strings::opt_view(*current),
        ).details);
        report
    }

    fn success_report(&self, repo: &RepoConfig, branch: &BranchConfig) -> (r: BranchReport)
        ensures
            r@ == success_entry(self@, *repo, *branch),
    {
        let remote = remote_branch_name(repo, branch);
        let mut report = BranchReport::new(branch.name.as_str(), branch.kind, BranchStatus::Success);
        report.head = Some(self.after_head.clone());
        if self.upstream.len() > 0 || self.commits.len() > 0 || self.files.len() > 0 || !same(
            self.before_head.as_str(),
            self.after_head.as_str(),
        ) {
            report.mark_active();
        }
        report.push_detail(branch_note_detail(branch));
        report.push_detail(owned("before sync: ").concat(self.before_head.as_str()));
        report.push_detail(owned("after sync: ").concat(self.after_head.as_str()));
        report.push_detail(
            owned("target base: ").concat(base_name(repo).as_str()).concat(" @ ").concat(
                self.base_head.as_str(),
            ),
        );
        report.push_detail(
            match &self.remote_before {
                Some(head) => owned("remote before push: ").concat(remote.as_str()).concat(
                    " @ ",
                ).concat(short_head(head.as_str()).as_str()),
                None => owned("remote before push: ").concat(remote.as_str()).concat(" not found"),
            },
        );
        let ghost first = seq![
            note_text(*branch),
            "before sync: "@ + self@.before_head,
            "after sync: "@ + self@.after_head,
            "target base: "@ + base_of(*repo) + " @ "@ + self@.base_head,
            match self@.remote_before {
                Some(head) => "remote before push: "@ + remote@ + " @ "@ + short_of(head),
                None => "remote before push: "@ + remote@ + " not found"@,
            },
        ];
        assert(report@.details =~= first);
        push_commit_details(&mut report, "upstream commits included", &self.upstream);
        push_commit_details(&mut report, "commits pushed to remote", &self.commits);
        push_list_details(&mut report, "files pushed to remote", &self.files);
        extend_list(&mut report.details, &self.details);
        if branch.tests.len() == 0 {
            report.push_detail(owned("no tests configured"));
        } else {
            report.push_detail(
                usize_to_string(branch.tests.len()).concat(" test command(s) passed"),
            );
        }
        match branch.push {
            PushStrategy::Never => {
                report.push_detail(owned("push skipped by config"));
            },
            _ => {
                report.push_detail(owned("pushed to ").concat(remote.as_str()));
            },
        }
        assert(report@.details =~= success_entry(self@, *repo, *branch).details);
        report
    }
}

fn same_head(a: &Option<String>, b: &Option<String>) -> (r: bool)
    ensures
        r == (crate::strings::opt_view(*a) == crate::strings::opt_view(*b)),
{
    match (a, b) {
        (Some(a), Some(b)) => same(a.as_str(), b.as_str()),
        (None, None) => true,
        _ => false,
    }
}

fn head_command() -> (r: Vec<String>)
    ensures
        crate::strings::views(r@) == head_args(),
{
    Git { root: String::new() }.head()
}

fn short_ref_command(reference: &str) -> (r: Vec<String>)
    ensures
        crate::strings::views(r@) == short_ref_args(reference@),
{
    Git { root: String::new() }.short_ref(reference)
}

fn log_command(range: &str) -> (r: Vec<String>)
    ensures
        crate::strings::views(r@) == log_args(range@),
{
    Git { root: String::new() }.log_oneline(range, MAX_REPORTED_COMMITS)
}

fn staged_command() -> (r: Vec<String>)
    ensures
        crate::strings::views(r@) == staged_args(),
{
    Git { root: String::new() }.staged_changes()
}

fn continue_command(strategy: SyncStrategy) -> (r: Vec<String>)
    ensures
        crate::strings::views(r@) == crate::git::continue_args(strategy),
{
    Git { root: String::new() }.continue_sync(strategy)
}

fn sync_command(repo: &RepoConfig, branch: &BranchConfig) -> (r: Vec<String>)
    ensures
        crate::strings::views(r@) == sync_args(*repo, *branch),
{
    let git = Git { root: String::new() };
    let base = base_name(repo);
    match branch.sync {
        SyncStrategy::Rebase => git.rebase(base.as_str()),
        SyncStrategy::Merge => git.merge(base.as_str()),
    }
}

fn remote_head_command(repo: &RepoConfig, branch: &BranchConfig) -> (r: Vec<String>)
    ensures
        crate::strings::views(r@) == remote_head_args(*repo, *branch),
{
    Git { root: String::new() }.remote_head(repo.fork_remote.as_str(), branch.name.as_str())
}

fn fetch_command(repo: &RepoConfig, branch: &BranchConfig) -> (r: Vec<String>)
    ensures
        crate::strings::views(r@) == seq!["fetch"@, repo.fork_remote@, branch.name@],
{
    Git { root: String::new() }.fetch_branch(repo.fork_remote.as_str(), branch.name.as_str())
}

fn resolve_barred(branch: &BranchConfig, files: &Vec<String>) -> (r: Option<String>)
    ensures
        crate::strings::opt_view(r) == resolve_bar(*branch, crate::strings::views(files@)),
{
    let auto = &branch.auto_resolve;
    if auto.allowed_paths.len() == 0 {
        return Some(owned("auto resolve skipped: allowed_paths is empty"));
    }
    if files.len() > auto.max_conflict_files {
        return Some(
            owned("auto resolve skipped: ").concat(usize_to_string(files.len()).as_str()).concat(
                " conflict files exceeds limit ",
            ).concat(usize_to_string(auto.max_conflict_files).as_str()),
        );
    }
    let ghost all = crate::strings::views(files@);
    let ghost allowed = crate::strings::views(auto.allowed_paths@);
    let mut i: usize = 0;
    while i < files.len()
        invariant
            i <= files@.len(),
            all == crate::strings::views(files@),
            allowed == crate::strings::views(branch.auto_resolve.allowed_paths@),
            auto == &branch.auto_resolve,
            allowed.len() > 0,
            files@.len() <= branch.auto_resolve.max_conflict_files,
            first_barred(all, allowed, 0) == first_barred(all, allowed, i as int),
        decreases files@.len() - i,
    {
        if !path_is_allowed(files[i].as_str(), &auto.allowed_paths) {
            return Some(
                owned("auto resolve skipped: path not allowed: ").concat(files[i].as_str()),
            );
        }
        i += 1;
    }
    None
}

/// Runs the branches of a configuration.
pub struct SyncRunner {
    pub config: Config,
    pub options: SyncOptions,
}

/// What is known of a branch without touching it.
#[derive(Debug, Clone)]
pub struct BranchFacts {
    /// The commit of the local branch, where there is one.
    pub head: Option<String>,
    /// How the branch stands to its base, where there is one.
    pub base: Option<AheadBehind>,
    /// How the branch stands to the branch on the remote, where there is one.
    pub remote: Option<AheadBehind>,
}

/// What is announced when all branches are done.
#[derive(Debug, Clone, Copy, PartialEq, Eq, Structural)]
pub enum Announcement {
    Summary,
    Nothing,
    Failures,
}

/// A message with a subject.
#[derive(Debug, Clone)]
pub struct Notice {
    pub subject: String,
    pub body: String,
}

/// The branch is among those that were asked for.
pub open spec fn selected(options: SyncOptions, branch: BranchConfig) -> bool {
    match options.branch {
        Some(name) => name@ == branch.name@,
        None => true,
    }
}

/// The places of the branches, below `n`, that were asked for.
pub open spec fn selection(options: SyncOptions, branches: Seq<BranchConfig>, n: int) -> Seq<int>
    decreases n,
{
    if n <= 0 {
        Seq::empty()
    } else {
        let rest = selection(options, branches, n - 1);
        if selected(options, branches[n - 1]) {
            rest.push(n - 1)
        } else {
            rest
        }
    }
}

/// Places as plain numbers.
pub open spec fn places(list: Seq<usize>) -> Seq<int> {
    Seq::new(list.len(), |i: int| list[i] as int)
}

/// The report on a branch that is left alone.
pub open spec fn dry_entry(branch: BranchConfig) -> Reported {
    Reported {
        branch: branch.name@,
        kind: branch.kind,
        status: BranchStatus::Skipped,
        head: None,
        activity: false,
        details: seq!["dry run: fetch completed, sync/test/push skipped"@],
    }
}

/// How far two branches are apart, as a detail.
pub open spec fn counts_text(other: Seq<char>, counts: AheadBehind) -> Seq<char> {
    "vs "@ + other + ": ahead "@ + crate::strings::decimal(counts.ahead as nat) + ", behind "@
        + crate::strings::decimal(counts.behind as nat)
}

/// The report on the state of a branch.
pub open spec fn status_entry(repo: RepoConfig, branch: BranchConfig, facts: BranchFacts) -> Reported {
    let base = base_of(repo);
    let remote = remote_branch_of(repo, branch);
    match facts.head {
        None => Reported {
            branch: branch.name@,
            kind: branch.kind,
            status: BranchStatus::Failed,
            head: None,
            activity: false,
            details: seq!["local branch not found"@],
        },
        Some(head) => Reported {
            branch: branch.name@,
            kind: branch.kind,
            status: BranchStatus::Skipped,
            head: Some(head@),
            activity: false,
            details: seq![
                "status only: fetch completed, sync/test/push skipped"@,
                match facts.base {
                    Some(counts) => counts_text(base, counts),
                    None => "base ref not found: "@ + base,
                },
                match facts.remote {
                    Some(counts) => counts_text(remote, counts),
                    None => "remote branch not found: "@ + remote,
                },
            ],
        },
    }
}

fn counts_detail(other: &str, counts: &AheadBehind) -> (r: String)
    ensures
        r@ == counts_text(other@, *counts),
{
    owned("vs ").concat(other).concat(": ahead ").concat(
        crate::strings::u64_to_string(counts.ahead as u64).as_str(),
    ).concat(", behind ").concat(crate::strings::u64_to_string(counts.behind as u64).as_str())
}

/// The notice on a branch that failed or is in conflict.
pub open spec fn failure_notice(entry: Reported) -> Option<(Seq<char>, Seq<char>)> {
    match entry.status {
        BranchStatus::Success | BranchStatus::Skipped => None,
        _ => Some(
            (
                entry.branch + " "@ + crate::report::status_text(entry.status),
                crate::report::branch_text(entry),
            ),
        ),
    }
}

/// The notices on the first `n` branches.
pub open spec fn failure_notices(entries: Seq<Reported>, n: int) -> Seq<(Seq<char>, Seq<char>)>
    decreases n,
{
    if n <= 0 {
        Seq::empty()
    } else {
        let rest = failure_notices(entries, n - 1);
        match failure_notice(entries[n - 1]) {
            Some(notice) => rest.push(notice),
            None => rest,
        }
    }
}

pub open spec fn notice_texts(list: Seq<Notice>) -> Seq<(Seq<char>, Seq<char>)> {
    Seq::new(list.len(), |i: int| (list[i].subject@, list[i].body@))
}

impl SyncRunner {
    pub fn new(config: Config, options: SyncOptions) -> (r: SyncRunner)
        ensures
            r.config == config,
            r.options == options,
    {
        SyncRunner { config, options }
    }

    /// The places of the branches that were asked for.
    pub fn selected_branches(&self) -> (r: Vec<usize>)
        ensures
            places(r@) == selection(
                self.options,
                self.config.branches@,
                self.config.branches@.len() as int,
            ),
            forall|i: int| 0 <= i < r@.len() ==> #[trigger] r@[i] < self.config.branches@.len(),
    {
        let mut out: Vec<usize> = Vec::new();
        let mut i: usize = 0;
        assert(places(out@) =~= Seq::empty());
        while i < self.config.branches.len()
            invariant
                i <= self.config.branches@.len(),
                places(out@) == selection(self.options, self.config.branches@, i as int),
                forall|k: int| 0 <= k < out@.len() ==> #[trigger] out@[k] < self.config.branches@.len(),
            decreases self.config.branches@.len() - i,
        {
            let take = match &self.options.branch {
                Some(name) => same(name.as_str(), self.config.branches[i].name.as_str()),
                None => true,
            };
            if take {
                let ghost before = out@;
                out.push(i);
                assert(places(out@) =~= places(before).push(i as int));
            }
            i += 1;
        }
        out
    }

    /// The report of a run that only looks.
    pub fn run(&self) -> (r: Option<crate::report::SyncReport>)
        ensures
            match r {
                Some(report) => {
                    let chosen = selection(
                        self.options,
                        self.config.branches@,
                        self.config.branches@.len() as int,
                    );
                    &&& self.options.dry_run
                    &&& report@ == Seq::new(
                        chosen.len(),
                        |i: int| dry_entry(self.config.branches@[chosen[i]]),
                    )
                },
                None => !self.options.dry_run,
            },
    {
        if !self.options.dry_run {
            return None;
        }
        let chosen = self.selected_branches();
        let ghost list = places(chosen@);
        let ghost all = Seq::new(list.len(), |i: int| dry_entry(self.config.branches@[list[i]]));
        let mut report = crate::report::SyncReport::default();
        let mut i: usize = 0;
        assert(report@ =~= all.take(0));
        while i < chosen.len()
            invariant
                i <= chosen@.len(),
                list == places(chosen@),
                all == Seq::new(list.len(), |i: int| dry_entry(self.config.branches@[list[i]])),
                forall|k: int|
                    0 <= k < chosen@.len() ==> #[trigger] chosen@[k] < self.config.branches@.len(),
                report@ == all.take(i as int),
            decreases chosen@.len() - i,
        {
            let branch = &self.config.branches[chosen[i]];
            let entry = BranchReport::new(
                branch.name.as_str(),
                branch.kind,
                BranchStatus::Skipped,
            ).detail("dry run: fetch completed, sync/test/push skipped");
            assert(entry@ =~= dry_entry(*branch));
            report.push(entry);
            assert(report@ =~= all.take(i + 1));
            i += 1;
        }
        assert(all.take(all.len() as int) =~= all);
        Some(report)
    }

    /// What is announced when all branches are done.
    pub fn announcement(&self, summary_enabled: bool, report: &crate::report::SyncReport) -> (r:
        Announcement)
        ensures
            r == (if !summary_enabled {
                Announcement::Failures
            } else if self.options.notify_on_noop || crate::report::any_activity(report@) {
                Announcement::Summary
            } else {
                Announcement::Nothing
            }),
    {
        if !summary_enabled {
            Announcement::Failures
        } else if self.options.notify_on_noop || report.has_activity() {
            Announcement::Summary
        } else {
            Announcement::Nothing
        }
    }

    /// The report on the state of a branch.
    pub fn status(&self, branch: &BranchConfig, facts: &BranchFacts) -> (r: BranchReport)
        ensures
            r@ == status_entry(self.config.repo, *branch, *facts),
    {
        status_branch(&self.config.repo, branch, facts)
    }
}

/// The report on the state of a branch.
pub fn status_branch(repo: &RepoConfig, branch: &BranchConfig, facts: &BranchFacts) -> (r: BranchReport)
    ensures
        r@ == status_entry(*repo, *branch, *facts),
{
    let head = match &facts.head {
        None => {
            let r = BranchReport::new(branch.name.as_str(), branch.kind, BranchStatus::Failed).detail(
                "local branch not found",
            );
            assert(r@ =~= status_entry(*repo, *branch, *facts));
            return r;
        },
        Some(head) => head,
    };
    let mut entry = BranchReport::new(branch.name.as_str(), branch.kind, BranchStatus::Skipped);
    entry.push_detail(owned("status only: fetch completed, sync/test/push skipped"));
    entry.head = Some(head.clone());
    let base = base_name(repo);
    entry.push_detail(
        match &facts.base {
            Some(counts) => counts_detail(base.as_str(), counts),
            None => owned("base ref not found: ").concat(base.as_str()),
        },
    );
    let remote = remote_branch_name(repo, branch);
    entry.push_detail(
        match &facts.remote {
            Some(counts) => counts_detail(remote.as_str(), counts),
            None => owned("remote branch not found: ").concat(remote.as_str()),
        },
    );
    assert(entry@ =~= status_entry(*repo, *branch, *facts));
    entry
}

/// The notice on a branch that failed or is in conflict.
pub fn notify_if_needed(report: &BranchReport) -> (r: Option<Notice>)
    ensures
        match r {
            Some(notice) => failure_notice(report@) == Some((notice.subject@, notice.body@)),
            None => failure_notice(report@) is None,
        },
{
    match report.status {
        BranchStatus::Success | BranchStatus::Skipped => None,
        _ => Some(
            Notice {
                subject: owned(report.branch.as_str()).concat(" ").concat(
                    crate::report::status_name(report.status),
                ),
                body: report.render_text(),
            },
        ),
    }
}

/// The notices on all branches that failed or are in conflict.
pub fn notify_failed_branches(report: &crate::report::SyncReport) -> (r: Vec<Notice>)
    ensures
        notice_texts(r@) == failure_notices(report@, report@.len() as int),
{
    let mut out: Vec<Notice> = Vec::new();
    let mut i: usize = 0;
    assert(notice_texts(out@) =~= Seq::empty());
    while i < report.entries.len()
        invariant
            i <= report.entries@.len(),
            notice_texts(out@) == failure_notices(report@, i as int),
        decreases report.entries@.len() - i,
    {
        assert(report@[i as int] == report.entries@[i as int]@);
        match notify_if_needed(&report.entries[i]) {
            Some(notice) => {
                let ghost before = out@;
                out.push(notice);
                assert(notice_texts(out@) =~= notice_texts(before).push(
                    (notice.subject@, notice.body@),
                ));
            },
            None => {},
        }
        i += 1;
    }
    out
}

} // verus!
