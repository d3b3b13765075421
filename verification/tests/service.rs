use termiters::command::CommandOutput;
use termiters::config::{
    AutoResolveConfig, BranchConfig, BranchKind, Config, DaemonConfig, ProtectionConfig,
    PushStrategy, ReleaseConfig, RepoConfig, ServiceConfig, SyncStrategy,
};
use termiters::conflict::ResolvedFile;
use termiters::git::ConflictFileContent;
use termiters::llm::ConflictProposal;
use termiters::release::{ensure_release_tag, ReleaseAction};
use termiters::service::apply::{ApplyAction, ApplyEvent, ApplyRun};
use termiters::service::dashboard::{branch_dashboard, status_view, BranchHeads};
use termiters::service::db::{
    active_job_summaries, check_cleanup_days, cleanup_old_jobs, create_job, job_stats, notify_once,
    recover_interrupted_job, set_state, take_note, transition_state, JobCount, JobRow,
};
use termiters::service::handlers::{
    publish_protection_issue, read_only_router, start_sync, start_sync_all, validate_service_config,
    Endpoint,
};
use termiters::service::jobs::{JobAction, JobEvent, SyncJob};
use termiters::service::security::{
    check_remote, create_push_challenge, enforce_password_rate_limit, push_reviewed_job,
    use_challenge, verify_operation_password,
};
use termiters::service::types::is_active;
use termiters::service::util::{
    deterministic_proposal, ensure_state, proposal_diff, validate_files,
};
use termiters::service::work::{PushAction, PushEvent, PushRun};

fn branch(name: &str) -> BranchConfig {
    BranchConfig {
        name: name.to_string(),
        kind: BranchKind::Product,
        note: None,
        sync: SyncStrategy::Rebase,
        push: PushStrategy::ForceWithLease,
        tests: vec!["make test".to_string()],
        require_behavioral_tests: false,
        auto_resolve: AutoResolveConfig::default(),
        release: ReleaseConfig::default(),
    }
}

fn config() -> Config {
    Config {
        repo: RepoConfig {
            path: "/repo".to_string(),
            upstream: "up".to_string(),
            fork: "fork-url".to_string(),
            base_branch: "main".to_string(),
            upstream_remote: "upstream".to_string(),
            fork_remote: "fork".to_string(),
        },
        branches: vec![branch("one"), branch("two")],
        daemon: DaemonConfig::default(),
        llm: None,
        notify: None,
        service: ServiceConfig::default(),
        protection: ProtectionConfig::default(),
    }
}

fn output(status: i32, stdout: &str) -> CommandOutput {
    CommandOutput {
        status,
        stdout: stdout.to_string(),
        stderr: String::new(),
    }
}

fn row(id: &str, state: &str, updated_at: &str) -> JobRow {
    JobRow {
        id: id.to_string(),
        kind: "sync".to_string(),
        branch: "main".to_string(),
        state: state.to_string(),
        summary: String::new(),
        worktree_path: String::new(),
        created_at: "2026-01-01T00:00:00+00:00".to_string(),
        updated_at: updated_at.to_string(),
    }
}

fn rejects_non_conflict_file() {
    let files = vec![ResolvedFile {
        path: "src/other.py".to_string(),
        content: "pass\n".to_string(),
    }];
    assert!(validate_files(&files, &vec!["src/main.py".to_string()]).is_err());
}

fn diff_does_not_write_files() {
    let original = vec![ConflictFileContent {
        path: "src/main.py".to_string(),
        content: "old\n".to_string(),
    }];
    let proposal = ConflictProposal {
        summary: "replace".to_string(),
        files: vec![ResolvedFile {
            path: "src/main.py".to_string(),
            content: "new\n".to_string(),
        }],
    };
    let diff = proposal_diff(&original, &proposal).unwrap();
    assert!(diff.contains("-old"));
    assert!(diff.contains("+new"));
}

fn side_of(option_id: &str) -> String {
    let files = vec![ConflictFileContent {
        path: "src/main.py".to_string(),
        content: "keep\n<<<<<<< HEAD\nupstream\n=======\nbranch\n>>>>>>> my/branch\nend\n"
            .to_string(),
    }];
    let proposal = deterministic_proposal(&files, option_id, SyncStrategy::Rebase)
        .unwrap()
        .unwrap();
    proposal.files[0].content.clone()
}

fn deletes_only_old_terminal_jobs() {
    let old = "2026-08-01T00:00:00+00:00";
    let fresh = "2026-09-17T00:00:00+00:00";
    let rows = vec![
        row("old-completed", "completed", old),
        row("old-abandoned", "abandoned", old),
        row("old-failed", "failed", old),
        row("old-running", "running", old),
        row("fresh-completed", "completed", fresh),
    ];
    let deleted = cleanup_old_jobs(&rows, "2026-08-19T00:00:00+00:00");
    assert_eq!(deleted, vec![0, 1, 2]);
}

#[test]
fn service_proposal_validation_rejects_non_conflict_file() {
    rejects_non_conflict_file();
    let files = vec![ResolvedFile {
        path: "src/other.py".to_string(),
        content: "pass\n".to_string(),
    }];
    assert!(validate_files(&files, &vec!["src/main.py".to_string()]).is_err());
}

#[test]
fn util_proposal_validation_rejects_non_conflict_file() {
    rejects_non_conflict_file();
    let files = vec![ResolvedFile {
        path: "src/other.py".to_string(),
        content: "pass\n".to_string(),
    }];
    assert!(validate_files(&files, &vec!["src/main.py".to_string()]).is_err());
}

#[test]
fn service_proposal_diff_does_not_write_files() {
    diff_does_not_write_files();
}

#[test]
fn util_proposal_diff_does_not_write_files() {
    diff_does_not_write_files();
}

#[test]
fn service_deterministic_accept_mine_uses_branch_side_during_rebase() {
    assert_eq!(side_of("accept-mine"), "keep\nbranch\nend\n");
}

#[test]
fn util_deterministic_accept_mine_uses_branch_side_during_rebase() {
    assert_eq!(side_of("accept-mine"), "keep\nbranch\nend\n");
}

#[test]
fn service_deterministic_accept_theirs_uses_upstream_side_during_rebase() {
    assert_eq!(side_of("accept-theirs"), "keep\nupstream\nend\n");
}

#[test]
fn util_deterministic_accept_theirs_uses_upstream_side_during_rebase() {
    assert_eq!(side_of("accept-theirs"), "keep\nupstream\nend\n");
}

#[test]
fn service_cleanup_old_jobs_deletes_only_old_terminal_jobs() {
    deletes_only_old_terminal_jobs();
}

#[test]
fn util_cleanup_old_jobs_deletes_only_old_terminal_jobs() {
    deletes_only_old_terminal_jobs();
    assert!(check_cleanup_days(0).is_err());
    assert!(check_cleanup_days(30).is_ok());
}

#[test]
fn concurrent_requests_create_only_one_sync_job() {
    let mut rows: Vec<JobRow> = Vec::new();
    let mut created: usize = 0;
    for id in ["1", "2", "3"] {
        if let Ok(job) = create_job(&rows, "sync", "main", id, "now") {
            assert_eq!(job.state, "queued");
            rows.push(job);
            created += 1;
        }
    }
    assert_eq!(created, 1);
    assert_eq!(rows.len(), 1);
    assert!(create_job(&rows, "check", "main", "4", "now").is_ok());
    assert_eq!(
        create_job(&rows, "sync", "main", "5", "now").unwrap_err(),
        "该分支已有活动任务"
    );
    let mut job = rows.remove(0);
    set_state(&mut job, "waiting_push", "等待推送", "now");
    let results: Vec<bool> = (0..2)
        .map(|_| transition_state(&mut job, &["waiting_push"], "pushing", "开始推送", "now").is_ok())
        .collect();
    assert_eq!(results.iter().filter(|moved| **moved).count(), 1);
    assert_eq!(job.state, "pushing");
}

#[test]
fn old_active_job_remains_visible_after_fifty_newer_jobs() {
    let mut rows: Vec<JobRow> = Vec::new();
    for i in 0..50 {
        let mut job = create_job(&rows, "check", "main", &format!("new-{i}"), "now").unwrap();
        set_state(&mut job, "completed", "完成", "now");
        rows.push(job);
    }
    let mut job = create_job(&rows, "sync", "main", "old-active", "now").unwrap();
    job.created_at = "2000-01-01T00:00:00Z".to_string();
    rows.push(job);
    assert_eq!(active_job_summaries(&rows), vec![50]);
    let mut config = config();
    config.branches = vec![branch("main")];
    let counts = vec![
        JobCount { kind: "check".to_string(), state: "completed".to_string(), count: 50 },
        JobCount { kind: "sync".to_string(), state: "queued".to_string(), count: 1 },
    ];
    let status = status_view(&config, &rows, job_stats(&counts));
    assert_eq!(status.active_jobs, 1);
    assert_eq!(status.stats.job_total, 51);
    let heads = BranchHeads {
        local_head: None,
        upstream_head: None,
        remote_head: None,
        upstream: None,
    };
    let dashboard = branch_dashboard(&config.branches[0], &heads, &rows);
    assert_eq!(dashboard.current_job_id.as_deref(), Some("old-active"));
    assert!(is_active("waiting_push"));
    assert!(!is_active("completed"));
}

#[test]
fn read_only_router_rejects_control_posts() {
    let endpoints = read_only_router();
    assert!(endpoints.iter().any(|item| item.path() == "/v1/status"));
    assert!(endpoints.iter().all(|item| item.is_read_only()));
    assert!(!endpoints
        .iter()
        .any(|item| item.path() == "/v1/jobs/sync-all"));
    assert!(!Endpoint::StartSync.is_read_only());
}

/// A work tree at `head`, and what its remote has.
struct Repository {
    head: String,
    remote_branch: String,
    tags: Vec<(String, String)>,
    branch_pushes: usize,
}

impl Repository {
    /// Answers a call the way git does.
    fn git(&mut self, args: &[String]) -> CommandOutput {
        let last = args.last().unwrap();
        match args[0].as_str() {
            "rev-parse" => output(0, &format!("{}\n", self.head)),
            "check-ref-format" => output(if last.contains(' ') { 1 } else { 0 }, ""),
            "ls-remote" if args[1] == "--tags" => {
                let lines: Vec<String> =
                    self.tags.iter().map(|tag| format!("{}\trefs/tags/{}\n", tag.1, tag.0)).collect();
                output(0, &lines.concat())
            }
            "ls-remote" => output(0, &format!("{}\trefs/heads/main\n", self.remote_branch)),
            "push" => {
                if let Some(tag) = last.strip_prefix("HEAD:refs/tags/") {
                    self.tags.push((tag.to_string(), self.head.clone()));
                } else {
                    self.remote_branch = self.head.clone();
                    self.branch_pushes += 1;
                }
                output(0, "")
            }
            _ => output(0, ""),
        }
    }

    fn release(&mut self, branch: &BranchConfig) -> Result<Option<String>, String> {
        let (mut run, mut action) = ensure_release_tag("fork", &branch.release);
        loop {
            match action {
                ReleaseAction::Done(tag) => return Ok(tag),
                ReleaseAction::Fail(words) => return Err(words),
                ReleaseAction::Run(args) => action = run.step(&self.git(&args)),
            }
        }
    }

    /// Pushes a job, and writes its new head down.
    fn push_job(&mut self, branch: &BranchConfig, recorded: &mut String) -> Result<Option<String>, String> {
        let config = config();
        let (mut run, mut action) = PushRun::push_job(branch, recorded, true);
        loop {
            let event = match action {
                PushAction::Done(tag) => return Ok(tag),
                PushAction::Fail(words) => return Err(words),
                PushAction::Git(args) => PushEvent::Output(self.git(&args)),
                PushAction::Record => {
                    *recorded = run.candidate.clone();
                    PushEvent::Recorded
                }
                PushAction::Release => PushEvent::Released(self.release(branch)),
            };
            action = run.step(&config.repo, branch, event);
        }
    }
}

#[test]
fn tag_failure_retries_without_replacing_remote_branch() {
    let mut branch = branch("main");
    branch.release.enabled = true;
    branch.release.tag_prefix = "bad prefix".to_string();
    let mut repository = Repository {
        head: "candidate".to_string(),
        remote_branch: "base".to_string(),
        tags: Vec::new(),
        branch_pushes: 0,
    };
    let mut recorded = "base".to_string();

    assert!(repository.push_job(&branch, &mut recorded).is_err());
    assert_eq!(repository.remote_branch, "candidate");
    assert_eq!(recorded, "candidate");

    branch.release.tag_prefix = "v".to_string();
    assert_eq!(
        repository.push_job(&branch, &mut recorded).unwrap(),
        Some("v0".to_string())
    );
    assert_eq!(repository.remote_branch, "candidate");
    assert_eq!(repository.branch_pushes, 1);
    assert_eq!(repository.tags, vec![("v0".to_string(), "candidate".to_string())]);

    repository.head = "another candidate".to_string();
    recorded = "base".to_string();
    assert!(repository.push_job(&branch, &mut recorded).is_err());
    assert_eq!(repository.remote_branch, "candidate");
}

#[test]
fn a_remote_that_moved_is_not_pushed_over() {
    let config = config();
    let branch = branch("one");
    let (mut run, _) = PushRun::push_job(&branch, "ddd", true);
    run.step(
        &config.repo,
        &branch,
        PushEvent::Output(output(0, "eee\n")),
    );
    run.step(&config.repo, &branch, PushEvent::Output(output(0, "")));
    let action = run.step(
        &config.repo,
        &branch,
        PushEvent::Output(output(0, "fff\trefs/heads/one\n")),
    );
    assert!(matches!(action, PushAction::Fail(_)));
}

#[test]
fn states_follow_their_rules() {
    let mut job = row("1", "waiting_push", "then");
    assert!(transition_state(&mut job, &["queued"], "running", "s", "now").is_err());
    assert_eq!(job.state, "waiting_push");
    let words = transition_state(&mut job, &["waiting_push"], "pushing", "s", "now").unwrap();
    assert_eq!(words, "pushing: s");
    assert_eq!(job.state, "pushing");
    assert!(recover_interrupted_job(&mut job, "later"));
    assert_eq!(job.state, "failed");
    assert!(!recover_interrupted_job(&mut job, "later"));
    assert_eq!(set_state(&mut job, "queued", "again", "now"), "queued: again");
    assert_eq!(
        ensure_state("running", &["queued"]).unwrap_err(),
        "任务状态 running 不允许执行该操作"
    );
}

#[test]
fn all_branches_start_or_none() {
    let config = config();
    let ids = vec!["1".to_string(), "2".to_string()];
    let jobs = start_sync_all(&config, &Vec::new(), &ids, "now").unwrap();
    assert_eq!(jobs.len(), 2);
    assert_eq!(jobs[1].branch, "two");
    let mut busy = row("9", "running", "now");
    busy.branch = "two".to_string();
    assert!(start_sync_all(&config, &vec![busy], &ids, "now").is_err());
    assert!(start_sync(&config, "one").is_ok());
    assert_eq!(
        start_sync(&config, "three").unwrap_err().message,
        "分支不在 TermiteRS 白名单中"
    );
}

#[test]
fn a_service_needs_branches_and_two_sockets() {
    let mut config = config();
    assert!(validate_service_config(&config).is_ok());
    config.service.public_socket_path = Some(config.service.socket_path.clone());
    assert!(validate_service_config(&config).is_err());
    config.service.public_socket_path = None;
    config.branches.push(branch("one"));
    assert_eq!(
        validate_service_config(&config).unwrap_err(),
        "维护分支重复：one"
    );
    config.branches.clear();
    assert!(validate_service_config(&config).is_err());
    assert!(publish_protection_issue(false, "GITHUB_TOKEN").is_err());
    assert!(publish_protection_issue(true, "GITHUB_TOKEN").is_ok());
    assert!(publish_protection_issue(true, "a b").is_err());
}

#[test]
fn a_password_is_checked_against_its_hash() {
    let mut config = config();
    config.service.operation_password_hash = "no hash".to_string();
    let words = verify_operation_password(&config, "secret").unwrap_err();
    assert!(words.starts_with("操作密码哈希无效："));
    config.service.operation_password_hash =
        "$argon2id$v=19$m=16,t=2,p=1$c29tZXNhbHQ$AAAAAAAAAAAAAAAAAAAAAA".to_string();
    assert_eq!(
        verify_operation_password(&config, "secret").unwrap_err(),
        "操作密码错误"
    );
}

#[test]
fn attempts_are_limited() {
    let mut attempts: Vec<u64> = Vec::new();
    for i in 0..5 {
        assert!(enforce_password_rate_limit(&mut attempts, 1_000 + i).is_ok());
    }
    assert!(enforce_password_rate_limit(&mut attempts, 1_010).is_err());
    assert!(enforce_password_rate_limit(&mut attempts, 10_000_000).is_ok());
}

#[test]
fn a_challenge_is_used_once() {
    let (challenge, expires) = create_push_challenge("job", "waiting_push", "abc", 0).unwrap();
    assert_eq!(expires, "1970-01-01T00:05:00+00:00");
    let mut stored = Some(challenge);
    assert!(use_challenge(&mut stored, 299).is_ok());
    assert!(use_challenge(&mut stored, 299).is_err());
    assert!(use_challenge(&mut None, 0).is_err());
    assert!(create_push_challenge("job", "running", "abc", 0).is_err());
    assert!(check_remote("a", "a").is_ok());
    assert!(check_remote("b", "a").is_err());
}

#[test]
fn a_pushed_job_is_completed() {
    let ending = push_reviewed_job(&branch("one"), &Ok(Some("v1.0".to_string())), &None);
    assert_eq!(ending.state, "completed");
    let ending = push_reviewed_job(&branch("one"), &Err("denied".to_string()), &None);
    assert_eq!(ending.state, "waiting_push");
    assert_eq!(ending.summary, "自动推送失败，等待重试：denied");
}

#[test]
fn messages_are_sent_once() {
    let mut told = Vec::new();
    assert!(notify_once(&told, "job", "pushed"));
    take_note(&mut told, "job", "pushed", &Ok(false));
    assert!(notify_once(&told, "job", "pushed"));
    take_note(&mut told, "job", "pushed", &Ok(true));
    assert!(!notify_once(&told, "job", "pushed"));
    assert!(notify_once(&told, "other", "pushed"));
}

#[test]
fn jobs_are_counted_by_state() {
    let rows = vec![
        JobCount {
            kind: "sync".to_string(),
            state: "completed".to_string(),
            count: 3,
        },
        JobCount {
            kind: "check".to_string(),
            state: "completed".to_string(),
            count: 2,
        },
    ];
    let stats = job_stats(&rows);
    assert_eq!(stats.sync_total, 3);
    assert_eq!(stats.sync_completed, 3);
    assert_eq!(stats.check_total, 2);
    assert_eq!(stats.job_total, 5);
}

#[test]
fn a_job_makes_its_worktree_and_rebases() {
    let config = config();
    let branch = branch("one");
    let (mut job, action) = SyncJob::execute_sync("/data/worktrees/1");
    assert!(matches!(action, JobAction::Main(args) if args == ["rev-parse", "--show-toplevel"]));
    let ok = |text: &str| JobEvent::Output(output(0, text));
    job.step(&config.repo, &branch, ok("/repo\n"));
    job.step(&config.repo, &branch, ok("up\n"));
    job.step(&config.repo, &branch, ok("fork-url\n"));
    job.step(&config.repo, &branch, ok(""));
    let action = job.step(&config.repo, &branch, ok(""));
    assert!(matches!(action, JobAction::CheckWorktree));
    job.step(&config.repo, &branch, JobEvent::Exists(false));
    let action = job.step(&config.repo, &branch, ok("ddd\n"));
    assert!(matches!(action, JobAction::Main(args) if args[0] == "worktree"));
    job.step(&config.repo, &branch, ok(""));
    job.step(&config.repo, &branch, ok("aaa\n"));
    job.step(&config.repo, &branch, ok("bbb\n"));
    let action = job.step(&config.repo, &branch, ok("ddd\trefs/heads/one\n"));
    assert!(matches!(action, JobAction::RecordHeads));
    let action = job.step(&config.repo, &branch, JobEvent::Recorded);
    assert!(matches!(action, JobAction::Tree(args) if args == ["rebase", "upstream/main"]));
    let action = job.step(&config.repo, &branch, ok(""));
    assert!(matches!(action, JobAction::Test(command) if command == "make test"));
    match job.step(&config.repo, &branch, JobEvent::Output(output(1, ""))) {
        JobAction::End(ending, _) => assert_eq!(ending.state, "test_failed"),
        _ => {}
    }
}

#[test]
fn a_proposal_is_written_file_by_file() {
    let config = config();
    let branch = branch("one");
    let (mut run, action) = ApplyRun::execute_apply(
        "job",
        vec![ResolvedFile {
            path: "a.rs".to_string(),
            content: "x\n".to_string(),
        }],
    );
    assert!(matches!(action, ApplyAction::WriteFile(0)));
    let action = run.step(&config, &branch, ApplyEvent::Written(Ok(())));
    assert!(matches!(action, ApplyAction::Tree(args) if args == ["add", "a.rs"]));
    let (_, action) = ApplyRun::execute_apply(
        "job",
        vec![ResolvedFile {
            path: "../a.rs".to_string(),
            content: "x\n".to_string(),
        }],
    );
    assert!(matches!(action, ApplyAction::Fail(_)));
}

/// Runs a job that finds its branch at `before`, its remote at `remote` and its tests passed, and
/// ends at `after`; gives the state and whether a message is sent.
fn finish(notify_on_noop: bool, push: PushStrategy, heads: (&str, &str, &str)) -> (String, bool) {
    let (before, remote, after) = heads;
    let config = config();
    let mut branch = branch("one");
    branch.push = push;
    let line = |text: &str| JobEvent::Output(output(0, &format!("{text}\n")));
    let (mut job, mut action) = SyncJob::execute_scheduled_sync("/data/worktrees/1", notify_on_noop);
    let mut remote_asked = 0;
    loop {
        let event = match action {
            JobAction::End(ending, _) => return (ending.state.to_string(), ending.notice.is_some()),
            JobAction::Main(args) if args[0] == "remote" => {
                line(if args[2] == "fork" { "fork-url" } else { "up" })
            }
            JobAction::Main(args) if args[0] == "ls-remote" => line(remote),
            JobAction::Tree(args) if args[0] == "ls-remote" => {
                remote_asked += 1;
                assert_eq!(remote_asked, 1);
                line(remote)
            }
            JobAction::Tree(args) if args == ["rev-parse", "HEAD"] => {
                line(if job.before_head.is_empty() { before } else { after })
            }
            JobAction::Main(_) | JobAction::Tree(_) | JobAction::Test(_) => line("ok"),
            JobAction::CheckWorktree => JobEvent::Exists(false),
            JobAction::RecordHeads | JobAction::RecordTests | JobAction::RecordPush => {
                JobEvent::Recorded
            }
            JobAction::Release => JobEvent::Released(Ok(None)),
            JobAction::RemoveWorktree => JobEvent::Removed,
            _ => panic!("unexpected action"),
        };
        action = job.step(&config.repo, &branch, event);
    }
}

#[test]
fn an_idle_scheduled_sync_completes_without_a_message() {
    let done = |told: bool| ("completed".to_string(), told);
    let lease = PushStrategy::ForceWithLease;
    assert_eq!(finish(false, lease, ("aaa", "aaa", "aaa")), done(false));
    assert_eq!(finish(false, PushStrategy::Never, ("aaa", "ddd", "aaa")), done(false));
}

#[test]
fn a_sync_with_news_or_a_waiting_person_sends_a_message() {
    let done = ("completed".to_string(), true);
    let lease = PushStrategy::ForceWithLease;
    assert_eq!(finish(true, lease, ("aaa", "aaa", "aaa")), done);
    assert_eq!(finish(true, PushStrategy::Never, ("aaa", "aaa", "aaa")), done);
    assert_eq!(finish(false, lease, ("aaa", "aaa", "bbb")), done);
    assert_eq!(finish(false, lease, ("aaa", "ddd", "aaa")), done);
    assert_eq!(finish(false, PushStrategy::Never, ("aaa", "aaa", "bbb")), done);
}

#[test]
fn an_unreadable_head_does_not_fail_a_branch_that_is_not_pushed() {
    let config = config();
    let mut branch = branch("one");
    branch.push = PushStrategy::Never;
    branch.tests = Vec::new();
    branch.auto_resolve.require_tests = false;
    let (mut job, mut action) = SyncJob::execute_scheduled_sync("/data/worktrees/1", false);
    loop {
        let event = match action {
            JobAction::End(ending, _) => {
                assert_eq!(ending.state, "completed");
                assert!(ending.notice.is_some());
                return;
            }
            JobAction::Tree(args) if args == ["rev-parse", "HEAD"] && !job.before_head.is_empty() => {
                JobEvent::Output(output(128, "HEAD\n"))
            }
            JobAction::Main(args) if args[0] == "remote" => {
                JobEvent::Output(output(0, if args[2] == "fork" { "fork-url" } else { "up" }))
            }
            JobAction::Main(_) | JobAction::Tree(_) => JobEvent::Output(output(0, "aaa\n")),
            JobAction::CheckWorktree => JobEvent::Exists(false),
            JobAction::RecordHeads | JobAction::RecordTests => JobEvent::Recorded,
            JobAction::RemoveWorktree => JobEvent::Removed,
            other => panic!("unexpected: {:?}", other.deed()),
        };
        action = job.step(&config.repo, &branch, event);
    }
}

#[test]
fn a_refused_push_leaves_the_state_of_the_job() {
    let config = config();
    let mut branch = branch("one");
    branch.tests = vec!["make test".to_string(), "make lint".to_string()];
    let (mut run, mut action) = ApplyRun::execute_apply(
        "job",
        vec![ResolvedFile { path: "a.rs".to_string(), content: "x\n".to_string() }],
    );
    let mut passed = Vec::new();
    loop {
        let event = match action {
            ApplyAction::Tell(kind, message, notice) => {
                assert_eq!(kind, "push");
                assert_eq!(message, "自动推送失败，等待管理员重试：denied");
                assert_eq!(notice.event, "waiting_push");
                assert!(notice.body.starts_with("denied\n\n"));
                assert_eq!(passed, ["make test", "make lint"]);
                return;
            }
            ApplyAction::WriteFile(_) => ApplyEvent::Written(Ok(())),
            ApplyAction::Tree(_) => ApplyEvent::Output(output(0, "")),
            ApplyAction::Test(command) => {
                passed.push(command);
                ApplyEvent::Output(output(0, ""))
            }
            ApplyAction::RecordPassed(ending) => {
                assert_eq!(ending.state, "waiting_push");
                assert_eq!(passed.len(), 2);
                ApplyEvent::Recorded
            }
            ApplyAction::Push => ApplyEvent::Pushed(Err("denied".to_string())),
            other => panic!("unexpected: {other:?}"),
        };
        action = run.step(&config, &branch, event);
    }
}

#[test]
fn a_job_that_is_given_up_keeps_its_place() {
    let mut job = row("1", "running", "then");
    job.worktree_path = "/data/worktrees/1".to_string();
    let before = job.clone();
    assert!(recover_interrupted_job(&mut job, "later"));
    assert_eq!(job.updated_at, "later");
    assert_eq!(job.worktree_path, before.worktree_path);
    assert_eq!(job.kind, before.kind);
    assert_eq!(job.branch, before.branch);
    assert_eq!(job.created_at, before.created_at);
}
