use argon2::password_hash::SaltString;
use argon2::{Argon2, PasswordHasher};
use termiters::command::CommandOutput;
use termiters::config::{
    AutoResolveConfig, BranchConfig, BranchKind, Config, DaemonConfig, ProtectionConfig,
    PushStrategy, ReleaseConfig, RepoConfig, ServiceConfig, SyncStrategy,
};
use termiters::conflict::{extract_conflict_blocks, ConflictResolution};
use termiters::git::{AheadBehind, ConflictFileContent};
use termiters::llm::{ConflictOption, ConflictOptionsDecision, ConflictResolutionProposal};
use termiters::service::confirm::{ConfirmAction, ConfirmEvent, ConfirmRun, ConfirmStage};
use termiters::service::conflicts;
use termiters::service::dashboard::{
    branch_dashboard, branch_view, compare_ref, status_view, BranchHeads,
};
use termiters::service::db::JobRow;
use termiters::service::handlers::{
    self, retry_job, start_protection_investigation, ProtectionInvestigationRequest, Retry,
};
use termiters::service::security::{abandon, remove_worktree, Challenge};
use termiters::service::types::{ConversationMessage, ServiceStats};
use termiters::service::util::{capture_limit, configured_branch, dashboard_link};

fn branch(name: &str) -> BranchConfig {
    BranchConfig {
        name: name.to_string(),
        kind: BranchKind::Product,
        note: Some("note".to_string()),
        sync: SyncStrategy::Rebase,
        push: PushStrategy::ForceWithLease,
        tests: vec!["make test".to_string()],
        require_behavioral_tests: false,
        auto_resolve: AutoResolveConfig::default(),
        release: ReleaseConfig::default(),
    }
}

fn config() -> Config {
    Config {
        repo: RepoConfig {
            path: "/repo".to_string(),
            upstream: "up".to_string(),
            fork: "fork-url".to_string(),
            base_branch: "main".to_string(),
            upstream_remote: "upstream".to_string(),
            fork_remote: "fork".to_string(),
        },
        branches: vec![branch("one")],
        daemon: DaemonConfig::default(),
        llm: None,
        notify: None,
        service: ServiceConfig::default(),
        protection: ProtectionConfig::default(),
    }
}

fn locked_config() -> Config {
    let salt = SaltString::from_b64("c2FsdHNhbHRzYWx0").unwrap();
    let hash = Argon2::default()
        .hash_password(b"open sesame", &salt)
        .unwrap()
        .to_string();
    let mut config = config();
    config.service.operation_password_hash = hash;
    config
}

fn challenge() -> Option<Challenge> {
    Some(Challenge {
        job_id: "job".to_string(),
        expected_remote_head: "abc".to_string(),
        expires_at: 100,
        used: false,
    })
}

fn output(status: i32, stdout: &str) -> CommandOutput {
    CommandOutput {
        status,
        stdout: stdout.to_string(),
        stderr: String::new(),
    }
}

fn started(config: &Config) -> ConfirmRun {
    let mut attempts = Vec::new();
    let mut challenge = challenge();
    let (run, action) =
        ConfirmRun::confirm_push(&mut attempts, 1, config, "open sesame", &mut challenge, 50)
            .unwrap();
    assert!(matches!(action, ConfirmAction::ReadJob));
    assert_eq!(attempts, [1]);
    assert!(challenge.unwrap().used);
    run
}

fn waiting() -> ConfirmEvent {
    ConfirmEvent::Job {
        state: "waiting_push".to_string(),
        branch: "one".to_string(),
    }
}

#[test]
fn confirmed_push_runs_to_its_end() {
    let config = locked_config();
    let mut run = started(&config);
    assert_eq!(run.job_id, "job");
    let action = run.step(&config, waiting());
    assert!(matches!(
        action,
        ConfirmAction::Note {
            state: "pushing",
            summary: "正在校验远端并推送"
        }
    ));
    let ConfirmAction::Git(args) = run.step(&config, ConfirmEvent::Noted) else {
        panic!("the remote has to be asked");
    };
    assert_eq!(args, ["ls-remote", "--heads", "fork", "refs/heads/one"]);
    let head = output(0, "abc\trefs/heads/one\n");
    let action = run.step(&config, ConfirmEvent::Output(head));
    assert!(matches!(action, ConfirmAction::Push));
    let action = run.step(&config, ConfirmEvent::Pushed(Ok(())));
    assert!(matches!(action, ConfirmAction::RemoveWorktree));
    let ConfirmAction::End(ending) = run.step(&config, ConfirmEvent::Removed(Ok(()))) else {
        panic!("the push is over");
    };
    assert_eq!(ending.state, "completed");
    assert_eq!(ending.message, "completed: 人工确认的修改已推送");
    assert_eq!(ending.notice.unwrap().subject, "one 已推送");
    assert!(run.stage == ConfirmStage::Over);
}

#[test]
fn confirmed_push_stops_where_the_remote_moved() {
    let config = locked_config();
    let mut run = started(&config);
    run.step(&config, waiting());
    run.step(&config, ConfirmEvent::Noted);
    let moved = output(0, "def\trefs/heads/one\n");
    let ConfirmAction::Back { state, words, .. } = run.step(&config, ConfirmEvent::Output(moved))
    else {
        panic!("the push has to be refused");
    };
    assert_eq!(state, "waiting_push");
    assert_eq!(words, "远端 SHA 已变化，拒绝推送");
}

#[test]
fn confirmed_push_stops_at_each_fault() {
    let config = locked_config();
    let mut run = started(&config);
    let done = ConfirmEvent::Job {
        state: "completed".to_string(),
        branch: "one".to_string(),
    };
    let ConfirmAction::Fail(words) = run.step(&config, done) else {
        panic!("the job does not wait");
    };
    assert_eq!(words, "任务状态 completed 不允许执行该操作");

    let mut run = started(&config);
    run.step(&config, waiting());
    run.step(&config, ConfirmEvent::Noted);
    let ConfirmAction::Fail(words) = run.step(&config, ConfirmEvent::Output(output(2, ""))) else {
        panic!("the remote cannot be read");
    };
    assert_eq!(words, "failed to read remote head for fork/one");

    let mut run = started(&config);
    run.step(&config, waiting());
    let mut other = locked_config();
    other.branches.clear();
    let ConfirmAction::Fail(words) = run.step(&other, ConfirmEvent::Noted) else {
        panic!("the branch is gone");
    };
    assert_eq!(words, "分支不在白名单中：one");
}

#[test]
fn confirmation_is_refused_in_order() {
    let config = locked_config();
    let refuse = |attempts: &mut Vec<u64>, password: &str, challenge: &mut Option<Challenge>, now| {
        ConfirmRun::confirm_push(attempts, 10, &config, password, challenge, now)
            .map(|_| ())
            .unwrap_err()
    };
    let mut kept = challenge();
    let mut many = vec![1, 2, 3, 4, 5];
    assert_eq!(
        refuse(&mut many, "open sesame", &mut kept, 50),
        "操作密码尝试过于频繁，请稍后再试"
    );
    assert_eq!(many.len(), 5);
    let mut attempts = Vec::new();
    assert_eq!(refuse(&mut attempts, "wrong", &mut kept, 50), "操作密码错误");
    assert_eq!(attempts, [10]);
    assert!(!kept.as_ref().unwrap().used);
    assert_eq!(refuse(&mut attempts, "open sesame", &mut kept, 101), "推送挑战已经过期");
    assert_eq!(refuse(&mut attempts, "open sesame", &mut None, 50), "推送挑战不存在");
    kept.as_mut().unwrap().used = true;
    assert_eq!(refuse(&mut attempts, "open sesame", &mut kept, 50), "推送挑战已经使用");
}

fn options() -> Option<ConflictOptionsDecision> {
    let option = |id: &str, title: &str| ConflictOption {
        id: id.to_string(),
        title: title.to_string(),
        description: String::new(),
        tradeoffs: String::new(),
    };
    Some(ConflictOptionsDecision {
        classification: "functional".to_string(),
        summary: "two ways".to_string(),
        options: vec![option("keep", "Keep"), option("drop", "Drop")],
    })
}

#[test]
fn conversation_is_told_line_by_line() {
    assert_eq!(conflicts::conversation_text(&Vec::new()), "尚无人工补充要求");
    let message = |role: &str, content: &str| ConversationMessage {
        role: role.to_string(),
        content: content.to_string(),
        created_at: String::new(),
    };
    let told = conflicts::conversation_text(&vec![message("user", "a"), message("assistant", "b")]);
    assert_eq!(told, "user: a\nassistant: b");
    assert_eq!(
        conflicts::options_message(&options().unwrap()),
        "已生成 2 个方案：Keep、Drop"
    );
}

#[test]
fn guidance_needs_an_open_conflict() {
    assert!(conflicts::add_message("waiting_guidance").is_ok());
    assert!(conflicts::add_message("test_failed").is_ok());
    assert_eq!(
        conflicts::add_message("running").unwrap_err(),
        "任务状态 running 不允许执行该操作"
    );
    let files = vec!["a.rs".to_string()];
    let mark = |state: &str, files: &Vec<String>, options: &Option<_>, id: &str| {
        conflicts::mark_generating_proposal(state, files, options, id)
    };
    assert!(mark("waiting_guidance", &files, &options(), "drop").is_ok());
    assert!(mark("waiting_guidance", &Vec::new(), &options(), "drop").is_err());
    assert_eq!(
        mark("waiting_guidance", &files, &None, "drop").unwrap_err(),
        "当前任务没有可选方案"
    );
    assert_eq!(
        mark("waiting_guidance", &files, &options(), "other").unwrap_err(),
        "选择的方案不存在"
    );
    assert_eq!(conflicts::find_option(&options(), "drop").unwrap(), 1);
    assert!(conflicts::mark_applying("test_failed", true).is_ok());
    assert_eq!(
        conflicts::mark_applying("test_failed", false).unwrap_err(),
        "请先生成候选修改"
    );
}

#[test]
fn proposal_comes_from_the_decision() {
    let content = "a\n<<<<<<< HEAD\nup\n=======\nmine\n>>>>>>> patch\nz\n";
    let files = vec![ConflictFileContent {
        path: "a.rs".to_string(),
        content: content.to_string(),
    }];
    let block = extract_conflict_blocks(&files, 0).unwrap().remove(0);
    let decision = ConflictResolutionProposal {
        summary: "both".to_string(),
        resolutions: vec![ConflictResolution {
            path: "a.rs".to_string(),
            conflict_id: block.id,
            expected_sha256: block.expected_sha256,
            replacement: "up\nmine\n".to_string(),
        }],
    };
    let paths = vec!["a.rs".to_string()];
    let stored = conflicts::generate_proposal(
        &files,
        "both",
        SyncStrategy::Rebase,
        "please",
        Some(decision),
        &paths,
    )
    .unwrap();
    assert_eq!(stored.files[0].content, "a\nup\nmine\nz\n");
    assert_eq!(stored.summary, "both");
    assert_eq!(stored.requirements, "please");
    assert!(stored.diff.contains("-<<<<<<< HEAD"));
    let missing =
        conflicts::generate_proposal(&files, "both", SyncStrategy::Rebase, "", None, &paths);
    assert_eq!(missing.unwrap_err(), "DeepSeek 未启用");
}

fn row(id: &str, branch: &str, state: &str) -> JobRow {
    JobRow {
        id: id.to_string(),
        kind: "sync".to_string(),
        branch: branch.to_string(),
        state: state.to_string(),
        summary: String::new(),
        worktree_path: String::new(),
        created_at: String::new(),
        updated_at: String::new(),
    }
}

#[test]
fn overview_shows_the_current_job() {
    let rows = vec![row("1", "one", "completed"), row("2", "one", "running")];
    let heads = BranchHeads {
        local_head: Some("aaa".to_string()),
        upstream_head: Some("bbb".to_string()),
        remote_head: None,
        upstream: Some(AheadBehind { ahead: 1, behind: 2 }),
    };
    let view = branch_dashboard(&branch("one"), &heads, &rows);
    assert_eq!(view.current_job_id.as_deref(), Some("2"));
    assert_eq!(view.upstream_behind, Some(2));
    assert_eq!(view.note, "note");
    let views = vec![view];
    assert_eq!(branch_view(&views, "one").unwrap(), 0);
    assert!(branch_view(&views, "two").unwrap_err().contains("two"));
    let stats = ServiceStats {
        sync_total: 2,
        sync_completed: 1,
        sync_failed: 0,
        sync_conflict: 0,
        sync_active: 1,
        check_total: 0,
        job_total: 2,
    };
    let status = status_view(&config(), &rows, stats);
    assert_eq!((status.branch_count, status.active_jobs), (1, 1));
    let some = Some("x".to_string());
    let compared = compare_ref(&config(), &branch("one"), &None, &some, &some);
    assert_eq!(compared.as_deref(), Some("fork/one"));
    assert_eq!(compare_ref(&config(), &branch("one"), &some, &some, &None), None);
}

#[test]
fn requests_are_sized() {
    assert_eq!(handlers::add_message("  go on ").unwrap(), "go on");
    assert_eq!(handlers::add_message("   ").unwrap_err().status, 400);
    assert!(handlers::generate_proposal(&"字".repeat(4000)).is_ok());
    assert!(handlers::generate_proposal(&"字".repeat(4001)).is_err());
    assert!(matches!(retry_job("check"), Ok(Retry::Check)));
    assert!(matches!(retry_job("sync"), Ok(Retry::Sync)));
    assert_eq!(retry_job("other").unwrap_err().message, "只支持重试 check 或 sync 任务");
    let mut request = ProtectionInvestigationRequest {
        summary: "s".to_string(),
        reference: None,
        content: "c".to_string(),
        branch: None,
    };
    assert_eq!(start_protection_investigation(&config(), &request).unwrap(), "*");
    request.branch = Some("nowhere".to_string());
    let refusal = start_protection_investigation(&config(), &request).unwrap_err();
    assert_eq!(refusal.message, "测试分支不在白名单中");
}

#[test]
fn jobs_are_given_up_and_cleaned() {
    assert!(abandon("failed").is_ok());
    assert!(abandon("running").is_err());
    assert_eq!(remove_worktree(""), None);
    assert_eq!(
        remove_worktree("/w").unwrap(),
        ["worktree", "remove", "--force", "/w"]
    );
    assert_eq!(configured_branch(&config(), "one").unwrap(), 0);
    assert_eq!(configured_branch(&config(), "x").unwrap_err(), "分支不在白名单中：x");
    let mut config = config();
    config.service.public_dashboard_url = "https://b.example/".to_string();
    assert_eq!(dashboard_link(&config, "7"), "https://b.example?job=7");
    assert!(capture_limit(&branch("one")) >= branch("one").auto_resolve.max_file_bytes);
}
