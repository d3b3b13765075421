use termiters::command::CommandOutput;
use termiters::config::{
    AutoResolveConfig, BranchConfig, BranchKind, PushStrategy, ReleaseConfig, RepoConfig,
    SyncStrategy,
};
use termiters::conflict::ResolvedFile;
use termiters::git::ConflictSnapshot;
use termiters::report::{BranchReport, BranchStatus, SyncReport};
use termiters::sync::{
    notify_if_needed, path_is_allowed, short_head, validate_auto_resolve_decision,
    AutoResolveDecision, SyncAction, SyncEvent, SyncOptions, SyncRun,
};

fn repo() -> RepoConfig {
    RepoConfig {
        path: "/repo".to_string(),
        upstream: "https://example.invalid/up".to_string(),
        fork: "https://example.invalid/fork".to_string(),
        base_branch: "main".to_string(),
        upstream_remote: "upstream".to_string(),
        fork_remote: "fork".to_string(),
    }
}

fn branch(push: PushStrategy, tests: &[&str]) -> BranchConfig {
    BranchConfig {
        name: "my/work".to_string(),
        kind: BranchKind::Product,
        note: None,
        sync: SyncStrategy::Rebase,
        push,
        tests: tests.iter().map(|test| test.to_string()).collect(),
        require_behavioral_tests: false,
        auto_resolve: AutoResolveConfig::default(),
        release: ReleaseConfig::default(),
    }
}

fn output(status: i32, stdout: &str) -> SyncEvent {
    SyncEvent::Output(CommandOutput {
        status,
        stdout: stdout.to_string(),
        stderr: String::new(),
    })
}

#[test]
fn allowed_path_does_not_match_neighbor_prefix() {
    let allowed = vec!["src".to_string()];

    assert!(path_is_allowed("src/char/Linnai.py", &allowed));
    assert!(!path_is_allowed("src2/char/Linnai.py", &allowed));
}

#[test]
fn auto_resolve_rejects_conflict_markers() {
    let decision = AutoResolveDecision {
        risk: "low".to_string(),
        summary: "test".to_string(),
        files: vec![ResolvedFile {
            path: "src/char/Linnai.py".to_string(),
            content: "<<<<<<< HEAD\nx\n>>>>>>> upstream".to_string(),
        }],
    };
    let conflict_files = vec!["src/char/Linnai.py".to_string()];

    assert!(validate_auto_resolve_decision(&decision, &conflict_files).is_err());
}

#[test]
fn a_resolution_covers_the_files_in_conflict() {
    let mut decision = AutoResolveDecision {
        risk: "low".to_string(),
        summary: "test".to_string(),
        files: vec![ResolvedFile {
            path: "a.py".to_string(),
            content: "x\n".to_string(),
        }],
    };
    assert!(validate_auto_resolve_decision(&decision, &vec!["a.py".to_string()]).is_ok());
    assert!(validate_auto_resolve_decision(&decision, &vec!["b.py".to_string()]).is_err());
    decision.files.clear();
    assert!(validate_auto_resolve_decision(&decision, &vec!["a.py".to_string()]).is_err());
}

/// Runs a synchronisation up to the point where the commits are rebased.
fn until_sync(branch: &BranchConfig, remote: &str) -> (SyncRun, SyncAction) {
    let repo = repo();
    let (mut run, action) = SyncRun::sync_branch(branch, false);
    assert!(matches!(action, SyncAction::Git(args) if args == ["checkout", "my/work"]));
    run.step(&repo, branch, output(0, ""));
    run.step(&repo, branch, output(0, "aaa\n"));
    run.step(&repo, branch, output(0, "bbb\n"));
    run.step(&repo, branch, output(0, "ccc\n"));
    run.step(&repo, branch, output(0, "111 first\n222 second\n"));
    let action = run.step(&repo, branch, output(0, remote));
    (run, action)
}

#[test]
fn a_branch_is_rebased_tested_and_pushed() {
    let repo = repo();
    let branch = branch(PushStrategy::ForceWithLease, &["make test"]);
    let (mut run, action) = until_sync(&branch, "ddd\trefs/heads/my/work\n");
    assert!(matches!(action, SyncAction::Git(args) if args == ["rebase", "upstream/main"]));
    let action = run.step(&repo, &branch, output(0, ""));
    assert!(matches!(action, SyncAction::Test(command) if command == "make test"));
    run.step(&repo, &branch, output(0, ""));
    run.step(&repo, &branch, output(0, "eee\n"));
    run.step(&repo, &branch, output(0, "333 mine\n"));
    run.step(&repo, &branch, output(0, "a.rs\n"));
    run.step(&repo, &branch, output(0, ""));
    let action = run.step(&repo, &branch, output(0, "ddd\trefs/heads/my/work\n"));
    assert!(matches!(action, SyncAction::Git(args) if args == [
        "push",
        "--force-with-lease=refs/heads/my/work:ddd",
        "fork",
        "HEAD:refs/heads/my/work",
    ]));
    match run.step(&repo, &branch, output(0, "")) {
        SyncAction::Done(report) => {
            assert_eq!(report.status, BranchStatus::Success);
            assert_eq!(report.head.as_deref(), Some("eee"));
            assert!(report.activity);
            assert!(report
                .details
                .contains(&"1 test command(s) passed".to_string()));
            assert!(report
                .details
                .contains(&"pushed to fork/my/work".to_string()));
        }
        _ => panic!("the synchronisation should be done"),
    }
}

#[test]
fn a_remote_that_moved_is_not_overwritten() {
    let repo = repo();
    let branch = branch(PushStrategy::Normal, &[]);
    let (mut run, _) = until_sync(&branch, "ddd\trefs/heads/my/work\n");
    run.step(&repo, &branch, output(0, ""));
    run.step(&repo, &branch, output(0, "eee\n"));
    run.step(&repo, &branch, output(0, ""));
    run.step(&repo, &branch, output(0, ""));
    run.step(&repo, &branch, output(0, ""));
    match run.step(&repo, &branch, output(0, "fff\trefs/heads/my/work\n")) {
        SyncAction::Done(report) => {
            assert_eq!(report.status, BranchStatus::Failed);
            assert!(report
                .details
                .contains(&"push blocked: remote branch changed before push".to_string()));
        }
        _ => panic!("the push should be refused"),
    }
}

#[test]
fn nothing_is_pushed_where_the_configuration_says_never() {
    let repo = repo();
    let branch = branch(PushStrategy::Never, &[]);
    let (mut run, _) = until_sync(&branch, "");
    run.step(&repo, &branch, output(0, ""));
    run.step(&repo, &branch, output(0, "eee\n"));
    run.step(&repo, &branch, output(0, ""));
    match run.step(&repo, &branch, output(0, "")) {
        SyncAction::Done(report) => {
            assert_eq!(report.status, BranchStatus::Success);
            assert!(report
                .details
                .contains(&"push skipped by config".to_string()));
            assert!(report
                .details
                .contains(&"no tests configured".to_string()));
        }
        _ => panic!("the synchronisation should be done"),
    }
}

#[test]
fn a_failed_test_stops_the_branch() {
    let repo = repo();
    let branch = branch(PushStrategy::Normal, &["make test", "make lint"]);
    let (mut run, _) = until_sync(&branch, "");
    run.step(&repo, &branch, output(0, ""));
    let action = run.step(&repo, &branch, output(0, ""));
    assert!(matches!(action, SyncAction::Test(command) if command == "make lint"));
    match run.step(&repo, &branch, output(2, "")) {
        SyncAction::Done(report) => {
            assert_eq!(report.status, BranchStatus::Failed);
            assert_eq!(report.details[0], "test failed: make lint");
            assert_eq!(report.details[1], "exit code: 2");
        }
        _ => panic!("the failure should be reported"),
    }
}

#[test]
fn a_conflict_is_left_where_nobody_may_resolve_it() {
    let repo = repo();
    let branch = branch(PushStrategy::Normal, &[]);
    let (mut run, _) = until_sync(&branch, "");
    let action = run.step(&repo, &branch, output(1, ""));
    assert!(matches!(action, SyncAction::ReadConflict));
    let action = run.step(
        &repo,
        &branch,
        SyncEvent::Snapshot(ConflictSnapshot {
            status: "UU a.rs".to_string(),
            files: vec!["a.rs".to_string()],
            combined_diff: String::new(),
        }),
    );
    assert!(matches!(action, SyncAction::Abort));
    let action = run.step(&repo, &branch, SyncEvent::Aborted);
    assert!(matches!(action, SyncAction::AskAnalysis));
    match run.step(&repo, &branch, SyncEvent::Analysis(Ok(None))) {
        SyncAction::Done(report) => {
            assert_eq!(report.status, BranchStatus::Conflict);
            assert!(report
                .details
                .contains(&"conflict files: a.rs".to_string()));
            assert!(report
                .details
                .contains(&"LLM analysis skipped".to_string()));
            assert!(notify_if_needed(&report).is_some());
        }
        _ => panic!("the conflict should be reported"),
    }
}

#[test]
fn only_a_low_risk_is_taken_over() {
    let repo = repo();
    let mut branch = branch(PushStrategy::Never, &["make test"]);
    branch.auto_resolve.enabled = true;
    branch.auto_resolve.allowed_paths = vec!["src".to_string()];
    for (risk, taken) in [("LOW", true), ("medium", false)] {
        let (mut run, _) = until_sync(&branch, "");
        run.step(&repo, &branch, output(1, ""));
        let action = run.step(
            &repo,
            &branch,
            SyncEvent::Snapshot(ConflictSnapshot {
                status: String::new(),
                files: vec!["src/a.rs".to_string()],
                combined_diff: String::new(),
            }),
        );
        assert!(matches!(action, SyncAction::AskModel));
        let action = run.step(
            &repo,
            &branch,
            SyncEvent::Decision(Ok(Some(AutoResolveDecision {
                risk: risk.to_string(),
                summary: "both".to_string(),
                files: vec![ResolvedFile {
                    path: "src/a.rs".to_string(),
                    content: "x\n".to_string(),
                }],
            }))),
        );
        assert_eq!(matches!(action, SyncAction::WriteFile(0)), taken);
        assert_eq!(matches!(action, SyncAction::Abort), !taken);
    }
}

#[test]
fn a_report_tells_of_each_branch() {
    let mut report = SyncReport::default();
    assert!(!report.has_activity());
    report.push(
        BranchReport::new("my/work", BranchKind::Product, BranchStatus::Success)
            .detail("in step")
            .active(),
    );
    assert!(report.has_activity());
    let text = report.render_text();
    assert!(text.contains("my/work"));
    assert!(text.contains("in step"));
    assert_eq!(short_head("0123456789abcdef"), "01234567");
    assert!(SyncOptions::status_only().branch.is_none());
}
