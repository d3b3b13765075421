use termiters::watch::github::{
    action_run_id, bound_evidence, bounded_terminal_tail, bounded_terminal_text, log_args,
    log_evidence, normalize_activity, normalize_checks, normalize_repository, read_lifecycle,
    read_repositories, read_user, run_gh_json, GithubCollector, RepositorySource, WatchGithubConfig,
};
use termiters::command::CommandOutput;
use termiters::watch::model::{
    CheckSnapshot, PullRequestLifecycle, PullRequestSnapshot, WatchEvent, WatchScanReport, WatchTask,
};
use termiters::watch::store::{
    claim_due_tasks, finish_task_run, initialized_key, insert_event, needs_migration, next_delay,
    save_task, set_task_state, upsert_snapshot,
};
use termiters::watch::{
    describe_changes, render_events, render_scan_report, render_status, NewEvent, ScanAction,
    ScanEvent, WatchRunner,
};

fn snapshot() -> PullRequestSnapshot {
    PullRequestSnapshot {
        repository: "owner/repo".to_string(),
        number: 1,
        title: "test".to_string(),
        url: "url".to_string(),
        is_draft: true,
        head_ref_name: "fix/test".to_string(),
        head_oid: "aaaaaaaa".to_string(),
        base_ref_name: "main".to_string(),
        merge_state: "BEHIND".to_string(),
        review_decision: String::new(),
        updated_at: "now".to_string(),
        checks: Vec::new(),
    }
}

fn check(name: &str, status: &str, conclusion: &str) -> CheckSnapshot {
    CheckSnapshot {
        name: name.to_string(),
        status: status.to_string(),
        conclusion: conclusion.to_string(),
        details_url: "url".to_string(),
    }
}

fn collector(owner: &str, author: &str, repositories: &[&str]) -> GithubCollector {
    GithubCollector::new(WatchGithubConfig {
        owner: owner.to_string(),
        author: author.to_string(),
        repositories: repositories.iter().map(|name| name.to_string()).collect(),
    })
}

#[test]
fn change_description_reports_material_state() {
    let previous = snapshot();
    let mut current = snapshot();
    current.head_oid = "bbbbbbbb".to_string();
    current.merge_state = "BLOCKED".to_string();
    current.checks.push(check("build", "COMPLETED", "FAILURE"));
    let changes = describe_changes(&previous, &current);
    assert!(changes.contains("head aaaaaaaa → bbbbbbbb"));
    assert!(changes.contains("合并状态 BEHIND → BLOCKED"));
    assert!(changes.contains("失败 1"));
}

#[test]
fn every_change_has_its_words() {
    let previous = snapshot();
    let mut current = snapshot();
    current.title = "new".to_string();
    assert_eq!(describe_changes(&previous, &current), "PR 元数据已更新");
    current.is_draft = false;
    current.review_decision = "APPROVED".to_string();
    assert_eq!(
        describe_changes(&previous, &current),
        "Draft true → false；审查 未决定 → APPROVED"
    );
    current.head_oid = "0123456789".to_string();
    assert!(describe_changes(&previous, &current).starts_with("head aaaaaaaa → 01234567；"));
}

#[test]
fn checks_are_counted_once() {
    let mut pull = snapshot();
    pull.checks = vec![
        check("a", "completed", "success"),
        check("b", "COMPLETED", "TIMED_OUT"),
        check("c", "IN_PROGRESS", ""),
        check("d", "COMPLETED", "SKIPPED"),
        check("e", "ERROR", ""),
    ];
    let summary = pull.check_summary();
    assert_eq!(
        (
            summary.passed,
            summary.failed,
            summary.pending,
            summary.neutral
        ),
        (1, 2, 1, 1)
    );
    assert_eq!(
        summary.render(),
        "通过 1 / 失败 2 / 进行中 1 / 其他 1"
    );
    assert_eq!(pull.key(), "owner/repo#1");
}

#[test]
fn repository_name_uses_owner_only_when_needed() {
    assert_eq!(
        normalize_repository("D-Nine-Chain", "d9-v2-node"),
        "D-Nine-Chain/d9-v2-node"
    );
    assert_eq!(
        normalize_repository("ignored", "KKBK-233/TermiteRS"),
        "KKBK-233/TermiteRS"
    );
}

#[test]
fn checks_normalize_check_runs_and_status_contexts() {
    let checks = vec![
        r#"{"__typename":"CheckRun","name":"build","status":"COMPLETED","conclusion":"FAILURE","detailsUrl":"https://example/build"}"#.to_string(),
        r#"{"__typename":"StatusContext","context":"CodeRabbit","state":"SUCCESS","targetUrl":"https://example/review"}"#.to_string(),
    ];
    let normalized = normalize_checks(&checks);
    assert_eq!(normalized.len(), 2);
    assert_eq!(normalized[0].name, "CodeRabbit");
    assert_eq!(normalized[1].conclusion, "FAILURE");
    assert_eq!(normalized[0].status, "SUCCESS");
    assert_eq!(normalized[0].details_url, "https://example/review");
}

#[test]
fn extracts_action_run_id_only_from_numeric_github_path() {
    assert_eq!(
        action_run_id("https://github.com/o/r/actions/runs/123/job/456"),
        Some("123".to_string())
    );
    assert_eq!(
        action_run_id("https://example.com/actions/runs/not-a-number"),
        None
    );
    assert_eq!(action_run_id("https://example.com/actions/runs/"), None);
    assert_eq!(action_run_id("https://example.com/"), None);
}

#[test]
fn activity_keeps_only_new_untrusted_evidence() {
    let value = r#"{
        "data": {"repository": {"pullRequest": {
            "comments": {"nodes": [
                {"author":{"login":"bot"},"body":"old","createdAt":"2026-09-16T00:00:00Z","url":"old"},
                {"author":{"login":"bot"},"body":"new instruction","createdAt":"2026-09-17T00:00:00Z","url":"new"}
            ]},
            "reviews": {"nodes": []},
            "reviewThreads": {"nodes": [
                {"isResolved":false,"comments":{"nodes":[
                    {"author":{"login":"colleague"},"body":"finding","createdAt":"2026-09-17T01:00:00Z","url":"thread"}
                ]}}
            ]}
        }}}
    }"#;
    let activity = normalize_activity(value, "2026-09-16T12:00:00Z");
    assert_eq!(activity.len(), 2);
    assert!(activity[0].contains("new instruction"));
    assert!(activity[1].contains("未解决审查线程"));
    assert_eq!(
        activity[0],
        "评论 bot 2026-09-17T00:00:00Z new：\nnew instruction"
    );
    assert!(normalize_activity("no json", "").is_empty());
}

#[test]
fn evidence_removes_terminal_control_sequences() {
    assert_eq!(
        bounded_terminal_text("ok\u{1b}[31m\nnext", 100),
        "ok[31m\nnext"
    );
    let tail = bounded_terminal_tail(&format!("{}最终错误", "前文".repeat(100)), 80);
    assert!(tail.contains("最终错误"));
    assert!(tail.len() <= 80);
}

#[test]
fn evidence_fits_in_its_limit() {
    let items = vec!["abc".to_string(), "错误".to_string(), "rest".to_string()];
    assert_eq!(bound_evidence(&items, 7), vec!["abc", "错", "r"]);
    assert_eq!(bound_evidence(&items, 3), vec!["abc"]);
    assert_eq!(bounded_terminal_tail("short", 80), "short");
    assert_eq!(
        log_evidence("7", &Err("denied".to_string())),
        "GitHub Actions run 7 失败日志读取失败：denied"
    );
    assert_eq!(
        log_evidence("7", &Ok("boom".to_string())),
        "GitHub Actions run 7 失败日志：\nboom"
    );
    assert_eq!(
        log_args("o/r", "7"),
        vec!["run", "view", "7", "--repo", "o/r", "--log-failed"]
    );
}

#[test]
fn the_logs_of_three_failed_runs_are_read() {
    let mut pull = snapshot();
    for (id, conclusion) in [
        ("9", "FAILURE"),
        ("7", "FAILURE"),
        ("7", "CANCELLED"),
        ("8", "SUCCESS"),
        ("5", "FAILURE"),
        ("6", "FAILURE"),
    ] {
        let mut item = check("build", "COMPLETED", conclusion);
        item.details_url = format!("https://github.com/o/r/actions/runs/{id}/job/1");
        pull.checks.push(item);
    }
    let collector = collector("", "", &[]);
    assert_eq!(collector.failed_check_logs(&pull), vec!["5", "6", "7"]);
    let other = snapshot();
    assert_eq!(collector.wanted_evidence(&other, &pull), (false, true));
    assert_eq!(
        collector.change_evidence(vec!["a".to_string()], &vec!["b".to_string()]),
        vec!["a", "b"]
    );
}

#[test]
fn the_collector_asks_what_is_not_configured() {
    assert_eq!(
        collector("", " me ", &[]).current_user(),
        Some("me".to_string())
    );
    assert_eq!(collector("", " ", &[]).current_user(), None);
    match collector("own", "", &["a", "b/c"]).repositories().unwrap() {
        RepositorySource::Listed(list) => assert_eq!(list, vec!["own/a", "b/c"]),
        other => panic!("{other:?}"),
    }
    match collector(" own ", "", &[]).repositories().unwrap() {
        RepositorySource::Ask(args) => assert_eq!(args[2], "own"),
        other => panic!("{other:?}"),
    }
    assert_eq!(
        collector(" ", "", &[]).repositories().unwrap_err(),
        "watch.github.owner 与 repositories 不能同时为空"
    );
    let args = collector("", "", &[]).recent_activity_since("o/r", 7).unwrap();
    assert_eq!(args[5], "owner=o");
    assert_eq!(args[7], "name=r");
    assert_eq!(args[9], "number=7");
    assert!(collector("", "", &[]).recent_activity_since("o", 7).is_err());
}

#[test]
fn answers_of_gh_are_read() {
    assert_eq!(read_user("{\"login\":\"me\"}").unwrap(), "me");
    assert_eq!(read_user("{}").unwrap_err(), "gh api user 未返回 login");
    assert_eq!(
        read_repositories(
            r#"[{"nameWithOwner":"o/a","isArchived":false},{"nameWithOwner":"o/b","isArchived":true},{"nameWithOwner":"o/c"}]"#
        )
        .unwrap(),
        vec!["o/a", "o/c"]
    );
    assert!(read_repositories("{}").is_err());
    let end = read_lifecycle(r#"{"state":"MERGED","mergedAt":"then","title":"t"}"#);
    assert_eq!(end.state, "MERGED");
    assert_eq!(end.merged_at, "then");
    assert_eq!(end.closed_at, "");
    assert_eq!(read_lifecycle("{}").state, "UNKNOWN");
    let args = vec!["api".to_string(), "user".to_string()];
    let failed = CommandOutput {
        status: 1,
        stdout: String::new(),
        stderr: " no login \n".to_string(),
    };
    assert_eq!(
        run_gh_json(&args, &failed).unwrap_err(),
        "gh api user 失败：no login"
    );
    let broken = CommandOutput {
        status: 0,
        stdout: "{".to_string(),
        stderr: String::new(),
    };
    assert!(run_gh_json(&args, &broken)
        .unwrap_err()
        .starts_with("gh 输出不是有效 JSON: "));
}

fn runner() -> WatchRunner {
    WatchRunner::new(true, collector("", "", &[]), "/data".to_string())
}

#[test]
fn the_first_scan_takes_stock() {
    let (mut run, action) = runner().scan(vec!["owner/repo".to_string()], false, Vec::new());
    assert!(matches!(action, ScanAction::Pulls(name) if name == "owner/repo"));
    let action = run.step(ScanEvent::Pulls(Ok(vec![snapshot()])));
    assert!(matches!(action, ScanAction::Lookup(key) if key == "owner/repo#1"));
    let action = run.step(ScanEvent::Known(None));
    assert!(matches!(action, ScanAction::Upsert(_)));
    let action = run.step(ScanEvent::Stored);
    assert!(matches!(action, ScanAction::Mark));
    match run.step(ScanEvent::Stored) {
        ScanAction::Finished(report) => {
            assert!(report.initial_baseline);
            assert_eq!(report.events_created, 0);
            assert_eq!(report.pull_requests_observed, 1);
            assert!(render_scan_report(&report).contains("只建立基线"));
        }
        _ => panic!("the scan should be over"),
    }
}

#[test]
fn a_later_scan_tells_of_changes_and_ends() {
    let mut gone = snapshot();
    gone.number = 2;
    let (mut run, _) = runner().scan(
        vec!["owner/repo".to_string(), "owner/down".to_string()],
        true,
        vec![snapshot(), gone],
    );
    let mut moved = snapshot();
    moved.head_oid = "cccccccc".to_string();
    run.step(ScanEvent::Pulls(Ok(vec![moved])));
    match run.step(ScanEvent::Known(Some(snapshot()))) {
        ScanAction::Insert(event) => {
            assert_eq!(event.kind, "github-pr-changed");
            assert_eq!(event.summary, "head aaaaaaaa → cccccccc");
            assert!(event.material.starts_with("{\"repository\":\"owner/repo\",\"number\":1,"));
        }
        _ => panic!("an event was expected"),
    }
    run.step(ScanEvent::Inserted(true));
    let action = run.step(ScanEvent::Stored);
    assert!(matches!(action, ScanAction::Pulls(name) if name == "owner/down"));
    let action = run.step(ScanEvent::Pulls(Err("no answer".to_string())));
    assert!(matches!(action, ScanAction::Lifecycle(name, 2) if name == "owner/repo"));
    let action = run.step(ScanEvent::Lifecycle(Ok(PullRequestLifecycle {
        state: "MERGED".to_string(),
        merged_at: "then".to_string(),
        closed_at: String::new(),
        url: "url".to_string(),
        title: "t".to_string(),
    })));
    match action {
        ScanAction::Insert(event) => {
            assert_eq!(event.kind, "github-pr-merged");
            assert_eq!(event.summary, "个人 PR 已合并：t");
            assert_eq!(event.material, "then");
        }
        _ => panic!("an event was expected"),
    }
    let action = run.step(ScanEvent::Inserted(false));
    assert!(matches!(action, ScanAction::Delete(key) if key == "owner/repo#2"));
    assert!(matches!(run.step(ScanEvent::Stored), ScanAction::Mark));
    match run.step(ScanEvent::Stored) {
        ScanAction::Finished(report) => {
            assert_eq!(report.events_created, 1);
            assert_eq!(report.warnings, vec!["owner/down: no answer"]);
        }
        _ => panic!("the scan should be over"),
    }
}

#[test]
fn an_unseen_but_open_pull_request_is_kept() {
    let (mut run, _) = runner().scan(vec!["owner/repo".to_string()], true, vec![snapshot()]);
    run.step(ScanEvent::Pulls(Ok(Vec::new())));
    let action = run.step(ScanEvent::Lifecycle(Ok(PullRequestLifecycle {
        state: "OPEN".to_string(),
        merged_at: String::new(),
        closed_at: String::new(),
        url: String::new(),
        title: String::new(),
    })));
    assert!(matches!(action, ScanAction::Mark));
    assert_eq!(run.report.warnings.len(), 1);
    let action = run.step(ScanEvent::Failed("disk full".to_string()));
    assert!(matches!(action, ScanAction::Fail(words) if words == "disk full"));
}

#[test]
fn nothing_is_scanned_while_watching_is_off() {
    let off = WatchRunner::new(false, collector("", "", &[]), String::new());
    assert_eq!(off.ensure_enabled().unwrap_err(), "watch.enabled 尚未启用");
    assert!(runner().ensure_enabled().is_ok());
}

#[test]
fn reports_are_rendered() {
    let empty = WatchScanReport {
        repositories_scanned: 2,
        pull_requests_observed: 0,
        events_created: 0,
        initial_baseline: false,
        warnings: Vec::new(),
        pull_requests: Vec::new(),
    };
    assert_eq!(
        render_scan_report(&empty),
        "扫描仓库：2\n个人 open PR：0\n新增事件：0"
    );
    assert_eq!(
        render_status(&Vec::new()),
        "尚无个人 PR 快照，请先运行 watch scan。"
    );
    assert_eq!(
        render_status(&vec![snapshot()]),
        "owner/repo#1 test\n  BEHIND | review: 未决定 | CI: 通过 0 / 失败 0 / 进行中 0 / 其他 0\n  url"
    );
    assert_eq!(render_events(&Vec::new()), "暂无状态变化事件。");
}

fn event() -> NewEvent {
    NewEvent {
        entity_key: "owner/repo#7".to_string(),
        kind: "changed",
        summary: "changed".to_string(),
        evidence_url: "url".to_string(),
        material: "v1".to_string(),
    }
}

fn task(name: &str, next_run_at: &str) -> WatchTask {
    WatchTask {
        id: format!("id-{name}"),
        name: name.to_string(),
        prompt: "持续追踪".to_string(),
        owner: "D-Nine-Chain".to_string(),
        author: "KKBK-233".to_string(),
        repositories: Vec::new(),
        interval_seconds: 600,
        instructions: "只读".to_string(),
        state: "active".to_string(),
        last_run_at: String::new(),
        last_result: String::new(),
        next_run_at: next_run_at.to_string(),
        created_at: "created".to_string(),
        updated_at: "created".to_string(),
    }
}

#[test]
fn snapshot_event_and_task_writes_are_idempotent() {
    let row = upsert_snapshot("task-1", &snapshot(), "now");
    assert_eq!(row.entity_key, "owner/repo#1");
    assert_eq!(row.fingerprint.len(), 64);
    let parsed: serde_json::Value = serde_json::from_str(&row.snapshot_json).unwrap();
    assert_eq!(parsed["head_oid"], "aaaaaaaa");
    assert_eq!(parsed["is_draft"], true);
    let mut events: Vec<WatchEvent> = Vec::new();
    assert!(insert_event(&mut events, "1", "task-1", &event(), "now"));
    assert!(!insert_event(&mut events, "2", "task-1", &event(), "later"));
    assert!(insert_event(&mut events, "3", "task-2", &event(), "later"));
    assert_eq!(events.len(), 2);
    assert!(render_events(&events).starts_with("now [changed] owner/repo#7\n"));

    let saved = save_task(task("个人 D9", "2026-01-01"), None, "now");
    assert_eq!(saved.name, "个人 D9");
    let again = save_task(task("个人 D9", "2026-02-01"), Some(&saved), "later");
    assert_eq!(again.id, saved.id);
    assert_eq!(again.updated_at, "later");
    let mut tasks = vec![saved];
    assert_eq!(
        claim_due_tasks(&mut tasks, "2026-01-02", "2026-01-03").len(),
        1
    );
    assert!(claim_due_tasks(&mut tasks, "2026-01-02", "2026-01-03").is_empty());
}

#[test]
fn those_that_waited_longest_are_claimed_first() {
    let mut tasks = vec![
        task("late", "2026-01-03"),
        task("first", "2026-01-01"),
        task("second", "2026-01-02"),
        task("future", "2027-01-01"),
    ];
    set_task_state(&mut tasks[2], "paused", "now");
    assert_eq!(
        claim_due_tasks(&mut tasks, "2026-06-01", "2026-06-02"),
        vec![1, 0]
    );
    assert_eq!(tasks[3].next_run_at, "2027-01-01");
    assert_eq!(tasks[2].next_run_at, "2026-01-02");
    assert_eq!(next_delay(&tasks[0], false), 600);
    assert_eq!(next_delay(&tasks[0], true), 60);
    tasks[0].interval_seconds = 5;
    assert_eq!(next_delay(&tasks[0], false), 60);
    finish_task_run(&mut tasks[0], "ok", "then", "soon");
    assert_eq!(tasks[0].last_result, "ok");
    assert_eq!(tasks[0].next_run_at, "soon");
    assert_eq!(initialized_key("config"), "initialized:config");
    assert!(needs_migration(true, false));
    assert!(!needs_migration(true, true));
}
