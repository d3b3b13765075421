use termiters::autonomy::local_task::{
    check_path, LocalTaskRunner, LocalTaskState, LocalTaskStep, TaskAction, TaskEvent,
};
use termiters::autonomy::task_report::{
    is_report_file, one_line, redact_exact_values, render_report, render_report_list, TaskReport,
    TaskReportConfig, TaskReportOutcome, TaskReportStore,
};
use termiters::autonomy::{AutonomyAction, AutonomyConfig, AutonomyTarget, PermissionMode};
use termiters::command::CommandOutput;
use termiters::config::{
    AutoResolveConfig, BranchConfig, BranchKind, Config, DaemonConfig, ProtectionConfig,
    PushStrategy, ReleaseConfig, RepoConfig, ServiceConfig, SyncStrategy,
};
use termiters::table::TextTable;

fn config(root: &str) -> Config {
    Config {
        repo: RepoConfig {
            path: root.to_string(),
            upstream: "unused".to_string(),
            fork: "unused".to_string(),
            base_branch: "master".to_string(),
            upstream_remote: "upstream".to_string(),
            fork_remote: "fork".to_string(),
        },
        branches: vec![BranchConfig {
            name: "main".to_string(),
            kind: BranchKind::Product,
            note: None,
            sync: SyncStrategy::Rebase,
            push: PushStrategy::Never,
            tests: vec!["echo fixture".to_string()],
            require_behavioral_tests: false,
            auto_resolve: AutoResolveConfig::default(),
            release: ReleaseConfig::default(),
        }],
        daemon: DaemonConfig::default(),
        llm: None,
        notify: None,
        service: ServiceConfig::default(),
        protection: ProtectionConfig::default(),
    }
}

fn places(paths: &[(&str, &str)]) -> TextTable {
    let mut table = TextTable::new();
    for (path, place) in paths {
        table.put(path.to_string(), place.to_string());
    }
    table
}

fn policy() -> AutonomyConfig {
    let mut policy = AutonomyConfig::default();
    policy.enabled = true;
    policy.scope.local_repositories = vec!["/repo".to_string()];
    policy.permissions.local_read = PermissionMode::Allow;
    policy.permissions.run_tests = PermissionMode::Deny;
    policy
}

fn ok(stdout: &str) -> TaskEvent {
    TaskEvent::Output(CommandOutput {
        status: 0,
        stdout: stdout.to_string(),
        stderr: String::new(),
    })
}

#[test]
fn default_policy_does_not_grant_automatic_writes() {
    let mut config = AutonomyConfig::default();
    assert_eq!(
        config.gate(AutonomyAction::GithubRead),
        PermissionMode::Deny
    );
    config.enabled = true;
    assert_eq!(
        config.gate(AutonomyAction::GithubRead),
        PermissionMode::Allow
    );
    assert_eq!(config.gate(AutonomyAction::EditCode), PermissionMode::Ask);
    assert_eq!(
        config.gate(AutonomyAction::PushBranch),
        PermissionMode::Deny
    );
    assert_eq!(config.gate(AutonomyAction::MergePr), PermissionMode::Deny);
}

#[test]
fn every_permission_is_independently_configurable() {
    let mut config = AutonomyConfig::default();
    config.enabled = true;
    config.permissions.github_read = PermissionMode::Deny;
    config.permissions.linear_read = PermissionMode::Allow;
    config.permissions.edit_code = PermissionMode::Allow;
    config.permissions.run_tests = PermissionMode::Deny;
    config.permissions.local_commit = PermissionMode::Ask;
    config.permissions.push_branch = PermissionMode::Allow;
    config.permissions.github_reply = PermissionMode::Ask;
    config.permissions.linear_write = PermissionMode::Deny;
    config.permissions.merge_pr = PermissionMode::Allow;
    assert_eq!(
        config.gate(AutonomyAction::GithubRead),
        PermissionMode::Deny
    );
    assert_eq!(
        config.gate(AutonomyAction::LinearRead),
        PermissionMode::Allow
    );
    assert_eq!(config.gate(AutonomyAction::EditCode), PermissionMode::Allow);
    assert_eq!(config.gate(AutonomyAction::RunTests), PermissionMode::Deny);
    assert_eq!(
        config.gate(AutonomyAction::LocalCommit),
        PermissionMode::Ask
    );
    assert_eq!(
        config.gate(AutonomyAction::PushBranch),
        PermissionMode::Allow
    );
    assert_eq!(
        config.gate(AutonomyAction::GithubReply),
        PermissionMode::Ask
    );
    assert_eq!(
        config.gate(AutonomyAction::LinearWrite),
        PermissionMode::Deny
    );
    assert_eq!(config.gate(AutonomyAction::MergePr), PermissionMode::Allow);
}

#[test]
fn allow_still_requires_matching_personal_scope() {
    let mut config = AutonomyConfig {
        enabled: true,
        ..AutonomyConfig::default()
    };
    config.permissions.github_reply = PermissionMode::Allow;
    config.scope.github_owners = vec!["D-Nine-Chain".to_string()];
    config.scope.github_author = "KKBK-233".to_string();
    assert_eq!(
        config.authorize(
            AutonomyAction::GithubReply,
            AutonomyTarget::Github {
                repository: "D-Nine-Chain/d9-v2-pallets",
                author: "KKBK-233",
            },
        ),
        PermissionMode::Allow
    );
    assert_eq!(
        config.authorize(
            AutonomyAction::GithubReply,
            AutonomyTarget::Github {
                repository: "D-Nine-Chain/d9-v2-pallets",
                author: "someone-else",
            },
        ),
        PermissionMode::Deny
    );
    assert_eq!(
        config.authorize(
            AutonomyAction::GithubReply,
            AutonomyTarget::Github {
                repository: "Other/repo",
                author: "KKBK-233",
            },
        ),
        PermissionMode::Deny
    );
}

#[test]
fn local_scope_uses_resolved_exact_repository_path() {
    let mut config = AutonomyConfig {
        enabled: true,
        ..AutonomyConfig::default()
    };
    let table = places(&[
        ("/link", "/root/allowed"),
        ("/root/allowed", "/root/allowed"),
        ("/root/other", "/root/other"),
        ("/root/allowed/inner", "/root/allowed/inner"),
    ]);
    config.permissions.edit_code = PermissionMode::Allow;
    config.scope.local_repositories = vec!["/root/allowed".to_string()];
    let mode = |path: &str| {
        config.authorize(
            AutonomyAction::EditCode,
            AutonomyTarget::Local {
                path,
                places: &table,
            },
        )
    };
    assert_eq!(mode("/root/allowed"), PermissionMode::Allow);
    assert_eq!(mode("/link"), PermissionMode::Allow);
    assert_eq!(mode("/root/other"), PermissionMode::Deny);
    assert_eq!(mode("/root/allowed/inner"), PermissionMode::Deny);
    assert_eq!(mode("/root/missing"), PermissionMode::Deny);
}

#[test]
fn push_requires_both_local_and_personal_github_scope() {
    let table = places(&[("/root", "/root")]);
    let mut config = AutonomyConfig {
        enabled: true,
        ..AutonomyConfig::default()
    };
    config.permissions.push_branch = PermissionMode::Allow;
    config.scope.local_repositories.push("/root".to_string());
    config
        .scope
        .github_repositories
        .push("D-Nine-Chain/repo".to_string());
    config.scope.github_author = "KKBK-233".to_string();
    assert_eq!(
        config.authorize(
            AutonomyAction::PushBranch,
            AutonomyTarget::Push {
                path: "/root",
                places: &table,
                repository: "D-Nine-Chain/repo",
                author: "KKBK-233",
            },
        ),
        PermissionMode::Allow
    );
    assert_eq!(
        config.authorize(
            AutonomyAction::PushBranch,
            AutonomyTarget::Push {
                path: "/root",
                places: &table,
                repository: "D-Nine-Chain/repo",
                author: "other",
            },
        ),
        PermissionMode::Deny
    );
}

#[test]
fn linear_action_requires_matching_assignee() {
    let mut config = AutonomyConfig {
        enabled: true,
        ..AutonomyConfig::default()
    };
    config.permissions.linear_write = PermissionMode::Ask;
    config.scope.linear_assignee = "user-id".to_string();
    assert_eq!(
        config.authorize(
            AutonomyAction::LinearWrite,
            AutonomyTarget::Linear {
                assignee: "user-id"
            },
        ),
        PermissionMode::Ask
    );
    assert_eq!(
        config.authorize(
            AutonomyAction::LinearWrite,
            AutonomyTarget::Linear {
                assignee: "other-id"
            },
        ),
        PermissionMode::Deny
    );
}

#[test]
fn an_action_must_fit_its_target() {
    let mut config = AutonomyConfig::default();
    config.enabled = true;
    config.scope.linear_assignee = "me".to_string();
    config.permissions.merge_pr = PermissionMode::Allow;
    assert_eq!(
        config.authorize(
            AutonomyAction::MergePr,
            AutonomyTarget::Linear { assignee: "me" }
        ),
        PermissionMode::Deny
    );
    assert_eq!(AutonomyAction::LocalRead.key(), "local_read");
    assert_eq!(PermissionMode::Ask.label(), "ask");
}

#[test]
fn the_overview_shows_what_is_in_force() {
    let text = AutonomyConfig::default().render();
    assert!(text.starts_with("自治流程：停用\n- github_read: deny（配置为 allow，但总开关未启用）\n"));
    assert!(text.contains("- push_branch: deny\n"));
    assert!(text.ends_with("执行前还会检查具体目标。"));
    let mut config = AutonomyConfig::default();
    config.enabled = true;
    assert!(config.render().contains("- github_read: allow\n"));
}

#[test]
fn model_can_inspect_and_read_tracked_code_then_finish() {
    let config = config("/repo");
    let policy = policy();
    let runner = LocalTaskRunner::new(&config, &policy);
    let table = places(&[("/repo", "/repo")]);
    let (mut run, action) = runner.run("检查代码", "/repo");
    assert!(matches!(action, TaskAction::Git(args) if args == ["rev-parse", "--show-toplevel"]));
    let action = run.step(&runner, &table, ok("/repo\n"));
    assert!(matches!(action, TaskAction::Resolve(path) if path == "/repo"));
    let action = run.step(&runner, &table, TaskEvent::Place("/repo".to_string()));
    assert!(matches!(action, TaskAction::Git(args) if args == ["symbolic-ref", "--short", "HEAD"]));
    let action = run.step(&runner, &table, ok("main\n"));
    assert!(matches!(action, TaskAction::Plan));
    assert_eq!(run.context().tests, &vec!["echo fixture".to_string()]);
    assert_eq!(
        run.context().observation,
        "仓库：/repo；当前分支：main；可选测试数：1。"
    );

    run.step(&runner, &table, TaskEvent::Planned(LocalTaskStep::Inspect));
    run.step(&runner, &table, ok(""));
    let action = run.step(&runner, &table, ok("src/main.rs\nsrc/private.rs\n"));
    assert!(matches!(action, TaskAction::Plan));
    assert!(run.context().observation.contains("src/main.rs"));

    let action = run.step(
        &runner,
        &table,
        TaskEvent::Planned(LocalTaskStep::ReadFile {
            path: "src/main.rs".to_string(),
        }),
    );
    assert!(matches!(action, TaskAction::Git(args) if args == ["ls-files", "--error-unmatch", "--", "src/main.rs"]));
    assert!(matches!(
        run.step(&runner, &table, ok("src/main.rs\n")),
        TaskAction::Look(_)
    ));
    assert!(matches!(
        run.step(
            &runner,
            &table,
            TaskEvent::Looked {
                is_file: true,
                bytes: 13
            }
        ),
        TaskAction::Resolve(_)
    ));
    assert!(matches!(
        run.step(
            &runner,
            &table,
            TaskEvent::Place("/repo/src/main.rs".to_string())
        ),
        TaskAction::Read(_)
    ));
    run.step(
        &runner,
        &table,
        TaskEvent::Content("fn main() {}\n".to_string()),
    );
    assert!(run.context().observation.contains("fn main()"));
    match run.step(
        &runner,
        &table,
        TaskEvent::Planned(LocalTaskStep::Finish {
            summary: "只完成检查".to_string(),
        }),
    ) {
        TaskAction::Finished(result) => {
            assert_eq!(result.state, LocalTaskState::Finished);
            assert_eq!(result.trace.len(), 2);
        }
        other => panic!("{other:?}"),
    }
}

#[test]
fn file_read_rejects_traversal_sensitive_and_untracked_paths() {
    assert_eq!(
        check_path("../outside.rs"),
        Err("文件路径必须是仓库内相对路径")
    );
    assert_eq!(check_path("src/private.rs"), Err("敏感文件不进入模型上下文"));
    assert_eq!(
        check_path("src/data.bin"),
        Err("文件类型未获准进入模型上下文")
    );
    assert_eq!(check_path("./src/main.rs"), Err("文件路径必须是仓库内相对路径"));
    assert_eq!(check_path("src/main.rs"), Ok(()));
    let config = config("/repo");
    let policy = policy();
    let runner = LocalTaskRunner::new(&config, &policy);
    let table = places(&[("/repo", "/repo")]);
    let mut run = planning(&runner, &table);
    run.step(
        &runner,
        &table,
        TaskEvent::Planned(LocalTaskStep::ReadFile {
            path: "src/untracked.rs".to_string(),
        }),
    );
    let action = run.step(
        &runner,
        &table,
        TaskEvent::Output(CommandOutput {
            status: 1,
            stdout: String::new(),
            stderr: "did not match".to_string(),
        }),
    );
    assert!(matches!(action, TaskAction::Fail(words) if words == "文件不是 Git 跟踪文件"));
}

fn planning(
    runner: &LocalTaskRunner<'_>,
    table: &TextTable,
) -> termiters::autonomy::local_task::TaskRun {
    let (mut run, _) = runner.run("测试", "/repo");
    run.step(runner, table, ok("/repo\n"));
    run.step(runner, table, TaskEvent::Place("/repo".to_string()));
    run.step(runner, table, ok("main\n"));
    run
}

#[test]
fn test_action_requires_permission_and_never_accepts_model_command() {
    let config = config("/repo");
    let mut policy = policy();
    let table = places(&[("/repo", "/repo")]);
    {
        let runner = LocalTaskRunner::new(&config, &policy);
        let mut run = planning(&runner, &table);
        let action = run.step(
            &runner,
            &table,
            TaskEvent::Planned(LocalTaskStep::RunTests { test_index: 0 }),
        );
        assert!(matches!(action, TaskAction::Fail(words) if words.contains("权限拒绝 run_tests")));
    }
    policy.permissions.run_tests = PermissionMode::Ask;
    let runner = LocalTaskRunner::new(&config, &policy);
    let mut run = planning(&runner, &table);
    let action = run.step(
        &runner,
        &table,
        TaskEvent::Planned(LocalTaskStep::RunTests { test_index: 0 }),
    );
    assert!(matches!(action, TaskAction::Approve("run_tests")));
    let action = run.step(&runner, &table, TaskEvent::Approved(false));
    assert!(matches!(action, TaskAction::Fail(words) if words.contains("等待人工决定")));
    let mut run = planning(&runner, &table);
    let action = run.step(
        &runner,
        &table,
        TaskEvent::Planned(LocalTaskStep::RunTests { test_index: 1 }),
    );
    assert!(matches!(action, TaskAction::Fail(words) if words == "模型选择了未配置的测试序号 1"));
    let mut run = planning(&runner, &table);
    run.step(
        &runner,
        &table,
        TaskEvent::Planned(LocalTaskStep::RunTests { test_index: 0 }),
    );
    let action = run.step(&runner, &table, TaskEvent::Approved(true));
    assert!(matches!(action, TaskAction::Test(command) if command == "echo fixture"));
}

#[test]
fn read_scope_is_required_even_when_mode_is_allow() {
    let config = config("/repo");
    let mut policy = policy();
    policy.scope.local_repositories.clear();
    let runner = LocalTaskRunner::new(&config, &policy);
    let table = places(&[("/repo", "/repo")]);
    let (mut run, _) = runner.run("检查", "/repo");
    run.step(&runner, &table, ok("/repo\n"));
    let action = run.step(&runner, &table, TaskEvent::Place("/repo".to_string()));
    assert!(matches!(action, TaskAction::Fail(words) if words.contains("权限拒绝 local_read")));
}

#[test]
fn a_task_stops_after_its_last_step() {
    let config = config("/repo");
    let policy = policy();
    let runner = LocalTaskRunner::new(&config, &policy);
    let table = places(&[("/repo", "/repo")]);
    let mut run = planning(&runner, &table);
    let mut last = TaskAction::Plan;
    for _ in 0..8 {
        assert!(matches!(last, TaskAction::Plan));
        run.step(&runner, &table, TaskEvent::Planned(LocalTaskStep::Inspect));
        run.step(&runner, &table, ok(""));
        last = run.step(&runner, &table, ok(&"x".repeat(20_000)));
    }
    match last {
        TaskAction::Finished(result) => {
            assert_eq!(result.state, LocalTaskState::Stopped);
            assert_eq!(result.summary, "达到 8 步上限，任务已停止。");
            assert_eq!(result.trace.len(), 8);
        }
        other => panic!("{other:?}"),
    }
    assert!(run.observation.ends_with("\n[输出已截断]"));
    assert_eq!(run.observation.len(), 12_288 + "\n[输出已截断]".len());
}

fn report(id: &str, created_at: u64, text: &str, secret: &str) -> TaskReport {
    TaskReport::completed(
        id.to_string(),
        created_at,
        &format!("检查 {text}"),
        "deep-seek",
        "deepseek-v4-flash",
        LocalTaskState::Finished,
        &vec![format!("没有输出 {text}")],
        &format!("结论不包含 {text}"),
        &vec![secret.to_string()],
    )
}

#[test]
fn disabled_store_does_not_create_directory() {
    let config = TaskReportConfig {
        enabled: false,
        data_dir: "/reports".to_string(),
    };
    let failed = TaskReport::failed(
        "id".to_string(),
        0,
        "请求",
        "provider",
        "model",
        "失败",
        &Vec::new(),
    );
    assert_eq!(failed.outcome, TaskReportOutcome::Failed);
    assert!(TaskReportStore::new(&config).save(&failed).is_none());
    assert!(TaskReportStore::new(&config)
        .list(vec![failed], 20)
        .is_empty());
}

#[test]
fn saves_lists_and_reads_redacted_report() {
    let config = TaskReportConfig {
        enabled: true,
        data_dir: "/reports".to_string(),
    };
    let store = TaskReportStore::new(&config);
    let secret = "lin_api_test_secret_value";
    let saved = report("0123abcd-rest", 1_700_000_000_123_456_789, secret, secret);
    let plan = store.save(&saved).unwrap();
    assert_eq!(plan.final_name, "1700000000123-0123abcd-rest.json");
    assert_eq!(plan.temporary_name, ".0123abcd-rest.tmp");
    assert!(is_report_file(&plan.final_name));
    assert!(!is_report_file(&plan.temporary_name));
    let listed = store.list(vec![saved], 20);
    assert_eq!(listed.len(), 1);
    let place = store.get("0123abcd", &listed).unwrap().unwrap();
    assert_eq!(listed[place].id, "0123abcd-rest");
    let text = render_report(&listed[place], "now");
    assert!(!text.contains(secret));
    assert!(text.contains("凭据已隐藏"));
}

#[test]
fn the_newest_reports_come_first() {
    let config = TaskReportConfig {
        enabled: true,
        data_dir: "/reports".to_string(),
    };
    let store = TaskReportStore::new(&config);
    let reports = vec![
        report("aaaaaaaa", 1, "x", "-"),
        report("bbbbbbbb", 3, "x", "-"),
        report("cccccccc", 2, "x", "-"),
    ];
    let listed = store.list(reports, 2);
    assert_eq!(listed.len(), 2);
    assert_eq!(listed[0].id, "bbbbbbbb");
    assert_eq!(listed[1].id, "cccccccc");
    let lines = render_report_list(&listed, &vec!["t1".to_string(), "t2".to_string()]);
    assert_eq!(
        lines,
        "- bbbbbbbb  t1  [完成]  deepseek-v4-flash  检查 x\n- cccccccc  t2  [完成]  deepseek-v4-flash  检查 x"
    );
    assert_eq!(
        render_report_list(&Vec::new(), &Vec::new()),
        "暂无任务报告。"
    );
}

#[test]
fn rejects_path_like_report_id() {
    let config = TaskReportConfig {
        enabled: true,
        data_dir: "/reports".to_string(),
    };
    let store = TaskReportStore::new(&config);
    assert!(store.get("../secret", &Vec::new()).is_err());
    assert!(store.get("0123abcd", &Vec::new()).unwrap().is_none());
    let twice = vec![
        report("0123abcd-1", 1, "x", "-"),
        report("0123abcd-2", 1, "x", "-"),
    ];
    assert_eq!(
        store.get("0123abcd", &twice).unwrap_err(),
        "报告 ID 前缀不唯一；请提供更多位"
    );
}

#[test]
fn short_secrets_stay_and_long_ones_go() {
    let secrets = vec!["short".to_string(), "long-enough".to_string()];
    assert_eq!(
        redact_exact_values("short long-enough", &secrets),
        "short [凭据已隐藏]"
    );
    let secrets = vec!["key.a[1]b.c".to_string(), "sk-other".to_string()];
    assert_eq!(
        redact_exact_values("(key.a[1]b.c)[sk-other]", &secrets),
        "([凭据已隐藏])[[凭据已隐藏]]"
    );
    assert_eq!(one_line("a\r\nb", 10), "a  b");
    assert_eq!(one_line("abcdef", 3), "abc...[已截断]");
}
