use termiters::assistant::{
    agent_summary, branch_summary, build_user_prompt, print_help, reply_text, Assistant,
    AssistantCommand,
};
use termiters::cli::{
    apply_overrides, build_status, cleanup_line, ready_for_commits, review_status, Cli, Commands,
    Overrides,
};
use termiters::command::CommandOutput;
use termiters::config::{
    AutoResolveConfig, BranchConfig, BranchKind, Config, DaemonConfig, EmailConfig,
    NotifyChannelConfig, NotifyChannelKind, NotifyConfig, NotifyEventsConfig, NotifyPolicyConfig,
    NotifyPolicyMode, ProtectionConfig, PushStrategy, ReleaseConfig, RepoConfig, ServiceConfig,
    SmtpTlsMode, SyncStrategy,
};
use termiters::doctor::{git_version_is_old, one_line_output, Doctor, DoctorFacts};
use termiters::linear::{
    read_issues, GraphQlEnvelope, IssueNode, LinearClient, LinearConfig, Viewer,
};
use termiters::notify::{
    default_smtp_port, legacy_email_to_channel, normalized_channels, send_cloudflare, send_smtp,
    Notifier, SendAction,
};
use termiters::protection::model::SecurityDisposition;
use termiters::sandbox::{
    bubblewrap_args, check_time, ensure_bubblewrap_available, finish_sandboxed, read_capped,
    run_sandboxed, verify_sandbox, Host,
};
use termiters::report::{BranchReport, BranchStatus, SyncReport};
use termiters::service::types::CleanupReport;
use termiters::sync::{Announcement, SyncOptions, SyncRunner};

fn config() -> Config {
    Config {
        repo: RepoConfig {
            path: "/repo".to_string(),
            upstream: "up".to_string(),
            fork: "fork-url".to_string(),
            base_branch: "main".to_string(),
            upstream_remote: "upstream".to_string(),
            fork_remote: "fork".to_string(),
        },
        branches: vec![BranchConfig {
            name: "my/work".to_string(),
            kind: BranchKind::Pr,
            note: None,
            sync: SyncStrategy::Merge,
            push: PushStrategy::Never,
            tests: Vec::new(),
            require_behavioral_tests: false,
            auto_resolve: AutoResolveConfig::default(),
            release: ReleaseConfig::default(),
        }],
        daemon: DaemonConfig::default(),
        llm: None,
        notify: None,
        service: ServiceConfig::default(),
        protection: ProtectionConfig::default(),
    }
}

fn output(status: i32, stdout: &str, stderr: &str) -> CommandOutput {
    CommandOutput {
        status,
        stdout: stdout.to_string(),
        stderr: stderr.to_string(),
    }
}

#[test]
fn bubblewrap_never_binds_host_root_or_credentials() {
    let args = bubblewrap_args("/tmp/worktree", "python3 -m pytest");
    let text = args.join(" ");
    assert!(text.contains("--unshare-all"));
    assert!(text.contains("--clearenv"));
    assert!(text.contains("--cap-drop ALL"));
    assert!(text.contains("--bind /tmp/worktree /workspace"));
    assert!(!text.contains("/.ssh"));
    assert!(!text.contains("/etc/termiters"));
    assert!(!text.contains("--bind / /"));
    assert_eq!(args.last().unwrap(), "python3 -m pytest");
}

#[test]
fn without_a_sandbox_nothing_runs() {
    let ready = Ok(true);
    assert!(run_sandboxed("ls", "/w", Host::Unix, true, &ready).is_ok());
    assert_eq!(
        run_sandboxed("ls", "/w", Host::Unix, false, &ready).unwrap_err(),
        "沙箱 worktree 不存在：/w"
    );
    assert!(run_sandboxed("ls", "/w", Host::Windows, true, &ready)
        .unwrap_err()
        .starts_with("Windows 主机没有启用"));
    assert!(ensure_bubblewrap_available(&Ok(false)).is_err());
    assert_eq!(
        ensure_bubblewrap_available(&Err("not found".to_string())).unwrap_err(),
        "未安装 Bubblewrap，项目保护必须失败关闭: not found"
    );
    assert!(check_time(1799).is_ok());
    assert_eq!(check_time(1800), Err("沙箱命令超过 1800 秒，已终止"));
}

#[test]
fn too_much_output_counts_for_nothing() {
    let (kept, exceeded) = read_capped(vec![7u8; 4_194_305]);
    assert_eq!(kept.len(), 4_194_304);
    assert!(exceeded);
    let (kept, exceeded) = read_capped(vec![7u8; 3]);
    assert_eq!(kept, vec![7u8; 3]);
    assert!(!exceeded);
    let done = finish_sandboxed(None, "o".to_string(), "e".to_string(), false, false).unwrap();
    assert_eq!(done.status, -1);
    assert!(finish_sandboxed(Some(0), String::new(), String::new(), true, false).is_err());
    assert!(verify_sandbox(&output(0, "", "")).is_ok());
    assert_eq!(
        verify_sandbox(&output(1, "", " leak \n")).unwrap_err(),
        "项目沙箱自检失败：leak"
    );
}

fn linear() -> LinearConfig {
    LinearConfig {
        enabled: true,
        api_key_env: "LINEAR_API_KEY".to_string(),
        max_issues: 5,
    }
}

fn issue(identifier: &str, title: &str, assignee: &str) -> IssueNode {
    IssueNode {
        identifier: identifier.to_string(),
        title: title.to_string(),
        url: format!("https://linear.app/d9/issue/{identifier}"),
        updated_at: "2026-09-18T00:00:00Z".to_string(),
        state: "Todo".to_string(),
        assignee: Some(assignee.to_string()),
        team: "D9".to_string(),
    }
}

fn answer(id: &str, nodes: Vec<IssueNode>) -> GraphQlEnvelope {
    GraphQlEnvelope {
        data: Some(Viewer {
            id: id.to_string(),
            nodes,
        }),
        errors: Vec::new(),
    }
}

#[test]
fn only_returns_issues_assigned_to_the_expected_viewer() {
    let issues = read_issues(
        &answer("person-1", vec![issue("D9-1", "标题", "person-1")]),
        "person-1",
    )
    .unwrap();
    assert_eq!(issues.len(), 1);
    assert_eq!(issues[0].identifier, "D9-1");
    assert_eq!(issues[0].team, "D9");
    assert_eq!(issues[0].status, "Todo");
}

#[test]
fn rejects_mismatched_viewer_even_with_valid_response() {
    assert!(read_issues(&answer("other", Vec::new()), "person-1").is_err());
}

#[test]
fn rejects_issue_assigned_to_someone_else() {
    assert_eq!(
        read_issues(
            &answer("person-1", vec![issue("D9-2", "其他人的事项", "person-2")]),
            "person-1"
        )
        .unwrap_err(),
        "Linear 返回了不属于当前授权用户的事项"
    );
    let mut unassigned = issue("D9-3", "x", "person-1");
    unassigned.assignee = None;
    assert!(read_issues(&answer("person-1", vec![unassigned]), "person-1").is_err());
}

#[test]
fn graphql_errors_fail_closed() {
    let envelope = GraphQlEnvelope {
        data: None,
        errors: vec!["Forbidden".to_string()],
    };
    assert_eq!(
        read_issues(&envelope, "person-1").unwrap_err(),
        "Linear GraphQL 返回错误：Forbidden"
    );
    let empty = GraphQlEnvelope {
        data: None,
        errors: Vec::new(),
    };
    assert_eq!(
        read_issues(&empty, "person-1").unwrap_err(),
        "Linear 响应缺少 data"
    );
}

#[test]
fn a_title_is_cut_and_cleaned() {
    let long = format!("a\u{1b}b{}", "x".repeat(600));
    let issues = read_issues(&answer("p", vec![issue("D9-1", &long, "p")]), "p").unwrap();
    assert_eq!(issues[0].title.len(), 500);
    assert!(issues[0].title.starts_with("abx"));
}

#[test]
fn nothing_is_asked_of_linear_without_leave() {
    let mut config = linear();
    let request = LinearClient::new(&config)
        .assigned_issues("p", Some("key"))
        .unwrap();
    assert_eq!(request.first, 5);
    assert_eq!(request.endpoint, "https://api.linear.app/graphql");
    let refused = |config: &LinearConfig, id: &str, key: Option<&str>| {
        LinearClient::new(config)
            .assigned_issues(id, key)
            .unwrap_err()
    };
    assert_eq!(
        refused(&config, "p", None),
        "缺少 Linear API key 环境变量 LINEAR_API_KEY"
    );
    assert_eq!(refused(&config, "p", Some(" ")), "Linear API key 为空");
    assert_eq!(
        refused(&config, " ", Some("key")),
        "Linear 个人负责人范围未配置"
    );
    config.max_issues = 51;
    assert_eq!(
        refused(&config, "p", Some("key")),
        "Linear max_issues 必须在 1 到 50 之间"
    );
    config.enabled = false;
    assert_eq!(refused(&config, "p", Some("key")), "Linear 本地读取未启用");
}

#[test]
fn the_assistant_knows_its_commands() {
    let assistant = Assistant::new("termite.yml".to_string());
    assert!(matches!(assistant.run("  \n"), AssistantCommand::Nothing));
    assert!(matches!(assistant.run("/quit\n"), AssistantCommand::Exit));
    assert!(matches!(
        assistant.run(" /doctor "),
        AssistantCommand::Doctor
    ));
    assert!(matches!(assistant.run("/daemon"), AssistantCommand::Daemon));
    assert!(matches!(assistant.run(" /check "), AssistantCommand::Check));
    assert!(matches!(assistant.run("/sync\n"), AssistantCommand::Sync));
    match assistant.run(" hello \n") {
        AssistantCommand::Reply(words) => assert_eq!(words, "hello"),
        other => panic!("{other:?}"),
    }
    assert_eq!(print_help()[0], "可用命令：");
    assert_eq!(
        agent_summary("# x\n- one\ntext\nTermiteRS does\n"),
        vec!["- one", "TermiteRS does"]
    );
    assert_eq!(
        agent_summary(&"- rule\n".repeat(20)).len(),
        12
    );
}

#[test]
fn the_assistant_tells_the_model_of_the_configuration() {
    let mut config = config();
    let prompt = build_user_prompt("问题", &config);
    assert!(prompt.starts_with("用户需求：\n问题\n\n当前配置摘要：\n- repo.path: /repo\n"));
    assert!(prompt.contains(
        "  - name: my/work, kind: Pr, sync: Merge, push: None, note: none\n"
    ));
    config.branches.clear();
    assert_eq!(branch_summary(&config), "  none");
    assert_eq!(reply_text(&Ok(Some("yes".to_string()))), "\nyes\n");
    assert!(reply_text(&Ok(None)).starts_with("LLM 未启用"));
    assert_eq!(
        reply_text(&Err("no".to_string())),
        "AI 助理调用失败：no"
    );
}

#[test]
fn the_command_line_has_its_defaults() {
    match (Cli { command: None }).selected() {
        Commands::Assistant { config } => assert_eq!(config, "termite.yml"),
        other => panic!("{other:?}"),
    }
    assert!(matches!(
        (Cli {
            command: Some(Commands::ExampleConfig)
        })
        .selected(),
        Commands::ExampleConfig
    ));
    let mut config = config();
    apply_overrides(
        &mut config,
        Overrides {
            path: Some("/other".to_string()),
            data_dir: None,
            project_description: None,
        },
    );
    assert_eq!(config.repo.path, "/other");
    assert!(!config.protection.enabled);
    let profiles = config.protection.profiles.clone();
    ready_for_commits(
        &mut config,
        Overrides {
            path: None,
            data_dir: Some("/data".to_string()),
            project_description: Some("blog".to_string()),
        },
    );
    assert!(config.protection.enabled);
    assert_eq!(config.protection.profiles, profiles);
    assert_eq!(config.repo.path, "/other");
    assert_eq!(config.service.data_dir, "/data");
    assert_eq!(config.protection.project.description, "blog");
    assert_eq!(build_status(true), 0);
    assert_eq!(build_status(false), 2);
    assert_eq!(review_status(None), 0);
    assert_eq!(review_status(Some(SecurityDisposition::Allow)), 0);
    assert_eq!(review_status(Some(SecurityDisposition::NeedsReview)), 2);
    assert_eq!(
        cleanup_line(&CleanupReport {
            cutoff: "c".to_string(),
            jobs: 1,
            messages: 2,
            events: 3,
            challenges: 4,
            notifications: 5,
            worktrees: 6,
        }),
        "cleaned cutoff=c, jobs=1, messages=2, events=3, challenges=4, notifications=5, worktrees=6"
    );
}

fn channel(name: &str, enabled: bool) -> NotifyChannelConfig {
    NotifyChannelConfig {
        name: name.to_string(),
        kind: NotifyChannelKind::Smtp,
        enabled,
        smtp_host: Some("mail".to_string()),
        smtp_port: None,
        tls: None,
        username_env: None,
        password_env: None,
        api_token_env: None,
        account_id_env: None,
        api_base_url: None,
        from: Some("a@example.invalid".to_string()),
        to: vec!["b@example.invalid".to_string()],
    }
}

fn notify(mode: NotifyPolicyMode, channels: Vec<NotifyChannelConfig>) -> NotifyConfig {
    NotifyConfig {
        enabled: true,
        policy: NotifyPolicyConfig { mode },
        events: NotifyEventsConfig::default(),
        subject_prefix: "[T]".to_string(),
        channels,
        email: None,
    }
}

#[test]
fn channels_are_tried_in_order() {
    let config = notify(
        NotifyPolicyMode::FirstSuccess,
        vec![channel("a", false), channel("b", true), channel("c", true)],
    );
    let notifier = Notifier::new(Some(config.clone()));
    let (mut run, action) = notifier.send("s", "b");
    assert!(matches!(action, SendAction::Send(1)));
    let action = run.step(&config, Err("down".to_string()));
    assert!(matches!(action, SendAction::Send(2)));
    assert!(matches!(
        run.step(&config, Ok(())),
        SendAction::Done(true)
    ));
    let (mut run, _) = notifier.send("s", "b");
    run.step(&config, Err("down".to_string()));
    match run.step(&config, Err("gone".to_string())) {
        SendAction::Fail(words) => {
            assert!(words.starts_with("all notification channels failed: "));
            assert!(words.contains("down"));
            assert!(words.contains("gone"));
        }
        _ => panic!("a failure was expected"),
    }
    assert!(matches!(
        Notifier::new(None).send("s", "b").1,
        SendAction::Done(false)
    ));
}

#[test]
fn an_older_mail_account_is_a_channel() {
    let email = EmailConfig {
        enabled: true,
        smtp_host: Some("mail".to_string()),
        smtp_port: 2525,
        username_env: None,
        password_env: None,
        from: None,
        to: Vec::new(),
    };
    let channel = legacy_email_to_channel(&email);
    assert_eq!(channel.name, "email");
    assert_eq!(channel.smtp_port, Some(2525));
    let mut config = notify(NotifyPolicyMode::Fanout, Vec::new());
    config.email = Some(email);
    assert_eq!(normalized_channels(&config).len(), 1);
    assert_eq!(default_smtp_port(Some(SmtpTlsMode::Implicit)), 465);
    assert!(send_smtp(&channel).is_err());
    let plan = send_smtp(&self::channel("a", true)).unwrap();
    assert_eq!(plan.host, "mail");
    assert!(send_cloudflare(&self::channel("a", true), "account").is_ok());
}

#[test]
fn the_doctor_reports_what_it_finds() {
    let facts = DoctorFacts {
        git: Ok(output(0, "git version 2.43.0\n", "")),
        ssh: Ok(output(0, "", "OpenSSH_9\n")),
        repo: None,
        upstream: Ok(output(0, "up\n", "")),
        fork: Ok(output(0, "elsewhere\n", "")),
        fetch: Err("offline".to_string()),
        base: Ok(true),
        branches: vec![termiters::doctor::BranchCheck {
            local: Ok(true),
            remote: Ok(false),
            push: Ok(output(0, "", "")),
        }],
    };
    let text = Doctor::new(config()).run(&facts);
    assert!(text.contains("git version 2.43.0"));
    assert!(text.contains("my/work"));
    assert!(!text.contains("自动发布"));
    let mut released = config();
    released.branches[0].release.enabled = true;
    assert!(Doctor::new(released).run(&facts).contains("push: none 与自动发布互斥：my/work"));
    let mut pushed = config();
    pushed.branches[0].release.enabled = true;
    pushed.branches[0].push = PushStrategy::Normal;
    assert!(!Doctor::new(pushed).run(&facts).contains("自动发布"));
    assert!(!git_version_is_old("git version 2.43.0"));
    assert!(git_version_is_old("git version 2.10.1"));
    assert_eq!(one_line_output(&output(0, "a\nb\n", "")), "a | b");
}

#[test]
fn quiet_ticks_are_not_announced() {
    let runner = |notify_on_noop: bool| {
        SyncRunner::new(
            config(),
            SyncOptions {
                branch: None,
                dry_run: false,
                notify_on_noop,
            },
        )
    };
    let mut report = SyncReport::default();
    report.push(BranchReport::new("my/work", BranchKind::Pr, BranchStatus::Success));
    assert!(matches!(runner(false).announcement(true, &report), Announcement::Nothing));
    assert!(matches!(runner(true).announcement(true, &report), Announcement::Summary));
    assert!(matches!(runner(false).announcement(false, &report), Announcement::Failures));
    report.push(BranchReport::new("other", BranchKind::Pr, BranchStatus::Conflict).active());
    assert!(matches!(runner(false).announcement(true, &report), Announcement::Summary));
}
