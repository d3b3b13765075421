use termiters::json::list_json;
use termiters::command::CommandOutput;
use termiters::config::{DaemonConfig, ReleaseConfig};
use termiters::daemon::{
    check_scheduled, ensure_failure_limit_not_reached, is_terminal_state, jitter,
    run_direct_advisory_tick, wait_managed_jobs, JobsStep, ManagedSyncJob,
};
use termiters::git::{
    ensure_relative_repo_path, git_checked, has_staged_changes, read_changed_files, read_remote_head,
    shorten, AheadBehind, Git,
};
use termiters::http::{host_is_loopback, is_loopback_url};
use termiters::order::sort_strings;
use termiters::release::{
    ensure_release_tag, next_release_tag, remote_release_tags, validate_tag_prefix, ReleaseAction,
};
use termiters::text::{drop_controls, is_blank, take_chars, truncate_to_char_boundary};
use termiters::version::{build_info, long_version};

fn output(status: i32, stdout: &str, stderr: &str) -> CommandOutput {
    CommandOutput {
        status,
        stdout: stdout.to_string(),
        stderr: stderr.to_string(),
    }
}

#[test]
fn truncates_ascii_by_bytes() {
    let mut text = "abcdef".to_string();

    truncate_to_char_boundary(&mut text, 3);

    assert_eq!(text, "abc");
}

#[test]
fn truncates_multibyte_without_panic() {
    let mut text = "错误信息很长".to_string();

    truncate_to_char_boundary(&mut text, 5);

    assert_eq!(text, "错");
}

#[test]
fn a_text_that_fits_is_kept() {
    let mut text = "错误".to_string();
    truncate_to_char_boundary(&mut text, 6);
    assert_eq!(text, "错误");
    truncate_to_char_boundary(&mut text, 2);
    assert_eq!(text, "");
}

#[test]
fn control_characters_are_dropped() {
    assert_eq!(drop_controls("a\u{1b}b\nc\u{7f}", "\n"), "ab\nc");
    assert_eq!(drop_controls("a\tb", ""), "ab");
    assert_eq!(take_chars("错误信息", 2), "错误");
    assert_eq!(take_chars("ab", 5), "ab");
    assert!(is_blank(" \t\n"));
    assert!(!is_blank(" x "));
}

#[test]
fn increments_numeric_release_tags() {
    let tags = ["v99.0.0", "v99.0.2", "v99.0.beta"];
    assert_eq!(next_release_tag("v99.0.", &tags), "v99.0.3");
}

#[test]
fn starts_from_zero_without_existing_tags() {
    assert_eq!(next_release_tag("preview-", &[]), "preview-0");
}

#[test]
fn release_tags_are_read_from_a_listing() {
    let listing = "aaa\trefs/tags/v1.0\nbbb\trefs/tags/v1.1\nccc\trefs/tags/v1.1^{}\nddd\trefs/heads/main\n";
    let tags = remote_release_tags("v1.", listing);
    assert_eq!(tags.get("v1.0"), Some("aaa"));
    assert_eq!(tags.get("v1.1"), Some("ccc"));
    assert_eq!(tags.get("main"), None);
}

#[test]
fn a_release_is_off_unless_it_is_on() {
    let off = ReleaseConfig {
        enabled: false,
        tag_prefix: "v1.".to_string(),
    };
    assert!(matches!(
        ensure_release_tag("fork", &off).1,
        ReleaseAction::Done(None)
    ));
    let on = ReleaseConfig {
        enabled: true,
        tag_prefix: "v1.".to_string(),
    };
    assert!(matches!(
        ensure_release_tag("fork", &on).1,
        ReleaseAction::Run(_)
    ));
    assert!(validate_tag_prefix("").is_err());
}

#[test]
fn managed_sync_waits_only_for_active_states() {
    assert!(!is_terminal_state("queued"));
    assert!(!is_terminal_state("running"));
    assert!(is_terminal_state("completed"));
    assert!(is_terminal_state("waiting_guidance"));
    assert!(is_terminal_state("failed"));
}

#[test]
fn failure_limit_exits_with_error_for_supervisor_restart() {
    assert!(ensure_failure_limit_not_reached(2, 3).is_ok());

    let error = ensure_failure_limit_not_reached(3, 3).unwrap_err();
    assert!(error.to_string().contains("process supervisor can restart"));
}

#[test]
fn jitter_stays_below_its_limit() {
    assert_eq!(jitter(0, Some(17)), 0);
    assert_eq!(jitter(9, Some(25)), 5);
    assert_eq!(jitter(9, None), 0);
    assert_eq!(DaemonConfig::default().max_consecutive_failures, 3);
}

fn job(state: &str) -> ManagedSyncJob {
    ManagedSyncJob {
        branch: "main".to_string(),
        state: state.to_string(),
        summary: "words".to_string(),
    }
}

#[test]
fn the_daemon_waits_for_jobs_until_they_end() {
    assert!(matches!(
        wait_managed_jobs(&vec![job("completed")], "sync", false),
        JobsStep::Done
    ));
    assert!(matches!(
        wait_managed_jobs(&vec![job("completed"), job("running")], "sync", false),
        JobsStep::Wait
    ));
    match wait_managed_jobs(&vec![job("running")], "sync", true) {
        JobsStep::Fail(words) => {
            assert_eq!(words, "managed sync did not finish within 3600 seconds")
        }
        other => panic!("{other:?}"),
    }
    match wait_managed_jobs(&vec![job("failed")], "advisory", false) {
        JobsStep::Fail(words) => assert_eq!(
            words,
            "managed advisory requires attention: main [failed]: words"
        ),
        other => panic!("{other:?}"),
    }
    assert_eq!(
        check_scheduled("sync", false, "409 Conflict", "busy").unwrap_err(),
        "managed sync scheduling returned 409 Conflict: busy"
    );
    assert!(check_scheduled("sync", true, "200 OK", "").is_ok());
}

#[test]
fn an_advisory_is_marked_by_its_outcome() {
    let verdict = run_direct_advisory_tick("OSV-1", &Ok(None));
    assert_eq!(verdict.state, "completed");
    let verdict = run_direct_advisory_tick("OSV-1", &Err("no".to_string()));
    assert_eq!(verdict.state, "failed");
}

#[test]
fn identifies_only_loopback_http_targets() {
    assert!(is_loopback_url("http://127.0.0.1:8080/v1"));
    assert!(is_loopback_url("http://[::1]:8080/v1"));
    assert!(is_loopback_url("http://localhost/v1"));
    assert!(!is_loopback_url("https://api.github.com"));
    assert!(!is_loopback_url("not-a-url"));
}

#[test]
fn a_host_is_loopback_by_its_address() {
    assert!(host_is_loopback("127.1.2.3"));
    assert!(!host_is_loopback("128.0.0.1"));
    assert!(!host_is_loopback("127.0.0.1.example.com"));
    assert!(!host_is_loopback("http://localhost/v1"));
}

#[test]
fn git_commands_have_their_arguments() {
    let git = Git::new("/repo");
    assert_eq!(git.rebase("upstream/main"), vec!["rebase", "upstream/main"]);
    assert_eq!(
        git.push_with_lease("fork", "main", "abc"),
        vec![
            "push",
            "--force-with-lease=refs/heads/main:abc",
            "fork",
            "HEAD:refs/heads/main"
        ]
    );
    assert_eq!(git.run_test("make test"), vec!["-lc", "make test"]);
}

#[test]
fn git_failures_show_the_arguments() {
    let args = vec!["checkout".to_string(), "a b".to_string()];
    assert!(git_checked(&args, &output(0, "", "")).is_ok());
    let words = git_checked(&args, &output(1, "", "no such branch\n")).unwrap_err();
    assert!(words.contains("[\"checkout\", \"a b\"]"), "{words}");
    assert!(words.contains("no such branch"));
}

#[test]
fn git_output_is_read() {
    let counts = AheadBehind::read(&output(0, "3\t5\n", "")).unwrap();
    assert_eq!((counts.ahead, counts.behind), (3, 5));
    assert!(AheadBehind::read(&output(0, "three\n", "")).is_err());
    assert_eq!(
        read_remote_head("fork", "main", &output(0, "abc\trefs/heads/main\n", "")).unwrap(),
        Some("abc".to_string())
    );
    assert_eq!(
        read_remote_head("fork", "main", &output(0, "", "")).unwrap(),
        None
    );
    assert!(read_remote_head("fork", "main", &output(2, "", "denied")).is_err());
    assert_eq!(
        read_changed_files(&output(0, "M\ta.rs\nM\tb.rs\nM\tc.rs\n", ""), 2),
        vec![
            "M\ta.rs",
            "M\tb.rs",
            "... file list truncated by TermiteRS ..."
        ]
    );
    assert!(!has_staged_changes(&output(0, "", "")).unwrap());
    assert!(has_staged_changes(&output(1, "", "")).unwrap());
    assert!(has_staged_changes(&output(128, "", "broken")).is_err());
    assert_eq!(shorten("abcdef", 3, "..."), "abc...");
    assert_eq!(shorten("abc", 3, "..."), "abc");
}

#[test]
fn paths_may_not_lead_out_of_the_repository() {
    assert!(ensure_relative_repo_path("src/main.rs").is_ok());
    assert_eq!(
        ensure_relative_repo_path("../x").unwrap_err(),
        "unsafe repository path: ../x"
    );
    assert!(ensure_relative_repo_path("/etc/passwd").is_err());
    assert!(ensure_relative_repo_path("a/../../b").is_err());
}

#[test]
fn strings_are_sorted_by_their_characters() {
    let list = vec!["b".to_string(), "é".to_string(), "a".to_string(), "ab".to_string()];
    assert_eq!(sort_strings(&list), vec!["a", "ab", "b", "é"]);
}

#[test]
fn the_version_names_the_build() {
    let info = build_info("1.2.3", "abc123", "1700000000");
    let text = long_version(&info);
    assert!(text.contains("1.2.3"));
    assert!(text.contains("abc123"));
    assert!(text.contains("1700000000"));
}

#[test]
fn json_texts_escape_what_json_asks_for() {
    let list = vec![
        "a\"b\\c/".to_string(),
        "\u{8}\t\n\u{c}\r".to_string(),
        "\u{0}\u{1f}\u{7f}\u{e9}\u{1f600}".to_string(),
    ];
    assert_eq!(
        list_json(&list),
        "[\"a\\\"b\\\\c/\",\"\\b\\t\\n\\f\\r\",\"\\u0000\\u001f\u{7f}\u{e9}\u{1f600}\"]"
    );
}
