use termiters::command::CommandOutput;
use termiters::config::{RepoConfig, SyncStrategy};
use termiters::git::{
    conflict_file_content, read_found, read_lines, AheadBehind, ConflictSnapshot, Git,
};

fn repo() -> RepoConfig {
    RepoConfig {
        path: "/repo".to_string(),
        upstream: "https://example.org/up.git".to_string(),
        fork: "git@example.org:me/fork.git".to_string(),
        base_branch: "main".to_string(),
        upstream_remote: "upstream".to_string(),
        fork_remote: "fork".to_string(),
    }
}

fn output(status: i32, stdout: &str) -> CommandOutput {
    CommandOutput {
        status,
        stdout: stdout.to_string(),
        stderr: String::new(),
    }
}

#[test]
fn remotes_are_set_right() {
    let git = Git::new("/repo");
    let (upstream, fork) = git.ensure_remotes(&repo());
    assert_eq!(upstream, ["remote", "get-url", "upstream"]);
    assert_eq!(fork, ["remote", "get-url", "fork"]);
    let same = output(0, "url\n");
    assert_eq!(git.ensure_remote("fork", "url", &same), None);
    assert_eq!(
        git.ensure_remote("fork", "other", &same).unwrap(),
        ["remote", "set-url", "fork", "other"]
    );
    assert_eq!(
        git.ensure_remote("fork", "other", &output(2, "")).unwrap(),
        ["remote", "add", "fork", "other"]
    );
}

#[test]
fn commands_name_their_branches() {
    let git = Git::new("/repo");
    assert_eq!(git.remote_head("fork", "dev"), ["ls-remote", "--heads", "fork", "refs/heads/dev"]);
    assert_eq!(
        git.local_branch_exists("dev"),
        ["rev-parse", "--verify", "--quiet", "refs/heads/dev"]
    );
    assert_eq!(
        git.remote_branch_exists("fork", "dev"),
        ["rev-parse", "--verify", "--quiet", "refs/remotes/fork/dev"]
    );
    assert_eq!(git.ref_exists("up/main"), ["rev-parse", "--verify", "--quiet", "up/main"]);
    assert_eq!(git.ahead_behind("a", "b"), ["rev-list", "--left-right", "--count", "a...b"]);
    assert_eq!(git.merge_base("HEAD", "up/main"), ["merge-base", "HEAD", "up/main"]);
    assert_eq!(
        git.log_oneline("a..b", 12),
        ["log", "--oneline", "--no-decorate", "-n12", "a..b"]
    );
    assert_eq!(git.changed_files("a..b"), ["diff", "--name-status", "a..b"]);
    assert_eq!(git.conflicted_files(), ["diff", "--name-only", "--diff-filter=U"]);
    assert_eq!(git.merge("up/main")[0], "merge");
    assert_eq!(git.run_git(&["add", "--all"]), ["add", "--all"]);
}

#[test]
fn a_sync_goes_on_without_an_editor() {
    let git = Git::new("/repo");
    let rebase = git.continue_sync(SyncStrategy::Rebase);
    assert!(rebase.contains(&"rebase".to_string()));
    assert!(rebase.contains(&"--continue".to_string()));
    let merge = git.continue_sync(SyncStrategy::Merge);
    assert!(!merge.contains(&"rebase".to_string()));
    let (first, second) = git.abort_rebase_or_merge();
    assert_eq!(first, ["rebase", "--abort"]);
    assert_eq!(second, ["merge", "--abort"]);
}

#[test]
fn what_git_prints_is_read() {
    assert_eq!(read_found(&output(0, " abc \n")), Some("abc".to_string()));
    assert_eq!(read_found(&output(1, "abc")), None);
    assert_eq!(read_lines(" a \n\n b\n"), ["a", "b"]);
    let counts = AheadBehind::read(&output(0, "3\t4\n")).unwrap();
    assert_eq!((counts.ahead, counts.behind), (3, 4));
    assert!(AheadBehind::read(&output(0, "3")).is_err());
}

#[test]
fn a_conflict_is_captured_within_bounds() {
    let snapshot = ConflictSnapshot::conflict_snapshot(
        &output(0, "UU a.rs\n"),
        &output(0, "a.rs\n\nb.rs\n"),
        &output(0, "0123456789"),
        4,
    );
    assert_eq!(snapshot.files, ["a.rs", "b.rs"]);
    assert_eq!(snapshot.combined_diff, "0123\n... diff truncated ...\n");
    let whole = conflict_file_content("a.rs", "text", 10).unwrap();
    assert_eq!(whole.content, "text");
    let cut = conflict_file_content("a.rs", "text", 2).unwrap();
    assert_eq!(cut.content, "te\n... file truncated by TermiteRS ...\n");
    assert!(conflict_file_content("../a.rs", "text", 10).is_err());
}

/// Answers a call on the remotes the way git does.
fn answer(remotes: &mut Vec<(String, String)>, args: &[String]) -> CommandOutput {
    let at = remotes.iter().position(|remote| remote.0 == args[2]);
    match (args[1].as_str(), at) {
        ("get-url", Some(at)) => output(0, &format!("{}\n", remotes[at].1)),
        ("set-url", Some(at)) => {
            remotes[at].1 = args[3].clone();
            output(0, "")
        }
        ("add", None) => {
            remotes.push((args[2].clone(), args[3].clone()));
            output(0, "")
        }
        _ => output(2, ""),
    }
}

/// Makes sure of both remotes; gives the number of calls that write.
fn ensure(remotes: &mut Vec<(String, String)>) -> usize {
    let git = Git::new("/repo");
    let repo = repo();
    let (upstream, fork) = git.ensure_remotes(&repo);
    let mut written = 0;
    for (ask, name, url) in [
        (upstream, &repo.upstream_remote, &repo.upstream),
        (fork, &repo.fork_remote, &repo.fork),
    ] {
        let current = answer(remotes, &ask);
        if let Some(call) = git.ensure_remote(name, url, &current) {
            assert_eq!(answer(remotes, &call).status, 0);
            written += 1;
        }
    }
    written
}

#[test]
fn ensured_remotes_have_their_addresses() {
    let repo = repo();
    let other = ("origin".to_string(), "elsewhere".to_string());
    let mut remotes = vec![other.clone(), ("fork".to_string(), "old".to_string())];
    assert_eq!(ensure(&mut remotes), 2);
    let wanted = vec![
        other,
        ("fork".to_string(), repo.fork.clone()),
        ("upstream".to_string(), repo.upstream.clone()),
    ];
    assert_eq!(remotes, wanted);
    assert_eq!(ensure(&mut remotes), 0);
    assert_eq!(remotes, wanted);
    let git = Git::new("/repo");
    let found = answer(&mut remotes, &git.remote_url("fork"));
    assert_eq!(read_found(&found), Some(repo.fork));
    let none = answer(&mut remotes, &git.remote_url("none"));
    assert_eq!(read_found(&none), None);
}
