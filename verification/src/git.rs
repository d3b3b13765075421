//! The git commands that the program runs, and what it reads from their output.
use crate::command::CommandOutput;
use crate::config::{RepoConfig, SyncStrategy};
use crate::paths::{has_parent_component, path_is_absolute};
use crate::strings::{
    byte_len, i32_to_string, list_of, owned, parse_u64, push_string, split_lines, split_words, trim,
    usize_to_string,
};
use crate::text::truncate_to_char_boundary;
use vstd::prelude::*;

verus! {

/// A repository in a directory. Each method gives the arguments of a git command that is run there.
#[derive(Debug, Clone)]
pub struct Git {
    pub root: String,
}

/// The state of a work tree with conflicts.
#[derive(Debug, Clone)]
pub struct ConflictSnapshot {
    pub status: String,
    pub files: Vec<String>,
    pub combined_diff: String,
}

/// The state of a work tree with conflicts, as text.
#[verifier::ext_equal]
pub struct Conflicts {
    pub status: Seq<char>,
    pub files: Seq<Seq<char>>,
    pub combined_diff: Seq<char>,
}

impl View for ConflictSnapshot {
    type V = Conflicts;

    open spec fn view(&self) -> Conflicts {
        Conflicts {
            status: self.status@,
            files: crate::strings::views(self.files@),
            combined_diff: self.combined_diff@,
        }
    }
}

/// The commit that a rebase is replaying.
#[derive(Debug, Clone)]
pub struct SyncPatchContext {
    pub mode: String,
    pub current_patch: String,
}

impl Default for SyncPatchContext {
    fn default() -> (r: SyncPatchContext)
        ensures
            r.mode@.len() == 0,
            r.current_patch@.len() == 0,
    {
        SyncPatchContext { mode: String::new(), current_patch: String::new() }
    }
}

/// A conflicted file as it stands in the work tree.
#[derive(Debug, Clone)]
pub struct ConflictFileContent {
    pub path: String,
    pub content: String,
}

/// How many commits each of two branches has that the other has not.
#[derive(Debug, Clone, Copy)]
pub struct AheadBehind {
    pub ahead: u32,
    pub behind: u32,
}

/// The call that sets a remote right, given what was said of its address: none where it is right.
pub open spec fn remote_call(name: Seq<char>, url: Seq<char>, current: CommandOutput) -> Option<
    Seq<Seq<char>>,
> {
    if !current.ok() {
        Some(seq!["remote"@, "add"@, name, url])
    } else if crate::strings::trimmed(current.stdout@) != url {
        Some(seq!["remote"@, "set-url"@, name, url])
    } else {
        None
    }
}

impl Git {
    pub fn new(root: &str) -> (r: Git)
        ensures
            r.root@ == root@,
    {
        Git { root: owned(root) }
    }

    /// The commands that read the addresses of the two remotes.
    pub fn ensure_remotes(&self, repo: &RepoConfig) -> (r: (Vec<String>, Vec<String>))
        ensures
            crate::strings::views(r.0@) == seq!["remote"@, "get-url"@, repo.upstream_remote@],
            crate::strings::views(r.1@) == seq!["remote"@, "get-url"@, repo.fork_remote@],
    {
        (self.remote_url(repo.upstream_remote.as_str()), self.remote_url(repo.fork_remote.as_str()))
    }

    /// The command that sets a remote right, where its address is missing or another one.
    pub fn ensure_remote(&self, name: &str, url: &str, current: &CommandOutput) -> (r: Option<
        Vec<String>,
    >)
        ensures
            match r {
                Some(args) => remote_call(name@, url@, *current) == Some(crate::strings::views(args@)),
                None => remote_call(name@, url@, *current) is None,
            },
    {
        if current.success() {
            if crate::strings::same(trim(current.stdout.as_str()).as_str(), url) {
                return None;
            }
            let args = ["remote", "set-url", name, url];
            assert(crate::strings::str_views(args@) =~= seq!["remote"@, "set-url"@, name@, url@]);
            return Some(list_of(&args));
        }
        let args = ["remote", "add", name, url];
        assert(crate::strings::str_views(args@) =~= seq!["remote"@, "add"@, name@, url@]);
        Some(list_of(&args))
    }

    /// The commands that bring both remotes up to date.
    pub fn fetch_all(&self, repo: &RepoConfig) -> (r: (Vec<String>, Vec<String>))
        ensures
            crate::strings::views(r.0@) == seq!["fetch"@, "--prune"@, repo.upstream_remote@],
            crate::strings::views(r.1@) == seq!["fetch"@, "--prune"@, repo.fork_remote@],
    {
        let first = ["fetch", "--prune", repo.upstream_remote.as_str()];
        assert(crate::strings::str_views(first@) =~= seq![
            "fetch"@,
            "--prune"@,
            repo.upstream_remote@,
        ]);
        let second = ["fetch", "--prune", repo.fork_remote.as_str()];
        assert(crate::strings::str_views(second@) =~= seq!["fetch"@, "--prune"@, repo.fork_remote@]);
        (list_of(&first), list_of(&second))
    }

    /// The commands that leave a rebase or a merge that is under way.
    pub fn abort_rebase_or_merge(&self) -> (r: (Vec<String>, Vec<String>))
        ensures
            crate::strings::views(r.0@) == seq!["rebase"@, "--abort"@],
            crate::strings::views(r.1@) == seq!["merge"@, "--abort"@],
    {
        let first = ["rebase", "--abort"];
        assert(crate::strings::str_views(first@) =~= seq!["rebase"@, "--abort"@]);
        let second = ["merge", "--abort"];
        assert(crate::strings::str_views(second@) =~= seq!["merge"@, "--abort"@]);
        (list_of(&first), list_of(&second))
    }

    /// The command that takes up a rebase or a merge again.
    pub fn continue_sync(&self, strategy: SyncStrategy) -> (r: Vec<String>)
        ensures
            crate::strings::views(r@) == continue_args(strategy),
    {
        match strategy {
            SyncStrategy::Rebase => {
                let args = ["-c", "core.editor=true", "rebase", "--continue"];
                assert(crate::strings::str_views(args@) =~= continue_args(strategy));
                list_of(&args)
            },
            SyncStrategy::Merge => {
                let args = ["commit", "--no-edit"];
                assert(crate::strings::str_views(args@) =~= continue_args(strategy));
                list_of(&args)
            },
        }
    }

    pub fn push(&self, remote: &str, branch: &str, force_with_lease: bool) -> (r: Vec<String>)
        ensures
            crate::strings::views(r@) == (if force_with_lease {
                seq!["push"@, "--force-with-lease"@, remote@, branch@]
            } else {
                seq!["push"@, remote@, branch@]
            }),
    {
        if force_with_lease {
            let args = ["push", "--force-with-lease", remote, branch];
            assert(crate::strings::str_views(args@) =~= seq![
                "push"@,
                "--force-with-lease"@,
                remote@,
                branch@,
            ]);
            list_of(&args)
        } else {
            let args = ["push", remote, branch];
            assert(crate::strings::str_views(args@) =~= seq!["push"@, remote@, branch@]);
            list_of(&args)
        }
    }

    /// The arguments of any command.
    pub fn run_git(&self, args: &[&str]) -> (r: Vec<String>)
        ensures
            crate::strings::views(r@) == crate::strings::str_views(args@),
    {
        list_of(args)
    }

    /// What a shell is given to run a test.
    pub fn run_test(&self, command: &str) -> (r: Vec<String>)
        ensures
            crate::strings::views(r@) == seq!["-lc"@, command@],
    {
        let args = ["-lc", command];
        assert(crate::strings::str_views(args@) =~= seq!["-lc"@, command@]);
        list_of(&args)
    }

    /// Asks for the root of the work tree.
    pub fn ensure_repo(&self) -> (r: Vec<String>)
        ensures
            crate::strings::views(r@) == seq!["rev-parse"@, "--show-toplevel"@],
    {
        let args = ["rev-parse", "--show-toplevel"];
        assert(crate::strings::str_views(args@) =~= seq!["rev-parse"@, "--show-toplevel"@]);
        list_of(&args)
    }

    pub fn checkout(&self, branch: &str) -> (r: Vec<String>)
        ensures
            crate::strings::views(r@) == seq!["checkout"@, branch@],
    {
        let args = ["checkout", branch];
        assert(crate::strings::str_views(args@) =~= seq!["checkout"@, branch@]);
        list_of(&args)
    }

    pub fn rebase(&self, target: &str) -> (r: Vec<String>)
        ensures
            crate::strings::views(r@) == seq!["rebase"@, target@],
    {
        let args = ["rebase", target];
        assert(crate::strings::str_views(args@) =~= seq!["rebase"@, target@]);
        list_of(&args)
    }

    pub fn merge(&self, target: &str) -> (r: Vec<String>)
        ensures
            crate::strings::views(r@) == seq!["merge"@, "--no-edit"@, target@],
    {
        let args = ["merge", "--no-edit", target];
        assert(crate::strings::str_views(args@) =~= seq!["merge"@, "--no-edit"@, target@]);
        list_of(&args)
    }

    /// A push that fails where the branch is not where it was seen last.
    pub fn push_with_lease(&self, remote: &str, branch: &str, expected_remote_head: &str) -> (r: Vec<String>)
        ensures
            crate::strings::views(r@) == seq!["push"@, "--force-with-lease=refs/heads/"@ + branch@ + ":"@ + expected_remote_head@, remote@, "HEAD:refs/heads/"@ + branch@],
    {
        let part1 = owned("--force-with-lease=refs/heads/").concat(branch).concat(":").concat(expected_remote_head);
        let part3 = owned("HEAD:refs/heads/").concat(branch);
        let args = ["push", part1.as_str(), remote, part3.as_str()];
        assert(crate::strings::str_views(args@) =~= seq!["push"@, "--force-with-lease=refs/heads/"@ + branch@ + ":"@ + expected_remote_head@, remote@, "HEAD:refs/heads/"@ + branch@]);
        list_of(&args)
    }

    /// A push that fails where the branch is there already.
    pub fn push_new_branch_with_lease(&self, remote: &str, branch: &str) -> (r: Vec<String>)
        ensures
            crate::strings::views(r@) == seq!["push"@, "--force-with-lease=refs/heads/"@ + branch@ + ":"@, remote@, "HEAD:refs/heads/"@ + branch@],
    {
        let part1 = owned("--force-with-lease=refs/heads/").concat(branch).concat(":");
        let part3 = owned("HEAD:refs/heads/").concat(branch);
        let args = ["push", part1.as_str(), remote, part3.as_str()];
        assert(crate::strings::str_views(args@) =~= seq!["push"@, "--force-with-lease=refs/heads/"@ + branch@ + ":"@, remote@, "HEAD:refs/heads/"@ + branch@]);
        list_of(&args)
    }

    pub fn remote_head(&self, remote: &str, branch: &str) -> (r: Vec<String>)
        ensures
            crate::strings::views(r@) == seq!["ls-remote"@, "--heads"@, remote@, "refs/heads/"@ + branch@],
    {
        let part3 = owned("refs/heads/").concat(branch);
        let args = ["ls-remote", "--heads", remote, part3.as_str()];
        assert(crate::strings::str_views(args@) =~= seq!["ls-remote"@, "--heads"@, remote@, "refs/heads/"@ + branch@]);
        list_of(&args)
    }

    pub fn push_dry_run(&self, remote: &str, branch: &str) -> (r: Vec<String>)
        ensures
            crate::strings::views(r@) == seq!["push"@, "--dry-run"@, remote@, branch@ + ":"@ + branch@],
    {
        let part3 = owned(branch).concat(":").concat(branch);
        let args = ["push", "--dry-run", remote, part3.as_str()];
        assert(crate::strings::str_views(args@) =~= seq!["push"@, "--dry-run"@, remote@, branch@ + ":"@ + branch@]);
        list_of(&args)
    }

    /// Brings one branch of a remote up to date.
    pub fn fetch_branch(&self, remote: &str, branch: &str) -> (r: Vec<String>)
        ensures
            crate::strings::views(r@) == seq!["fetch"@, remote@, branch@],
    {
        let args = ["fetch", remote, branch];
        assert(crate::strings::str_views(args@) =~= seq!["fetch"@, remote@, branch@]);
        list_of(&args)
    }

    pub fn add_file(&self, path: &str) -> (r: Vec<String>)
        ensures
            crate::strings::views(r@) == seq!["add"@, path@],
    {
        let args = ["add", path];
        assert(crate::strings::str_views(args@) =~= seq!["add"@, path@]);
        list_of(&args)
    }

    pub fn head(&self) -> (r: Vec<String>)
        ensures
            crate::strings::views(r@) == seq!["rev-parse"@, "--short"@, "HEAD"@],
    {
        let args = ["rev-parse", "--short", "HEAD"];
        assert(crate::strings::str_views(args@) =~= seq!["rev-parse"@, "--short"@, "HEAD"@]);
        list_of(&args)
    }

    pub fn short_ref(&self, reference: &str) -> (r: Vec<String>)
        ensures
            crate::strings::views(r@) == seq!["rev-parse"@, "--short"@, reference@],
    {
        let args = ["rev-parse", "--short", reference];
        assert(crate::strings::str_views(args@) =~= seq!["rev-parse"@, "--short"@, reference@]);
        list_of(&args)
    }

    pub fn local_branch_exists(&self, branch: &str) -> (r: Vec<String>)
        ensures
            crate::strings::views(r@) == seq!["rev-parse"@, "--verify"@, "--quiet"@, "refs/heads/"@ + branch@],
    {
        let part3 = owned("refs/heads/").concat(branch);
        let args = ["rev-parse", "--verify", "--quiet", part3.as_str()];
        assert(crate::strings::str_views(args@) =~= seq!["rev-parse"@, "--verify"@, "--quiet"@, "refs/heads/"@ + branch@]);
        list_of(&args)
    }

    pub fn remote_branch_exists(&self, remote: &str, branch: &str) -> (r: Vec<String>)
        ensures
            crate::strings::views(r@) == seq!["rev-parse"@, "--verify"@, "--quiet"@, "refs/remotes/"@ + remote@ + "/"@ + branch@],
    {
        let part3 = owned("refs/remotes/").concat(remote).concat("/").concat(branch);
        let args = ["rev-parse", "--verify", "--quiet", part3.as_str()];
        assert(crate::strings::str_views(args@) =~= seq!["rev-parse"@, "--verify"@, "--quiet"@, "refs/remotes/"@ + remote@ + "/"@ + branch@]);
        list_of(&args)
    }

    pub fn ref_exists(&self, reference: &str) -> (r: Vec<String>)
        ensures
            crate::strings::views(r@) == seq!["rev-parse"@, "--verify"@, "--quiet"@, reference@],
    {
        let args = ["rev-parse", "--verify", "--quiet", reference];
        assert(crate::strings::str_views(args@) =~= seq!["rev-parse"@, "--verify"@, "--quiet"@, reference@]);
        list_of(&args)
    }

    pub fn ahead_behind(&self, left: &str, right: &str) -> (r: Vec<String>)
        ensures
            crate::strings::views(r@) == seq!["rev-list"@, "--left-right"@, "--count"@, left@ + "..."@ + right@],
    {
        let part3 = owned(left).concat("...").concat(right);
        let args = ["rev-list", "--left-right", "--count", part3.as_str()];
        assert(crate::strings::str_views(args@) =~= seq!["rev-list"@, "--left-right"@, "--count"@, left@ + "..."@ + right@]);
        list_of(&args)
    }

    pub fn merge_base(&self, left: &str, right: &str) -> (r: Vec<String>)
        ensures
            crate::strings::views(r@) == seq!["merge-base"@, left@, right@],
    {
        let args = ["merge-base", left, right];
        assert(crate::strings::str_views(args@) =~= seq!["merge-base"@, left@, right@]);
        list_of(&args)
    }

    pub fn log_oneline(&self, range: &str, limit: usize) -> (r: Vec<String>)
        ensures
            crate::strings::views(r@) == seq!["log"@, "--oneline"@, "--no-decorate"@, "-n"@ + crate::strings::decimal(limit as nat), range@],
    {
        let part3 = owned("-n").concat(usize_to_string(limit).as_str());
        let args = ["log", "--oneline", "--no-decorate", part3.as_str(), range];
        assert(crate::strings::str_views(args@) =~= seq!["log"@, "--oneline"@, "--no-decorate"@, "-n"@ + crate::strings::decimal(limit as nat), range@]);
        list_of(&args)
    }

    pub fn changed_files(&self, range: &str) -> (r: Vec<String>)
        ensures
            crate::strings::views(r@) == seq!["diff"@, "--name-status"@, range@],
    {
        let args = ["diff", "--name-status", range];
        assert(crate::strings::str_views(args@) =~= seq!["diff"@, "--name-status"@, range@]);
        list_of(&args)
    }

    pub fn remote_url(&self, name: &str) -> (r: Vec<String>)
        ensures
            crate::strings::views(r@) == seq!["remote"@, "get-url"@, name@],
    {
        let args = ["remote", "get-url", name];
        assert(crate::strings::str_views(args@) =~= seq!["remote"@, "get-url"@, name@]);
        list_of(&args)
    }

    /// Asks for the state of the work tree.
    pub fn status(&self) -> (r: Vec<String>)
        ensures
            crate::strings::views(r@) == seq!["status"@, "--porcelain=v1"@],
    {
        let args = ["status", "--porcelain=v1"];
        assert(crate::strings::str_views(args@) =~= seq!["status"@, "--porcelain=v1"@]);
        list_of(&args)
    }

    /// Asks for the files that are in conflict.
    pub fn conflicted_files(&self) -> (r: Vec<String>)
        ensures
            crate::strings::views(r@) == seq!["diff"@, "--name-only"@, "--diff-filter=U"@],
    {
        let args = ["diff", "--name-only", "--diff-filter=U"];
        assert(crate::strings::str_views(args@) =~= seq!["diff"@, "--name-only"@, "--diff-filter=U"@]);
        list_of(&args)
    }

    /// Asks for the difference to both sides of a merge.
    pub fn combined_diff(&self) -> (r: Vec<String>)
        ensures
            crate::strings::views(r@) == seq!["diff"@, "--cc"@],
    {
        let args = ["diff", "--cc"];
        assert(crate::strings::str_views(args@) =~= seq!["diff"@, "--cc"@]);
        list_of(&args)
    }

    /// Asks whether anything is staged.
    pub fn staged_changes(&self) -> (r: Vec<String>)
        ensures
            crate::strings::views(r@) == seq!["diff"@, "--cached"@, "--quiet"@],
    {
        let args = ["diff", "--cached", "--quiet"];
        assert(crate::strings::str_views(args@) =~= seq!["diff"@, "--cached"@, "--quiet"@]);
        list_of(&args)
    }
}

pub open spec fn continue_args(strategy: SyncStrategy) -> Seq<Seq<char>> {
    match strategy {
        SyncStrategy::Rebase => seq!["-c"@, "core.editor=true"@, "rebase"@, "--continue"@],
        SyncStrategy::Merge => seq!["commit"@, "--no-edit"@],
    }
}

/// How a list of arguments is shown, as the standard library writes it for debugging.
pub uninterp spec fn shown_args(args: Seq<Seq<char>>) -> Seq<char>;

/// Writes the list with `std::fmt::Debug`.
///
/// The result is a function of the list.
#[verifier::external_body]
fn show_args(args: &Vec<String>) -> (r: String)
    ensures
        r@ == shown_args(crate::strings::views(args@)),
{
    format!("{args:?}")
}

/// What is said of a git command that failed.
pub open spec fn failed_words(args: Seq<Seq<char>>, output: CommandOutput) -> Seq<char> {
    "git "@ + shown_args(args) + " failed with code "@ + crate::strings::decimal_int(
        output.status as int,
    ) + "\nstdout:\n"@ + output.stdout@ + "\nstderr:\n"@ + output.stderr@
}

/// Fails where the command failed.
pub fn git_checked(args: &Vec<String>, output: &CommandOutput) -> (r: Result<(), String>)
    ensures
        match r {
            Ok(_) => output.ok(),
            Err(words) => !output.ok() && words@ == failed_words(crate::strings::views(args@), *output),
        },
{
    if output.success() {
        Ok(())
    } else {
        Err(
            owned("git ").concat(show_args(args).as_str()).concat(" failed with code ").concat(
                i32_to_string(output.status).as_str(),
            ).concat("\nstdout:\n").concat(output.stdout.as_str()).concat("\nstderr:\n").concat(
                output.stderr.as_str(),
            ),
        )
    }
}

/// What a command found, where it succeeded.
pub open spec fn found(output: CommandOutput) -> Option<Seq<char>> {
    if output.ok() {
        Some(crate::strings::trimmed(output.stdout@))
    } else {
        None
    }
}

/// What a command found, where it succeeded.
pub fn read_found(output: &CommandOutput) -> (r: Option<String>)
    ensures
        crate::strings::opt_view(r) == found(*output),
{
    if output.success() {
        Some(trim(output.stdout.as_str()))
    } else {
        None
    }
}

/// The first word of a text.
pub open spec fn first_word(s: Seq<char>) -> Option<Seq<char>> {
    let words = crate::strings::words(s);
    if words.len() == 0 {
        None
    } else {
        Some(words[0])
    }
}

/// The commit of a branch of a remote, where the remote has that branch.
pub fn read_remote_head(remote: &str, branch: &str, output: &CommandOutput) -> (r: Result<
    Option<String>,
    String,
>)
    ensures
        match r {
            Ok(head) => output.ok() && crate::strings::opt_view(head) == first_word(output.stdout@),
            Err(words) => !output.ok() && words@ == "failed to read remote head for "@ + remote@
                + "/"@ + branch@,
        },
{
    if !output.success() {
        return Err(
            owned("failed to read remote head for ").concat(remote).concat("/").concat(branch),
        );
    }
    let mut words = split_words(output.stdout.as_str());
    if words.len() == 0 {
        assert(crate::strings::words(output.stdout@).len() == 0);
        Ok(None)
    } else {
        assert(crate::strings::views(words@)[0] == words@[0]@);
        Ok(Some(words.swap_remove(0)))
    }
}

/// The words and the number that a text holds at a place.
pub open spec fn count_at(s: Seq<char>, i: int) -> Option<nat> {
    crate::strings::parsed(crate::strings::words(s)[i])
}

/// Why the two counts of a comparison cannot be read.
pub open spec fn count_fault(s: Seq<char>) -> Option<Seq<char>> {
    let words = crate::strings::words(s);
    if words.len() == 0 {
        Some("missing ahead count"@)
    } else if count_at(s, 0) is None || count_at(s, 0)->0 > u32::MAX {
        Some("failed to parse ahead count"@)
    } else if words.len() == 1 {
        Some("missing behind count"@)
    } else if count_at(s, 1) is None || count_at(s, 1)->0 > u32::MAX {
        Some("failed to parse behind count"@)
    } else {
        None
    }
}

fn small_count(word: &str) -> (r: Option<u32>)
    ensures
        match r {
            Some(n) => crate::strings::parsed(word@) == Some(n as nat),
            None => crate::strings::parsed(word@) is None || crate::strings::parsed(word@)->0
                > u32::MAX,
        },
{
    match parse_u64(word) {
        Some(n) => if n <= u32::MAX as u64 {
            Some(n as u32)
        } else {
            None
        },
        None => None,
    }
}

impl AheadBehind {
    /// Reads what git says of two branches.
    pub fn read(output: &CommandOutput) -> (r: Result<AheadBehind, String>)
        ensures
            match r {
                Ok(counts) => count_fault(output.stdout@) is None && count_at(output.stdout@, 0)
                    == Some(counts.ahead as nat) && count_at(output.stdout@, 1) == Some(
                    counts.behind as nat,
                ),
                Err(words) => count_fault(output.stdout@) == Some(words@),
            },
    {
        let words = split_words(output.stdout.as_str());
        assert(crate::strings::views(words@) == crate::strings::words(output.stdout@));
        if words.len() == 0 {
            return Err(owned("missing ahead count"));
        }
        assert(crate::strings::views(words@)[0] == words@[0]@);
        let ahead: u32 = match small_count(words[0].as_str()) {
            None => {
                return Err(owned("failed to parse ahead count"));
            },
            Some(n) => n,
        };
        if words.len() == 1 {
            return Err(owned("missing behind count"));
        }
        assert(crate::strings::views(words@)[1] == words@[1]@);
        match small_count(words[1].as_str()) {
            None => Err(owned("failed to parse behind count")),
            Some(behind) => Ok(AheadBehind { ahead, behind }),
        }
    }
}

/// The lines that hold more than white space, without the white space around them.
pub open spec fn filled(lines: Seq<Seq<char>>) -> Seq<Seq<char>>
    decreases lines.len(),
{
    if lines.len() == 0 {
        Seq::empty()
    } else {
        let rest = filled(lines.drop_last());
        let line = crate::strings::trimmed(lines.last());
        if line.len() == 0 {
            rest
        } else {
            rest.push(line)
        }
    }
}

/// The lines of a text that hold more than white space.
pub open spec fn filled_lines(s: Seq<char>) -> Seq<Seq<char>> {
    filled(crate::strings::lines(s))
}

/// The lines of a text that hold more than white space.
pub fn read_lines(s: &str) -> (r: Vec<String>)
    ensures
        crate::strings::views(r@) == filled_lines(s@),
{
    let lines = split_lines(s);
    let ghost all = crate::strings::views(lines@);
    let mut out: Vec<String> = Vec::new();
    let mut i: usize = 0;
    assert(all.take(0) =~= Seq::empty());
    assert(crate::strings::views(out@) =~= Seq::empty());
    while i < lines.len()
        invariant
            i <= lines@.len(),
            all == crate::strings::views(lines@),
            crate::strings::views(out@) == filled(all.take(i as int)),
        decreases lines@.len() - i,
    {
        assert(all.take(i + 1).drop_last() =~= all.take(i as int));
        let line = trim(lines[i].as_str());
        if byte_len(line.as_str()) != 0 {
            proof {
                crate::text::lemma_no_bytes(line@);
            }
            push_string(&mut out, line);
        } else {
            proof {
                crate::text::lemma_no_bytes(line@);
            }
        }
        i += 1;
    }
    assert(all.take(all.len() as int) =~= all);
    out
}

/// The first `limit` files, and a remark where there are more.
pub open spec fn listed(files: Seq<Seq<char>>, limit: nat) -> Seq<Seq<char>> {
    if files.len() > limit {
        files.take(limit as int).push("... file list truncated by TermiteRS ..."@)
    } else {
        files
    }
}

/// The files that a comparison names, `limit` of them at most.
pub fn read_changed_files(output: &CommandOutput, limit: usize) -> (r: Vec<String>)
    ensures
        crate::strings::views(r@) == listed(filled_lines(output.stdout@), limit as nat),
{
    let mut files = read_lines(output.stdout.as_str());
    if files.len() > limit {
        let ghost before = files@;
        files.truncate(limit);
        assert(crate::strings::views(files@) =~= crate::strings::views(before).take(limit as int));
        push_string(&mut files, owned("... file list truncated by TermiteRS ..."));
    }
    files
}

/// A text of at most `limit` bytes, with a remark behind it where it was longer.
pub open spec fn shortened(s: Seq<char>, limit: nat, remark: Seq<char>) -> Seq<char> {
    if crate::strings::byte_count(s) > limit {
        crate::text::truncated(s, limit) + remark
    } else {
        s
    }
}

/// A text of at most `limit` bytes, with a remark behind it where it was longer.
pub fn shorten(s: &str, limit: usize, remark: &str) -> (r: String)
    ensures
        r@ == shortened(s@, limit as nat, remark@),
{
    let mut text = owned(s);
    if byte_len(s) > limit {
        truncate_to_char_boundary(&mut text, limit);
        text.append(remark);
    }
    text
}

impl ConflictSnapshot {
    /// Puts together what git says of a conflict; the difference is cut at `max_diff_bytes`.
    pub fn conflict_snapshot(
        status: &CommandOutput,
        files: &CommandOutput,
        diff: &CommandOutput,
        max_diff_bytes: usize,
    ) -> (r: ConflictSnapshot)
        ensures
            r@ == (Conflicts {
                status: status.stdout@,
                files: filled_lines(files.stdout@),
                combined_diff: shortened(
                    diff.stdout@,
                    max_diff_bytes as nat,
                    "\n... diff truncated ...\n"@,
                ),
            }),
    {
        ConflictSnapshot {
            status: status.stdout.clone(),
            files: read_lines(files.stdout.as_str()),
            combined_diff: shorten(
                diff.stdout.as_str(),
                max_diff_bytes,
                "\n... diff truncated ...\n",
            ),
        }
    }
}

/// A path that leads out of the repository.
pub open spec fn leads_out(path: Seq<char>) -> bool {
    crate::paths::is_absolute(path) || crate::paths::components(path).contains(".."@)
}

/// Refuses a path that leads out of the repository.
pub fn ensure_relative_repo_path(path: &str) -> (r: Result<(), String>)
    ensures
        match r {
            Ok(_) => !leads_out(path@),
            Err(words) => leads_out(path@) && words@ == "unsafe repository path: "@ + path@,
        },
{
    if path_is_absolute(path) || has_parent_component(path) {
        Err(owned("unsafe repository path: ").concat(path))
    } else {
        Ok(())
    }
}

/// A conflicted file, cut at `max_file_bytes`.
pub fn conflict_file_content(path: &str, content: &str, max_file_bytes: usize) -> (r: Result<
    ConflictFileContent,
    String,
>)
    ensures
        match r {
            Ok(file) => !leads_out(path@) && file.path@ == path@ && file.content@ == shortened(
                content@,
                max_file_bytes as nat,
                "\n... file truncated by TermiteRS ...\n"@,
            ),
            Err(words) => leads_out(path@) && words@ == "unsafe repository path: "@ + path@,
        },
{
    match ensure_relative_repo_path(path) {
        Err(words) => Err(words),
        Ok(()) => Ok(
            ConflictFileContent {
                path: owned(path),
                content: shorten(content, max_file_bytes, "\n... file truncated by TermiteRS ...\n"),
            },
        ),
    }
}

/// Whether anything is staged, from the status of `git diff --cached --quiet`.
pub fn has_staged_changes(output: &CommandOutput) -> (r: Result<bool, String>)
    ensures
        match r {
            Ok(staged) => (output.status == 0 && !staged) || (output.status == 1 && staged),
            Err(words) => output.status != 0 && output.status != 1 && words@
                == "failed to inspect staged changes: "@ + crate::strings::trimmed(output.stderr@),
        },
{
    if output.status == 0 {
        Ok(false)
    } else if output.status == 1 {
        Ok(true)
    } else {
        Err(
            owned("failed to inspect staged changes: ").concat(
                trim(output.stderr.as_str()).as_str(),
            ),
        )
    }
}

} // verus!
