//! Where commands run, which names and addresses count for what, and how texts are shortened.
use vstd::prelude::*;

use crate::config::BranchConfig;
use crate::linear::{GraphQlEnvelope, LinearConfig};
use crate::sandbox::Host;

verus! {

/// A command of a project sees a read-only system, an empty environment and its own work tree; neither
/// the network nor the rest of the machine.
pub proof fn law_sandbox_is_sealed(worktree: Seq<char>, command: Seq<char>)
    ensures
        crate::sandbox::sandbox_args(worktree, command) == seq![
            "--unshare-all"@,
            "--die-with-parent"@,
            "--new-session"@,
            "--clearenv"@,
            "--cap-drop"@,
            "ALL"@,
            "--proc"@,
            "/proc"@,
            "--dev"@,
            "/dev"@,
            "--tmpfs"@,
            "/tmp"@,
            "--dir"@,
            "/home"@,
            "--ro-bind"@,
            "/usr"@,
            "/usr"@,
            "--ro-bind-try"@,
            "/bin"@,
            "/bin"@,
            "--ro-bind-try"@,
            "/lib"@,
            "/lib"@,
            "--ro-bind-try"@,
            "/lib64"@,
            "/lib64"@,
            "--ro-bind-try"@,
            "/etc/ld.so.cache"@,
            "/etc/ld.so.cache"@,
            "--setenv"@,
            "PATH"@,
            "/usr/local/bin:/usr/bin:/bin"@,
            "--setenv"@,
            "HOME"@,
            "/tmp"@,
            "--setenv"@,
            "TERM"@,
            "dumb"@,
            "--bind"@,
            worktree,
            "/workspace"@,
            "--chdir"@,
            "/workspace"@,
            "/usr/bin/sh"@,
            "-lc"@,
            command,
        ],
{
}

/// A command runs only where there is a sandbox that started, and a work tree to run in.
pub proof fn law_no_sandbox_no_command(
    worktree: Seq<char>,
    host: Host,
    is_dir: bool,
    started: Result<bool, String>,
)
    ensures
        crate::sandbox::refusal(worktree, host, is_dir, started) is None <==> host is Unix && is_dir
            && started == Ok::<bool, String>(true),
{
}

/// A test checks behaviour unless it only compiles.
pub proof fn law_tests_of_behaviour(branch: BranchConfig, i: int)
    ensures
        0 <= i < branch.tests@.len() && !crate::strings::occurs(branch.tests@[i]@, "py_compile"@)
            && !crate::strings::occurs(branch.tests@[i]@, "compileall"@) ==> branch.behavioral(),
        (forall|k: int|
            0 <= k < branch.tests@.len() ==> crate::strings::occurs(
                (#[trigger] branch.tests@[k])@,
                "py_compile"@,
            ) || crate::strings::occurs(branch.tests@[k]@, "compileall"@)) ==> !branch.behavioral(),
        branch.lacks_tests() <==> branch.require_behavioral_tests && !branch.behavioral(),
{
    if 0 <= i < branch.tests@.len() && !crate::strings::occurs(branch.tests@[i]@, "py_compile"@)
        && !crate::strings::occurs(branch.tests@[i]@, "compileall"@) {
        assert(!crate::config::only_compiles(branch.tests@[i]@));
    }
}

/// The components of a path are its pieces, without the empty ones and the dots.
pub proof fn law_components_of_a_path(path: Seq<char>, x: Seq<char>)
    ensures
        crate::paths::components(path).contains(x) <==> crate::strings::split(path, '/').contains(x)
            && x.len() > 0 && x != "."@,
{
    lemma_components(crate::strings::split(path, '/'), x);
}

proof fn lemma_components(pieces: Seq<Seq<char>>, x: Seq<char>)
    ensures
        crate::paths::components_of(pieces).contains(x) <==> pieces.contains(x) && x.len() > 0 && x
            != "."@,
    decreases pieces.len(),
{
    if pieces.len() > 0 {
        let fewer = pieces.drop_last();
        lemma_components(fewer, x);
        let rest = crate::paths::components_of(fewer);
        let all = crate::paths::components_of(pieces);
        assert(pieces.contains(x) <==> fewer.contains(x) || pieces.last() == x) by {
            if fewer.contains(x) {
                let i = fewer.index_of(x);
                assert(pieces[i] == x);
            }
            if pieces.contains(x) && pieces.last() != x {
                let i = pieces.index_of(x);
                assert(fewer[i] == x);
            }
            if pieces.last() == x {
                assert(pieces[pieces.len() - 1] == x);
            }
        }
        if all != rest {
            assert(all == rest.push(pieces.last()));
            assert(all[rest.len() as int] == pieces.last());
            if rest.contains(x) {
                let i = rest.index_of(x);
                assert(all[i] == x);
            }
            if all.contains(x) && x != pieces.last() {
                let i = all.index_of(x);
                assert(rest[i] == x);
            }
        }
    }
}

/// A path that is not absolute is looked for below the base; one that is stands for itself.
pub proof fn law_joined_paths(base: Seq<char>, part: Seq<char>)
    ensures
        part.len() > 0 && part[0] == '/' ==> crate::paths::joined(base, part) == part,
        (part.len() == 0 || part[0] != '/') && base.len() > 0 && base.last() != '/'
            ==> crate::paths::joined(base, part) == base + "/"@ + part,
        (part.len() == 0 || part[0] != '/') && base.len() > 0 && base.last() == '/'
            ==> crate::paths::joined(base, part) == base + part,
        base.len() == 0 ==> crate::paths::joined(base, part) == part,
{
    if base.len() == 0 {
        assert(base + part =~= part);
    }
}

/// Where something is done on a path, that begins with the base it is below.
pub proof fn law_candidates_stand_below_the_data(data_dir: Seq<char>, id: Seq<char>)
    requires
        data_dir.len() > 0,
        data_dir.last() != '/',
        id.len() > 0,
        id[0] != '/',
    ensures
        crate::protection::candidate::candidate_dir(data_dir, id) == data_dir + "/"@
            + "protection/worktrees"@ + "/"@ + id,
{
    reveal_strlit("protection/worktrees");
    reveal_strlit("/");
    assert("protection/worktrees"@.len() == 20 && "protection/worktrees"@[0] == 'p');
    let first = crate::paths::joined(data_dir, "protection/worktrees"@);
    assert(first == data_dir + "/"@ + "protection/worktrees"@);
    assert(first.last() == "protection/worktrees"@[19]);
    assert("protection/worktrees"@[19] == 's');
}

/// What is shown of a text is its characters in their order, without the control characters that are
/// not kept.
pub proof fn law_what_is_shown(s: Seq<char>, keep: Seq<char>)
    ensures
        crate::text::shown(s, keep) == s.filter(
            |c: char| !((c as int) < 32 || 127 <= c as int <= 159) || keep.contains(c),
        ),
    decreases s.len(),
{
    reveal(Seq::filter);
    if s.len() > 0 {
        law_what_is_shown(s.drop_last(), keep);
    }
}

/// An address is this machine where it is called `localhost` or stands in the network of the machine
/// itself.
pub proof fn law_addresses_of_this_machine(host: Seq<char>)
    requires
        host.len() > 0,
        host[0] != '[',
        host.last() != ']',
    ensures
        crate::http::is_loopback_host(host) <==> crate::strings::same_ignoring_case(host, "localhost"@)
            || host == "::1"@ || (crate::http::is_ipv4(host) && crate::strings::split(host, '.')[0]
            == "127"@),
{
    assert(crate::http::trim_front_char(host, '[') == host);
    assert(crate::strings::trim_back_char(host, ']') == host);
}

/// Linear is asked where it is on, the person is named, the number is in bounds, and there is a key.
pub proof fn law_when_linear_is_asked(
    config: LinearConfig,
    expected: Seq<char>,
    key: Option<Seq<char>>,
)
    ensures
        crate::linear::request_fault(config, expected, key) is None <==> config.enabled
            && crate::strings::trimmed(expected).len() > 0 && 1 <= config.max_issues <= 50 && (
        key matches Some(k) && crate::strings::trimmed(k).len() > 0),
{
}

/// An answer is taken where it has no error, is for the person that was asked about, and holds nothing
/// of anybody else.
pub proof fn law_which_answers_are_taken(envelope: GraphQlEnvelope, expected: Seq<char>)
    ensures
        crate::linear::answer_fault(envelope, expected) is None <==> envelope.errors@.len() == 0 && (
        envelope.data matches Some(viewer) && viewer.id@ == expected && forall|i: int|
            0 <= i < viewer.nodes@.len() ==> crate::strings::opt_view(
                (#[trigger] viewer.nodes@[i]).assignee,
            ) == Some(expected)),
{
    if envelope.data is Some {
        let viewer = envelope.data->0;
        assert(forall|i: int|
            0 <= i < viewer.nodes@.len() ==> crate::linear::belongs_to(
                #[trigger] viewer.nodes@[i],
                expected,
            ) == (crate::strings::opt_view(viewer.nodes@[i].assignee) == Some(expected)));
    }
}

/// What is told of an issue comes from the fields of the same names.
pub proof fn law_issue_is_told(
    told: crate::linear::LinearIssueSummary,
    issue: crate::linear::IssueNode,
)
    requires
        crate::linear::tells(told, issue),
    ensures
        told.url == issue.url || told.url@ == issue.url@,
        told.updated_at@ == issue.updated_at@,
        told.title@ == crate::text::first_chars(crate::text::shown(issue.title@, ""@), 500),
        told.identifier@ == crate::text::first_chars(crate::text::shown(issue.identifier@, ""@), 64),
        told.status@ == crate::text::first_chars(crate::text::shown(issue.state@, ""@), 100),
        told.team@ == crate::text::first_chars(crate::text::shown(issue.team@, ""@), 40),
        told.title@.len() <= 500,
{
}

} // verus!
