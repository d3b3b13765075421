//! What holds of the remotes of a repository.
use crate::command::CommandOutput;
use crate::config::RepoConfig;
use vstd::prelude::*;

verus! {

/// The address of each remote.
pub type Remotes = Map<Seq<char>, Seq<char>>;

/// A text without white space at its ends.
pub open spec fn is_trim(s: Seq<char>) -> bool {
    crate::strings::trimmed(s) == s
}

/// What git says where it is asked for the address of a remote: the address on a line of its own,
/// and a failure where there is no such remote.
pub open spec fn tells(m: Remotes, name: Seq<char>, output: CommandOutput) -> bool {
    if m.contains_key(name) {
        output.ok() && output.stdout@ == m[name].push('\n')
    } else {
        !output.ok()
    }
}

/// The remotes after a call: one that is there gets another address, one that is not there is
/// added, and nothing else changes.
pub open spec fn after_call(m: Remotes, call: Option<Seq<Seq<char>>>) -> Remotes {
    match call {
        Some(args) => {
            let sets = args[1] == "set-url"@ && m.contains_key(args[2]);
            let adds = args[1] == "add"@ && !m.contains_key(args[2]);
            if args.len() == 4 && args[0] == "remote"@ && (sets || adds) {
                m.insert(args[2], args[3])
            } else {
                m
            }
        },
        None => m,
    }
}

/// The remote does not have an address that is the wanted one but for white space at its ends.
pub open spec fn is_told_apart(m: Remotes, name: Seq<char>, url: Seq<char>) -> bool {
    m.contains_key(name) && crate::strings::trimmed(m[name]) == url ==> m[name] == url
}

/// The remotes after both were made sure of, where git told `first` of the one and then `second` of
/// the other.
pub open spec fn after_ensuring(
    m: Remotes,
    repo: RepoConfig,
    first: CommandOutput,
    second: CommandOutput,
) -> Remotes {
    let between = after_call(
        m,
        crate::git::remote_call(repo.upstream_remote@, repo.upstream@, first),
    );
    after_call(between, crate::git::remote_call(repo.fork_remote@, repo.fork@, second))
}

/// Git told the truth each time it was asked.
pub open spec fn told(
    m: Remotes,
    repo: RepoConfig,
    first: CommandOutput,
    second: CommandOutput,
) -> bool {
    &&& tells(m, repo.upstream_remote@, first)
    &&& tells(
        after_call(m, crate::git::remote_call(repo.upstream_remote@, repo.upstream@, first)),
        repo.fork_remote@,
        second,
    )
}

/// The remotes with the upstream as it is wanted.
pub open spec fn half_wanted(m: Remotes, repo: RepoConfig) -> Remotes {
    m.insert(repo.upstream_remote@, repo.upstream@)
}

/// The remotes as they are wanted.
pub open spec fn wanted(m: Remotes, repo: RepoConfig) -> Remotes {
    half_wanted(m, repo).insert(repo.fork_remote@, repo.fork@)
}

proof fn lemma_front_of_line(s: Seq<char>)
    ensures
        crate::strings::trim_front(s.push('\n')) == (if crate::strings::trim_front(s).len() == 0 {
            Seq::empty()
        } else {
            crate::strings::trim_front(s).push('\n')
        }),
    decreases s.len(),
{
    let line = s.push('\n');
    if s.len() == 0 {
        assert(line.drop_first() =~= Seq::empty());
        assert(crate::strings::trim_front(line.drop_first()) == line.drop_first());
    } else {
        assert(line[0] == s[0]);
        if crate::strings::is_space(s[0]) {
            assert(line.drop_first() =~= s.drop_first().push('\n'));
            lemma_front_of_line(s.drop_first());
        }
    }
}

/// A line end does not matter.
proof fn lemma_trimmed_line(s: Seq<char>)
    ensures
        crate::strings::trimmed(s.push('\n')) == crate::strings::trimmed(s),
{
    let front = crate::strings::trim_front(s);
    lemma_front_of_line(s);
    if front.len() == 0 {
        assert(front =~= Seq::empty());
    } else {
        assert(front.push('\n').drop_last() =~= front);
    }
}

proof fn lemma_ensured(m: Remotes, name: Seq<char>, url: Seq<char>, output: CommandOutput)
    requires
        is_told_apart(m, name, url),
        tells(m, name, output),
    ensures
        after_call(m, crate::git::remote_call(name, url, output)) == m.insert(name, url),
        crate::git::remote_call(name, url, output) is None <==> m.contains_key(name) && m[name]
            == url && is_trim(url),
{
    if m.contains_key(name) {
        lemma_trimmed_line(m[name]);
        if m[name] == url {
            assert(m.insert(name, url) =~= m);
        }
    }
}

/// After the remotes were made sure of, the two have the addresses that the configuration wants, and
/// every other remote is as it was. A remote that has its address already is not written, where the
/// address has no white space at its ends.
pub proof fn law_remotes_are_ensured(
    m: Remotes,
    repo: RepoConfig,
    first: CommandOutput,
    second: CommandOutput,
)
    requires
        is_told_apart(m, repo.upstream_remote@, repo.upstream@),
        is_told_apart(half_wanted(m, repo), repo.fork_remote@, repo.fork@),
        told(m, repo, first, second),
    ensures
        after_ensuring(m, repo, first, second) == wanted(m, repo),
        crate::git::remote_call(repo.upstream_remote@, repo.upstream@, first) is None <==> (
        m.contains_key(repo.upstream_remote@) && m[repo.upstream_remote@] == repo.upstream@
            && is_trim(repo.upstream@)),
        crate::git::remote_call(repo.fork_remote@, repo.fork@, second) is None <==> (half_wanted(
            m,
            repo,
        ).contains_key(repo.fork_remote@) && half_wanted(m, repo)[repo.fork_remote@] == repo.fork@
            && is_trim(repo.fork@)),
{
    lemma_ensured(m, repo.upstream_remote@, repo.upstream@, first);
    lemma_ensured(half_wanted(m, repo), repo.fork_remote@, repo.fork@, second);
}

/// Making sure of remotes that were made sure of writes nothing. The addresses have no white space at
/// their ends, and one remote is not to have two of them.
pub proof fn law_remotes_are_ensured_once(
    m: Remotes,
    repo: RepoConfig,
    first: CommandOutput,
    second: CommandOutput,
)
    requires
        is_trim(repo.upstream@),
        is_trim(repo.fork@),
        repo.upstream_remote@ == repo.fork_remote@ ==> repo.upstream@ == repo.fork@,
        told(wanted(m, repo), repo, first, second),
    ensures
        crate::git::remote_call(repo.upstream_remote@, repo.upstream@, first) is None,
        crate::git::remote_call(repo.fork_remote@, repo.fork@, second) is None,
        after_ensuring(wanted(m, repo), repo, first, second) == wanted(m, repo),
{
    law_remotes_are_ensured(wanted(m, repo), repo, first, second);
    assert(wanted(wanted(m, repo), repo) =~= wanted(m, repo));
}

/// After the remotes were made sure of, the fork is found at its address, the upstream at its own but
/// for white space at its ends, and a name that is no remote is found to have no address.
pub proof fn law_ensured_remote_is_found(
    m: Remotes,
    repo: RepoConfig,
    name: Seq<char>,
    output: CommandOutput,
)
    requires
        is_trim(repo.fork@),
        tells(wanted(m, repo), name, output),
    ensures
        name == repo.fork_remote@ ==> crate::git::found(output) == Some(repo.fork@),
        name == repo.upstream_remote@ && name != repo.fork_remote@ ==> crate::git::found(output)
            == Some(crate::strings::trimmed(repo.upstream@)),
        !wanted(m, repo).contains_key(name) ==> crate::git::found(output) is None,
{
    lemma_trimmed_line(repo.fork@);
    lemma_trimmed_line(repo.upstream@);
}

} // verus!
