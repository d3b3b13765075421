# TermiteRS

TermiteRS keeps long-lived branches of a fork in step with their upstream. It rebases or merges
each branch, lets a language model help with conflicts within narrow limits, runs the tests of the
branch and pushes only where the remote has not moved. Around that stand a daemon, a service with
guided conflict resolution, a protection of the project against unsafe dependencies and commits,
and a watch over pull requests and local tasks.

## Layout

- `src/` is the library. Every decision of the program is made here and is verified with Verus: the
  contracts say what each function returns, and the `law_*` proof functions say what holds across
  functions. Where the program alternates between deciding and acting, the library holds a state
  machine: a `step` takes what came of the last action and names the next one.
- `src/laws/` holds the laws that span several modules; other laws stand beside the functions that
  they speak of.
- `app/` is the program around the library: arguments, files, processes, network and database. It
  performs the actions that the library names and hands back what came of them.
- `tests/` runs the library on concrete values.

## Outside crates

The library calls a few outside crates through small wrappers, each with a doc comment that says
what is taken on trust: `ring` for digests, `serde_json` and `toml` for reading documents, `similar`
for diffs, `argon2` for passwords, `chrono` for writing times and `reqwest` for reading addresses.
