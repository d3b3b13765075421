//! The sandbox in which the commands of a project run: without the network, the credentials and
//! the file system of the host.
use crate::command::CommandOutput;
use crate::strings::{list_of, owned, trim};
use vstd::prelude::*;

verus! {

/// How many seconds a command may take.
pub const SANDBOX_TIMEOUT_SECONDS: u64 = 1800;

/// How many bytes a command may write to each of its outputs.
pub const MAX_OUTPUT_BYTES: usize = 4194304;

/// What the program runs on.
#[derive(Debug, Clone, Copy, PartialEq, Eq, Structural)]
pub enum Host {
    Unix,
    Windows,
}

/// The options that do not depend on the command.
pub open spec fn fixed_options() -> Seq<Seq<char>> {
    seq![
        "--unshare-all"@,
        "--die-with-parent"@,
        "--new-session"@,
        "--clearenv"@,
        "--cap-drop"@,
        "ALL"@,
        "--proc"@,
        "/proc"@,
        "--dev"@,
        "/dev"@,
        "--tmpfs"@,
        "/tmp"@,
        "--dir"@,
        "/home"@,
        "--ro-bind"@,
        "/usr"@,
        "/usr"@,
        "--ro-bind-try"@,
        "/bin"@,
        "/bin"@,
        "--ro-bind-try"@,
        "/lib"@,
        "/lib"@,
        "--ro-bind-try"@,
        "/lib64"@,
        "/lib64"@,
        "--ro-bind-try"@,
        "/etc/ld.so.cache"@,
        "/etc/ld.so.cache"@,
        "--setenv"@,
        "PATH"@,
        "/usr/local/bin:/usr/bin:/bin"@,
        "--setenv"@,
        "HOME"@,
        "/tmp"@,
        "--setenv"@,
        "TERM"@,
        "dumb"@,
    ]
}

/// The arguments of the sandbox: its options, the one directory that can be written, and the
/// command for the shell.
pub open spec fn sandbox_args(worktree: Seq<char>, command: Seq<char>) -> Seq<Seq<char>> {
    fixed_options() + seq![
        "--bind"@,
        worktree,
        "/workspace"@,
        "--chdir"@,
        "/workspace"@,
        "/usr/bin/sh"@,
        "-lc"@,
        command,
    ]
}

/// The arguments of the sandbox.
pub fn bubblewrap_args(worktree: &str, command: &str) -> (r: Vec<String>)
    ensures
        crate::strings::views(r@) == sandbox_args(worktree@, command@),
{
    let parts = [
        "--unshare-all",
        "--die-with-parent",
        "--new-session",
        "--clearenv",
        "--cap-drop",
        "ALL",
        "--proc",
        "/proc",
        "--dev",
        "/dev",
        "--tmpfs",
        "/tmp",
        "--dir",
        "/home",
        "--ro-bind",
        "/usr",
        "/usr",
        "--ro-bind-try",
        "/bin",
        "/bin",
        "--ro-bind-try",
        "/lib",
        "/lib",
        "--ro-bind-try",
        "/lib64",
        "/lib64",
        "--ro-bind-try",
        "/etc/ld.so.cache",
        "/etc/ld.so.cache",
        "--setenv",
        "PATH",
        "/usr/local/bin:/usr/bin:/bin",
        "--setenv",
        "HOME",
        "/tmp",
        "--setenv",
        "TERM",
        "dumb",
        "--bind",
        worktree,
        "/workspace",
        "--chdir",
        "/workspace",
        "/usr/bin/sh",
        "-lc",
        command,
    ];
    assert(crate::strings::str_views(parts@) =~= sandbox_args(worktree@, command@));
    list_of(&parts)
}

/// Refuses to go on without a sandbox. `started` says how `bwrap --version` ended, or why it could
/// not be started.
pub fn ensure_bubblewrap_available(started: &Result<bool, String>) -> (r: Result<(), String>)
    ensures
        match r {
            Ok(_) => *started == Ok::<bool, String>(true),
            Err(words) => words@ == (match *started {
                Ok(_) => "Bubblewrap 自检失败，项目保护必须失败关闭"@,
                Err(cause) => "未安装 Bubblewrap，项目保护必须失败关闭: "@ + cause@,
            }) && *started != Ok::<bool, String>(true),
        },
{
    match started {
        Ok(true) => Ok(()),
        Ok(false) => Err(owned("Bubblewrap 自检失败，项目保护必须失败关闭")),
        Err(cause) => Err(
            owned("未安装 Bubblewrap，项目保护必须失败关闭: ").concat(cause.as_str()),
        ),
    }
}

/// The words with which a command is refused, if it is.
pub open spec fn refusal(
    worktree: Seq<char>,
    host: Host,
    is_dir: bool,
    started: Result<bool, String>,
) -> Option<Seq<char>> {
    if host is Windows {
        Some(
            "Windows 主机没有启用 TermiteRS 项目沙箱，已拒绝执行 "@ + worktree
                + " 中的项目命令；请在 WSL/Linux Bubblewrap 环境运行"@,
        )
    } else if !is_dir {
        Some("沙箱 worktree 不存在："@ + worktree)
    } else {
        match started {
            Ok(true) => None,
            Ok(false) => Some("Bubblewrap 自检失败，项目保护必须失败关闭"@),
            Err(cause) => Some("未安装 Bubblewrap，项目保护必须失败关闭: "@ + cause@),
        }
    }
}

/// The arguments with which a command is run in the sandbox, or why it is not run at all.
pub fn run_sandboxed(
    command: &str,
    worktree: &str,
    host: Host,
    is_dir: bool,
    started: &Result<bool, String>,
) -> (r: Result<Vec<String>, String>)
    ensures
        match r {
            Ok(args) => refusal(worktree@, host, is_dir, *started) is None && crate::strings::views(
                args@,
            ) == sandbox_args(worktree@, command@),
            Err(words) => refusal(worktree@, host, is_dir, *started) == Some(words@),
        },
{
    if host == Host::Windows {
        return Err(
            owned("Windows 主机没有启用 TermiteRS 项目沙箱，已拒绝执行 ").concat(
                worktree,
            ).concat(" 中的项目命令；请在 WSL/Linux Bubblewrap 环境运行"),
        );
    }
    if !is_dir {
        return Err(owned("沙箱 worktree 不存在：").concat(worktree));
    }
    match ensure_bubblewrap_available(started) {
        Err(words) => Err(words),
        Ok(()) => Ok(bubblewrap_args(worktree, command)),
    }
}

/// The words of a command that took too long, once it has.
pub fn check_time(elapsed_seconds: u64) -> (r: Result<(), &'static str>)
    ensures
        match r {
            Ok(_) => elapsed_seconds < SANDBOX_TIMEOUT_SECONDS,
            Err(words) => elapsed_seconds >= SANDBOX_TIMEOUT_SECONDS && words@
                == "沙箱命令超过 1800 秒，已终止"@,
        },
{
    if elapsed_seconds >= SANDBOX_TIMEOUT_SECONDS {
        Err("沙箱命令超过 1800 秒，已终止")
    } else {
        Ok(())
    }
}

/// What is kept of an output, and whether there was more. `output` holds what was read, which goes
/// at most one byte beyond the limit.
pub fn read_capped(output: Vec<u8>) -> (r: (Vec<u8>, bool))
    ensures
        r.1 == (output@.len() > MAX_OUTPUT_BYTES),
        r.0@ == (if output@.len() > MAX_OUTPUT_BYTES {
            output@.take(MAX_OUTPUT_BYTES as int)
        } else {
            output@
        }),
{
    let mut kept = output;
    let exceeded = kept.len() > MAX_OUTPUT_BYTES;
    if exceeded {
        kept.truncate(MAX_OUTPUT_BYTES);
        assert(output@.subrange(0, MAX_OUTPUT_BYTES as int) =~= output@.take(
            MAX_OUTPUT_BYTES as int,
        ));
    }
    (kept, exceeded)
}

/// What came of a command that ended. A command that a signal ended has no status of its own, and
/// one that wrote too much counts for nothing.
pub fn finish_sandboxed(
    status: Option<i32>,
    stdout: String,
    stderr: String,
    stdout_exceeded: bool,
    stderr_exceeded: bool,
) -> (r: Result<CommandOutput, String>)
    ensures
        match r {
            Ok(output) => {
                &&& !stdout_exceeded && !stderr_exceeded
                &&& output.status == (match status {
                    Some(status) => status,
                    None => -1i32,
                })
                &&& output.stdout == stdout
                &&& output.stderr == stderr
            },
            Err(words) => (stdout_exceeded || stderr_exceeded) && words@
                == "沙箱命令输出超过 4194304 字节，已拒绝继续"@,
        },
{
    if stdout_exceeded || stderr_exceeded {
        return Err(owned("沙箱命令输出超过 4194304 字节，已拒绝继续"));
    }
    let status: i32 = match status {
        Some(status) => status,
        None => -1,
    };
    Ok(CommandOutput { status, stdout, stderr })
}

/// The command that finds out whether the sandbox keeps the credentials of the host away.
pub const SELF_TEST: &'static str =
    "test ! -e /etc/termiters/termiters.env && test -z \"${DEEPSEEK_API_KEY+x}\"";

/// Judges what came of the self-test.
pub fn verify_sandbox(output: &CommandOutput) -> (r: Result<(), String>)
    ensures
        match r {
            Ok(_) => output.ok(),
            Err(words) => !output.ok() && words@ == "项目沙箱自检失败："@
                + crate::strings::trimmed(output.stderr@),
        },
{
    if output.success() {
        Ok(())
    } else {
        Err(owned("项目沙箱自检失败：").concat(trim(output.stderr.as_str()).as_str()))
    }
}

/// Neither the root of the host nor a directory that can be written is named by this word.
spec fn is_harmless(word: Seq<char>) -> bool {
    word != "--bind"@ && word != "/"@
}

proof fn lemma_fixed_options_are_harmless()
    ensures
        forall|i: int|
            0 <= i < fixed_options().len() ==> is_harmless(#[trigger] fixed_options()[i]),
{
    reveal_strlit("--bind");
    assert("--bind"@.len() == 6);
    reveal_strlit("/");
    assert("/"@.len() == 1);
    assert("--bind"@[0] == '-' && "--bind"@[2] == 'b');
    reveal_strlit("--unshare-all");
    assert("--unshare-all"@.len() == 13);
    reveal_strlit("--die-with-parent");
    assert("--die-with-parent"@.len() == 17);
    reveal_strlit("--new-session");
    assert("--new-session"@.len() == 13);
    reveal_strlit("--clearenv");
    assert("--clearenv"@.len() == 10);
    reveal_strlit("--cap-drop");
    assert("--cap-drop"@.len() == 10);
    reveal_strlit("ALL");
    assert("ALL"@.len() == 3);
    reveal_strlit("--proc");
    assert("--proc"@.len() == 6);
    reveal_strlit("/proc");
    assert("/proc"@.len() == 5);
    reveal_strlit("--dev");
    assert("--dev"@.len() == 5);
    reveal_strlit("/dev");
    assert("/dev"@.len() == 4);
    reveal_strlit("--tmpfs");
    assert("--tmpfs"@.len() == 7);
    reveal_strlit("/tmp");
    assert("/tmp"@.len() == 4);
    reveal_strlit("--dir");
    assert("--dir"@.len() == 5);
    reveal_strlit("/home");
    assert("/home"@.len() == 5);
    reveal_strlit("--ro-bind");
    assert("--ro-bind"@.len() == 9);
    reveal_strlit("/usr");
    assert("/usr"@.len() == 4);
    reveal_strlit("--ro-bind-try");
    assert("--ro-bind-try"@.len() == 13);
    reveal_strlit("/bin");
    assert("/bin"@.len() == 4);
    reveal_strlit("/lib");
    assert("/lib"@.len() == 4);
    reveal_strlit("/lib64");
    assert("/lib64"@.len() == 6);
    reveal_strlit("/etc/ld.so.cache");
    assert("/etc/ld.so.cache"@.len() == 16);
    reveal_strlit("--setenv");
    assert("--setenv"@.len() == 8);
    reveal_strlit("PATH");
    assert("PATH"@.len() == 4);
    reveal_strlit("/usr/local/bin:/usr/bin:/bin");
    assert("/usr/local/bin:/usr/bin:/bin"@.len() == 28);
    reveal_strlit("HOME");
    assert("HOME"@.len() == 4);
    reveal_strlit("TERM");
    assert("TERM"@.len() == 4);
    reveal_strlit("dumb");
    assert("dumb"@.len() == 4);
    assert("--proc"@[2] == 'p');
    assert("/lib64"@[0] == '/');
    assert(is_harmless("--unshare-all"@));
    assert(is_harmless("--die-with-parent"@));
    assert(is_harmless("--new-session"@));
    assert(is_harmless("--clearenv"@));
    assert(is_harmless("--cap-drop"@));
    assert(is_harmless("ALL"@));
    assert(is_harmless("--proc"@));
    assert(is_harmless("/proc"@));
    assert(is_harmless("--dev"@));
    assert(is_harmless("/dev"@));
    assert(is_harmless("--tmpfs"@));
    assert(is_harmless("/tmp"@));
    assert(is_harmless("--dir"@));
    assert(is_harmless("/home"@));
    assert(is_harmless("--ro-bind"@));
    assert(is_harmless("/usr"@));
    assert(is_harmless("--ro-bind-try"@));
    assert(is_harmless("/bin"@));
    assert(is_harmless("/lib"@));
    assert(is_harmless("/lib64"@));
    assert(is_harmless("/etc/ld.so.cache"@));
    assert(is_harmless("--setenv"@));
    assert(is_harmless("PATH"@));
    assert(is_harmless("/usr/local/bin:/usr/bin:/bin"@));
    assert(is_harmless("HOME"@));
    assert(is_harmless("TERM"@));
    assert(is_harmless("dumb"@));
    assert(fixed_options().len() == 38);
    assert forall|i: int| 0 <= i < 38 implies is_harmless(#[trigger] fixed_options()[i]) by {
        assert(fixed_options()[i] == fixed_options()[i]);
    }
}

/// The options never bind the root of the host, and bind nothing of it that could be written. What
/// the caller gives stands in two places only: as the directory that can be written, and as the
/// words for the shell.
pub proof fn law_host_is_out_of_reach(worktree: Seq<char>, command: Seq<char>)
    ensures
        ({
            let args = sandbox_args(worktree, command);
            let n = fixed_options().len() as int;
            &&& args.take(n) == fixed_options()
            &&& args.len() == n + 8
            &&& args[n] == "--bind"@
            &&& args[n + 1] == worktree
            &&& args[n + 2] == "/workspace"@
            &&& args.last() == command
            &&& fixed_options().contains("--unshare-all"@)
            &&& fixed_options().contains("--clearenv"@)
            &&& !fixed_options().contains("--bind"@)
            &&& !fixed_options().contains("/"@)
        }),
{
    let args = sandbox_args(worktree, command);
    assert(args.take(fixed_options().len() as int) =~= fixed_options());
    assert(fixed_options()[0] == "--unshare-all"@);
    assert(fixed_options()[3] == "--clearenv"@);
    lemma_fixed_options_are_harmless();
}

} // verus!
