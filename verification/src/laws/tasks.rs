//! What a local task is let do, and what is told of it.
use vstd::prelude::*;

use crate::autonomy::local_task::{LocalTaskState, LocalTaskStep, TaskEvent, TaskStage, TaskState, Tasking};
use crate::autonomy::{AutonomyConfig, PermissionMode};
use crate::config::Config;

verus! {

/// The ending is that of one of the kinds of source file and text that may be shown to a model.
pub open spec fn is_source(ending: Seq<char>) -> bool {
    ending == "rs"@ || ending == "go"@ || ending == "py"@ || ending == "ts"@ || ending == "tsx"@ || ending
        == "js"@ || ending == "jsx"@ || ending == "java"@ || ending == "kt"@ || ending == "md"@
}

/// A file may be shown to a model where its path stays in the repository, says nothing of secrets and
/// ends like a source file.
pub proof fn law_what_may_be_shown(path: Seq<char>)
    ensures
        ({
            let text = crate::strings::lower(path);
            crate::autonomy::local_task::path_fault(path) is None <==> {
                &&& !crate::paths::is_absolute(path)
                &&& !crate::paths::components(path).contains(".."@)
                &&& crate::strings::split(path, '/')[0] != "."@
                &&& !crate::strings::occurs(text, ".env"@)
                &&& !crate::strings::occurs(text, "secret"@)
                &&& !crate::strings::occurs(text, "credential"@)
                &&& !crate::strings::occurs(text, "token"@)
                &&& !crate::strings::occurs(text, "private"@)
                &&& !crate::strings::occurs(text, ".pem"@)
                &&& !crate::strings::occurs(text, ".key"@)
                &&& is_source(crate::strings::lower(crate::autonomy::local_task::extension(path)))
            }
        }),
{
    let list = crate::autonomy::local_task::readable_extensions();
    let e = crate::strings::lower(crate::autonomy::local_task::extension(path));
    assert(list.len() == 10);
    if list.contains(e) {
        let i = list.index_of(e);
        assert(list[i] == e);
    }
    assert(list[0] == "rs"@ && list[1] == "go"@ && list[2] == "py"@ && list[3] == "ts"@ && list[4]
        == "tsx"@ && list[5] == "js"@ && list[6] == "jsx"@ && list[7] == "java"@ && list[8] == "kt"@
        && list[9] == "md"@);
}

/// What is done about an action goes by the permission of its own name, and only where the whole flow
/// is on and the repository is in scope.
pub open spec fn permitted(
    permission: PermissionMode,
    autonomy: AutonomyConfig,
    root: Seq<char>,
    places: Map<Seq<char>, Seq<char>>,
) -> PermissionMode {
    if autonomy.enabled && autonomy.scope.admits_local(root, places) {
        permission
    } else {
        PermissionMode::Deny
    }
}

/// A test runs where tests are allowed, is asked about where they are to be asked about, and ends the
/// task where they are denied or the model asks for one that is not there.
pub proof fn law_tests_of_a_task(
    s: TaskState,
    test_index: usize,
    config: Config,
    autonomy: AutonomyConfig,
    places: Map<Seq<char>, Seq<char>>,
)
    ensures
        ({
            let next = crate::autonomy::local_task::task_step(
                s,
                TaskEvent::Planned(LocalTaskStep::RunTests { test_index }),
                config,
                autonomy,
                places,
            );
            let mode = permitted(autonomy.permissions.run_tests, autonomy, s.root, places);
            &&& test_index >= s.tests.len() ==> next.1 is Fail
            &&& test_index < s.tests.len() && mode is Allow ==> next.1 == Tasking::Test(
                s.tests[test_index as int],
            )
            &&& test_index < s.tests.len() && mode is Ask ==> next.1 == Tasking::Approve("run_tests"@)
                && next.0.test_at == test_index
            &&& mode is Deny ==> next.1 is Fail
        }),
{
}

/// A look around and a file go by the permission to read; a file also by what may be shown.
pub proof fn law_readings_of_a_task(
    s: TaskState,
    path: String,
    config: Config,
    autonomy: AutonomyConfig,
    places: Map<Seq<char>, Seq<char>>,
)
    ensures
        ({
            let mode = permitted(autonomy.permissions.local_read, autonomy, s.root, places);
            let look = crate::autonomy::local_task::task_step(
                s,
                TaskEvent::Planned(LocalTaskStep::Inspect),
                config,
                autonomy,
                places,
            );
            let read = crate::autonomy::local_task::task_step(
                s,
                TaskEvent::Planned(LocalTaskStep::ReadFile { path }),
                config,
                autonomy,
                places,
            );
            &&& mode is Deny ==> look.1 is Fail && read.1 is Fail
            &&& mode is Ask ==> look.1 == Tasking::Approve("local_read"@) && read.1 == Tasking::Approve(
                "local_read"@,
            )
            &&& mode is Allow ==> look.1 == Tasking::Git(seq!["status"@, "--short"@])
            &&& mode is Allow && crate::autonomy::local_task::path_fault(path@) is None ==> read.1
                == Tasking::Git(seq!["ls-files"@, "--error-unmatch"@, "--"@, path@])
            &&& mode is Allow && crate::autonomy::local_task::path_fault(path@) is Some ==> read.1 is Fail
            &&& read.0.path == path@
        }),
{
}

/// What is refused by a person ends the task; what is approved is what was asked about.
pub proof fn law_approval_of_a_step(
    s: TaskState,
    given: bool,
    config: Config,
    autonomy: AutonomyConfig,
    places: Map<Seq<char>, Seq<char>>,
)
    requires
        s.wf(),
    ensures
        ({
            let next = crate::autonomy::local_task::task_step(
                s,
                TaskEvent::Approved(given),
                config,
                autonomy,
                places,
            );
            &&& !given ==> next.1 is Fail
            &&& given && s.stage is AskStart ==> next.1 == Tasking::Git(
                seq!["symbolic-ref"@, "--short"@, "HEAD"@],
            )
            &&& given && s.stage is AskInspect ==> next.1 == Tasking::Git(seq!["status"@, "--short"@])
            &&& given && s.stage is AskTest ==> next.1 == Tasking::Test(s.tests[s.test_at as int])
            &&& given && s.stage is AskRead && crate::autonomy::local_task::path_fault(s.path) is Some
                ==> next.1 is Fail
            &&& given && s.stage is AskRead && crate::autonomy::local_task::path_fault(s.path) is None
                ==> next.1 == Tasking::Git(seq!["ls-files"@, "--error-unmatch"@, "--"@, s.path])
        }),
{
}

/// A task works in the root of a repository only, and reads files that are small, ordinary, tracked and
/// inside of it.
pub proof fn law_places_of_a_task(
    s: TaskState,
    place: String,
    is_file: bool,
    bytes: u64,
    output: crate::command::CommandOutput,
    config: Config,
    autonomy: AutonomyConfig,
    places: Map<Seq<char>, Seq<char>>,
)
    ensures
        s.stage is TopPlace && place@ != s.root ==> crate::autonomy::local_task::task_step(
            s,
            TaskEvent::Place(place),
            config,
            autonomy,
            places,
        ).1 is Fail,
        s.stage is FilePlace ==> (crate::autonomy::local_task::task_step(
            s,
            TaskEvent::Place(place),
            config,
            autonomy,
            places,
        ).1 == (if crate::paths::is_absolute(place@) == crate::paths::is_absolute(s.root)
            && crate::paths::components(s.root).is_prefix_of(crate::paths::components(place@)) {
            Tasking::Read(s.path)
        } else {
            Tasking::Fail("文件解析后越出仓库"@)
        })),
        s.stage is Look ==> (crate::autonomy::local_task::task_step(
            s,
            TaskEvent::Looked { is_file, bytes },
            config,
            autonomy,
            places,
        ).1 is Fail <==> !is_file || bytes > 24_576),
        s.stage is Known && !output.ok() ==> crate::autonomy::local_task::task_step(
            s,
            TaskEvent::Output(output),
            config,
            autonomy,
            places,
        ).1 is Fail,
{
}

/// What the model gets to see next is what the step brought, and after eight steps the task stops.
pub proof fn law_what_a_step_brings(
    s: TaskState,
    content: String,
    output: crate::command::CommandOutput,
    config: Config,
    autonomy: AutonomyConfig,
    places: Map<Seq<char>, Seq<char>>,
)
    requires
        s.wf(),
    ensures
        s.stage is Content ==> ({
            let next = crate::autonomy::local_task::task_step(
                s,
                TaskEvent::Content(content),
                config,
                autonomy,
                places,
            );
            &&& next.0.observation == crate::autonomy::local_task::bounded(
                "文件 "@ + s.path + "：\n"@ + content@,
            )
            &&& s.at < 8 ==> next.1 is Plan && next.0.at == s.at + 1
            &&& s.at == 8 ==> (next.1 matches Tasking::Finished(result)
                && result.state == LocalTaskState::Stopped)
        }),
        s.stage is Test ==> ({
            let next = crate::autonomy::local_task::task_step(
                s,
                TaskEvent::Output(output),
                config,
                autonomy,
                places,
            );
            &&& next.0.observation == crate::autonomy::local_task::bounded(
                "测试："@ + s.tests[s.test_at as int] + "\n退出码："@ + crate::strings::decimal_int(
                    output.status as int,
                ) + "\nstdout:\n"@ + output.stdout@ + "\nstderr:\n"@ + output.stderr@,
            )
            &&& s.at < 8 ==> next.1 is Plan && next.0.at == s.at + 1
            &&& s.at == 8 ==> (next.1 matches Tasking::Finished(result)
                && result.state == LocalTaskState::Stopped)
        }),
        s.stage is Files && output.ok() ==> crate::autonomy::local_task::task_step(
            s,
            TaskEvent::Output(output),
            config,
            autonomy,
            places,
        ).0.observation == crate::autonomy::local_task::bounded(
            "Git 状态：\n"@ + s.status + "\n跟踪文件：\n"@ + output.stdout@,
        ),
{
}

/// A task is finished when the model says what came of it; without that it fails.
pub proof fn law_end_of_a_task(
    s: TaskState,
    summary: String,
    config: Config,
    autonomy: AutonomyConfig,
    places: Map<Seq<char>, Seq<char>>,
)
    ensures
        ({
            let next = crate::autonomy::local_task::task_step(
                s,
                TaskEvent::Planned(LocalTaskStep::Finish { summary }),
                config,
                autonomy,
                places,
            );
            &&& crate::strings::trimmed(summary@).len() == 0 ==> next.1 is Fail
            &&& crate::strings::trimmed(summary@).len() > 0 ==> (next.1 matches Tasking::Finished(result)
                && result.state == LocalTaskState::Finished && result.summary == summary@ && result.trace
                == s.trace)
        }),
{
}

/// The tests that can be chosen are those of the branch that is checked out.
pub proof fn law_tests_of_the_branch(config: Config, branch: crate::command::CommandOutput, i: int)
    requires
        branch.ok(),
        0 <= i < config.branches@.len(),
        config.branches@[i].name@ == crate::strings::trimmed(branch.stdout@),
        forall|k: int|
            0 <= k < i ==> (#[trigger] config.branches@[k]).name@ != crate::strings::trimmed(
                branch.stdout@,
            ),
    ensures
        crate::autonomy::local_task::tests_of(config, branch) == crate::strings::views(
            config.branches@[i].tests@,
        ),
{
    crate::laws::candidates::law_branch_is_found_by_name(
        config.branches@,
        crate::strings::trimmed(branch.stdout@),
        0,
    );
}

/// A secret of eight bytes or more is hidden wherever it stands, one after the other.
pub proof fn law_secrets_are_hidden(value: Seq<char>, secrets: Seq<Seq<char>>, n: int)
    requires
        0 < n <= secrets.len(),
    ensures
        crate::strings::byte_count(secrets[n - 1]) >= 8 ==> crate::autonomy::task_report::redacted(
            value,
            secrets,
            n,
        ) == crate::strings::replaced(
            crate::autonomy::task_report::redacted(value, secrets, n - 1),
            secrets[n - 1],
            "[凭据已隐藏]"@,
        ),
        crate::autonomy::task_report::redacted(value, secrets, 0) == value,
{
}

/// A report is bounded in every part, and goes through the hiding of secrets in every part.
pub proof fn law_report_is_bounded(
    report: crate::autonomy::task_report::TaskReport,
    request: Seq<char>,
    provider: Seq<char>,
    model: Seq<char>,
    outcome: crate::autonomy::task_report::TaskReportOutcome,
    trace: Seq<Seq<char>>,
    summary: Seq<char>,
    secrets: Seq<Seq<char>>,
)
    requires
        report.tells(request, provider, model, outcome, trace, summary, secrets),
    ensures
        report.outcome == outcome,
        report.request@ == cut(
            crate::autonomy::task_report::redacted(request, secrets, secrets.len() as int),
            4_000,
        ),
        report.summary@ == cut(
            crate::autonomy::task_report::redacted(summary, secrets, secrets.len() as int),
            16_000,
        ),
        report.trace@.len() <= 32,
        report.trace@.len() <= trace.len(),
        trace.len() <= 32 ==> report.trace@.len() == trace.len(),
        forall|i: int|
            0 <= i < report.trace@.len() ==> (#[trigger] report.trace@[i])@ == cut(
                crate::autonomy::task_report::redacted(trace[i], secrets, secrets.len() as int),
                1_000,
            ),
{
    assert(crate::strings::views(report.trace@).len() == report.trace@.len());
    assert forall|i: int| 0 <= i < report.trace@.len() implies (#[trigger] report.trace@[i])@ == cut(
        crate::autonomy::task_report::redacted(trace[i], secrets, secrets.len() as int),
        1_000,
    ) by {
        assert(crate::strings::views(report.trace@)[i] == report.trace@[i]@);
    }
}

/// At most `max` characters of what can be shown, and a mark where there were more.
pub open spec fn cut(value: Seq<char>, max: nat) -> Seq<char> {
    let text = crate::text::shown(value, "\n\t"@);
    if text.len() <= max {
        text
    } else {
        text.take(max as int) + "...[已截断]"@
    }
}

} // verus!
