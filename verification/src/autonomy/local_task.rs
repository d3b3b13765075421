//! A bounded task in the local repository. The model chooses the steps; which of them run, and
//! what the model gets to see, is decided here.
use crate::autonomy::{AutonomyAction, AutonomyConfig, AutonomyTarget, PermissionMode};
use crate::command::CommandOutput;
use crate::config::Config;
use crate::git::shorten;
use crate::paths::{has_parent_component, path_components, path_file_name, path_is_absolute};
use crate::protection::investigate::find_branch;
use crate::strings::{
    contains, copy_list, i32_to_string, is_one_of, list_of, owned, push_string, same, split_on,
    to_lower, trim, usize_to_string,
};
use crate::table::TextTable;
use crate::text::is_blank;
use vstd::prelude::*;

verus! {

/// How many steps a task has.
pub const MAX_STEPS: usize = 8;

/// How many bytes a file may have that the model reads.
pub const MAX_FILE_BYTES: u64 = 24576;

/// How many bytes of an observation the model gets.
pub const MAX_OBSERVATION_BYTES: usize = 12288;

/// A step that the model chose. None of them holds a command.
#[derive(Debug, Clone)]
pub enum LocalTaskStep {
    Inspect,
    ReadFile { path: String },
    RunTests { test_index: usize },
    Finish { summary: String },
}

/// What the model is told before it chooses.
#[derive(Debug)]
pub struct LocalTaskContext<'a> {
    pub request: &'a str,
    pub repository: &'a str,
    pub observation: &'a str,
    pub tests: &'a Vec<String>,
    pub step: usize,
}

#[derive(Debug, Clone, Copy, PartialEq, Eq, Structural)]
pub enum LocalTaskState {
    Finished,
    Stopped,
}

#[derive(Debug)]
pub struct LocalTaskResult {
    pub state: LocalTaskState,
    pub summary: String,
    pub trace: Vec<String>,
}

/// What a task came to.
#[verifier::ext_equal]
pub struct TaskOutcome {
    pub state: LocalTaskState,
    pub summary: Seq<char>,
    pub trace: Seq<Seq<char>>,
}

impl View for LocalTaskResult {
    type V = TaskOutcome;

    open spec fn view(&self) -> TaskOutcome {
        TaskOutcome {
            state: self.state,
            summary: self.summary@,
            trace: crate::strings::views(self.trace@),
        }
    }
}

/// What the task waits for.
#[derive(Debug, Clone, Copy, PartialEq, Eq, Structural)]
pub enum TaskStage {
    /// The root of the work tree.
    Top,
    /// What that root stands for in the file system.
    TopPlace,
    /// The leave to read, before anything is looked at.
    AskStart,
    Branch,
    /// The next step of the model.
    Plan,
    AskInspect,
    AskRead,
    AskTest,
    Status,
    Files,
    /// Whether git knows the file.
    Known,
    /// What kind of file it is.
    Look,
    /// What its path stands for.
    FilePlace,
    Content,
    Test,
    Over,
}

/// What came of the last action.
#[derive(Debug)]
pub enum TaskEvent {
    Output(CommandOutput),
    /// The path without links.
    Place(String),
    Approved(bool),
    Planned(LocalTaskStep),
    Looked { is_file: bool, bytes: u64 },
    Content(String),
    /// The action could not be done.
    Failed(String),
}

/// What the caller is to do next.
#[derive(Debug)]
pub enum TaskAction {
    /// Run git in the repository.
    Git(Vec<String>),
    /// Say what a path stands for. A relative one lies in the repository.
    Resolve(String),
    /// Ask a person for leave to do this once.
    Approve(&'static str),
    /// Let the model choose, given the context.
    Plan,
    /// Say what kind of file lies at the path, without following a link.
    Look(String),
    Read(String),
    /// Run a test in the sandbox.
    Test(String),
    Finished(LocalTaskResult),
    Fail(String),
}

/// What an action is.
#[verifier::ext_equal]
pub enum Tasking {
    Git(Seq<Seq<char>>),
    Resolve(Seq<char>),
    Approve(Seq<char>),
    Plan,
    Look(Seq<char>),
    Read(Seq<char>),
    Test(Seq<char>),
    Finished(TaskOutcome),
    Fail(Seq<char>),
}

impl View for TaskAction {
    type V = Tasking;

    open spec fn view(&self) -> Tasking {
        match *self {
            TaskAction::Git(args) => Tasking::Git(crate::strings::views(args@)),
            TaskAction::Resolve(path) => Tasking::Resolve(path@),
            TaskAction::Approve(key) => Tasking::Approve(key@),
            TaskAction::Plan => Tasking::Plan,
            TaskAction::Look(path) => Tasking::Look(path@),
            TaskAction::Read(path) => Tasking::Read(path@),
            TaskAction::Test(command) => Tasking::Test(command@),
            TaskAction::Finished(result) => Tasking::Finished(result@),
            TaskAction::Fail(words) => Tasking::Fail(words@),
        }
    }
}

/// A task between two actions.
#[derive(Debug)]
pub struct TaskRun {
    pub stage: TaskStage,
    pub request: String,
    pub root: String,
    pub tests: Vec<String>,
    pub observation: String,
    pub trace: Vec<String>,
    /// The number of the step, from 1 on.
    pub at: usize,
    /// The file that is read.
    pub path: String,
    /// What git said of the work tree.
    pub status: String,
    /// The test that runs.
    pub test_at: usize,
}

/// The state of a task.
#[verifier::ext_equal]
pub struct TaskState {
    pub stage: TaskStage,
    pub request: Seq<char>,
    pub root: Seq<char>,
    pub tests: Seq<Seq<char>>,
    pub observation: Seq<char>,
    pub trace: Seq<Seq<char>>,
    pub at: nat,
    pub path: Seq<char>,
    pub status: Seq<char>,
    pub test_at: nat,
}

impl View for TaskRun {
    type V = TaskState;

    open spec fn view(&self) -> TaskState {
        TaskState {
            stage: self.stage,
            request: self.request@,
            root: self.root@,
            tests: crate::strings::views(self.tests@),
            observation: self.observation@,
            trace: crate::strings::views(self.trace@),
            at: self.at as nat,
            path: self.path@,
            status: self.status@,
            test_at: self.test_at as nat,
        }
    }
}

impl TaskState {
    /// The step has a number, and the test that runs is a configured one.
    pub open spec fn wf(self) -> bool {
        &&& 1 <= self.at <= MAX_STEPS
        &&& (self.stage is AskTest || self.stage is Test ==> self.test_at < self.tests.len())
    }
}

/// The event is one that the stage waits for.
pub open spec fn task_fits(stage: TaskStage, event: TaskEvent) -> bool {
    match stage {
        TaskStage::Over => false,
        TaskStage::TopPlace | TaskStage::FilePlace => event is Place || event is Failed,
        TaskStage::AskStart
        | TaskStage::AskInspect
        | TaskStage::AskRead
        | TaskStage::AskTest => event is Approved || event is Failed,
        TaskStage::Plan => event is Planned || event is Failed,
        TaskStage::Look => event is Looked || event is Failed,
        TaskStage::Content => event is Content || event is Failed,
        _ => event is Output || event is Failed,
    }
}

/// The last part of a file name behind a dot, unless nothing stands before the dot.
pub open spec fn extension(path: Seq<char>) -> Seq<char> {
    match crate::paths::file_name(path) {
        None => Seq::empty(),
        Some(name) => {
            let pieces = crate::strings::split(name, '.');
            if pieces.len() < 2 || (pieces.len() == 2 && pieces[0].len() == 0) {
                Seq::empty()
            } else {
                pieces.last()
            }
        },
    }
}

/// The extension of a path.
pub fn path_extension(path: &str) -> (r: String)
    ensures
        r@ == extension(path@),
{
    match path_file_name(path) {
        None => String::new(),
        Some(name) => {
            let pieces = split_on(name.as_str(), '.');
            let n: usize = pieces.len();
            let ghost all = crate::strings::views(pieces@);
            assert(all.len() == n);
            if n < 2 {
                return String::new();
            }
            assert(all[0] == pieces@[0]@);
            assert(all[n - 1] == pieces@[n - 1]@);
            proof {
                crate::text::lemma_no_bytes(pieces@[0]@);
            }
            if n == 2 && crate::strings::byte_len(pieces[0].as_str()) == 0 {
                return String::new();
            }
            owned(pieces[n - 1].as_str())
        },
    }
}

/// A path below the directory it starts from: not absolute, and without a step up or to itself.
pub open spec fn is_plain(path: Seq<char>) -> bool {
    &&& !crate::paths::is_absolute(path)
    &&& !crate::paths::components(path).contains(".."@)
    &&& crate::strings::split(path, '/')[0] != "."@
}

/// The path speaks of something secret.
pub open spec fn is_sensitive(path: Seq<char>) -> bool {
    let text = crate::strings::lower(path);
    ||| crate::strings::occurs(text, ".env"@)
    ||| crate::strings::occurs(text, "secret"@)
    ||| crate::strings::occurs(text, "credential"@)
    ||| crate::strings::occurs(text, "token"@)
    ||| crate::strings::occurs(text, "private"@)
    ||| crate::strings::occurs(text, ".pem"@)
    ||| crate::strings::occurs(text, ".key"@)
}

/// The extensions of the files that the model may read.
pub open spec fn readable_extensions() -> Seq<Seq<char>> {
    seq!["rs"@, "go"@, "py"@, "ts"@, "tsx"@, "js"@, "jsx"@, "java"@, "kt"@, "md"@]
}

/// Why the model may not read a file of this name.
pub open spec fn path_fault(path: Seq<char>) -> Option<Seq<char>> {
    if !is_plain(path) {
        Some("文件路径必须是仓库内相对路径"@)
    } else if is_sensitive(path) {
        Some("敏感文件不进入模型上下文"@)
    } else if !readable_extensions().contains(crate::strings::lower(extension(path))) {
        Some("文件类型未获准进入模型上下文"@)
    } else {
        None
    }
}

/// Refuses a path that the model may not read.
pub fn check_path(path: &str) -> (r: Result<(), &'static str>)
    ensures
        match r {
            Ok(_) => path_fault(path@) is None,
            Err(words) => path_fault(path@) == Some(words@),
        },
{
    let pieces = split_on(path, '/');
    assert(crate::strings::views(pieces@).len() == pieces@.len());
    assert(crate::strings::views(pieces@)[0] == pieces@[0]@);
    if path_is_absolute(path) || has_parent_component(path) || same(pieces[0].as_str(), ".") {
        return Err("文件路径必须是仓库内相对路径");
    }
    let text = to_lower(path);
    let lowered = text.as_str();
    if contains(lowered, ".env") || contains(lowered, "secret") || contains(lowered, "credential")
        || contains(lowered, "token") || contains(lowered, "private") || contains(lowered, ".pem")
        || contains(lowered, ".key") {
        return Err("敏感文件不进入模型上下文");
    }
    let suffix = to_lower(path_extension(path).as_str());
    let readable = ["rs", "go", "py", "ts", "tsx", "js", "jsx", "java", "kt", "md"];
    assert(crate::strings::str_views(readable@) =~= readable_extensions());
    if !is_one_of(suffix.as_str(), &readable) {
        return Err("文件类型未获准进入模型上下文");
    }
    Ok(())
}

/// The path lies in the directory, or is it.
pub open spec fn lies_in(path: Seq<char>, root: Seq<char>) -> bool {
    crate::paths::is_absolute(path) == crate::paths::is_absolute(root) && crate::paths::components(
        root,
    ).is_prefix_of(crate::paths::components(path))
}

/// Whether a path lies in a directory.
pub fn path_lies_in(path: &str, root: &str) -> (r: bool)
    ensures
        r == lies_in(path@, root@),
{
    if path_is_absolute(path) != path_is_absolute(root) {
        return false;
    }
    let inner = path_components(path);
    let outer = path_components(root);
    let ghost all = crate::paths::components(path@);
    let ghost head = crate::paths::components(root@);
    assert(crate::strings::views(inner@).len() == inner@.len());
    assert(crate::strings::views(outer@).len() == outer@.len());
    if outer.len() > inner.len() {
        return false;
    }
    let mut i: usize = 0;
    while i < outer.len()
        invariant
            i <= outer@.len() <= inner@.len(),
            all == crate::paths::components(path@),
            head == crate::paths::components(root@),
            all == crate::strings::views(inner@),
            head == crate::strings::views(outer@),
            forall|k: int| 0 <= k < i ==> #[trigger] head[k] == all[k],
        decreases outer@.len() - i,
    {
        assert(head[i as int] == outer@[i as int]@);
        assert(all[i as int] == inner@[i as int]@);
        if !same(outer[i].as_str(), inner[i].as_str()) {
            assert(all.subrange(0, head.len() as int)[i as int] != head[i as int]);
            return false;
        }
        i += 1;
    }
    assert(head =~= all.subrange(0, head.len() as int));
    true
}

/// The tests of the branch that git reported.
pub open spec fn tests_of(config: Config, branch: CommandOutput) -> Seq<Seq<char>> {
    let found = crate::protection::investigate::branch_named(
        config.branches@,
        crate::strings::trimmed(branch.stdout@),
        0,
    );
    if branch.ok() && found is Some {
        crate::strings::views(config.branches@[found->0].tests@)
    } else {
        Seq::empty()
    }
}

/// What the model is told first.
pub open spec fn first_observation(root: Seq<char>, branch: Seq<char>, tests: nat) -> Seq<char> {
    "仓库："@ + root + "；当前分支："@ + branch + "；可选测试数："@ + crate::strings::decimal(tests)
        + "。"@
}

/// An observation that fits.
pub open spec fn bounded(text: Seq<char>) -> Seq<char> {
    crate::git::shortened(text, MAX_OBSERVATION_BYTES as nat, "\n[输出已截断]"@)
}

pub open spec fn task_failing(s: TaskState, words: Seq<char>) -> (TaskState, Tasking) {
    (TaskState { stage: TaskStage::Over, ..s }, Tasking::Fail(words))
}

pub open spec fn task_git(s: TaskState, stage: TaskStage, args: Seq<Seq<char>>) -> (
    TaskState,
    Tasking,
) {
    (TaskState { stage, ..s }, Tasking::Git(args))
}

/// The mode of an action on the repository at `root`.
pub open spec fn task_mode(
    autonomy: AutonomyConfig,
    action: AutonomyAction,
    root: Seq<char>,
    places: Map<Seq<char>, Seq<char>>,
) -> PermissionMode {
    if autonomy.scope.admits_local(root, places) {
        autonomy.effective(action)
    } else {
        PermissionMode::Deny
    }
}

/// The words of a task that may not go on.
pub open spec fn denied_words(action: AutonomyAction) -> Seq<char> {
    "权限拒绝 "@ + crate::autonomy::action_key(action) + "：仓库不在 scope 内或动作被禁用"@
}

/// What stands behind a leave is done.
pub open spec fn task_begun(s: TaskState, asked: TaskStage) -> (TaskState, Tasking) {
    match asked {
        TaskStage::AskStart => task_git(
            s,
            TaskStage::Branch,
            seq!["symbolic-ref"@, "--short"@, "HEAD"@],
        ),
        TaskStage::AskInspect => task_git(s, TaskStage::Status, seq!["status"@, "--short"@]),
        TaskStage::AskRead => match path_fault(s.path) {
            Some(words) => task_failing(s, words),
            None => task_git(
                s,
                TaskStage::Known,
                seq!["ls-files"@, "--error-unmatch"@, "--"@, s.path],
            ),
        },
        _ => (
            TaskState { stage: TaskStage::Test, ..s },
            Tasking::Test(s.tests[s.test_at as int]),
        ),
    }
}

/// The action that a stage asks leave for.
pub open spec fn asked_action(asked: TaskStage) -> AutonomyAction {
    if asked is AskTest {
        AutonomyAction::RunTests
    } else {
        AutonomyAction::LocalRead
    }
}

/// The leave is looked up: denied, asked for, or given.
pub open spec fn task_asking(s: TaskState, asked: TaskStage, mode: PermissionMode) -> (
    TaskState,
    Tasking,
) {
    match mode {
        PermissionMode::Deny => task_failing(s, denied_words(asked_action(asked))),
        PermissionMode::Ask => (
            TaskState { stage: asked, ..s },
            Tasking::Approve(crate::autonomy::action_key(asked_action(asked))),
        ),
        PermissionMode::Allow => task_begun(s, asked),
    }
}

/// A step is done: the model is asked for the next one, or there is none left.
pub open spec fn task_next(s: TaskState, observation: Seq<char>, line: Seq<char>) -> (
    TaskState,
    Tasking,
) {
    let done = TaskState { observation: bounded(observation), trace: s.trace.push(line), ..s };
    if s.at < MAX_STEPS {
        (TaskState { stage: TaskStage::Plan, at: s.at + 1, ..done }, Tasking::Plan)
    } else {
        (
            TaskState { stage: TaskStage::Over, ..done },
            Tasking::Finished(
                TaskOutcome {
                    state: LocalTaskState::Stopped,
                    summary: "达到 8 步上限，任务已停止。"@,
                    trace: done.trace,
                },
            ),
        )
    }
}

/// The step that the model chose is taken up.
pub open spec fn task_planned(
    s: TaskState,
    step: LocalTaskStep,
    autonomy: AutonomyConfig,
    places: Map<Seq<char>, Seq<char>>,
) -> (TaskState, Tasking) {
    let read = task_mode(autonomy, AutonomyAction::LocalRead, s.root, places);
    match step {
        LocalTaskStep::Inspect => task_asking(s, TaskStage::AskInspect, read),
        LocalTaskStep::ReadFile { path } => task_asking(
            TaskState { path: path@, ..s },
            TaskStage::AskRead,
            read,
        ),
        LocalTaskStep::RunTests { test_index } => if test_index < s.tests.len() {
            task_asking(
                TaskState { test_at: test_index as nat, ..s },
                TaskStage::AskTest,
                task_mode(autonomy, AutonomyAction::RunTests, s.root, places),
            )
        } else {
            task_failing(
                s,
                "模型选择了未配置的测试序号 "@ + crate::strings::decimal(test_index as nat),
            )
        },
        LocalTaskStep::Finish { summary } => if crate::strings::trimmed(summary@).len() == 0 {
            task_failing(s, "模型没有给出任务结论"@)
        } else {
            (
                TaskState { stage: TaskStage::Over, ..s },
                Tasking::Finished(
                    TaskOutcome {
                        state: LocalTaskState::Finished,
                        summary: summary@,
                        trace: s.trace,
                    },
                ),
            )
        },
    }
}

/// What is told of a test that ran.
pub open spec fn test_observation(command: Seq<char>, output: CommandOutput) -> Seq<char> {
    "测试："@ + command + "\n退出码："@ + crate::strings::decimal_int(output.status as int)
        + "\nstdout:\n"@ + output.stdout@ + "\nstderr:\n"@ + output.stderr@
}

/// What the task does when a command of git or a test came back.
pub open spec fn task_output(
    s: TaskState,
    output: CommandOutput,
    config: Config,
) -> (TaskState, Tasking) {
    match s.stage {
        TaskStage::Top => if output.ok() {
            (
                TaskState { stage: TaskStage::TopPlace, ..s },
                Tasking::Resolve(crate::strings::trimmed(output.stdout@)),
            )
        } else {
            task_failing(s, "自治任务目标不是 Git 仓库"@)
        },
        TaskStage::Branch => {
            let tests = tests_of(config, output);
            (
                TaskState {
                    stage: TaskStage::Plan,
                    tests,
                    observation: first_observation(
                        s.root,
                        crate::strings::trimmed(output.stdout@),
                        tests.len(),
                    ),
                    ..s
                },
                Tasking::Plan,
            )
        },
        TaskStage::Status => if output.ok() {
            task_git(TaskState { status: output.stdout@, ..s }, TaskStage::Files, seq!["ls-files"@])
        } else {
            task_failing(s, "读取 Git 状态失败"@)
        },
        TaskStage::Files => if output.ok() {
            task_next(
                s,
                "Git 状态：\n"@ + s.status + "\n跟踪文件：\n"@ + output.stdout@,
                "已读取 Git 状态和跟踪文件名。"@,
            )
        } else {
            task_failing(s, "列出仓库文件失败"@)
        },
        TaskStage::Known => if output.ok() {
            (TaskState { stage: TaskStage::Look, ..s }, Tasking::Look(s.path))
        } else {
            task_failing(s, "文件不是 Git 跟踪文件"@)
        },
        _ => {
            let command = s.tests[s.test_at as int];
            task_next(
                s,
                test_observation(command, output),
                "沙箱测试 `"@ + command + "`：退出码 "@ + crate::strings::decimal_int(
                    output.status as int,
                ),
            )
        },
    }
}

/// What the task does next.
pub open spec fn task_step(
    s: TaskState,
    event: TaskEvent,
    config: Config,
    autonomy: AutonomyConfig,
    places: Map<Seq<char>, Seq<char>>,
) -> (TaskState, Tasking) {
    match event {
        TaskEvent::Failed(words) => if s.stage is Content {
            task_failing(s, "无法读取 "@ + s.path + ": "@ + words@)
        } else {
            task_failing(s, words@)
        },
        TaskEvent::Output(output) => task_output(s, output, config),
        TaskEvent::Place(place) => if s.stage is TopPlace {
            if place@ == s.root {
                task_asking(
                    s,
                    TaskStage::AskStart,
                    task_mode(autonomy, AutonomyAction::LocalRead, s.root, places),
                )
            } else {
                task_failing(s, "自治任务只接受仓库根目录"@)
            }
        } else if lies_in(place@, s.root) {
            (TaskState { stage: TaskStage::Content, ..s }, Tasking::Read(s.path))
        } else {
            task_failing(s, "文件解析后越出仓库"@)
        },
        TaskEvent::Approved(given) => if given {
            task_begun(s, s.stage)
        } else {
            task_failing(s, "等待人工决定："@ + crate::autonomy::action_key(asked_action(s.stage)))
        },
        TaskEvent::Planned(step) => task_planned(s, step, autonomy, places),
        TaskEvent::Looked { is_file, bytes } => if is_file && bytes <= MAX_FILE_BYTES {
            (TaskState { stage: TaskStage::FilePlace, ..s }, Tasking::Resolve(s.path))
        } else {
            task_failing(s, "文件不是普通小文件"@)
        },
        TaskEvent::Content(content) => task_next(
            s,
            "文件 "@ + s.path + "：\n"@ + content@,
            "已读取受限文件："@ + s.path,
        ),
    }
}

/// Runs local tasks.
pub struct LocalTaskRunner<'a> {
    pub config: &'a Config,
    pub autonomy: &'a AutonomyConfig,
}

impl<'a> LocalTaskRunner<'a> {
    pub fn new(config: &'a Config, autonomy: &'a AutonomyConfig) -> (r: LocalTaskRunner<'a>)
        ensures
            r.config == config,
            r.autonomy == autonomy,
    {
        LocalTaskRunner { config, autonomy }
    }

    /// Begins a task in the repository at `root`, a path without links.
    pub fn run(&self, request: &str, root: &str) -> (r: (TaskRun, TaskAction))
        ensures
            r.0@ == (TaskState {
                stage: TaskStage::Top,
                request: request@,
                root: root@,
                tests: Seq::empty(),
                observation: Seq::empty(),
                trace: Seq::empty(),
                at: 1,
                path: Seq::empty(),
                status: Seq::empty(),
                test_at: 0,
            }),
            r.0@.wf(),
            r.1@ == Tasking::Git(seq!["rev-parse"@, "--show-toplevel"@]),
    {
        let run = TaskRun {
            stage: TaskStage::Top,
            request: owned(request),
            root: owned(root),
            tests: Vec::new(),
            observation: String::new(),
            trace: Vec::new(),
            at: 1,
            path: String::new(),
            status: String::new(),
            test_at: 0,
        };
        assert(crate::strings::views(run.tests@) =~= Seq::empty());
        assert(crate::strings::views(run.trace@) =~= Seq::empty());
        let parts = ["rev-parse", "--show-toplevel"];
        assert(crate::strings::str_views(parts@) =~= seq!["rev-parse"@, "--show-toplevel"@]);
        (run, TaskAction::Git(list_of(&parts)))
    }

    /// The mode of an action on the repository.
    fn check_permission(&self, action: AutonomyAction, root: &str, places: &TextTable) -> (r:
        PermissionMode)
        requires
            places.wf(),
            action is LocalRead || action is RunTests,
        ensures
            r == task_mode(*self.autonomy, action, root@, places@),
    {
        self.autonomy.authorize(action, AutonomyTarget::Local { path: root, places })
    }
}

impl TaskRun {
    /// What the model is told before it chooses.
    pub fn context(&self) -> (r: LocalTaskContext<'_>)
        ensures
            r.request@ == self.request@,
            r.repository@ == self.root@,
            r.observation@ == self.observation@,
            *r.tests == self.tests,
            r.step == self.at,
    {
        LocalTaskContext {
            request: self.request.as_str(),
            repository: self.root.as_str(),
            observation: self.observation.as_str(),
            tests: &self.tests,
            step: self.at,
        }
    }

    fn fail(&mut self, words: String) -> (r: TaskAction)
        ensures
            final(self)@ == task_failing(old(self)@, words@).0,
            r@ == task_failing(old(self)@, words@).1,
    {
        self.stage = TaskStage::Over;
        TaskAction::Fail(words)
    }

    fn git(&mut self, stage: TaskStage, parts: &[&str]) -> (r: TaskAction)
        ensures
            final(self)@ == task_git(old(self)@, stage, crate::strings::str_views(parts@)).0,
            r@ == task_git(old(self)@, stage, crate::strings::str_views(parts@)).1,
    {
        self.stage = stage;
        TaskAction::Git(list_of(parts))
    }

    fn begin(&mut self, asked: TaskStage) -> (r: TaskAction)
        requires
            asked is AskStart || asked is AskInspect || asked is AskRead || (asked is AskTest && old(
                self,
            )@.test_at < old(self)@.tests.len()),
        ensures
            final(self)@ == task_begun(old(self)@, asked).0,
            r@ == task_begun(old(self)@, asked).1,
    {
        match asked {
            TaskStage::AskStart => {
                let parts = ["symbolic-ref", "--short", "HEAD"];
                assert(crate::strings::str_views(parts@) =~= seq![
                    "symbolic-ref"@,
                    "--short"@,
                    "HEAD"@,
                ]);
                self.git(TaskStage::Branch, &parts)
            },
            TaskStage::AskInspect => {
                let parts = ["status", "--short"];
                assert(crate::strings::str_views(parts@) =~= seq!["status"@, "--short"@]);
                self.git(TaskStage::Status, &parts)
            },
            TaskStage::AskRead => {
                match check_path(self.path.as_str()) {
                    Err(words) => self.fail(owned(words)),
                    Ok(()) => {
                        let path = owned(self.path.as_str());
                        let parts = ["ls-files", "--error-unmatch", "--", path.as_str()];
                        assert(crate::strings::str_views(parts@) =~= seq![
                            "ls-files"@,
                            "--error-unmatch"@,
                            "--"@,
                            self@.path,
                        ]);
                        self.git(TaskStage::Known, &parts)
                    },
                }
            },
            _ => {
                self.stage = TaskStage::Test;
                assert(self@.tests[self.test_at as int] == self.tests@[self.test_at as int]@);
                TaskAction::Test(owned(self.tests[self.test_at].as_str()))
            },
        }
    }

    fn ask(&mut self, asked: TaskStage, mode: PermissionMode) -> (r: TaskAction)
        requires
            asked is AskStart || asked is AskInspect || asked is AskRead || (asked is AskTest && old(
                self,
            )@.test_at < old(self)@.tests.len()),
        ensures
            final(self)@ == task_asking(old(self)@, asked, mode).0,
            r@ == task_asking(old(self)@, asked, mode).1,
    {
        let action = match asked {
            TaskStage::AskTest => AutonomyAction::RunTests,
            _ => AutonomyAction::LocalRead,
        };
        match mode {
            PermissionMode::Deny => {
                self.fail(
                    owned("权限拒绝 ").concat(action.key()).concat(
                        "：仓库不在 scope 内或动作被禁用",
                    ),
                )
            },
            PermissionMode::Ask => {
                self.stage = asked;
                TaskAction::Approve(action.key())
            },
            PermissionMode::Allow => self.begin(asked),
        }
    }

    fn next(&mut self, observation: String, line: String) -> (r: TaskAction)
        requires
            1 <= old(self)@.at <= MAX_STEPS,
        ensures
            final(self)@ == task_next(old(self)@, observation@, line@).0,
            r@ == task_next(old(self)@, observation@, line@).1,
    {
        self.observation = shorten(
            observation.as_str(),
            MAX_OBSERVATION_BYTES,
            "\n[输出已截断]",
        );
        push_string(&mut self.trace, line);
        if self.at < MAX_STEPS {
            self.stage = TaskStage::Plan;
            self.at = self.at + 1;
            TaskAction::Plan
        } else {
            self.stage = TaskStage::Over;
            TaskAction::Finished(
                LocalTaskResult {
                    state: LocalTaskState::Stopped,
                    summary: owned("达到 8 步上限，任务已停止。"),
                    trace: copy_list(&self.trace),
                },
            )
        }
    }

    fn plan(&mut self, runner: &LocalTaskRunner<'_>, places: &TextTable, step: LocalTaskStep) -> (r:
        TaskAction)
        requires
            places.wf(),
        ensures
            final(self)@ == task_planned(old(self)@, step, *runner.autonomy, places@).0,
            r@ == task_planned(old(self)@, step, *runner.autonomy, places@).1,
    {
        match step {
            LocalTaskStep::Inspect => {
                let mode = runner.check_permission(
                    AutonomyAction::LocalRead,
                    self.root.as_str(),
                    places,
                );
                self.ask(TaskStage::AskInspect, mode)
            },
            LocalTaskStep::ReadFile { path } => {
                let mode = runner.check_permission(
                    AutonomyAction::LocalRead,
                    self.root.as_str(),
                    places,
                );
                self.path = path;
                self.ask(TaskStage::AskRead, mode)
            },
            LocalTaskStep::RunTests { test_index } => {
                assert(self@.tests.len() == self.tests@.len());
                if test_index < self.tests.len() {
                    let mode = runner.check_permission(
                        AutonomyAction::RunTests,
                        self.root.as_str(),
                        places,
                    );
                    self.test_at = test_index;
                    self.ask(TaskStage::AskTest, mode)
                } else {
                    self.fail(
                        owned("模型选择了未配置的测试序号 ").concat(
                            usize_to_string(test_index).as_str(),
                        ),
                    )
                }
            },
            LocalTaskStep::Finish { summary } => {
                if is_blank(summary.as_str()) {
                    self.fail(owned("模型没有给出任务结论"))
                } else {
                    self.stage = TaskStage::Over;
                    TaskAction::Finished(
                        LocalTaskResult {
                            state: LocalTaskState::Finished,
                            summary,
                            trace: copy_list(&self.trace),
                        },
                    )
                }
            },
        }
    }

    fn output(&mut self, config: &Config, output: CommandOutput) -> (r: TaskAction)
        requires
            old(self)@.wf(),
            task_fits(old(self)@.stage, TaskEvent::Output(output)),
        ensures
            final(self)@ == task_output(old(self)@, output, *config).0,
            r@ == task_output(old(self)@, output, *config).1,
    {
        match self.stage {
            TaskStage::Top => {
                if output.success() {
                    self.stage = TaskStage::TopPlace;
                    TaskAction::Resolve(trim(output.stdout.as_str()))
                } else {
                    self.fail(owned("自治任务目标不是 Git 仓库"))
                }
            },
            TaskStage::Branch => {
                let name = trim(output.stdout.as_str());
                let mut tests: Vec<String> = Vec::new();
                if output.success() {
                    if let Some(i) = find_branch(&config.branches, name.as_str()) {
                        tests = copy_list(&config.branches[i].tests);
                    }
                }
                assert(crate::strings::views(tests@) =~= tests_of(*config, output));
                assert(crate::strings::views(tests@).len() == tests@.len());
                self.observation = owned("仓库：").concat(self.root.as_str()).concat(
                    "；当前分支：",
                ).concat(name.as_str()).concat("；可选测试数：").concat(
                    usize_to_string(tests.len()).as_str(),
                ).concat("。");
                self.tests = tests;
                self.stage = TaskStage::Plan;
                TaskAction::Plan
            },
            TaskStage::Status => {
                if output.success() {
                    self.status = output.stdout;
                    let parts = ["ls-files"];
                    assert(crate::strings::str_views(parts@) =~= seq!["ls-files"@]);
                    self.git(TaskStage::Files, &parts)
                } else {
                    self.fail(owned("读取 Git 状态失败"))
                }
            },
            TaskStage::Files => {
                if output.success() {
                    let text = owned("Git 状态：\n").concat(self.status.as_str()).concat(
                        "\n跟踪文件：\n",
                    ).concat(output.stdout.as_str());
                    self.next(text, owned("已读取 Git 状态和跟踪文件名。"))
                } else {
                    self.fail(owned("列出仓库文件失败"))
                }
            },
            TaskStage::Known => {
                if output.success() {
                    self.stage = TaskStage::Look;
                    TaskAction::Look(owned(self.path.as_str()))
                } else {
                    self.fail(owned("文件不是 Git 跟踪文件"))
                }
            },
            _ => {
                assert(self@.tests[self.test_at as int] == self.tests@[self.test_at as int]@);
                assert(self@.tests.len() == self.tests@.len());
                let command = owned(self.tests[self.test_at].as_str());
                let code = i32_to_string(output.status);
                let text = owned("测试：").concat(command.as_str()).concat("\n退出码：").concat(
                    code.as_str(),
                ).concat("\nstdout:\n").concat(output.stdout.as_str()).concat(
                    "\nstderr:\n",
                ).concat(output.stderr.as_str());
                let line = owned("沙箱测试 `").concat(command.as_str()).concat(
                    "`：退出码 ",
                ).concat(code.as_str());
                self.next(text, line)
            },
        }
    }

    /// Takes in what came of the last action and says what to do next. `places` is looked up anew
    /// for each step, so that a permission holds for that step alone.
    pub fn step(&mut self, runner: &LocalTaskRunner<'_>, places: &TextTable, event: TaskEvent) -> (r:
        TaskAction)
        requires
            old(self)@.wf(),
            places.wf(),
            task_fits(old(self)@.stage, event),
        ensures
            final(self)@.wf(),
            final(self)@ == task_step(
                old(self)@,
                event,
                *runner.config,
                *runner.autonomy,
                places@,
            ).0,
            r@ == task_step(old(self)@, event, *runner.config, *runner.autonomy, places@).1,
    {
        match event {
            TaskEvent::Failed(words) => {
                match self.stage {
                    TaskStage::Content => {
                        let text = owned("无法读取 ").concat(self.path.as_str()).concat(": ").concat(
                            words.as_str(),
                        );
                        self.fail(text)
                    },
                    _ => self.fail(words),
                }
            },
            TaskEvent::Output(output) => self.output(runner.config, output),
            TaskEvent::Place(place) => {
                match self.stage {
                    TaskStage::TopPlace => {
                        if same(place.as_str(), self.root.as_str()) {
                            let mode = runner.check_permission(
                                AutonomyAction::LocalRead,
                                self.root.as_str(),
                                places,
                            );
                            self.ask(TaskStage::AskStart, mode)
                        } else {
                            self.fail(owned("自治任务只接受仓库根目录"))
                        }
                    },
                    _ => {
                        if path_lies_in(place.as_str(), self.root.as_str()) {
                            self.stage = TaskStage::Content;
                            TaskAction::Read(owned(self.path.as_str()))
                        } else {
                            self.fail(owned("文件解析后越出仓库"))
                        }
                    },
                }
            },
            TaskEvent::Approved(given) => {
                let asked = self.stage;
                if given {
                    self.begin(asked)
                } else {
                    let action = match asked {
                        TaskStage::AskTest => AutonomyAction::RunTests,
                        _ => AutonomyAction::LocalRead,
                    };
                    self.fail(owned("等待人工决定：").concat(action.key()))
                }
            },
            TaskEvent::Planned(step) => self.plan(runner, places, step),
            TaskEvent::Looked { is_file, bytes } => {
                if is_file && bytes <= MAX_FILE_BYTES {
                    self.stage = TaskStage::FilePlace;
                    TaskAction::Resolve(owned(self.path.as_str()))
                } else {
                    self.fail(owned("文件不是普通小文件"))
                }
            },
            TaskEvent::Content(content) => {
                let text = owned("文件 ").concat(self.path.as_str()).concat("：\n").concat(
                    content.as_str(),
                );
                let line = owned("已读取受限文件：").concat(self.path.as_str());
                self.next(text, line)
            },
        }
    }
}

/// A test runs only where tests are permitted at that very step, or a person has just agreed;
/// and it is one of the configured ones, whatever the model said.
pub proof fn law_tests_need_leave(
    s: TaskState,
    event: TaskEvent,
    config: Config,
    autonomy: AutonomyConfig,
    places: Map<Seq<char>, Seq<char>>,
)
    requires
        s.wf(),
        task_fits(s.stage, event),
        task_step(s, event, config, autonomy, places).1 is Test,
    ensures
        ({
            let command = task_step(s, event, config, autonomy, places).1->Test_0;
            &&& s.tests.contains(command)
            &&& (event is Planned && task_mode(
                autonomy,
                AutonomyAction::RunTests,
                s.root,
                places,
            ) is Allow) || (s.stage is AskTest && event == TaskEvent::Approved(true))
        }),
{
    let next = task_step(s, event, config, autonomy, places).0;
    assert(s.tests.contains(s.tests[next.test_at as int]));
}

/// A file is read only where its name is fit to be read, git knows it, it is a small plain file,
/// and its path stands for a place in the repository.
pub proof fn law_only_fit_files_are_read(
    s: TaskState,
    event: TaskEvent,
    config: Config,
    autonomy: AutonomyConfig,
    places: Map<Seq<char>, Seq<char>>,
)
    requires
        s.wf(),
        task_fits(s.stage, event),
    ensures
        ({
            let next = task_step(s, event, config, autonomy, places);
            &&& next.1 is Read ==> s.stage is FilePlace && event is Place && lies_in(
                event->Place_0@,
                s.root,
            ) && next.1 == Tasking::Read(s.path)
            &&& next.0.stage is FilePlace ==> s.stage is Look && event is Looked
                && event->is_file && event->bytes <= MAX_FILE_BYTES && next.0.path == s.path
            &&& next.0.stage is Look ==> s.stage is Known && event is Output
                && event->Output_0.ok() && next.0.path == s.path
            &&& next.0.stage is Known ==> path_fault(next.0.path) is None && next.1
                == Tasking::Git(seq!["ls-files"@, "--error-unmatch"@, "--"@, next.0.path])
        }),
{
}

/// What the model gets to see is bounded, and no step goes beyond the last one.
pub proof fn law_task_is_bounded(
    s: TaskState,
    event: TaskEvent,
    config: Config,
    autonomy: AutonomyConfig,
    places: Map<Seq<char>, Seq<char>>,
)
    requires
        s.wf(),
        task_fits(s.stage, event),
        task_step(s, event, config, autonomy, places).1 is Plan,
        !(s.stage is Branch),
    ensures
        ({
            let next = task_step(s, event, config, autonomy, places).0;
            &&& next.at == s.at + 1 <= MAX_STEPS
            &&& crate::strings::byte_count(next.observation) <= MAX_OBSERVATION_BYTES
                + crate::strings::byte_count("\n[输出已截断]"@)
            &&& next.trace.len() == s.trace.len() + 1
        }),
{
    let next = task_step(s, event, config, autonomy, places).0;
    lemma_bounded(
        match event {
            TaskEvent::Content(content) => "文件 "@ + s.path + "：\n"@ + content@,
            TaskEvent::Output(output) => if s.stage is Files {
                "Git 状态：\n"@ + s.status + "\n跟踪文件：\n"@ + output.stdout@
            } else {
                test_observation(s.tests[s.test_at as int], output)
            },
            _ => s.observation,
        },
    );
}

/// An observation that fits does so up to the remark behind it.
proof fn lemma_bounded(text: Seq<char>)
    ensures
        crate::strings::byte_count(bounded(text)) <= MAX_OBSERVATION_BYTES
            + crate::strings::byte_count("\n[输出已截断]"@),
{
    let max = MAX_OBSERVATION_BYTES as nat;
    crate::text::law_truncated_fits(text, max);
    crate::text::lemma_encode_add(crate::text::truncated(text, max), "\n[输出已截断]"@);
}

/// Where the repository is not in scope nothing is looked at: the task ends before the branch is
/// asked for, whatever a person would have agreed to.
pub proof fn law_scope_is_required(
    s: TaskState,
    place: TaskEvent,
    config: Config,
    autonomy: AutonomyConfig,
    places: Map<Seq<char>, Seq<char>>,
)
    requires
        s.wf(),
        s.stage is TopPlace,
        place is Place,
        !autonomy.scope.admits_local(s.root, places),
    ensures
        task_step(s, place, config, autonomy, places).1 is Fail,
{
}

} // verus!
