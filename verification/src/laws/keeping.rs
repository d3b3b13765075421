//! What is kept of orders, events, reports and advisories.
use crate::autonomy::task_report::{TaskReport, TaskReportOutcome};
use crate::autonomy::{AutonomyAction, AutonomyConfig, PermissionMode};
use crate::protection::store::AdvisoryObservation;
use crate::watch::model::{WatchEvent, WatchTask};
use crate::watch::NewEvent;
use vstd::prelude::*;

verus! {

/// An event that is written down keeps what it says, and nothing that was written before is lost.
pub proof fn law_event_is_written_as_it_is(
    before: Seq<WatchEvent>,
    id: Seq<char>,
    task_id: Seq<char>,
    event: NewEvent,
    now: Seq<char>,
    after: Seq<WatchEvent>,
    new: bool,
)
    requires
        crate::watch::store::is_insert(before, id, task_id, event, now, after, new),
    ensures
        before.len() <= after.len() <= before.len() + 1,
        forall|i: int| 0 <= i < before.len() ==> #[trigger] after[i] == before[i],
        new <==> after.len() == before.len() + 1,
        exists|i: int|
            0 <= i < after.len() && (#[trigger] after[i]).fingerprint@ == crate::digest::text_digest(
                task_id + "\n"@ + event.entity_key@ + "\n"@ + event.kind@ + "\n"@ + event.material@,
            ),
        !new ==> exists|i: int|
            0 <= i < before.len() && (#[trigger] before[i]).fingerprint@
                == crate::digest::text_digest(
                task_id + "\n"@ + event.entity_key@ + "\n"@ + event.kind@ + "\n"@ + event.material@,
            ),
        new ==> {
            let row = after[before.len() as int];
            &&& row.id@ == id
            &&& row.task_id@ == task_id
            &&& row.entity_key@ == event.entity_key@
            &&& row.kind@ == event.kind@
            &&& row.summary@ == event.summary@
            &&& row.evidence_url@ == event.evidence_url@
            &&& row.created_at@ == now
        },
{
    if new {
        assert(after[before.len() as int] == after.last());
    }
}

/// An order is due when it is active and its time has come, neither before that nor while it rests.
pub proof fn law_order_is_due_at_its_time(task: WatchTask, now: Seq<char>, later: Seq<char>)
    requires
        crate::order::le(now, later),
    ensures
        task.state@ != "active"@ ==> !crate::watch::store::is_due(task, now),
        task.state@ == "active"@ ==> crate::watch::store::is_due(task, task.next_run_at@),
        task.state@ == "active"@ && task.next_run_at@ == now ==> crate::watch::store::is_due(task, later),
        crate::watch::store::is_due(task, now) ==> crate::watch::store::is_due(task, later),
        !crate::order::le(task.next_run_at@, now) ==> !crate::watch::store::is_due(task, now),
{
    crate::order::lemma_le_total(task.next_run_at@, task.next_run_at@);
    if crate::order::le(task.next_run_at@, now) {
        crate::order::lemma_le_transitive(task.next_run_at@, now, later);
    }
}

/// Claiming an order moves its next run to the end of the lease and changes nothing that it asks for.
pub proof fn law_claim_keeps_the_order(
    after: WatchTask,
    before: WatchTask,
    lease: Seq<char>,
    now: Seq<char>,
)
    requires
        crate::watch::store::is_leased(after, before, lease, now),
    ensures
        after.next_run_at@ == lease,
        after.updated_at@ == now,
        after.id == before.id,
        after.name == before.name,
        after.prompt == before.prompt,
        after.owner == before.owner,
        after.author == before.author,
        after.repositories == before.repositories,
        after.interval_seconds == before.interval_seconds,
        after.instructions == before.instructions,
        after.state == before.state,
        after.last_run_at == before.last_run_at,
        after.last_result == before.last_result,
        after.created_at == before.created_at,
        before.state@ == "active"@ ==> crate::watch::store::is_due(after, lease),
{
    crate::order::lemma_le_total(lease, lease);
}

/// The time added to a wait is at most what is configured, every such time can come up, and without a
/// clock nothing is added.
pub proof fn law_jitter_stays_in_bounds(max_seconds: u64, now: u64)
    ensures
        0 <= crate::daemon::jitter_of(max_seconds, Some(now)) <= max_seconds,
        now <= max_seconds ==> crate::daemon::jitter_of(max_seconds, Some(now)) == now,
        max_seconds == 0 ==> crate::daemon::jitter_of(max_seconds, Some(now)) == 0,
        crate::daemon::jitter_of(max_seconds, None) == 0,
{
    let n = max_seconds as int + 1;
    assert(0 <= now as int % n < n) by (nonlinear_arith)
        requires
            n > 0,
    ;
    if now <= max_seconds {
        assert(now as int % n == now as int) by (nonlinear_arith)
            requires
                0 <= now as int,
                (now as int) < n,
        ;
    }
}

/// An advisory that was completed in a version is not looked at again in it; in another version, or
/// where it was not completed, it is. What is known of other advisories stays.
pub proof fn law_advisory_is_completed_once(
    rows: Seq<AdvisoryObservation>,
    id: Seq<char>,
    modified: Seq<char>,
    state: Seq<char>,
    last_error: Option<String>,
    now: Seq<char>,
    next: Seq<AdvisoryObservation>,
    other: Seq<char>,
    version: Seq<char>,
)
    requires
        crate::protection::store::with_observation(rows, id, modified, state, last_error, now, next),
    ensures
        crate::protection::store::needs_processing(next, id, modified) <==> state != "completed"@,
        version != modified ==> crate::protection::store::needs_processing(next, id, version),
        other != id ==> crate::protection::store::needs_processing(next, other, version)
            == crate::protection::store::needs_processing(rows, other, version),
        exists|i: int|
            0 <= i < next.len() && (#[trigger] next[i]).id@ == id && next[i].last_error == last_error,
{
    let keys = crate::protection::store::advisory_ids(rows);
    let after = crate::protection::store::advisory_ids(next);
    crate::protection::store::lemma_place_of(keys, id, 0);
    crate::protection::store::lemma_place_of(keys, other, 0);
    match crate::protection::store::place_of(keys, id, 0) {
        Some(i) => {
            assert(after =~= keys);
            assert(next[i].id@ == id);
        },
        None => {
            assert(after =~= keys.push(id));
            crate::protection::store::lemma_place_pushed(keys, id, 0);
            if other != id {
                crate::protection::store::lemma_place_of_other(keys, id, other, 0);
            }
            assert(next[rows.len() as int] == next.last());
        },
    }
}

/// An advisory that nothing is known of has to be looked at.
pub proof fn law_unknown_advisory_is_looked_at(
    rows: Seq<AdvisoryObservation>,
    id: Seq<char>,
    modified: Seq<char>,
)
    requires
        forall|i: int| 0 <= i < rows.len() ==> (#[trigger] rows[i]).id@ != id,
    ensures
        crate::protection::store::needs_processing(rows, id, modified),
{
    let keys = crate::protection::store::advisory_ids(rows);
    crate::protection::store::lemma_place_of(keys, id, 0);
    if let Some(i) = crate::protection::store::place_of(keys, id, 0) {
        assert(rows[i].id@ == id);
    }
}

/// A prefix of an identifier finds nothing where no report begins with it, and is ambiguous where two
/// do.
pub proof fn law_prefix_finds_its_report(reports: Seq<TaskReport>, prefix: Seq<char>)
    ensures
        ({
            let n = crate::autonomy::task_report::matching(reports, prefix, reports.len() as int);
            &&& 0 <= n <= reports.len()
            &&& n == 0 <==> forall|i: int|
                0 <= i < reports.len() ==> !crate::strings::starts((#[trigger] reports[i]).id@, prefix)
            &&& n > 1 <==> exists|i: int, j: int|
                0 <= i < j < reports.len() && crate::strings::starts(
                    (#[trigger] reports[i]).id@,
                    prefix,
                ) && crate::strings::starts((#[trigger] reports[j]).id@, prefix)
        }),
{
    lemma_matching(reports, prefix, reports.len() as int);
}

proof fn lemma_matching(reports: Seq<TaskReport>, prefix: Seq<char>, n: int)
    requires
        0 <= n <= reports.len(),
    ensures
        ({
            let k = crate::autonomy::task_report::matching(reports, prefix, n);
            &&& 0 <= k <= n
            &&& k > 0 <==> exists|i: int|
                0 <= i < n && crate::strings::starts((#[trigger] reports[i]).id@, prefix)
            &&& k > 1 <==> exists|i: int, j: int|
                0 <= i < j < n && crate::strings::starts((#[trigger] reports[i]).id@, prefix)
                    && crate::strings::starts((#[trigger] reports[j]).id@, prefix)
        }),
    decreases n,
{
    if n > 0 {
        lemma_matching(reports, prefix, n - 1);
        let before = crate::autonomy::task_report::matching(reports, prefix, n - 1);
        if crate::strings::starts(reports[n - 1].id@, prefix) {
            if before > 0 {
                let i = choose|i: int|
                    0 <= i < n - 1 && crate::strings::starts((#[trigger] reports[i]).id@, prefix);
                assert(0 <= i < n - 1 && crate::strings::starts(reports[i].id@, prefix));
            }
        }
    }
}

/// The identifier of a report is of eight bytes at least and holds hexadecimal digits and dashes only,
/// so that it names no other file.
pub proof fn law_report_id_is_harmless(text: Seq<char>, c: char)
    requires
        crate::autonomy::task_report::is_report_id(text),
        text.contains(c),
    ensures
        ('0' <= c <= '9') || ('a' <= c <= 'f') || ('A' <= c <= 'F') || c == '-',
        8 <= crate::strings::byte_count(text) <= 36,
        c != '/' && c != '.' && c != '\\',
{
    let i = text.index_of(c);
    assert(text[i] == c);
}

/// A text on one line has no line break, and every other character where it was.
pub proof fn law_one_line_has_no_break(value: Seq<char>)
    ensures
        ({
            let line = crate::autonomy::task_report::flattened(value);
            &&& line.len() == value.len()
            &&& !line.contains('\n') && !line.contains('\r')
            &&& forall|i: int|
                0 <= i < value.len() && value[i] != '\n' && value[i] != '\r' ==> #[trigger] line[i]
                    == value[i]
            &&& !value.contains('\n') && !value.contains('\r') ==> line == value
        }),
{
    let line = crate::autonomy::task_report::flattened(value);
    assert forall|i: int| 0 <= i < line.len() implies #[trigger] line[i] != '\n' && line[i] != '\r' by {}
    if !value.contains('\n') && !value.contains('\r') {
        assert forall|i: int| 0 <= i < value.len() implies #[trigger] line[i] == value[i] by {
            assert(value.contains(value[i]));
        }
        assert(line =~= value);
    }
}

/// How the outcome of a task is written.
pub open spec fn written_outcome(outcome: TaskReportOutcome) -> Seq<char> {
    if outcome is Finished {
        "完成"@
    } else if outcome is Stopped {
        "停止"@
    } else {
        "失败"@
    }
}

/// The line of a report in a list tells its identifier, when it was, how the task ended and by which
/// model.
pub proof fn law_line_of_a_report(report: TaskReport, time: Seq<char>)
    ensures
        ({
            let line = crate::autonomy::task_report::report_line(report, time);
            &&& crate::laws::telling::holds(line, written_outcome(report.outcome))
            &&& crate::laws::telling::holds(line, time)
            &&& crate::laws::telling::holds(line, report.model@)
            &&& crate::laws::telling::holds(line, crate::text::truncated(report.id@, 8))
        }),
{
    let line = crate::autonomy::task_report::report_line(report, time);
    let id = crate::text::truncated(report.id@, 8);
    let outcome = written_outcome(report.outcome);
    let rest = "  "@ + crate::autonomy::task_report::bounded(
        crate::autonomy::task_report::flattened(report.request@),
        120,
    );
    let from_model = report.model@ + rest;
    let from_outcome = outcome + "]  "@ + from_model;
    let from_time = time + "  ["@ + from_outcome;
    assert(line =~= "- "@ + id + ("  "@ + from_time));
    assert(line =~= ("- "@ + id + "  "@) + time + ("  ["@ + from_outcome));
    assert(line =~= ("- "@ + id + "  "@ + time + "  ["@) + outcome + ("]  "@ + from_model));
    assert(line =~= ("- "@ + id + "  "@ + time + "  ["@ + outcome + "]  "@) + report.model@ + rest);
}

/// Every step of a task is on a line of its own in the report.
pub proof fn law_trace_tells_every_step(trace: Seq<Seq<char>>, i: int)
    requires
        0 <= i < trace.len(),
    ensures
        crate::laws::telling::holds(
            crate::autonomy::task_report::trace_text(trace),
            "- "@ + trace[i],
        ),
{
    let parts = Seq::new(trace.len(), |k: int| "- "@ + trace[k]);
    crate::laws::asking::lemma_join_holds(parts, "\n"@, i);
    assert(parts[i] == "- "@ + trace[i]);
}

/// The name under which an action stands in the configuration.
pub open spec fn written_action(action: AutonomyAction) -> Seq<char> {
    if action is GithubRead {
        "github_read"@
    } else if action is LinearRead {
        "linear_read"@
    } else if action is LocalRead {
        "local_read"@
    } else if action is EditCode {
        "edit_code"@
    } else if action is RunTests {
        "run_tests"@
    } else if action is LocalCommit {
        "local_commit"@
    } else if action is PushBranch {
        "push_branch"@
    } else if action is GithubReply {
        "github_reply"@
    } else if action is LinearWrite {
        "linear_write"@
    } else {
        "merge_pr"@
    }
}

/// How a permission is written.
pub open spec fn written_mode(mode: PermissionMode) -> Seq<char> {
    if mode is Deny {
        "deny"@
    } else if mode is Ask {
        "ask"@
    } else {
        "allow"@
    }
}

/// The overview tells of every action but the reading of local files what it is held to now: what is
/// configured where the flow is on, and denied where it is off.
pub proof fn law_overview_tells_every_permission(config: AutonomyConfig, action: AutonomyAction)
    requires
        !(action is LocalRead),
    ensures
        crate::laws::telling::holds(
            config.overview(),
            "- "@ + written_action(action) + ": "@ + written_mode(
                if config.enabled {
                    config.permissions.of(action)
                } else {
                    PermissionMode::Deny
                },
            ),
        ),
{
    let list = crate::autonomy::listed_actions();
    assert(list.len() == 9);
    let k: int = if action is GithubRead {
        0
    } else if action is LinearRead {
        1
    } else if action is EditCode {
        2
    } else if action is RunTests {
        3
    } else if action is LocalCommit {
        4
    } else if action is PushBranch {
        5
    } else if action is GithubReply {
        6
    } else if action is LinearWrite {
        7
    } else {
        8
    };
    assert(list[k] == action);
    lemma_action_lines(config, 9, k);
    let part = "- "@ + written_action(action) + ": "@ + written_mode(config.effective(action));
    let line = config.action_line(action);
    let more = if config.permissions.of(action) != config.effective(action) {
        "（配置为 "@ + crate::autonomy::mode_label(config.permissions.of(action))
            + "，但总开关未启用）"@
    } else {
        ""@
    };
    assert(line =~= Seq::<char>::empty() + part + (more + "\n"@));
    let lines = config.action_lines(9);
    let head = "自治流程："@ + (if config.enabled {
        "启用"@
    } else {
        "停用"@
    }) + "\n"@;
    let tail = "范围规则：未填写的作者、负责人或仓库列表不表示全部；执行前还会检查具体目标。"@;
    let (a, b) = choose|a: Seq<char>, b: Seq<char>| lines == #[trigger] (a + line + b);
    crate::laws::telling::lemma_holds_more(line, part, a, b);
    assert(lines == a + line + b);
    crate::laws::telling::lemma_holds_more(lines, part, head, tail);
    assert(config.overview() =~= head + lines + tail);
}

proof fn lemma_action_lines(config: AutonomyConfig, n: int, k: int)
    requires
        0 <= k < n <= 9,
    ensures
        crate::laws::telling::holds(
            config.action_lines(n),
            config.action_line(crate::autonomy::listed_actions()[k]),
        ),
    decreases n,
{
    let head = config.action_lines(n - 1);
    let last = config.action_line(crate::autonomy::listed_actions()[n - 1]);
    let line = config.action_line(crate::autonomy::listed_actions()[k]);
    if k < n - 1 {
        lemma_action_lines(config, n - 1, k);
        crate::laws::telling::lemma_holds_more(head, line, Seq::empty(), last);
        assert(config.action_lines(n) =~= Seq::<char>::empty() + head + last);
    } else {
        assert(config.action_lines(n) =~= head + last + Seq::<char>::empty());
    }
}

/// Every action stands under its own name in the configuration.
pub proof fn law_name_of_an_action(action: AutonomyAction)
    ensures
        crate::autonomy::action_key(action) == written_action(action),
{
}

} // verus!
