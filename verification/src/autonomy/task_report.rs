//! Reports on local tasks: a summary that can be looked at later, without the texts that the model
//! saw and without credentials.
use crate::autonomy::local_task::LocalTaskState;
use crate::strings::{
    byte_len, char_is_digit, from_chars, join_with, owned, push_string, replace, same, starts_with,
    to_chars, trim, u64_to_string,
};
use crate::text::{cut_at, drop_controls, take_chars};
use vstd::prelude::*;

verus! {

pub const MAX_REQUEST_CHARS: usize = 4000;

pub const MAX_SUMMARY_CHARS: usize = 16000;

pub const MAX_TRACE_ITEMS: usize = 32;

pub const MAX_TRACE_CHARS: usize = 1000;

/// Where reports are kept, and whether.
#[derive(Debug, Clone)]
pub struct TaskReportConfig {
    pub enabled: bool,
    pub data_dir: String,
}

#[derive(Debug, Clone, Copy, PartialEq, Eq, Structural)]
pub enum TaskReportOutcome {
    Finished,
    Stopped,
    Failed,
}

pub open spec fn outcome_label(outcome: TaskReportOutcome) -> Seq<char> {
    match outcome {
        TaskReportOutcome::Finished => "完成"@,
        TaskReportOutcome::Stopped => "停止"@,
        TaskReportOutcome::Failed => "失败"@,
    }
}

impl TaskReportOutcome {
    pub fn label(self) -> (r: &'static str)
        ensures
            r@ == outcome_label(self),
    {
        match self {
            TaskReportOutcome::Finished => "完成",
            TaskReportOutcome::Stopped => "停止",
            TaskReportOutcome::Failed => "失败",
        }
    }
}

/// A report on a task. The time is in nanoseconds since 1970.
#[derive(Debug, Clone)]
pub struct TaskReport {
    pub id: String,
    pub created_at: u64,
    pub provider: String,
    pub model: String,
    pub request: String,
    pub outcome: TaskReportOutcome,
    pub trace: Vec<String>,
    pub summary: String,
}

/// What stands for a credential.
pub open spec fn hidden_mark() -> Seq<char> {
    "[凭据已隐藏]"@
}

/// What stands behind a text that was cut.
pub open spec fn cut_mark() -> Seq<char> {
    "...[已截断]"@
}

/// A text with the first `n` of the secrets replaced, each of which has at least 8 bytes.
pub open spec fn redacted(value: Seq<char>, secrets: Seq<Seq<char>>, n: int) -> Seq<char>
    decreases n,
{
    if n <= 0 {
        value
    } else {
        let before = redacted(value, secrets, n - 1);
        if crate::strings::byte_count(secrets[n - 1]) >= 8 {
            crate::strings::replaced(before, secrets[n - 1], hidden_mark())
        } else {
            before
        }
    }
}

/// Replaces the secrets in a text.
pub fn redact_exact_values(value: &str, redactions: &Vec<String>) -> (r: String)
    ensures
        r@ == redacted(value@, crate::strings::views(redactions@), redactions@.len() as int),
{
    let mut output: String = owned(value);
    let mut i: usize = 0;
    while i < redactions.len()
        invariant
            i <= redactions@.len(),
            output@ == redacted(value@, crate::strings::views(redactions@), i as int),
        decreases redactions@.len() - i,
    {
        let secret = redactions[i].as_str();
        assert(crate::strings::views(redactions@)[i as int] == secret@);
        if byte_len(secret) >= 8 {
            proof {
                crate::text::lemma_no_bytes(secret@);
            }
            output = replace(output.as_str(), secret, "[凭据已隐藏]");
        }
        i += 1;
    }
    output
}

/// A text without control characters, and cut at `max` characters.
pub open spec fn bounded(value: Seq<char>, max: nat) -> Seq<char> {
    let text = crate::text::shown(value, "\n\t"@);
    if text.len() > max {
        text.take(max as int) + cut_mark()
    } else {
        text
    }
}

/// A text without control characters, and cut at `max_chars` characters.
pub fn bounded_text(value: &str, max_chars: usize) -> (r: String)
    ensures
        r@ == bounded(value@, max_chars as nat),
{
    let text = drop_controls(value, "\n\t");
    let count: usize = to_chars(text.as_str()).len();
    if count > max_chars {
        take_chars(text.as_str(), max_chars).concat("...[已截断]")
    } else {
        text
    }
}

/// What of a text is put down.
pub open spec fn sanitized(value: Seq<char>, secrets: Seq<Seq<char>>, max: nat) -> Seq<char> {
    bounded(redacted(value, secrets, secrets.len() as int), max)
}

fn sanitize(value: &str, redactions: &Vec<String>, max_chars: usize) -> (r: String)
    ensures
        r@ == sanitized(value@, crate::strings::views(redactions@), max_chars as nat),
{
    bounded_text(redact_exact_values(value, redactions).as_str(), max_chars)
}

/// The lines of a trace that are put down.
pub open spec fn sanitized_trace(trace: Seq<Seq<char>>, secrets: Seq<Seq<char>>) -> Seq<Seq<char>> {
    Seq::new(
        if trace.len() < MAX_TRACE_ITEMS {
            trace.len()
        } else {
            MAX_TRACE_ITEMS as nat
        },
        |i: int| sanitized(trace[i], secrets, MAX_TRACE_CHARS as nat),
    )
}

impl TaskReport {
    /// The report says this of the task, with the secrets replaced.
    pub open spec fn tells(
        self,
        request: Seq<char>,
        provider: Seq<char>,
        model: Seq<char>,
        outcome: TaskReportOutcome,
        trace: Seq<Seq<char>>,
        summary: Seq<char>,
        secrets: Seq<Seq<char>>,
    ) -> bool {
        &&& self.provider@ == sanitized(provider, secrets, 80)
        &&& self.model@ == sanitized(model, secrets, 160)
        &&& self.request@ == sanitized(request, secrets, MAX_REQUEST_CHARS as nat)
        &&& self.outcome == outcome
        &&& crate::strings::views(self.trace@) == sanitized_trace(trace, secrets)
        &&& self.summary@ == sanitized(summary, secrets, MAX_SUMMARY_CHARS as nat)
    }

    /// The report on a task that came to an end.
    pub fn completed(
        id: String,
        created_at: u64,
        request: &str,
        provider: &str,
        model: &str,
        state: LocalTaskState,
        trace: &Vec<String>,
        summary: &str,
        redactions: &Vec<String>,
    ) -> (r: TaskReport)
        ensures
            r.id@ == id@,
            r.created_at == created_at,
            r.tells(
                request@,
                provider@,
                model@,
                match state {
                    LocalTaskState::Finished => TaskReportOutcome::Finished,
                    LocalTaskState::Stopped => TaskReportOutcome::Stopped,
                },
                crate::strings::views(trace@),
                summary@,
                crate::strings::views(redactions@),
            ),
    {
        let outcome = match state {
            LocalTaskState::Finished => TaskReportOutcome::Finished,
            LocalTaskState::Stopped => TaskReportOutcome::Stopped,
        };
        TaskReport::new(
            id,
            created_at,
            request,
            provider,
            model,
            outcome,
            trace,
            summary,
            redactions,
        )
    }

    /// The report on a task that failed.
    pub fn failed(
        id: String,
        created_at: u64,
        request: &str,
        provider: &str,
        model: &str,
        error: &str,
        redactions: &Vec<String>,
    ) -> (r: TaskReport)
        ensures
            r.id@ == id@,
            r.created_at == created_at,
            r.tells(
                request@,
                provider@,
                model@,
                TaskReportOutcome::Failed,
                Seq::empty(),
                error@,
                crate::strings::views(redactions@),
            ),
    {
        let trace: Vec<String> = Vec::new();
        assert(crate::strings::views(trace@) =~= Seq::empty());
        TaskReport::new(
            id,
            created_at,
            request,
            provider,
            model,
            TaskReportOutcome::Failed,
            &trace,
            error,
            redactions,
        )
    }

    fn new(
        id: String,
        created_at: u64,
        request: &str,
        provider: &str,
        model: &str,
        outcome: TaskReportOutcome,
        trace: &Vec<String>,
        summary: &str,
        redactions: &Vec<String>,
    ) -> (r: TaskReport)
        ensures
            r.id@ == id@,
            r.created_at == created_at,
            r.tells(
                request@,
                provider@,
                model@,
                outcome,
                crate::strings::views(trace@),
                summary@,
                crate::strings::views(redactions@),
            ),
    {
        let ghost secrets = crate::strings::views(redactions@);
        let ghost told = sanitized_trace(crate::strings::views(trace@), secrets);
        let mut lines: Vec<String> = Vec::new();
        let mut i: usize = 0;
        assert(crate::strings::views(lines@) =~= told.take(0));
        while i < trace.len() && i < MAX_TRACE_ITEMS
            invariant
                i <= trace@.len(),
                i <= MAX_TRACE_ITEMS,
                secrets == crate::strings::views(redactions@),
                told == sanitized_trace(crate::strings::views(trace@), secrets),
                crate::strings::views(lines@) == told.take(i as int),
            decreases trace@.len() - i,
        {
            let line = sanitize(trace[i].as_str(), redactions, MAX_TRACE_CHARS);
            assert(crate::strings::views(trace@)[i as int] == trace@[i as int]@);
            assert(line@ == told[i as int]);
            push_string(&mut lines, line);
            assert(told.take(i + 1) =~= told.take(i as int).push(told[i as int]));
            i += 1;
        }
        assert(told.take(told.len() as int) =~= told);
        TaskReport {
            id,
            created_at,
            provider: sanitize(provider, redactions, 80),
            model: sanitize(model, redactions, 160),
            request: sanitize(request, redactions, MAX_REQUEST_CHARS),
            outcome,
            trace: lines,
            summary: sanitize(summary, redactions, MAX_SUMMARY_CHARS),
        }
    }
}

/// The names of the files of a report: the one that it is written to first, and the one that it is
/// then moved to.
#[derive(Debug)]
pub struct SavePlan {
    pub temporary_name: String,
    pub final_name: String,
    pub id: String,
}

/// Reports from the newest on, those of one time in the order in which they came.
pub open spec fn placed(s: Seq<TaskReport>, x: TaskReport) -> Seq<TaskReport>
    decreases s.len(),
{
    if s.len() == 0 {
        seq![x]
    } else if s.last().created_at >= x.created_at {
        s.push(x)
    } else {
        placed(s.drop_last(), x).push(s.last())
    }
}

/// Reports from the newest on, those of one time in the order in which they came.
pub open spec fn newest_first(s: Seq<TaskReport>) -> Seq<TaskReport>
    decreases s.len(),
{
    if s.len() == 0 {
        Seq::empty()
    } else {
        placed(newest_first(s.drop_last()), s.last())
    }
}

proof fn lemma_placed_at(s: Seq<TaskReport>, x: TaskReport, j: int)
    requires
        0 <= j <= s.len(),
        j > 0 ==> s[j - 1].created_at >= x.created_at,
        forall|k: int| j <= k < s.len() ==> (#[trigger] s[k]).created_at < x.created_at,
    ensures
        placed(s, x) == s.insert(j, x),
    decreases s.len(),
{
    if s.len() == 0 {
        assert(seq![x] =~= s.insert(j, x));
    } else if j == s.len() {
        assert(s.push(x) =~= s.insert(j, x));
    } else {
        assert(s[s.len() - 1].created_at < x.created_at);
        lemma_placed_at(s.drop_last(), x, j);
        assert(s.drop_last().insert(j, x).push(s.last()) =~= s.insert(j, x));
    }
}

fn sort_newest_first(reports: Vec<TaskReport>) -> (r: Vec<TaskReport>)
    ensures
        r@ == newest_first(reports@),
{
    let ghost all = reports@;
    let ghost mut n: int = 0;
    let mut rest = reports;
    let mut out: Vec<TaskReport> = Vec::new();
    assert(all.take(0) =~= Seq::<TaskReport>::empty());
    assert(all.skip(0) =~= all);
    while rest.len() > 0
        invariant
            0 <= n <= all.len(),
            rest@ == all.skip(n),
            out@ == newest_first(all.take(n)),
        decreases rest@.len(),
    {
        let ghost before = out@;
        let report = rest.remove(0);
        assert(report == all[n]);
        assert(all.take(n + 1).drop_last() =~= all.take(n));
        let mut j: usize = out.len();
        while j > 0 && out[j - 1].created_at < report.created_at
            invariant
                j <= out@.len(),
                out@ == before,
                forall|k: int|
                    j <= k < out@.len() ==> (#[trigger] before[k]).created_at < report.created_at,
            decreases j,
        {
            j -= 1;
        }
        proof {
            lemma_placed_at(before, report, j as int);
            n = n + 1;
        }
        out.insert(j, report);
        assert(rest@ =~= all.skip(n));
    }
    assert(all.take(n) =~= all);
    out
}

/// No report stands before a newer one.
pub open spec fn is_newest_first(s: Seq<TaskReport>) -> bool {
    forall|i: int, j: int|
        0 <= i <= j < s.len() ==> (#[trigger] s[i]).created_at >= (#[trigger] s[j]).created_at
}

proof fn lemma_placed(s: Seq<TaskReport>, x: TaskReport)
    requires
        is_newest_first(s),
    ensures
        is_newest_first(placed(s, x)),
        placed(s, x).to_multiset() == s.to_multiset().insert(x),
        placed(s, x).last() == x || (s.len() > 0 && placed(s, x).last() == s.last()),
        placed(s, x).len() == s.len() + 1,
    decreases s.len(),
{
    broadcast use vstd::seq_lib::group_to_multiset_ensures;

    if s.len() == 0 {
        assert(s.push(x) =~= seq![x]);
    } else if s.last().created_at < x.created_at {
        let head = s.drop_last();
        assert forall|i: int, j: int| 0 <= i <= j < head.len() implies (
        #[trigger] head[i]).created_at >= (#[trigger] head[j]).created_at by {
            assert(head[i] == s[i] && head[j] == s[j]);
        }
        lemma_placed(head, x);
        assert(head.len() > 0 ==> s[s.len() - 2].created_at >= s[s.len() - 1].created_at);
        assert(s =~= head.push(s.last()));
        assert(placed(s, x).to_multiset() =~= s.to_multiset().insert(x));
    }
}

/// Sorting puts the newest reports first and neither adds nor drops one.
pub proof fn law_newest_first(s: Seq<TaskReport>)
    ensures
        is_newest_first(newest_first(s)),
        newest_first(s).to_multiset() == s.to_multiset(),
        newest_first(s).len() == s.len(),
    decreases s.len(),
{
    broadcast use vstd::seq_lib::group_to_multiset_ensures;

    if s.len() > 0 {
        law_newest_first(s.drop_last());
        lemma_placed(newest_first(s.drop_last()), s.last());
        assert(s =~= s.drop_last().push(s.last()));
    } else {
        assert(s =~= Seq::empty());
    }
}

pub open spec fn is_hex(c: char) -> bool {
    ('0' <= c <= '9') || ('a' <= c <= 'f') || ('A' <= c <= 'F')
}

/// A text that an identifier of a report may begin with.
pub open spec fn is_report_id(text: Seq<char>) -> bool {
    8 <= crate::strings::byte_count(text) <= 36 && forall|i: int|
        0 <= i < text.len() ==> is_hex(#[trigger] text[i]) || text[i] == '-'
}

fn check_report_id(text: &str) -> (r: bool)
    ensures
        r == is_report_id(text@),
{
    if byte_len(text) < 8 || byte_len(text) > 36 {
        return false;
    }
    let v = to_chars(text);
    let mut i: usize = 0;
    while i < v.len()
        invariant
            i <= v@.len(),
            v@ == text@,
            forall|k: int| 0 <= k < i ==> is_hex(#[trigger] v@[k]) || v@[k] == '-',
        decreases v@.len() - i,
    {
        let c: char = v[i];
        if !(char_is_digit(c) || ('a' <= c && c <= 'f') || ('A' <= c && c <= 'F') || c == '-') {
            assert(!is_hex(text@[i as int]) && text@[i as int] != '-');
            return false;
        }
        i += 1;
    }
    true
}

/// How many of the first `n` reports have an identifier that begins so.
pub open spec fn matching(reports: Seq<TaskReport>, prefix: Seq<char>, n: int) -> int
    decreases n,
{
    if n <= 0 {
        0
    } else {
        matching(reports, prefix, n - 1) + (if crate::strings::starts(
            reports[n - 1].id@,
            prefix,
        ) {
            1int
        } else {
            0
        })
    }
}

/// The file in the directory of reports holds one.
pub fn is_report_file(name: &str) -> (r: bool)
    ensures
        r == (crate::autonomy::local_task::extension(name@) == "json"@),
{
    same(crate::autonomy::local_task::path_extension(name).as_str(), "json")
}

pub struct TaskReportStore<'a> {
    pub config: &'a TaskReportConfig,
}

impl<'a> TaskReportStore<'a> {
    pub fn new(config: &'a TaskReportConfig) -> (r: TaskReportStore<'a>)
        ensures
            r.config == config,
    {
        TaskReportStore { config }
    }

    pub fn enabled(&self) -> (r: bool)
        ensures
            r == self.config.enabled,
    {
        self.config.enabled
    }

    /// How a report is written. Where reports are off nothing is.
    pub fn save(&self, report: &TaskReport) -> (r: Option<SavePlan>)
        ensures
            match r {
                None => !self.config.enabled,
                Some(plan) => {
                    &&& self.config.enabled
                    &&& plan.final_name@ == crate::strings::decimal(
                        (report.created_at / 1_000_000) as nat,
                    ) + "-"@ + report.id@ + ".json"@
                    &&& plan.temporary_name@ == "."@ + report.id@ + ".tmp"@
                    &&& plan.id@ == report.id@
                },
            },
    {
        if !self.enabled() {
            return None;
        }
        Some(
            SavePlan {
                temporary_name: owned(".").concat(report.id.as_str()).concat(".tmp"),
                final_name: u64_to_string(report.created_at / 1_000_000).concat("-").concat(
                    report.id.as_str(),
                ).concat(".json"),
                id: owned(report.id.as_str()),
            },
        )
    }

    /// The newest `limit` of the reports that were read.
    pub fn list(&self, reports: Vec<TaskReport>, limit: usize) -> (r: Vec<TaskReport>)
        ensures
            r@ == (if !self.config.enabled {
                Seq::<TaskReport>::empty()
            } else if newest_first(reports@).len() <= limit {
                newest_first(reports@)
            } else {
                newest_first(reports@).take(limit as int)
            }),
    {
        if !self.enabled() {
            return Vec::new();
        }
        let mut sorted = sort_newest_first(reports);
        if sorted.len() > limit {
            sorted.truncate(limit);
            assert(newest_first(reports@).subrange(0, limit as int) =~= newest_first(reports@).take(
                limit as int,
            ));
        }
        sorted
    }

    /// The place of the one report whose identifier begins with the text.
    pub fn get(&self, id_or_prefix: &str, reports: &Vec<TaskReport>) -> (r: Result<
        Option<usize>,
        String,
    >)
        ensures
            ({
                let text = crate::strings::trimmed(id_or_prefix@);
                let n = if self.config.enabled {
                    matching(reports@, text, reports@.len() as int)
                } else {
                    0
                };
                match r {
                    Ok(None) => is_report_id(text) && n == 0,
                    Ok(Some(i)) => is_report_id(text) && n == 1 && i < reports@.len()
                        && crate::strings::starts(reports@[i as int].id@, text),
                    Err(words) => if is_report_id(text) {
                        n > 1 && words@ == "报告 ID 前缀不唯一；请提供更多位"@
                    } else {
                        words@ == "报告 ID 格式无效；请从 /reports 复制至少 8 位 ID"@
                    },
                }
            }),
    {
        let text = trim(id_or_prefix);
        if !check_report_id(text.as_str()) {
            return Err(owned("报告 ID 格式无效；请从 /reports 复制至少 8 位 ID"));
        }
        if !self.enabled() {
            return Ok(None);
        }
        let mut found: Option<usize> = None;
        let mut several = false;
        let mut i: usize = 0;
        while i < reports.len()
            invariant
                i <= reports@.len(),
                match found {
                    None => matching(reports@, text@, i as int) == 0,
                    Some(k) => k < i && crate::strings::starts(reports@[k as int].id@, text@)
                        && matching(reports@, text@, i as int) >= 1,
                },
                several == (matching(reports@, text@, i as int) > 1),
            decreases reports@.len() - i,
        {
            if starts_with(reports[i].id.as_str(), text.as_str()) {
                if found.is_some() {
                    several = true;
                } else {
                    found = Some(i);
                }
            }
            i += 1;
        }
        if several {
            Err(owned("报告 ID 前缀不唯一；请提供更多位"))
        } else {
            Ok(found)
        }
    }
}

/// A text with its line ends replaced by spaces.
pub open spec fn flattened(value: Seq<char>) -> Seq<char> {
    Seq::new(
        value.len(),
        |i: int|
            if value[i] == '\r' || value[i] == '\n' {
                ' '
            } else {
                value[i]
            },
    )
}

/// A text on one line, cut at `max_chars` characters.
pub fn one_line(value: &str, max_chars: usize) -> (r: String)
    ensures
        r@ == bounded(flattened(value@), max_chars as nat),
{
    let v = to_chars(value);
    let mut out: Vec<char> = Vec::new();
    let mut i: usize = 0;
    while i < v.len()
        invariant
            i <= v@.len(),
            v@ == value@,
            out@ =~= flattened(value@).take(i as int),
        decreases v@.len() - i,
    {
        let c: char = v[i];
        if c == '\r' || c == '\n' {
            out.push(' ');
        } else {
            out.push(c);
        }
        i += 1;
    }
    assert(flattened(value@).take(v@.len() as int) =~= flattened(value@));
    bounded_text(from_chars(&out).as_str(), max_chars)
}

/// The line on a report that was made at `time`.
pub open spec fn report_line(report: TaskReport, time: Seq<char>) -> Seq<char> {
    "- "@ + crate::text::truncated(report.id@, 8) + "  "@ + time + "  ["@ + outcome_label(
        report.outcome,
    ) + "]  "@ + report.model@ + "  "@ + bounded(flattened(report.request@), 120)
}

/// The lines on the reports. `times` holds when each of them was made, as it is shown.
pub fn render_report_list(reports: &Vec<TaskReport>, times: &Vec<String>) -> (r: String)
    requires
        times@.len() == reports@.len(),
        forall|i: int|
            0 <= i < reports@.len() ==> crate::text::has_prefix_of((#[trigger] reports@[i]).id@, 8),
    ensures
        r@ == (if reports@.len() == 0 {
            "暂无任务报告。"@
        } else {
            crate::strings::join(
                Seq::new(
                    reports@.len(),
                    |i: int| report_line(reports@[i], crate::strings::views(times@)[i]),
                ),
                "\n"@,
            )
        }),
{
    if reports.len() == 0 {
        return owned("暂无任务报告。");
    }
    let ghost all = Seq::new(
        reports@.len(),
        |i: int| report_line(reports@[i], crate::strings::views(times@)[i]),
    );
    let mut lines: Vec<String> = Vec::new();
    let mut i: usize = 0;
    assert(crate::strings::views(lines@) =~= all.take(0));
    while i < reports.len()
        invariant
            i <= reports@.len(),
            times@.len() == reports@.len(),
            all == Seq::new(
                reports@.len(),
                |i: int| report_line(reports@[i], crate::strings::views(times@)[i]),
            ),
            crate::strings::views(lines@) == all.take(i as int),
        decreases reports@.len() - i,
    {
        let report = &reports[i];
        assert(crate::strings::views(times@)[i as int] == times@[i as int]@);
        push_string(
            &mut lines,
            owned("- ").concat(cut_at(report.id.as_str(), 8).as_str()).concat("  ").concat(
                times[i].as_str(),
            ).concat("  [").concat(report.outcome.label()).concat("]  ").concat(
                report.model.as_str(),
            ).concat("  ").concat(one_line(report.request.as_str(), 120).as_str()),
        );
        assert(all.take(i + 1) =~= all.take(i as int).push(all[i as int]));
        i += 1;
    }
    assert(all.take(all.len() as int) =~= all);
    join_with(&lines, "\n")
}

/// The lines of a trace as they are shown.
pub open spec fn trace_text(trace: Seq<Seq<char>>) -> Seq<char> {
    if trace.len() == 0 {
        "- 无"@
    } else {
        crate::strings::join(Seq::new(trace.len(), |i: int| "- "@ + trace[i]), "\n"@)
    }
}

fn trace_lines(trace: &Vec<String>) -> (r: String)
    ensures
        r@ == trace_text(crate::strings::views(trace@)),
{
    let ghost texts = crate::strings::views(trace@);
    if trace.len() == 0 {
        return owned("- 无");
    }
    let ghost all = Seq::new(texts.len(), |i: int| "- "@ + texts[i]);
    let mut lines: Vec<String> = Vec::new();
    let mut i: usize = 0;
    assert(crate::strings::views(lines@) =~= all.take(0));
    while i < trace.len()
        invariant
            i <= trace@.len(),
            texts == crate::strings::views(trace@),
            all == Seq::new(texts.len(), |i: int| "- "@ + texts[i]),
            crate::strings::views(lines@) == all.take(i as int),
        decreases trace@.len() - i,
    {
        push_string(&mut lines, owned("- ").concat(trace[i].as_str()));
        assert(all.take(i + 1) =~= all.take(i as int).push(all[i as int]));
        i += 1;
    }
    assert(all.take(all.len() as int) =~= all);
    join_with(&lines, "\n")
}

/// A report that was made at `time`, in full.
pub fn render_report(report: &TaskReport, time: &str) -> (r: String)
    ensures
        r@ == "报告 ID："@ + report.id@ + "\n时间："@ + time@ + "\n模型："@ + report.provider@ + "/"@
            + report.model@ + "\n状态："@ + outcome_label(report.outcome) + "\n\n请求：\n"@
            + report.request@ + "\n\n执行轨迹：\n"@ + trace_text(
            crate::strings::views(report.trace@),
        ) + "\n\n模型结论：\n"@ + report.summary@,
{
    owned("报告 ID：").concat(report.id.as_str()).concat("\n时间：").concat(time).concat(
        "\n模型：",
    ).concat(report.provider.as_str()).concat("/").concat(report.model.as_str()).concat(
        "\n状态：",
    ).concat(report.outcome.label()).concat("\n\n请求：\n").concat(
        report.request.as_str(),
    ).concat("\n\n执行轨迹：\n").concat(trace_lines(&report.trace).as_str()).concat(
        "\n\n模型结论：\n",
    ).concat(report.summary.as_str())
}

/// `q`, set `o` places behind the beginning of `mark`, differs from it where the two overlap.
pub open spec fn clash(q: Seq<char>, mark: Seq<char>, o: int) -> bool {
    exists|i: int| 0 <= i < q.len() && 0 <= o + i < mark.len() && #[trigger] q[i] != mark[o + i]
}

/// No copy of `q` overlaps a copy of `mark` in any text: neither holds the other, and no end of the
/// one is a beginning of the other.
pub open spec fn is_apart(q: Seq<char>, mark: Seq<char>) -> bool {
    forall|o: int| -q.len() < o < mark.len() ==> #[trigger] clash(q, mark, o)
}

/// No copy of `q` reaches into a copy of `mark` at the end of any text: no end of `q` is a beginning
/// of `mark`, and `mark` does not hold `q`.
pub open spec fn is_apart_from_end(q: Seq<char>, mark: Seq<char>) -> bool {
    forall|o: int| -q.len() < o <= mark.len() - q.len() ==> #[trigger] clash(q, mark, o)
}

/// What stands in a text where the mark stands is not `q`.
proof fn lemma_clash(t: Seq<char>, q: Seq<char>, mark: Seq<char>, k: int, at: int)
    requires
        crate::strings::matches_at(t, k, q),
        0 <= at,
        at + mark.len() <= t.len(),
        t.subrange(at, at + mark.len()) == mark,
    ensures
        !clash(q, mark, k - at),
{
    if clash(q, mark, k - at) {
        let i = choose|i: int|
            0 <= i < q.len() && 0 <= (k - at) + i < mark.len() && #[trigger] q[i] != mark[(k - at)
                + i];
        assert(t.subrange(k, k + q.len())[i] == q[i]);
        assert(t.subrange(at, at + mark.len())[k - at + i] == mark[k - at + i]);
    }
}

/// The end of `q` behind its first `c` characters, where the replaced text begins with it, stood at
/// the beginning of the text too.
proof fn lemma_replaced_begins(
    s: Seq<char>,
    p: Seq<char>,
    mark: Seq<char>,
    i: int,
    q: Seq<char>,
    c: int,
)
    requires
        0 <= i <= s.len(),
        p.len() > 0,
        0 <= c <= q.len(),
        mark.len() > 0,
        is_apart(q, mark),
        crate::strings::matches_at(crate::strings::replaced_from(s, p, mark, i), 0, q.skip(c)),
    ensures
        crate::strings::matches_at(s, i, q.skip(c)),
    decreases q.len() - c,
{
    let t = crate::strings::replaced_from(s, p, mark, i);
    let w = q.skip(c);
    if w.len() == 0 {
        assert(s.subrange(i, i + w.len()) =~= w);
    } else {
        assert(t.subrange(0, w.len() as int)[0] == w[0]);
        if crate::strings::matches_at(s, i, p) {
            let before = q.take(c) + t;
            assert(before.subrange(0, q.len() as int) =~= q) by {
                assert forall|k: int| 0 <= k < q.len() implies before[k] == q[k] by {
                    if k >= c {
                        assert(t.subrange(0, w.len() as int)[k - c] == w[k - c]);
                    }
                }
            }
            assert(before.subrange(c, c + mark.len()) =~= mark);
            lemma_clash(before, q, mark, 0, c);
            assert(clash(q, mark, -c));
        } else {
            let rest = crate::strings::replaced_from(s, p, mark, i + 1);
            let tail = q.skip(c + 1);
            assert(t == seq![s[i]] + rest);
            assert(tail =~= w.skip(1));
            assert(crate::strings::matches_at(rest, 0, tail)) by {
                assert(t.subrange(0, w.len() as int) == w);
                assert forall|k: int| 0 <= k < tail.len() implies rest[k] == tail[k] by {
                    assert(t.subrange(0, w.len() as int)[k + 1] == w[k + 1]);
                }
                assert(rest.subrange(0, tail.len() as int) =~= tail);
            }
            lemma_replaced_begins(s, p, mark, i + 1, q, c + 1);
            assert(s.subrange(i, i + w.len()) =~= w) by {
                assert(s.subrange(i + 1, i + 1 + tail.len()) == tail);
                assert forall|k: int| 0 <= k < w.len() implies s[i + k] == w[k] by {
                    if k > 0 {
                        assert(s.subrange(i + 1, i + 1 + tail.len())[k - 1] == tail[k - 1]);
                    }
                }
            }
        }
    }
}

/// A text that no mark overlaps and that stands in the replaced text stood in the text too, and is
/// not the one that was replaced.
proof fn lemma_replaced_occurs(
    s: Seq<char>,
    p: Seq<char>,
    mark: Seq<char>,
    i: int,
    q: Seq<char>,
    k: int,
)
    requires
        0 <= i,
        p.len() > 0,
        q.len() > 0,
        mark.len() > 0,
        is_apart(q, mark),
        crate::strings::matches_at(crate::strings::replaced_from(s, p, mark, i), k, q),
    ensures
        crate::strings::occurs(s, q),
        q != p,
    decreases s.len() - i,
{
    let t = crate::strings::replaced_from(s, p, mark, i);
    assert(t.subrange(k, k + q.len()) == q);
    if i < s.len() {
        if crate::strings::matches_at(s, i, p) {
            let rest = crate::strings::replaced_from(s, p, mark, i + p.len());
            assert(t == mark + rest);
            if k < mark.len() {
                assert(t.subrange(0, mark.len() as int) =~= mark);
                lemma_clash(t, q, mark, k, 0);
                assert(clash(q, mark, k));
            } else {
                assert(rest.subrange(k - mark.len(), k - mark.len() + q.len()) =~= t.subrange(
                    k,
                    k + q.len(),
                ));
                lemma_replaced_occurs(s, p, mark, i + p.len(), q, k - mark.len());
            }
        } else if k == 0 {
            assert(q.skip(0) =~= q);
            lemma_replaced_begins(s, p, mark, i, q, 0);
        } else {
            let rest = crate::strings::replaced_from(s, p, mark, i + 1);
            assert(t == seq![s[i]] + rest);
            assert(rest.subrange(k - 1, k - 1 + q.len()) =~= t.subrange(k, k + q.len()));
            lemma_replaced_occurs(s, p, mark, i + 1, q, k - 1);
        }
    }
}

/// A secret that no mark overlaps is gone once it was replaced, and does not come back when others
/// are.
proof fn lemma_redacted(value: Seq<char>, secrets: Seq<Seq<char>>, n: int, j: int)
    requires
        0 <= j < n <= secrets.len(),
        crate::strings::byte_count(secrets[j]) >= 8,
        is_apart(secrets[j], hidden_mark()),
    ensures
        !crate::strings::occurs(redacted(value, secrets, n), secrets[j]),
    decreases n,
{
    let q = secrets[j];
    let before = redacted(value, secrets, n - 1);
    let after = redacted(value, secrets, n);
    crate::text::lemma_no_bytes(q);
    crate::text::lemma_no_bytes(secrets[n - 1]);
    reveal_strlit("[凭据已隐藏]");
    if j < n - 1 {
        lemma_redacted(value, secrets, n - 1, j);
    }
    if crate::strings::occurs(after, q) && crate::strings::byte_count(secrets[n - 1]) >= 8 {
        let k = choose|k: int| #[trigger] crate::strings::matches_at(after, k, q);
        lemma_replaced_occurs(before, secrets[n - 1], hidden_mark(), 0, q, k);
    }
}

/// The text holds no character that is left out of reports.
pub open spec fn is_shown(s: Seq<char>) -> bool {
    forall|i: int|
        0 <= i < s.len() ==> !crate::strings::is_control(#[trigger] s[i]) || s[i] == '\n' || s[i]
            == '\t'
}

proof fn lemma_shown(s: Seq<char>)
    requires
        is_shown(s),
    ensures
        crate::text::shown(s, "\n\t"@) == s,
    decreases s.len(),
{
    reveal_strlit("\n\t");
    if s.len() > 0 {
        let head = s.drop_last();
        assert forall|i: int| 0 <= i < head.len() implies !crate::strings::is_control(
            #[trigger] head[i],
        ) || head[i] == '\n' || head[i] == '\t' by {
            assert(head[i] == s[i]);
        }
        lemma_shown(head);
        assert("\n\t"@[0] == '\n' && "\n\t"@[1] == '\t');
        assert(!crate::strings::is_control(s[s.len() - 1]) || s.last() == '\n' || s.last() == '\t');
        assert(head.push(s.last()) =~= s);
    } else {
        assert(s =~= Seq::empty());
    }
}

proof fn lemma_replaced_is_shown(s: Seq<char>, p: Seq<char>, mark: Seq<char>, i: int)
    requires
        is_shown(s),
        is_shown(mark),
        0 <= i,
    ensures
        is_shown(crate::strings::replaced_from(s, p, mark, i)),
    decreases s.len() - i,
{
    let t = crate::strings::replaced_from(s, p, mark, i);
    if i < s.len() && p.len() > 0 {
        if crate::strings::matches_at(s, i, p) {
            lemma_replaced_is_shown(s, p, mark, i + p.len());
            let rest = crate::strings::replaced_from(s, p, mark, i + p.len());
            assert forall|k: int| 0 <= k < t.len() implies !crate::strings::is_control(
                #[trigger] t[k],
            ) || t[k] == '\n' || t[k] == '\t' by {
                if k < mark.len() {
                    assert(t[k] == mark[k]);
                } else {
                    assert(t[k] == rest[k - mark.len()]);
                }
            }
        } else {
            lemma_replaced_is_shown(s, p, mark, i + 1);
            let rest = crate::strings::replaced_from(s, p, mark, i + 1);
            assert forall|k: int| 0 <= k < t.len() implies !crate::strings::is_control(
                #[trigger] t[k],
            ) || t[k] == '\n' || t[k] == '\t' by {
                if k > 0 {
                    assert(t[k] == rest[k - 1]);
                } else {
                    assert(t[0] == s[i]);
                }
            }
        }
    }
}

proof fn lemma_redacted_is_shown(value: Seq<char>, secrets: Seq<Seq<char>>, n: int)
    requires
        is_shown(value),
    ensures
        is_shown(redacted(value, secrets, n)),
    decreases n,
{
    if n > 0 {
        lemma_redacted_is_shown(value, secrets, n - 1);
        reveal_strlit("[凭据已隐藏]");
        assert(is_shown(hidden_mark()));
        lemma_replaced_is_shown(
            redacted(value, secrets, n - 1),
            secrets[n - 1],
            hidden_mark(),
            0,
        );
    }
}

/// What is put down of a text holds no secret of 8 bytes or more. No copy of the secret overlaps the
/// mark that stands for a secret, or reaches into the one of a cut. The text holds no character that
/// reports leave out: the text around such a character moves together.
pub proof fn law_secrets_are_hidden(
    value: Seq<char>,
    secrets: Seq<Seq<char>>,
    max: nat,
    j: int,
)
    requires
        0 <= j < secrets.len(),
        crate::strings::byte_count(secrets[j]) >= 8,
        is_apart(secrets[j], hidden_mark()),
        is_apart_from_end(secrets[j], cut_mark()),
        is_shown(value),
    ensures
        !crate::strings::occurs(sanitized(value, secrets, max), secrets[j]),
{
    let q = secrets[j];
    let text = redacted(value, secrets, secrets.len() as int);
    let told = sanitized(value, secrets, max);
    lemma_redacted(value, secrets, secrets.len() as int, j);
    lemma_redacted_is_shown(value, secrets, secrets.len() as int);
    lemma_shown(text);
    crate::text::lemma_no_bytes(q);
    if crate::strings::occurs(told, q) && text.len() > max {
        let k = choose|k: int| #[trigger] crate::strings::matches_at(told, k, q);
        assert(told.subrange(k, k + q.len()) == q);
        if k + q.len() <= max {
            assert(text.subrange(k, k + q.len()) =~= told.subrange(k, k + q.len()));
            assert(crate::strings::matches_at(text, k, q));
        } else {
            assert(told.subrange(max as int, max as int + cut_mark().len()) =~= cut_mark());
            lemma_clash(told, q, cut_mark(), k, max as int);
            assert(clash(q, cut_mark(), k - max));
        }
    }
}

} // verus!
