//! What is known of pull requests, and what became of them.
use crate::json::quote;
use crate::strings::{
    bool_str, eq_ignore_case, join_with, owned, push_string, same, u64_to_string, usize_to_string,
};
use vstd::prelude::*;

verus! {

/// A check on a pull request, whatever kind of check it is.
#[derive(Debug, Clone)]
pub struct CheckSnapshot {
    pub name: String,
    pub status: String,
    pub conclusion: String,
    pub details_url: String,
}

/// What is known of a check.
#[verifier::ext_equal]
pub struct Check {
    pub name: Seq<char>,
    pub status: Seq<char>,
    pub conclusion: Seq<char>,
    pub details_url: Seq<char>,
}

impl View for CheckSnapshot {
    type V = Check;

    open spec fn view(&self) -> Check {
        Check {
            name: self.name@,
            status: self.status@,
            conclusion: self.conclusion@,
            details_url: self.details_url@,
        }
    }
}

/// What is known of each check.
pub open spec fn check_views(checks: Seq<CheckSnapshot>) -> Seq<Check> {
    Seq::new(checks.len(), |i: int| checks[i]@)
}

/// A pull request as it was seen.
#[derive(Debug, Clone)]
pub struct PullRequestSnapshot {
    pub repository: String,
    pub number: u64,
    pub title: String,
    pub url: String,
    pub is_draft: bool,
    pub head_ref_name: String,
    pub head_oid: String,
    pub base_ref_name: String,
    pub merge_state: String,
    pub review_decision: String,
    pub updated_at: String,
    pub checks: Vec<CheckSnapshot>,
}

/// What is known of a pull request.
#[verifier::ext_equal]
pub struct Pull {
    pub repository: Seq<char>,
    pub number: nat,
    pub title: Seq<char>,
    pub url: Seq<char>,
    pub is_draft: bool,
    pub head_ref_name: Seq<char>,
    pub head_oid: Seq<char>,
    pub base_ref_name: Seq<char>,
    pub merge_state: Seq<char>,
    pub review_decision: Seq<char>,
    pub updated_at: Seq<char>,
    pub checks: Seq<Check>,
}

impl View for PullRequestSnapshot {
    type V = Pull;

    open spec fn view(&self) -> Pull {
        Pull {
            repository: self.repository@,
            number: self.number as nat,
            title: self.title@,
            url: self.url@,
            is_draft: self.is_draft,
            head_ref_name: self.head_ref_name@,
            head_oid: self.head_oid@,
            base_ref_name: self.base_ref_name@,
            merge_state: self.merge_state@,
            review_decision: self.review_decision@,
            updated_at: self.updated_at@,
            checks: check_views(self.checks@),
        }
    }
}

/// What is known of each pull request.
pub open spec fn pull_views(pulls: Seq<PullRequestSnapshot>) -> Seq<Pull> {
    Seq::new(pulls.len(), |i: int| pulls[i]@)
}

/// The word is the same up to the case of its letters.
pub open spec fn is_word(text: Seq<char>, word: Seq<char>) -> bool {
    crate::strings::same_ignoring_case(text, word)
}

/// The check has failed.
pub open spec fn failed(check: Check) -> bool {
    ||| is_word(check.conclusion, "FAILURE"@)
    ||| is_word(check.conclusion, "TIMED_OUT"@)
    ||| is_word(check.conclusion, "CANCELLED"@)
    ||| is_word(check.conclusion, "ACTION_REQUIRED"@)
    ||| is_word(check.conclusion, "STARTUP_FAILURE"@)
    ||| is_word(check.status, "FAILURE"@)
    ||| is_word(check.status, "ERROR"@)
}

/// The check goes on, and has not failed.
pub open spec fn pending(check: Check) -> bool {
    !failed(check) && {
        ||| is_word(check.status, "EXPECTED"@)
        ||| is_word(check.status, "PENDING"@)
        ||| is_word(check.status, "QUEUED"@)
        ||| is_word(check.status, "IN_PROGRESS"@)
        ||| is_word(check.status, "REQUESTED"@)
        ||| is_word(check.status, "WAITING"@)
    }
}

/// The check has passed.
pub open spec fn passed(check: Check) -> bool {
    !failed(check) && !pending(check) && (is_word(check.conclusion, "SUCCESS"@) || is_word(
        check.status,
        "SUCCESS"@,
    ))
}

/// Whether a check has failed.
pub fn check_failed(check: &CheckSnapshot) -> (r: bool)
    ensures
        r == failed(check@),
{
    let conclusion = check.conclusion.as_str();
    let status = check.status.as_str();
    eq_ignore_case(conclusion, "FAILURE") || eq_ignore_case(conclusion, "TIMED_OUT")
        || eq_ignore_case(conclusion, "CANCELLED") || eq_ignore_case(conclusion, "ACTION_REQUIRED")
        || eq_ignore_case(conclusion, "STARTUP_FAILURE") || eq_ignore_case(status, "FAILURE")
        || eq_ignore_case(status, "ERROR")
}

/// How many checks came to what.
#[derive(Debug, Clone, Copy, PartialEq, Eq, Structural)]
pub struct CheckSummary {
    pub passed: usize,
    pub failed: usize,
    pub pending: usize,
    pub neutral: usize,
}

impl Default for CheckSummary {
    fn default() -> (r: CheckSummary)
        ensures
            r == (CheckSummary { passed: 0, failed: 0, pending: 0, neutral: 0 }),
    {
        CheckSummary { passed: 0, failed: 0, pending: 0, neutral: 0 }
    }
}

/// How many checks came to what.
#[verifier::ext_equal]
pub struct Tally {
    pub passed: nat,
    pub failed: nat,
    pub pending: nat,
    pub neutral: nat,
}

impl View for CheckSummary {
    type V = Tally;

    open spec fn view(&self) -> Tally {
        Tally {
            passed: self.passed as nat,
            failed: self.failed as nat,
            pending: self.pending as nat,
            neutral: self.neutral as nat,
        }
    }
}

/// How many of the checks came to what.
pub open spec fn tally(checks: Seq<Check>) -> Tally
    decreases checks.len(),
{
    if checks.len() == 0 {
        Tally { passed: 0, failed: 0, pending: 0, neutral: 0 }
    } else {
        let before = tally(checks.drop_last());
        let check = checks.last();
        if failed(check) {
            Tally { failed: before.failed + 1, ..before }
        } else if pending(check) {
            Tally { pending: before.pending + 1, ..before }
        } else if passed(check) {
            Tally { passed: before.passed + 1, ..before }
        } else {
            Tally { neutral: before.neutral + 1, ..before }
        }
    }
}

/// Each check counts once.
pub proof fn law_each_check_counts_once(checks: Seq<Check>)
    ensures
        ({
            let t = tally(checks);
            t.passed + t.failed + t.pending + t.neutral == checks.len()
        }),
    decreases checks.len(),
{
    if checks.len() > 0 {
        law_each_check_counts_once(checks.drop_last());
    }
}

/// The words for a tally.
pub open spec fn tally_text(t: Tally) -> Seq<char> {
    "通过 "@ + crate::strings::decimal(t.passed) + " / 失败 "@ + crate::strings::decimal(t.failed)
        + " / 进行中 "@ + crate::strings::decimal(t.pending) + " / 其他 "@
        + crate::strings::decimal(t.neutral)
}

impl CheckSummary {
    pub fn render(&self) -> (r: String)
        ensures
            r@ == tally_text(self@),
    {
        owned("通过 ").concat(usize_to_string(self.passed).as_str()).concat(" / 失败 ").concat(
            usize_to_string(self.failed).as_str(),
        ).concat(" / 进行中 ").concat(usize_to_string(self.pending).as_str()).concat(
            " / 其他 ",
        ).concat(usize_to_string(self.neutral).as_str())
    }
}

/// The name of a pull request.
pub open spec fn pull_key(repository: Seq<char>, number: nat) -> Seq<char> {
    repository + "#"@ + crate::strings::decimal(number)
}

/// The JSON of a check.
pub open spec fn check_json(check: Check) -> Seq<char> {
    "{\"name\":"@ + crate::json::json_quoted(check.name) + ",\"status\":"@
        + crate::json::json_quoted(check.status) + ",\"conclusion\":"@ + crate::json::json_quoted(
        check.conclusion,
    ) + ",\"details_url\":"@ + crate::json::json_quoted(check.details_url) + "}"@
}

/// The JSON of a pull request.
pub open spec fn pull_json(pull: Pull) -> Seq<char> {
    "{\"repository\":"@ + crate::json::json_quoted(pull.repository) + ",\"number\":"@
        + crate::strings::decimal(pull.number) + ",\"title\":"@ + crate::json::json_quoted(
        pull.title,
    ) + ",\"url\":"@ + crate::json::json_quoted(pull.url) + ",\"is_draft\":"@
        + crate::strings::bool_text(pull.is_draft) + ",\"head_ref_name\":"@
        + crate::json::json_quoted(pull.head_ref_name) + ",\"head_oid\":"@
        + crate::json::json_quoted(pull.head_oid) + ",\"base_ref_name\":"@
        + crate::json::json_quoted(pull.base_ref_name) + ",\"merge_state\":"@
        + crate::json::json_quoted(pull.merge_state) + ",\"review_decision\":"@
        + crate::json::json_quoted(pull.review_decision) + ",\"updated_at\":"@
        + crate::json::json_quoted(pull.updated_at) + ",\"checks\":["@ + crate::strings::join(
        Seq::new(pull.checks.len(), |i: int| check_json(pull.checks[i])),
        ","@,
    ) + "]}"@
}

impl CheckSnapshot {
    /// The JSON of the check.
    fn json(&self) -> (r: String)
        ensures
            r@ == check_json(self@),
    {
        owned("{\"name\":").concat(quote(self.name.as_str()).as_str()).concat(
            ",\"status\":",
        ).concat(quote(self.status.as_str()).as_str()).concat(",\"conclusion\":").concat(
            quote(self.conclusion.as_str()).as_str(),
        ).concat(",\"details_url\":").concat(quote(self.details_url.as_str()).as_str()).concat("}")
    }

    /// Whether the same is known of both.
    fn same_as(&self, other: &CheckSnapshot) -> (r: bool)
        ensures
            r == (self@ == other@),
    {
        same(self.name.as_str(), other.name.as_str()) && same(
            self.status.as_str(),
            other.status.as_str(),
        ) && same(self.conclusion.as_str(), other.conclusion.as_str()) && same(
            self.details_url.as_str(),
            other.details_url.as_str(),
        )
    }
}

impl PullRequestSnapshot {
    pub fn key(&self) -> (r: String)
        ensures
            r@ == pull_key(self.repository@, self.number as nat),
    {
        owned(self.repository.as_str()).concat("#").concat(u64_to_string(self.number).as_str())
    }

    /// How many of the checks came to what.
    pub fn check_summary(&self) -> (r: CheckSummary)
        ensures
            r@ == tally(self@.checks),
    {
        let ghost all = self@.checks;
        let mut summary = CheckSummary::default();
        let mut i: usize = 0;
        assert(all.take(0) =~= Seq::empty());
        while i < self.checks.len()
            invariant
                i <= self.checks@.len(),
                all == check_views(self.checks@),
                summary@ == tally(all.take(i as int)),
                summary.passed + summary.failed + summary.pending + summary.neutral == i,
            decreases self.checks@.len() - i,
        {
            assert(all.take(i + 1).drop_last() =~= all.take(i as int));
            assert(all.take(i + 1).last() == self.checks@[i as int]@);
            let check = &self.checks[i];
            let status = check.status.as_str();
            if check_failed(check) {
                summary.failed = summary.failed + 1;
            } else if eq_ignore_case(status, "EXPECTED") || eq_ignore_case(status, "PENDING")
                || eq_ignore_case(status, "QUEUED") || eq_ignore_case(status, "IN_PROGRESS")
                || eq_ignore_case(status, "REQUESTED") || eq_ignore_case(status, "WAITING") {
                summary.pending = summary.pending + 1;
            } else if eq_ignore_case(check.conclusion.as_str(), "SUCCESS") || eq_ignore_case(
                status,
                "SUCCESS",
            ) {
                summary.passed = summary.passed + 1;
            } else {
                summary.neutral = summary.neutral + 1;
            }
            i += 1;
        }
        assert(all.take(all.len() as int) =~= all);
        summary
    }

    /// Whether the same is known of both.
    pub fn same_as(&self, other: &PullRequestSnapshot) -> (r: bool)
        ensures
            r == (self@ == other@),
    {
        if self.number != other.number || self.is_draft != other.is_draft || !same(
            self.repository.as_str(),
            other.repository.as_str(),
        ) || !same(self.title.as_str(), other.title.as_str()) || !same(
            self.url.as_str(),
            other.url.as_str(),
        ) || !same(self.head_ref_name.as_str(), other.head_ref_name.as_str()) || !same(
            self.head_oid.as_str(),
            other.head_oid.as_str(),
        ) || !same(self.base_ref_name.as_str(), other.base_ref_name.as_str()) || !same(
            self.merge_state.as_str(),
            other.merge_state.as_str(),
        ) || !same(self.review_decision.as_str(), other.review_decision.as_str()) || !same(
            self.updated_at.as_str(),
            other.updated_at.as_str(),
        ) {
            return false;
        }
        assert(self@.checks.len() == self.checks@.len());
        assert(other@.checks.len() == other.checks@.len());
        if self.checks.len() != other.checks.len() {
            return false;
        }
        let mut i: usize = 0;
        while i < self.checks.len()
            invariant
                i <= self.checks@.len() == other.checks@.len(),
                forall|k: int| 0 <= k < i ==> #[trigger] self@.checks[k] == other@.checks[k],
            decreases self.checks@.len() - i,
        {
            if !self.checks[i].same_as(&other.checks[i]) {
                assert(self@.checks[i as int] != other@.checks[i as int]);
                return false;
            }
            i += 1;
        }
        assert(self@.checks =~= other@.checks);
        true
    }

    /// The JSON of the pull request.
    pub fn json(&self) -> (r: String)
        ensures
            r@ == pull_json(self@),
    {
        let ghost checks = self@.checks;
        let ghost all = Seq::new(checks.len(), |i: int| check_json(checks[i]));
        let mut parts: Vec<String> = Vec::new();
        let mut i: usize = 0;
        assert(crate::strings::views(parts@) =~= all.take(0));
        while i < self.checks.len()
            invariant
                i <= self.checks@.len(),
                checks == check_views(self.checks@),
                all == Seq::new(checks.len(), |i: int| check_json(checks[i])),
                crate::strings::views(parts@) == all.take(i as int),
            decreases self.checks@.len() - i,
        {
            push_string(&mut parts, self.checks[i].json());
            assert(all.take(i + 1) =~= all.take(i as int).push(all[i as int]));
            i += 1;
        }
        assert(all.take(all.len() as int) =~= all);
        owned("{\"repository\":").concat(quote(self.repository.as_str()).as_str()).concat(
            ",\"number\":",
        ).concat(u64_to_string(self.number).as_str()).concat(",\"title\":").concat(
            quote(self.title.as_str()).as_str(),
        ).concat(",\"url\":").concat(quote(self.url.as_str()).as_str()).concat(
            ",\"is_draft\":",
        ).concat(bool_str(self.is_draft)).concat(",\"head_ref_name\":").concat(
            quote(self.head_ref_name.as_str()).as_str(),
        ).concat(",\"head_oid\":").concat(quote(self.head_oid.as_str()).as_str()).concat(
            ",\"base_ref_name\":",
        ).concat(quote(self.base_ref_name.as_str()).as_str()).concat(",\"merge_state\":").concat(
            quote(self.merge_state.as_str()).as_str(),
        ).concat(",\"review_decision\":").concat(
            quote(self.review_decision.as_str()).as_str(),
        ).concat(",\"updated_at\":").concat(quote(self.updated_at.as_str()).as_str()).concat(
            ",\"checks\":[",
        ).concat(join_with(&parts, ",").as_str()).concat("]}")
    }
}

/// What became of a pull request that is no longer listed.
#[derive(Debug, Clone)]
pub struct PullRequestLifecycle {
    pub state: String,
    pub merged_at: String,
    pub closed_at: String,
    pub url: String,
    pub title: String,
}

/// Something that happened to a pull request.
#[derive(Debug, Clone)]
pub struct WatchEvent {
    pub id: String,
    pub task_id: String,
    pub entity_key: String,
    pub kind: String,
    pub fingerprint: String,
    pub summary: String,
    pub evidence_url: String,
    pub created_at: String,
}

/// What a scan came to.
#[derive(Debug, Clone)]
pub struct WatchScanReport {
    pub repositories_scanned: usize,
    pub pull_requests_observed: usize,
    pub events_created: usize,
    pub initial_baseline: bool,
    pub warnings: Vec<String>,
    pub pull_requests: Vec<PullRequestSnapshot>,
}

/// What a scan came to.
#[verifier::ext_equal]
pub struct Scanned {
    pub repositories_scanned: nat,
    pub pull_requests_observed: nat,
    pub events_created: nat,
    pub initial_baseline: bool,
    pub warnings: Seq<Seq<char>>,
    pub pull_requests: Seq<Pull>,
}

impl View for WatchScanReport {
    type V = Scanned;

    open spec fn view(&self) -> Scanned {
        Scanned {
            repositories_scanned: self.repositories_scanned as nat,
            pull_requests_observed: self.pull_requests_observed as nat,
            events_created: self.events_created as nat,
            initial_baseline: self.initial_baseline,
            warnings: crate::strings::views(self.warnings@),
            pull_requests: pull_views(self.pull_requests@),
        }
    }
}

/// A standing order to look at pull requests.
#[derive(Debug, Clone)]
pub struct WatchTask {
    pub id: String,
    pub name: String,
    pub prompt: String,
    pub owner: String,
    pub author: String,
    pub repositories: Vec<String>,
    pub interval_seconds: u64,
    pub instructions: String,
    pub state: String,
    pub last_run_at: String,
    pub last_result: String,
    pub next_run_at: String,
    pub created_at: String,
    pub updated_at: String,
}

} // verus!
