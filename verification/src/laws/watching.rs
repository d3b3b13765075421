//! What a scan of pull requests tells, and what it leaves alone.
use vstd::prelude::*;

use crate::watch::model::{Check, Pull, PullRequestLifecycle, PullRequestSnapshot};
use crate::watch::{Happened, ScanEvent, ScanStage, ScanState, Scanning};

verus! {

/// The check failed, by its conclusion or its status.
pub open spec fn is_failure(check: Check) -> bool {
    ||| crate::strings::same_ignoring_case(check.conclusion, "FAILURE"@)
    ||| crate::strings::same_ignoring_case(check.conclusion, "TIMED_OUT"@)
    ||| crate::strings::same_ignoring_case(check.conclusion, "CANCELLED"@)
    ||| crate::strings::same_ignoring_case(check.conclusion, "ACTION_REQUIRED"@)
    ||| crate::strings::same_ignoring_case(check.conclusion, "STARTUP_FAILURE"@)
    ||| crate::strings::same_ignoring_case(check.status, "FAILURE"@)
    ||| crate::strings::same_ignoring_case(check.status, "ERROR"@)
}

/// The check is not over yet.
pub open spec fn is_waiting(check: Check) -> bool {
    !is_failure(check) && {
        ||| crate::strings::same_ignoring_case(check.status, "EXPECTED"@)
        ||| crate::strings::same_ignoring_case(check.status, "PENDING"@)
        ||| crate::strings::same_ignoring_case(check.status, "QUEUED"@)
        ||| crate::strings::same_ignoring_case(check.status, "IN_PROGRESS"@)
        ||| crate::strings::same_ignoring_case(check.status, "REQUESTED"@)
        ||| crate::strings::same_ignoring_case(check.status, "WAITING"@)
    }
}

/// The check is over and went well.
pub open spec fn is_success(check: Check) -> bool {
    !is_failure(check) && !is_waiting(check) && (crate::strings::same_ignoring_case(
        check.conclusion,
        "SUCCESS"@,
    ) || crate::strings::same_ignoring_case(check.status, "SUCCESS"@))
}

/// The summary counts the checks that failed, those that are not over, and those that went well.
pub proof fn law_checks_are_counted_by_outcome(checks: Seq<Check>)
    ensures
        crate::watch::model::tally(checks).failed == checks.filter(|c: Check| is_failure(c)).len(),
        crate::watch::model::tally(checks).pending == checks.filter(|c: Check| is_waiting(c)).len(),
        crate::watch::model::tally(checks).passed == checks.filter(|c: Check| is_success(c)).len(),
    decreases checks.len(),
{
    reveal(Seq::filter);
    if checks.len() > 0 {
        law_checks_are_counted_by_outcome(checks.drop_last());
    }
}

/// What differs between two sights of a pull request is told, with what it was and what it is, and
/// nothing else is.
pub proof fn law_every_change_is_told(a: Pull, b: Pull)
    ensures
        a.head_oid != b.head_oid ==> crate::watch::changes(a, b).contains(
            "head "@ + crate::watch::short_name(a.head_oid) + " → "@ + crate::watch::short_name(
                b.head_oid,
            ),
        ),
        !a.is_draft && b.is_draft ==> crate::watch::changes(a, b).contains(
            "Draft "@ + "false"@ + " → "@ + "true"@,
        ),
        a.is_draft && !b.is_draft ==> crate::watch::changes(a, b).contains(
            "Draft "@ + "true"@ + " → "@ + "false"@,
        ),
        a.merge_state != b.merge_state ==> crate::watch::changes(a, b).contains(
            "合并状态 "@ + a.merge_state + " → "@ + b.merge_state,
        ),
        a.review_decision != b.review_decision && a.review_decision.len() > 0
            && b.review_decision.len() > 0 ==> crate::watch::changes(a, b).contains(
            "审查 "@ + a.review_decision + " → "@ + b.review_decision,
        ),
        a.review_decision.len() == 0 && b.review_decision.len() > 0 ==> crate::watch::changes(
            a,
            b,
        ).contains("审查 "@ + "未决定"@ + " → "@ + b.review_decision),
        a.review_decision.len() > 0 && b.review_decision.len() == 0 ==> crate::watch::changes(
            a,
            b,
        ).contains("审查 "@ + a.review_decision + " → "@ + "未决定"@),
        crate::watch::changes(a, b).len() == count(a.head_oid != b.head_oid) + count(
            a.is_draft != b.is_draft,
        ) + count(a.merge_state != b.merge_state) + count(a.review_decision != b.review_decision)
            + count(crate::watch::model::tally(a.checks) != crate::watch::model::tally(b.checks)),
{
    let before = crate::watch::model::tally(a.checks);
    let after = crate::watch::model::tally(b.checks);
    let one = crate::watch::told(
        a.head_oid != b.head_oid,
        "head "@ + crate::watch::short_name(a.head_oid) + " → "@ + crate::watch::short_name(b.head_oid),
    );
    let two = crate::watch::told(
        a.is_draft != b.is_draft,
        "Draft "@ + crate::strings::bool_text(a.is_draft) + " → "@ + crate::strings::bool_text(
            b.is_draft,
        ),
    );
    let three = crate::watch::told(
        a.merge_state != b.merge_state,
        "合并状态 "@ + a.merge_state + " → "@ + b.merge_state,
    );
    let four = crate::watch::told(
        a.review_decision != b.review_decision,
        "审查 "@ + crate::watch::shown_decision(a.review_decision) + " → "@
            + crate::watch::shown_decision(b.review_decision),
    );
    let five = crate::watch::told(
        before != after,
        "CI ["@ + crate::watch::model::tally_text(before) + "] → ["@ + crate::watch::model::tally_text(
            after,
        ) + "]"@,
    );
    let all = crate::watch::changes(a, b);
    assert(all == one + two + three + four + five);
    if a.head_oid != b.head_oid {
        assert(all[0] == one[0]);
    }
    if a.is_draft != b.is_draft {
        assert(all[one.len() as int] == two[0]);
    }
    if a.merge_state != b.merge_state {
        assert(all[(one + two).len() as int] == three[0]);
    }
    if a.review_decision != b.review_decision {
        assert(all[(one + two + three).len() as int] == four[0]);
    }
}

pub open spec fn count(b: bool) -> nat {
    if b {
        1
    } else {
        0
    }
}

/// The event is about the pull request and says where to look.
pub open spec fn is_about(event: Happened, pull: Pull) -> bool {
    event.entity_key == pull.repository + "#"@ + crate::strings::decimal(pull.number)
}

/// A pull request that looks otherwise than it did is written down as changed, then kept as it is now.
pub proof fn law_changed_pull_is_written_down(s: ScanState, known: PullRequestSnapshot)
    requires
        s.wf(),
        s.stage is Lookup,
        known@ != s.pull(),
    ensures
        ({
            let next = crate::watch::scan_step(s, ScanEvent::Known(Some(known)));
            &&& next.1 matches Scanning::Insert(event) && is_about(event, s.pull()) && event.kind
                == "github-pr-changed"@ && event.evidence_url == s.pull().url && event.material
                == crate::watch::model::pull_json(s.pull()) && event.summary
                == crate::watch::change_words(known@, s.pull())
            &&& next.0 == (ScanState { stage: ScanStage::Insert, ..s })
        }),
{
}

/// A pull request that was not there before is written down as discovered, unless there was no scan
/// before.
pub proof fn law_new_pull_is_written_down(s: ScanState)
    requires
        s.wf(),
        s.stage is Lookup,
        !s.report.initial_baseline,
    ensures
        ({
            let next = crate::watch::scan_step(s, ScanEvent::Known(None));
            &&& next.1 matches Scanning::Insert(event) && is_about(event, s.pull()) && event.kind
                == "github-pr-discovered"@ && event.evidence_url == s.pull().url && event.material
                == s.pull().head_oid
            &&& next.0 == (ScanState { stage: ScanStage::Insert, ..s })
        }),
{
}

/// A pull request that is gone from the list is written down as merged or closed, as it ended; one that
/// is still open is neither written down nor forgotten.
pub proof fn law_end_of_a_pull_is_written_down(s: ScanState, end: PullRequestLifecycle)
    requires
        s.wf(),
        s.stage is Lifecycle,
    ensures
        ({
            let next = crate::watch::scan_step(s, ScanEvent::Lifecycle(Ok(end)));
            &&& end.state@ == "MERGED"@ ==> (next.1 matches Scanning::Insert(event) && is_about(
                event,
                s.known(),
            ) && event.kind == "github-pr-merged"@ && event.material == end.merged_at@
                && event.evidence_url == end.url@)
            &&& end.state@ == "CLOSED"@ ==> (next.1 matches Scanning::Insert(event) && is_about(
                event,
                s.known(),
            ) && event.kind == "github-pr-closed"@ && event.material == end.closed_at@
                && event.evidence_url == end.url@)
            &&& end.state@ == "OPEN"@ ==> !(next.1 is Insert) && !(next.1 is Delete)
                && next.0.report.warnings.len() == s.report.warnings.len() + 1
        }),
{
    reveal_strlit("MERGED");
    reveal_strlit("OPEN");
    reveal_strlit("CLOSED");
    assert("MERGED"@.len() == 6 && "OPEN"@.len() == 4 && "CLOSED"@.len() == 6);
    assert("MERGED"@[0] == 'M' && "CLOSED"@[0] == 'C');
    if end.state@ == "OPEN"@ {
        lemma_previous(
            ScanState {
                previous_at: s.previous_at + 1,
                report: crate::watch::with_warning(
                    s.report,
                    crate::watch::model::pull_key(s.known().repository, s.known().number)
                        + " 未出现在 open 列表但远端仍为 OPEN，已保留快照"@,
                ),
                ..s
            },
        );
    }
}

/// An event that was there already is not counted again.
pub proof fn law_events_are_counted_once(s: ScanState, is_new: bool)
    requires
        s.wf(),
        s.stage is Insert || s.stage is InsertEnd,
    ensures
        ({
            let next = crate::watch::scan_step(s, ScanEvent::Inserted(is_new));
            &&& next.0.report.events_created == s.report.events_created + count(is_new)
            &&& s.stage is Insert ==> next.1 == Scanning::Upsert(s.pull())
            &&& s.stage is InsertEnd ==> next.1 == Scanning::Delete(
                s.known().repository + "#"@ + crate::strings::decimal(s.known().number),
            )
        }),
{
}

/// The pull request was seen in this scan, or its repository could not be read.
pub open spec fn is_excused(s: ScanState, pull: Pull) -> bool {
    s.seen.contains(pull.repository + "#"@ + crate::strings::decimal(pull.number))
        || !s.successful.contains(pull.repository)
}

proof fn lemma_previous(s: ScanState)
    ensures
        ({
            let next = crate::watch::scan_previous(s);
            &&& next.1 is Mark || next.1 is Lifecycle
            &&& next.0 == (ScanState {
                stage: next.0.stage,
                previous_at: next.0.previous_at,
                ..s
            })
            &&& next.1 is Mark ==> next.0.stage is Mark && forall|j: int|
                s.previous_at <= j < s.previous.len() ==> is_excused(s, #[trigger] s.previous[j])
            &&& next.1 is Lifecycle ==> {
                &&& next.0.stage is Lifecycle
                &&& s.previous_at <= next.0.previous_at < s.previous.len()
                &&& !is_excused(s, s.previous[next.0.previous_at as int])
                &&& next.1 == Scanning::Lifecycle(
                    s.previous[next.0.previous_at as int].repository,
                    s.previous[next.0.previous_at as int].number,
                )
                &&& forall|j: int|
                    s.previous_at <= j < next.0.previous_at ==> is_excused(s, #[trigger] s.previous[j])
            }
        }),
    decreases s.previous.len() - s.previous_at,
{
    if s.previous_at < s.previous.len() {
        let pull = s.known();
        if s.seen.contains(crate::watch::model::pull_key(pull.repository, pull.number))
            || !s.successful.contains(pull.repository) {
            lemma_previous(ScanState { previous_at: s.previous_at + 1, ..s });
        }
    }
}

/// Repositories are read one after the other, all of them; a scan is over only when every pull request
/// that was known before was seen, asked about, or stands in a repository that could not be read.
pub proof fn law_course_of_a_scan(s: ScanState, event: ScanEvent)
    requires
        s.wf(),
        crate::watch::scan_fits(s.stage, event),
        !(event is Failed),
    ensures
        ({
            let next = crate::watch::scan_step(s, event);
            let early = s.stage is Pulls || s.stage is Upsert;
            &&& next.1 is Pulls ==> next.0.repo_at == s.repo_at + 1 && next.1 == Scanning::Pulls(
                s.repositories[(s.repo_at + 1) as int],
            )
            &&& early && (next.1 is Mark || next.1 is Lifecycle) ==> s.repo_at + 1
                == s.repositories.len()
            &&& next.1 is Mark && early ==> forall|j: int|
                s.previous_at <= j < s.previous.len() ==> is_excused(next.0, #[trigger] s.previous[j])
            &&& next.1 is Mark && !early ==> forall|j: int|
                s.previous_at < j < s.previous.len() ==> is_excused(next.0, #[trigger] s.previous[j])
            &&& next.1 is Lifecycle ==> !is_excused(next.0, next.0.known())
            &&& next.1 is Finished ==> s.stage is Mark && next.1 == Scanning::Finished(s.report)
        }),
{
    match event {
        ScanEvent::Pulls(Err(words)) => {
            let t = ScanState {
                repo_at: s.repo_at + 1,
                report: crate::watch::with_warning(
                    s.report,
                    s.repositories[s.repo_at as int] + ": "@ + words@,
                ),
                ..s
            };
            lemma_previous(t);
        },
        ScanEvent::Pulls(Ok(pulls)) => {
            let t = ScanState {
                successful: s.successful.push(s.repositories[s.repo_at as int]),
                pulls: crate::watch::model::pull_views(pulls@),
                pull_at: 0,
                ..s
            };
            lemma_previous(ScanState { repo_at: t.repo_at + 1, ..t });
        },
        ScanEvent::Stored => {
            let t = ScanState {
                pull_at: s.pull_at + 1,
                report: crate::watch::model::Scanned {
                    pull_requests: s.report.pull_requests.push(s.pull()),
                    ..s.report
                },
                ..s
            };
            lemma_previous(ScanState { repo_at: t.repo_at + 1, ..t });
            lemma_previous(ScanState { previous_at: s.previous_at + 1, ..s });
        },
        ScanEvent::Lifecycle(Ok(end)) => {
            lemma_previous(
                ScanState {
                    previous_at: s.previous_at + 1,
                    report: crate::watch::with_warning(
                        s.report,
                        crate::watch::model::pull_key(s.known().repository, s.known().number)
                            + " 未出现在 open 列表但远端仍为 OPEN，已保留快照"@,
                    ),
                    ..s
                },
            );
        },
        ScanEvent::Lifecycle(Err(words)) => {
            lemma_previous(
                ScanState {
                    previous_at: s.previous_at + 1,
                    report: crate::watch::with_warning(
                        s.report,
                        crate::watch::model::pull_key(s.known().repository, s.known().number)
                            + " 无法确认关闭状态："@ + words@,
                    ),
                    ..s
                },
            );
        },
        _ => {},
    }
}

/// Every pull request of a repository that was read is looked up, in order, and counts as seen; a
/// repository that was not read is warned about and excuses its own.
pub proof fn law_every_pull_is_looked_up(s: ScanState, pulls: Vec<PullRequestSnapshot>, words: String)
    requires
        s.wf(),
    ensures
        s.stage is Pulls && pulls@.len() > 0 ==> ({
            let next = crate::watch::scan_step(s, ScanEvent::Pulls(Ok(pulls)));
            let key = pulls@[0].repository@ + "#"@ + crate::strings::decimal(pulls@[0].number as nat);
            &&& next.1 == Scanning::Lookup(key)
            &&& next.0.seen == s.seen.push(key)
            &&& next.0.pull_at == 0
            &&& next.0.report.pull_requests_observed == s.report.pull_requests_observed + 1
            &&& next.0.successful == s.successful.push(s.repositories[s.repo_at as int])
        }),
        s.stage is Upsert && s.pull_at + 1 < s.pulls.len() ==> ({
            let next = crate::watch::scan_step(s, ScanEvent::Stored);
            let pull = s.pulls[(s.pull_at + 1) as int];
            let key = pull.repository + "#"@ + crate::strings::decimal(pull.number);
            &&& next.1 == Scanning::Lookup(key)
            &&& next.0.seen == s.seen.push(key)
            &&& next.0.pull_at == s.pull_at + 1
            &&& next.0.report.pull_requests_observed == s.report.pull_requests_observed + 1
            &&& next.0.report.pull_requests == s.report.pull_requests.push(s.pull())
        }),
        s.stage is Pulls ==> ({
            let next = crate::watch::scan_step(s, ScanEvent::Pulls(Err(words)));
            &&& next.0.successful == s.successful
            &&& next.0.report.warnings == s.report.warnings.push(
                s.repositories[s.repo_at as int] + ": "@ + words@,
            )
        }),
{
    if s.stage is Pulls {
        lemma_previous(
            ScanState {
                repo_at: s.repo_at + 1,
                report: crate::watch::with_warning(
                    s.report,
                    s.repositories[s.repo_at as int] + ": "@ + words@,
                ),
                ..s
            },
        );
    }
}

} // verus!
