//! What is kept of scans: the pull requests as they were last seen, what happened to them, and the
//! standing orders.
use crate::digest::digest_text;
use crate::order::not_after;
use crate::strings::{owned, same};
use crate::watch::model::{PullRequestSnapshot, WatchEvent, WatchTask};
use crate::watch::NewEvent;
use vstd::prelude::*;

verus! {

/// How many seconds a claimed order is left to the one that claimed it.
pub const LEASE_SECONDS: u64 = 300;

/// The name under which it is kept that there has been a scan.
pub fn initialized_key(task_id: &str) -> (r: String)
    ensures
        r@ == "initialized:"@ + task_id@,
{
    owned("initialized:").concat(task_id)
}

/// A pull request as it is kept.
#[derive(Debug)]
pub struct SnapshotRow {
    pub task_id: String,
    pub entity_key: String,
    pub kind: &'static str,
    pub snapshot_json: String,
    pub fingerprint: String,
    pub observed_at: String,
}

/// The row that takes the place of what was known of a pull request.
pub fn upsert_snapshot(task_id: &str, snapshot: &PullRequestSnapshot, now: &str) -> (r: SnapshotRow)
    ensures
        r.task_id@ == task_id@,
        r.entity_key@ == crate::watch::model::pull_key(
            snapshot.repository@,
            snapshot.number as nat,
        ),
        r.kind@ == "github-pr"@,
        r.snapshot_json@ == crate::watch::model::pull_json(snapshot@),
        r.fingerprint@ == crate::digest::text_digest(r.snapshot_json@),
        r.observed_at@ == now@,
{
    let raw = snapshot.json();
    let fingerprint = digest_text(raw.as_str());
    SnapshotRow {
        task_id: owned(task_id),
        entity_key: snapshot.key(),
        kind: "github-pr",
        snapshot_json: raw,
        fingerprint,
        observed_at: owned(now),
    }
}

/// What tells an event from all others.
pub open spec fn event_fingerprint(
    task_id: Seq<char>,
    entity_key: Seq<char>,
    kind: Seq<char>,
    material: Seq<char>,
) -> Seq<char> {
    crate::digest::text_digest(
        task_id + "\n"@ + entity_key + "\n"@ + kind + "\n"@ + material,
    )
}

/// One of the events has this fingerprint.
pub open spec fn has_event(events: Seq<WatchEvent>, fingerprint: Seq<char>) -> bool {
    exists|i: int| 0 <= i < events.len() && (#[trigger] events[i]).fingerprint@ == fingerprint
}

/// Each fingerprint stands there once.
pub open spec fn events_differ(events: Seq<WatchEvent>) -> bool {
    forall|i: int, j: int|
        0 <= i < j < events.len() ==> (#[trigger] events[i]).fingerprint@ != (
        #[trigger] events[j]).fingerprint@
}

/// The events are `after` where an event was to be written down and `before` stood there: it is
/// added, unless it stands there already, and `new` says whether it was.
pub open spec fn is_insert(
    before: Seq<WatchEvent>,
    id: Seq<char>,
    task_id: Seq<char>,
    event: NewEvent,
    now: Seq<char>,
    after: Seq<WatchEvent>,
    new: bool,
) -> bool {
    let fingerprint = event_fingerprint(task_id, event.entity_key@, event.kind@, event.material@);
    &&& new == !has_event(before, fingerprint)
    &&& !new ==> after == before
    &&& new ==> {
        let row = after.last();
        &&& after == before.push(row)
        &&& row.id@ == id
        &&& row.task_id@ == task_id
        &&& row.entity_key@ == event.entity_key@
        &&& row.kind@ == event.kind@
        &&& row.fingerprint@ == fingerprint
        &&& row.summary@ == event.summary@
        &&& row.evidence_url@ == event.evidence_url@
        &&& row.created_at@ == now
    }
}

/// Writes an event down, unless it stands there already, and says whether it was new.
pub fn insert_event(
    events: &mut Vec<WatchEvent>,
    id: &str,
    task_id: &str,
    event: &NewEvent,
    now: &str,
) -> (r: bool)
    requires
        events_differ(old(events)@),
    ensures
        is_insert(old(events)@, id@, task_id@, *event, now@, final(events)@, r),
        events_differ(final(events)@),
{
    let fingerprint = digest_text(
        owned(task_id).concat("\n").concat(event.entity_key.as_str()).concat("\n").concat(
            event.kind,
        ).concat("\n").concat(event.material.as_str()).as_str(),
    );
    let mut i: usize = 0;
    while i < events.len()
        invariant
            i <= events@.len(),
            events@ == old(events)@,
            events_differ(events@),
            fingerprint@ == event_fingerprint(
                task_id@,
                event.entity_key@,
                event.kind@,
                event.material@,
            ),
            forall|k: int| 0 <= k < i ==> (#[trigger] events@[k]).fingerprint@ != fingerprint@,
        decreases events@.len() - i,
    {
        if same(events[i].fingerprint.as_str(), fingerprint.as_str()) {
            assert(events@[i as int].fingerprint@ == fingerprint@);
            return false;
        }
        i += 1;
    }
    events.push(
        WatchEvent {
            id: owned(id),
            task_id: owned(task_id),
            entity_key: owned(event.entity_key.as_str()),
            kind: owned(event.kind),
            fingerprint,
            summary: owned(event.summary.as_str()),
            evidence_url: owned(event.evidence_url.as_str()),
            created_at: owned(now),
        },
    );
    true
}

/// An event is written down once: a second write of the same event, however it is worded and whenever
/// it comes, says that it is not new and leaves the list as it was.
pub proof fn law_events_are_written_once(
    before: Seq<WatchEvent>,
    task_id: Seq<char>,
    first: (Seq<char>, NewEvent, Seq<char>, Seq<WatchEvent>, bool),
    second: (Seq<char>, NewEvent, Seq<char>, Seq<WatchEvent>, bool),
)
    requires
        first.1.entity_key@ == second.1.entity_key@,
        first.1.kind@ == second.1.kind@,
        first.1.material@ == second.1.material@,
        is_insert(before, first.0, task_id, first.1, first.2, first.3, first.4),
        is_insert(first.3, second.0, task_id, second.1, second.2, second.3, second.4),
    ensures
        !second.4,
        second.3 == first.3,
{
    if first.4 {
        assert(first.3[before.len() as int] == first.3.last());
    }
}

/// The order as it is kept: an order of the same name keeps its identity, and what its runs left
/// behind.
pub fn save_task(task: WatchTask, existing: Option<&WatchTask>, now: &str) -> (r: WatchTask)
    ensures
        r.updated_at@ == now@,
        r.name == task.name,
        r.prompt == task.prompt,
        r.owner == task.owner,
        r.author == task.author,
        r.repositories == task.repositories,
        r.interval_seconds == task.interval_seconds,
        r.instructions == task.instructions,
        r.state == task.state,
        r.next_run_at == task.next_run_at,
        match existing {
            Some(known) => r.id@ == known.id@ && r.created_at@ == known.created_at@
                && r.last_run_at@ == known.last_run_at@ && r.last_result@ == known.last_result@,
            None => r.id == task.id && r.created_at == task.created_at && r.last_run_at
                == task.last_run_at && r.last_result == task.last_result,
        },
{
    let mut saved = task;
    if let Some(known) = existing {
        saved.id = owned(known.id.as_str());
        saved.created_at = owned(known.created_at.as_str());
        saved.last_run_at = owned(known.last_run_at.as_str());
        saved.last_result = owned(known.last_result.as_str());
    }
    saved.updated_at = owned(now);
    saved
}

/// The order is to be run.
pub open spec fn is_due(task: WatchTask, now: Seq<char>) -> bool {
    task.state@ == "active"@ && crate::order::le(task.next_run_at@, now)
}

/// The order is left to the one that claimed it.
pub open spec fn is_leased(after: WatchTask, before: WatchTask, lease: Seq<char>, now: Seq<char>) -> bool {
    &&& after.next_run_at@ == lease
    &&& after.updated_at@ == now
    &&& after == (WatchTask {
        next_run_at: after.next_run_at,
        updated_at: after.updated_at,
        ..before
    })
}

/// Claims the orders that are to be run, those that have waited longest first, and leaves them to
/// the caller until `lease_until`. The result holds their places.
pub fn claim_due_tasks(tasks: &mut Vec<WatchTask>, now: &str, lease_until: &str) -> (r: Vec<usize>)
    ensures
        final(tasks)@.len() == old(tasks)@.len(),
        forall|i: int|
            0 <= i < old(tasks)@.len() ==> if is_due(old(tasks)@[i], now@) {
                is_leased(#[trigger] final(tasks)@[i], old(tasks)@[i], lease_until@, now@)
            } else {
                final(tasks)@[i] == old(tasks)@[i]
            },
        forall|k: int|
            0 <= k < r@.len() ==> (#[trigger] r@[k]) < old(tasks)@.len() && is_due(
                old(tasks)@[r@[k] as int],
                now@,
            ),
        forall|i: int|
            0 <= i < old(tasks)@.len() && is_due(#[trigger] old(tasks)@[i], now@) ==> r@.contains(
                i as usize,
            ),
        forall|k: int, m: int|
            0 <= k < m < r@.len() ==> #[trigger] r@[k] != #[trigger] r@[m] && crate::order::le(
                old(tasks)@[r@[k] as int].next_run_at@,
                old(tasks)@[r@[m] as int].next_run_at@,
            ),
{
    let ghost before = tasks@;
    let mut claimed: Vec<usize> = Vec::new();
    let mut i: usize = 0;
    while i < tasks.len()
        invariant
            i <= tasks@.len(),
            tasks@ == before,
            forall|k: int|
                0 <= k < claimed@.len() ==> (#[trigger] claimed@[k]) < i && is_due(
                    before[claimed@[k] as int],
                    now@,
                ),
            forall|k: int|
                0 <= k < i && is_due(#[trigger] before[k], now@) ==> claimed@.contains(k as usize),
            forall|k: int, m: int|
                0 <= k < m < claimed@.len() ==> #[trigger] claimed@[k] != #[trigger] claimed@[m]
                    && crate::order::le(
                    before[claimed@[k] as int].next_run_at@,
                    before[claimed@[m] as int].next_run_at@,
                ),
        decreases tasks@.len() - i,
    {
        if same(tasks[i].state.as_str(), "active") && not_after(
            tasks[i].next_run_at.as_str(),
            now,
        ) {
            insert_claim(tasks, &mut claimed, i);
        }
        i += 1;
    }
    let mut k: usize = 0;
    while k < tasks.len()
        invariant
            k <= tasks@.len(),
            tasks@.len() == before.len(),
            forall|j: int|
                0 <= j < k ==> if is_due(before[j], now@) {
                    is_leased(#[trigger] tasks@[j], before[j], lease_until@, now@)
                } else {
                    tasks@[j] == before[j]
                },
            forall|j: int| k <= j < tasks@.len() ==> #[trigger] tasks@[j] == before[j],
        decreases tasks@.len() - k,
    {
        if same(tasks[k].state.as_str(), "active") && not_after(
            tasks[k].next_run_at.as_str(),
            now,
        ) {
            tasks[k].next_run_at = owned(lease_until);
            tasks[k].updated_at = owned(now);
        }
        k += 1;
    }
    claimed
}

/// Puts the order number `i` behind those that do not stand after it.
fn insert_claim(tasks: &Vec<WatchTask>, claimed: &mut Vec<usize>, i: usize)
    requires
        i < tasks@.len(),
        forall|k: int| 0 <= k < old(claimed)@.len() ==> (#[trigger] old(claimed)@[k]) < i,
        forall|k: int, m: int|
            0 <= k < m < old(claimed)@.len() ==> #[trigger] old(claimed)@[k] != #[trigger] old(
                claimed,
            )@[m] && crate::order::le(
                tasks@[old(claimed)@[k] as int].next_run_at@,
                tasks@[old(claimed)@[m] as int].next_run_at@,
            ),
    ensures
        forall|k: int|
            0 <= k < final(claimed)@.len() ==> (#[trigger] final(claimed)@[k]) <= i && (
            final(claimed)@[k] == i || old(claimed)@.contains(final(claimed)@[k])),
        final(claimed)@.contains(i),
        forall|x: usize| #[trigger] old(claimed)@.contains(x) ==> final(claimed)@.contains(x),
        forall|k: int, m: int|
            0 <= k < m < final(claimed)@.len() ==> #[trigger] final(claimed)@[k]
                != #[trigger] final(claimed)@[m] && crate::order::le(
                tasks@[final(claimed)@[k] as int].next_run_at@,
                tasks@[final(claimed)@[m] as int].next_run_at@,
            ),
{
    let ghost before = claimed@;
    let ghost key = tasks@[i as int].next_run_at@;
    let mut j: usize = claimed.len();
    while j > 0 && !not_after(
        tasks[claimed[j - 1]].next_run_at.as_str(),
        tasks[i].next_run_at.as_str(),
    )
        invariant
            i < tasks@.len(),
            key == tasks@[i as int].next_run_at@,
            claimed@ == before,
            j <= claimed@.len(),
            forall|k: int| 0 <= k < before.len() ==> (#[trigger] before[k]) < i,
            forall|k: int|
                j <= k < before.len() ==> !crate::order::le(
                    tasks@[(#[trigger] before[k]) as int].next_run_at@,
                    key,
                ),
        decreases j,
    {
        j -= 1;
    }
    claimed.insert(j, i);
    proof {
        let after = claimed@;
        assert(after == before.insert(j as int, i));
        assert(after[j as int] == i);
        assert forall|x: usize| #[trigger] before.contains(x) implies after.contains(x) by {
            let k = choose|k: int| 0 <= k < before.len() && before[k] == x;
            if k < j {
                assert(after[k] == x);
            } else {
                assert(after[k + 1] == x);
            }
        }
        assert forall|k: int| 0 <= k < after.len() implies (#[trigger] after[k]) <= i && (after[k]
            == i || before.contains(after[k])) by {
            if k < j {
                assert(after[k] == before[k]);
            } else if k > j {
                assert(after[k] == before[k - 1]);
            }
        }
        assert forall|k: int, m: int| 0 <= k < m < after.len() implies #[trigger] after[k]
            != #[trigger] after[m] && crate::order::le(
            tasks@[after[k] as int].next_run_at@,
            tasks@[after[m] as int].next_run_at@,
        ) by {
            let a = if k < j {
                k
            } else {
                k - 1
            };
            let b = if m < j {
                m
            } else {
                m - 1
            };
            if k != j && m != j {
                assert(after[k] == before[a] && after[m] == before[b]);
            } else if k == j {
                assert(after[m] == before[b]);
                crate::order::lemma_le_total(tasks@[before[b] as int].next_run_at@, key);
            } else {
                assert(after[k] == before[a]);
                assert(crate::order::le(tasks@[before[j - 1] as int].next_run_at@, key));
                if a < j - 1 {
                    assert(crate::order::le(
                        tasks@[before[a] as int].next_run_at@,
                        tasks@[before[j - 1] as int].next_run_at@,
                    ));
                    crate::order::lemma_le_transitive(
                        tasks@[before[a] as int].next_run_at@,
                        tasks@[before[j - 1] as int].next_run_at@,
                        key,
                    );
                }
            }
        }
    }
}

/// An order that was claimed is not to be run again before its lease ends.
pub proof fn law_orders_are_claimed_once(
    after: WatchTask,
    before: WatchTask,
    lease: Seq<char>,
    now: Seq<char>,
    later: Seq<char>,
)
    requires
        is_leased(after, before, lease, now),
        !crate::order::le(lease, later),
    ensures
        !is_due(after, later),
{
}

/// Changes the state of an order.
pub fn set_task_state(task: &mut WatchTask, state: &str, now: &str)
    ensures
        final(task).state@ == state@,
        final(task).updated_at@ == now@,
        *final(task) == (WatchTask {
            state: final(task).state,
            updated_at: final(task).updated_at,
            ..*old(task)
        }),
{
    task.state = owned(state);
    task.updated_at = owned(now);
}

/// How many seconds pass before the next run: a minute where the run is to be tried again soon,
/// and otherwise the interval, which is a minute at least.
pub fn next_delay(task: &WatchTask, retry_soon: bool) -> (r: u64)
    ensures
        r == (if retry_soon || task.interval_seconds < 60 {
            60
        } else {
            task.interval_seconds
        }),
{
    if retry_soon || task.interval_seconds < 60 {
        60
    } else {
        task.interval_seconds
    }
}

/// Writes down how a run ended. `next` lies the delay after `now`.
pub fn finish_task_run(task: &mut WatchTask, result: &str, now: &str, next: &str)
    ensures
        final(task).last_run_at@ == now@,
        final(task).last_result@ == result@,
        final(task).next_run_at@ == next@,
        final(task).updated_at@ == now@,
        *final(task) == (WatchTask {
            last_run_at: final(task).last_run_at,
            last_result: final(task).last_result,
            next_run_at: final(task).next_run_at,
            updated_at: final(task).updated_at,
            ..*old(task)
        }),
{
    task.last_run_at = owned(now);
    task.last_result = owned(result);
    task.next_run_at = owned(next);
    task.updated_at = owned(now);
}

/// Whether a table dates from the time before the orders, so that its rows belong to the
/// configured one.
pub fn needs_migration(table_exists: bool, has_task_id: bool) -> (r: bool)
    ensures
        r == (table_exists && !has_task_id),
{
    table_exists && !has_task_id
}

} // verus!
