//! Watches the pull requests of a person.
use crate::strings::{
    bool_str, byte_len, is_in, join_with, owned, push_string, same, usize_to_string,
};
use crate::text::{can_cut_at, cut_at};
use crate::watch::github::GithubCollector;
use crate::watch::model::{
    Pull, PullRequestLifecycle, PullRequestSnapshot, Scanned, WatchEvent, WatchScanReport,
};
use vstd::prelude::*;

pub mod github;
pub mod model;
pub mod store;

verus! {

/// The first eight bytes of the name of a commit. A shorter name, and one that cannot be cut there,
/// is shown in full.
pub open spec fn short_name(value: Seq<char>) -> Seq<char> {
    if crate::strings::byte_count(value) > 8 && crate::text::has_prefix_of(value, 8) {
        crate::text::truncated(value, 8)
    } else {
        value
    }
}

fn short_oid(value: &str) -> (r: String)
    ensures
        r@ == short_name(value@),
{
    if byte_len(value) > 8 && can_cut_at(value, 8) {
        cut_at(value, 8)
    } else {
        owned(value)
    }
}

/// The decision on a pull request, where there is one.
pub open spec fn shown_decision(value: Seq<char>) -> Seq<char> {
    if value.len() == 0 {
        "未决定"@
    } else {
        value
    }
}

fn display_empty(value: &str) -> (r: String)
    ensures
        r@ == shown_decision(value@),
{
    proof {
        crate::text::lemma_no_bytes(value@);
    }
    if byte_len(value) == 0 {
        owned("未决定")
    } else {
        owned(value)
    }
}

/// The part of a list that tells of one change, if there is one.
pub open spec fn told(changed: bool, words: Seq<char>) -> Seq<Seq<char>> {
    if changed {
        seq![words]
    } else {
        Seq::empty()
    }
}

/// What changed between two looks at a pull request, one entry for each thing.
pub open spec fn changes(previous: Pull, current: Pull) -> Seq<Seq<char>> {
    let before = crate::watch::model::tally(previous.checks);
    let after = crate::watch::model::tally(current.checks);
    told(
        previous.head_oid != current.head_oid,
        "head "@ + short_name(previous.head_oid) + " → "@ + short_name(current.head_oid),
    ) + told(
        previous.is_draft != current.is_draft,
        "Draft "@ + crate::strings::bool_text(previous.is_draft) + " → "@
            + crate::strings::bool_text(current.is_draft),
    ) + told(
        previous.merge_state != current.merge_state,
        "合并状态 "@ + previous.merge_state + " → "@ + current.merge_state,
    ) + told(
        previous.review_decision != current.review_decision,
        "审查 "@ + shown_decision(previous.review_decision) + " → "@ + shown_decision(
            current.review_decision,
        ),
    ) + told(
        before != after,
        "CI ["@ + crate::watch::model::tally_text(before) + "] → ["@
            + crate::watch::model::tally_text(after) + "]"@,
    )
}

/// The words for what changed.
pub open spec fn change_words(previous: Pull, current: Pull) -> Seq<char> {
    if changes(previous, current).len() == 0 {
        "PR 元数据已更新"@
    } else {
        crate::strings::join(changes(previous, current), "；"@)
    }
}

/// The words for what changed between two looks at a pull request.
pub fn describe_changes(previous: &PullRequestSnapshot, current: &PullRequestSnapshot) -> (r:
    String)
    ensures
        r@ == change_words(previous@, current@),
{
    let mut list: Vec<String> = Vec::new();
    assert(crate::strings::views(list@) =~= Seq::empty());
    if !same(previous.head_oid.as_str(), current.head_oid.as_str()) {
        push_string(
            &mut list,
            owned("head ").concat(short_oid(previous.head_oid.as_str()).as_str()).concat(
                " → ",
            ).concat(short_oid(current.head_oid.as_str()).as_str()),
        );
    }
    if previous.is_draft != current.is_draft {
        push_string(
            &mut list,
            owned("Draft ").concat(bool_str(previous.is_draft)).concat(" → ").concat(
                bool_str(current.is_draft),
            ),
        );
    }
    if !same(previous.merge_state.as_str(), current.merge_state.as_str()) {
        push_string(
            &mut list,
            owned("合并状态 ").concat(previous.merge_state.as_str()).concat(" → ").concat(
                current.merge_state.as_str(),
            ),
        );
    }
    if !same(previous.review_decision.as_str(), current.review_decision.as_str()) {
        push_string(
            &mut list,
            owned("审查 ").concat(display_empty(previous.review_decision.as_str()).as_str()).concat(
                " → ",
            ).concat(display_empty(current.review_decision.as_str()).as_str()),
        );
    }
    let before = previous.check_summary();
    let after = current.check_summary();
    assert(before == after <==> before@ == after@);
    if before != after {
        push_string(
            &mut list,
            owned("CI [").concat(before.render().as_str()).concat("] → [").concat(
                after.render().as_str(),
            ).concat("]"),
        );
    }
    assert(crate::strings::views(list@) =~= changes(previous@, current@));
    assert(crate::strings::views(list@).len() == list@.len());
    if list.len() == 0 {
        owned("PR 元数据已更新")
    } else {
        join_with(&list, "；")
    }
}

/// An event that is to be written down.
#[derive(Debug)]
pub struct NewEvent {
    pub entity_key: String,
    pub kind: &'static str,
    pub summary: String,
    pub evidence_url: String,
    /// What tells this event from others of its kind.
    pub material: String,
}

/// An event that is to be written down.
#[verifier::ext_equal]
pub struct Happened {
    pub entity_key: Seq<char>,
    pub kind: Seq<char>,
    pub summary: Seq<char>,
    pub evidence_url: Seq<char>,
    pub material: Seq<char>,
}

impl View for NewEvent {
    type V = Happened;

    open spec fn view(&self) -> Happened {
        Happened {
            entity_key: self.entity_key@,
            kind: self.kind@,
            summary: self.summary@,
            evidence_url: self.evidence_url@,
            material: self.material@,
        }
    }
}

/// The event of a pull request that changed.
pub open spec fn changed_event(previous: Pull, current: Pull) -> Happened {
    Happened {
        entity_key: crate::watch::model::pull_key(current.repository, current.number),
        kind: "github-pr-changed"@,
        summary: change_words(previous, current),
        evidence_url: current.url,
        material: crate::watch::model::pull_json(current),
    }
}

/// The event of a pull request that was not known.
pub open spec fn discovered_event(pull: Pull) -> Happened {
    Happened {
        entity_key: crate::watch::model::pull_key(pull.repository, pull.number),
        kind: "github-pr-discovered"@,
        summary: "发现新的个人 PR："@ + pull.title,
        evidence_url: pull.url,
        material: pull.head_oid,
    }
}

/// The event of a pull request that was merged or closed.
pub open spec fn ended_event(pull: Pull, end: PullRequestLifecycle) -> Happened {
    let merged = end.state@ == "MERGED"@;
    Happened {
        entity_key: crate::watch::model::pull_key(pull.repository, pull.number),
        kind: if merged {
            "github-pr-merged"@
        } else {
            "github-pr-closed"@
        },
        summary: "个人 PR 已"@ + (if merged {
            "合并"@
        } else {
            "关闭"@
        }) + "："@ + end.title@,
        evidence_url: end.url@,
        material: if merged {
            end.merged_at@
        } else {
            end.closed_at@
        },
    }
}

/// What a scan waits for.
#[derive(Debug, Clone, Copy, PartialEq, Eq, Structural)]
pub enum ScanStage {
    /// The open pull requests of a repository.
    Pulls,
    /// What was known of a pull request.
    Lookup,
    /// That an event is written down.
    Insert,
    /// That what is known now is written down.
    Upsert,
    /// What became of a pull request that is no longer listed.
    Lifecycle,
    /// That its end is written down.
    InsertEnd,
    /// That it is forgotten.
    Delete,
    /// That there has been a scan.
    Mark,
    Over,
}

/// What came of the last action.
#[derive(Debug)]
pub enum ScanEvent {
    Pulls(Result<Vec<PullRequestSnapshot>, String>),
    Known(Option<PullRequestSnapshot>),
    /// Whether the event was new.
    Inserted(bool),
    Stored,
    Lifecycle(Result<PullRequestLifecycle, String>),
    /// The store failed.
    Failed(String),
}

/// What the caller is to do next.
#[derive(Debug)]
pub enum ScanAction {
    Pulls(String),
    Lookup(String),
    Insert(NewEvent),
    Upsert(PullRequestSnapshot),
    Lifecycle(String, u64),
    Delete(String),
    Mark,
    Finished(WatchScanReport),
    Fail(String),
}

/// What an action is.
#[verifier::ext_equal]
pub enum Scanning {
    Pulls(Seq<char>),
    Lookup(Seq<char>),
    Insert(Happened),
    Upsert(Pull),
    Lifecycle(Seq<char>, nat),
    Delete(Seq<char>),
    Mark,
    Finished(Scanned),
    Fail(Seq<char>),
}

impl View for ScanAction {
    type V = Scanning;

    open spec fn view(&self) -> Scanning {
        match *self {
            ScanAction::Pulls(repository) => Scanning::Pulls(repository@),
            ScanAction::Lookup(key) => Scanning::Lookup(key@),
            ScanAction::Insert(event) => Scanning::Insert(event@),
            ScanAction::Upsert(pull) => Scanning::Upsert(pull@),
            ScanAction::Lifecycle(repository, number) => Scanning::Lifecycle(
                repository@,
                number as nat,
            ),
            ScanAction::Delete(key) => Scanning::Delete(key@),
            ScanAction::Mark => Scanning::Mark,
            ScanAction::Finished(report) => Scanning::Finished(report@),
            ScanAction::Fail(words) => Scanning::Fail(words@),
        }
    }
}

/// A scan between two actions.
pub struct ScanRun {
    pub stage: ScanStage,
    pub repositories: Vec<String>,
    pub repo_at: usize,
    /// The pull requests of the repository that is looked at.
    pub pulls: Vec<PullRequestSnapshot>,
    pub pull_at: usize,
    /// What was known before the scan.
    pub previous: Vec<PullRequestSnapshot>,
    pub previous_at: usize,
    /// The pull requests that are listed.
    pub seen: Vec<String>,
    /// The repositories that could be looked at.
    pub successful: Vec<String>,
    pub report: WatchScanReport,
}

/// The state of a scan.
#[verifier::ext_equal]
pub struct ScanState {
    pub stage: ScanStage,
    pub repositories: Seq<Seq<char>>,
    pub repo_at: nat,
    pub pulls: Seq<Pull>,
    pub pull_at: nat,
    pub previous: Seq<Pull>,
    pub previous_at: nat,
    pub seen: Seq<Seq<char>>,
    pub successful: Seq<Seq<char>>,
    pub report: Scanned,
}

impl View for ScanRun {
    type V = ScanState;

    open spec fn view(&self) -> ScanState {
        ScanState {
            stage: self.stage,
            repositories: crate::strings::views(self.repositories@),
            repo_at: self.repo_at as nat,
            pulls: crate::watch::model::pull_views(self.pulls@),
            pull_at: self.pull_at as nat,
            previous: crate::watch::model::pull_views(self.previous@),
            previous_at: self.previous_at as nat,
            seen: crate::strings::views(self.seen@),
            successful: crate::strings::views(self.successful@),
            report: self.report@,
        }
    }
}

impl ScanState {
    /// The places that a stage speaks of are there.
    pub open spec fn wf(self) -> bool {
        match self.stage {
            ScanStage::Pulls => self.repo_at < self.repositories.len(),
            ScanStage::Lookup | ScanStage::Insert | ScanStage::Upsert => self.repo_at
                < self.repositories.len() && self.pull_at < self.pulls.len(),
            ScanStage::Lifecycle | ScanStage::InsertEnd | ScanStage::Delete => self.previous_at
                < self.previous.len(),
            _ => true,
        }
    }

    /// The counts can still grow.
    pub open spec fn can_count(self) -> bool {
        self.report.pull_requests_observed < usize::MAX && self.report.events_created < usize::MAX
    }

    /// The pull request that is looked at.
    pub open spec fn pull(self) -> Pull {
        self.pulls[self.pull_at as int]
    }

    /// The known pull request that is looked at.
    pub open spec fn known(self) -> Pull {
        self.previous[self.previous_at as int]
    }
}

/// The event is one that the stage waits for.
pub open spec fn scan_fits(stage: ScanStage, event: ScanEvent) -> bool {
    match stage {
        ScanStage::Pulls => event is Pulls,
        ScanStage::Lookup => event is Known || event is Failed,
        ScanStage::Insert | ScanStage::InsertEnd => event is Inserted || event is Failed,
        ScanStage::Upsert | ScanStage::Delete | ScanStage::Mark => event is Stored
            || event is Failed,
        ScanStage::Lifecycle => event is Lifecycle,
        ScanStage::Over => false,
    }
}

pub open spec fn with_warning(report: Scanned, words: Seq<char>) -> Scanned {
    Scanned { warnings: report.warnings.push(words), ..report }
}

pub open spec fn with_event(report: Scanned, is_new: bool) -> Scanned {
    Scanned {
        events_created: report.events_created + (if is_new {
            1nat
        } else {
            0
        }),
        ..report
    }
}

/// The known pull requests that are still listed, or whose repository could not be looked at, are
/// passed over.
pub open spec fn scan_previous(s: ScanState) -> (ScanState, Scanning)
    decreases s.previous.len() - s.previous_at,
{
    if s.previous_at >= s.previous.len() {
        (ScanState { stage: ScanStage::Mark, ..s }, Scanning::Mark)
    } else {
        let pull = s.known();
        if s.seen.contains(crate::watch::model::pull_key(pull.repository, pull.number))
            || !s.successful.contains(pull.repository) {
            scan_previous(ScanState { previous_at: s.previous_at + 1, ..s })
        } else {
            (
                ScanState { stage: ScanStage::Lifecycle, ..s },
                Scanning::Lifecycle(pull.repository, pull.number),
            )
        }
    }
}

/// The next repository is looked at.
pub open spec fn scan_repository(s: ScanState) -> (ScanState, Scanning) {
    if s.repo_at < s.repositories.len() {
        (
            ScanState { stage: ScanStage::Pulls, ..s },
            Scanning::Pulls(s.repositories[s.repo_at as int]),
        )
    } else {
        scan_previous(s)
    }
}

/// The next pull request of the repository is looked at.
pub open spec fn scan_pull(s: ScanState) -> (ScanState, Scanning) {
    if s.pull_at < s.pulls.len() {
        let key = crate::watch::model::pull_key(s.pull().repository, s.pull().number);
        (
            ScanState {
                stage: ScanStage::Lookup,
                seen: s.seen.push(key),
                report: Scanned {
                    pull_requests_observed: s.report.pull_requests_observed + 1,
                    ..s.report
                },
                ..s
            },
            Scanning::Lookup(key),
        )
    } else {
        scan_repository(ScanState { repo_at: s.repo_at + 1, ..s })
    }
}

pub open spec fn scan_upsert(s: ScanState) -> (ScanState, Scanning) {
    (ScanState { stage: ScanStage::Upsert, ..s }, Scanning::Upsert(s.pull()))
}

pub open spec fn scan_insert(s: ScanState, stage: ScanStage, event: Happened) -> (
    ScanState,
    Scanning,
) {
    (ScanState { stage, ..s }, Scanning::Insert(event))
}

/// The scan begins.
pub open spec fn scan_begun(
    repositories: Seq<Seq<char>>,
    initialized: bool,
    previous: Seq<Pull>,
) -> (ScanState, Scanning) {
    scan_repository(
        ScanState {
            stage: ScanStage::Over,
            repositories,
            repo_at: 0,
            pulls: Seq::empty(),
            pull_at: 0,
            previous,
            previous_at: 0,
            seen: Seq::empty(),
            successful: Seq::empty(),
            report: Scanned {
                repositories_scanned: repositories.len(),
                pull_requests_observed: 0,
                events_created: 0,
                initial_baseline: !initialized,
                warnings: Seq::empty(),
                pull_requests: Seq::empty(),
            },
        },
    )
}

/// What the scan does next.
pub open spec fn scan_step(s: ScanState, event: ScanEvent) -> (ScanState, Scanning) {
    match event {
        ScanEvent::Failed(words) => (
            ScanState { stage: ScanStage::Over, ..s },
            Scanning::Fail(words@),
        ),
        ScanEvent::Pulls(Err(words)) => scan_repository(
            ScanState {
                repo_at: s.repo_at + 1,
                report: with_warning(
                    s.report,
                    s.repositories[s.repo_at as int] + ": "@ + words@,
                ),
                ..s
            },
        ),
        ScanEvent::Pulls(Ok(pulls)) => scan_pull(
            ScanState {
                successful: s.successful.push(s.repositories[s.repo_at as int]),
                pulls: crate::watch::model::pull_views(pulls@),
                pull_at: 0,
                ..s
            },
        ),
        ScanEvent::Known(Some(known)) => if known@ != s.pull() {
            scan_insert(s, ScanStage::Insert, changed_event(known@, s.pull()))
        } else {
            scan_upsert(s)
        },
        ScanEvent::Known(None) => if s.report.initial_baseline {
            scan_upsert(s)
        } else {
            scan_insert(s, ScanStage::Insert, discovered_event(s.pull()))
        },
        ScanEvent::Inserted(is_new) => {
            let counted = ScanState { report: with_event(s.report, is_new), ..s };
            if s.stage is Insert {
                scan_upsert(counted)
            } else {
                (
                    ScanState { stage: ScanStage::Delete, ..counted },
                    Scanning::Delete(
                        crate::watch::model::pull_key(s.known().repository, s.known().number),
                    ),
                )
            }
        },
        ScanEvent::Stored => match s.stage {
            ScanStage::Upsert => scan_pull(
                ScanState {
                    pull_at: s.pull_at + 1,
                    report: Scanned {
                        pull_requests: s.report.pull_requests.push(s.pull()),
                        ..s.report
                    },
                    ..s
                },
            ),
            ScanStage::Delete => scan_previous(ScanState { previous_at: s.previous_at + 1, ..s }),
            _ => (ScanState { stage: ScanStage::Over, ..s }, Scanning::Finished(s.report)),
        },
        ScanEvent::Lifecycle(Ok(end)) => if end.state@ != "OPEN"@ {
            scan_insert(s, ScanStage::InsertEnd, ended_event(s.known(), end))
        } else {
            scan_previous(
                ScanState {
                    previous_at: s.previous_at + 1,
                    report: with_warning(
                        s.report,
                        crate::watch::model::pull_key(s.known().repository, s.known().number)
                            + " 未出现在 open 列表但远端仍为 OPEN，已保留快照"@,
                    ),
                    ..s
                },
            )
        },
        ScanEvent::Lifecycle(Err(words)) => scan_previous(
            ScanState {
                previous_at: s.previous_at + 1,
                report: with_warning(
                    s.report,
                    crate::watch::model::pull_key(s.known().repository, s.known().number)
                        + " 无法确认关闭状态："@ + words@,
                ),
                ..s
            },
        ),
    }
}

/// Looks at the pull requests of a person.
pub struct WatchRunner {
    pub enabled: bool,
    pub collector: GithubCollector,
    pub data_dir: String,
}

impl WatchRunner {
    pub fn new(enabled: bool, collector: GithubCollector, data_dir: String) -> (r: WatchRunner)
        ensures
            r.enabled == enabled,
            r.collector == collector,
            r.data_dir == data_dir,
    {
        WatchRunner { enabled, collector, data_dir }
    }

    /// Refuses a scan where none is wanted.
    pub fn ensure_enabled(&self) -> (r: Result<(), String>)
        ensures
            match r {
                Ok(_) => self.enabled,
                Err(words) => !self.enabled && words@ == "watch.enabled 尚未启用"@,
            },
    {
        if self.enabled {
            Ok(())
        } else {
            Err(owned("watch.enabled 尚未启用"))
        }
    }

    /// Begins a scan. `initialized` says that there has been one before, and `previous` holds what
    /// it left behind.
    pub fn scan(
        &self,
        repositories: Vec<String>,
        initialized: bool,
        previous: Vec<PullRequestSnapshot>,
    ) -> (r: (ScanRun, ScanAction))
        ensures
            ({
                let begun = scan_begun(
                    crate::strings::views(repositories@),
                    initialized,
                    crate::watch::model::pull_views(previous@),
                );
                r.0@ == begun.0 && r.1@ == begun.1
            }),
            r.0@.wf(),
    {
        let count: usize = repositories.len();
        let mut run = ScanRun {
            stage: ScanStage::Over,
            repositories,
            repo_at: 0,
            pulls: Vec::new(),
            pull_at: 0,
            previous,
            previous_at: 0,
            seen: Vec::new(),
            successful: Vec::new(),
            report: WatchScanReport {
                repositories_scanned: count,
                pull_requests_observed: 0,
                events_created: 0,
                initial_baseline: !initialized,
                warnings: Vec::new(),
                pull_requests: Vec::new(),
            },
        };
        assert(run@.pulls =~= Seq::empty());
        assert(run@.seen =~= Seq::empty());
        assert(run@.successful =~= Seq::empty());
        assert(run@.report.warnings =~= Seq::empty());
        assert(run@.report.pull_requests =~= Seq::empty());
        let action = run.next_repository();
        (run, action)
    }
}

impl ScanRun {
    fn next_previous(&mut self) -> (r: ScanAction)
        ensures
            final(self)@ == scan_previous(old(self)@).0,
            r@ == scan_previous(old(self)@).1,
            final(self)@.wf(),
    {
        while self.previous_at < self.previous.len()
            invariant
                scan_previous(self@) == scan_previous(old(self)@),
            decreases self.previous@.len() - self.previous_at,
        {
            assert(self@.previous.len() == self.previous@.len());
            let pull = &self.previous[self.previous_at];
            assert(self@.known() == pull@);
            let key = pull.key();
            if is_in(key.as_str(), &self.seen) || !is_in(
                pull.repository.as_str(),
                &self.successful,
            ) {
                self.previous_at = self.previous_at + 1;
            } else {
                let action = ScanAction::Lifecycle(owned(pull.repository.as_str()), pull.number);
                self.stage = ScanStage::Lifecycle;
                return action;
            }
        }
        assert(self@.previous.len() == self.previous@.len());
        self.stage = ScanStage::Mark;
        ScanAction::Mark
    }

    fn next_repository(&mut self) -> (r: ScanAction)
        ensures
            final(self)@ == scan_repository(old(self)@).0,
            r@ == scan_repository(old(self)@).1,
            final(self)@.wf(),
    {
        assert(self@.repositories.len() == self.repositories@.len());
        if self.repo_at < self.repositories.len() {
            self.stage = ScanStage::Pulls;
            assert(self@.repositories[self.repo_at as int] == self.repositories@[self.repo_at as int]@);
            ScanAction::Pulls(owned(self.repositories[self.repo_at].as_str()))
        } else {
            self.next_previous()
        }
    }

    fn next_pull(&mut self) -> (r: ScanAction)
        requires
            old(self)@.repo_at < old(self)@.repositories.len(),
            old(self)@.can_count(),
        ensures
            final(self)@ == scan_pull(old(self)@).0,
            r@ == scan_pull(old(self)@).1,
            final(self)@.wf(),
    {
        assert(self@.pulls.len() == self.pulls@.len());
        assert(self@.repositories.len() == self.repositories@.len());
        if self.pull_at < self.pulls.len() {
            assert(self@.pull() == self.pulls@[self.pull_at as int]@);
            let key = self.pulls[self.pull_at].key();
            let action = ScanAction::Lookup(owned(key.as_str()));
            self.report.pull_requests_observed = self.report.pull_requests_observed + 1;
            push_string(&mut self.seen, key);
            self.stage = ScanStage::Lookup;
            action
        } else {
            let count: usize = self.repositories.len();
            assert(self.repo_at < count);
            self.repo_at = self.repo_at + 1;
            self.next_repository()
        }
    }

    fn upsert(&mut self) -> (r: ScanAction)
        requires
            old(self)@.repo_at < old(self)@.repositories.len(),
            old(self)@.pull_at < old(self)@.pulls.len(),
        ensures
            final(self)@ == scan_upsert(old(self)@).0,
            r@ == scan_upsert(old(self)@).1,
            final(self)@.wf(),
    {
        assert(self@.pulls.len() == self.pulls@.len());
        assert(self@.pull() == self.pulls@[self.pull_at as int]@);
        self.stage = ScanStage::Upsert;
        ScanAction::Upsert(copy_pull(&self.pulls[self.pull_at]))
    }

    fn known_key(&self) -> (r: String)
        requires
            self@.previous_at < self@.previous.len(),
        ensures
            r@ == crate::watch::model::pull_key(self@.known().repository, self@.known().number),
    {
        assert(self@.previous.len() == self.previous@.len());
        assert(self@.known() == self.previous@[self.previous_at as int]@);
        self.previous[self.previous_at].key()
    }

    fn ended(&self, end: &PullRequestLifecycle) -> (r: NewEvent)
        requires
            self@.previous_at < self@.previous.len(),
        ensures
            r@ == ended_event(self@.known(), *end),
    {
        let merged = same(end.state.as_str(), "MERGED");
        NewEvent {
            entity_key: self.known_key(),
            kind: if merged {
                "github-pr-merged"
            } else {
                "github-pr-closed"
            },
            summary: owned("个人 PR 已").concat(
                if merged {
                    "合并"
                } else {
                    "关闭"
                },
            ).concat("：").concat(end.title.as_str()),
            evidence_url: owned(end.url.as_str()),
            material: if merged {
                owned(end.merged_at.as_str())
            } else {
                owned(end.closed_at.as_str())
            },
        }
    }

    fn known(&mut self, known: Option<PullRequestSnapshot>) -> (r: ScanAction)
        requires
            old(self)@.wf(),
            old(self)@.stage is Lookup,
        ensures
            final(self)@ == scan_step(old(self)@, ScanEvent::Known(known)).0,
            r@ == scan_step(old(self)@, ScanEvent::Known(known)).1,
            final(self)@.wf(),
    {
        assert(self@.pulls.len() == self.pulls@.len());
        assert(self@.pull() == self.pulls@[self.pull_at as int]@);
        let pull = &self.pulls[self.pull_at];
        match known {
            Some(known) => {
                if known.same_as(pull) {
                    self.upsert()
                } else {
                    let event = NewEvent {
                        entity_key: pull.key(),
                        kind: "github-pr-changed",
                        summary: describe_changes(&known, pull),
                        evidence_url: owned(pull.url.as_str()),
                        material: pull.json(),
                    };
                    self.stage = ScanStage::Insert;
                    ScanAction::Insert(event)
                }
            },
            None => {
                if self.report.initial_baseline {
                    self.upsert()
                } else {
                    let event = NewEvent {
                        entity_key: pull.key(),
                        kind: "github-pr-discovered",
                        summary: owned("发现新的个人 PR：").concat(pull.title.as_str()),
                        evidence_url: owned(pull.url.as_str()),
                        material: owned(pull.head_oid.as_str()),
                    };
                    self.stage = ScanStage::Insert;
                    ScanAction::Insert(event)
                }
            },
        }
    }

    fn stored(&mut self) -> (r: ScanAction)
        requires
            old(self)@.wf(),
            old(self)@.can_count(),
            scan_fits(old(self)@.stage, ScanEvent::Stored),
        ensures
            final(self)@ == scan_step(old(self)@, ScanEvent::Stored).0,
            r@ == scan_step(old(self)@, ScanEvent::Stored).1,
            final(self)@.wf(),
    {
        match self.stage {
            ScanStage::Upsert => {
                assert(self@.pulls.len() == self.pulls@.len());
                let count: usize = self.pulls.len();
                assert(self.pull_at < count);
                assert(self@.pull() == self.pulls@[self.pull_at as int]@);
                let pull = copy_pull(&self.pulls[self.pull_at]);
                let ghost before = self.report@.pull_requests;
                self.report.pull_requests.push(pull);
                assert(self.report@.pull_requests =~= before.push(pull@));
                self.pull_at = self.pull_at + 1;
                self.next_pull()
            },
            ScanStage::Delete => {
                self.skip_previous()
            },
            _ => {
                self.stage = ScanStage::Over;
                ScanAction::Finished(copy_report(&self.report))
            },
        }
    }

    fn skip_previous(&mut self) -> (r: ScanAction)
        requires
            old(self)@.previous_at < old(self)@.previous.len(),
        ensures
            ({
                let next = ScanState { previous_at: old(self)@.previous_at + 1, ..old(self)@ };
                final(self)@ == scan_previous(next).0 && r@ == scan_previous(next).1
            }),
            final(self)@.wf(),
    {
        assert(self@.previous.len() == self.previous@.len());
        let count: usize = self.previous.len();
        assert(self.previous_at < count);
        self.previous_at = self.previous_at + 1;
        self.next_previous()
    }

    /// Takes in what came of the last action and says what to do next.
    pub fn step(&mut self, event: ScanEvent) -> (r: ScanAction)
        requires
            old(self)@.wf(),
            old(self)@.can_count(),
            scan_fits(old(self)@.stage, event),
        ensures
            final(self)@ == scan_step(old(self)@, event).0,
            r@ == scan_step(old(self)@, event).1,
            final(self)@.wf(),
    {
        match event {
            ScanEvent::Failed(words) => {
                self.stage = ScanStage::Over;
                ScanAction::Fail(words)
            },
            ScanEvent::Pulls(Err(words)) => {
                assert(self@.repositories.len() == self.repositories@.len());
                assert(self@.repositories[self.repo_at as int] == self.repositories@[self.repo_at as int]@);
                let warning = owned(self.repositories[self.repo_at].as_str()).concat(": ").concat(
                    words.as_str(),
                );
                push_string(&mut self.report.warnings, warning);
                let count: usize = self.repositories.len();
                assert(self.repo_at < count);
                self.repo_at = self.repo_at + 1;
                self.next_repository()
            },
            ScanEvent::Pulls(Ok(pulls)) => {
                assert(self@.repositories.len() == self.repositories@.len());
                assert(self@.repositories[self.repo_at as int] == self.repositories@[self.repo_at as int]@);
                let repository = owned(self.repositories[self.repo_at].as_str());
                push_string(&mut self.successful, repository);
                self.pulls = pulls;
                self.pull_at = 0;
                self.next_pull()
            },
            ScanEvent::Known(known) => self.known(known),
            ScanEvent::Inserted(is_new) => {
                if is_new {
                    self.report.events_created = self.report.events_created + 1;
                }
                match self.stage {
                    ScanStage::Insert => self.upsert(),
                    _ => {
                        let key = self.known_key();
                        self.stage = ScanStage::Delete;
                        ScanAction::Delete(key)
                    },
                }
            },
            ScanEvent::Stored => self.stored(),
            ScanEvent::Lifecycle(Ok(end)) => {
                if !same(end.state.as_str(), "OPEN") {
                    let event = self.ended(&end);
                    self.stage = ScanStage::InsertEnd;
                    ScanAction::Insert(event)
                } else {
                    let warning = self.known_key().concat(
                        " 未出现在 open 列表但远端仍为 OPEN，已保留快照",
                    );
                    push_string(&mut self.report.warnings, warning);
                    self.skip_previous()
                }
            },
            ScanEvent::Lifecycle(Err(words)) => {
                let warning = self.known_key().concat(" 无法确认关闭状态：").concat(
                    words.as_str(),
                );
                push_string(&mut self.report.warnings, warning);
                self.skip_previous()
            },
        }
    }
}

fn copy_checks(checks: &Vec<crate::watch::model::CheckSnapshot>) -> (r: Vec<
    crate::watch::model::CheckSnapshot,
>)
    ensures
        crate::watch::model::check_views(r@) == crate::watch::model::check_views(checks@),
{
    let mut out: Vec<crate::watch::model::CheckSnapshot> = Vec::new();
    let mut i: usize = 0;
    while i < checks.len()
        invariant
            i <= checks@.len(),
            out@.len() == i,
            forall|k: int| 0 <= k < i ==> (#[trigger] out@[k])@ == checks@[k]@,
        decreases checks@.len() - i,
    {
        let check = &checks[i];
        out.push(
            crate::watch::model::CheckSnapshot {
                name: owned(check.name.as_str()),
                status: owned(check.status.as_str()),
                conclusion: owned(check.conclusion.as_str()),
                details_url: owned(check.details_url.as_str()),
            },
        );
        i += 1;
    }
    assert(crate::watch::model::check_views(out@) =~= crate::watch::model::check_views(checks@));
    out
}

/// A copy of what is known of a pull request.
pub fn copy_pull(pull: &PullRequestSnapshot) -> (r: PullRequestSnapshot)
    ensures
        r@ == pull@,
{
    PullRequestSnapshot {
        repository: owned(pull.repository.as_str()),
        number: pull.number,
        title: owned(pull.title.as_str()),
        url: owned(pull.url.as_str()),
        is_draft: pull.is_draft,
        head_ref_name: owned(pull.head_ref_name.as_str()),
        head_oid: owned(pull.head_oid.as_str()),
        base_ref_name: owned(pull.base_ref_name.as_str()),
        merge_state: owned(pull.merge_state.as_str()),
        review_decision: owned(pull.review_decision.as_str()),
        updated_at: owned(pull.updated_at.as_str()),
        checks: copy_checks(&pull.checks),
    }
}

fn copy_report(report: &WatchScanReport) -> (r: WatchScanReport)
    ensures
        r@ == report@,
{
    let mut pulls: Vec<PullRequestSnapshot> = Vec::new();
    let mut i: usize = 0;
    while i < report.pull_requests.len()
        invariant
            i <= report.pull_requests@.len(),
            pulls@.len() == i,
            forall|k: int| 0 <= k < i ==> (#[trigger] pulls@[k])@ == report.pull_requests@[k]@,
        decreases report.pull_requests@.len() - i,
    {
        pulls.push(copy_pull(&report.pull_requests[i]));
        i += 1;
    }
    assert(crate::watch::model::pull_views(pulls@) =~= report@.pull_requests);
    WatchScanReport {
        repositories_scanned: report.repositories_scanned,
        pull_requests_observed: report.pull_requests_observed,
        events_created: report.events_created,
        initial_baseline: report.initial_baseline,
        warnings: crate::strings::copy_list(&report.warnings),
        pull_requests: pulls,
    }
}

/// The first scan only takes stock: it tells of no pull request as new.
pub proof fn law_first_scan_takes_stock(s: ScanState, event: ScanEvent)
    requires
        s.report.initial_baseline,
        s.stage is Lookup,
        event == ScanEvent::Known(None),
    ensures
        scan_step(s, event).1 == Scanning::Upsert(s.pull()),
{
}

/// A pull request of which the same is known as before makes no event.
pub proof fn law_no_change_no_event(s: ScanState, known: PullRequestSnapshot)
    requires
        s.stage is Lookup,
        known@ == s.pull(),
    ensures
        scan_step(s, ScanEvent::Known(Some(known))).1 == Scanning::Upsert(s.pull()),
{
}

proof fn lemma_previous_keeps(s: ScanState)
    ensures
        ({
            let next = scan_previous(s);
            &&& next.1 is Mark || next.1 is Lifecycle
            &&& next.1 is Lifecycle ==> next.0.previous_at < next.0.previous.len()
                && !next.0.seen.contains(
                crate::watch::model::pull_key(next.0.known().repository, next.0.known().number),
            ) && next.0.successful.contains(next.0.known().repository) && next.1
                == Scanning::Lifecycle(next.0.known().repository, next.0.known().number)
            &&& next.1 is Mark ==> next.0.stage is Mark
            &&& next.1 is Lifecycle ==> next.0.stage is Lifecycle
        }),
    decreases s.previous.len() - s.previous_at,
{
    if s.previous_at < s.previous.len() {
        let pull = s.known();
        if s.seen.contains(crate::watch::model::pull_key(pull.repository, pull.number))
            || !s.successful.contains(pull.repository) {
            lemma_previous_keeps(ScanState { previous_at: s.previous_at + 1, ..s });
        }
    }
}

/// A pull request is forgotten only when its end has been written down, and its end is asked for
/// only where it is no longer listed in a repository that could be looked at.
pub proof fn law_nothing_is_forgotten_unseen(s: ScanState, event: ScanEvent)
    requires
        s.wf(),
        scan_fits(s.stage, event),
    ensures
        ({
            let next = scan_step(s, event);
            &&& next.1 is Delete ==> s.stage is InsertEnd && event is Inserted && next.1
                == Scanning::Delete(
                crate::watch::model::pull_key(s.known().repository, s.known().number),
            )
            &&& next.0.stage is InsertEnd ==> (event matches ScanEvent::Lifecycle(Ok(end))
                && end.state@ != "OPEN"@)
            &&& next.1 is Lifecycle ==> !next.0.seen.contains(
                crate::watch::model::pull_key(next.0.known().repository, next.0.known().number),
            ) && next.0.successful.contains(next.0.known().repository)
        }),
{
    let moved = ScanState { previous_at: s.previous_at + 1, ..s };
    lemma_previous_keeps(moved);
    match event {
        ScanEvent::Pulls(Err(words)) => {
            lemma_previous_keeps(
                ScanState {
                    repo_at: s.repo_at + 1,
                    report: with_warning(
                        s.report,
                        s.repositories[s.repo_at as int] + ": "@ + words@,
                    ),
                    ..s
                },
            );
        },
        ScanEvent::Pulls(Ok(pulls)) => {
            lemma_previous_keeps(
                ScanState {
                    successful: s.successful.push(s.repositories[s.repo_at as int]),
                    pulls: crate::watch::model::pull_views(pulls@),
                    pull_at: 0,
                    repo_at: s.repo_at + 1,
                    ..s
                },
            );
        },
        ScanEvent::Stored => {
            lemma_previous_keeps(
                ScanState {
                    pull_at: s.pull_at + 1,
                    repo_at: s.repo_at + 1,
                    report: Scanned {
                        pull_requests: s.report.pull_requests.push(s.pull()),
                        ..s.report
                    },
                    ..s
                },
            );
        },
        ScanEvent::Lifecycle(Ok(end)) => {
            lemma_previous_keeps(
                ScanState {
                    report: with_warning(
                        s.report,
                        crate::watch::model::pull_key(s.known().repository, s.known().number)
                            + " 未出现在 open 列表但远端仍为 OPEN，已保留快照"@,
                    ),
                    ..moved
                },
            );
        },
        ScanEvent::Lifecycle(Err(words)) => {
            lemma_previous_keeps(
                ScanState {
                    report: with_warning(
                        s.report,
                        crate::watch::model::pull_key(s.known().repository, s.known().number)
                            + " 无法确认关闭状态："@ + words@,
                    ),
                    ..moved
                },
            );
        },
        _ => {},
    }
}

/// The line on a pull request in the report of a scan.
pub open spec fn scan_line(pull: Pull) -> Seq<char> {
    "- "@ + crate::watch::model::pull_key(pull.repository, pull.number) + " "@ + pull.title + " ["@
        + pull.merge_state + "] CI: "@ + crate::watch::model::tally_text(
        crate::watch::model::tally(pull.checks),
    ) + "\n"@
}

/// The lines on the first `n` pull requests.
pub open spec fn scan_lines(pulls: Seq<Pull>, n: int) -> Seq<char>
    decreases n,
{
    if n <= 0 {
        Seq::empty()
    } else {
        scan_lines(pulls, n - 1) + scan_line(pulls[n - 1])
    }
}

/// The lines on the first `n` warnings.
pub open spec fn warning_lines(warnings: Seq<Seq<char>>, n: int) -> Seq<char>
    decreases n,
{
    if n <= 0 {
        Seq::empty()
    } else {
        warning_lines(warnings, n - 1) + ("警告："@ + warnings[n - 1] + "\n"@)
    }
}

/// The report of a scan, with a line end behind it.
pub open spec fn scan_text(report: Scanned) -> Seq<char> {
    "扫描仓库："@ + crate::strings::decimal(report.repositories_scanned) + "\n个人 open PR："@
        + crate::strings::decimal(report.pull_requests_observed) + "\n新增事件："@
        + crate::strings::decimal(report.events_created) + "\n"@ + (if report.initial_baseline {
        "本次为首次扫描，只建立基线。\n"@
    } else {
        ""@
    }) + scan_lines(report.pull_requests, report.pull_requests.len() as int) + warning_lines(
        report.warnings,
        report.warnings.len() as int,
    )
}

pub fn render_scan_report(report: &WatchScanReport) -> (r: String)
    ensures
        r@ == crate::strings::trim_back(scan_text(report@)),
{
    let mut output: String = owned("扫描仓库：").concat(
        usize_to_string(report.repositories_scanned).as_str(),
    ).concat("\n个人 open PR：").concat(
        usize_to_string(report.pull_requests_observed).as_str(),
    ).concat("\n新增事件：").concat(usize_to_string(report.events_created).as_str()).concat("\n");
    output = output.concat(
        if report.initial_baseline {
            "本次为首次扫描，只建立基线。\n"
        } else {
            ""
        },
    );
    let ghost head = output@;
    let ghost pulls = report@.pull_requests;
    let mut i: usize = 0;
    assert(output@ =~= head + scan_lines(pulls, 0));
    while i < report.pull_requests.len()
        invariant
            i <= report.pull_requests@.len(),
            pulls == crate::watch::model::pull_views(report.pull_requests@),
            output@ == head + scan_lines(pulls, i as int),
        decreases report.pull_requests@.len() - i,
    {
        let pull = &report.pull_requests[i];
        assert(pulls[i as int] == pull@);
        let line = owned("- ").concat(pull.key().as_str()).concat(" ").concat(
            pull.title.as_str(),
        ).concat(" [").concat(pull.merge_state.as_str()).concat("] CI: ").concat(
            pull.check_summary().render().as_str(),
        ).concat("\n");
        output = output.concat(line.as_str());
        i += 1;
        assert(output@ =~= head + scan_lines(pulls, i as int));
    }
    let ghost both = output@;
    let ghost warnings = report@.warnings;
    let mut k: usize = 0;
    assert(output@ =~= both + warning_lines(warnings, 0));
    while k < report.warnings.len()
        invariant
            k <= report.warnings@.len(),
            warnings == crate::strings::views(report.warnings@),
            output@ == both + warning_lines(warnings, k as int),
        decreases report.warnings@.len() - k,
    {
        assert(warnings[k as int] == report.warnings@[k as int]@);
        let line = owned("警告：").concat(report.warnings[k].as_str()).concat("\n");
        output = output.concat(line.as_str());
        k += 1;
        assert(output@ =~= both + warning_lines(warnings, k as int));
    }
    assert(output@ =~= scan_text(report@));
    crate::strings::trim_end(output.as_str())
}

/// The lines on a known pull request.
pub open spec fn status_text(pull: Pull) -> Seq<char> {
    crate::watch::model::pull_key(pull.repository, pull.number) + " "@ + pull.title + "\n  "@
        + pull.merge_state + " | review: "@ + shown_decision(pull.review_decision) + " | CI: "@
        + crate::watch::model::tally_text(crate::watch::model::tally(pull.checks)) + "\n  "@
        + pull.url
}

pub fn render_status(snapshots: &Vec<PullRequestSnapshot>) -> (r: String)
    ensures
        r@ == (if snapshots@.len() == 0 {
            "尚无个人 PR 快照，请先运行 watch scan。"@
        } else {
            crate::strings::join(
                Seq::new(snapshots@.len(), |i: int| status_text(snapshots@[i]@)),
                "\n"@,
            )
        }),
{
    if snapshots.len() == 0 {
        return owned("尚无个人 PR 快照，请先运行 watch scan。");
    }
    let ghost all = Seq::new(snapshots@.len(), |i: int| status_text(snapshots@[i]@));
    let mut lines: Vec<String> = Vec::new();
    let mut i: usize = 0;
    assert(crate::strings::views(lines@) =~= all.take(0));
    while i < snapshots.len()
        invariant
            i <= snapshots@.len(),
            all == Seq::new(snapshots@.len(), |i: int| status_text(snapshots@[i]@)),
            crate::strings::views(lines@) == all.take(i as int),
        decreases snapshots@.len() - i,
    {
        let pull = &snapshots[i];
        push_string(
            &mut lines,
            pull.key().concat(" ").concat(pull.title.as_str()).concat("\n  ").concat(
                pull.merge_state.as_str(),
            ).concat(" | review: ").concat(
                display_empty(pull.review_decision.as_str()).as_str(),
            ).concat(" | CI: ").concat(pull.check_summary().render().as_str()).concat(
                "\n  ",
            ).concat(pull.url.as_str()),
        );
        assert(all.take(i + 1) =~= all.take(i as int).push(all[i as int]));
        i += 1;
    }
    assert(all.take(all.len() as int) =~= all);
    join_with(&lines, "\n")
}

/// The lines on an event.
pub open spec fn event_text(event: WatchEvent) -> Seq<char> {
    event.created_at@ + " ["@ + event.kind@ + "] "@ + event.entity_key@ + "\n  "@ + event.summary@
        + "\n  "@ + event.evidence_url@
}

pub fn render_events(events: &Vec<WatchEvent>) -> (r: String)
    ensures
        r@ == (if events@.len() == 0 {
            "暂无状态变化事件。"@
        } else {
            crate::strings::join(Seq::new(events@.len(), |i: int| event_text(events@[i])), "\n"@)
        }),
{
    if events.len() == 0 {
        return owned("暂无状态变化事件。");
    }
    let ghost all = Seq::new(events@.len(), |i: int| event_text(events@[i]));
    let mut lines: Vec<String> = Vec::new();
    let mut i: usize = 0;
    assert(crate::strings::views(lines@) =~= all.take(0));
    while i < events.len()
        invariant
            i <= events@.len(),
            all == Seq::new(events@.len(), |i: int| event_text(events@[i])),
            crate::strings::views(lines@) == all.take(i as int),
        decreases events@.len() - i,
    {
        let event = &events[i];
        push_string(
            &mut lines,
            owned(event.created_at.as_str()).concat(" [").concat(event.kind.as_str()).concat(
                "] ",
            ).concat(event.entity_key.as_str()).concat("\n  ").concat(
                event.summary.as_str(),
            ).concat("\n  ").concat(event.evidence_url.as_str()),
        );
        assert(all.take(i + 1) =~= all.take(i as int).push(all[i as int]));
        i += 1;
    }
    assert(all.take(all.len() as int) =~= all);
    join_with(&lines, "\n")
}

} // verus!
