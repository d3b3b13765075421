//! The review of a range of commits, one after the other.
use crate::config::{LlmConfig, ProtectionConfig};
use crate::protection::catalog::{evaluate_security_review, policy_fingerprint};
use crate::protection::model::{
    CommitSecurityReviewBatch, EvaluatedSecurityReview, SecurityReviewDecision,
};
use crate::protection::review::{
    review_batch, review_dedupe_key, run_commit_security_reviews, ReviewError,
};
use crate::strings::owned;
use vstd::prelude::*;

verus! {

/// What the reviews wait for.
#[derive(Debug, Clone, Copy, PartialEq, Eq, Structural)]
pub enum ReviewStage {
    /// Whether the commit was reviewed before.
    Lookup,
    /// The view of the model.
    Ask,
    /// The new review is written down.
    Save,
    Done,
    Failed,
}

/// What came of the last action.
#[derive(Debug)]
pub enum ReviewEvent {
    Cached(Option<EvaluatedSecurityReview>),
    Decided(Option<SecurityReviewDecision>),
    Saved,
}

/// What the caller is to do next.
#[derive(Debug)]
pub enum ReviewAction {
    /// Look for the review with this key.
    Lookup(String),
    /// Ask the model about the commit with this number.
    Ask(usize),
    /// Write the last review down, with what it leads to.
    Save,
    Done,
    Fail(String),
}

/// What an action is.
#[verifier::ext_equal]
pub enum ReviewDoing {
    Lookup(Seq<char>),
    Ask(nat),
    Save,
    Done,
    Fail(Seq<char>),
}

impl View for ReviewAction {
    type V = ReviewDoing;

    open spec fn view(&self) -> ReviewDoing {
        match *self {
            ReviewAction::Lookup(key) => ReviewDoing::Lookup(key@),
            ReviewAction::Ask(i) => ReviewDoing::Ask(i as nat),
            ReviewAction::Save => ReviewDoing::Save,
            ReviewAction::Done => ReviewDoing::Done,
            ReviewAction::Fail(words) => ReviewDoing::Fail(words@),
        }
    }
}

/// The review of a range.
#[derive(Debug)]
pub struct ReviewRun {
    pub stage: ReviewStage,
    pub project: String,
    pub fingerprint: String,
    pub commits: Vec<String>,
    /// The reviews of the first commits, in their order.
    pub reviews: Vec<EvaluatedSecurityReview>,
    pub cache_hits: usize,
    /// What the review of the commit is found again by.
    pub key: String,
}

/// Reviews in the middle of their course.
pub struct Reviewing {
    pub stage: ReviewStage,
    pub project: Seq<char>,
    pub fingerprint: Seq<char>,
    pub commits: Seq<Seq<char>>,
    pub reviews: Seq<EvaluatedSecurityReview>,
    pub cache_hits: int,
    pub key: Seq<char>,
}

impl View for ReviewRun {
    type V = Reviewing;

    open spec fn view(&self) -> Reviewing {
        Reviewing {
            stage: self.stage,
            project: self.project@,
            fingerprint: self.fingerprint@,
            commits: crate::strings::views(self.commits@),
            reviews: self.reviews@,
            cache_hits: self.cache_hits as int,
            key: self.key@,
        }
    }
}

impl Reviewing {
    /// What the review of commit number `i` is found again by.
    pub open spec fn key_of(self, i: int) -> Seq<char> {
        crate::protection::review::review_key(self.project, self.fingerprint, self.commits[i])
    }

    /// The key is that of the commit whose turn it is, or of the one whose review is written down.
    pub open spec fn wf(self) -> bool {
        &&& 0 <= self.cache_hits <= self.reviews.len() <= self.commits.len()
        &&& self.stage is Lookup || self.stage is Ask ==> self.reviews.len() < self.commits.len()
        &&& self.stage is Save ==> self.reviews.len() > 0
        &&& self.stage is Done ==> self.reviews.len() == self.commits.len()
        &&& self.stage is Lookup || self.stage is Ask ==> self.key == self.key_of(
            self.reviews.len() as int,
        )
        &&& self.stage is Save ==> self.key == self.key_of(self.reviews.len() - 1)
    }
}

/// The event is one that the stage waits for.
pub open spec fn review_fits(stage: ReviewStage, event: ReviewEvent) -> bool {
    match stage {
        ReviewStage::Lookup => event is Cached,
        ReviewStage::Ask => event is Decided,
        ReviewStage::Save => event is Saved,
        ReviewStage::Done | ReviewStage::Failed => false,
    }
}

/// The next commit is looked up; after the last one the reviews are done.
pub open spec fn next_commit(s: Reviewing) -> (Reviewing, ReviewDoing) {
    let i = s.reviews.len() as int;
    if i < s.commits.len() {
        let key = s.key_of(i);
        (Reviewing { stage: ReviewStage::Lookup, key, ..s }, ReviewDoing::Lookup(key))
    } else {
        (Reviewing { stage: ReviewStage::Done, ..s }, ReviewDoing::Done)
    }
}

/// The review that the model's view of a commit comes to.
pub open spec fn is_evaluation(
    review: EvaluatedSecurityReview,
    commit: Seq<char>,
    decision: SecurityReviewDecision,
    protection: ProtectionConfig,
) -> bool {
    let strict = crate::protection::catalog::is_strict(protection.profiles@);
    &&& review.commit@ == commit
    &&& review.decision == decision
    &&& review.disposition == crate::protection::catalog::verdict(decision, strict)
    &&& crate::strings::views(review.policy_reasons@) == crate::protection::catalog::reasons(
        decision,
        strict,
    )
    &&& review.policy_fingerprint@ == crate::protection::catalog::fingerprint(protection)
}

/// One step of the reviews: a review that is known is taken over, a new one is evaluated and written
/// down before the next commit is looked at.
pub open spec fn review_step(
    s: Reviewing,
    protection: ProtectionConfig,
    event: ReviewEvent,
    t: Reviewing,
    done: ReviewDoing,
) -> bool {
    match (s.stage, event) {
        (ReviewStage::Lookup, ReviewEvent::Cached(Some(review))) => (t, done) == next_commit(
            Reviewing { reviews: s.reviews.push(review), cache_hits: s.cache_hits + 1, ..s },
        ),
        (ReviewStage::Lookup, ReviewEvent::Cached(None)) => {
            &&& t == (Reviewing { stage: ReviewStage::Ask, ..s })
            &&& done == ReviewDoing::Ask(s.reviews.len())
        },
        (ReviewStage::Ask, ReviewEvent::Decided(None)) => {
            &&& t == (Reviewing { stage: ReviewStage::Failed, ..s })
            &&& done == ReviewDoing::Fail("项目保护门禁未获得 DS 安全审计结果"@)
        },
        (ReviewStage::Ask, ReviewEvent::Decided(Some(decision))) => {
            &&& t.reviews.len() == s.reviews.len() + 1
            &&& is_evaluation(
                t.reviews.last(),
                s.commits[s.reviews.len() as int],
                decision,
                protection,
            )
            &&& t == (Reviewing {
                stage: ReviewStage::Save,
                reviews: s.reviews.push(t.reviews.last()),
                ..s
            })
            &&& done is Save
        },
        (ReviewStage::Save, ReviewEvent::Saved) => (t, done) == next_commit(s),
        _ => true,
    }
}

impl ReviewRun {
    /// Begins to review the commits of a range, where there is something to review. The number says
    /// how many bytes a patch may have.
    pub fn review(
        llm: &Option<LlmConfig>,
        project: &str,
        protection: &ProtectionConfig,
        commits: Vec<String>,
    ) -> (r: Result<Option<(ReviewRun, ReviewAction, usize)>, ReviewError>)
        ensures
            ({
                let plan = crate::protection::review::review_plan(
                    protection.enabled,
                    commits@.len() as int,
                    *llm,
                );
                match r {
                    Err(error) => plan == Err::<Option<int>, ReviewError>(error),
                    Ok(None) => plan == Ok::<Option<int>, ReviewError>(None),
                    Ok(Some((run, action, limit))) => {
                        &&& plan == Ok::<Option<int>, ReviewError>(Some(limit as int))
                        &&& run@.wf()
                        &&& run@.reviews == Seq::<EvaluatedSecurityReview>::empty()
                        &&& run@.project == project@
                        &&& run@.fingerprint == crate::protection::catalog::fingerprint(*protection)
                        &&& run@.commits == crate::strings::views(commits@)
                        &&& run@.cache_hits == 0
                        &&& run@.stage is Lookup
                        &&& run@.key == crate::protection::review::review_key(
                            run@.project,
                            run@.fingerprint,
                            run@.commits[0],
                        )
                        &&& action@ == ReviewDoing::Lookup(run@.key)
                    },
                }
            }),
    {
        let limit: usize = match run_commit_security_reviews(
            protection.enabled,
            commits.len(),
            llm,
        ) {
            Err(error) => {
                return Err(error);
            },
            Ok(None) => {
                return Ok(None);
            },
            Ok(Some(limit)) => limit,
        };
        let mut run = ReviewRun {
            stage: ReviewStage::Lookup,
            project: owned(project),
            fingerprint: policy_fingerprint(protection),
            commits,
            reviews: Vec::new(),
            cache_hits: 0,
            key: String::new(),
        };
        let action = run.next_commit();
        assert(run@.reviews =~= Seq::empty());
        Ok(Some((run, action, limit)))
    }

    fn next_commit(&mut self) -> (r: ReviewAction)
        ensures
            (final(self)@, r@) == next_commit(old(self)@),
    {
        let i: usize = self.reviews.len();
        if i < self.commits.len() {
            let key = review_dedupe_key(
                self.project.as_str(),
                self.fingerprint.as_str(),
                self.commits[i].as_str(),
            );
            assert(self@.commits[i as int] == self.commits@[i as int]@);
            self.key = owned(key.as_str());
            self.stage = ReviewStage::Lookup;
            ReviewAction::Lookup(key)
        } else {
            self.stage = ReviewStage::Done;
            ReviewAction::Done
        }
    }

    /// Takes what came of the last action, and says what comes next.
    pub fn step(&mut self, protection: &ProtectionConfig, event: ReviewEvent) -> (r: ReviewAction)
        requires
            old(self)@.wf(),
            review_fits(old(self)@.stage, event),
        ensures
            final(self)@.wf(),
            review_step(old(self)@, *protection, event, final(self)@, r@),
    {
        let i: usize = self.reviews.len();
        match event {
            ReviewEvent::Cached(Some(review)) => {
                assert(i < self.commits.len());
                self.reviews.push(review);
                self.cache_hits = self.cache_hits + 1;
                self.next_commit()
            },
            ReviewEvent::Cached(None) => {
                self.stage = ReviewStage::Ask;
                ReviewAction::Ask(i)
            },
            ReviewEvent::Decided(None) => {
                self.stage = ReviewStage::Failed;
                ReviewAction::Fail(owned("项目保护门禁未获得 DS 安全审计结果"))
            },
            ReviewEvent::Decided(Some(decision)) => {
                let review = evaluate_security_review(
                    self.commits[i].as_str(),
                    decision,
                    protection,
                );
                assert(self@.commits[i as int] == self.commits@[i as int]@);
                self.reviews.push(review);
                self.stage = ReviewStage::Save;
                ReviewAction::Save
            },
            ReviewEvent::Saved => self.next_commit(),
        }
    }

    /// The reviews of the range, put together.
    pub fn batch(self, from: &str, to: &str) -> (r: CommitSecurityReviewBatch)
        requires
            self@.stage is Done,
        ensures
            r.project@ == self@.project,
            r.from@ == from@,
            r.to@ == to@,
            r.reviews@ == self@.reviews,
            r.disposition == crate::protection::review::aggregate(self@.reviews),
            r.cache_hits == self@.cache_hits,
    {
        review_batch(self.project.as_str(), from, to, self.reviews, self.cache_hits)
    }
}

/// Reviews are done only when there is one for every commit of the range, and a commit that the
/// model said nothing about ends them.
pub proof fn law_every_commit_is_reviewed(
    s: Reviewing,
    protection: ProtectionConfig,
    event: ReviewEvent,
    t: Reviewing,
    done: ReviewDoing,
)
    requires
        s.wf(),
        review_fits(s.stage, event),
        review_step(s, protection, event, t, done),
    ensures
        done is Done ==> t.reviews.len() == t.commits.len(),
        t.commits == s.commits,
        s.reviews == t.reviews.take(s.reviews.len() as int),
        event is Decided && event->Decided_0 is None ==> done is Fail,
{
    assert(s.reviews == t.reviews.take(s.reviews.len() as int));
}

/// A commit that was reviewed under the same rules is not put to the model again.
pub proof fn law_reviewed_commit_is_not_asked_again(
    s: Reviewing,
    protection: ProtectionConfig,
    review: EvaluatedSecurityReview,
    t: Reviewing,
    done: ReviewDoing,
)
    requires
        s.wf(),
        s.stage is Lookup,
        review_step(s, protection, ReviewEvent::Cached(Some(review)), t, done),
    ensures
        !(done is Ask),
        t.reviews == s.reviews.push(review),
        t.cache_hits == s.cache_hits + 1,
{
}

/// A commit is reviewed once for a policy: the run that meets it again looks under the key under which
/// its review was written, and takes the review that it finds there over without asking the model.
pub proof fn law_commit_is_reviewed_once(
    s: Reviewing,
    t: Reviewing,
    protection: ProtectionConfig,
    review: EvaluatedSecurityReview,
    u: Reviewing,
    done: ReviewDoing,
)
    requires
        s.wf(),
        s.stage is Save,
        t.wf(),
        t.stage is Lookup,
        s.project == t.project,
        s.fingerprint == t.fingerprint,
        s.commits[s.reviews.len() - 1] == t.commits[t.reviews.len() as int],
        review_step(t, protection, ReviewEvent::Cached(Some(review)), u, done),
    ensures
        t.key == s.key,
        u.reviews == t.reviews.push(review),
        u.cache_hits == t.cache_hits + 1,
        done is Lookup || done is Done,
{
}

} // verus!
