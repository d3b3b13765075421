//! The guard before the code of a project runs and before anything of it is pushed.
use crate::config::BranchConfig;
use crate::protection::model::{CommitSecurityReviewBatch, SecurityDisposition};
use crate::protection::review::ReviewError;
use crate::strings::owned;
use vstd::prelude::*;

verus! {

/// What is about to be done.
#[derive(Debug, Clone, Copy, PartialEq, Eq, Structural)]
pub enum Deed {
    /// A test command of the project.
    Test,
    Push,
}

/// What has to come first.
#[derive(Debug)]
pub enum GuardAnswer {
    /// Nothing: the deed may be done. A command of a protected project runs in the sandbox only.
    Go { sandboxed: bool },
    /// The static scan of the work tree.
    Scan,
    /// The review of every new commit.
    ReviewCommits,
    /// The verification of the contracts that the reviews ask for.
    VerifyContracts,
    /// The deed is not done at all.
    Refuse(String),
}

/// How one of the checks ended.
#[derive(Debug)]
pub enum GuardNews {
    Scanned(Result<(), String>),
    /// The reviews, where there was something to review.
    Reviewed(Option<CommitSecurityReviewBatch>),
    /// The evidence of the verification.
    Verified(Result<Vec<String>, String>),
}

/// The checks that one run has behind it.
#[derive(Debug)]
pub struct Guard {
    pub protected: bool,
    /// Tests that check behaviour are asked for, and there are none.
    pub untested: bool,
    pub scanned: bool,
    pub reviewed: bool,
    /// A hidden fix waits for its verification.
    pub pending: bool,
}

/// What has to come before a deed.
pub enum Before {
    Go(bool),
    Scan,
    ReviewCommits,
    VerifyContracts,
    Refuse(Seq<char>),
}

impl View for GuardAnswer {
    type V = Before;

    open spec fn view(&self) -> Before {
        match self {
            GuardAnswer::Go { sandboxed } => Before::Go(*sandboxed),
            GuardAnswer::Scan => Before::Scan,
            GuardAnswer::ReviewCommits => Before::ReviewCommits,
            GuardAnswer::VerifyContracts => Before::VerifyContracts,
            GuardAnswer::Refuse(words) => Before::Refuse(words@),
        }
    }
}

/// The guard at the beginning of a run.
pub open spec fn new_guard(protected: bool, untested: bool) -> Guard {
    Guard { protected, untested, scanned: false, reviewed: false, pending: false }
}

/// What has to come before a deed.
pub open spec fn before(guard: Guard, deed: Deed) -> Before {
    if guard.untested {
        Before::Refuse("require_behavioral_tests 要求至少一条行为测试命令"@)
    } else if !guard.protected {
        Before::Go(false)
    } else if !guard.scanned {
        Before::Scan
    } else if !guard.reviewed {
        Before::ReviewCommits
    } else if deed == Deed::Push && guard.pending {
        Before::VerifyContracts
    } else {
        Before::Go(true)
    }
}

/// Why a batch of reviews stops the run.
pub open spec fn batch_fault(batch: Option<CommitSecurityReviewBatch>) -> Option<ReviewError> {
    match batch {
        None => None,
        Some(batch) => match batch.disposition {
            SecurityDisposition::Allow | SecurityDisposition::VerifyRequired => None,
            SecurityDisposition::NeedsReview => Some(ReviewError::ReviewPending),
            SecurityDisposition::Block => Some(ReviewError::Blocked),
        },
    }
}

/// The batch asks for the verification of a contract.
pub open spec fn asks_verification(batch: Option<CommitSecurityReviewBatch>) -> bool {
    batch is Some && batch->0.disposition is VerifyRequired
}

/// Why a check stops the run.
pub open spec fn news_fault(news: GuardNews) -> Option<Seq<char>> {
    match news {
        GuardNews::Scanned(Err(words)) => Some(words@),
        GuardNews::Verified(Err(words)) => Some(words@),
        GuardNews::Reviewed(batch) => match batch_fault(batch) {
            Some(fault) => Some(fault.words()),
            None => None,
        },
        _ => None,
    }
}

/// The guard after a check. One that stops the run counts for nothing.
pub open spec fn learned(guard: Guard, news: GuardNews) -> Guard {
    if news_fault(news) is Some {
        guard
    } else {
        match news {
            GuardNews::Scanned(_) => Guard { scanned: true, ..guard },
            GuardNews::Reviewed(batch) => Guard {
                reviewed: true,
                pending: guard.pending || asks_verification(batch),
                ..guard
            },
            GuardNews::Verified(_) => Guard { pending: false, ..guard },
        }
    }
}

/// The guard after the first `n` checks of a run.
pub open spec fn learned_all(guard: Guard, news: Seq<GuardNews>, n: int) -> Guard
    decreases n,
{
    if n <= 0 {
        guard
    } else {
        learned(learned_all(guard, news, n - 1), news[n - 1])
    }
}

impl Guard {
    /// The guard of a run on a branch.
    pub fn new(protected: bool, branch: &BranchConfig) -> (r: Guard)
        ensures
            r == new_guard(protected, branch.lacks_tests()),
    {
        let untested = branch.require_behavioral_tests && !branch.has_behavioral_tests();
        Guard { protected, untested, scanned: false, reviewed: false, pending: false }
    }

    /// What has to come before a deed.
    pub fn before(&self, deed: Deed) -> (r: GuardAnswer)
        ensures
            r@ == before(*self, deed),
    {
        if self.untested {
            GuardAnswer::Refuse(owned("require_behavioral_tests 要求至少一条行为测试命令"))
        } else if !self.protected {
            GuardAnswer::Go { sandboxed: false }
        } else if !self.scanned {
            GuardAnswer::Scan
        } else if !self.reviewed {
            GuardAnswer::ReviewCommits
        } else if deed == Deed::Push && self.pending {
            GuardAnswer::VerifyContracts
        } else {
            GuardAnswer::Go { sandboxed: true }
        }
    }

    /// Takes note of how a check ended. One that failed ends the run.
    pub fn learn(&mut self, news: &GuardNews) -> (r: Result<(), String>)
        ensures
            *final(self) == learned(*old(self), *news),
            match r {
                Ok(()) => news_fault(*news) is None,
                Err(words) => news_fault(*news) == Some(words@),
            },
    {
        match news {
            GuardNews::Scanned(Err(words)) => {
                return Err(owned(words.as_str()));
            },
            GuardNews::Scanned(Ok(())) => {
                self.scanned = true;
            },
            GuardNews::Verified(Err(words)) => {
                return Err(owned(words.as_str()));
            },
            GuardNews::Verified(Ok(_)) => {
                self.pending = false;
            },
            GuardNews::Reviewed(None) => {
                self.reviewed = true;
            },
            GuardNews::Reviewed(Some(batch)) => match batch.disposition {
                SecurityDisposition::Allow => {
                    self.reviewed = true;
                },
                SecurityDisposition::VerifyRequired => {
                    self.reviewed = true;
                    self.pending = true;
                },
                SecurityDisposition::NeedsReview => {
                    return Err(ReviewError::ReviewPending.message());
                },
                SecurityDisposition::Block => {
                    return Err(ReviewError::Blocked.message());
                },
            },
        }
        Ok(())
    }
}

/// A scan that found nothing to object to.
pub open spec fn clean_scan(news: GuardNews) -> bool {
    news is Scanned && news_fault(news) is None
}

/// Reviews none of which stops the run.
pub open spec fn clean_review(news: GuardNews) -> bool {
    news is Reviewed && news_fault(news) is None
}

/// A verification that found every contract kept.
pub open spec fn clean_verification(news: GuardNews) -> bool {
    news is Verified && news_fault(news) is None
}

proof fn lemma_learned_kept(guard: Guard, news: Seq<GuardNews>, n: int)
    requires
        0 <= n <= news.len(),
    ensures
        learned_all(guard, news, n).protected == guard.protected,
        learned_all(guard, news, n).untested == guard.untested,
    decreases n,
{
    if n > 0 {
        lemma_learned_kept(guard, news, n - 1);
    }
}

proof fn lemma_checks_behind(untested: bool, news: Seq<GuardNews>, n: int)
    requires
        0 <= n <= news.len(),
    ensures
        ({
            let guard = learned_all(new_guard(true, untested), news, n);
            &&& guard.scanned ==> exists|i: int| 0 <= i < n && #[trigger] clean_scan(news[i])
            &&& guard.reviewed ==> exists|i: int| 0 <= i < n && #[trigger] clean_review(news[i])
            &&& !guard.pending ==> forall|i: int|
                0 <= i < n && #[trigger] clean_review(news[i]) && asks_verification(
                    news[i]->Reviewed_0,
                ) ==> exists|k: int| i < k < n && #[trigger] clean_verification(news[k])
        }),
    decreases n,
{
    if n > 0 {
        lemma_checks_behind(untested, news, n - 1);
        let earlier = learned_all(new_guard(true, untested), news, n - 1);
        let guard = learned(earlier, news[n - 1]);
        let last = news[n - 1];
        if guard.scanned && !earlier.scanned {
            assert(clean_scan(last));
        }
        if guard.reviewed && !earlier.reviewed {
            assert(clean_review(last));
        }
        if !guard.pending {
            assert forall|i: int|
                0 <= i < n && #[trigger] clean_review(news[i]) && asks_verification(
                    news[i]->Reviewed_0,
                ) implies exists|k: int| i < k < n && #[trigger] clean_verification(news[k]) by {
                if clean_verification(last) {
                    assert(i != n - 1);
                } else {
                    assert(!earlier.pending);
                    assert(i < n - 1);
                    let k = choose|k: int| i < k < n - 1 && #[trigger] clean_verification(news[k]);
                    assert(clean_verification(news[k]));
                }
            }
        }
    }
}

/// No command of a protected project runs before its work tree was scanned and its new commits were
/// reviewed without an objection, and then it runs in the sandbox.
pub proof fn law_tests_wait_for_the_guard(untested: bool, news: Seq<GuardNews>)
    ensures
        ({
            let guard = learned_all(new_guard(true, untested), news, news.len() as int);
            before(guard, Deed::Test) is Go ==> {
                &&& before(guard, Deed::Test) == Before::Go(true)
                &&& exists|i: int| 0 <= i < news.len() && #[trigger] clean_scan(news[i])
                &&& exists|i: int| 0 <= i < news.len() && #[trigger] clean_review(news[i])
            }
        }),
{
    lemma_checks_behind(untested, news, news.len() as int);
    lemma_learned_kept(new_guard(true, untested), news, news.len() as int);
}

/// Nothing of a protected project is pushed before its work tree was scanned and its new commits
/// were reviewed, and every hidden fix that a review found was verified after it.
pub proof fn law_push_waits_for_the_guard(untested: bool, news: Seq<GuardNews>)
    ensures
        ({
            let guard = learned_all(new_guard(true, untested), news, news.len() as int);
            before(guard, Deed::Push) is Go ==> {
                &&& exists|i: int| 0 <= i < news.len() && #[trigger] clean_scan(news[i])
                &&& exists|i: int| 0 <= i < news.len() && #[trigger] clean_review(news[i])
                &&& forall|i: int|
                    0 <= i < news.len() && #[trigger] clean_review(news[i]) && asks_verification(
                        news[i]->Reviewed_0,
                    ) ==> exists|k: int|
                        i < k < news.len() && #[trigger] clean_verification(news[k])
            }
        }),
{
    lemma_checks_behind(untested, news, news.len() as int);
    lemma_learned_kept(new_guard(true, untested), news, news.len() as int);
}

/// A branch that lacks the tests it asks for is neither tested nor pushed, whatever the checks say.
pub proof fn law_untested_branch_is_refused(
    protected: bool,
    branch: BranchConfig,
    news: Seq<GuardNews>,
    deed: Deed,
)
    requires
        branch.lacks_tests(),
    ensures
        before(
            learned_all(new_guard(protected, branch.lacks_tests()), news, news.len() as int),
            deed,
        ) is Refuse,
{
    lemma_learned_kept(new_guard(protected, branch.lacks_tests()), news, news.len() as int);
}

/// An ordinary branch of a project without protection is held up by nothing.
pub proof fn law_unprotected_branch_is_free(branch: BranchConfig, news: Seq<GuardNews>, deed: Deed)
    requires
        !branch.lacks_tests(),
    ensures
        before(
            learned_all(new_guard(false, branch.lacks_tests()), news, news.len() as int),
            deed,
        ) == Before::Go(false),
{
    lemma_learned_kept(new_guard(false, branch.lacks_tests()), news, news.len() as int);
}

} // verus!
