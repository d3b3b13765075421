//! A push that a person confirms with the password.
use crate::command::CommandOutput;
use crate::config::Config;
use crate::git::{read_remote_head, Git};
use crate::service::security::{
    check_remote, enforce_password_rate_limit, use_challenge, verify_operation_password, Challenge,
};
use crate::service::types::{Ended, JobEnding, JobNotice};
use crate::service::util::{configured_branch, ensure_state};
use crate::strings::owned;
use vstd::prelude::*;

verus! {

/// What the push waits for.
#[derive(Debug, Clone, Copy, PartialEq, Eq, Structural)]
pub enum ConfirmStage {
    /// The job that the challenge belongs to.
    Job,
    /// The note that the job is being pushed.
    Note,
    /// The commit that the branch has on the remote.
    Remote,
    Push,
    /// The work tree, which is no longer needed.
    Remove,
    Over,
}

/// What came of the last action.
#[derive(Debug)]
pub enum ConfirmEvent {
    /// The state of the job and its branch.
    Job { state: String, branch: String },
    Noted,
    Output(CommandOutput),
    Pushed(Result<(), String>),
    Removed(Result<(), String>),
}

/// What the caller is to do next.
#[derive(Debug)]
pub enum ConfirmAction {
    ReadJob,
    /// Write down that the job is being pushed.
    Note { state: &'static str, summary: &'static str },
    Git(Vec<String>),
    /// Push the branch of the job, with a lease.
    Push,
    RemoveWorktree,
    End(JobEnding),
    /// Write down that the job waits again, and refuse.
    Back { state: &'static str, summary: &'static str, words: String },
    Fail(String),
}

/// What an action is.
#[verifier::ext_equal]
pub enum Confirming {
    ReadJob,
    Note(Seq<char>, Seq<char>),
    Git(Seq<Seq<char>>),
    Push,
    RemoveWorktree,
    End(Ended),
    Back(Seq<char>, Seq<char>, Seq<char>),
    Fail(Seq<char>),
}

impl View for ConfirmAction {
    type V = Confirming;

    open spec fn view(&self) -> Confirming {
        match *self {
            ConfirmAction::ReadJob => Confirming::ReadJob,
            ConfirmAction::Note { state, summary } => Confirming::Note(state@, summary@),
            ConfirmAction::Git(args) => Confirming::Git(crate::strings::views(args@)),
            ConfirmAction::Push => Confirming::Push,
            ConfirmAction::RemoveWorktree => Confirming::RemoveWorktree,
            ConfirmAction::End(ending) => Confirming::End(ending@),
            ConfirmAction::Back { state, summary, words } => Confirming::Back(
                state@,
                summary@,
                words@,
            ),
            ConfirmAction::Fail(words) => Confirming::Fail(words@),
        }
    }
}

/// A push that was confirmed.
#[derive(Debug)]
pub struct ConfirmRun {
    pub stage: ConfirmStage,
    pub job_id: String,
    /// The commit that the remote had when the challenge was made.
    pub expected: String,
    pub branch: String,
}

pub struct ConfirmState {
    pub stage: ConfirmStage,
    pub job_id: Seq<char>,
    pub expected: Seq<char>,
    pub branch: Seq<char>,
}

impl View for ConfirmRun {
    type V = ConfirmState;

    open spec fn view(&self) -> ConfirmState {
        ConfirmState {
            stage: self.stage,
            job_id: self.job_id@,
            expected: self.expected@,
            branch: self.branch@,
        }
    }
}

/// The event answers what the push waits for.
pub open spec fn confirm_fits(stage: ConfirmStage, event: ConfirmEvent) -> bool {
    match stage {
        ConfirmStage::Job => event is Job,
        ConfirmStage::Note => event is Noted,
        ConfirmStage::Remote => event is Output,
        ConfirmStage::Push => event is Pushed,
        ConfirmStage::Remove => event is Removed,
        ConfirmStage::Over => false,
    }
}

/// Why a confirmation is refused: too many attempts, a password that is wrong, or a challenge that
/// cannot be answered, in this order.
pub open spec fn confirm_fault(
    attempts: Seq<u64>,
    millis: u64,
    config: Config,
    password: Seq<char>,
    challenge: Option<Challenge>,
    now: i64,
) -> Option<Seq<char>> {
    if crate::service::security::recent(attempts, millis).len() >= 5 {
        Some("操作密码尝试过于频繁，请稍后再试"@)
    } else {
        match crate::service::security::password_check(
            config.service.operation_password_hash@,
            password,
        ) {
            Err(words) => Some("操作密码哈希无效："@ + words),
            Ok(false) => Some("操作密码错误"@),
            Ok(true) => crate::service::security::challenge_fault(challenge, now),
        }
    }
}

/// The push stops with an error.
pub open spec fn confirm_failing(s: ConfirmState, words: Seq<char>) -> (ConfirmState, Confirming) {
    (ConfirmState { stage: ConfirmStage::Over, ..s }, Confirming::Fail(words))
}

/// How a confirmed push ends.
pub open spec fn confirmed_end(branch: Seq<char>) -> Ended {
    Ended {
        state: "completed"@,
        summary: "人工确认的修改已推送"@,
        output: None,
        kind: "state"@,
        message: "completed: 人工确认的修改已推送"@,
        notice: Some(("pushed"@, branch + " 已推送"@, "人工确认的功能冲突修改已经成功推送。"@)),
        discard: false,
    }
}

/// The commit that the remote names, empty where it has none.
pub open spec fn named_head(output: CommandOutput) -> Seq<char> {
    match crate::git::first_word(output.stdout@) {
        Some(head) => head,
        None => Seq::empty(),
    }
}

/// The next state and action.
pub open spec fn confirm_step(s: ConfirmState, config: Config, event: ConfirmEvent) -> (
    ConfirmState,
    Confirming,
) {
    match event {
        ConfirmEvent::Job { state, branch } => if state@ == "waiting_push"@ {
            (
                ConfirmState { stage: ConfirmStage::Note, branch: branch@, ..s },
                Confirming::Note("pushing"@, "正在校验远端并推送"@),
            )
        } else {
            confirm_failing(s, "任务状态 "@ + state@ + " 不允许执行该操作"@)
        },
        ConfirmEvent::Noted => match crate::protection::investigate::branch_named(
            config.branches@,
            s.branch,
            0,
        ) {
            None => confirm_failing(s, "分支不在白名单中："@ + s.branch),
            Some(_) => (
                ConfirmState { stage: ConfirmStage::Remote, ..s },
                Confirming::Git(
                    seq!["ls-remote"@, "--heads"@, config.repo.fork_remote@, "refs/heads/"@ + s.branch],
                ),
            ),
        },
        ConfirmEvent::Output(output) => if !output.ok() {
            confirm_failing(
                s,
                "failed to read remote head for "@ + config.repo.fork_remote@ + "/"@ + s.branch,
            )
        } else if named_head(output) == s.expected {
            (ConfirmState { stage: ConfirmStage::Push, ..s }, Confirming::Push)
        } else {
            (
                ConfirmState { stage: ConfirmStage::Over, ..s },
                Confirming::Back(
                    "waiting_push"@,
                    "远端分支已经变化，需要重新检查后再推送"@,
                    "远端 SHA 已变化，拒绝推送"@,
                ),
            )
        },
        ConfirmEvent::Pushed(Err(words)) => confirm_failing(s, words@),
        ConfirmEvent::Pushed(Ok(_)) => (
            ConfirmState { stage: ConfirmStage::Remove, ..s },
            Confirming::RemoveWorktree,
        ),
        ConfirmEvent::Removed(Err(words)) => confirm_failing(s, words@),
        ConfirmEvent::Removed(Ok(_)) => (
            ConfirmState { stage: ConfirmStage::Over, ..s },
            Confirming::End(confirmed_end(s.branch)),
        ),
    }
}

impl ConfirmRun {
    /// Takes the answer to a challenge. The attempt counts whether or not it is accepted; the
    /// challenge is taken only where everything before it is in order.
    pub fn confirm_push(
        attempts: &mut Vec<u64>,
        millis: u64,
        config: &Config,
        password: &str,
        challenge: &mut Option<Challenge>,
        now: i64,
    ) -> (r: Result<(ConfirmRun, ConfirmAction), String>)
        ensures
            ({
                let kept = crate::service::security::recent(old(attempts)@, millis);
                final(attempts)@ == (if kept.len() >= 5 {
                    kept
                } else {
                    kept.push(millis)
                })
            }),
            match r {
                Err(words) => confirm_fault(
                    old(attempts)@,
                    millis,
                    *config,
                    password@,
                    *old(challenge),
                    now,
                ) == Some(words@) && *final(challenge) == *old(challenge),
                Ok((run, action)) => {
                    &&& confirm_fault(
                        old(attempts)@,
                        millis,
                        *config,
                        password@,
                        *old(challenge),
                        now,
                    ) is None
                    &&& *final(challenge) == Some(Challenge { used: true, ..old(challenge)->0 })
                    &&& run@.stage is Job
                    &&& run@.job_id == old(challenge)->0.job_id@
                    &&& run@.expected == old(challenge)->0.expected_remote_head@
                    &&& run@.branch.len() == 0
                    &&& action is ReadJob
                },
            },
    {
        enforce_password_rate_limit(attempts, millis)?;
        verify_operation_password(config, password)?;
        use_challenge(challenge, now)?;
        match challenge {
            None => Err(owned("推送挑战不存在")),
            Some(taken) => {
                let run = ConfirmRun {
                    stage: ConfirmStage::Job,
                    job_id: taken.job_id.clone(),
                    expected: taken.expected_remote_head.clone(),
                    branch: owned(""),
                };
                proof {
                    reveal_strlit("");
                }
                Ok((run, ConfirmAction::ReadJob))
            },
        }
    }

    fn fail(&mut self, words: String) -> (r: ConfirmAction)
        ensures
            (final(self)@, r@) == confirm_failing(old(self)@, words@),
    {
        self.stage = ConfirmStage::Over;
        ConfirmAction::Fail(words)
    }

    /// Takes what came of the last action, and says what comes next.
    pub fn step(&mut self, config: &Config, event: ConfirmEvent) -> (r: ConfirmAction)
        requires
            confirm_fits(old(self).stage, event),
        ensures
            (final(self)@, r@) == confirm_step(old(self)@, *config, event),
    {
        match event {
            ConfirmEvent::Job { state, branch } => {
                let allowed = ["waiting_push"];
                assert(crate::strings::str_views(allowed@) =~= seq!["waiting_push"@]);
                assert(seq!["waiting_push"@][0] == "waiting_push"@);
                match ensure_state(state.as_str(), &allowed) {
                    Err(words) => self.fail(words),
                    Ok(()) => {
                        self.branch = branch;
                        self.stage = ConfirmStage::Note;
                        ConfirmAction::Note { state: "pushing", summary: "正在校验远端并推送" }
                    },
                }
            },
            ConfirmEvent::Noted => match configured_branch(config, self.branch.as_str()) {
                Err(words) => self.fail(words),
                Ok(_) => {
                    self.stage = ConfirmStage::Remote;
                    let git = Git::new("");
                    ConfirmAction::Git(
                        git.remote_head(config.repo.fork_remote.as_str(), self.branch.as_str()),
                    )
                },
            },
            ConfirmEvent::Output(output) => {
                let remote = config.repo.fork_remote.as_str();
                let head = match read_remote_head(remote, self.branch.as_str(), &output) {
                    Err(words) => return self.fail(words),
                    Ok(Some(head)) => head,
                    Ok(None) => owned(""),
                };
                proof {
                    reveal_strlit("");
                    assert(""@ =~= Seq::<char>::empty());
                    assert(head@ == named_head(output));
                }
                match check_remote(head.as_str(), self.expected.as_str()) {
                    Ok(()) => {
                        self.stage = ConfirmStage::Push;
                        ConfirmAction::Push
                    },
                    Err(words) => {
                        self.stage = ConfirmStage::Over;
                        ConfirmAction::Back {
                            state: "waiting_push",
                            summary: "远端分支已经变化，需要重新检查后再推送",
                            words,
                        }
                    },
                }
            },
            ConfirmEvent::Pushed(Err(words)) => self.fail(words),
            ConfirmEvent::Pushed(Ok(())) => {
                self.stage = ConfirmStage::Remove;
                ConfirmAction::RemoveWorktree
            },
            ConfirmEvent::Removed(Err(words)) => self.fail(words),
            ConfirmEvent::Removed(Ok(())) => {
                self.stage = ConfirmStage::Over;
                let notice = JobNotice {
                    event: "pushed",
                    subject: owned(self.branch.as_str()).concat(" 已推送"),
                    body: owned("人工确认的功能冲突修改已经成功推送。"),
                };
                ConfirmAction::End(
                    JobEnding {
                        state: "completed",
                        summary: owned("人工确认的修改已推送"),
                        output: None,
                        kind: "state",
                        message: owned("completed: 人工确认的修改已推送"),
                        notice: Some(notice),
                        discard: false,
                    },
                )
            },
        }
    }
}

/// A confirmed push starts only with the right password, fewer than five attempts in the last minute,
/// and a challenge that is there, fresh and not yet taken.
pub proof fn law_confirmation_needs_everything(
    attempts: Seq<u64>,
    millis: u64,
    config: Config,
    password: Seq<char>,
    challenge: Option<Challenge>,
    now: i64,
)
    requires
        confirm_fault(attempts, millis, config, password, challenge, now) is None,
    ensures
        crate::service::security::recent(attempts, millis).len() < 5,
        crate::service::security::password_check(
            config.service.operation_password_hash@,
            password,
        ) == Ok::<bool, Seq<char>>(true),
        challenge is Some,
        !challenge->0.used,
        now <= challenge->0.expires_at,
{
}

/// A confirmed push goes out only right after the remote named the commit that it had when the
/// challenge was made.
pub proof fn law_confirmed_push_needs_unmoved_remote(
    s: ConfirmState,
    config: Config,
    event: ConfirmEvent,
)
    requires
        confirm_fits(s.stage, event),
        confirm_step(s, config, event).1 is Push,
    ensures
        s.stage is Remote,
        event is Output,
        event->Output_0.ok(),
        named_head(event->Output_0) == s.expected,
{
}

/// A confirmed job is called completed only after its push succeeded.
pub proof fn law_confirmed_job_was_pushed(s: ConfirmState, config: Config, event: ConfirmEvent)
    requires
        confirm_fits(s.stage, event),
        confirm_step(s, config, event).1 is End || confirm_step(s, config, event).0.stage is Remove,
    ensures
        s.stage is Push ==> event->Pushed_0 is Ok,
        s.stage is Push || s.stage is Remove,
{
}

} // verus!
