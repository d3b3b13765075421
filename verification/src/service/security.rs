//! Pushes: who may start one, and how it ends.
use crate::config::{BranchConfig, Config};
use crate::service::types::{JobEnding, JobNotice};
use crate::strings::{byte_len, list_of, owned, same};
use vstd::prelude::*;

verus! {

/// How many milliseconds an attempt at the password counts.
pub const ATTEMPT_WINDOW_MILLIS: u64 = 60_000;

/// The attempts that still count at the time `now`.
pub open spec fn recent(attempts: Seq<u64>, now: u64) -> Seq<u64>
    decreases attempts.len(),
{
    if attempts.len() == 0 {
        Seq::empty()
    } else {
        let rest = recent(attempts.drop_last(), now);
        if now - attempts.last() < 60_000 {
            rest.push(attempts.last())
        } else {
            rest
        }
    }
}

/// Counts an attempt at the password at the time `now`, in milliseconds, and refuses it where five
/// others count already.
pub fn enforce_password_rate_limit(attempts: &mut Vec<u64>, now: u64) -> (r: Result<(), String>)
    ensures
        match r {
            Ok(_) => recent(old(attempts)@, now).len() < 5 && final(attempts)@ == recent(
                old(attempts)@,
                now,
            ).push(now),
            Err(words) => recent(old(attempts)@, now).len() >= 5 && final(attempts)@ == recent(
                old(attempts)@,
                now,
            ) && words@ == "操作密码尝试过于频繁，请稍后再试"@,
        },
{
    let mut kept: Vec<u64> = Vec::new();
    let ghost all = attempts@;
    let mut i: usize = 0;
    assert(all.take(0) =~= Seq::empty());
    while i < attempts.len()
        invariant
            i <= attempts@.len(),
            attempts@ == all,
            kept@ == recent(all.take(i as int), now),
        decreases attempts@.len() - i,
    {
        assert(all.take(i + 1).drop_last() =~= all.take(i as int));
        let at: u64 = attempts[i];
        if at > now || now - at < ATTEMPT_WINDOW_MILLIS {
            kept.push(at);
        }
        i += 1;
    }
    assert(all.take(all.len() as int) =~= all);
    if kept.len() >= 5 {
        *attempts = kept;
        return Err(owned("操作密码尝试过于频繁，请稍后再试"));
    }
    kept.push(now);
    *attempts = kept;
    Ok(())
}

/// What `argon2` says of a password and a hash: whether they belong together, or what is wrong with
/// the hash.
pub uninterp spec fn password_check(hash: Seq<char>, password: Seq<char>) -> Result<bool, Seq<char>>;

/// Reads the hash with `argon2::PasswordHash::new` and compares with `verify_password` of
/// `argon2::Argon2`.
///
/// The result is a function of the hash and the password.
#[verifier::external_body]
fn check_password(hash: &str, password: &str) -> (r: Result<bool, String>)
    ensures
        match r {
            Ok(good) => password_check(hash@, password@) == Ok::<bool, Seq<char>>(good),
            Err(words) => password_check(hash@, password@) == Err::<bool, Seq<char>>(words@),
        },
{
    let parsed = argon2::PasswordHash::new(hash).map_err(|e| e.to_string())?;
    let verifier = argon2::Argon2::default();
    Ok(argon2::PasswordVerifier::verify_password(&verifier, password.as_bytes(), &parsed).is_ok())
}

/// What is done with the verdict on a password.
pub fn judge_password(verdict: Result<bool, String>) -> (r: Result<(), String>)
    ensures
        match verdict {
            Ok(true) => r is Ok,
            Ok(false) => r is Err && r->Err_0@ == "操作密码错误"@,
            Err(words) => r is Err && r->Err_0@ == "操作密码哈希无效："@ + words@,
        },
{
    match verdict {
        Ok(true) => Ok(()),
        Ok(false) => Err(owned("操作密码错误")),
        Err(words) => Err(owned("操作密码哈希无效：").concat(words.as_str())),
    }
}

/// Accepts the password of the operator.
pub fn verify_operation_password(config: &Config, password: &str) -> (r: Result<(), String>)
    ensures
        match password_check(config.service.operation_password_hash@, password@) {
            Ok(true) => r is Ok,
            Ok(false) => r is Err && r->Err_0@ == "操作密码错误"@,
            Err(words) => r is Err && r->Err_0@ == "操作密码哈希无效："@ + words,
        },
{
    judge_password(check_password(config.service.operation_password_hash.as_str(), password))
}

/// The time, in seconds, as `chrono` writes it; nothing where the year is out of its range.
pub uninterp spec fn rfc3339(seconds: i64) -> Option<Seq<char>>;

/// Writes with `chrono::DateTime::from_timestamp` and `to_rfc3339`.
///
/// The result is a function of the seconds.
#[verifier::external_body]
fn write_time(seconds: i64) -> (r: Option<String>)
    ensures
        crate::strings::opt_view(r) == rfc3339(seconds),
{
    chrono::DateTime::from_timestamp(seconds, 0).map(|time| time.to_rfc3339())
}

/// A question that has to be answered with the password before a push.
#[derive(Debug, Clone)]
pub struct Challenge {
    pub job_id: String,
    pub expected_remote_head: String,
    pub expires_at: i64,
    pub used: bool,
}

/// A new challenge and the time at which it expires.
pub fn create_push_challenge(job_id: &str, state: &str, remote_head: &str, now: i64) -> (r: Result<
    (Challenge, String),
    String,
>)
    requires
        now <= i64::MAX - 300,
    ensures
        match r {
            Ok((challenge, expires)) => {
                &&& state@ == "waiting_push"@
                &&& challenge.job_id@ == job_id@
                &&& challenge.expected_remote_head@ == remote_head@
                &&& challenge.expires_at == now + 300
                &&& !challenge.used
                &&& rfc3339((now + 300) as i64) == Some(expires@)
            },
            Err(words) => if state@ == "waiting_push"@ {
                rfc3339((now + 300) as i64) is None && words@ == "invalid challenge expiry"@
            } else {
                words@ == crate::service::conflicts::wrong_state(state@)
            },
        },
{
    if !same(state, "waiting_push") {
        return Err(owned("任务状态 ").concat(state).concat(" 不允许执行该操作"));
    }
    let expires_at: i64 = now + crate::service::types::CHALLENGE_TTL_SECONDS;
    match write_time(expires_at) {
        None => Err(owned("invalid challenge expiry")),
        Some(expires) => Ok(
            (
                Challenge {
                    job_id: owned(job_id),
                    expected_remote_head: owned(remote_head),
                    expires_at,
                    used: false,
                },
                expires,
            ),
        ),
    }
}

/// Why a challenge cannot be answered.
pub open spec fn challenge_fault(challenge: Option<Challenge>, now: i64) -> Option<Seq<char>> {
    match challenge {
        None => Some("推送挑战不存在"@),
        Some(challenge) => if challenge.used {
            Some("推送挑战已经使用"@)
        } else if challenge.expires_at < now {
            Some("推送挑战已经过期"@)
        } else {
            None
        },
    }
}

/// Takes a challenge: from then on it is used.
pub fn use_challenge(challenge: &mut Option<Challenge>, now: i64) -> (r: Result<(), String>)
    ensures
        match r {
            Ok(_) => challenge_fault(*old(challenge), now) is None && *final(challenge) is Some
                && final(challenge)->0 == (Challenge { used: true, ..old(challenge)->0 }),
            Err(words) => challenge_fault(*old(challenge), now) == Some(words@) && *final(challenge)
                == *old(challenge),
        },
{
    match challenge.take() {
        None => Err(owned("推送挑战不存在")),
        Some(mut found) => {
            if found.used {
                *challenge = Some(found);
                return Err(owned("推送挑战已经使用"));
            }
            if found.expires_at < now {
                *challenge = Some(found);
                return Err(owned("推送挑战已经过期"));
            }
            found.used = true;
            *challenge = Some(found);
            Ok(())
        },
    }
}

/// Refuses the push where the remote branch has moved since the challenge was made.
pub fn check_remote(current: &str, expected: &str) -> (r: Result<(), String>)
    ensures
        match r {
            Ok(_) => current@ == expected@,
            Err(words) => current@ != expected@ && words@ == "远端 SHA 已变化，拒绝推送"@,
        },
{
    if same(current, expected) {
        Ok(())
    } else {
        Err(owned("远端 SHA 已变化，拒绝推送"))
    }
}

/// The states in which a job can be given up.
pub open spec fn can_abandon(state: Seq<char>) -> bool {
    state == "waiting_guidance"@ || state == "test_failed"@ || state == "waiting_push"@ || state
        == "failed"@
}

pub fn abandon(state: &str) -> (r: Result<(), String>)
    ensures
        match r {
            Ok(_) => can_abandon(state@),
            Err(words) => !can_abandon(state@) && words@ == crate::service::conflicts::wrong_state(
                state@,
            ),
        },
{
    if same(state, "waiting_guidance") || same(state, "test_failed") || same(state, "waiting_push")
        || same(state, "failed") {
        Ok(())
    } else {
        Err(owned("任务状态 ").concat(state).concat(" 不允许执行该操作"))
    }
}

/// The state and the summary of a job that was given up, where the clean-up succeeded or not.
pub fn abandoned(result: &Result<(), String>) -> (r: (&'static str, String))
    ensures
        match *result {
            Ok(_) => r.0@ == "abandoned"@ && r.1@ == "任务已由管理员放弃"@,
            Err(words) => r.0@ == "failed"@ && r.1@ == "放弃任务时清理失败："@ + words@,
        },
{
    match result {
        Ok(()) => ("abandoned", owned("任务已由管理员放弃")),
        Err(words) => ("failed", owned("放弃任务时清理失败：").concat(words.as_str())),
    }
}

/// The command that removes a work tree, where the job has one.
pub fn remove_worktree(worktree_path: &str) -> (r: Option<Vec<String>>)
    ensures
        match r {
            Some(args) => worktree_path@.len() > 0 && crate::strings::views(args@) == seq![
                "worktree"@,
                "remove"@,
                "--force"@,
                worktree_path@,
            ],
            None => worktree_path@.len() == 0,
        },
{
    proof {
        crate::text::lemma_no_bytes(worktree_path@);
    }
    if byte_len(worktree_path) == 0 {
        return None;
    }
    let args = ["worktree", "remove", "--force", worktree_path];
    assert(crate::strings::str_views(args@) =~= seq![
        "worktree"@,
        "remove"@,
        "--force"@,
        worktree_path@,
    ]);
    Some(list_of(&args))
}

/// The summary of a push that succeeded.
pub open spec fn pushed_summary(tag: Option<Seq<char>>, cleanup: Option<Seq<char>>) -> Seq<char> {
    let summary = match tag {
        Some(tag) => "候选修改已自动推送，并发布标签 "@ + tag,
        None => "候选修改已自动推送"@,
    };
    match cleanup {
        Some(words) => summary + "；清理 worktree 失败："@ + words,
        None => summary,
    }
}

/// How a push that was started by the service ends.
pub fn push_reviewed_job(
    branch: &BranchConfig,
    pushed: &Result<Option<String>, String>,
    cleanup_error: &Option<String>,
) -> (r: JobEnding)
    ensures
        !r.discard,
        r.output is None,
        match *pushed {
            Err(words) => {
                &&& r.state@ == "waiting_push"@
                &&& r.summary@ == "自动推送失败，等待重试："@ + words@
                &&& r.kind@ == "state"@
                &&& r.message@ == crate::service::db::state_message(r.state@, r.summary@)
                &&& r.notice is None
            },
            Ok(tag) => {
                &&& r.state@ == "completed"@
                &&& r.summary@ == pushed_summary(
                    crate::strings::opt_view(tag),
                    crate::strings::opt_view(*cleanup_error),
                )
                &&& r.kind@ == "state"@
                &&& r.message@ == crate::service::db::state_message(r.state@, r.summary@)
                &&& r@.notice == Some(("pushed"@, branch.name@ + " 已推送"@, r.summary@))
            },
        },
{
    match pushed {
        Err(words) => {
            let summary = owned("自动推送失败，等待重试：").concat(words.as_str());
            let message = owned("waiting_push").concat(": ").concat(summary.as_str());
            JobEnding {
                state: "waiting_push",
                summary,
                output: None,
                kind: "state",
                message,
                notice: None,
                discard: false,
            }
        },
        Ok(tag) => {
            let mut summary = match tag {
                Some(tag) => owned("候选修改已自动推送，并发布标签 ").concat(tag.as_str()),
                None => owned("候选修改已自动推送"),
            };
            match cleanup_error {
                Some(words) => {
                    summary.append("；清理 worktree 失败：");
                    summary.append(words.as_str());
                },
                None => {},
            }
            let message = owned("completed").concat(": ").concat(summary.as_str());
            let notice = JobNotice {
                event: "pushed",
                subject: owned(branch.name.as_str()).concat(" 已推送"),
                body: summary.clone(),
            };
            JobEnding {
                state: "completed",
                summary,
                output: None,
                kind: "state",
                message,
                notice: Some(notice),
                discard: false,
            }
        },
    }
}

/// Once taken, a challenge cannot be taken again.
pub proof fn law_challenge_is_used_once(challenge: Challenge, now: i64, later: i64)
    requires
        challenge_fault(Some(challenge), now) is None,
    ensures
        challenge_fault(Some(Challenge { used: true, ..challenge }), later) == Some(
            "推送挑战已经使用"@,
        ),
{
}

/// No more than five attempts at the password count at any time.
pub proof fn law_attempts_are_bounded(attempts: Seq<u64>, now: u64)
    requires
        attempts.len() <= 5,
    ensures
        recent(attempts, now).len() <= 5,
        recent(attempts, now).len() < 5 ==> recent(attempts, now).push(now).len() <= 5,
    decreases attempts.len(),
{
    lemma_recent_shorter(attempts, now);
}

proof fn lemma_recent_shorter(attempts: Seq<u64>, now: u64)
    ensures
        recent(attempts, now).len() <= attempts.len(),
    decreases attempts.len(),
{
    if attempts.len() > 0 {
        lemma_recent_shorter(attempts.drop_last(), now);
    }
}

} // verus!
