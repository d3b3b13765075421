//! Jobs that look into security problems.
use crate::protection::investigate::SignalInvestigationOutput;
use crate::strings::{join_with, owned, push_string, usize_to_string};
use vstd::prelude::*;

verus! {

/// What a job keeps of an investigation.
#[derive(Debug)]
pub struct InvestigationRecord {
    pub risk: String,
    pub summary: String,
    pub worktree_path: String,
    pub state: &'static str,
    pub state_summary: String,
}

/// The project is affected.
pub open spec fn is_affected(output: SignalInvestigationOutput) -> bool {
    output.finding.affected == Some(true)
}

fn affected(output: &SignalInvestigationOutput) -> (r: bool)
    ensures
        r == is_affected(*output),
{
    match output.finding.affected {
        Some(yes) => yes,
        None => false,
    }
}

/// The work tree of the candidate, empty where there is none.
pub open spec fn candidate_tree(output: SignalInvestigationOutput) -> Seq<char> {
    match output.candidate {
        Some(candidate) => candidate.worktree_path@,
        None => Seq::empty(),
    }
}

/// What a job keeps of an investigation.
pub fn execute_protection_investigation(output: &SignalInvestigationOutput) -> (r: InvestigationRecord)
    ensures
        r.risk@ == (if is_affected(*output) {
            output.finding.severity@
        } else {
            "none"@
        }),
        r.summary@ == output.finding.summary@,
        r.worktree_path@ == candidate_tree(*output),
        match output.candidate_error {
            Some(error) => r.state@ == "failed"@ && r.state_summary@ == "安全候选失败关闭："@ + error@,
            None => r.state@ == "completed"@ && r.state_summary@ == (if is_affected(*output) {
                "安全消息已调查，候选和投送草稿等待人工处理"@
            } else {
                "安全消息调查完成，当前无需修复"@
            }),
        },
{
    let hit = affected(output);
    let risk = if hit {
        output.finding.severity.clone()
    } else {
        owned("none")
    };
    let worktree_path = match &output.candidate {
        Some(candidate) => candidate.worktree_path.clone(),
        None => String::new(),
    };
    let (state, state_summary) = match &output.candidate_error {
        Some(error) => ("failed", owned("安全候选失败关闭：").concat(error.as_str())),
        None => if hit {
            ("completed", owned("安全消息已调查，候选和投送草稿等待人工处理"))
        } else {
            ("completed", owned("安全消息调查完成，当前无需修复"))
        },
    };
    InvestigationRecord {
        risk,
        summary: output.finding.summary.clone(),
        worktree_path,
        state,
        state_summary,
    }
}

/// What the investigations of a row of advisories came to.
#[derive(Debug)]
pub struct AdvisoryTally {
    pub affected: usize,
    pub failures: Vec<String>,
    pub last_worktree: String,
}

/// How an advisory is marked.
#[derive(Debug)]
pub struct AdvisoryMark {
    pub state: &'static str,
    pub error: Option<String>,
}

/// The tally after one more investigation.
pub open spec fn tallied(
    affected: nat,
    failures: Seq<Seq<char>>,
    last_worktree: Seq<char>,
    id: Seq<char>,
    result: Result<SignalInvestigationOutput, String>,
) -> (nat, Seq<Seq<char>>, Seq<char>) {
    match result {
        Err(words) => (affected, failures.push(id + ": "@ + words@), last_worktree),
        Ok(output) => (
            affected + if is_affected(output) {
                1nat
            } else {
                0nat
            },
            match output.candidate_error {
                Some(error) => failures.push(id + ": "@ + error@),
                None => failures,
            },
            match output.candidate {
                Some(candidate) => candidate.worktree_path@,
                None => last_worktree,
            },
        ),
    }
}

impl AdvisoryTally {
    pub fn new() -> (r: AdvisoryTally)
        ensures
            r.affected == 0,
            r.failures@.len() == 0,
            r.last_worktree@.len() == 0,
    {
        AdvisoryTally { affected: 0, failures: Vec::new(), last_worktree: String::new() }
    }

    /// Takes one more investigation in, and says how its advisory is marked.
    pub fn take(&mut self, id: &str, result: &Result<SignalInvestigationOutput, String>) -> (r:
        AdvisoryMark)
        requires
            old(self).affected < usize::MAX,
        ensures
            ({
                let next = tallied(
                    old(self).affected as nat,
                    crate::strings::views(old(self).failures@),
                    old(self).last_worktree@,
                    id@,
                    *result,
                );
                &&& final(self).affected == next.0
                &&& crate::strings::views(final(self).failures@) == next.1
                &&& final(self).last_worktree@ == next.2
            }),
            match *result {
                Err(words) => r.state@ == "failed"@ && r.error is Some && r.error->0@ == words@,
                Ok(output) => match output.candidate_error {
                    Some(error) => r.state@ == "failed"@ && r.error is Some && r.error->0@ == error@,
                    None => r.state@ == "completed"@ && r.error is None,
                },
            },
    {
        match result {
            Err(words) => {
                push_string(&mut self.failures, owned(id).concat(": ").concat(words.as_str()));
                AdvisoryMark { state: "failed", error: Some(words.clone()) }
            },
            Ok(output) => {
                if affected(output) {
                    self.affected = self.affected + 1;
                }
                match &output.candidate {
                    Some(candidate) => {
                        self.last_worktree = candidate.worktree_path.clone();
                    },
                    None => {},
                }
                match &output.candidate_error {
                    Some(error) => {
                        push_string(
                            &mut self.failures,
                            owned(id).concat(": ").concat(error.as_str()),
                        );
                        AdvisoryMark { state: "failed", error: Some(error.clone()) }
                    },
                    None => AdvisoryMark { state: "completed", error: None },
                }
            },
        }
    }

    /// What the job keeps when all advisories are looked into.
    pub fn finish(&self) -> (r: InvestigationRecord)
        ensures
            r.risk@ == (if self.affected > 0 {
                "security"@
            } else {
                "none"@
            }),
            r.summary@ == "OSV 调查完成：影响 "@ + crate::strings::decimal(self.affected as nat)
                + " 项，失败 "@ + crate::strings::decimal(self.failures@.len()) + " 项"@,
            r.worktree_path@ == self.last_worktree@,
            if self.failures@.len() == 0 {
                r.state@ == "completed"@ && r.state_summary@ == "OSV 依赖安全公告调查完成"@
            } else {
                r.state@ == "failed"@ && r.state_summary@ == "OSV 调查失败关闭："@
                    + crate::strings::join(crate::strings::views(self.failures@), " | "@)
            },
    {
        let risk = if self.affected > 0 {
            owned("security")
        } else {
            owned("none")
        };
        let summary = owned("OSV 调查完成：影响 ").concat(
            usize_to_string(self.affected).as_str(),
        ).concat(" 项，失败 ").concat(usize_to_string(self.failures.len()).as_str()).concat(" 项");
        let (state, state_summary) = if self.failures.len() == 0 {
            ("completed", owned("OSV 依赖安全公告调查完成"))
        } else {
            (
                "failed",
                owned("OSV 调查失败关闭：").concat(join_with(&self.failures, " | ").as_str()),
            )
        };
        InvestigationRecord {
            risk,
            summary,
            worktree_path: self.last_worktree.clone(),
            state,
            state_summary,
        }
    }
}

} // verus!
