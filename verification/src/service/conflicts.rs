//! Conflicts that wait for a decision.
use crate::conflict::resolve_conflict_files;
use crate::config::SyncStrategy;
use crate::git::ConflictFileContent;
use crate::llm::{ConflictOptionsDecision, ConflictProposal, ConflictResolutionProposal};
use crate::service::types::{ConversationMessage, StoredProposal};
use crate::service::util::{deterministic_proposal, ensure_state, proposal_diff, validate_files};
use crate::strings::{join_with, owned, push_string, same, usize_to_string};
use vstd::prelude::*;

verus! {

/// The lines of a conversation.
pub open spec fn message_lines(messages: Seq<ConversationMessage>) -> Seq<Seq<char>> {
    Seq::new(messages.len(), |i: int| messages[i].role@ + ": "@ + messages[i].content@)
}

/// The conversation as the model is shown it.
pub fn conversation_text(messages: &Vec<ConversationMessage>) -> (r: String)
    ensures
        r@ == (if messages@.len() == 0 {
            "尚无人工补充要求"@
        } else {
            crate::strings::join(message_lines(messages@), "\n"@)
        }),
{
    if messages.len() == 0 {
        return owned("尚无人工补充要求");
    }
    let mut lines: Vec<String> = Vec::new();
    let mut i: usize = 0;
    assert(crate::strings::views(lines@) =~= message_lines(messages@).take(0));
    while i < messages.len()
        invariant
            i <= messages@.len(),
            crate::strings::views(lines@) == message_lines(messages@).take(i as int),
        decreases messages@.len() - i,
    {
        push_string(
            &mut lines,
            owned(messages[i].role.as_str()).concat(": ").concat(messages[i].content.as_str()),
        );
        assert(crate::strings::views(lines@) =~= message_lines(messages@).take(i + 1));
        i += 1;
    }
    assert(message_lines(messages@).take(messages@.len() as int) =~= message_lines(messages@));
    join_with(&lines, "\n")
}

pub open spec fn option_titles(options: ConflictOptionsDecision) -> Seq<Seq<char>> {
    Seq::new(options.options@.len(), |i: int| options.options@[i].title@)
}

/// What the conversation keeps of the ways out that the model offers.
pub fn options_message(options: &ConflictOptionsDecision) -> (r: String)
    ensures
        r@ == "已生成 "@ + crate::strings::decimal(options.options@.len()) + " 个方案："@
            + crate::strings::join(option_titles(*options), "、"@),
{
    let mut titles: Vec<String> = Vec::new();
    let mut i: usize = 0;
    assert(crate::strings::views(titles@) =~= option_titles(*options).take(0));
    while i < options.options.len()
        invariant
            i <= options.options@.len(),
            crate::strings::views(titles@) == option_titles(*options).take(i as int),
        decreases options.options@.len() - i,
    {
        push_string(&mut titles, options.options[i].title.clone());
        assert(crate::strings::views(titles@) =~= option_titles(*options).take(i + 1));
        i += 1;
    }
    assert(option_titles(*options).take(options.options@.len() as int) =~= option_titles(*options));
    owned("已生成 ").concat(usize_to_string(options.options.len()).as_str()).concat(
        " 个方案：",
    ).concat(join_with(&titles, "、").as_str())
}

/// The states in which a conflict can be talked about.
pub open spec fn guided(state: Seq<char>) -> bool {
    state == "waiting_guidance"@ || state == "test_failed"@
}

pub open spec fn wrong_state(state: Seq<char>) -> Seq<char> {
    "任务状态 "@ + state + " 不允许执行该操作"@
}

fn ensure_guided(state: &str) -> (r: Result<(), String>)
    ensures
        match r {
            Ok(_) => guided(state@),
            Err(words) => !guided(state@) && words@ == wrong_state(state@),
        },
{
    let allowed = ["waiting_guidance", "test_failed"];
    let ghost names = crate::strings::str_views(allowed@);
    assert(names =~= seq!["waiting_guidance"@, "test_failed"@]);
    assert(names[0] == "waiting_guidance"@ && names[1] == "test_failed"@);
    ensure_state(state, &allowed)
}

/// Lets a message be added to the conversation on a conflict.
pub fn add_message(state: &str) -> (r: Result<(), String>)
    ensures
        match r {
            Ok(_) => guided(state@),
            Err(words) => !guided(state@) && words@ == wrong_state(state@),
        },
{
    ensure_guided(state)
}

/// The way out that has this id.
pub open spec fn option_at(options: ConflictOptionsDecision, id: Seq<char>, i: int) -> Option<int>
    decreases options.options@.len() - i,
{
    if i >= options.options@.len() {
        None
    } else if options.options@[i].id@ == id {
        Some(i)
    } else {
        option_at(options, id, i + 1)
    }
}

/// The way out that was chosen.
pub fn find_option(options: &Option<ConflictOptionsDecision>, option_id: &str) -> (r: Result<
    usize,
    String,
>)
    ensures
        match r {
            Ok(i) => options is Some && i < options->0.options@.len() && option_at(
                options->0,
                option_id@,
                0,
            ) == Some(i as int),
            Err(words) => match *options {
                None => words@ == "当前任务没有可选方案"@,
                Some(options) => option_at(options, option_id@, 0) is None && words@
                    == "选择的方案不存在"@,
            },
        },
{
    match options {
        None => Err(owned("当前任务没有可选方案")),
        Some(list) => {
            let mut i: usize = 0;
            while i < list.options.len()
                invariant
                    i <= list.options@.len(),
                    *options is Some,
                    options->0 == *list,
                    option_at(*list, option_id@, 0) == option_at(*list, option_id@, i as int),
                decreases list.options@.len() - i,
            {
                if same(list.options[i].id.as_str(), option_id) {
                    return Ok(i);
                }
                i += 1;
            }
            Err(owned("选择的方案不存在"))
        },
    }
}

/// Lets a proposal be made: the conflict is open, its files are known and the way out is one of
/// those that were offered.
pub fn mark_generating_proposal(
    state: &str,
    conflict_files: &Vec<String>,
    options: &Option<ConflictOptionsDecision>,
    option_id: &str,
) -> (r: Result<(), String>)
    ensures
        match r {
            Ok(_) => guided(state@) && conflict_files@.len() > 0 && options is Some && option_at(
                options->0,
                option_id@,
                0,
            ) is Some,
            Err(words) => if !guided(state@) {
                words@ == wrong_state(state@)
            } else if conflict_files@.len() == 0 {
                words@ == crate::service::util::nothing_to_take()
            } else {
                match *options {
                    None => words@ == "当前任务没有可选方案"@,
                    Some(options) => option_at(options, option_id@, 0) is None && words@
                        == "选择的方案不存在"@,
                }
            },
        },
{
    match ensure_guided(state) {
        Err(words) => {
            return Err(words);
        },
        Ok(()) => {},
    }
    if conflict_files.len() == 0 {
        return Err(
            owned(
                "当前任务没有可用于生成候选修改的冲突文件内容，请放弃后重新同步生成新的冲突现场",
            ),
        );
    }
    match find_option(options, option_id) {
        Err(words) => Err(words),
        Ok(_) => Ok(()),
    }
}

/// The files of a proposal, where they can stand in the place of those in conflict: one side
/// throughout, or the files with the conflicts that the model resolved.
pub open spec fn proposal_files(
    files: Seq<ConflictFileContent>,
    option_id: Seq<char>,
    sync: SyncStrategy,
    decision: Option<ConflictResolutionProposal>,
    conflict_files: Seq<Seq<char>>,
) -> Result<Seq<(Seq<char>, Seq<char>)>, Seq<char>> {
    let made = match crate::service::util::standing_choice(option_id, sync) {
        Some((_, side)) => if files.len() == 0 {
            Err(crate::service::util::nothing_to_take())
        } else {
            match crate::service::util::sides_fault(files, side, 0) {
                Some(words) => Err(words),
                None => Ok(crate::service::util::sides(files, side)),
            }
        },
        None => match decision {
            None => Err("DeepSeek 未启用"@),
            Some(decision) => match crate::conflict::resolved(files, decision.resolutions@) {
                Err(fault) => Err(fault.words()),
                Ok(texts) => Ok(Seq::new(files.len(), |i: int| (files[i].path@, texts[i]))),
            },
        },
    };
    match made {
        Err(words) => Err(words),
        Ok(result) => match crate::service::util::file_texts_fault(result, conflict_files) {
            Some(words) => Err(words),
            None => Ok(result),
        },
    }
}

/// The summary of a proposal.
pub open spec fn proposal_summary(
    option_id: Seq<char>,
    sync: SyncStrategy,
    decision: Option<ConflictResolutionProposal>,
) -> Seq<char> {
    match crate::service::util::standing_choice(option_id, sync) {
        Some((summary, _)) => summary,
        None => decision->0.summary@,
    }
}

/// Makes the proposal that is kept until it is agreed to. Where the option needs no model, the
/// decision is not looked at.
pub fn generate_proposal(
    files: &Vec<ConflictFileContent>,
    option_id: &str,
    sync: SyncStrategy,
    requirements: &str,
    decision: Option<ConflictResolutionProposal>,
    conflict_files: &Vec<String>,
) -> (r: Result<StoredProposal, String>)
    ensures
        ({
            let made = proposal_files(
                files@,
                option_id@,
                sync,
                decision,
                crate::strings::views(conflict_files@),
            );
            match r {
                Ok(stored) => {
                    let texts = crate::service::work::file_texts(stored.files@);
                    &&& made == Ok::<Seq<(Seq<char>, Seq<char>)>, Seq<char>>(texts)
                    &&& stored.summary@ == proposal_summary(option_id@, sync, decision)
                    &&& crate::service::util::diffs(files@, texts, texts.len() as int) == Ok::<
                        Seq<char>,
                        Seq<char>,
                    >(stored.diff@)
                    &&& stored.selected_option@ == option_id@
                    &&& stored.requirements@ == requirements@
                },
                Err(words) => match made {
                    Err(fault) => words@ == fault,
                    Ok(texts) => crate::service::util::diffs(files@, texts, texts.len() as int) == Err::<
                        Seq<char>,
                        Seq<char>,
                    >(words@),
                },
            }
        }),
{
    let proposal = match deterministic_proposal(files, option_id, sync) {
        Err(words) => {
            return Err(words);
        },
        Ok(Some(proposal)) => proposal,
        Ok(None) => match decision {
            None => {
                return Err(owned("DeepSeek 未启用"));
            },
            Some(decision) => match resolve_conflict_files(
                files.as_slice(),
                decision.resolutions.as_slice(),
            ) {
                Err(error) => {
                    return Err(error.message());
                },
                Ok(result) => {
                    let ghost texts = crate::conflict::resolved(files@, decision.resolutions@)->Ok_0;
                    assert(crate::service::work::file_texts(result@) =~= Seq::new(
                        files@.len(),
                        |i: int| (files@[i].path@, texts[i]),
                    ));
                    ConflictProposal { summary: decision.summary.clone(), files: result }
                },
            },
        },
    };
    match validate_files(&proposal.files, conflict_files) {
        Err(words) => {
            return Err(words);
        },
        Ok(()) => {},
    }
    match proposal_diff(files, &proposal) {
        Err(words) => Err(words),
        Ok(diff) => Ok(
            StoredProposal {
                summary: proposal.summary,
                files: proposal.files,
                diff,
                selected_option: owned(option_id),
                requirements: owned(requirements),
            },
        ),
    }
}

/// Lets a proposal be applied.
pub fn mark_applying(state: &str, has_proposal: bool) -> (r: Result<(), String>)
    ensures
        match r {
            Ok(_) => guided(state@) && has_proposal,
            Err(words) => if !guided(state@) {
                words@ == wrong_state(state@)
            } else {
                !has_proposal && words@ == "请先生成候选修改"@
            },
        },
{
    match ensure_guided(state) {
        Err(words) => {
            return Err(words);
        },
        Ok(()) => {},
    }
    if has_proposal {
        Ok(())
    } else {
        Err(owned("请先生成候选修改"))
    }
}

} // verus!
