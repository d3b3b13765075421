//! What the service answers, counts and names.
use crate::command::CommandOutput;
use crate::config::{BranchConfig, EmailConfig, LlmConfig, NotifyChannelConfig, RepoConfig};
use crate::protection::investigate::SignalInvestigationOutput;
use crate::sync::{SyncDoing, SyncEvent, SyncState};
use vstd::prelude::*;

verus! {

/// A resolution by the model that cannot be tested is no success where tests are asked for: the
/// branch is reported as failed. Where none are asked for, the sync goes on.
pub proof fn law_untested_resolution_fails(
    s: SyncState,
    repo: RepoConfig,
    branch: BranchConfig,
    o: CommandOutput,
)
    requires
        crate::sync::in_range(s, branch),
        s.stage is Continue,
        o.ok(),
        branch.tests@.len() == 0,
        branch.auto_resolve.enabled,
    ensures
        ({
            let doing = crate::sync::step_of(s, repo, branch, SyncEvent::Output(o)).1;
            &&& branch.auto_resolve.require_tests ==> (doing matches SyncDoing::Done(report)
                && report.status is Failed && report.branch == branch.name@ && report.activity)
            &&& !branch.auto_resolve.require_tests ==> doing == SyncDoing::Git(
                seq!["rev-parse"@, "--short"@, "HEAD"@],
            )
        }),
{
}

/// A list in a report says how many items it has, and names every one of them in its order.
pub proof fn law_list_names_every_item(title: Seq<char>, items: Seq<Seq<char>>, i: int)
    requires
        0 <= i < items.len(),
    ensures
        ({
            let r = crate::sync::list_details(title, items);
            &&& r.len() == items.len() + 1
            &&& r[0] == title + " ("@ + crate::strings::decimal(items.len()) + "):"@
            &&& r[i + 1] == "  "@ + items[i]
        }),
{
}

/// Every result of an investigation is counted: one more is affected where it says so, every error is
/// told with the advisory that it is of, and nothing that was told before is lost.
pub proof fn law_every_result_is_counted(
    affected: nat,
    failures: Seq<Seq<char>>,
    last_worktree: Seq<char>,
    id: Seq<char>,
    result: Result<SignalInvestigationOutput, String>,
)
    ensures
        ({
            let r = crate::service::protection::tallied(
                affected,
                failures,
                last_worktree,
                id,
                result,
            );
            let hit = result is Ok && result->Ok_0.finding.affected == Some(true);
            &&& r.0 == affected + if hit {
                1nat
            } else {
                0nat
            }
            &&& forall|i: int| 0 <= i < failures.len() ==> i < r.1.len() && #[trigger] r.1[i] == failures[i]
            &&& result matches Err(words) ==> r.1.len() == failures.len() + 1 && r.1.last() == id + ": "@
                + words@ && r.2 == last_worktree
            &&& result is Ok && result->Ok_0.candidate_error is Some ==> r.1.len() == failures.len() + 1
                && r.1.last() == id + ": "@ + result->Ok_0.candidate_error->0@
            &&& result is Ok && result->Ok_0.candidate_error is None ==> r.1 == failures
            &&& result is Ok && result->Ok_0.candidate is Some ==> r.2
                == result->Ok_0.candidate->0.worktree_path@
            &&& result is Ok && result->Ok_0.candidate is None ==> r.2 == last_worktree
        }),
{
}

/// The address that is configured for the model is used; without one each known provider has its own,
/// and the others have none.
pub proof fn law_address_of_the_model(config: LlmConfig)
    ensures
        config.base_url matches Some(url) ==> crate::llm::base_url(config) == Some(url@),
        config.base_url is None && config.provider is DeepSeek ==> crate::llm::base_url(config) == Some(
            "https://api.deepseek.com"@,
        ),
        config.base_url is None && config.provider is OpenAi ==> crate::llm::base_url(config) == Some(
            "https://api.openai.com/v1"@,
        ),
        config.base_url is None && (config.provider is OpenAiCompatible || config.provider is Custom)
            ==> crate::llm::base_url(config) is None,
{
}

/// The link to a job names the job, and goes to the page that is configured whether or not its address
/// ends in a slash.
pub proof fn law_link_to_a_job(base: Seq<char>, job_id: Seq<char>)
    requires
        base.len() > 0,
        base.last() != '/',
    ensures
        crate::service::util::job_link(base, job_id) == base + "?job="@ + job_id,
        crate::service::util::job_link(base + "/"@, job_id) == base + "?job="@ + job_id,
{
    reveal_strlit("/");
    let slashed = base + "/"@;
    assert(slashed.last() == '/');
    assert(slashed.drop_last() =~= base);
    reveal_with_fuel(crate::strings::trim_back_char, 2);
}

/// What is said of a push names the tag that was published and what could not be cleaned up.
pub proof fn law_push_is_told_in_full(tag: Seq<char>, words: Seq<char>)
    ensures
        crate::laws::telling::holds(
            crate::service::security::pushed_summary(Some(tag), Some(words)),
            tag,
        ),
        crate::laws::telling::holds(
            crate::service::security::pushed_summary(Some(tag), Some(words)),
            words,
        ),
        crate::laws::telling::holds(crate::service::security::pushed_summary(Some(tag), None), tag),
        crate::laws::telling::holds(
            crate::service::security::pushed_summary(None, Some(words)),
            words,
        ),
        crate::service::security::pushed_summary(None, None)
            != crate::service::security::pushed_summary(Some(tag), None),
{
    let a = "候选修改已自动推送，并发布标签 "@;
    let b = "；清理 worktree 失败："@;
    let c = "候选修改已自动推送"@;
    let both = crate::service::security::pushed_summary(Some(tag), Some(words));
    assert(both =~= a + tag + (b + words));
    assert(both =~= (a + tag + b) + words + Seq::<char>::empty());
    assert(crate::service::security::pushed_summary(Some(tag), None) =~= a + tag + Seq::<
        char,
    >::empty());
    assert(crate::service::security::pushed_summary(None, Some(words)) =~= (c + b) + words + Seq::<
        char,
    >::empty());
    reveal_strlit("候选修改已自动推送，并发布标签 ");
    reveal_strlit("候选修改已自动推送");
    assert((a + tag).len() > c.len());
}

/// A text list in JSON holds every text in quotes, and a missing text is null.
pub proof fn law_json_list_holds_every_text(list: Seq<Seq<char>>, i: int)
    requires
        0 <= i < list.len(),
    ensures
        crate::laws::telling::holds(
            crate::json::json_list(list),
            crate::json::json_quoted(list[i]),
        ),
        crate::json::json_option(None) == "null"@,
        crate::json::json_option(Some(list[i])) == crate::json::json_quoted(list[i]),
{
    let parts = crate::json::quoted_all(list);
    crate::laws::asking::lemma_join_holds(parts, ","@, i);
    assert(parts[i] == crate::json::json_quoted(list[i]));
    crate::laws::telling::lemma_holds_more(
        crate::strings::join(parts, ","@),
        parts[i],
        "["@,
        "]"@,
    );
}

/// Of the elements of a list the texts are kept, every one of them and nothing else.
pub proof fn law_texts_are_kept(list: Seq<Option<Seq<char>>>, x: Seq<char>)
    ensures
        crate::json::present(list).contains(x) <==> list.contains(Some(x)),
        crate::json::present(list).len() <= list.len(),
    decreases list.len(),
{
    let all = crate::json::present(list);
    if list.len() > 0 {
        let head = list.drop_last();
        law_texts_are_kept(head, x);
        let rest = crate::json::present(head);
        if list.contains(Some(x)) {
            let i = list.index_of(Some(x));
            if i < head.len() {
                assert(head[i] == Some(x));
                let j = rest.index_of(x);
                assert(all[j] == x);
            } else {
                assert(all[all.len() - 1] == x);
            }
        }
        if all.contains(x) {
            let j = all.index_of(x);
            if j < rest.len() {
                assert(rest[j] == x);
                assert(rest.contains(x));
                let i = head.index_of(Some(x));
                assert(list[i] == Some(x));
            } else {
                assert(list[list.len() - 1] == Some(x));
            }
        }
    }
}

/// A mail account of an older configuration is a channel like any other: the same server, the same
/// sender, the same receivers, over a connection that is encrypted.
pub proof fn law_older_account_is_kept(channel: NotifyChannelConfig, email: EmailConfig)
    requires
        crate::notify::is_legacy(channel, email),
    ensures
        channel.enabled == email.enabled,
        channel.smtp_host == email.smtp_host,
        channel.smtp_port == Some(email.smtp_port),
        channel.username_env == email.username_env,
        channel.password_env == email.password_env,
        channel.from == email.from,
        crate::strings::views(channel.to@) == crate::strings::views(email.to@),
        channel.kind is Smtp,
        channel.tls is Some && channel.tls->0 is StartTls,
{
}

} // verus!
