//! Who is told what, and when.
use vstd::prelude::*;

use crate::config::{NotifyConfig, NotifyPolicyMode, SmtpTlsMode};
use crate::daemon::ManagedSyncJob;
use crate::notify::Sending;
use crate::report::Reported;

verus! {

/// Sending ends with the first success exactly where the policy says so.
pub proof fn law_when_sending_ends(mode: NotifyPolicyMode)
    ensures
        crate::notify::stops_after_success(mode) <==> mode is FirstSuccess
            || mode is PrimaryWithFallback,
{
}

/// The channel of that number is there and switched on: one of the list, or the mail address where there
/// is no list.
pub open spec fn is_on(config: NotifyConfig, i: int) -> bool {
    if config.channels@.len() > 0 {
        0 <= i < config.channels@.len() && config.channels@[i].enabled
    } else {
        i == 0 && (config.email matches Some(email) && email.enabled)
    }
}

proof fn lemma_next_channel(config: NotifyConfig, i: int)
    requires
        0 <= i,
    ensures
        match crate::notify::next_channel(config, i) {
            Some(k) => i <= k && is_on(config, k) && forall|j: int| i <= j < k ==> !#[trigger] is_on(
                config,
                j,
            ),
            None => forall|j: int| i <= j ==> !#[trigger] is_on(config, j),
        },
    decreases crate::notify::channel_count(config) - i,
{
    if i < crate::notify::channel_count(config) {
        assert(is_on(config, i) == crate::notify::channel_on(config, i));
        if !crate::notify::channel_on(config, i) {
            lemma_next_channel(config, i + 1);
        }
    }
}

/// The next channel to be tried is the first that is on; none that is on is passed over, and a notice
/// has failed only when all that are left are off and none took it.
pub proof fn law_no_channel_is_passed_over(
    config: NotifyConfig,
    i: int,
    sent: bool,
    errors: Seq<Seq<char>>,
)
    requires
        0 <= i,
    ensures
        match crate::notify::onward(config, i, sent, errors) {
            Sending::Send(k) => i <= k && is_on(config, k) && forall|j: int|
                i <= j < k ==> !#[trigger] is_on(config, j),
            Sending::Done(true) => sent && forall|j: int| i <= j ==> !#[trigger] is_on(config, j),
            Sending::Done(false) => !sent && errors.len() == 0 && forall|j: int|
                i <= j ==> !#[trigger] is_on(config, j),
            Sending::Fail(_) => !sent && errors.len() > 0 && forall|j: int|
                i <= j ==> !#[trigger] is_on(config, j),
        },
{
    lemma_next_channel(config, i);
}

/// The port that mail goes to where none is named.
pub proof fn law_ports_of_mail()
    ensures
        crate::notify::smtp_port_of(Some(SmtpTlsMode::Implicit)) == 465,
        crate::notify::smtp_port_of(Some(SmtpTlsMode::StartTls)) == 587,
        crate::notify::smtp_port_of(Some(SmtpTlsMode::Plain)) == 25,
        crate::notify::smtp_port_of(None) == 587,
{
}

/// A mail needs a sender and somebody to send it to, and by SMTP a host.
pub proof fn law_what_a_mail_needs(channel: crate::config::NotifyChannelConfig)
    ensures
        crate::notify::sender_fault(channel) is None <==> channel.from is Some && channel.to@.len() > 0,
        crate::notify::smtp_fault(channel) is None <==> channel.smtp_host is Some
            && channel.from is Some && channel.to@.len() > 0,
{
}

/// `whole` holds `part`.
pub open spec fn holds(whole: Seq<char>, part: Seq<char>) -> bool {
    exists|a: Seq<char>, b: Seq<char>| whole == #[trigger] (a + part + b)
}

pub proof fn lemma_holds_more(whole: Seq<char>, part: Seq<char>, x: Seq<char>, y: Seq<char>)
    requires
        holds(whole, part),
    ensures
        holds(x + whole + y, part),
{
    let (a, b) = choose|a: Seq<char>, b: Seq<char>| whole == #[trigger] (a + part + b);
    assert(x + whole + y =~= (x + a) + part + (b + y));
}

/// A report tells of every branch, and of every detail of it.
pub proof fn law_report_tells_of_every_branch(entries: Seq<Reported>, i: int)
    requires
        0 <= i < entries.len(),
    ensures
        holds(crate::report::report_text(entries), crate::report::branch_text(entries[i])),
{
    lemma_entries(entries, i);
    let title = "TermiteRS sync report\n"@ + "=====================\n\n"@;
    lemma_holds_more(
        crate::report::entry_texts(entries),
        crate::report::branch_text(entries[i]),
        title,
        Seq::empty(),
    );
    assert(title + crate::report::entry_texts(entries) + Seq::<char>::empty() =~= title
        + crate::report::entry_texts(entries));
}

proof fn lemma_entries(entries: Seq<Reported>, i: int)
    requires
        0 <= i < entries.len(),
    ensures
        holds(crate::report::entry_texts(entries), crate::report::branch_text(entries[i])),
    decreases entries.len(),
{
    let before = crate::report::entry_texts(entries.drop_last());
    let last = crate::report::branch_text(entries.last());
    if i < entries.len() - 1 {
        lemma_entries(entries.drop_last(), i);
        lemma_holds_more(
            before,
            crate::report::branch_text(entries[i]),
            Seq::empty(),
            "------------\n"@ + last + "\n"@,
        );
        assert(Seq::<char>::empty() + before + ("------------\n"@ + last + "\n"@)
            =~= crate::report::entry_texts(entries));
    } else {
        assert((before + "------------\n"@) + last + "\n"@ =~= crate::report::entry_texts(entries));
    }
}

/// The text of a branch names it, says how it went, and holds every detail.
pub proof fn law_branch_is_told_in_full(entry: Reported, i: int)
    ensures
        entry.head is None && entry.details.len() == 0 && entry.kind is Pr && entry.status is Success
            ==> crate::report::branch_text(entry) == "- "@ + entry.branch + " ["@ + "Pr"@ + "] "@
            + "Success"@ + "\n"@,
        entry.head is None && entry.details.len() == 0 && entry.kind is Product
            && entry.status is Conflict ==> crate::report::branch_text(entry) == "- "@ + entry.branch
            + " ["@ + "Product"@ + "] "@ + "Conflict"@ + "\n"@,
        crate::report::status_text(entry.status) == (match entry.status {
            crate::report::BranchStatus::Skipped => "Skipped"@,
            crate::report::BranchStatus::Success => "Success"@,
            crate::report::BranchStatus::Failed => "Failed"@,
            crate::report::BranchStatus::Conflict => "Conflict"@,
        }),
        0 <= i < entry.details.len() ==> holds(
            crate::report::branch_text(entry),
            "  - "@ + entry.details[i] + "\n"@,
        ),
        entry.head matches Some(head) ==> holds(crate::report::branch_text(entry), " @ "@ + head),
        holds(crate::report::branch_text(entry), entry.branch),
{
    let lines = crate::report::detail_lines(entry.details);
    let title = "- "@ + entry.branch + " ["@ + crate::report::kind_text(entry.kind) + "] "@
        + crate::report::status_text(entry.status);
    let at = match entry.head {
        Some(head) => title + " @ "@ + head,
        None => title,
    };
    assert(crate::report::branch_text(entry) == at + "\n"@ + lines);
    if entry.details.len() == 0 {
        assert(lines =~= Seq::<char>::empty());
        assert(at + "\n"@ + lines =~= at + "\n"@);
    }
    if 0 <= i < entry.details.len() {
        lemma_details(entry.details, i);
        lemma_holds_more(lines, "  - "@ + entry.details[i] + "\n"@, at + "\n"@, Seq::empty());
        assert(at + "\n"@ + lines + Seq::<char>::empty() =~= at + "\n"@ + lines);
    }
    if entry.head is Some {
        let head = entry.head->0;
        assert(title + (" @ "@ + head) + ("\n"@ + lines) =~= at + "\n"@ + lines);
    }
    let rest = " ["@ + crate::report::kind_text(entry.kind) + "] "@ + crate::report::status_text(
        entry.status,
    );
    let tail = match entry.head {
        Some(head) => rest + " @ "@ + head + "\n"@ + lines,
        None => rest + "\n"@ + lines,
    };
    assert("- "@ + entry.branch + tail =~= at + "\n"@ + lines);
}

proof fn lemma_details(details: Seq<Seq<char>>, i: int)
    requires
        0 <= i < details.len(),
    ensures
        holds(crate::report::detail_lines(details), "  - "@ + details[i] + "\n"@),
    decreases details.len(),
{
    let before = crate::report::detail_lines(details.drop_last());
    let last = "  - "@ + details.last() + "\n"@;
    if i < details.len() - 1 {
        lemma_details(details.drop_last(), i);
        lemma_holds_more(before, "  - "@ + details[i] + "\n"@, Seq::empty(), last);
        assert(Seq::<char>::empty() + before + last =~= crate::report::detail_lines(details));
    } else {
        assert(before + last + Seq::<char>::empty() =~= crate::report::detail_lines(details));
    }
}

/// There was something to do exactly when one of the branches says so.
pub proof fn law_activity_of_a_report(entries: Seq<Reported>, i: int)
    ensures
        0 <= i < entries.len() && entries[i].activity ==> crate::report::any_activity(entries),
        (forall|k: int| 0 <= k < entries.len() ==> !(#[trigger] entries[k]).activity)
            ==> !crate::report::any_activity(entries),
{
}

/// A managed job is waited for until it is over or waits for somebody.
pub proof fn law_what_is_waited_for(state: Seq<char>)
    ensures
        crate::daemon::terminal(state) <==> state == "completed"@ || state == "failed"@ || state
            == "abandoned"@ || state == "waiting_guidance"@ || state == "test_failed"@ || state
            == "waiting_push"@,
{
}

/// Every managed job that did not complete is named, with its state and what it says; none that did is.
pub proof fn law_unfinished_jobs_are_named(jobs: Seq<ManagedSyncJob>, n: int, i: int)
    requires
        0 <= i < n <= jobs.len(),
    ensures
        jobs[i].state@ != "completed"@ ==> crate::daemon::unfinished(jobs, n).contains(
            jobs[i].branch@ + " ["@ + jobs[i].state@ + "]: "@ + jobs[i].summary@,
        ),
        crate::daemon::unfinished(jobs, n).len() == 0 ==> jobs[i].state@ == "completed"@,
        (forall|k: int| 0 <= k < n ==> (#[trigger] jobs[k]).state@ == "completed"@)
            ==> crate::daemon::unfinished(jobs, n).len() == 0,
    decreases n,
{
    let all = crate::daemon::unfinished(jobs, n);
    let rest = crate::daemon::unfinished(jobs, n - 1);
    if i < n - 1 {
        law_unfinished_jobs_are_named(jobs, n - 1, i);
        if jobs[i].state@ != "completed"@ {
            let words = jobs[i].branch@ + " ["@ + jobs[i].state@ + "]: "@ + jobs[i].summary@;
            let k = rest.index_of(words);
            assert(all[k] == words);
        }
    } else {
        if jobs[i].state@ != "completed"@ {
            assert(all[rest.len() as int] == jobs[i].branch@ + " ["@ + jobs[i].state@ + "]: "@
                + jobs[i].summary@);
        }
        lemma_all_finished(jobs, n);
    }
}

proof fn lemma_all_finished(jobs: Seq<ManagedSyncJob>, n: int)
    requires
        n <= jobs.len(),
    ensures
        (forall|k: int| 0 <= k < n ==> (#[trigger] jobs[k]).state@ == "completed"@)
            ==> crate::daemon::unfinished(jobs, n).len() == 0,
    decreases n,
{
    if n > 0 {
        lemma_all_finished(jobs, n - 1);
    }
}

} // verus!
