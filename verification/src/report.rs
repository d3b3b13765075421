//! Reports on branches.
use crate::config::BranchKind;
use crate::strings::owned;
use vstd::prelude::*;

verus! {

#[derive(Debug)]
pub struct SyncReport {
    pub entries: Vec<BranchReport>,
}

#[derive(Debug)]
pub struct BranchReport {
    pub branch: String,
    pub kind: BranchKind,
    pub status: BranchStatus,
    pub head: Option<String>,
    pub activity: bool,
    pub details: Vec<String>,
}

#[derive(Debug, Clone, Copy, PartialEq, Eq, Structural)]
pub enum BranchStatus {
    Skipped,
    Success,
    Failed,
    Conflict,
}

/// What a report on a branch says.
#[verifier::ext_equal]
pub struct Reported {
    pub branch: Seq<char>,
    pub kind: BranchKind,
    pub status: BranchStatus,
    pub head: Option<Seq<char>>,
    pub activity: bool,
    pub details: Seq<Seq<char>>,
}

impl View for BranchReport {
    type V = Reported;

    open spec fn view(&self) -> Reported {
        Reported {
            branch: self.branch@,
            kind: self.kind,
            status: self.status,
            head: crate::strings::opt_view(self.head),
            activity: self.activity,
            details: crate::strings::views(self.details@),
        }
    }
}

impl View for SyncReport {
    type V = Seq<Reported>;

    open spec fn view(&self) -> Seq<Reported> {
        Seq::new(self.entries@.len(), |i: int| self.entries@[i]@)
    }
}

pub open spec fn kind_text(kind: BranchKind) -> Seq<char> {
    match kind {
        BranchKind::Product => "Product"@,
        BranchKind::Pr => "Pr"@,
    }
}

pub open spec fn status_text(status: BranchStatus) -> Seq<char> {
    match status {
        BranchStatus::Skipped => "Skipped"@,
        BranchStatus::Success => "Success"@,
        BranchStatus::Failed => "Failed"@,
        BranchStatus::Conflict => "Conflict"@,
    }
}

pub fn kind_name(kind: BranchKind) -> (r: &'static str)
    ensures
        r@ == kind_text(kind),
{
    match kind {
        BranchKind::Product => "Product",
        BranchKind::Pr => "Pr",
    }
}

pub fn status_name(status: BranchStatus) -> (r: &'static str)
    ensures
        r@ == status_text(status),
{
    match status {
        BranchStatus::Skipped => "Skipped",
        BranchStatus::Success => "Success",
        BranchStatus::Failed => "Failed",
        BranchStatus::Conflict => "Conflict",
    }
}

/// The lines of the details.
pub open spec fn detail_lines(details: Seq<Seq<char>>) -> Seq<char>
    decreases details.len(),
{
    if details.len() == 0 {
        Seq::empty()
    } else {
        detail_lines(details.drop_last()) + "  - "@ + details.last() + "\n"@
    }
}

/// The text of a report on a branch: a line on the branch, then a line for each detail.
pub open spec fn branch_text(entry: Reported) -> Seq<char> {
    let title = "- "@ + entry.branch + " ["@ + kind_text(entry.kind) + "] "@ + status_text(
        entry.status,
    );
    let at = match entry.head {
        Some(head) => title + " @ "@ + head,
        None => title,
    };
    at + "\n"@ + detail_lines(entry.details)
}

/// The texts of the reports, each below a rule and above an empty line.
pub open spec fn entry_texts(entries: Seq<Reported>) -> Seq<char>
    decreases entries.len(),
{
    if entries.len() == 0 {
        Seq::empty()
    } else {
        entry_texts(entries.drop_last()) + "------------\n"@ + branch_text(entries.last()) + "\n"@
    }
}

/// The text of a report.
pub open spec fn report_text(entries: Seq<Reported>) -> Seq<char> {
    let title = "TermiteRS sync report\n"@ + "=====================\n\n"@;
    if entries.len() == 0 {
        title + "No branches were processed.\n"@
    } else {
        title + entry_texts(entries)
    }
}

/// Some branch of the report saw activity.
pub open spec fn any_activity(entries: Seq<Reported>) -> bool {
    exists|i: int| 0 <= i < entries.len() && (#[trigger] entries[i]).activity
}

impl Default for SyncReport {
    fn default() -> (r: SyncReport)
        ensures
            r@ == Seq::<Reported>::empty(),
    {
        let r = SyncReport { entries: Vec::new() };
        assert(r@ =~= Seq::empty());
        r
    }
}

impl SyncReport {
    pub fn push(&mut self, report: BranchReport)
        ensures
            final(self)@ == old(self)@.push(report@),
    {
        let ghost before = self@;
        self.entries.push(report);
        assert(self@ =~= before.push(report@));
    }

    pub fn render_text(&self) -> (r: String)
        ensures
            r@ == report_text(self@),
    {
        let mut out = owned("TermiteRS sync report\n");
        out.append("=====================\n\n");
        if self.entries.len() == 0 {
            out.append("No branches were processed.\n");
            return out;
        }
        let ghost title = out@;
        let mut i: usize = 0;
        assert(self@.take(0) =~= Seq::empty());
        assert(out@ =~= title + entry_texts(self@.take(0)));
        while i < self.entries.len()
            invariant
                i <= self.entries@.len(),
                out@ == title + entry_texts(self@.take(i as int)),
            decreases self.entries@.len() - i,
        {
            assert(self@.take(i + 1).drop_last() =~= self@.take(i as int));
            assert(self@.take(i + 1).last() == self.entries@[i as int]@);
            out.append("------------\n");
            out.append(self.entries[i].render_text().as_str());
            out.append("\n");
            assert(out@ =~= title + entry_texts(self@.take(i + 1)));
            i += 1;
        }
        assert(self@.take(self@.len() as int) =~= self@);
        out
    }

    /// Whether some branch saw activity.
    pub fn has_activity(&self) -> (r: bool)
        ensures
            r == any_activity(self@),
    {
        let mut i: usize = 0;
        while i < self.entries.len()
            invariant
                i <= self.entries@.len(),
                forall|k: int| 0 <= k < i ==> !(#[trigger] self@[k]).activity,
            decreases self.entries@.len() - i,
        {
            if self.entries[i].activity {
                assert(self@[i as int].activity);
                return true;
            }
            assert(!self@[i as int].activity);
            i += 1;
        }
        false
    }
}

impl BranchReport {
    pub fn new(branch: &str, kind: BranchKind, status: BranchStatus) -> (r: BranchReport)
        ensures
            r@ == (Reported {
                branch: branch@,
                kind,
                status,
                head: None,
                activity: false,
                details: Seq::empty(),
            }),
    {
        let r = BranchReport {
            branch: owned(branch),
            kind,
            status,
            head: None,
            activity: false,
            details: Vec::new(),
        };
        assert(r@.details =~= Seq::empty());
        r
    }

    pub fn detail(self, detail: &str) -> (r: BranchReport)
        ensures
            r@ == (Reported { details: self@.details.push(detail@), ..self@ }),
    {
        let mut report = self;
        report.push_detail(owned(detail));
        report
    }

    pub fn push_detail(&mut self, detail: String)
        ensures
            final(self)@ == (Reported { details: old(self)@.details.push(detail@), ..old(self)@ }),
    {
        crate::strings::push_string(&mut self.details, detail);
    }

    pub fn active(self) -> (r: BranchReport)
        ensures
            r@ == (Reported { activity: true, ..self@ }),
    {
        let mut report = self;
        report.activity = true;
        report
    }

    pub fn mark_active(&mut self)
        ensures
            final(self)@ == (Reported { activity: true, ..old(self)@ }),
    {
        self.activity = true;
    }

    pub fn render_text(&self) -> (r: String)
        ensures
            r@ == branch_text(self@),
    {
        let mut out = owned("- ").concat(self.branch.as_str()).concat(" [").concat(
            kind_name(self.kind),
        ).concat("] ").concat(status_name(self.status));
        match &self.head {
            Some(head) => {
                out.append(" @ ");
                out.append(head.as_str());
            },
            None => {},
        }
        out.append("\n");
        let ghost title = out@;
        let ghost all = crate::strings::views(self.details@);
        let mut i: usize = 0;
        assert(all.take(0) =~= Seq::empty());
        assert(out@ =~= title + detail_lines(all.take(0)));
        while i < self.details.len()
            invariant
                i <= self.details@.len(),
                all == crate::strings::views(self.details@),
                out@ == title + detail_lines(all.take(i as int)),
            decreases self.details@.len() - i,
        {
            assert(all.take(i + 1).drop_last() =~= all.take(i as int));
            out.append("  - ");
            out.append(self.details[i].as_str());
            out.append("\n");
            assert(out@ =~= title + detail_lines(all.take(i + 1)));
            i += 1;
        }
        assert(all.take(all.len() as int) =~= all);
        out
    }
}

} // verus!
