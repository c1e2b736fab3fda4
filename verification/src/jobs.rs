//! The course of a command over many items: how each of them ends, what the user
//! is told of it, and how many of them failed.

use crate::text::{concat2, concat3, decimal, push_decimal};
use vstd::prelude::*;
use vstd::string::*;

verus! {

// ---------------------------------------------------------------------------
// Counting
// ---------------------------------------------------------------------------

/// A command that goes over many items.
#[derive(Clone, Copy, Debug, PartialEq, Eq, Structural)]
pub enum Job {
    Unpack,
    Repack,
    Extract,
    Import,
}

/// How many items there are, how many of them have ended, and how many of those
/// have failed.
pub struct Tally {
    total: u32,
    ended: u32,
    failed: u32,
}

/// The numbers of a tally.
#[verifier::ext_equal]
pub struct TallyModel {
    pub total: int,
    pub ended: int,
    pub failed: int,
}

impl View for Tally {
    type V = TallyModel;

    closed spec fn view(&self) -> TallyModel {
        TallyModel {
            total: self.total as int,
            ended: self.ended as int,
            failed: self.failed as int,
        }
    }
}

/// The tally after an item ended.
pub open spec fn counted(tally: TallyModel, failed: bool) -> TallyModel {
    TallyModel {
        total: tally.total,
        ended: tally.ended + 1,
        failed: if failed {
            tally.failed + 1
        } else {
            tally.failed
        },
    }
}

/// The tally after items ended, one after the other.
pub open spec fn counted_all(tally: TallyModel, failures: Seq<bool>) -> TallyModel
    decreases failures.len(),
{
    if failures.len() == 0 {
        tally
    } else {
        counted(counted_all(tally, failures.drop_last()), failures.last())
    }
}

impl TallyModel {
    /// Only items that have ended can have failed, and only items that there are can
    /// have ended.
    pub open spec fn wf(self) -> bool {
        0 <= self.failed <= self.ended <= self.total <= u32::MAX
    }
}

impl Tally {
    /// The tally of items none of which has ended.
    pub fn new(total: usize) -> (tally: Tally)
        requires
            total <= u32::MAX,
        ensures
            tally@ == (TallyModel { total: total as int, ended: 0, failed: 0 }),
            tally@.wf(),
    {
        Tally { total: total as u32, ended: 0, failed: 0 }
    }

    /// How many items there are.
    pub fn total(&self) -> (total: u32)
        ensures
            total == self@.total,
    {
        self.total
    }

    /// How many items have ended.
    pub fn ended(&self) -> (ended: u32)
        ensures
            ended == self@.ended,
    {
        self.ended
    }

    /// There is one more item.
    pub fn expect_one(&mut self)
        requires
            old(self)@.wf(),
            old(self)@.total < u32::MAX,
        ensures
            final(self)@ == (TallyModel { total: old(self)@.total + 1, ..old(self)@ }),
            final(self)@.wf(),
    {
        self.total = self.total + 1;
    }

    /// An item has ended.
    pub fn count(&mut self, failed: bool)
        requires
            old(self)@.wf(),
            old(self)@.ended < old(self)@.total,
        ensures
            final(self)@ == counted(old(self)@, failed),
            final(self)@.wf(),
    {
        self.ended = self.ended + 1;
        if failed {
            self.failed = self.failed + 1;
        }
    }

    /// How many items have not failed.
    pub fn succeeded(&self) -> (succeeded: u32)
        requires
            self@.wf(),
        ensures
            succeeded == self@.total - self@.failed,
    {
        self.total - self.failed
    }

    /// What the user is told in the end.
    pub fn summary(&self, job: Job) -> (summary: String)
        requires
            self@.wf(),
        ensures
            summary@ == summary_of(job, self@),
    {
        let (verb, noun) = match job {
            Job::Unpack => ("Unpacked", " descriptors"),
            Job::Repack => ("Repacked", " descriptors"),
            Job::Extract => ("Extracted", " content blobs"),
            Job::Import => ("Imported", " content blobs"),
        };
        let mut summary = concat2(verb, " a total of ");
        push_decimal(&mut summary, self.succeeded() as u64);
        summary.append("/");
        push_decimal(&mut summary, self.total as u64);
        summary.append(noun);
        summary
    }
}

/// What the user is told in the end.
pub open spec fn summary_of(job: Job, tally: TallyModel) -> Seq<char> {
    let (verb, noun) = match job {
        Job::Unpack => ("Unpacked"@, " descriptors"@),
        Job::Repack => ("Repacked"@, " descriptors"@),
        Job::Extract => ("Extracted"@, " content blobs"@),
        Job::Import => ("Imported"@, " content blobs"@),
    };
    verb + " a total of "@ + decimal((tally.total - tally.failed) as nat) + "/"@ + decimal(
        tally.total as nat,
    ) + noun
}

/// How many of the items failed.
pub open spec fn failure_count(failures: Seq<bool>) -> nat
    decreases failures.len(),
{
    if failures.len() == 0 {
        0
    } else {
        failure_count(failures.drop_last()) + if failures.last() {
            1nat
        } else {
            0nat
        }
    }
}

/// However items end, the tally ends with exactly as many failures as there were,
/// as long as no more items end than there are.
pub proof fn law_tally_counts_failures(total: int, failures: Seq<bool>)
    requires
        failures.len() <= total <= u32::MAX,
    ensures
        counted_all(TallyModel { total, ended: 0, failed: 0 }, failures) == (TallyModel {
            total,
            ended: failures.len() as int,
            failed: failure_count(failures) as int,
        }),
        counted_all(TallyModel { total, ended: 0, failed: 0 }, failures).wf(),
    decreases failures.len(),
{
    if failures.len() > 0 {
        law_tally_counts_failures(total, failures.drop_last());
    }
}

// ---------------------------------------------------------------------------
// How an item ends
// ---------------------------------------------------------------------------

/// What the user is told of an item.
#[derive(Debug, PartialEq, Eq)]
pub enum Notice {
    /// Nothing.
    Quiet,
    /// A warning.
    Warning(String),
    /// An error.
    Problem(String),
}

/// How an item ends: whether it counts as failed, and what the user is told.
#[derive(Debug, PartialEq, Eq)]
pub struct Ending {
    pub failed: bool,
    pub notice: Notice,
}

/// The model of what the user is told.
#[verifier::ext_equal]
pub enum NoticeModel {
    Quiet,
    Warning(Seq<char>),
    Problem(Seq<char>),
}

/// The model of how an item ends.
#[verifier::ext_equal]
pub struct EndingModel {
    pub failed: bool,
    pub notice: NoticeModel,
}

impl View for Ending {
    type V = EndingModel;

    open spec fn view(&self) -> EndingModel {
        EndingModel {
            failed: self.failed,
            notice: match self.notice {
                Notice::Quiet => NoticeModel::Quiet,
                Notice::Warning(text) => NoticeModel::Warning(text@),
                Notice::Problem(text) => NoticeModel::Problem(text@),
            },
        }
    }
}

/// An item that ended well.
pub open spec fn done() -> EndingModel {
    EndingModel { failed: false, notice: NoticeModel::Quiet }
}

/// An item that failed: what was being done, with what, and why it failed.
pub open spec fn failure(what: Seq<char>, item: Seq<char>, reason: Seq<char>) -> EndingModel {
    EndingModel {
        failed: true,
        notice: NoticeModel::Problem(what + "`"@ + item + "`: "@ + reason),
    }
}

/// An item that ended well.
pub(crate) fn end_done() -> (ending: Ending)
    ensures
        ending@ == done(),
{
    Ending { failed: false, notice: Notice::Quiet }
}

/// An item that failed.
pub(crate) fn end_failed(what: &str, item: &str, reason: &str) -> (ending: Ending)
    ensures
        ending@ == failure(what@, item@, reason@),
{
    let mut text = concat3(what, "`", item);
    text.append("`: ");
    text.append(reason);
    Ending { failed: true, notice: Notice::Problem(text) }
}

/// Each item that ends is one more that ended, and one more that failed if it did.
pub proof fn law_each_item_counts_once(tally: TallyModel, failed: bool)
    ensures
        counted(tally, failed).total == tally.total,
        counted(tally, failed).ended == tally.ended + 1,
        counted(tally, true).failed == tally.failed + 1,
        counted(tally, false).failed == tally.failed,
{
}

/// The summary says what was done, with how many of how many items.
pub proof fn law_what_a_summary_says(tally: TallyModel)
    ensures
        summary_of(Job::Unpack, tally) == "Unpacked"@ + " a total of "@ + decimal(
            (tally.total - tally.failed) as nat,
        ) + "/"@ + decimal(tally.total as nat) + " descriptors"@,
        summary_of(Job::Repack, tally) == "Repacked"@ + " a total of "@ + decimal(
            (tally.total - tally.failed) as nat,
        ) + "/"@ + decimal(tally.total as nat) + " descriptors"@,
        summary_of(Job::Extract, tally) == "Extracted"@ + " a total of "@ + decimal(
            (tally.total - tally.failed) as nat,
        ) + "/"@ + decimal(tally.total as nat) + " content blobs"@,
        summary_of(Job::Import, tally) == "Imported"@ + " a total of "@ + decimal(
            (tally.total - tally.failed) as nat,
        ) + "/"@ + decimal(tally.total as nat) + " content blobs"@,
{
}

/// A failure says what was being done, with what, and why it failed.
pub proof fn law_what_a_failure_says(what: Seq<char>, item: Seq<char>, reason: Seq<char>)
    ensures
        failure(what, item, reason).failed,
        failure(what, item, reason).notice == NoticeModel::Problem(
            what + "`"@ + item + "`: "@ + reason,
        ),
        !done().failed,
        done().notice is Quiet,
{
}

/// The model of an ending says what the ending says.
pub proof fn law_model_of_an_ending(failed: bool, text: String)
    ensures
        (Ending { failed, notice: Notice::Quiet })@ == (EndingModel {
            failed,
            notice: NoticeModel::Quiet,
        }),
        (Ending { failed, notice: Notice::Warning(text) })@ == (EndingModel {
            failed,
            notice: NoticeModel::Warning(text@),
        }),
        (Ending { failed, notice: Notice::Problem(text) })@ == (EndingModel {
            failed,
            notice: NoticeModel::Problem(text@),
        }),
{
}

} // verus!
