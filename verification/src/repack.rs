//! Putting descriptors into an archive.

use crate::error::Error;
use crate::jobs::{
    done, end_done, end_failed, failure, Ending, EndingModel, Notice, NoticeModel, Tally, TallyModel,
};
use crate::text::{concat2, decimal, push_decimal};
use vstd::prelude::*;
use vstd::string::*;

verus! {

// ---------------------------------------------------------------------------
// Descriptors
// ---------------------------------------------------------------------------

/// Where a descriptor comes from.
pub enum DescriptorSource {
    /// The file with this path.
    File(String),
    /// The line of the standard input with this number, where the first is zero.
    Line(usize),
}

/// What came of a descriptor.
pub enum RepackEvent {
    /// The file cannot be opened.
    OpenFailed(String),
    /// The text is not a descriptor.
    ParseFailed(String),
    /// The descriptor cannot be turned into a resource.
    SerializeFailed(String),
    /// The descriptor was turned into a resource.
    Serialized,
    /// The resource cannot be written.
    WriteFailed(String),
    /// The resource was written.
    Written,
}

/// What is next for a descriptor.
#[derive(Debug, PartialEq, Eq)]
pub enum RepackStep {
    /// Its resource is written.
    Write,
    /// Nothing: it has ended.
    Finish(Ending),
}

/// Whether an event can come of a descriptor. Only files are opened.
pub open spec fn can_come(source: DescriptorSource, event: RepackEvent) -> bool {
    source is File || !(event is OpenFailed)
}

/// A descriptor from the standard input that failed: what was being done, with
/// which line, and why it failed.
pub open spec fn line_failure(what: Seq<char>, line: usize, reason: Seq<char>) -> EndingModel {
    EndingModel {
        failed: true,
        notice: NoticeModel::Problem(what + decimal(line as nat) + ": "@ + reason),
    }
}

/// How a descriptor ends with an event, if it ends with it. `guid` names the
/// resource that was to be written.
pub open spec fn repack_ending(
    source: DescriptorSource,
    guid: Seq<char>,
    event: RepackEvent,
) -> Option<EndingModel> {
    match (event, source) {
        (RepackEvent::OpenFailed(reason), DescriptorSource::File(path)) => Some(
            failure("Error occurred while repacking "@, path@, reason@),
        ),
        (RepackEvent::ParseFailed(reason), DescriptorSource::File(path)) => Some(
            failure("Error occurred while repacking "@, path@, reason@),
        ),
        (RepackEvent::SerializeFailed(reason), DescriptorSource::File(path)) => Some(
            failure("Error occurred while repacking "@, path@, reason@),
        ),
        (RepackEvent::ParseFailed(reason), DescriptorSource::Line(line)) => Some(
            line_failure("Error occurred while parsing descriptor "@, line, reason@),
        ),
        (RepackEvent::SerializeFailed(reason), DescriptorSource::Line(line)) => Some(
            line_failure("Error occurred while serializing descriptor "@, line, reason@),
        ),
        (RepackEvent::WriteFailed(reason), _) => Some(
            failure("Error occurred while writing "@, guid, reason@),
        ),
        (RepackEvent::Written, _) => Some(done()),
        _ => None,
    }
}

/// A descriptor from the standard input that failed.
fn end_line_failed(what: &str, line: usize, reason: &str) -> (ending: Ending)
    ensures
        ending@ == line_failure(what@, line, reason@),
{
    let mut text = what.to_owned();
    push_decimal(&mut text, line as u64);
    text.append(": ");
    text.append(reason);
    Ending { failed: true, notice: Notice::Problem(text) }
}

/// What is next for a descriptor.
pub fn repack_step(source: &DescriptorSource, guid: &str, event: RepackEvent) -> (step: RepackStep)
    requires
        can_come(*source, event),
    ensures
        match repack_ending(*source, guid@, event) {
            Some(expected) => match step {
                RepackStep::Finish(ending) => ending@ == expected,
                RepackStep::Write => false,
            },
            None => step is Write,
        },
{
    let what = "Error occurred while repacking ";
    RepackStep::Finish(
        match (event, source) {
            (RepackEvent::OpenFailed(reason), DescriptorSource::File(path)) => end_failed(
                what,
                path.as_str(),
                reason.as_str(),
            ),
            (RepackEvent::ParseFailed(reason), DescriptorSource::File(path)) => end_failed(
                what,
                path.as_str(),
                reason.as_str(),
            ),
            (RepackEvent::SerializeFailed(reason), DescriptorSource::File(path)) => end_failed(
                what,
                path.as_str(),
                reason.as_str(),
            ),
            (RepackEvent::ParseFailed(reason), DescriptorSource::Line(line)) => end_line_failed(
                "Error occurred while parsing descriptor ",
                *line,
                reason.as_str(),
            ),
            (RepackEvent::SerializeFailed(reason), DescriptorSource::Line(line)) => end_line_failed(
                "Error occurred while serializing descriptor ",
                *line,
                reason.as_str(),
            ),
            (RepackEvent::WriteFailed(reason), _) => end_failed(
                "Error occurred while writing ",
                guid,
                reason.as_str(),
            ),
            (RepackEvent::Written, _) => end_done(),
            _ => return RepackStep::Write,
        },
    )
}

/// A descriptor fails with everything that goes wrong, wherever it comes from, and
/// goes on to be written only once it was turned into a resource.
pub proof fn law_everything_that_goes_wrong_is_a_failure(
    source: DescriptorSource,
    guid: Seq<char>,
    event: RepackEvent,
)
    requires
        can_come(source, event),
    ensures
        match repack_ending(source, guid, event) {
            Some(ending) => ending.failed == !(event is Written),
            None => event is Serialized,
        },
{
}

/// There has to be something to repack.
pub fn require_descriptors(count: usize) -> (checked: Result<(), Error>)
    ensures
        match checked {
            Ok(()) => count > 0,
            Err(error) => count == 0 && error@ == "No files found to repack"@,
        },
{
    if count > 0 {
        Ok(())
    } else {
        Err(Error("No files found to repack".to_owned()))
    }
}

// ---------------------------------------------------------------------------
// The standard input
// ---------------------------------------------------------------------------

/// The lines of the standard input, one of which is a descriptor unless it is empty.
pub struct Lines {
    next: usize,
}

/// What is done with a line.
#[derive(Debug, PartialEq, Eq)]
pub enum LineStep {
    /// The input cannot be read any more; the text says why.
    Stop(String),
    /// The line is empty, and passed over.
    Skip,
    /// The line with this number is a descriptor.
    Descriptor(usize),
}

/// The number of the next line and the tally, after a line was read. Every line has
/// a number, also an empty one, but only a descriptor counts as an item.
pub open spec fn after_line(next: int, tally: TallyModel, line: Seq<char>) -> (int, TallyModel) {
    if line.len() == 0 {
        (next + 1, tally)
    } else {
        (next + 1, TallyModel { total: tally.total + 1, ..tally })
    }
}

/// The number of the next line and the tally, after lines were read one after the
/// other.
pub open spec fn after_lines(next: int, tally: TallyModel, lines: Seq<Seq<char>>) -> (
    int,
    TallyModel,
)
    decreases lines.len(),
{
    if lines.len() == 0 {
        (next, tally)
    } else {
        let (next, tally) = after_lines(next, tally, lines.drop_last());
        after_line(next, tally, lines.last())
    }
}

/// How many lines are not empty.
pub open spec fn descriptor_count(lines: Seq<Seq<char>>) -> nat
    decreases lines.len(),
{
    if lines.len() == 0 {
        0
    } else {
        descriptor_count(lines.drop_last()) + if lines.last().len() == 0 {
            0nat
        } else {
            1nat
        }
    }
}

/// After the whole input was read, every line was numbered, and there are as many
/// items more as lines that are not empty.
pub proof fn law_each_line_with_text_is_an_item(
    next: int,
    tally: TallyModel,
    lines: Seq<Seq<char>>,
)
    ensures
        after_lines(next, tally, lines) == (
            next + lines.len(),
            (TallyModel { total: tally.total + descriptor_count(lines), ..tally }),
        ),
    decreases lines.len(),
{
    if lines.len() > 0 {
        law_each_line_with_text_is_an_item(next, tally, lines.drop_last());
    }
}

impl Lines {
    /// The number of the next line.
    pub closed spec fn next_line(&self) -> int {
        self.next as int
    }

    /// No line was read yet.
    pub fn new() -> (lines: Lines)
        ensures
            lines.next_line() == 0,
    {
        Lines { next: 0 }
    }

    /// The number of the next line.
    pub fn next_number(&self) -> (number: usize)
        ensures
            number == self.next_line(),
    {
        self.next
    }

    /// Takes in a line.
    pub fn take(&mut self, line: &Result<String, String>, tally: &mut Tally) -> (step: LineStep)
        requires
            old(self).next_line() < usize::MAX,
            old(tally)@.wf(),
            old(tally)@.total < u32::MAX,
        ensures
            final(tally)@.wf(),
            match *line {
                Err(reason) => {
                    &&& match step {
                        LineStep::Stop(text) => text@
                            == "Error occurred while reading from stdin: "@ + reason@,
                        _ => false,
                    }
                    &&& final(self).next_line() == old(self).next_line()
                    &&& final(tally)@ == old(tally)@
                },
                Ok(text) => {
                    &&& (final(self).next_line(), final(tally)@) == after_line(
                        old(self).next_line(),
                        old(tally)@,
                        text@,
                    )
                    &&& match step {
                        LineStep::Stop(_) => false,
                        LineStep::Skip => text@.len() == 0,
                        LineStep::Descriptor(number) => text@.len() > 0 && number == old(
                            self,
                        ).next_line(),
                    }
                },
            },
    {
        match line {
            Err(reason) => LineStep::Stop(
                concat2("Error occurred while reading from stdin: ", reason.as_str()),
            ),
            Ok(text) => {
                let number = self.next;
                self.next = self.next + 1;
                if text.as_str().is_empty() {
                    LineStep::Skip
                } else {
                    tally.expect_one();
                    LineStep::Descriptor(number)
                }
            },
        }
    }
}

/// What is said of a descriptor that cannot be repacked: what was being done, with which
/// file or line, and why it failed.
pub proof fn law_what_is_said_of_failed_descriptors(
    path: String,
    line: usize,
    guid: Seq<char>,
    source: DescriptorSource,
    reason: String,
    file_notice: Seq<char>,
)
    requires
        file_notice == "Error occurred while repacking "@ + "`"@ + path@ + "`: "@ + reason@,
    ensures
        repack_ending(DescriptorSource::File(path), guid, RepackEvent::OpenFailed(reason)) == Some(
            EndingModel { failed: true, notice: NoticeModel::Problem(file_notice) },
        ),
        repack_ending(DescriptorSource::File(path), guid, RepackEvent::ParseFailed(reason)) == Some(
            EndingModel { failed: true, notice: NoticeModel::Problem(file_notice) },
        ),
        repack_ending(DescriptorSource::File(path), guid, RepackEvent::SerializeFailed(reason))
            == Some(EndingModel { failed: true, notice: NoticeModel::Problem(file_notice) }),
        repack_ending(DescriptorSource::Line(line), guid, RepackEvent::ParseFailed(reason)) == Some(
            EndingModel {
                failed: true,
                notice: NoticeModel::Problem(
                    "Error occurred while parsing descriptor "@ + decimal(line as nat) + ": "@
                        + reason@,
                ),
            },
        ),
        repack_ending(DescriptorSource::Line(line), guid, RepackEvent::SerializeFailed(reason))
            == Some(
            EndingModel {
                failed: true,
                notice: NoticeModel::Problem(
                    "Error occurred while serializing descriptor "@ + decimal(line as nat) + ": "@
                        + reason@,
                ),
            },
        ),
        repack_ending(source, guid, RepackEvent::WriteFailed(reason)) == Some(
            EndingModel {
                failed: true,
                notice: NoticeModel::Problem(
                    "Error occurred while writing "@ + "`"@ + guid + "`: "@ + reason@,
                ),
            },
        ),
        repack_ending(source, guid, RepackEvent::Written) == Some(
            EndingModel { failed: false, notice: NoticeModel::Quiet },
        ),
        repack_ending(source, guid, RepackEvent::Serialized) is None,
{
}

/// Every line has a number, and each with text is one more item.
pub proof fn law_how_a_line_counts(next: int, tally: TallyModel, line: Seq<char>)
    ensures
        after_line(next, tally, line).0 == next + 1,
        after_line(next, tally, line).1.ended == tally.ended,
        after_line(next, tally, line).1.failed == tally.failed,
        after_line(next, tally, Seq::empty()).1.total == tally.total,
        line.len() > 0 ==> after_line(next, tally, line).1.total == tally.total + 1,
{
}

/// Only a file can fail to open. Everything else can come to a line too.
pub proof fn law_what_can_come(path: String, line: usize, event: RepackEvent)
    ensures
        can_come(DescriptorSource::File(path), event),
        can_come(DescriptorSource::Line(line), event) <==> !(event is OpenFailed),
{
}

} // verus!
