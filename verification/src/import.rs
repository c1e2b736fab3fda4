//! Putting content into an archive.

use crate::error::Error;
use crate::jobs::{done, end_done, end_failed, failure, Ending, EndingModel, NoticeModel};
use crate::text::{concat3, optional_text};
use crate::value::ContentHash;
use vstd::prelude::*;
use vstd::string::*;

verus! {

/// There has to be something to import.
pub fn require_content(count: usize) -> (checked: Result<(), Error>)
    ensures
        match checked {
            Ok(()) => count > 0,
            Err(error) => count == 0 && error@ == "No .bin files found in input directory"@,
        },
{
    if count > 0 {
        Ok(())
    } else {
        Err(Error("No .bin files found in input directory".to_owned()))
    }
}

/// A content hash, and how it is shown.
pub struct ShownHash {
    pub hash: ContentHash,
    pub shown: String,
}

/// What the user is told of a file whose name is the hash of other content.
pub open spec fn mismatch_text(
    path: Seq<char>,
    expected: Option<ShownHash>,
    actual: ShownHash,
) -> Option<Seq<char>> {
    match expected {
        Some(expected) => if expected.hash != actual.hash {
            Some(
                "Content hash mismatch for "@ + path + ": expected "@ + expected.shown@ + ", got "@
                    + actual.shown@,
            )
        } else {
            None
        },
        None => None,
    }
}

/// What the user is told of a file whose name is the hash of other content.
/// `expected` is the hash that the name of the file spells, if it spells one, and
/// `actual` that of its content.
pub fn mismatch_warning(path: &str, expected: &Option<ShownHash>, actual: &ShownHash) -> (warning:
    Option<String>)
    ensures
        optional_text(warning) == mismatch_text(path@, *expected, *actual),
{
    match expected {
        Some(expected) => {
            if expected.hash == actual.hash {
                return None;
            }
            let mut text = concat3("Content hash mismatch for ", path, ": expected ");
            text.append(expected.shown.as_str());
            text.append(", got ");
            text.append(actual.shown.as_str());
            Some(text)
        },
        None => None,
    }
}

/// What came of importing a file.
pub enum ImportOutcome {
    /// The name of the file is not text.
    InvalidName,
    /// The file cannot be read.
    ReadFailed(String),
    /// The content cannot be written.
    WriteFailed(String),
    /// The content was written.
    Written,
}

/// How a file ends.
pub open spec fn import_ending_of(path: Seq<char>, outcome: ImportOutcome) -> EndingModel {
    let what = "Error importing content "@;
    match outcome {
        ImportOutcome::InvalidName => failure(what, path, "Invalid filename"@),
        ImportOutcome::ReadFailed(reason) => failure(what, path, reason@),
        ImportOutcome::WriteFailed(reason) => failure(what, path, reason@),
        ImportOutcome::Written => done(),
    }
}

/// How a file ends.
pub fn import_ending(path: &str, outcome: ImportOutcome) -> (ending: Ending)
    ensures
        ending@ == import_ending_of(path@, outcome),
{
    let what = "Error importing content ";
    match outcome {
        ImportOutcome::InvalidName => end_failed(what, path, "Invalid filename"),
        ImportOutcome::ReadFailed(reason) => end_failed(what, path, reason.as_str()),
        ImportOutcome::WriteFailed(reason) => end_failed(what, path, reason.as_str()),
        ImportOutcome::Written => end_done(),
    }
}

/// A file whose name spells the hash of its content, or no hash at all, is imported
/// without a word; a mismatch is told but is no failure.
pub proof fn law_mismatch_is_only_a_warning(
    path: Seq<char>,
    expected: Option<ShownHash>,
    actual: ShownHash,
)
    ensures
        mismatch_text(path, expected, actual) is Some <==> expected is Some && expected->0.hash
            != actual.hash,
        !import_ending_of(path, ImportOutcome::Written).failed,
{
}

/// The warning about a hash says which file it is, what its name says and what it holds.
pub proof fn law_what_a_mismatch_says(path: Seq<char>, expected: ShownHash, actual: ShownHash)
    ensures
        expected.hash != actual.hash ==> mismatch_text(path, Some(expected), actual) == Some(
            "Content hash mismatch for "@ + path + ": expected "@ + expected.shown@ + ", got "@
                + actual.shown@,
        ),
        expected.hash == actual.hash ==> mismatch_text(path, Some(expected), actual) is None,
        mismatch_text(path, None, actual) is None,
{
}

/// Content ends well if it is written. Every other outcome is a failure, which says
/// which file it was, and why.
pub proof fn law_endings_of_content(path: Seq<char>, reason: String)
    ensures
        import_ending_of(path, ImportOutcome::Written) == (EndingModel {
            failed: false,
            notice: NoticeModel::Quiet,
        }),
        import_ending_of(path, ImportOutcome::InvalidName) == (EndingModel {
            failed: true,
            notice: NoticeModel::Problem(
                "Error importing content "@ + "`"@ + path + "`: "@ + "Invalid filename"@,
            ),
        }),
        import_ending_of(path, ImportOutcome::ReadFailed(reason)) == (EndingModel {
            failed: true,
            notice: NoticeModel::Problem(
                "Error importing content "@ + "`"@ + path + "`: "@ + reason@,
            ),
        }),
        import_ending_of(path, ImportOutcome::WriteFailed(reason)) == (EndingModel {
            failed: true,
            notice: NoticeModel::Problem(
                "Error importing content "@ + "`"@ + path + "`: "@ + reason@,
            ),
        }),
{
}

} // verus!
