//! Writing a descriptor to a file of its own.
//!
//! A descriptor goes through stages. At each stage something outside is done, and
//! what came of it decides what is next.

use crate::jobs::{done, end_done, end_failed, failure, Ending, EndingModel, Notice, NoticeModel};
use crate::names::{is_first_free, numbered, FileNames};
use crate::text::{concat2, concat3, hex8, push_hex8};
use vstd::prelude::*;
use vstd::string::*;

verus! {

/// What is being done with a descriptor.
#[derive(Debug, PartialEq, Eq)]
pub enum UnpackStage {
    /// It is read.
    Reading,
    /// Its type is looked up.
    Typing,
    /// The folder of its type is made, unless it is there.
    Placing(String),
    /// The file is created, in the folder of the type.
    Creating(String, String),
    /// The descriptor is written to the file.
    Writing,
}

/// What came of it.
pub enum UnpackEvent {
    /// The descriptor cannot be read.
    ReadFailed(String),
    /// There is no such descriptor.
    NotFound,
    /// The descriptor was read.
    Read,
    /// The type with this hash is not known.
    TypeUnknown(u32),
    /// The type has this name.
    TypeKnown(String),
    /// The folder cannot be made.
    FolderFailed(String),
    /// The folder is there.
    FolderReady,
    /// The file cannot be created.
    CreateFailed(String),
    /// The file was created.
    Created,
    /// The descriptor cannot be written.
    WriteFailed(String),
    /// The descriptor was written.
    Written,
}

/// What is next.
#[derive(Debug, PartialEq, Eq)]
pub enum UnpackStep {
    /// The next stage.
    Continue(UnpackStage),
    /// Nothing: the descriptor has ended.
    Finish(Ending),
}

/// Whether an event can come of a stage.
pub open spec fn can_follow(stage: UnpackStage, event: UnpackEvent) -> bool {
    match stage {
        UnpackStage::Reading => event is ReadFailed || event is NotFound || event is Read,
        UnpackStage::Typing => event is TypeUnknown || event is TypeKnown,
        UnpackStage::Placing(_) => event is FolderFailed || event is FolderReady,
        UnpackStage::Creating(_, _) => event is CreateFailed || event is Created,
        UnpackStage::Writing => event is WriteFailed || event is Written,
    }
}

/// What is said of a descriptor that fails.
pub open spec fn unpack_failure(guid: Seq<char>, reason: Seq<char>) -> EndingModel {
    failure("Error occurred while unpacking "@, guid, reason)
}

/// How a descriptor ends with an event, if it ends with it. A descriptor that is
/// not there is passed over, and one whose file cannot be created is reported;
/// neither counts as failed.
pub open spec fn unpack_ending(
    guid: Seq<char>,
    stage: UnpackStage,
    event: UnpackEvent,
) -> Option<EndingModel> {
    match event {
        UnpackEvent::ReadFailed(reason) => Some(unpack_failure(guid, reason@)),
        UnpackEvent::NotFound => Some(
            EndingModel {
                failed: false,
                notice: NoticeModel::Warning("Skipping descriptor (not found): "@ + guid),
            },
        ),
        UnpackEvent::TypeUnknown(hash) => Some(
            unpack_failure(guid, "Type not found: "@ + hex8(hash)),
        ),
        UnpackEvent::FolderFailed(reason) => Some(unpack_failure(guid, reason@)),
        UnpackEvent::CreateFailed(reason) => match stage {
            UnpackStage::Creating(_, file_name) => Some(
                EndingModel {
                    failed: false,
                    notice: NoticeModel::Problem(
                        "Failed to create file with name `"@ + file_name@ + "`: "@ + reason@,
                    ),
                },
            ),
            _ => None,
        },
        UnpackEvent::WriteFailed(reason) => Some(unpack_failure(guid, reason@)),
        UnpackEvent::Written => Some(done()),
        _ => None,
    }
}

/// How far a stage is from the end.
pub open spec fn stages_left(stage: UnpackStage) -> nat {
    match stage {
        UnpackStage::Reading => 5,
        UnpackStage::Typing => 4,
        UnpackStage::Placing(_) => 3,
        UnpackStage::Creating(_, _) => 2,
        UnpackStage::Writing => 1,
    }
}

/// What is next for a descriptor. A file name is taken only once the folder of its
/// type is there.
pub fn unpack_step(
    guid: &str,
    stage: UnpackStage,
    event: UnpackEvent,
    names: &mut FileNames,
) -> (step: UnpackStep)
    requires
        can_follow(stage, event),
        old(names).wf(),
    ensures
        final(names).wf(),
        match unpack_ending(guid@, stage, event) {
            Some(expected) => match step {
                UnpackStep::Finish(ending) => ending@ == expected,
                UnpackStep::Continue(_) => false,
            },
            None => match step {
                UnpackStep::Finish(_) => false,
                UnpackStep::Continue(next) => stages_left(next) + 1 == stages_left(stage),
            },
        },
        match (stage, event) {
            (UnpackStage::Reading, UnpackEvent::Read) => step == UnpackStep::Continue(
                UnpackStage::Typing,
            ),
            (UnpackStage::Typing, UnpackEvent::TypeKnown(folder)) => step == UnpackStep::Continue(
                UnpackStage::Placing(folder),
            ),
            (UnpackStage::Placing(folder), UnpackEvent::FolderReady) => match step {
                UnpackStep::Continue(UnpackStage::Creating(same_folder, file_name)) => {
                    &&& same_folder == folder
                    &&& exists|number: nat|
                        is_first_free(old(names)@, guid@, number) && file_name@ == #[trigger] numbered(
                            guid@,
                            number,
                        )
                    &&& final(names)@ == old(names)@.insert(file_name@)
                },
                _ => false,
            },
            (UnpackStage::Creating(_, _), UnpackEvent::Created) => step == UnpackStep::Continue(
                UnpackStage::Writing,
            ),
            _ => true,
        },
        !(event is FolderReady) ==> final(names)@ == old(names)@,
{
    let what = "Error occurred while unpacking ";
    match event {
        UnpackEvent::ReadFailed(reason) => UnpackStep::Finish(
            end_failed(what, guid, reason.as_str()),
        ),
        UnpackEvent::NotFound => UnpackStep::Finish(
            Ending {
                failed: false,
                notice: Notice::Warning(concat2("Skipping descriptor (not found): ", guid)),
            },
        ),
        UnpackEvent::Read => UnpackStep::Continue(UnpackStage::Typing),
        UnpackEvent::TypeUnknown(hash) => {
            let mut reason = "Type not found: ".to_owned();
            push_hex8(&mut reason, hash);
            UnpackStep::Finish(end_failed(what, guid, reason.as_str()))
        },
        UnpackEvent::TypeKnown(folder) => UnpackStep::Continue(UnpackStage::Placing(folder)),
        UnpackEvent::FolderFailed(reason) => UnpackStep::Finish(
            end_failed(what, guid, reason.as_str()),
        ),
        UnpackEvent::FolderReady => {
            let file_name = names.claim(guid);
            match stage {
                UnpackStage::Placing(folder) => UnpackStep::Continue(
                    UnpackStage::Creating(folder, file_name),
                ),
                _ => UnpackStep::Finish(end_done()),
            }
        },
        UnpackEvent::CreateFailed(reason) => match stage {
            UnpackStage::Creating(_, file_name) => {
                let mut text = concat3(
                    "Failed to create file with name `",
                    file_name.as_str(),
                    "`: ",
                );
                text.append(reason.as_str());
                UnpackStep::Finish(Ending { failed: false, notice: Notice::Problem(text) })
            },
            _ => UnpackStep::Finish(end_done()),
        },
        UnpackEvent::Created => UnpackStep::Continue(UnpackStage::Writing),
        UnpackEvent::WriteFailed(reason) => UnpackStep::Finish(
            end_failed(what, guid, reason.as_str()),
        ),
        UnpackEvent::Written => UnpackStep::Finish(end_done()),
    }
}

/// A descriptor counts as failed exactly if it cannot be read, its type is not
/// known, its folder cannot be made, or it cannot be written.
pub proof fn law_what_counts_as_failed(guid: Seq<char>, stage: UnpackStage, event: UnpackEvent)
    requires
        can_follow(stage, event),
    ensures
        event is ReadFailed || event is TypeUnknown || event is FolderFailed || event is WriteFailed
            <==> match unpack_ending(guid, stage, event) {
            Some(ending) => ending.failed,
            None => false,
        },
{
}

/// A descriptor ends quietly exactly if it was written.
pub proof fn law_only_written_descriptors_end_quietly(
    guid: Seq<char>,
    stage: UnpackStage,
    event: UnpackEvent,
)
    requires
        can_follow(stage, event),
    ensures
        event is Written <==> unpack_ending(guid, stage, event) == Some(done()),
{
}

/// What is said of a descriptor that ends before its time. One that is not there only
/// gives a warning, and one whose file cannot be created does not count as failed.
pub proof fn law_what_is_said_of_descriptors(
    guid: Seq<char>,
    stage: UnpackStage,
    reason: String,
    hash: u32,
    folder: String,
    file_name: String,
)
    ensures
        unpack_ending(guid, stage, UnpackEvent::NotFound) == Some(
            EndingModel {
                failed: false,
                notice: NoticeModel::Warning("Skipping descriptor (not found): "@ + guid),
            },
        ),
        unpack_ending(guid, stage, UnpackEvent::ReadFailed(reason)) == Some(
            EndingModel {
                failed: true,
                notice: NoticeModel::Problem(
                    "Error occurred while unpacking "@ + "`"@ + guid + "`: "@ + reason@,
                ),
            },
        ),
        unpack_ending(guid, stage, UnpackEvent::TypeUnknown(hash)) == Some(
            EndingModel {
                failed: true,
                notice: NoticeModel::Problem(
                    "Error occurred while unpacking "@ + "`"@ + guid + "`: "@ + (
                    "Type not found: "@ + hex8(hash)),
                ),
            },
        ),
        unpack_ending(guid, stage, UnpackEvent::FolderFailed(reason)) == unpack_ending(
            guid,
            stage,
            UnpackEvent::ReadFailed(reason),
        ),
        unpack_ending(guid, stage, UnpackEvent::WriteFailed(reason)) == unpack_ending(
            guid,
            stage,
            UnpackEvent::ReadFailed(reason),
        ),
        unpack_ending(
            guid,
            UnpackStage::Creating(folder, file_name),
            UnpackEvent::CreateFailed(reason),
        ) == Some(
            EndingModel {
                failed: false,
                notice: NoticeModel::Problem(
                    "Failed to create file with name `"@ + file_name@ + "`: "@ + reason@,
                ),
            },
        ),
        unpack_ending(guid, stage, UnpackEvent::Written) == Some(
            EndingModel { failed: false, notice: NoticeModel::Quiet },
        ),
{
}

/// A descriptor is read, typed, placed, created and written, and does not end before it
/// is written as long as nothing goes wrong.
pub proof fn law_good_events_go_on(
    guid: Seq<char>,
    stage: UnpackStage,
    name: String,
    folder: String,
    file_name: String,
)
    ensures
        unpack_ending(guid, stage, UnpackEvent::Read) is None,
        unpack_ending(guid, stage, UnpackEvent::TypeKnown(name)) is None,
        unpack_ending(guid, stage, UnpackEvent::FolderReady) is None,
        unpack_ending(guid, stage, UnpackEvent::Created) is None,
        can_follow(UnpackStage::Reading, UnpackEvent::Read),
        can_follow(UnpackStage::Typing, UnpackEvent::TypeKnown(name)),
        can_follow(UnpackStage::Placing(folder), UnpackEvent::FolderReady),
        can_follow(UnpackStage::Creating(folder, file_name), UnpackEvent::Created),
        can_follow(UnpackStage::Writing, UnpackEvent::Written),
{
}

} // verus!
