use kfc_tools::import::{
    import_ending, mismatch_warning, require_content, ImportOutcome, ShownHash,
};
use kfc_tools::jobs::{Ending, Job, Notice, Tally};
use kfc_tools::names::FileNames;
use kfc_tools::repack::{
    repack_step, require_descriptors, DescriptorSource, LineStep, Lines, RepackEvent, RepackStep,
};
use kfc_tools::unpack::{unpack_step, UnpackEvent, UnpackStage, UnpackStep};
use kfc_tools::value::ContentHash;

fn quiet() -> Ending {
    Ending { failed: false, notice: Notice::Quiet }
}

fn failed(text: &str) -> Ending {
    Ending { failed: true, notice: Notice::Problem(text.to_string()) }
}

fn reason() -> String {
    "why".to_string()
}

#[test]
fn tally_counts_failures() {
    let mut tally = Tally::new(4);
    for failed in [true, false, true] {
        tally.count(failed);
    }
    assert_eq!(tally.total(), 4);
    assert_eq!(tally.ended(), 3);
    assert_eq!(tally.succeeded(), 2);
    assert_eq!(tally.summary(Job::Unpack), "Unpacked a total of 2/4 descriptors");
    assert_eq!(tally.summary(Job::Repack), "Repacked a total of 2/4 descriptors");
    assert_eq!(tally.summary(Job::Extract), "Extracted a total of 2/4 content blobs");
    assert_eq!(tally.summary(Job::Import), "Imported a total of 2/4 content blobs");
}

#[test]
fn tally_can_grow() {
    let mut tally = Tally::new(0);
    assert_eq!(tally.summary(Job::Repack), "Repacked a total of 0/0 descriptors");
    for _ in 0..12 {
        tally.expect_one();
    }
    tally.count(true);
    assert_eq!(tally.summary(Job::Repack), "Repacked a total of 11/12 descriptors");
}

#[test]
fn descriptor_goes_through_all_stages() {
    let mut names = FileNames::new();
    let step = unpack_step("g", UnpackStage::Reading, UnpackEvent::Read, &mut names);
    assert_eq!(step, UnpackStep::Continue(UnpackStage::Typing));
    let step = unpack_step(
        "g",
        UnpackStage::Typing,
        UnpackEvent::TypeKnown("T".to_string()),
        &mut names,
    );
    assert_eq!(step, UnpackStep::Continue(UnpackStage::Placing("T".to_string())));
    let step = unpack_step(
        "g",
        UnpackStage::Placing("T".to_string()),
        UnpackEvent::FolderReady,
        &mut names,
    );
    let creating = UnpackStage::Creating("T".to_string(), "g.json".to_string());
    assert_eq!(step, UnpackStep::Continue(creating));
    let creating = UnpackStage::Creating("T".to_string(), "g.json".to_string());
    let step = unpack_step("g", creating, UnpackEvent::Created, &mut names);
    assert_eq!(step, UnpackStep::Continue(UnpackStage::Writing));
    let step = unpack_step("g", UnpackStage::Writing, UnpackEvent::Written, &mut names);
    assert_eq!(step, UnpackStep::Finish(quiet()));
    let step = unpack_step(
        "g",
        UnpackStage::Placing("U".to_string()),
        UnpackEvent::FolderReady,
        &mut names,
    );
    let creating = UnpackStage::Creating("U".to_string(), "g.1.json".to_string());
    assert_eq!(step, UnpackStep::Continue(creating));
}

#[test]
fn descriptor_fails_with_a_reason() {
    let mut names = FileNames::new();
    let step = unpack_step("g", UnpackStage::Reading, UnpackEvent::ReadFailed(reason()), &mut names);
    assert_eq!(step, UnpackStep::Finish(failed("Error occurred while unpacking `g`: why")));
    let step = unpack_step("g", UnpackStage::Typing, UnpackEvent::TypeUnknown(0xab12), &mut names);
    assert_eq!(
        step,
        UnpackStep::Finish(failed("Error occurred while unpacking `g`: Type not found: 0000ab12"))
    );
    let step = unpack_step(
        "g",
        UnpackStage::Placing("T".to_string()),
        UnpackEvent::FolderFailed(reason()),
        &mut names,
    );
    assert_eq!(step, UnpackStep::Finish(failed("Error occurred while unpacking `g`: why")));
    let step = unpack_step("g", UnpackStage::Writing, UnpackEvent::WriteFailed(reason()), &mut names);
    assert_eq!(step, UnpackStep::Finish(failed("Error occurred while unpacking `g`: why")));
}

#[test]
fn missing_descriptor_and_file_do_not_count_as_failed() {
    let mut names = FileNames::new();
    let step = unpack_step("g", UnpackStage::Reading, UnpackEvent::NotFound, &mut names);
    assert_eq!(
        step,
        UnpackStep::Finish(Ending {
            failed: false,
            notice: Notice::Warning("Skipping descriptor (not found): g".to_string()),
        })
    );
    let creating = UnpackStage::Creating("T".to_string(), "g.2.json".to_string());
    let step = unpack_step("g", creating, UnpackEvent::CreateFailed(reason()), &mut names);
    assert_eq!(
        step,
        UnpackStep::Finish(Ending {
            failed: false,
            notice: Notice::Problem("Failed to create file with name `g.2.json`: why".to_string()),
        })
    );
}

#[test]
fn descriptor_from_a_file_is_repacked() {
    let source = DescriptorSource::File("a/b.json".to_string());
    assert_eq!(repack_step(&source, "", RepackEvent::Serialized), RepackStep::Write);
    assert_eq!(repack_step(&source, "g", RepackEvent::Written), RepackStep::Finish(quiet()));
    for event in [
        RepackEvent::OpenFailed(reason()),
        RepackEvent::ParseFailed(reason()),
        RepackEvent::SerializeFailed(reason()),
    ] {
        assert_eq!(
            repack_step(&source, "", event),
            RepackStep::Finish(failed("Error occurred while repacking `a/b.json`: why"))
        );
    }
    assert_eq!(
        repack_step(&source, "g", RepackEvent::WriteFailed(reason())),
        RepackStep::Finish(failed("Error occurred while writing `g`: why"))
    );
}

#[test]
fn descriptor_from_a_line_is_repacked() {
    let source = DescriptorSource::Line(12);
    assert_eq!(repack_step(&source, "", RepackEvent::Serialized), RepackStep::Write);
    assert_eq!(
        repack_step(&source, "", RepackEvent::ParseFailed(reason())),
        RepackStep::Finish(failed("Error occurred while parsing descriptor 12: why"))
    );
    assert_eq!(
        repack_step(&source, "", RepackEvent::SerializeFailed(reason())),
        RepackStep::Finish(failed("Error occurred while serializing descriptor 12: why"))
    );
    assert_eq!(
        repack_step(&source, "g", RepackEvent::WriteFailed(reason())),
        RepackStep::Finish(failed("Error occurred while writing `g`: why"))
    );
}

#[test]
fn something_has_to_be_repacked() {
    assert!(require_descriptors(1).is_ok());
    assert_eq!(require_descriptors(0).unwrap_err().message(), "No files found to repack");
}

#[test]
fn empty_lines_are_numbered_but_do_not_count() {
    let mut lines = Lines::new();
    let mut tally = Tally::new(0);
    assert_eq!(lines.take(&Ok("{}".to_string()), &mut tally), LineStep::Descriptor(0));
    assert_eq!(lines.take(&Ok(String::new()), &mut tally), LineStep::Skip);
    assert_eq!(lines.take(&Ok(" ".to_string()), &mut tally), LineStep::Descriptor(2));
    assert_eq!(
        lines.take(&Err(reason()), &mut tally),
        LineStep::Stop("Error occurred while reading from stdin: why".to_string())
    );
    assert_eq!(tally.total(), 2);
    assert_eq!(lines.next_number(), 3);
}

#[test]
fn something_has_to_be_imported() {
    assert!(require_content(1).is_ok());
    assert_eq!(
        require_content(0).unwrap_err().message(),
        "No .bin files found in input directory"
    );
}

#[test]
fn imported_file_fails_with_a_reason() {
    assert_eq!(import_ending("p", ImportOutcome::Written), quiet());
    assert_eq!(
        import_ending("p", ImportOutcome::InvalidName),
        failed("Error importing content `p`: Invalid filename")
    );
    assert_eq!(
        import_ending("p", ImportOutcome::ReadFailed(reason())),
        failed("Error importing content `p`: why")
    );
    assert_eq!(
        import_ending("p", ImportOutcome::WriteFailed(reason())),
        failed("Error importing content `p`: why")
    );
}

#[test]
fn mismatch_of_name_and_content_is_told() {
    let shown = |n: u32, text: &str| ShownHash {
        hash: ContentHash { size: n, hash0: 0, hash1: 0, hash2: 0 },
        shown: text.to_string(),
    };
    assert_eq!(
        mismatch_warning("p", &Some(shown(1, "one")), &shown(2, "two")),
        Some("Content hash mismatch for p: expected one, got two".to_string())
    );
    assert_eq!(mismatch_warning("p", &Some(shown(1, "one")), &shown(1, "one")), None);
    assert_eq!(mismatch_warning("p", &None, &shown(1, "one")), None);
}
