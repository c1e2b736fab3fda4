use kfc_tools::impact::{guid_text, impact_files, invalid_guid};

#[test]
fn program_is_named_by_guid_output_or_input() {
    assert_eq!(guid_text(Some("g"), Some("out"), "in"), "g");
    assert_eq!(guid_text(None, Some("out"), "in"), "out");
    assert_eq!(guid_text(None, None, "in"), "in");
}

#[test]
fn invalid_name_of_a_program_is_an_error() {
    assert_eq!(
        invalid_guid(Some("g"), Some("out")).message(),
        "`g` is not a valid descriptor guid"
    );
    assert_eq!(
        invalid_guid(None, Some("out")).message(),
        "Output file name must be a valid descriptor guid"
    );
    assert_eq!(
        invalid_guid(None, None).message(),
        "Input file name must be a valid descriptor guid"
    );
}

#[test]
fn program_has_three_files() {
    let files = impact_files("prog");
    assert_eq!(files.code, "prog.impact");
    assert_eq!(files.shutdown, "prog.shutdown.impact");
    assert_eq!(files.data, "prog.data.json");
}
