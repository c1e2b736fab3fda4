use kfc_tools::error::Error;
use kfc_tools::types::{load_step, LoadStep, TypeParseError};

fn io(not_found: bool) -> Result<String, TypeParseError> {
    Err(TypeParseError::Io { not_found, message: "cause".to_string() })
}

fn json() -> Result<String, TypeParseError> {
    Err(TypeParseError::Json { message: "cause".to_string() })
}

fn version(text: &str) -> Result<String, TypeParseError> {
    Ok(text.to_string())
}

fn extract(text: &str) -> LoadStep {
    LoadStep::Extract(text.to_string())
}

fn fail(text: &str) -> LoadStep {
    LoadStep::Fail(Error(text.to_string()))
}

#[test]
fn errors_show_their_class() {
    assert_eq!(io(true).unwrap_err().text(), "IO error: cause");
    assert_eq!(json().unwrap_err().text(), "JSON error: cause");
}

#[test]
fn current_data_are_used() {
    assert_eq!(load_step(&version("1"), true, "1", true), LoadStep::Use);
    assert_eq!(load_step(&version("1"), true, "1", false), LoadStep::Use);
    assert_eq!(load_step(&version("1"), false, "2", true), LoadStep::Use);
}

#[test]
fn outdated_data_are_extracted_once() {
    assert_eq!(
        load_step(&version("1"), true, "2", true),
        extract("reflection_data.json is outdated, attempting to extract types again...")
    );
    assert_eq!(
        load_step(&version("1"), true, "2", false),
        fail("reflection_data.json is outdated, please extract types again")
    );
}

#[test]
fn missing_data_are_extracted_once() {
    assert_eq!(
        load_step(&io(true), true, "", true),
        extract("reflection_data.json not found, attempting to extract types first...")
    );
    assert_eq!(
        load_step(&io(true), true, "", false),
        fail("Failed to load reflection_data.json: cause")
    );
    assert_eq!(
        load_step(&io(true), false, "", true),
        fail("reflection_data.json not found, please extract types first")
    );
}

#[test]
fn unreadable_data_are_an_error() {
    for game_given in [false, true] {
        for retry in [false, true] {
            assert_eq!(
                load_step(&io(false), game_given, "", retry),
                fail("Failed to load reflection_data.json: cause")
            );
        }
    }
}

#[test]
fn invalid_data_are_extracted_once() {
    assert_eq!(
        load_step(&json(), true, "", true),
        extract("reflection_data.json is invalid, attempting to extract types again...")
    );
    assert_eq!(
        load_step(&json(), true, "", false),
        fail("Failed to load reflection_data.json: cause")
    );
    assert_eq!(
        load_step(&json(), false, "", true),
        fail("Failed to load reflection_data.json: cause")
    );
}
