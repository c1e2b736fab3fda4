use kfc_tools::records::{descriptor_line, unopened_line, Reading};

#[test]
fn written_descriptor_is_its_own_line() {
    assert_eq!(
        descriptor_line("g", Reading::Written("{\"a\":1}".to_string())),
        "{\"a\":1}"
    );
}

#[test]
fn missing_descriptor_has_a_record() {
    assert_eq!(
        descriptor_line("g-1", Reading::NotFound),
        "{\"$error\":\"NotFound\",\"$guid\":\"g-1\"}"
    );
}

#[test]
fn unreadable_descriptor_has_a_record() {
    assert_eq!(
        descriptor_line("g", Reading::Unreadable("no \"luck\"".to_string())),
        "{\"$error\":\"ReadError\",\"$guid\":\"g\",\"$message\":\"no \\\"luck\\\"\"}"
    );
}

#[test]
fn unwritable_descriptor_has_a_record() {
    assert_eq!(
        descriptor_line("g", Reading::Unwritable("a\\b".to_string())),
        "{\"$error\":\"SerializationError\",\"$guid\":\"g\",\"$message\":\"a\\\\b\"}"
    );
}

#[test]
fn unopened_archive_has_a_record() {
    assert_eq!(
        unopened_line("C:\\x.kfc", "denied"),
        "{\"$error\":\"KFCReaderError\",\"$message\":\"Failed to open C:\\\\x.kfc: denied\"}"
    );
}

#[test]
fn records_lie_on_one_line() {
    let line = descriptor_line(
        "g",
        Reading::Unreadable("a\nb\rc\td\u{8}e\u{c}f\u{1}g\u{1f}h\u{7f}\u{e9}".to_string()),
    );
    assert_eq!(
        line,
        "{\"$error\":\"ReadError\",\"$guid\":\"g\",\"$message\":\"a\\nb\\rc\\td\\be\\ff\\u0001g\\u001fh\u{7f}\u{e9}\"}"
    );
    assert!(!line.contains('\n'));
}

#[test]
fn records_are_the_objects_that_readers_expect() {
    let message = "quote \" slash \\ line \n tab \t bell \u{7} high \u{1f600}";
    let line = descriptor_line("g", Reading::Unreadable(message.to_string()));
    let object: serde_json::Value = serde_json::from_str(&line).unwrap();
    assert_eq!(object["$error"], serde_json::Value::String("ReadError".to_string()));
    assert_eq!(object["$guid"], serde_json::Value::String("g".to_string()));
    assert_eq!(object["$message"], serde_json::Value::String(message.to_string()));
    assert_eq!(object.to_string(), line);
}
