use kfc_tools::value::{ContentHash, Fields, Guid, Value};

fn number(value: Option<&Value>) -> Option<u64> {
    value.and_then(|value| value.as_u64())
}

#[test]
fn fields_keep_their_order() {
    let fields = Fields::from_entries(vec![
        ("b".to_string(), Value::Number(1)),
        ("a".to_string(), Value::Number(2)),
        ("c".to_string(), Value::Other),
    ]);
    assert_eq!(fields.len(), 3);
    assert_eq!(fields.get_index(0).unwrap().0, "b");
    assert_eq!(fields.get_index(1).unwrap().0, "a");
    assert_eq!(fields.get_index(2).unwrap().0, "c");
    assert!(fields.get_index(3).is_none());
}

#[test]
fn setting_a_field_again_keeps_its_place() {
    let fields = Fields::from_entries(vec![
        ("x".to_string(), Value::Number(1)),
        ("y".to_string(), Value::Number(2)),
        ("x".to_string(), Value::Number(3)),
    ]);
    assert_eq!(fields.len(), 2);
    let (name, value) = fields.get_index(0).unwrap();
    assert_eq!(name, "x");
    assert_eq!(value.as_u64(), Some(3));
    assert_eq!(number(fields.get("x")), Some(3));
    assert_eq!(number(fields.get("y")), Some(2));
}

#[test]
fn missing_fields_are_not_found() {
    let fields = Fields::from_entries(vec![("x".to_string(), Value::Number(1))]);
    assert!(fields.get("X").is_none());
    assert!(fields.get("").is_none());
    assert_eq!(fields.number("x"), Some(1));
    assert_eq!(fields.number("y"), None);
}

#[test]
fn first_of_two_fields_counts() {
    let fields = Fields::from_entries(vec![
        ("second".to_string(), Value::Number(2)),
        ("first".to_string(), Value::Text("one".to_string())),
    ]);
    let value = fields.get_either("first", "second").unwrap();
    assert_eq!(value.as_string().map(|text| text.as_str()), Some("one"));
    assert_eq!(value.as_u64(), None);
    assert_eq!(number(fields.get_either("none", "second")), Some(2));
    assert!(fields.get_either("none", "neither").is_none());
}

#[test]
fn only_numbers_read_as_numbers_and_text_as_text() {
    let guid = Guid { id: 1, content: Some(ContentHash { size: 1, hash0: 2, hash1: 3, hash2: 4 }) };
    for value in [Value::Guid(guid), Value::Array(Vec::new()), Value::Other] {
        assert_eq!(value.as_u64(), None);
        assert!(value.as_string().is_none());
    }
    assert_eq!(Value::Number(u64::MAX).as_u64(), Some(u64::MAX));
}
