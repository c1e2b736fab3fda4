use kfc_tools::error::Error;
use kfc_tools::filter::{
    filter_entries, select, FilterEntry, FilterTarget, Reference, ResolvedEntry,
};

fn by_type(name: &str) -> FilterEntry {
    FilterEntry::ByType(name.to_string())
}

fn reference(text: &str) -> FilterEntry {
    FilterEntry::Reference(text.to_string())
}

fn found(text: &str, position: Option<usize>) -> ResolvedEntry {
    ResolvedEntry::Reference(
        text.to_string(),
        Some(Reference { shown: format!("<{text}>"), position }),
    )
}

fn of_type(name: &str, hash: Option<u32>) -> ResolvedEntry {
    ResolvedEntry::ByType(name.to_string(), hash)
}

fn message(result: Result<Vec<usize>, Error>) -> String {
    result.unwrap_err().message().to_string()
}

#[test]
fn entries_are_trimmed_and_empty_ones_dropped() {
    assert_eq!(
        filter_entries(FilterTarget::Resources, " a ,, \t b\u{2003},  ,c"),
        vec![reference("a"), reference("b"), reference("c")]
    );
    assert_eq!(filter_entries(FilterTarget::Resources, ""), vec![]);
    assert_eq!(filter_entries(FilterTarget::Resources, " , ,"), vec![]);
}

#[test]
fn entries_of_types_start_with_a_letter() {
    assert_eq!(
        filter_entries(FilterTarget::Resources, "tkeen::ItemInfo, t, T1"),
        vec![by_type("keen::ItemInfo"), by_type(""), reference("T1")]
    );
    assert_eq!(
        filter_entries(FilterTarget::Content, "tkeen, t"),
        vec![reference("tkeen"), reference("t")]
    );
}

#[test]
fn nothing_behind_a_star_counts() {
    assert_eq!(
        filter_entries(FilterTarget::Resources, "a, * ,b,*"),
        vec![reference("a"), FilterEntry::All]
    );
    assert_eq!(filter_entries(FilterTarget::Content, "*"), vec![FilterEntry::All]);
    assert_eq!(filter_entries(FilterTarget::Content, "**"), vec![reference("**")]);
}

#[test]
fn selection_by_type_and_reference() {
    let hashes = vec![7, 8, 7, 9];
    let entries = vec![found("x", Some(3)), of_type("T", Some(7)), found("y", Some(0))];
    assert_eq!(select(FilterTarget::Resources, &entries, 4, &hashes), Ok(vec![0, 2, 3]));
}

#[test]
fn order_and_repetition_do_not_matter() {
    let hashes = vec![7, 8, 7, 9];
    let a = vec![found("x", Some(3)), of_type("T", Some(7))];
    let b = vec![of_type("T", Some(7)), found("x", Some(3)), of_type("T", Some(7))];
    assert_eq!(
        select(FilterTarget::Resources, &a, 4, &hashes),
        select(FilterTarget::Resources, &b, 4, &hashes)
    );
}

#[test]
fn empty_filter_selects_nothing() {
    assert_eq!(select(FilterTarget::Resources, &vec![], 3, &vec![1, 2, 3]), Ok(vec![]));
    let none = vec![of_type("T", Some(5))];
    assert_eq!(select(FilterTarget::Resources, &none, 3, &vec![1, 2, 3]), Ok(vec![]));
}

#[test]
fn star_selects_everything_even_behind_something_missing() {
    let entries = vec![of_type("T", None), found("x", None), ResolvedEntry::All];
    assert_eq!(select(FilterTarget::Resources, &entries, 3, &vec![1, 2, 3]), Ok(vec![0, 1, 2]));
    assert_eq!(select(FilterTarget::Content, &vec![ResolvedEntry::All], 0, &vec![]), Ok(vec![]));
}

#[test]
fn unreadable_entries_are_errors() {
    let entries = vec![of_type("T", None), ResolvedEntry::Reference("zz".to_string(), None), ResolvedEntry::All];
    assert_eq!(
        message(select(FilterTarget::Resources, &entries, 3, &vec![1, 2, 3])),
        "`zz` is not a valid guid"
    );
    let entries = vec![found("x", None), ResolvedEntry::Reference("zz".to_string(), None)];
    assert_eq!(
        message(select(FilterTarget::Content, &entries, 3, &vec![])),
        "`zz` is not a valid content hash"
    );
}

#[test]
fn unreadable_entries_behind_a_star_do_not_matter() {
    let entries = vec![ResolvedEntry::All, ResolvedEntry::Reference("zz".to_string(), None)];
    assert_eq!(select(FilterTarget::Resources, &entries, 1, &vec![1]), Ok(vec![0]));
}

#[test]
fn missing_things_are_errors_in_order() {
    let entries = vec![found("x", Some(0)), of_type("keen::T", None), found("y", None)];
    assert_eq!(
        message(select(FilterTarget::Resources, &entries, 3, &vec![1, 2, 3])),
        "Type not found: keen::T"
    );
    let entries = vec![found("y", None), of_type("keen::T", None)];
    assert_eq!(
        message(select(FilterTarget::Resources, &entries, 3, &vec![1, 2, 3])),
        "GUID not found: <y>"
    );
    assert_eq!(
        message(select(FilterTarget::Content, &vec![found("y", None)], 3, &vec![])),
        "Content hash not found: <y>"
    );
}

#[test]
fn content_is_selected_by_position() {
    let entries = vec![found("b", Some(2)), found("a", Some(1))];
    assert_eq!(select(FilterTarget::Content, &entries, 3, &vec![]), Ok(vec![1, 2]));
}

#[test]
fn joined_filters_have_the_entries_of_both() {
    for (a, b) in [("a, tB", "c"), ("", "x"), (" ,y, ", ""), ("p,q", " ,r ,,s")] {
        let mut expected = filter_entries(FilterTarget::Resources, a);
        expected.extend(filter_entries(FilterTarget::Resources, b));
        assert_eq!(filter_entries(FilterTarget::Resources, &format!("{a},{b}")), expected);
    }
}
