use kfc_tools::debug_names::{name_rule, DebugNames, NameRule};
use kfc_tools::value::{Fields, Guid, Value};

fn resource(entries: Vec<(&str, Value)>) -> Value {
    Value::Struct(Fields::from_entries(
        entries.into_iter().map(|(name, value)| (name.to_string(), value)).collect(),
    ))
}

fn guid(id: u128) -> Value {
    Value::Guid(Guid { id, content: None })
}

fn text(text: &str) -> Value {
    Value::Text(text.to_string())
}

#[test]
fn names_of_types_decide_by_the_first_word() {
    assert_eq!(name_rule("keen::ItemInfo"), NameRule::Item);
    assert_eq!(name_rule("ItemInfoBuffType"), NameRule::Item);
    assert_eq!(name_rule("RecipeBuffType"), NameRule::Buff);
    assert_eq!(name_rule("AchievementRecipe"), NameRule::Achievement);
    assert_eq!(name_rule("JournalMapMarker"), NameRule::MapMarker);
    assert_eq!(name_rule("JournalPage"), NameRule::Journal);
    assert_eq!(name_rule("CraftingRecipe"), NameRule::Recipe);
    assert_eq!(name_rule("iteminfo"), NameRule::Unnamed);
    assert_eq!(name_rule(""), NameRule::Unnamed);
}

#[test]
fn items_name_the_object_they_refer_to() {
    let mut names = DebugNames::new();
    names.record("ItemInfo", 1, "g1", &resource(vec![("objectId", guid(7)), ("guid", guid(8)), ("debugName", text("axe"))]));
    names.record("ItemInfo", 2, "g2", &resource(vec![("guid", guid(9)), ("debug_name", text("bow"))]));
    assert_eq!(names.get(7).map(|name| name.as_str()), Some("axe"));
    assert_eq!(names.get(9).map(|name| name.as_str()), Some("bow"));
    assert!(names.get(8).is_none());
    assert!(names.get(1).is_none());
    assert_eq!(names.len(), 2);
    assert_eq!(names.counts(), (2, 0, 0));
}

#[test]
fn items_without_object_or_name_give_none() {
    let mut names = DebugNames::new();
    names.record("ItemInfo", 1, "g1", &resource(vec![("debugName", text("axe"))]));
    names.record("ItemInfo", 1, "g1", &resource(vec![("objectId", Value::Number(1)), ("guid", guid(8)), ("debugName", text("axe"))]));
    names.record("ItemInfo", 1, "g1", &resource(vec![("objectId", guid(7))]));
    names.record("ItemInfo", 1, "g1", &resource(vec![("objectId", guid(7)), ("debugName", Value::Number(1))]));
    names.record("ItemInfo", 1, "g1", &Value::Other);
    assert_eq!(names.len(), 0);
    assert_eq!(names.counts(), (0, 0, 0));
}

#[test]
fn other_resources_name_themselves() {
    let mut names = DebugNames::new();
    names.record("BuffType", 1, "g1", &resource(vec![]));
    names.record("BuffType", 2, "g2", &resource(vec![("debugName", text("haste"))]));
    names.record("Achievement", 3, "g3", &resource(vec![]));
    names.record("MapMarker", 4, "g4", &resource(vec![("debugName", Value::Number(1))]));
    names.record("Journal", 5, "g5", &resource(vec![]));
    names.record("Recipe", 6, "g6", &resource(vec![]));
    names.record("Mesh", 7, "g7", &resource(vec![("debugName", text("rock"))]));
    names.record("Recipe", 8, "g8", &Value::Array(Vec::new()));
    let expected = [
        (1, "Buff_g1"),
        (2, "haste"),
        (3, "Achievement_g3"),
        (4, "MapMarker_g4"),
        (5, "Journal_g5"),
        (6, "Recipe_g6"),
    ];
    for (id, name) in expected {
        assert_eq!(names.get(id).map(|name| name.as_str()), Some(name));
    }
    assert!(names.get(7).is_none());
    assert!(names.get(8).is_none());
    assert_eq!(names.counts(), (0, 2, 4));
}

#[test]
fn later_names_take_the_place_of_earlier_ones() {
    let mut names = DebugNames::new();
    names.record("BuffType", 1, "g1", &resource(vec![]));
    names.record("ItemInfo", 2, "g2", &resource(vec![("objectId", guid(1)), ("debugName", text("axe"))]));
    assert_eq!(names.get(1).map(|name| name.as_str()), Some("axe"));
    assert_eq!(names.len(), 1);
    assert_eq!(names.counts(), (1, 1, 0));
}
