//! The names that resources go by, looked up by their guids.

use crate::metadata::{extract_debug_name, field_name};
use crate::text::{contains_text, occurs_in};
use crate::value::{lookup, lookup_either, Fields, Tree, Value};
use std::collections::HashMap;
use vstd::prelude::*;
use vstd::std_specs::hash::group_hash_axioms;
use vstd::string::*;

verus! {

broadcast use group_hash_axioms;

/// How a resource of some type gets its name.
#[derive(Clone, Copy, Debug, PartialEq, Eq, Structural)]
pub enum NameRule {
    /// An item: the name goes to the object that its fields refer to.
    Item,
    /// A buff.
    Buff,
    /// An achievement.
    Achievement,
    /// A marker on the map.
    MapMarker,
    /// A page of the journal.
    Journal,
    /// A recipe.
    Recipe,
    /// A resource of any other type: it gets no name.
    Unnamed,
}

/// The rule for a type, by the first of the words that its name holds.
pub open spec fn rule_of(class_name: Seq<char>) -> NameRule {
    if occurs_in(class_name, "ItemInfo"@) {
        NameRule::Item
    } else if occurs_in(class_name, "BuffType"@) {
        NameRule::Buff
    } else if occurs_in(class_name, "Achievement"@) {
        NameRule::Achievement
    } else if occurs_in(class_name, "MapMarker"@) {
        NameRule::MapMarker
    } else if occurs_in(class_name, "Journal"@) {
        NameRule::Journal
    } else if occurs_in(class_name, "Recipe"@) {
        NameRule::Recipe
    } else {
        NameRule::Unnamed
    }
}

/// What the name of a resource starts with where its fields give it none.
pub open spec fn fallback_prefix(rule: NameRule) -> Seq<char> {
    match rule {
        NameRule::Buff => "Buff_"@,
        NameRule::Achievement => "Achievement_"@,
        NameRule::MapMarker => "MapMarker_"@,
        NameRule::Journal => "Journal_"@,
        NameRule::Recipe => "Recipe_"@,
        _ => ""@,
    }
}

/// The rule for a type, by the first of the words that its name holds.
pub fn name_rule(class_name: &str) -> (rule: NameRule)
    ensures
        rule == rule_of(class_name@),
{
    if contains_text(class_name, "ItemInfo") {
        NameRule::Item
    } else if contains_text(class_name, "BuffType") {
        NameRule::Buff
    } else if contains_text(class_name, "Achievement") {
        NameRule::Achievement
    } else if contains_text(class_name, "MapMarker") {
        NameRule::MapMarker
    } else if contains_text(class_name, "Journal") {
        NameRule::Journal
    } else if contains_text(class_name, "Recipe") {
        NameRule::Recipe
    } else {
        NameRule::Unnamed
    }
}

/// The name that an item gives, and the guid of the object it gives it to.
pub open spec fn item_name(fields: Seq<(Seq<char>, Tree)>) -> Option<(u128, Seq<char>)> {
    match lookup_either(fields, "objectId"@, "guid"@) {
        Some(Tree::Guid(guid)) => match field_name(fields) {
            Some(name) => Some((guid.id, name)),
            None => None,
        },
        _ => None,
    }
}

/// The name that a resource gives, and the guid it gives it to. Only a structure
/// gives one. An item gives the name in its fields to the object that it refers
/// to, if it has both. A resource of the other types gives itself the name in its
/// fields, or else one made of the prefix of its type and of its own guid.
pub open spec fn resource_name(
    class_name: Seq<char>,
    guid: u128,
    guid_text: Seq<char>,
    value: Tree,
) -> Option<(u128, Seq<char>)> {
    match value {
        Tree::Struct(fields) => match rule_of(class_name) {
            NameRule::Unnamed => None,
            NameRule::Item => item_name(fields),
            rule => Some(
                (
                    guid,
                    match field_name(fields) {
                        Some(name) => name,
                        None => fallback_prefix(rule) + guid_text,
                    },
                ),
            ),
        },
        _ => None,
    }
}

/// The names of resources by their guids, and how many of each kind were recorded.
pub struct DebugNames {
    names: HashMap<u128, String>,
    items: usize,
    buffs: usize,
    others: usize,
}

/// How many names of items, of buffs and of other resources were recorded.
#[verifier::ext_equal]
pub struct NameCounts {
    pub items: int,
    pub buffs: int,
    pub others: int,
}

impl View for DebugNames {
    type V = Map<u128, Seq<char>>;

    closed spec fn view(&self) -> Map<u128, Seq<char>> {
        self.names@.map_values(|name: String| name@)
    }
}

/// The names of a table that may be absent.
pub open spec fn known_names(names: Option<&DebugNames>) -> Map<u128, Seq<char>> {
    match names {
        Some(names) => names@,
        None => Map::empty(),
    }
}

/// The counts after a name was recorded under a rule.
pub open spec fn counted(counts: NameCounts, rule: NameRule) -> NameCounts {
    match rule {
        NameRule::Unnamed => counts,
        NameRule::Item => NameCounts { items: counts.items + 1, ..counts },
        NameRule::Buff => NameCounts { buffs: counts.buffs + 1, ..counts },
        _ => NameCounts { others: counts.others + 1, ..counts },
    }
}

impl DebugNames {
    /// How many names of each kind were recorded.
    pub closed spec fn recorded(&self) -> NameCounts {
        NameCounts {
            items: self.items as int,
            buffs: self.buffs as int,
            others: self.others as int,
        }
    }

    /// A table without names.
    pub fn new() -> (names: DebugNames)
        ensures
            names@ == Map::<u128, Seq<char>>::empty(),
            names.recorded() == (NameCounts { items: 0, buffs: 0, others: 0 }),
    {
        let names = DebugNames { names: HashMap::new(), items: 0, buffs: 0, others: 0 };
        proof {
            assert(names@ =~= Map::<u128, Seq<char>>::empty());
        }
        names
    }

    /// The name that goes with a guid.
    pub fn get(&self, guid: u128) -> (name: Option<&String>)
        ensures
            match name {
                Some(name) => self@.contains_key(guid) && self@[guid] == name@,
                None => !self@.contains_key(guid),
            },
    {
        self.names.get(&guid)
    }

    /// How many guids have a name.
    pub fn len(&self) -> (len: usize)
        ensures
            self@.dom().finite(),
            len == self@.len(),
    {
        proof {
            assert(self@.dom() =~= self.names@.dom());
        }
        self.names.len()
    }

    /// How many names of items, of buffs and of other resources were recorded.
    pub fn counts(&self) -> (counts: (usize, usize, usize))
        ensures
            self.recorded() == (NameCounts {
                items: counts.0 as int,
                buffs: counts.1 as int,
                others: counts.2 as int,
            }),
    {
        (self.items, self.buffs, self.others)
    }

    /// Gives a name to a guid.
    fn insert(&mut self, guid: u128, name: String)
        ensures
            final(self)@ == old(self)@.insert(guid, name@),
            final(self).recorded() == old(self).recorded(),
    {
        let ghost before = self@;
        self.names.insert(guid, name);
        proof {
            assert(self@ =~= before.insert(guid, name@));
        }
    }

    /// Records the name that a resource gives, if it gives one.
    pub fn record(&mut self, class_name: &str, guid: u128, guid_text: &str, value: &Value)
        requires
            old(self).recorded().items < usize::MAX,
            old(self).recorded().buffs < usize::MAX,
            old(self).recorded().others < usize::MAX,
        ensures
            match resource_name(class_name@, guid, guid_text@, value@) {
                Some((named, name)) => {
                    &&& final(self)@ == old(self)@.insert(named, name)
                    &&& final(self).recorded() == counted(
                        old(self).recorded(),
                        rule_of(class_name@),
                    )
                },
                None => {
                    &&& final(self)@ == old(self)@
                    &&& final(self).recorded() == old(self).recorded()
                },
            },
    {
        let fields = match value {
            Value::Struct(fields) => fields,
            _ => return ,
        };
        let rule = name_rule(class_name);
        let prefix = match rule {
            NameRule::Unnamed => return ,
            NameRule::Item => {
                self.record_item(fields);
                return ;
            },
            NameRule::Buff => "Buff_",
            NameRule::Achievement => "Achievement_",
            NameRule::MapMarker => "MapMarker_",
            NameRule::Journal => "Journal_",
            NameRule::Recipe => "Recipe_",
        };
        let name = match extract_debug_name(fields) {
            Some(name) => name,
            None => {
                let mut name = prefix.to_owned();
                name.append(guid_text);
                name
            },
        };
        self.insert(guid, name);
        if rule == NameRule::Buff {
            self.buffs = self.buffs + 1;
        } else {
            self.others = self.others + 1;
        }
    }

    /// Records the name that an item gives, if it gives one.
    fn record_item(&mut self, fields: &Fields)
        requires
            old(self).recorded().items < usize::MAX,
        ensures
            match item_name(fields@) {
                Some((named, name)) => {
                    &&& final(self)@ == old(self)@.insert(named, name)
                    &&& final(self).recorded() == counted(old(self).recorded(), NameRule::Item)
                },
                None => {
                    &&& final(self)@ == old(self)@
                    &&& final(self).recorded() == old(self).recorded()
                },
            },
    {
        match fields.get_either("objectId", "guid") {
            Some(Value::Guid(guid)) => {
                match extract_debug_name(fields) {
                    Some(name) => {
                        self.insert(guid.id, name);
                        self.items = self.items + 1;
                    },
                    None => {},
                }
            },
            _ => {},
        }
    }
}

/// The word `ItemInfo` decides before any other, and a type whose name holds none
/// of the words gives no names.
pub proof fn law_items_come_first(class_name: Seq<char>, guid: u128, guid_text: Seq<char>, value: Tree)
    ensures
        occurs_in(class_name, "ItemInfo"@) ==> rule_of(class_name) == NameRule::Item,
        rule_of(class_name) == NameRule::Unnamed ==> resource_name(
            class_name,
            guid,
            guid_text,
            value,
        ) is None,
{
}

/// Every structure of a type with a fallback gives itself a name, whatever its
/// fields are.
pub proof fn law_fallback_always_names(
    class_name: Seq<char>,
    guid: u128,
    guid_text: Seq<char>,
    fields: Seq<(Seq<char>, Tree)>,
)
    requires
        rule_of(class_name) != NameRule::Item,
        rule_of(class_name) != NameRule::Unnamed,
    ensures
        match resource_name(class_name, guid, guid_text, Tree::Struct(fields)) {
            Some((named, name)) => named == guid,
            None => false,
        },
{
}

/// A structure of a type with a fallback goes by the name in its fields, whichever of
/// the words stand in the name of its type.
pub proof fn law_own_name_comes_before_the_fallback(
    class_name: Seq<char>,
    guid: u128,
    guid_text: Seq<char>,
    fields: Seq<(Seq<char>, Tree)>,
    name: Seq<char>,
)
    requires
        !occurs_in(class_name, "ItemInfo"@),
        occurs_in(class_name, "BuffType"@) || occurs_in(class_name, "Achievement"@) || occurs_in(
            class_name,
            "MapMarker"@,
        ) || occurs_in(class_name, "Journal"@) || occurs_in(class_name, "Recipe"@),
        lookup(fields, "debugName"@) == Some(Tree::Text(name)) || (lookup(fields, "debugName"@)
            is None && lookup(fields, "debug_name"@) == Some(Tree::Text(name))),
    ensures
        resource_name(class_name, guid, guid_text, Tree::Struct(fields)) == Some((guid, name)),
{
}

/// A structure of a type with a fallback whose fields give no name goes by the word of
/// its type and by its guid. Where several of the words stand in the name of the type,
/// the first of them in the order of the clauses counts.
pub proof fn law_fallback_is_made_of_word_and_guid(
    class_name: Seq<char>,
    guid: u128,
    guid_text: Seq<char>,
    fields: Seq<(Seq<char>, Tree)>,
)
    requires
        !occurs_in(class_name, "ItemInfo"@),
        lookup(fields, "debugName"@) is None || !(lookup(fields, "debugName"@)->0 is Text),
        lookup(fields, "debugName"@) is Some || lookup(fields, "debug_name"@) is None || !(lookup(
            fields,
            "debug_name"@,
        )->0 is Text),
    ensures
        ({
            let named = resource_name(class_name, guid, guid_text, Tree::Struct(fields));
            let buff = occurs_in(class_name, "BuffType"@);
            let achievement = occurs_in(class_name, "Achievement"@);
            let marker = occurs_in(class_name, "MapMarker"@);
            let journal = occurs_in(class_name, "Journal"@);
            let recipe = occurs_in(class_name, "Recipe"@);
            &&& buff ==> named == Some((guid, "Buff_"@ + guid_text))
            &&& achievement && !buff ==> named == Some((guid, "Achievement_"@ + guid_text))
            &&& marker && !achievement && !buff ==> named == Some((guid, "MapMarker_"@ + guid_text))
            &&& journal && !marker && !achievement && !buff ==> named == Some(
                (guid, "Journal_"@ + guid_text),
            )
            &&& recipe && !journal && !marker && !achievement && !buff ==> named == Some(
                (guid, "Recipe_"@ + guid_text),
            )
            &&& !recipe && !journal && !marker && !achievement && !buff ==> named is None
        }),
{
}

/// An item gives the name in its fields to the object of `objectId`, or without such a
/// field to that of `guid`. It gives none without a guid there or without a name.
pub proof fn law_item_names_its_object(
    class_name: Seq<char>,
    guid: u128,
    guid_text: Seq<char>,
    fields: Seq<(Seq<char>, Tree)>,
)
    requires
        occurs_in(class_name, "ItemInfo"@),
    ensures
        match (lookup(fields, "objectId"@), lookup(fields, "guid"@), field_name(fields)) {
            (Some(Tree::Guid(object)), _, Some(name)) => resource_name(
                class_name,
                guid,
                guid_text,
                Tree::Struct(fields),
            ) == Some((object.id, name)),
            (None, Some(Tree::Guid(object)), Some(name)) => resource_name(
                class_name,
                guid,
                guid_text,
                Tree::Struct(fields),
            ) == Some((object.id, name)),
            _ => resource_name(class_name, guid, guid_text, Tree::Struct(fields)) is None,
        },
{
}

/// Only structures give names.
pub proof fn law_only_structures_give_names(
    class_name: Seq<char>,
    guid: u128,
    guid_text: Seq<char>,
    value: Tree,
)
    requires
        !(value is Struct),
    ensures
        resource_name(class_name, guid, guid_text, value) is None,
{
}

/// Of the three counts one grows by one with each name that is recorded, and the
/// others stay: the first for items, the second for buffs, the third for the rest.
pub proof fn law_each_name_is_counted_once(class_name: Seq<char>, counts: NameCounts)
    requires
        rule_of(class_name) != NameRule::Unnamed,
    ensures
        ({
            let after = counted(counts, rule_of(class_name));
            let item = occurs_in(class_name, "ItemInfo"@);
            let buff = !item && occurs_in(class_name, "BuffType"@);
            &&& after.items == if item {
                counts.items + 1
            } else {
                counts.items
            }
            &&& after.buffs == if buff {
                counts.buffs + 1
            } else {
                counts.buffs
            }
            &&& after.others == if !item && !buff {
                counts.others + 1
            } else {
                counts.others
            }
        }),
{
}

/// A table that is given is what is known, and without one nothing is.
pub proof fn law_given_names_are_known(names: DebugNames)
    ensures
        known_names(Some(&names)) == names@,
        known_names(None) == Map::<u128, Seq<char>>::empty(),
{
}

} // verus!
