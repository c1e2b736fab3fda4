//! The values that resources decode to, as far as this library reads them.

use indexmap::IndexMap;
use vstd::prelude::*;

verus! {

/// The hash by which a content blob is found: its size and three words.
#[derive(Clone, Copy, Debug, PartialEq, Eq, Hash, Structural)]
pub struct ContentHash {
    pub size: u32,
    pub hash0: u32,
    pub hash1: u32,
    pub hash2: u32,
}

/// A guid, and the content hash that its bits spell, unless they spell no content.
#[derive(Clone, Copy, Debug, PartialEq, Eq, Structural)]
pub struct Guid {
    pub id: u128,
    pub content: Option<ContentHash>,
}

/// A decoded value.
pub enum Value {
    /// A value that reads as an unsigned integer.
    Number(u64),
    /// A value that reads as text.
    Text(String),
    /// A guid.
    Guid(Guid),
    /// A structure with named fields.
    Struct(Fields),
    /// A list of values.
    Array(Vec<Value>),
    /// The fields of a value of a variant type.
    Variant(Fields),
    /// A value of any other kind.
    Other,
}

/// The named fields of a structure, in the order in which they were added.
///
/// The map from `indexmap` is held in a private field, because a map whose
/// values hold such maps again cannot be declared to the verifier otherwise.
#[verifier::external_body]
pub struct Fields {
    map: IndexMap<String, Value>,
}

/// The model of a value.
#[verifier::ext_equal]
pub enum Tree {
    Number(u64),
    Text(Seq<char>),
    Guid(Guid),
    Struct(Seq<(Seq<char>, Tree)>),
    Array(Seq<Tree>),
    Variant(Seq<(Seq<char>, Tree)>),
    Other,
}

/// The names and the values of the fields that a map holds, in the order in
/// which the map is walked.
pub uninterp spec fn field_entries(fields: Fields) -> Seq<(Seq<char>, Tree)>;

impl View for Fields {
    type V = Seq<(Seq<char>, Tree)>;

    open spec fn view(&self) -> Seq<(Seq<char>, Tree)> {
        field_entries(*self)
    }
}

/// The model of a value.
pub open spec fn tree_of(value: Value) -> Tree
    decreases value,
{
    match value {
        Value::Number(number) => Tree::Number(number),
        Value::Text(text) => Tree::Text(text@),
        Value::Guid(guid) => Tree::Guid(guid),
        Value::Struct(fields) => Tree::Struct(fields@),
        Value::Array(items) => Tree::Array(
            Seq::new(
                items@.len(),
                |i: int|
                    if 0 <= i < items@.len() {
                        tree_of(items@[i])
                    } else {
                        Tree::Other
                    },
            ),
        ),
        Value::Variant(fields) => Tree::Variant(fields@),
        Value::Other => Tree::Other,
    }
}

impl View for Value {
    type V = Tree;

    open spec fn view(&self) -> Tree {
        tree_of(*self)
    }
}

/// The value of the field with the given name, if there is one.
pub open spec fn lookup(entries: Seq<(Seq<char>, Tree)>, name: Seq<char>) -> Option<Tree>
    decreases entries.len(),
{
    if entries.len() == 0 {
        None
    } else if entries[0].0 == name {
        Some(entries[0].1)
    } else {
        lookup(entries.drop_first(), name)
    }
}

/// The first of two fields if it is there, else the second.
pub open spec fn lookup_either(
    entries: Seq<(Seq<char>, Tree)>,
    name: Seq<char>,
    other: Seq<char>,
) -> Option<Tree> {
    match lookup(entries, name) {
        Some(value) => Some(value),
        None => lookup(entries, other),
    }
}

/// The position of the field with the given name, or the number of fields.
pub open spec fn position(entries: Seq<(Seq<char>, Tree)>, name: Seq<char>) -> nat
    decreases entries.len(),
{
    if entries.len() == 0 || entries[0].0 == name {
        0
    } else {
        1 + position(entries.drop_first(), name)
    }
}

/// The fields after one is set: a field that is there keeps its place, a new one
/// comes last.
pub open spec fn with_field(
    entries: Seq<(Seq<char>, Tree)>,
    name: Seq<char>,
    value: Tree,
) -> Seq<(Seq<char>, Tree)> {
    let at = position(entries, name);
    if at < entries.len() {
        entries.update(at as int, (name, value))
    } else {
        entries.push((name, value))
    }
}

/// The fields after each of a list is set in turn.
pub open spec fn with_fields(list: Seq<(String, Value)>) -> Seq<(Seq<char>, Tree)>
    decreases list.len(),
{
    if list.len() == 0 {
        Seq::empty()
    } else {
        with_field(with_fields(list.drop_last()), list.last().0@, list.last().1@)
    }
}

/// The number that a value reads as, if it reads as one.
pub open spec fn as_number(value: Option<Tree>) -> Option<u64> {
    match value {
        Some(Tree::Number(number)) => Some(number),
        _ => None,
    }
}

/// The text that a value reads as, if it reads as text.
pub open spec fn as_text(value: Option<Tree>) -> Option<Seq<char>> {
    match value {
        Some(Tree::Text(text)) => Some(text),
        _ => None,
    }
}

/// Calls `IndexMap::new`, whose result holds no entry.
#[verifier::external_body]
fn index_map_new() -> (fields: Fields)
    ensures
        field_entries(fields) == Seq::<(Seq<char>, Tree)>::empty(),
{
    Fields { map: IndexMap::new() }
}

/// Calls `IndexMap::insert`. An entry with that key keeps its place and gets the
/// value; where there is none, a new entry comes last.
#[verifier::external_body]
fn index_map_insert(fields: &mut Fields, name: String, value: Value)
    ensures
        field_entries(*final(fields)) == with_field(field_entries(*old(fields)), name@, value@),
{
    fields.map.insert(name, value);
}

/// Calls `IndexMap::get`, which finds the value of the entry with that key.
#[verifier::external_body]
fn index_map_get<'a>(fields: &'a Fields, name: &str) -> (value: Option<&'a Value>)
    ensures
        match value {
            Some(value) => lookup(field_entries(*fields), name@) == Some(value@),
            None => lookup(field_entries(*fields), name@) is None,
        },
{
    fields.map.get(name)
}

/// Calls `IndexMap::len`, which counts the entries.
#[verifier::external_body]
fn index_map_len(fields: &Fields) -> (len: usize)
    ensures
        len == field_entries(*fields).len(),
{
    fields.map.len()
}

/// Calls `IndexMap::get_index`, which gives the entry at a place in the order of
/// the map, and nothing where the place lies behind the last entry.
#[verifier::external_body]
fn index_map_get_index<'a>(fields: &'a Fields, index: usize) -> (entry: Option<
    (&'a String, &'a Value),
>)
    ensures
        match entry {
            Some((name, value)) => {
                &&& index < field_entries(*fields).len()
                &&& field_entries(*fields)[index as int] == (name@, value@)
            },
            None => index >= field_entries(*fields).len(),
        },
{
    fields.map.get_index(index)
}

impl Fields {
    /// The fields that come of setting each of a list in turn.
    pub fn from_entries(list: Vec<(String, Value)>) -> (fields: Fields)
        ensures
            fields@ == with_fields(list@),
    {
        let mut fields = index_map_new();
        for entry in it: list
            invariant
                it.seq() == list@,
                fields@ == with_fields(list@.take(it.index() as int)),
        {
            proof {
                let taken = list@.take(it.index() + 1);
                assert(taken.drop_last() =~= list@.take(it.index() as int));
                assert(taken.last() == entry);
            }
            let (name, value) = entry;
            index_map_insert(&mut fields, name, value);
        }
        proof {
            assert(list@.take(list@.len() as int) =~= list@);
        }
        fields
    }

    /// The value of the field with the given name, if there is one.
    pub fn get<'a>(&'a self, name: &str) -> (value: Option<&'a Value>)
        ensures
            match value {
                Some(value) => lookup(self@, name@) == Some(value@),
                None => lookup(self@, name@) is None,
            },
    {
        index_map_get(self, name)
    }

    /// The first of two fields if it is there, else the second.
    pub fn get_either<'a>(&'a self, name: &str, other: &str) -> (value: Option<&'a Value>)
        ensures
            match value {
                Some(value) => lookup_either(self@, name@, other@) == Some(value@),
                None => lookup_either(self@, name@, other@) is None,
            },
    {
        match self.get(name) {
            Some(value) => Some(value),
            None => self.get(other),
        }
    }

    /// How many fields there are.
    pub fn len(&self) -> (len: usize)
        ensures
            len == self@.len(),
    {
        index_map_len(self)
    }

    /// The field at a place in the order of the fields.
    pub fn get_index<'a>(&'a self, index: usize) -> (entry: Option<(&'a String, &'a Value)>)
        ensures
            match entry {
                Some((name, value)) => index < self@.len() && self@[index as int] == (
                    name@,
                    value@,
                ),
                None => index >= self@.len(),
            },
    {
        index_map_get_index(self, index)
    }

    /// The number that a field reads as, if it is there and reads as one.
    pub fn number(&self, name: &str) -> (number: Option<u64>)
        ensures
            number == as_number(lookup(self@, name@)),
    {
        match self.get(name) {
            Some(value) => value.as_u64(),
            None => None,
        }
    }
}

impl Value {
    /// The number that the value reads as, if it reads as one.
    pub fn as_u64(&self) -> (number: Option<u64>)
        ensures
            number == as_number(Some(self@)),
    {
        match self {
            Value::Number(number) => Some(*number),
            _ => None,
        }
    }

    /// The text that the value reads as, if it reads as text.
    pub fn as_string<'a>(&'a self) -> (text: Option<&'a String>)
        ensures
            match text {
                Some(text) => as_text(Some(self@)) == Some(text@),
                None => as_text(Some(self@)) is None,
            },
    {
        match self {
            Value::Text(text) => Some(text),
            _ => None,
        }
    }
}

/// A field is found where it was set.
proof fn lemma_position(entries: Seq<(Seq<char>, Tree)>, name: Seq<char>)
    ensures
        position(entries, name) <= entries.len(),
        position(entries, name) < entries.len() ==> {
            &&& entries[position(entries, name) as int].0 == name
            &&& lookup(entries, name) == Some(entries[position(entries, name) as int].1)
        },
        position(entries, name) == entries.len() ==> lookup(entries, name) is None,
        forall|i: int| 0 <= i < position(entries, name) ==> entries[i].0 != name,
    decreases entries.len(),
{
    if entries.len() > 0 && entries[0].0 != name {
        let rest = entries.drop_first();
        lemma_position(rest, name);
        assert forall|i: int| 0 <= i < position(entries, name) implies entries[i].0 != name by {
            if i > 0 {
                assert(rest[i - 1] == entries[i]);
            }
        }
        if position(rest, name) < rest.len() {
            assert(rest[position(rest, name) as int] == entries[position(rest, name) as int + 1]);
        }
    }
}

/// The value found is that at any place before which the name does not occur.
proof fn lemma_lookup_at(entries: Seq<(Seq<char>, Tree)>, name: Seq<char>, at: int)
    requires
        0 <= at < entries.len(),
        entries[at].0 == name,
        forall|i: int| 0 <= i < at ==> entries[i].0 != name,
    ensures
        lookup(entries, name) == Some(entries[at].1),
{
    lemma_position(entries, name);
    let found = position(entries, name);
    if found < at {
        assert(entries[found as int].0 != name);
    } else if found > at {
        assert(entries[at].0 != name);
    }
}

/// A field that was set reads back as it was set, and setting it changes no other field.
pub proof fn law_set_field_reads_back(
    entries: Seq<(Seq<char>, Tree)>,
    name: Seq<char>,
    value: Tree,
    other: Seq<char>,
)
    requires
        other != name,
    ensures
        lookup(with_field(entries, name, value), name) == Some(value),
        lookup(with_field(entries, name, value), other) == lookup(entries, other),
{
    let changed = with_field(entries, name, value);
    let at = position(entries, name) as int;
    lemma_position(entries, name);
    lemma_position(entries, other);
    lemma_lookup_at(changed, name, at);
    lemma_position(changed, other);
    let before = position(entries, other) as int;
    let after = position(changed, other) as int;
    if before < entries.len() {
        assert(changed[before].0 == other);
        lemma_lookup_at(changed, other, before);
    } else if after < changed.len() {
        assert(changed[after].0 == other);
        assert(after < entries.len() && entries[after].0 == other);
    }
}

/// A field that is found is smaller than the fields it is found among.
pub proof fn lemma_lookup_decreases(entries: Seq<(Seq<char>, Tree)>, name: Seq<char>)
    ensures
        match lookup(entries, name) {
            Some(value) => decreases_to!(entries => value),
            None => true,
        },
{
    lemma_position(entries, name);
    let at = position(entries, name) as int;
    if at < entries.len() {
        assert(decreases_to!(entries => entries[at]));
        assert(decreases_to!(entries[at] => entries[at].1));
    }
}

/// Setting a field that is there changes nothing but its value, and a field that is
/// not there comes behind all others.
pub proof fn law_setting_keeps_the_order(
    entries: Seq<(Seq<char>, Tree)>,
    name: Seq<char>,
    value: Tree,
)
    ensures
        lookup(entries, name) is None ==> with_field(entries, name, value) == entries.push(
            (name, value),
        ),
        lookup(entries, name) is Some ==> {
            let changed = with_field(entries, name, value);
            &&& changed.len() == entries.len()
            &&& forall|i: int| 0 <= i < entries.len() ==> (#[trigger] changed[i]).0 == entries[i].0
            &&& forall|i: int|
                0 <= i < entries.len() && entries[i].0 != name ==> #[trigger] changed[i]
                    == entries[i]
        },
{
    lemma_position(entries, name);
}

/// A field is found exactly if there is one with the name, and its value is that of
/// the first such field.
pub proof fn law_lookup_finds_the_first(entries: Seq<(Seq<char>, Tree)>, name: Seq<char>)
    ensures
        match lookup(entries, name) {
            Some(value) => exists|i: int|
                0 <= i < entries.len() && #[trigger] entries[i] == (name, value) && forall|k: int|
                    0 <= k < i ==> (#[trigger] entries[k]).0 != name,
            None => forall|i: int| 0 <= i < entries.len() ==> (#[trigger] entries[i]).0 != name,
        },
{
    lemma_position(entries, name);
    let at = position(entries, name) as int;
    if at < entries.len() {
        assert(entries[at] == (name, lookup(entries, name)->0));
    }
}

/// Of fields that were set one after the other, the last value set under a name is
/// found under it, and nothing is found under a name that was never set.
pub proof fn law_last_set_value_is_found(list: Seq<(String, Value)>, name: Seq<char>)
    ensures
        match lookup(with_fields(list), name) {
            Some(value) => exists|i: int|
                0 <= i < list.len() && (#[trigger] list[i]).0@ == name && list[i].1@ == value
                    && forall|k: int| i < k < list.len() ==> (#[trigger] list[k]).0@ != name,
            None => forall|i: int| 0 <= i < list.len() ==> (#[trigger] list[i]).0@ != name,
        },
    decreases list.len(),
{
    if list.len() > 0 {
        let shorter = list.drop_last();
        let last = list.last();
        law_last_set_value_is_found(shorter, name);
        if last.0@ == name {
            lemma_position(with_fields(shorter), name);
            let at = position(with_fields(shorter), name) as int;
            lemma_lookup_at(with_fields(list), name, at);
            assert(list[list.len() - 1].0@ == name);
        } else {
            law_set_field_reads_back(with_fields(shorter), last.0@, last.1@, name);
            if lookup(with_fields(shorter), name) is Some {
                let i = choose|i: int|
                    0 <= i < shorter.len() && (#[trigger] shorter[i]).0@ == name && shorter[i].1@
                        == lookup(with_fields(shorter), name)->0 && forall|k: int|
                        i < k < shorter.len() ==> (#[trigger] shorter[k]).0@ != name;
                assert(list[i] == shorter[i]);
                assert forall|k: int| i < k < list.len() implies (#[trigger] list[k]).0@ != name by {
                    if k < shorter.len() {
                        assert(shorter[k].0@ != name);
                    }
                }
            } else {
                assert forall|i: int| 0 <= i < list.len() implies (#[trigger] list[i]).0@ != name by {
                    if i < shorter.len() {
                        assert(shorter[i].0@ != name);
                    }
                }
            }
        }
    }
}

/// Of two fields the first counts, whatever it holds, and the second only where the
/// first is not there.
pub proof fn law_second_field_counts_only_without_the_first(
    entries: Seq<(Seq<char>, Tree)>,
    name: Seq<char>,
    other: Seq<char>,
)
    ensures
        lookup(entries, name) is Some ==> lookup_either(entries, name, other) == lookup(
            entries,
            name,
        ),
        lookup(entries, name) is None ==> lookup_either(entries, name, other) == lookup(
            entries,
            other,
        ),
{
}

/// The model of a value has its kind and its contents, item by item.
pub proof fn law_model_has_the_contents(value: Value)
    ensures
        match value {
            Value::Number(number) => value@ == Tree::Number(number),
            Value::Text(text) => value@ == Tree::Text(text@),
            Value::Guid(guid) => value@ == Tree::Guid(guid),
            Value::Struct(fields) => value@ == Tree::Struct(fields@),
            Value::Variant(fields) => value@ == Tree::Variant(fields@),
            Value::Other => value@ == Tree::Other,
            Value::Array(items) => {
                &&& value@ is Array
                &&& value@->Array_0.len() == items@.len()
                &&& forall|i: int|
                    0 <= i < items@.len() ==> #[trigger] value@->Array_0[i] == items@[i]@
            },
        },
{
}

} // verus!
