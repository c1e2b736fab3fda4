//! Choosing the resources or the content of an archive by a filter.
//!
//! A filter is a list of entries between commas. The entry `*` stands for
//! everything, and nothing behind it counts. In a filter of resources, an entry
//! that starts with `t` stands for the resources of a type. Every other entry
//! refers to one resource or one blob.

use crate::error::Error;
use crate::text::{
    chars_of, is_trimmed, law_list_entries_are_trimmed, law_lists_join, law_single_entry,
    list_entries, split_list, text_of, texts, white_char,
};
use vstd::prelude::*;
use vstd::string::*;

verus! {

// ---------------------------------------------------------------------------
// Entries
// ---------------------------------------------------------------------------

/// What a filter chooses from.
#[derive(Clone, Copy, Debug, PartialEq, Eq, Structural)]
pub enum FilterTarget {
    /// The resources of an archive.
    Resources,
    /// The content of an archive.
    Content,
}

/// An entry of a filter.
#[derive(Debug, PartialEq, Eq)]
pub enum FilterEntry {
    /// Everything.
    All,
    /// The resources of the type with this name.
    ByType(String),
    /// The resource or the blob that this refers to.
    Reference(String),
}

/// The model of an entry.
#[verifier::ext_equal]
pub enum EntryModel {
    All,
    ByType(Seq<char>),
    Reference(Seq<char>),
}

impl View for FilterEntry {
    type V = EntryModel;

    open spec fn view(&self) -> EntryModel {
        match *self {
            FilterEntry::All => EntryModel::All,
            FilterEntry::ByType(name) => EntryModel::ByType(name@),
            FilterEntry::Reference(entry) => EntryModel::Reference(entry@),
        }
    }
}

/// The entry that a text stands for.
pub open spec fn entry_of(target: FilterTarget, text: Seq<char>) -> EntryModel {
    if text == "*"@ {
        EntryModel::All
    } else if target == FilterTarget::Resources && text.len() > 0 && text[0] == 't' {
        EntryModel::ByType(text.drop_first())
    } else {
        EntryModel::Reference(text)
    }
}

/// The entries of a filter, all of them.
pub open spec fn all_entries(target: FilterTarget, text: Seq<char>) -> Seq<EntryModel> {
    list_entries(text).map_values(|entry: Seq<char>| entry_of(target, entry))
}

/// The place of the first entry that stands for everything, or the number of entries.
pub open spec fn first_all(entries: Seq<EntryModel>) -> nat
    decreases entries.len(),
{
    if entries.len() == 0 || entries[0] is All {
        0
    } else {
        1 + first_all(entries.drop_first())
    }
}

/// The entries of a filter that count: those up to the first that stands for
/// everything.
pub open spec fn filter_entries_of(target: FilterTarget, text: Seq<char>) -> Seq<EntryModel> {
    let entries = all_entries(target, text);
    let stop = first_all(entries);
    if stop < entries.len() {
        entries.take(stop as int + 1)
    } else {
        entries
    }
}

/// The models of a list of entries.
pub open spec fn entry_models(entries: Seq<FilterEntry>) -> Seq<EntryModel> {
    entries.map_values(|entry: FilterEntry| entry@)
}

/// The first entry that stands for everything is the first, indeed.
proof fn lemma_first_all(entries: Seq<EntryModel>)
    ensures
        first_all(entries) <= entries.len(),
        first_all(entries) < entries.len() ==> entries[first_all(entries) as int] is All,
        forall|i: int| 0 <= i < first_all(entries) ==> !(#[trigger] entries[i] is All),
    decreases entries.len(),
{
    if entries.len() > 0 && !(entries[0] is All) {
        let rest = entries.drop_first();
        lemma_first_all(rest);
        assert forall|i: int| 0 <= i < first_all(entries) implies !(
        #[trigger] entries[i] is All) by {
            if i > 0 {
                assert(rest[i - 1] == entries[i]);
            }
        }
        if first_all(rest) < rest.len() {
            assert(rest[first_all(rest) as int] == entries[first_all(rest) as int + 1]);
        }
    }
}

/// The entry that a text stands for.
fn read_entry(target: FilterTarget, text: &String) -> (entry: FilterEntry)
    ensures
        entry@ == entry_of(target, text@),
{
    if *text.as_str() == *"*" {
        return FilterEntry::All;
    }
    let chars = chars_of(text.as_str());
    if target == FilterTarget::Resources && chars.len() > 0 && chars[0] == 't' {
        proof {
            assert(text@.subrange(1, text@.len() as int) =~= text@.drop_first());
        }
        FilterEntry::ByType(text_of(&chars, 1, chars.len()))
    } else {
        FilterEntry::Reference(text.clone())
    }
}

/// The entries of a filter that count.
pub fn filter_entries(target: FilterTarget, text: &str) -> (entries: Vec<FilterEntry>)
    ensures
        entry_models(entries@) == filter_entries_of(target, text@),
{
    let list = split_list(text);
    let ghost all = all_entries(target, text@);
    let mut entries: Vec<FilterEntry> = Vec::new();
    let mut i: usize = 0;
    proof {
        lemma_first_all(all);
        assert(all.len() == list@.len());
        assert(entry_models(entries@) =~= all.take(0));
    }
    while i < list.len()
        invariant
            texts(list@) == list_entries(text@),
            all == all_entries(target, text@),
            i <= list@.len() == all.len(),
            entry_models(entries@) == all.take(i as int),
            i <= first_all(all) <= all.len(),
            first_all(all) < all.len() ==> all[first_all(all) as int] is All,
            forall|k: int| 0 <= k < first_all(all) ==> !(#[trigger] all[k] is All),
        decreases list@.len() - i,
    {
        let entry = read_entry(target, &list[i]);
        proof {
            assert(texts(list@)[i as int] == list@[i as int]@);
            assert(all[i as int] == entry@);
            assert(all.take(i + 1) =~= all.take(i as int).push(entry@));
        }
        let ghost before = entries@;
        let last = match entry {
            FilterEntry::All => true,
            _ => false,
        };
        entries.push(entry);
        proof {
            assert(entry_models(entries@) =~= entry_models(before).push(entry@));
        }
        if last {
            return entries;
        }
        i = i + 1;
    }
    proof {
        assert(all.take(all.len() as int) =~= all);
    }
    entries
}

/// The entries that count are the first of all entries, and at most the last of
/// them stands for everything.
pub proof fn law_star_ends_the_filter(target: FilterTarget, text: Seq<char>)
    ensures
        filter_entries_of(target, text).len() <= all_entries(target, text).len(),
        filter_entries_of(target, text).is_prefix_of(all_entries(target, text)),
        forall|i: int|
            0 <= i < filter_entries_of(target, text).len() - 1 ==> !(#[trigger] filter_entries_of(
                target,
                text,
            )[i] is All),
{
    lemma_first_all(all_entries(target, text));
}

/// A filter that is made of two has the entries of the first and then those of the
/// second, and none of them is empty.
pub proof fn law_filters_join(target: FilterTarget, a: Seq<char>, b: Seq<char>)
    ensures
        all_entries(target, a + seq![','] + b) == all_entries(target, a) + all_entries(target, b),
        forall|i: int|
            0 <= i < all_entries(target, a).len() ==> match #[trigger] all_entries(target, a)[i] {
                EntryModel::Reference(text) => text.len() > 0,
                _ => true,
            },
{
    let read = |entry: Seq<char>| entry_of(target, entry);
    law_lists_join(a, b);
    assert((list_entries(a) + list_entries(b)).map_values(read) =~= list_entries(a).map_values(read)
        + list_entries(b).map_values(read));
    assert forall|i: int| 0 <= i < all_entries(target, a).len() implies match #[trigger] all_entries(
        target,
        a,
    )[i] {
        EntryModel::Reference(text) => text.len() > 0,
        _ => true,
    } by {
        law_list_entries_are_trimmed(a, i);
    }
}

// ---------------------------------------------------------------------------
// Selection
// ---------------------------------------------------------------------------

/// What a reference turned out to refer to.
pub struct Reference {
    /// The reference in its canonical spelling.
    pub shown: String,
    /// The place in the archive of what it refers to, if the archive holds it.
    pub position: Option<usize>,
}

/// An entry of a filter, with what it turned out to stand for.
pub enum ResolvedEntry {
    /// Everything.
    All,
    /// The resources of a type: its name, and its hash if the type is known.
    ByType(String, Option<u32>),
    /// A reference: its text, and what it refers to if it can be read.
    Reference(String, Option<Reference>),
}

/// Whether an entry cannot be read.
pub open spec fn is_invalid(entry: ResolvedEntry) -> bool {
    match entry {
        ResolvedEntry::Reference(_, None) => true,
        _ => false,
    }
}

/// Whether an entry stands for something that is not there.
pub open spec fn is_missing(entry: ResolvedEntry) -> bool {
    match entry {
        ResolvedEntry::ByType(_, None) => true,
        ResolvedEntry::Reference(_, Some(reference)) => reference.position is None,
        _ => false,
    }
}

/// Whether an entry chooses the item at a place of the archive.
pub open spec fn chooses(entry: ResolvedEntry, type_hashes: Seq<u32>, at: int) -> bool {
    match entry {
        ResolvedEntry::All => true,
        ResolvedEntry::ByType(_, Some(hash)) => at < type_hashes.len() && type_hashes[at] == hash,
        ResolvedEntry::Reference(_, Some(reference)) => match reference.position {
            Some(position) => position == at,
            None => false,
        },
        _ => false,
    }
}

/// What is said of an entry that cannot be read.
pub open spec fn invalid_text(target: FilterTarget, entry: ResolvedEntry) -> Seq<char> {
    let text = match entry {
        ResolvedEntry::Reference(text, _) => text@,
        _ => Seq::empty(),
    };
    match target {
        FilterTarget::Resources => "`"@ + text + "` is not a valid guid"@,
        FilterTarget::Content => "`"@ + text + "` is not a valid content hash"@,
    }
}

/// What is said of an entry that stands for something that is not there.
pub open spec fn missing_text(target: FilterTarget, entry: ResolvedEntry) -> Seq<char> {
    match entry {
        ResolvedEntry::ByType(name, _) => "Type not found: "@ + name@,
        ResolvedEntry::Reference(_, Some(reference)) => match target {
            FilterTarget::Resources => "GUID not found: "@ + reference.shown@,
            FilterTarget::Content => "Content hash not found: "@ + reference.shown@,
        },
        _ => Seq::empty(),
    }
}

/// The place of the first entry that satisfies a condition, or the number of entries.
pub open spec fn first_where(
    entries: Seq<ResolvedEntry>,
    condition: spec_fn(ResolvedEntry) -> bool,
) -> nat
    decreases entries.len(),
{
    if entries.len() == 0 || condition(entries[0]) {
        0
    } else {
        1 + first_where(entries.drop_first(), condition)
    }
}

/// What a filter comes to: an error text, or the condition that says which places
/// of the archive are chosen.
pub enum Choice {
    Failure(Seq<char>),
    Places(spec_fn(int) -> bool),
}

/// What a filter comes to. Entries that cannot be read are found first, unless
/// they stand behind an entry for everything. An entry for everything then chooses
/// everything. Without one, every entry has to stand for something that is there,
/// and what any of them chooses is chosen.
pub open spec fn choice_of(
    target: FilterTarget,
    entries: Seq<ResolvedEntry>,
    type_hashes: Seq<u32>,
) -> Choice {
    let all = first_where(entries, |entry: ResolvedEntry| entry is All);
    let invalid = first_where(entries, |entry: ResolvedEntry| is_invalid(entry));
    let missing = first_where(entries, |entry: ResolvedEntry| is_missing(entry));
    if invalid < all {
        Choice::Failure(invalid_text(target, entries[invalid as int]))
    } else if all < entries.len() {
        Choice::Places(|at: int| true)
    } else if missing < entries.len() {
        Choice::Failure(missing_text(target, entries[missing as int]))
    } else {
        Choice::Places(
            |at: int|
                exists|i: int|
                    0 <= i < entries.len() && chooses(#[trigger] entries[i], type_hashes, at),
        )
    }
}

/// The first place where a condition holds is the first, indeed.
proof fn lemma_first_where(
    entries: Seq<ResolvedEntry>,
    condition: spec_fn(ResolvedEntry) -> bool,
)
    ensures
        first_where(entries, condition) <= entries.len(),
        first_where(entries, condition) < entries.len() ==> condition(
            entries[first_where(entries, condition) as int],
        ),
        forall|i: int|
            0 <= i < first_where(entries, condition) ==> !condition(#[trigger] entries[i]),
    decreases entries.len(),
{
    if entries.len() > 0 && !condition(entries[0]) {
        let rest = entries.drop_first();
        lemma_first_where(rest, condition);
        assert forall|i: int| 0 <= i < first_where(entries, condition) implies !condition(
            #[trigger] entries[i],
        ) by {
            if i > 0 {
                assert(rest[i - 1] == entries[i]);
            }
        }
        if first_where(rest, condition) < rest.len() {
            assert(rest[first_where(rest, condition) as int] == entries[first_where(
                rest,
                condition,
            ) as int + 1]);
        }
    }
}

/// A place with nothing before it is the first.
proof fn lemma_is_first_where(
    entries: Seq<ResolvedEntry>,
    condition: spec_fn(ResolvedEntry) -> bool,
    at: int,
)
    requires
        0 <= at <= entries.len(),
        at < entries.len() ==> condition(entries[at]),
        forall|i: int| 0 <= i < at ==> !condition(#[trigger] entries[i]),
    ensures
        first_where(entries, condition) == at,
{
    lemma_first_where(entries, condition);
    let found = first_where(entries, condition) as int;
    if found < at {
        assert(!condition(entries[found]));
    } else if found > at {
        assert(!condition(entries[at]));
    }
}

/// Whether places are in order, each of them once.
pub open spec fn ascending(places: Seq<usize>) -> bool {
    forall|i: int, j: int| 0 <= i < j < places.len() ==> places[i] < places[j]
}

/// The places that are marked, in order.
pub(crate) fn marked_places(marks: &Vec<bool>) -> (places: Vec<usize>)
    ensures
        ascending(places@),
        forall|at: usize| #[trigger]
            places@.contains(at) <==> at < marks@.len() && marks@[at as int],
{
    let mut places: Vec<usize> = Vec::new();
    let mut i: usize = 0;
    while i < marks.len()
        invariant
            i <= marks@.len(),
            ascending(places@),
            forall|k: int| 0 <= k < places@.len() ==> places@[k] < i,
            forall|at: usize| #[trigger] places@.contains(at) <==> at < i && marks@[at as int],
        decreases marks@.len() - i,
    {
        if marks[i] {
            let ghost before = places@;
            places.push(i);
            proof {
                assert(places@[before.len() as int] == i);
                assert forall|at: usize| #[trigger] places@.contains(at) implies at < i + 1
                    && marks@[at as int] by {
                    let k = choose|k: int| 0 <= k < places@.len() && places@[k] == at;
                    if k < before.len() {
                        assert(before[k] == at);
                        assert(before.contains(at));
                    }
                }
                assert forall|at: usize| at < i + 1 && marks@[at as int] implies #[trigger]
                places@.contains(at) by {
                    if at < i {
                        assert(before.contains(at));
                        let k = choose|k: int| 0 <= k < before.len() && before[k] == at;
                        assert(places@[k] == at);
                    }
                }
            }
        }
        i = i + 1;
    }
    places
}

/// The places of the archive that a filter chooses, in order. `count` is the
/// number of items in the archive, and `type_hashes` holds the type hash of each
/// resource.
pub fn select(
    target: FilterTarget,
    entries: &Vec<ResolvedEntry>,
    count: usize,
    type_hashes: &Vec<u32>,
) -> (selection: Result<Vec<usize>, Error>)
    ensures
        match choice_of(target, entries@, type_hashes@) {
            Choice::Failure(text) => match selection {
                Ok(_) => false,
                Err(error) => error@ == text,
            },
            Choice::Places(chosen) => match selection {
                Ok(places) => {
                    &&& ascending(places@)
                    &&& forall|at: usize| #[trigger]
                        places@.contains(at) <==> at < count && chosen(at as int)
                },
                Err(_) => false,
            },
        },
{
    let ghost is_all = |entry: ResolvedEntry| entry is All;
    let ghost invalid = |entry: ResolvedEntry| is_invalid(entry);
    let mut i: usize = 0;
    while i < entries.len()
        invariant
            i <= entries@.len(),
            is_all == |entry: ResolvedEntry| entry is All,
            invalid == |entry: ResolvedEntry| is_invalid(entry),
            forall|k: int| 0 <= k < i ==> !is_all(#[trigger] entries@[k]),
            forall|k: int| 0 <= k < i ==> !invalid(#[trigger] entries@[k]),
        decreases entries@.len() - i,
    {
        match &entries[i] {
            ResolvedEntry::All => {
                proof {
                    lemma_is_first_where(entries@, is_all, i as int);
                    lemma_first_where(entries@, invalid);
                    if first_where(entries@, invalid) < i {
                        assert(!invalid(entries@[first_where(entries@, invalid) as int]));
                    }
                }
                return Ok(all_places(count));
            },
            ResolvedEntry::Reference(text, None) => {
                proof {
                    lemma_is_first_where(entries@, invalid, i as int);
                    lemma_first_where(entries@, is_all);
                    if first_where(entries@, is_all) <= i {
                        assert(!is_all(entries@[i as int]));
                    }
                }
                return Err(
                    match target {
                        FilterTarget::Resources => Error::of(
                            "`",
                            text.as_str(),
                            "` is not a valid guid",
                        ),
                        FilterTarget::Content => Error::of(
                            "`",
                            text.as_str(),
                            "` is not a valid content hash",
                        ),
                    },
                );
            },
            _ => {},
        }
        i = i + 1;
    }
    proof {
        lemma_is_first_where(entries@, is_all, i as int);
        lemma_is_first_where(entries@, invalid, i as int);
    }
    select_each(target, entries, count, type_hashes)
}

/// Marks the places of the resources that have the given type hash.
fn mark_type(marks: &mut Vec<bool>, type_hashes: &Vec<u32>, hash: u32)
    ensures
        final(marks)@.len() == old(marks)@.len(),
        forall|at: int|
            0 <= at < old(marks)@.len() ==> (#[trigger] final(marks)@[at] <==> old(marks)@[at] || (
            at < type_hashes@.len() && type_hashes@[at] == hash)),
{
    let ghost before = marks@;
    let mut i: usize = 0;
    while i < marks.len() && i < type_hashes.len()
        invariant
            i <= marks@.len() == before.len(),
            i <= type_hashes@.len(),
            forall|at: int|
                0 <= at < before.len() ==> (#[trigger] marks@[at] <==> before[at] || (at < i
                    && type_hashes@[at] == hash)),
        decreases marks@.len() - i,
    {
        if type_hashes[i] == hash {
            marks.set(i, true);
        }
        i = i + 1;
    }
}

/// All places of an archive, in order.
fn all_places(count: usize) -> (places: Vec<usize>)
    ensures
        ascending(places@),
        forall|at: usize| #[trigger] places@.contains(at) <==> at < count,
{
    let mut places: Vec<usize> = Vec::new();
    let mut i: usize = 0;
    while i < count
        invariant
            i <= count,
            places@.len() == i,
            forall|k: int| 0 <= k < i ==> places@[k] == k,
        decreases count - i,
    {
        places.push(i);
        i = i + 1;
    }
    proof {
        assert forall|at: usize| at < count implies #[trigger] places@.contains(at) by {
            assert(places@[at as int] == at);
        }
    }
    places
}

/// The places that the entries choose, where none of them stands for everything
/// and all of them can be read.
fn select_each(
    target: FilterTarget,
    entries: &Vec<ResolvedEntry>,
    count: usize,
    type_hashes: &Vec<u32>,
) -> (selection: Result<Vec<usize>, Error>)
    requires
        forall|i: int| 0 <= i < entries@.len() ==> !(#[trigger] entries@[i] is All),
        forall|i: int| 0 <= i < entries@.len() ==> !is_invalid(#[trigger] entries@[i]),
    ensures
        ({
            let missing = first_where(entries@, |entry: ResolvedEntry| is_missing(entry));
            if missing < entries@.len() {
                match selection {
                    Ok(_) => false,
                    Err(error) => error@ == missing_text(target, entries@[missing as int]),
                }
            } else {
                match selection {
                    Ok(places) => {
                        &&& ascending(places@)
                        &&& forall|at: usize| #[trigger]
                            places@.contains(at) <==> at < count && exists|i: int|
                                0 <= i < entries@.len() && chooses(
                                    #[trigger] entries@[i],
                                    type_hashes@,
                                    at as int,
                                )
                    },
                    Err(_) => false,
                }
            }
        }),
{
    let ghost missing = |entry: ResolvedEntry| is_missing(entry);
    let mut marks: Vec<bool> = Vec::new();
    let mut i: usize = 0;
    while i < count
        invariant
            i <= count,
            marks@.len() == i,
            forall|at: int| 0 <= at < i ==> !(#[trigger] marks@[at]),
        decreases count - i,
    {
        marks.push(false);
        i = i + 1;
    }
    i = 0;
    while i < entries.len()
        invariant
            i <= entries@.len(),
            marks@.len() == count,
            missing == |entry: ResolvedEntry| is_missing(entry),
            forall|k: int| 0 <= k < entries@.len() ==> !(#[trigger] entries@[k] is All),
            forall|k: int| 0 <= k < entries@.len() ==> !is_invalid(#[trigger] entries@[k]),
            forall|k: int| 0 <= k < i ==> !missing(#[trigger] entries@[k]),
            forall|at: int|
                0 <= at < count ==> (#[trigger] marks@[at] <==> exists|k: int|
                    0 <= k < i && chooses(#[trigger] entries@[k], type_hashes@, at)),
        decreases entries@.len() - i,
    {
        proof {
            if missing(entries@[i as int]) {
                lemma_is_first_where(entries@, missing, i as int);
            }
        }
        let ghost before = marks@;
        match &entries[i] {
            ResolvedEntry::ByType(name, None) => {
                return Err(Error::with("Type not found: ", name.as_str()));
            },
            ResolvedEntry::ByType(_, Some(hash)) => {
                mark_type(&mut marks, type_hashes, *hash);
            },
            ResolvedEntry::Reference(_, Some(reference)) => {
                match reference.position {
                    Some(position) => {
                        if position < count {
                            marks.set(position, true);
                        }
                    },
                    None => {
                        let shown = reference.shown.as_str();
                        return Err(
                            match target {
                                FilterTarget::Resources => Error::with("GUID not found: ", shown),
                                FilterTarget::Content => Error::with(
                                    "Content hash not found: ",
                                    shown,
                                ),
                            },
                        );
                    },
                }
            },
            _ => {},
        }
        proof {
            assert forall|at: int| 0 <= at < count implies (#[trigger] marks@[at] <==> exists|
                k: int,
            |
                0 <= k < i + 1 && chooses(#[trigger] entries@[k], type_hashes@, at)) by {
                assert(marks@[at] <==> before[at] || chooses(entries@[i as int], type_hashes@, at));
            }
        }
        i = i + 1;
    }
    proof {
        lemma_is_first_where(entries@, missing, i as int);
    }
    Ok(marked_places(&marks))
}

/// Whether an entry can be read, stands for something that is there, and does not
/// stand for everything.
pub open spec fn is_plain(entry: ResolvedEntry) -> bool {
    !(entry is All) && !is_invalid(entry) && !is_missing(entry)
}

/// An entry for everything chooses everything, as long as every entry in front of
/// it can be read; that one of those stands for something that is not there does
/// not matter then.
pub proof fn law_star_chooses_everything(
    target: FilterTarget,
    entries: Seq<ResolvedEntry>,
    type_hashes: Seq<u32>,
    star: int,
    at: int,
)
    requires
        0 <= star < entries.len(),
        entries[star] is All,
        forall|i: int| 0 <= i < star ==> !is_invalid(#[trigger] entries[i]),
    ensures
        match choice_of(target, entries, type_hashes) {
            Choice::Places(chosen) => chosen(at),
            Choice::Failure(_) => false,
        },
{
    let is_all = |entry: ResolvedEntry| entry is All;
    let invalid = |entry: ResolvedEntry| is_invalid(entry);
    lemma_first_where(entries, is_all);
    lemma_first_where(entries, invalid);
    assert(first_where(entries, is_all) <= star) by {
        if first_where(entries, is_all) > star {
            assert(!is_all(entries[star]));
        }
    }
    if first_where(entries, invalid) < first_where(entries, is_all) {
        assert(invalid(entries[first_where(entries, invalid) as int]));
    }
}

/// A filter without entries chooses nothing.
pub proof fn law_empty_filter_chooses_nothing(
    target: FilterTarget,
    type_hashes: Seq<u32>,
    at: int,
)
    ensures
        match choice_of(target, Seq::empty(), type_hashes) {
            Choice::Places(chosen) => !chosen(at),
            Choice::Failure(_) => false,
        },
{
}

/// Plain entries never fail, and choose exactly what any of them chooses.
pub proof fn law_plain_entries_choose_what_any_chooses(
    target: FilterTarget,
    entries: Seq<ResolvedEntry>,
    type_hashes: Seq<u32>,
    at: int,
)
    requires
        forall|i: int| 0 <= i < entries.len() ==> is_plain(#[trigger] entries[i]),
    ensures
        match choice_of(target, entries, type_hashes) {
            Choice::Places(chosen) => chosen(at) <==> exists|i: int|
                0 <= i < entries.len() && chooses(#[trigger] entries[i], type_hashes, at),
            Choice::Failure(_) => false,
        },
{
    lemma_is_first_where(entries, |entry: ResolvedEntry| entry is All, entries.len() as int);
    lemma_is_first_where(entries, |entry: ResolvedEntry| is_invalid(entry), entries.len() as int);
    lemma_is_first_where(entries, |entry: ResolvedEntry| is_missing(entry), entries.len() as int);
}

/// The order of plain entries does not matter, nor how often each of them stands
/// in the filter.
pub proof fn law_order_of_plain_entries_does_not_matter(
    target: FilterTarget,
    entries: Seq<ResolvedEntry>,
    other: Seq<ResolvedEntry>,
    type_hashes: Seq<u32>,
    at: int,
)
    requires
        forall|i: int| 0 <= i < entries.len() ==> is_plain(#[trigger] entries[i]),
        entries.to_set() == other.to_set(),
    ensures
        match (choice_of(target, entries, type_hashes), choice_of(target, other, type_hashes)) {
            (Choice::Places(chosen), Choice::Places(other_chosen)) => chosen(at) == other_chosen(
                at,
            ),
            _ => false,
        },
{
    assert forall|i: int| 0 <= i < other.len() implies is_plain(#[trigger] other[i]) by {
        assert(other.to_set().contains(other[i]));
        assert(entries.contains(other[i]));
    }
    law_plain_entries_choose_what_any_chooses(target, entries, type_hashes, at);
    law_plain_entries_choose_what_any_chooses(target, other, type_hashes, at);
    assert forall|i: int|
        0 <= i < entries.len() && chooses(
            #[trigger] entries[i],
            type_hashes,
            at,
        ) implies exists|k: int|
        0 <= k < other.len() && chooses(#[trigger] other[k], type_hashes, at) by {
        assert(entries.to_set().contains(entries[i]));
        assert(other.contains(entries[i]));
    }
    assert forall|i: int|
        0 <= i < other.len() && chooses(#[trigger] other[i], type_hashes, at) implies exists|
        k: int,
    |
        0 <= k < entries.len() && chooses(#[trigger] entries[k], type_hashes, at) by {
        assert(other.to_set().contains(other[i]));
        assert(entries.contains(other[i]));
    }
}

/// A star stands for everything. In a filter of resources, `t` and a name stand for the
/// type with that name. Every other text refers to one resource or one blob, and in a
/// filter of content a text that starts with `t` does too.
pub proof fn law_forms_of_entries(text: Seq<char>, name: Seq<char>, target: FilterTarget)
    ensures
        entry_of(target, seq!['*']) == EntryModel::All,
        entry_of(FilterTarget::Resources, seq!['t'] + name) == EntryModel::ByType(name),
        entry_of(FilterTarget::Content, seq!['t'] + name) == EntryModel::Reference(
            seq!['t'] + name,
        ),
        text.len() > 0 && text[0] != 't' && text != seq!['*'] ==> entry_of(target, text)
            == EntryModel::Reference(text),
{
    reveal_strlit("*");
    assert("*"@ =~= seq!['*']);
    assert((seq!['t'] + name)[0] == 't');
    assert((seq!['t'] + name).drop_first() =~= name);
}

/// Every entry counts, unless one that counts stands for everything; and such an entry
/// is the last that counts.
pub proof fn law_only_a_star_cuts_the_filter(target: FilterTarget, text: Seq<char>)
    ensures
        filter_entries_of(target, text) == all_entries(target, text) || (filter_entries_of(
            target,
            text,
        ).len() > 0 && filter_entries_of(target, text).last() is All),
        filter_entries_of(target, text).is_prefix_of(all_entries(target, text)),
        (forall|i: int|
            0 <= i < all_entries(target, text).len() ==> !(#[trigger] all_entries(
                target,
                text,
            )[i] is All)) ==> filter_entries_of(target, text) == all_entries(target, text),
{
    lemma_first_all(all_entries(target, text));
}

/// A filter of one entry, with white space around it, has just that entry.
pub proof fn law_single_entry_of_a_filter(
    target: FilterTarget,
    before: Seq<char>,
    entry: Seq<char>,
    after: Seq<char>,
)
    requires
        is_trimmed(entry),
        !entry.contains(','),
        forall|i: int| 0 <= i < before.len() ==> white_char(#[trigger] before[i]),
        forall|i: int| 0 <= i < after.len() ==> white_char(#[trigger] after[i]),
    ensures
        filter_entries_of(target, before + entry + after) == seq![entry_of(target, entry)],
{
    law_single_entry(before, entry, after);
    assert(all_entries(target, before + entry + after) =~= seq![entry_of(target, entry)]);
    lemma_first_all(all_entries(target, before + entry + after));
}

/// A reference that cannot be read, with no star and no other such reference in front
/// of it, is what the filter fails on, whatever else stands in the filter.
pub proof fn law_first_unreadable_reference_is_reported(
    target: FilterTarget,
    entries: Seq<ResolvedEntry>,
    type_hashes: Seq<u32>,
    at: int,
    text: String,
)
    requires
        0 <= at < entries.len(),
        entries[at] == ResolvedEntry::Reference(text, None),
        forall|i: int|
            0 <= i < at ==> match #[trigger] entries[i] {
                ResolvedEntry::All => false,
                ResolvedEntry::ByType(_, _) => true,
                ResolvedEntry::Reference(_, found) => found is Some,
            },
    ensures
        choice_of(FilterTarget::Resources, entries, type_hashes) == Choice::Failure(
            "`"@ + text@ + "` is not a valid guid"@,
        ),
        choice_of(FilterTarget::Content, entries, type_hashes) == Choice::Failure(
            "`"@ + text@ + "` is not a valid content hash"@,
        ),
{
    let is_all = |entry: ResolvedEntry| entry is All;
    let invalid = |entry: ResolvedEntry| is_invalid(entry);
    lemma_is_first_where(entries, invalid, at);
    lemma_first_where(entries, is_all);
    if first_where(entries, is_all) <= at {
        assert(is_all(entries[first_where(entries, is_all) as int]));
    }
}

/// In a filter without a star whose references can all be read, the first type that is
/// not known and the first reference to what is not there are what the filter fails on.
pub proof fn law_first_missing_entry_is_reported(
    target: FilterTarget,
    entries: Seq<ResolvedEntry>,
    type_hashes: Seq<u32>,
    at: int,
)
    requires
        0 <= at < entries.len(),
        forall|i: int|
            0 <= i < entries.len() ==> match #[trigger] entries[i] {
                ResolvedEntry::All => false,
                ResolvedEntry::ByType(_, hash) => i < at ==> hash is Some,
                ResolvedEntry::Reference(_, found) => found is Some && (i < at
                    ==> found->0.position is Some),
            },
    ensures
        match entries[at] {
            ResolvedEntry::ByType(name, None) => choice_of(target, entries, type_hashes)
                == Choice::Failure("Type not found: "@ + name@),
            ResolvedEntry::Reference(_, Some(reference)) => reference.position is None ==> {
                &&& choice_of(FilterTarget::Resources, entries, type_hashes) == Choice::Failure(
                    "GUID not found: "@ + reference.shown@,
                )
                &&& choice_of(FilterTarget::Content, entries, type_hashes) == Choice::Failure(
                    "Content hash not found: "@ + reference.shown@,
                )
            },
            _ => true,
        },
{
    lemma_is_first_where(entries, |entry: ResolvedEntry| entry is All, entries.len() as int);
    lemma_is_first_where(entries, |entry: ResolvedEntry| is_invalid(entry), entries.len() as int);
    let missing = |entry: ResolvedEntry| is_missing(entry);
    if is_missing(entries[at]) {
        assert forall|i: int| 0 <= i < at implies !missing(#[trigger] entries[i]) by {
            assert(match entries[i] {
                ResolvedEntry::All => false,
                ResolvedEntry::ByType(_, hash) => hash is Some,
                ResolvedEntry::Reference(_, found) => found is Some && found->0.position is Some,
            });
        }
        lemma_is_first_where(entries, missing, at);
    }
}

/// Where every entry stands for something, a resource is chosen exactly if some entry
/// has the hash of its type, or some entry refers to its place.
pub proof fn law_what_is_chosen(
    target: FilterTarget,
    entries: Seq<ResolvedEntry>,
    type_hashes: Seq<u32>,
    at: int,
)
    requires
        0 <= at < type_hashes.len(),
        forall|i: int|
            0 <= i < entries.len() ==> match #[trigger] entries[i] {
                ResolvedEntry::All => false,
                ResolvedEntry::ByType(_, hash) => hash is Some,
                ResolvedEntry::Reference(_, found) => found is Some && found->0.position is Some,
            },
    ensures
        match choice_of(target, entries, type_hashes) {
            Choice::Places(chosen) => chosen(at) <==> exists|i: int|
                0 <= i < entries.len() && match #[trigger] entries[i] {
                    ResolvedEntry::ByType(_, hash) => hash == Some(type_hashes[at]),
                    ResolvedEntry::Reference(_, found) => found->0.position->0 == at,
                    _ => false,
                },
            Choice::Failure(_) => false,
        },
{
    law_plain_entries_choose_what_any_chooses(target, entries, type_hashes, at);
    assert forall|i: int|
        0 <= i < entries.len() implies (chooses(#[trigger] entries[i], type_hashes, at)
        <==> match entries[i] {
        ResolvedEntry::ByType(_, hash) => hash == Some(type_hashes[at]),
        ResolvedEntry::Reference(_, found) => found->0.position->0 == at,
        _ => false,
    }) by {
        assert(is_plain(entries[i]));
    }
}

/// A blob, which has no type, is chosen exactly if some entry refers to its place.
pub proof fn law_what_is_chosen_of_the_content(
    entries: Seq<ResolvedEntry>,
    at: int,
)
    requires
        at >= 0,
        forall|i: int|
            0 <= i < entries.len() ==> match #[trigger] entries[i] {
                ResolvedEntry::Reference(_, found) => found is Some && found->0.position is Some,
                _ => false,
            },
    ensures
        match choice_of(FilterTarget::Content, entries, Seq::empty()) {
            Choice::Places(chosen) => chosen(at) <==> exists|i: int|
                0 <= i < entries.len() && (#[trigger] entries[i])->Reference_1->0.position->0
                    == at,
            Choice::Failure(_) => false,
        },
{
    law_plain_entries_choose_what_any_chooses(FilterTarget::Content, entries, Seq::empty(), at);
    assert forall|i: int| 0 <= i < entries.len() implies (chooses(
        #[trigger] entries[i],
        Seq::empty(),
        at,
    ) <==> entries[i]->Reference_1->0.position->0 == at) by {
        assert(is_plain(entries[i]));
    }
}

/// Places in order grow from each to the next, so that none occurs twice.
pub proof fn law_places_grow(places: Seq<usize>, i: int)
    requires
        ascending(places),
        0 <= i < places.len() - 1,
    ensures
        places[i] < places[i + 1],
        places.no_duplicates(),
{
}

} // verus!
