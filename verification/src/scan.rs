//! Scanning decoded resources for the content they refer to.

use crate::content_map::ContentMap;
use crate::debug_names::{known_names, DebugNames};
use crate::metadata::{
    content_hash_of, extract_content_hash_from_data, extract_image_metadata, extract_named_audio,
    extract_named_image, image_metadata, image_shape, is_sized, named_audio, named_image,
    ContentMetadata, MetadataModel,
};
use crate::pixel_format::PixelFormat;
use crate::text::optional_text;
use crate::value::{
    as_text, lemma_lookup_decreases, lookup, lookup_either, ContentHash, Fields, Guid, Tree, Value,
};
use vstd::prelude::*;

verus! {

// ---------------------------------------------------------------------------
// What a value says of content
// ---------------------------------------------------------------------------

/// One thing that a value says of a content blob.
#[verifier::ext_equal]
pub struct Finding {
    /// The blob.
    pub hash: ContentHash,
    /// What the blob is.
    pub metadata: MetadataModel,
    /// Whether this takes the place of what was known of the blob before.
    pub replaces: bool,
}

/// The one finding that metadata make, if there are any.
pub open spec fn found(
    hash: ContentHash,
    metadata: Option<MetadataModel>,
    replaces: bool,
) -> Seq<Finding> {
    match metadata {
        Some(metadata) => seq![Finding { hash, metadata, replaces }],
        None => Seq::empty(),
    }
}

/// What a guid says: if it spells a content hash, the fields around it describe
/// the blob, as an image or else as a sound.
pub open spec fn guid_findings(guid: Guid, parent: Option<Seq<(Seq<char>, Tree)>>) -> Seq<
    Finding,
> {
    match (guid.content, parent) {
        (Some(hash), Some(parent)) => found(
            hash,
            match named_image(parent) {
                Some(metadata) => Some(metadata),
                None => named_audio(parent),
            },
            true,
        ),
        _ => Seq::empty(),
    }
}

/// The texture among the fields of a structure: the field `uiTexture`, or else the
/// field `texture` of the structure `icon`.
pub open spec fn texture_of(fields: Seq<(Seq<char>, Tree)>) -> Option<Tree> {
    match lookup(fields, "uiTexture"@) {
        Some(texture) => Some(texture),
        None => match lookup(fields, "icon"@) {
            Some(Tree::Struct(icon)) => lookup(icon, "texture"@),
            _ => None,
        },
    }
}

/// The name of the texture of a structure: the name that is known for the guid of
/// the structure, or else the one in its fields, or else the one in the fields of
/// the texture.
pub open spec fn texture_name(
    fields: Seq<(Seq<char>, Tree)>,
    texture: Seq<(Seq<char>, Tree)>,
    names: Map<u128, Seq<char>>,
) -> Option<Seq<char>> {
    match known_name(fields, names) {
        Some(name) => Some(name),
        None => as_text(
            match lookup_either(fields, "debugName"@, "debug_name"@) {
                Some(value) => Some(value),
                None => lookup_either(texture, "debugName"@, "debug_name"@),
            },
        ),
    }
}

/// The name that is known for the guid among the fields of a structure.
pub open spec fn known_name(
    fields: Seq<(Seq<char>, Tree)>,
    names: Map<u128, Seq<char>>,
) -> Option<Seq<char>> {
    match lookup_either(fields, "guid"@, "$guid"@) {
        Some(Tree::Guid(guid)) => if names.contains_key(guid.id) {
            Some(names[guid.id])
        } else {
            None
        },
        _ => None,
    }
}

/// What the texture of a structure says of the blob that its data refer to.
pub open spec fn texture_findings(
    fields: Seq<(Seq<char>, Tree)>,
    names: Map<u128, Seq<char>>,
) -> Seq<Finding> {
    match texture_of(fields) {
        Some(Tree::Struct(texture)) => match lookup(texture, "data"@) {
            Some(Tree::Struct(data)) => match content_hash_of(data) {
                Some(hash) => found(
                    hash,
                    image_metadata(texture, texture_name(fields, texture, names)),
                    true,
                ),
                None => Seq::empty(),
            },
            _ => Seq::empty(),
        },
        _ => Seq::empty(),
    }
}

/// What the data of a structure say: the fields around the structure, and then its
/// own, may describe the blob that the data refer to. Neither takes the place of
/// what is known already.
pub open spec fn data_findings(
    fields: Seq<(Seq<char>, Tree)>,
    parent: Option<Seq<(Seq<char>, Tree)>>,
) -> Seq<Finding> {
    match lookup(fields, "data"@) {
        Some(Tree::Struct(data)) => match content_hash_of(data) {
            Some(hash) => found(
                hash,
                match parent {
                    Some(parent) => named_image(parent),
                    None => None,
                },
                false,
            ) + found(hash, named_image(fields), false),
            None => Seq::empty(),
        },
        _ => Seq::empty(),
    }
}

/// Everything that a value says of content blobs, in the order in which it says
/// it. `parent` holds the fields of the structure that the value stands in.
pub open spec fn findings(
    value: Tree,
    parent: Option<Seq<(Seq<char>, Tree)>>,
    names: Map<u128, Seq<char>>,
) -> Seq<Finding>
    decreases value,
{
    match value {
        Tree::Guid(guid) => guid_findings(guid, parent),
        Tree::Struct(fields) => {
            proof {
                lemma_lookup_decreases(fields, "icons"@);
            }
            let icons = match lookup(fields, "icons"@) {
                Some(Tree::Array(icons)) => icon_findings(icons, names),
                _ => Seq::empty(),
            };
            texture_findings(fields, names) + icons + data_findings(fields, parent)
                + field_findings(fields, fields, names)
        },
        Tree::Array(items) => item_findings(items, names),
        Tree::Variant(fields) => field_findings(fields, fields, names),
        _ => Seq::empty(),
    }
}

/// What the values of fields say, within the structure that has the fields `parent`.
pub open spec fn field_findings(
    fields: Seq<(Seq<char>, Tree)>,
    parent: Seq<(Seq<char>, Tree)>,
    names: Map<u128, Seq<char>>,
) -> Seq<Finding>
    decreases fields,
{
    if fields.len() == 0 {
        Seq::empty()
    } else {
        field_findings(fields.drop_last(), parent, names) + findings(
            fields.last().1,
            Some(parent),
            names,
        )
    }
}

/// What the items of a list say.
pub open spec fn item_findings(items: Seq<Tree>, names: Map<u128, Seq<char>>) -> Seq<Finding>
    decreases items,
{
    if items.len() == 0 {
        Seq::empty()
    } else {
        item_findings(items.drop_last(), names) + findings(items.last(), None, names)
    }
}

/// What the icons of a registry say: those that are structures, each within itself.
pub open spec fn icon_findings(icons: Seq<Tree>, names: Map<u128, Seq<char>>) -> Seq<Finding>
    decreases icons,
{
    if icons.len() == 0 {
        Seq::empty()
    } else {
        icon_findings(icons.drop_last(), names) + match icons.last() {
            Tree::Struct(fields) => findings(icons.last(), Some(fields), names),
            _ => Seq::empty(),
        }
    }
}

/// A table after findings were recorded in it, one after the other.
pub open spec fn recorded(
    map: Map<ContentHash, MetadataModel>,
    list: Seq<Finding>,
) -> Map<ContentHash, MetadataModel>
    decreases list.len(),
{
    if list.len() == 0 {
        map
    } else {
        let before = recorded(map, list.drop_last());
        let last = list.last();
        if last.replaces || !before.contains_key(last.hash) {
            before.insert(last.hash, last.metadata)
        } else {
            before
        }
    }
}

/// Recording two lists is recording one after the other.
pub proof fn lemma_recorded_concat(
    map: Map<ContentHash, MetadataModel>,
    first: Seq<Finding>,
    second: Seq<Finding>,
)
    ensures
        recorded(map, first + second) == recorded(recorded(map, first), second),
    decreases second.len(),
{
    if second.len() == 0 {
        assert(first + second =~= first);
    } else {
        assert((first + second).drop_last() =~= first + second.drop_last());
        lemma_recorded_concat(map, first, second.drop_last());
    }
}

// ---------------------------------------------------------------------------
// Scanning
// ---------------------------------------------------------------------------

/// The model of fields that may be absent.
pub open spec fn parent_fields(parent: Option<&Fields>) -> Option<Seq<(Seq<char>, Tree)>> {
    match parent {
        Some(fields) => Some(fields@),
        None => None,
    }
}

/// The models of the items of a list.
pub open spec fn item_trees(items: Seq<Value>) -> Seq<Tree> {
    Seq::new(items.len(), |i: int| items[i]@)
}

/// Records one finding.
fn record(
    map: &mut ContentMap,
    hash: ContentHash,
    metadata: Option<ContentMetadata>,
    replaces: bool,
)
    ensures
        final(map)@ == recorded(
            old(map)@,
            found(
                hash,
                match metadata {
                    Some(metadata) => Some(metadata@),
                    None => None,
                },
                replaces,
            ),
        ),
{
    proof {
        reveal_with_fuel(recorded, 2);
    }
    match metadata {
        Some(metadata) => {
            proof {
                assert(found(hash, Some(metadata@), replaces).drop_last() =~= Seq::empty());
            }
            if replaces {
                map.insert(hash, metadata);
            } else {
                map.insert_if_absent(hash, metadata);
            }
        },
        None => {},
    }
}

/// Records what a guid says.
fn scan_guid(guid: Guid, parent: Option<&Fields>, map: &mut ContentMap)
    ensures
        final(map)@ == recorded(old(map)@, guid_findings(guid, parent_fields(parent))),
{
    match (guid.content, parent) {
        (Some(hash), Some(parent)) => {
            let metadata = match extract_named_image(parent) {
                Some(metadata) => Some(metadata),
                None => extract_named_audio(parent),
            };
            record(map, hash, metadata, true);
        },
        _ => {},
    }
}

/// The texture among the fields of a structure.
fn find_texture(fields: &Fields) -> (texture: Option<&Value>)
    ensures
        match texture {
            Some(texture) => texture_of(fields@) == Some(texture@),
            None => texture_of(fields@) is None,
        },
{
    match fields.get("uiTexture") {
        Some(texture) => Some(texture),
        None => match fields.get("icon") {
            Some(Value::Struct(icon)) => icon.get("texture"),
            _ => None,
        },
    }
}

/// The name that is known for the guid among the fields of a structure.
fn find_known_name(fields: &Fields, names: Option<&DebugNames>) -> (name: Option<String>)
    ensures
        optional_text(name) == known_name(fields@, known_names(names)),
{
    match (names, fields.get_either("guid", "$guid")) {
        (Some(names), Some(Value::Guid(guid))) => match names.get(guid.id) {
            Some(name) => Some(name.clone()),
            None => None,
        },
        _ => None,
    }
}

/// The name of the texture of a structure.
fn find_texture_name(fields: &Fields, texture: &Fields, names: Option<&DebugNames>) -> (name: Option<
    String,
>)
    ensures
        optional_text(name) == texture_name(fields@, texture@, known_names(names)),
{
    match find_known_name(fields, names) {
        Some(name) => Some(name),
        None => {
            let value = match fields.get_either("debugName", "debug_name") {
                Some(value) => Some(value),
                None => texture.get_either("debugName", "debug_name"),
            };
            match value {
                Some(value) => match value.as_string() {
                    Some(text) => Some(text.clone()),
                    None => None,
                },
                None => None,
            }
        },
    }
}

/// Records what the texture of a structure says.
fn scan_texture(fields: &Fields, map: &mut ContentMap, names: Option<&DebugNames>)
    ensures
        final(map)@ == recorded(old(map)@, texture_findings(fields@, known_names(names))),
{
    match find_texture(fields) {
        Some(Value::Struct(texture)) => match texture.get("data") {
            Some(Value::Struct(data)) => match extract_content_hash_from_data(data) {
                Some(hash) => {
                    let metadata = match extract_image_metadata(texture) {
                        Some((width, height, format, level_count)) => Some(
                            ContentMetadata::Image {
                                width,
                                height,
                                format,
                                level_count,
                                debug_name: find_texture_name(fields, texture, names),
                            },
                        ),
                        None => None,
                    };
                    record(map, hash, metadata, true);
                },
                None => {},
            },
            _ => {},
        },
        _ => {},
    }
}

/// Records what the data of a structure say.
fn scan_data(fields: &Fields, parent: Option<&Fields>, map: &mut ContentMap)
    ensures
        final(map)@ == recorded(old(map)@, data_findings(fields@, parent_fields(parent))),
{
    match fields.get("data") {
        Some(Value::Struct(data)) => match extract_content_hash_from_data(data) {
            Some(hash) => {
                let around = match parent {
                    Some(parent) => extract_named_image(parent),
                    None => None,
                };
                proof {
                    let first = found(
                        hash,
                        match parent_fields(parent) {
                            Some(parent) => named_image(parent),
                            None => None,
                        },
                        false,
                    );
                    lemma_recorded_concat(map@, first, found(hash, named_image(fields@), false));
                }
                record(map, hash, around, false);
                record(map, hash, extract_named_image(fields), false);
            },
            None => {},
        },
        _ => {},
    }
}

/// Records in a table everything that a value says of content blobs. `parent`
/// holds the fields of the structure that the value stands in, and `names` the
/// names that are known by guid.
pub fn scan_value_for_content(
    value: &Value,
    parent: Option<&Fields>,
    map: &mut ContentMap,
    names: Option<&DebugNames>,
)
    ensures
        final(map)@ == recorded(
            old(map)@,
            findings(value@, parent_fields(parent), known_names(names)),
        ),
    decreases value@,
{
    let ghost start = map@;
    let ghost known = known_names(names);
    match value {
        Value::Guid(guid) => scan_guid(*guid, parent, map),
        Value::Struct(fields) => {
            let ghost texture = texture_findings(fields@, known);
            let ghost icons = match lookup(fields@, "icons"@) {
                Some(Tree::Array(icons)) => icon_findings(icons, known),
                _ => Seq::empty(),
            };
            let ghost data = data_findings(fields@, parent_fields(parent));
            let ghost rest = field_findings(fields@, fields@, known);
            proof {
                lemma_recorded_concat(start, texture, icons);
                lemma_recorded_concat(start, texture + icons, data);
                lemma_recorded_concat(start, texture + icons + data, rest);
                lemma_lookup_decreases(fields@, "icons"@);
                assert(decreases_to!(value@ => value@->Struct_0));
            }
            scan_texture(fields, map, names);
            match fields.get("icons") {
                Some(Value::Array(icons)) => {
                    proof {
                        let found = lookup(fields@, "icons"@)->0;
                        assert(found->Array_0 =~= item_trees(icons@));
                        assert(decreases_to!(found => found->Array_0));
                    }
                    scan_icons(icons, map, names);
                },
                _ => {},
            }
            scan_data(fields, parent, map);
            scan_fields(fields, map, names);
        },
        Value::Array(items) => {
            proof {
                assert(value@->Array_0 =~= item_trees(items@));
                assert(decreases_to!(value@ => value@->Array_0));
            }
            scan_items(items, map, names);
        },
        Value::Variant(fields) => {
            proof {
                assert(decreases_to!(value@ => value@->Variant_0));
            }
            scan_fields(fields, map, names);
        },
        _ => {},
    }
}

/// Records what the values of fields say.
fn scan_fields(fields: &Fields, map: &mut ContentMap, names: Option<&DebugNames>)
    ensures
        final(map)@ == recorded(
            old(map)@,
            field_findings(fields@, fields@, known_names(names)),
        ),
    decreases fields@,
{
    let ghost start = map@;
    let ghost known = known_names(names);
    let len = fields.len();
    let mut i: usize = 0;
    while i < len
        invariant
            i <= len == fields@.len(),
            known == known_names(names),
            map@ == recorded(start, field_findings(fields@.take(i as int), fields@, known)),
        decreases len - i,
    {
        match fields.get_index(i) {
            Some((_, value)) => {
                proof {
                    let more = fields@.take(i + 1);
                    assert(more.drop_last() =~= fields@.take(i as int));
                    assert(more.last() == fields@[i as int]);
                    lemma_recorded_concat(
                        start,
                        field_findings(fields@.take(i as int), fields@, known),
                        findings(value@, Some(fields@), known),
                    );
                    assert(decreases_to!(fields@ => fields@[i as int]));
                    assert(decreases_to!(fields@[i as int] => fields@[i as int].1));
                }
                scan_value_for_content(value, Some(fields), map, names);
            },
            None => {},
        }
        i = i + 1;
    }
    proof {
        assert(fields@.take(len as int) =~= fields@);
    }
}

/// Records what the items of a list say.
fn scan_items(items: &Vec<Value>, map: &mut ContentMap, names: Option<&DebugNames>)
    ensures
        final(map)@ == recorded(
            old(map)@,
            item_findings(item_trees(items@), known_names(names)),
        ),
    decreases item_trees(items@),
{
    let ghost start = map@;
    let ghost known = known_names(names);
    let ghost trees = item_trees(items@);
    let mut i: usize = 0;
    while i < items.len()
        invariant
            i <= items@.len(),
            trees == item_trees(items@),
            known == known_names(names),
            map@ == recorded(start, item_findings(trees.take(i as int), known)),
        decreases items@.len() - i,
    {
        proof {
            let more = trees.take(i + 1);
            assert(more.drop_last() =~= trees.take(i as int));
            assert(more.last() == items@[i as int]@);
            lemma_recorded_concat(
                start,
                item_findings(trees.take(i as int), known),
                findings(items@[i as int]@, None, known),
            );
            assert(decreases_to!(trees => trees[i as int]));
        }
        scan_value_for_content(&items[i], None, map, names);
        i = i + 1;
    }
    proof {
        assert(trees.take(items@.len() as int) =~= trees);
    }
}

/// Records what the icons of a registry say.
fn scan_icons(icons: &Vec<Value>, map: &mut ContentMap, names: Option<&DebugNames>)
    ensures
        final(map)@ == recorded(
            old(map)@,
            icon_findings(item_trees(icons@), known_names(names)),
        ),
    decreases item_trees(icons@),
{
    let ghost start = map@;
    let ghost known = known_names(names);
    let ghost trees = item_trees(icons@);
    let mut i: usize = 0;
    while i < icons.len()
        invariant
            i <= icons@.len(),
            trees == item_trees(icons@),
            known == known_names(names),
            map@ == recorded(start, icon_findings(trees.take(i as int), known)),
        decreases icons@.len() - i,
    {
        let icon = &icons[i];
        proof {
            let more = trees.take(i + 1);
            assert(more.drop_last() =~= trees.take(i as int));
            assert(more.last() == icon@);
            let found = match icon@ {
                Tree::Struct(fields) => findings(icon@, Some(fields), known),
                _ => Seq::empty(),
            };
            lemma_recorded_concat(start, icon_findings(trees.take(i as int), known), found);
            assert(decreases_to!(trees => trees[i as int]));
        }
        match icon {
            Value::Struct(fields) => scan_value_for_content(icon, Some(fields), map, names),
            _ => {},
        }
        i = i + 1;
    }
    proof {
        assert(trees.take(icons@.len() as int) =~= trees);
    }
}

// ---------------------------------------------------------------------------
// What scanning keeps
// ---------------------------------------------------------------------------

/// Whether a list says something of a blob.
pub open spec fn mentions(list: Seq<Finding>, hash: ContentHash) -> bool {
    exists|i: int| 0 <= i < list.len() && (#[trigger] list[i]).hash == hash
}

/// Whether a list says something of a blob that takes the place of what was known.
pub open spec fn replaces(list: Seq<Finding>, hash: ContentHash) -> bool {
    exists|i: int| 0 <= i < list.len() && (#[trigger] list[i]).hash == hash && list[i].replaces
}

/// Recording never loses a blob, and adds exactly the blobs that are mentioned.
pub proof fn law_recording_adds_what_is_mentioned(
    map: Map<ContentHash, MetadataModel>,
    list: Seq<Finding>,
    hash: ContentHash,
)
    ensures
        recorded(map, list).contains_key(hash) <==> map.contains_key(hash) || mentions(list, hash),
    decreases list.len(),
{
    if list.len() > 0 {
        let shorter = list.drop_last();
        law_recording_adds_what_is_mentioned(map, shorter, hash);
        if mentions(shorter, hash) {
            let i = choose|i: int|
                0 <= i < shorter.len() && (#[trigger] shorter[i]).hash == hash;
            assert(list[i].hash == hash);
        }
        if mentions(list, hash) && list.last().hash != hash {
            let i = choose|i: int| 0 <= i < list.len() && (#[trigger] list[i]).hash == hash;
            assert(shorter[i].hash == hash);
        }
    }
}

/// What is known of a blob stays as it is, unless the list says something of the
/// blob that is meant to take its place.
pub proof fn law_known_content_is_kept(
    map: Map<ContentHash, MetadataModel>,
    list: Seq<Finding>,
    hash: ContentHash,
)
    requires
        map.contains_key(hash),
        !replaces(list, hash),
    ensures
        recorded(map, list).contains_key(hash),
        recorded(map, list)[hash] == map[hash],
    decreases list.len(),
{
    if list.len() > 0 {
        let shorter = list.drop_last();
        assert(!replaces(shorter, hash)) by {
            if replaces(shorter, hash) {
                let i = choose|i: int|
                    0 <= i < shorter.len() && (#[trigger] shorter[i]).hash == hash
                        && shorter[i].replaces;
                assert(list[i].hash == hash && list[i].replaces);
            }
        }
        assert(list[list.len() - 1] == list.last());
        law_known_content_is_kept(map, shorter, hash);
    }
}

/// The last thing said of a blob that takes the place of what was known is what
/// is known in the end.
pub proof fn law_last_replacement_wins(
    map: Map<ContentHash, MetadataModel>,
    list: Seq<Finding>,
    at: int,
)
    requires
        0 <= at < list.len(),
        list[at].replaces,
        forall|i: int|
            at < i < list.len() && (#[trigger] list[i]).hash == list[at].hash
                ==> !list[i].replaces,
    ensures
        recorded(map, list).contains_key(list[at].hash),
        recorded(map, list)[list[at].hash] == list[at].metadata,
    decreases list.len(),
{
    let shorter = list.drop_last();
    if at < shorter.len() {
        assert forall|i: int|
            at < i < shorter.len() && (#[trigger] shorter[i]).hash
                == shorter[at].hash implies !shorter[i].replaces by {
            assert(list[i].hash == list[at].hash);
        }
        law_last_replacement_wins(map, shorter, at);
        assert(list[list.len() - 1] == list.last());
    }
}

/// Recording the same list again changes nothing.
pub proof fn law_scanning_again_changes_nothing(
    map: Map<ContentHash, MetadataModel>,
    list: Seq<Finding>,
)
    ensures
        recorded(recorded(map, list), list) == recorded(map, list),
{
    let once = recorded(map, list);
    let twice = recorded(once, list);
    assert forall|hash: ContentHash|
        once.dom().contains(hash) == #[trigger] twice.dom().contains(hash) by {
        law_recording_adds_what_is_mentioned(once, list, hash);
        law_recording_adds_what_is_mentioned(map, list, hash);
    }
    assert forall|hash: ContentHash| once.contains_key(hash) implies #[trigger] twice[hash]
        == once[hash] by {
        if replaces(list, hash) {
            let at = lemma_last_replacement(list, hash);
            law_last_replacement_wins(map, list, at);
            law_last_replacement_wins(once, list, at);
        } else {
            law_known_content_is_kept(once, list, hash);
        }
    }
    assert(twice =~= once);
}

/// The place of the last thing said of a blob that takes the place of what was known.
proof fn lemma_last_replacement(list: Seq<Finding>, hash: ContentHash) -> (at: int)
    requires
        replaces(list, hash),
    ensures
        0 <= at < list.len(),
        list[at].hash == hash,
        list[at].replaces,
        forall|i: int|
            at < i < list.len() && (#[trigger] list[i]).hash == hash ==> !list[i].replaces,
    decreases list.len(),
{
    if list.last().hash == hash && list.last().replaces {
        list.len() - 1
    } else {
        let shorter = list.drop_last();
        let i = choose|i: int|
            0 <= i < list.len() && (#[trigger] list[i]).hash == hash && list[i].replaces;
        assert(shorter[i].hash == hash && shorter[i].replaces);
        let at = lemma_last_replacement(shorter, hash);
        assert forall|i: int|
            at < i < list.len() && (#[trigger] list[i]).hash == hash implies !list[i].replaces by {
            if i < shorter.len() {
                assert(shorter[i].hash == hash);
            }
        }
        at
    }
}

/// Whether everything in a list describes content that has a size.
pub open spec fn all_sized(list: Seq<Finding>) -> bool {
    forall|i: int| 0 <= i < list.len() ==> is_sized((#[trigger] list[i]).metadata)
}

/// Whatever a value says of content describes content that has a size.
pub proof fn law_found_content_is_sized(
    value: Tree,
    parent: Option<Seq<(Seq<char>, Tree)>>,
    names: Map<u128, Seq<char>>,
)
    ensures
        all_sized(findings(value, parent, names)),
    decreases value,
{
    match value {
        Tree::Struct(fields) => {
            lemma_lookup_decreases(fields, "icons"@);
            match lookup(fields, "icons"@) {
                Some(Tree::Array(icons)) => lemma_icons_sized(icons, names),
                _ => {},
            }
            lemma_fields_sized(fields, fields, names);
        },
        Tree::Array(items) => lemma_items_sized(items, names),
        Tree::Variant(fields) => lemma_fields_sized(fields, fields, names),
        _ => {},
    }
}

proof fn lemma_fields_sized(
    fields: Seq<(Seq<char>, Tree)>,
    parent: Seq<(Seq<char>, Tree)>,
    names: Map<u128, Seq<char>>,
)
    ensures
        all_sized(field_findings(fields, parent, names)),
    decreases fields,
{
    if fields.len() > 0 {
        lemma_fields_sized(fields.drop_last(), parent, names);
        law_found_content_is_sized(fields.last().1, Some(parent), names);
    }
}

proof fn lemma_items_sized(items: Seq<Tree>, names: Map<u128, Seq<char>>)
    ensures
        all_sized(item_findings(items, names)),
    decreases items,
{
    if items.len() > 0 {
        lemma_items_sized(items.drop_last(), names);
        law_found_content_is_sized(items.last(), None, names);
    }
}

proof fn lemma_icons_sized(icons: Seq<Tree>, names: Map<u128, Seq<char>>)
    ensures
        all_sized(icon_findings(icons, names)),
    decreases icons,
{
    if icons.len() > 0 {
        lemma_icons_sized(icons.drop_last(), names);
        match icons.last() {
            Tree::Struct(fields) => law_found_content_is_sized(icons.last(), Some(fields), names),
            _ => {},
        }
    }
}

/// Scanning keeps a table of content that has a size such a table.
pub proof fn law_scanning_keeps_content_sized(
    map: Map<ContentHash, MetadataModel>,
    value: Tree,
    parent: Option<Seq<(Seq<char>, Tree)>>,
    names: Map<u128, Seq<char>>,
    hash: ContentHash,
)
    requires
        forall|hash: ContentHash| #[trigger] map.contains_key(hash) ==> is_sized(map[hash]),
    ensures
        recorded(map, findings(value, parent, names)).contains_key(hash) ==> is_sized(
            recorded(map, findings(value, parent, names))[hash],
        ),
{
    law_found_content_is_sized(value, parent, names);
    lemma_recorded_sized(map, findings(value, parent, names), hash);
}

proof fn lemma_recorded_sized(
    map: Map<ContentHash, MetadataModel>,
    list: Seq<Finding>,
    hash: ContentHash,
)
    requires
        forall|hash: ContentHash| #[trigger] map.contains_key(hash) ==> is_sized(map[hash]),
        all_sized(list),
    ensures
        recorded(map, list).contains_key(hash) ==> is_sized(recorded(map, list)[hash]),
    decreases list.len(),
{
    if list.len() > 0 {
        let shorter = list.drop_last();
        assert(list[list.len() - 1] == list.last());
        assert forall|i: int| 0 <= i < shorter.len() implies is_sized(
            (#[trigger] shorter[i]).metadata,
        ) by {
            assert(shorter[i] == list[i]);
        }
        lemma_recorded_sized(map, shorter, hash);
    }
}

/// The same metadata under another name.
pub open spec fn renamed(metadata: MetadataModel, name: Option<Seq<char>>) -> MetadataModel {
    match metadata {
        MetadataModel::Image { width, height, format, level_count, .. } => MetadataModel::Image {
            width,
            height,
            format,
            level_count,
            debug_name: name,
        },
        MetadataModel::Audio { channels, sample_rate, frame_count, .. } => MetadataModel::Audio {
            channels,
            sample_rate,
            frame_count,
            debug_name: name,
        },
    }
}

/// Whether two lists say the same, but for the names.
pub open spec fn same_but_for_names(a: Seq<Finding>, b: Seq<Finding>) -> bool {
    &&& a.len() == b.len()
    &&& forall|i: int|
        #![trigger a[i]]
        #![trigger b[i]]
        0 <= i < a.len() ==> {
            &&& a[i].hash == b[i].hash
            &&& a[i].replaces == b[i].replaces
            &&& renamed(a[i].metadata, None) == renamed(b[i].metadata, None)
        }
}

/// The names that are known by guid decide only what content is called: which
/// blobs are found, and what they are, does not depend on them.
pub proof fn law_names_decide_only_names(
    value: Tree,
    parent: Option<Seq<(Seq<char>, Tree)>>,
    names: Map<u128, Seq<char>>,
    other: Map<u128, Seq<char>>,
)
    ensures
        same_but_for_names(findings(value, parent, names), findings(value, parent, other)),
    decreases value,
{
    match value {
        Tree::Struct(fields) => {
            lemma_lookup_decreases(fields, "icons"@);
            match lookup(fields, "icons"@) {
                Some(Tree::Array(icons)) => lemma_icons_same(icons, names, other),
                _ => {},
            }
            assert(same_but_for_names(
                texture_findings(fields, names),
                texture_findings(fields, other),
            ));
            lemma_fields_same(fields, fields, names, other);
        },
        Tree::Array(items) => lemma_items_same(items, names, other),
        Tree::Variant(fields) => lemma_fields_same(fields, fields, names, other),
        _ => {},
    }
}

proof fn lemma_fields_same(
    fields: Seq<(Seq<char>, Tree)>,
    parent: Seq<(Seq<char>, Tree)>,
    names: Map<u128, Seq<char>>,
    other: Map<u128, Seq<char>>,
)
    ensures
        same_but_for_names(
            field_findings(fields, parent, names),
            field_findings(fields, parent, other),
        ),
    decreases fields,
{
    if fields.len() > 0 {
        lemma_fields_same(fields.drop_last(), parent, names, other);
        law_names_decide_only_names(fields.last().1, Some(parent), names, other);
    }
}

proof fn lemma_items_same(
    items: Seq<Tree>,
    names: Map<u128, Seq<char>>,
    other: Map<u128, Seq<char>>,
)
    ensures
        same_but_for_names(item_findings(items, names), item_findings(items, other)),
    decreases items,
{
    if items.len() > 0 {
        lemma_items_same(items.drop_last(), names, other);
        law_names_decide_only_names(items.last(), None, names, other);
    }
}

proof fn lemma_icons_same(
    icons: Seq<Tree>,
    names: Map<u128, Seq<char>>,
    other: Map<u128, Seq<char>>,
)
    ensures
        same_but_for_names(icon_findings(icons, names), icon_findings(icons, other)),
    decreases icons,
{
    if icons.len() > 0 {
        lemma_icons_same(icons.drop_last(), names, other);
        match icons.last() {
            Tree::Struct(fields) => law_names_decide_only_names(
                icons.last(),
                Some(fields),
                names,
                other,
            ),
            _ => {},
        }
    }
}

// ---------------------------------------------------------------------------
// What each kind of value says
// ---------------------------------------------------------------------------

/// A list says what its items say, each on its own, one after the other. It does not
/// matter where the list stands.
pub proof fn law_list_says_what_its_items_say(
    items: Seq<Tree>,
    parent: Option<Seq<(Seq<char>, Tree)>>,
    names: Map<u128, Seq<char>>,
)
    ensures
        findings(Tree::Array(items), parent, names) == Seq::new(
            items.len(),
            |i: int| findings(items[i], None, names),
        ).flatten(),
{
    lemma_items_flatten(items, names);
}

proof fn lemma_items_flatten(items: Seq<Tree>, names: Map<u128, Seq<char>>)
    ensures
        item_findings(items, names) == Seq::new(
            items.len(),
            |i: int| findings(items[i], None, names),
        ).flatten(),
    decreases items.len(),
{
    let said = Seq::new(items.len(), |i: int| findings(items[i], None, names));
    said.lemma_flatten_and_flatten_alt_are_equivalent();
    if items.len() > 0 {
        let shorter = items.drop_last();
        let before = Seq::new(shorter.len(), |i: int| findings(shorter[i], None, names));
        lemma_items_flatten(shorter, names);
        before.lemma_flatten_and_flatten_alt_are_equivalent();
        assert(said.drop_last() =~= before);
        assert(said.last() == findings(items.last(), None, names));
    }
}

/// A list of two lists says what the first says and then what the second says.
pub proof fn law_lists_in_turn(
    a: Seq<Tree>,
    b: Seq<Tree>,
    parent: Option<Seq<(Seq<char>, Tree)>>,
    other: Option<Seq<(Seq<char>, Tree)>>,
    names: Map<u128, Seq<char>>,
)
    ensures
        findings(Tree::Array(a + b), parent, names) == findings(Tree::Array(a), other, names)
            + findings(Tree::Array(b), parent, names),
    decreases b.len(),
{
    if b.len() == 0 {
        assert(a + b =~= a);
    } else {
        assert((a + b).drop_last() =~= a + b.drop_last());
        law_lists_in_turn(a, b.drop_last(), parent, other, names);
    }
}

/// A variant says what the values of its fields say within it, one after the other.
pub proof fn law_variant_says_what_its_fields_say(
    fields: Seq<(Seq<char>, Tree)>,
    parent: Option<Seq<(Seq<char>, Tree)>>,
    names: Map<u128, Seq<char>>,
)
    ensures
        findings(Tree::Variant(fields), parent, names) == Seq::new(
            fields.len(),
            |i: int| findings(fields[i].1, Some(fields), names),
        ).flatten(),
{
    lemma_fields_flatten(fields, fields, names);
}

proof fn lemma_fields_flatten(
    fields: Seq<(Seq<char>, Tree)>,
    parent: Seq<(Seq<char>, Tree)>,
    names: Map<u128, Seq<char>>,
)
    ensures
        field_findings(fields, parent, names) == Seq::new(
            fields.len(),
            |i: int| findings(fields[i].1, Some(parent), names),
        ).flatten(),
    decreases fields.len(),
{
    let said = Seq::new(fields.len(), |i: int| findings(fields[i].1, Some(parent), names));
    said.lemma_flatten_and_flatten_alt_are_equivalent();
    if fields.len() > 0 {
        let shorter = fields.drop_last();
        let before = Seq::new(shorter.len(), |i: int| findings(shorter[i].1, Some(parent), names));
        lemma_fields_flatten(shorter, parent, names);
        before.lemma_flatten_and_flatten_alt_are_equivalent();
        assert(said.drop_last() =~= before);
        assert(said.last() == findings(fields.last().1, Some(parent), names));
    }
}

/// Whether a name is the one that the texture of a structure goes by: that of the guid
/// `guid`, or without such a field of `$guid`, if a name is known for it, or else the
/// text of the first of four fields that is there.
pub open spec fn goes_by(
    fields: Seq<(Seq<char>, Tree)>,
    texture: Seq<(Seq<char>, Tree)>,
    names: Map<u128, Seq<char>>,
    name: Option<Seq<char>>,
) -> bool {
    let written = match (
        lookup(fields, "debugName"@),
        lookup(fields, "debug_name"@),
        lookup(texture, "debugName"@),
        lookup(texture, "debug_name"@),
    ) {
        (Some(value), _, _, _) => value,
        (None, Some(value), _, _) => value,
        (None, None, Some(value), _) => value,
        (None, None, None, Some(value)) => value,
        (None, None, None, None) => Tree::Other,
    };
    match (lookup(fields, "guid"@), lookup(fields, "$guid"@)) {
        (Some(Tree::Guid(guid)), _) if names.contains_key(guid.id) => name == Some(names[guid.id]),
        (None, Some(Tree::Guid(guid))) if names.contains_key(guid.id) => name == Some(
            names[guid.id],
        ),
        _ => match written {
            Tree::Text(text) => name == Some(text),
            _ => name is None,
        },
    }
}

/// The texture of a structure, under `uiTexture` or without such a field under the
/// `texture` of its `icon`, is the first thing that the structure speaks of, if it is an
/// image with data. It takes the place of what was known of the blob.
pub proof fn law_texture_is_found(
    fields: Seq<(Seq<char>, Tree)>,
    icon: Seq<(Seq<char>, Tree)>,
    texture: Seq<(Seq<char>, Tree)>,
    data: Seq<(Seq<char>, Tree)>,
    hash: ContentHash,
    shape: (u32, u32, PixelFormat, u32),
    name: Option<Seq<char>>,
    parent: Option<Seq<(Seq<char>, Tree)>>,
    names: Map<u128, Seq<char>>,
)
    requires
        lookup(fields, "uiTexture"@) == Some(Tree::Struct(texture)) || (lookup(
            fields,
            "uiTexture"@,
        ) is None && lookup(fields, "icon"@) == Some(Tree::Struct(icon)) && lookup(
            icon,
            "texture"@,
        ) == Some(Tree::Struct(texture))),
        lookup(texture, "data"@) == Some(Tree::Struct(data)),
        content_hash_of(data) == Some(hash),
        image_shape(texture) == Some(shape),
        goes_by(fields, texture, names, name),
    ensures
        findings(Tree::Struct(fields), parent, names).len() > 0,
        findings(Tree::Struct(fields), parent, names)[0] == (Finding {
            hash,
            metadata: MetadataModel::Image {
                width: shape.0,
                height: shape.1,
                format: shape.2,
                level_count: shape.3,
                debug_name: name,
            },
            replaces: true,
        }),
{
}

/// Whether a list is what the data of a structure say. The fields around the structure
/// come first and then its own; each that describe an image describe the blob, and
/// neither takes the place of what is known.
pub open spec fn data_say(
    fields: Seq<(Seq<char>, Tree)>,
    parent: Option<Seq<(Seq<char>, Tree)>>,
    said: Seq<Finding>,
) -> bool {
    let hash = match lookup(fields, "data"@) {
        Some(Tree::Struct(data)) => content_hash_of(data),
        _ => None,
    };
    let around = parent is Some && image_shape(parent->0) is Some;
    let own = image_shape(fields) is Some;
    let count: int = (if around { 1int } else { 0 }) + (if own { 1int } else { 0 });
    match hash {
        None => said.len() == 0,
        Some(hash) => {
            &&& said.len() == count
            &&& forall|i: int|
                0 <= i < said.len() ==> (#[trigger] said[i]).hash == hash && !said[i].replaces
            &&& around ==> named_image(parent->0) == Some(said[0].metadata)
            &&& own ==> named_image(fields) == Some(said.last().metadata)
        },
    }
}

/// A structure speaks of its texture, then of its icons, each within itself, then of
/// its data, and in the end of everything that its fields speak of, as a variant with
/// the same fields does.
pub proof fn law_structure_says(
    fields: Seq<(Seq<char>, Tree)>,
    parent: Option<Seq<(Seq<char>, Tree)>>,
    names: Map<u128, Seq<char>>,
) -> (parts: (Seq<Finding>, Seq<Finding>, Seq<Finding>))
    ensures
        findings(Tree::Struct(fields), parent, names) == parts.0 + parts.1 + parts.2 + findings(
            Tree::Variant(fields),
            parent,
            names,
        ),
        parts.0.len() <= 1,
        parts.0.len() == 1 <==> exists|texture: Seq<(Seq<char>, Tree)>|
            (lookup(fields, "uiTexture"@) == Some(Tree::Struct(texture)) || (lookup(
                fields,
                "uiTexture"@,
            ) is None && lookup(fields, "icon"@) is Some && lookup(fields, "icon"@)->0 is Struct
                && lookup(lookup(fields, "icon"@)->0->Struct_0, "texture"@) == Some(
                Tree::Struct(texture),
            ))) && #[trigger] image_shape(texture) is Some && lookup(texture, "data"@) is Some
                && lookup(texture, "data"@)->0 is Struct && content_hash_of(
                lookup(texture, "data"@)->0->Struct_0,
            ) is Some,
        match lookup(fields, "icons"@) {
            Some(Tree::Array(icons)) => parts.1 == Seq::new(
                icons.len(),
                |i: int|
                    match icons[i] {
                        Tree::Struct(icon) => findings(icons[i], Some(icon), names),
                        _ => Seq::empty(),
                    },
            ).flatten(),
            _ => parts.1.len() == 0,
        },
        data_say(fields, parent, parts.2),
{
    let texture = texture_findings(fields, names);
    let icons = match lookup(fields, "icons"@) {
        Some(Tree::Array(icons)) => {
            lemma_icons_flatten(icons, names);
            icon_findings(icons, names)
        },
        _ => Seq::empty(),
    };
    let data = data_findings(fields, parent);
    if texture.len() == 1 {
        assert(image_shape(texture_of(fields)->0->Struct_0) is Some);
    }
    (texture, icons, data)
}

proof fn lemma_icons_flatten(icons: Seq<Tree>, names: Map<u128, Seq<char>>)
    ensures
        icon_findings(icons, names) == Seq::new(
            icons.len(),
            |i: int|
                match icons[i] {
                    Tree::Struct(icon) => findings(icons[i], Some(icon), names),
                    _ => Seq::empty(),
                },
        ).flatten(),
    decreases icons.len(),
{
    let said = Seq::new(
        icons.len(),
        |i: int|
            match icons[i] {
                Tree::Struct(icon) => findings(icons[i], Some(icon), names),
                _ => Seq::empty(),
            },
    );
    said.lemma_flatten_and_flatten_alt_are_equivalent();
    if icons.len() > 0 {
        let shorter = icons.drop_last();
        let before = Seq::new(
            shorter.len(),
            |i: int|
                match shorter[i] {
                    Tree::Struct(icon) => findings(shorter[i], Some(icon), names),
                    _ => Seq::empty(),
                },
        );
        lemma_icons_flatten(shorter, names);
        before.lemma_flatten_and_flatten_alt_are_equivalent();
        assert(said.drop_last() =~= before);
    }
}

/// A guid that spells a content hash says what the fields around it describe: an
/// image, or else a sound. Any other guid says nothing, and neither does one that no
/// fields stand around.
pub proof fn law_guid_says_what_its_fields_describe(
    guid: Guid,
    fields: Seq<(Seq<char>, Tree)>,
    names: Map<u128, Seq<char>>,
)
    ensures
        findings(Tree::Guid(guid), None, names).len() == 0,
        guid.content is None ==> findings(Tree::Guid(guid), Some(fields), names).len() == 0,
        guid.content is Some ==> match (named_image(fields), named_audio(fields)) {
            (Some(image), _) => findings(Tree::Guid(guid), Some(fields), names) == seq![
                Finding { hash: guid.content->0, metadata: image, replaces: true },
            ],
            (None, Some(sound)) => findings(Tree::Guid(guid), Some(fields), names) == seq![
                Finding { hash: guid.content->0, metadata: sound, replaces: true },
            ],
            (None, None) => findings(Tree::Guid(guid), Some(fields), names).len() == 0,
        },
{
}

/// Numbers, texts and values of other kinds say nothing.
pub proof fn law_plain_values_say_nothing(
    value: Tree,
    parent: Option<Seq<(Seq<char>, Tree)>>,
    names: Map<u128, Seq<char>>,
)
    requires
        value is Number || value is Text || value is Other,
    ensures
        findings(value, parent, names).len() == 0,
{
}

/// The part of a value that a path of places leads to.
pub open spec fn part_of(value: Tree, path: Seq<int>) -> Option<Tree>
    decreases path.len(),
{
    if path.len() == 0 {
        Some(value)
    } else {
        let i = path[0];
        match value {
            Tree::Struct(fields) => if 0 <= i < fields.len() {
                part_of(fields[i].1, path.drop_first())
            } else {
                None
            },
            Tree::Variant(fields) => if 0 <= i < fields.len() {
                part_of(fields[i].1, path.drop_first())
            } else {
                None
            },
            Tree::Array(items) => if 0 <= i < items.len() {
                part_of(items[i], path.drop_first())
            } else {
                None
            },
            _ => None,
        }
    }
}

/// What a part of a value says wherever it stands, the whole value says, at any depth
/// of structures, variants and lists. So what a texture says ends up in the table.
pub proof fn law_parts_are_heard_at_any_depth(
    value: Tree,
    path: Seq<int>,
    part: Tree,
    finding: Finding,
    parent: Option<Seq<(Seq<char>, Tree)>>,
    names: Map<u128, Seq<char>>,
    map: Map<ContentHash, MetadataModel>,
)
    requires
        part_of(value, path) == Some(part),
        forall|around: Option<Seq<(Seq<char>, Tree)>>| #[trigger]
            findings(part, around, names).contains(finding),
    ensures
        findings(value, parent, names).contains(finding),
        recorded(map, findings(value, parent, names)).contains_key(finding.hash),
    decreases path.len(),
{
    if path.len() > 0 {
        let i = path[0];
        let rest = path.drop_first();
        match value {
            Tree::Struct(fields) => {
                law_parts_are_heard_at_any_depth(
                    fields[i].1,
                    rest,
                    part,
                    finding,
                    Some(fields),
                    names,
                    map,
                );
                lemma_field_is_heard(fields, fields, names, i, finding);
                let all = findings(value, parent, names);
                let tail = field_findings(fields, fields, names);
                let k = choose|k: int| 0 <= k < tail.len() && tail[k] == finding;
                assert(all[all.len() - tail.len() + k] == finding);
            },
            Tree::Variant(fields) => {
                law_parts_are_heard_at_any_depth(
                    fields[i].1,
                    rest,
                    part,
                    finding,
                    Some(fields),
                    names,
                    map,
                );
                lemma_field_is_heard(fields, fields, names, i, finding);
            },
            Tree::Array(items) => {
                law_parts_are_heard_at_any_depth(items[i], rest, part, finding, None, names, map);
                lemma_item_is_heard(items, names, i, finding);
            },
            _ => {},
        }
    } else {
        assert(findings(part, parent, names).contains(finding));
    }
    let all = findings(value, parent, names);
    let k = choose|k: int| 0 <= k < all.len() && all[k] == finding;
    assert(all[k].hash == finding.hash);
    law_recording_adds_what_is_mentioned(map, all, finding.hash);
}

proof fn lemma_field_is_heard(
    fields: Seq<(Seq<char>, Tree)>,
    parent: Seq<(Seq<char>, Tree)>,
    names: Map<u128, Seq<char>>,
    i: int,
    finding: Finding,
)
    requires
        0 <= i < fields.len(),
        findings(fields[i].1, Some(parent), names).contains(finding),
    ensures
        field_findings(fields, parent, names).contains(finding),
    decreases fields.len(),
{
    let before = field_findings(fields.drop_last(), parent, names);
    let last = findings(fields.last().1, Some(parent), names);
    if i < fields.len() - 1 {
        lemma_field_is_heard(fields.drop_last(), parent, names, i, finding);
        let k = choose|k: int| 0 <= k < before.len() && before[k] == finding;
        assert((before + last)[k] == finding);
    } else {
        let k = choose|k: int| 0 <= k < last.len() && last[k] == finding;
        assert((before + last)[before.len() + k] == finding);
    }
}

proof fn lemma_item_is_heard(
    items: Seq<Tree>,
    names: Map<u128, Seq<char>>,
    i: int,
    finding: Finding,
)
    requires
        0 <= i < items.len(),
        findings(items[i], None, names).contains(finding),
    ensures
        item_findings(items, names).contains(finding),
    decreases items.len(),
{
    let before = item_findings(items.drop_last(), names);
    let last = findings(items.last(), None, names);
    if i < items.len() - 1 {
        lemma_item_is_heard(items.drop_last(), names, i, finding);
        let k = choose|k: int| 0 <= k < before.len() && before[k] == finding;
        assert((before + last)[k] == finding);
    } else {
        let k = choose|k: int| 0 <= k < last.len() && last[k] == finding;
        assert((before + last)[before.len() + k] == finding);
    }
}

/// Where nothing was known of a blob and nothing takes the place of what is known, the
/// first thing said of it is what is known in the end.
pub proof fn law_first_word_counts_unless_replaced(
    map: Map<ContentHash, MetadataModel>,
    list: Seq<Finding>,
    at: int,
)
    requires
        0 <= at < list.len(),
        !map.contains_key(list[at].hash),
        !replaces(list, list[at].hash),
        forall|i: int| 0 <= i < at ==> (#[trigger] list[i]).hash != list[at].hash,
    ensures
        recorded(map, list).contains_key(list[at].hash),
        recorded(map, list)[list[at].hash] == list[at].metadata,
    decreases list.len(),
{
    let shorter = list.drop_last();
    let hash = list[at].hash;
    assert(!replaces(shorter, hash)) by {
        if replaces(shorter, hash) {
            let i = choose|i: int|
                0 <= i < shorter.len() && (#[trigger] shorter[i]).hash == hash
                    && shorter[i].replaces;
            assert(list[i].hash == hash && list[i].replaces);
        }
    }
    assert(list[list.len() - 1] == list.last());
    if at < shorter.len() {
        assert forall|i: int| 0 <= i < at implies (#[trigger] shorter[i]).hash
            != shorter[at].hash by {
            assert(list[i].hash != list[at].hash);
        }
        law_first_word_counts_unless_replaced(map, shorter, at);
    } else {
        law_recording_adds_what_is_mentioned(map, shorter, hash);
        if mentions(shorter, hash) {
            let i = choose|i: int| 0 <= i < shorter.len() && (#[trigger] shorter[i]).hash == hash;
            assert(list[i].hash == hash);
        }
    }
}

/// The fields around a value are modelled by their contents.
pub proof fn law_model_of_the_fields_around(fields: Fields)
    ensures
        parent_fields(Some(&fields)) == Some(fields@),
        parent_fields(None) is None,
{
}

} // verus!
