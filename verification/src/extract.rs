//! Decisions on the way from an archive to the files of its content.

use crate::content_map::ContentMap;
use crate::debug_names::{known_names, DebugNames};
use crate::jobs::{done, end_done, end_failed, failure, Ending, EndingModel, NoticeModel};
use crate::metadata::{ContentMetadata, MetadataModel};
use crate::names::{content_file_name, generate_filename, get_output_path, output_place};
use crate::scan::{findings, recorded, scan_value_for_content};
use crate::text::{
    concat3, contains_text, decimal, law_occurring_is_being_a_part, occurs_in, optional_str,
    optional_text, push_decimal, texts,
};
use crate::value::{ContentHash, Value};
use vstd::prelude::*;
use vstd::string::*;

verus! {

// ---------------------------------------------------------------------------
// Which resources are scanned
// ---------------------------------------------------------------------------

/// Whether resources of a type belong to a registry. The name of the type decides;
/// a registry of any other name takes resources of every type.
pub open spec fn in_registry(registry: Seq<char>, class_name: Seq<char>) -> bool {
    if registry == "icons"@ {
        occurs_in(class_name, "Icon"@) || occurs_in(class_name, "icon"@)
    } else if registry == "ui"@ {
        occurs_in(class_name, "UI"@) || occurs_in(class_name, "Ui"@) || occurs_in(
            class_name,
            "ui"@,
        )
    } else {
        true
    }
}

/// Whether a resource is read for a registry: its type has to be known and to
/// belong to the registry.
pub open spec fn is_wanted(registry: Seq<char>, class_name: Option<Seq<char>>) -> bool {
    match class_name {
        Some(class_name) => in_registry(registry, class_name),
        None => false,
    }
}

/// Whether a resource is read for a registry.
pub fn registry_wants(registry: &str, class_name: Option<&str>) -> (wanted: bool)
    ensures
        wanted == is_wanted(registry@, optional_str(class_name)),
{
    let class_name = match class_name {
        Some(class_name) => class_name,
        None => return false,
    };
    if *registry == *"icons" {
        contains_text(class_name, "Icon") || contains_text(class_name, "icon")
    } else if *registry == *"ui" {
        contains_text(class_name, "UI") || contains_text(class_name, "Ui") || contains_text(
            class_name,
            "ui",
        )
    } else {
        true
    }
}

/// What came of reading a resource.
pub enum ResourceReading {
    /// The resource was not read.
    Unread,
    /// The archive cannot be read.
    Failed(String),
    /// The archive does not hold the resource.
    Missing,
    /// The resource cannot be decoded.
    Undecodable,
    /// The decoded resource.
    Decoded(Value),
}

/// What a resource that was read says of content.
pub open spec fn reading_findings(
    reading: ResourceReading,
    names: Map<u128, Seq<char>>,
) -> Seq<crate::scan::Finding> {
    match reading {
        ResourceReading::Decoded(value) => findings(value@, None, names),
        _ => Seq::empty(),
    }
}

/// Takes in a resource of the full scan. A resource that was not read to the end,
/// for whatever reason, is passed over.
pub fn scan_resource(
    reading: &ResourceReading,
    map: &mut ContentMap,
    names: Option<&DebugNames>,
)
    ensures
        final(map)@ == recorded(old(map)@, reading_findings(*reading, known_names(names))),
{
    match reading {
        ResourceReading::Decoded(value) => scan_value_for_content(value, None, map, names),
        _ => {},
    }
}

/// A table after the full scan took in resources, one after the other. Unlike a
/// registry, it does not stop where the archive cannot be read.
pub open spec fn scanned_table(
    map: Map<ContentHash, MetadataModel>,
    readings: Seq<ResourceReading>,
    names: Map<u128, Seq<char>>,
) -> Map<ContentHash, MetadataModel>
    decreases readings.len(),
{
    if readings.len() == 0 {
        map
    } else {
        recorded(
            scanned_table(map, readings.drop_last(), names),
            reading_findings(readings.last(), names),
        )
    }
}

/// A resource that could not be read or decoded leaves no trace in the full scan, and
/// everything behind it is still taken in.
pub proof fn law_full_scan_passes_over_failures(
    map: Map<ContentHash, MetadataModel>,
    readings: Seq<ResourceReading>,
    names: Map<u128, Seq<char>>,
    at: int,
)
    requires
        0 <= at < readings.len(),
        !(readings[at] is Decoded),
    ensures
        scanned_table(map, readings.remove(at), names) == scanned_table(map, readings, names),
    decreases readings.len(),
{
    let shorter = readings.drop_last();
    if at == readings.len() - 1 {
        assert(readings.remove(at) =~= shorter);
    } else {
        law_full_scan_passes_over_failures(map, shorter, names, at);
        assert(readings.remove(at).drop_last() =~= shorter.remove(at));
        assert(readings.remove(at).last() == readings.last());
    }
}

/// As long as the archive can be read, a registry takes in its resources as the full
/// scan does.
pub proof fn law_registry_scans_as_the_full_scan_does(
    map: Map<ContentHash, MetadataModel>,
    readings: Seq<ResourceReading>,
    names: Map<u128, Seq<char>>,
)
    requires
        first_failure(readings) is None,
    ensures
        registry_table(map, readings, names) == scanned_table(map, readings, names),
    decreases readings.len(),
{
    if readings.len() > 0 {
        law_registry_scans_as_the_full_scan_does(map, readings.drop_last(), names);
    }
}

/// Takes in a resource of a registry, if it was read. Resources that were not read, are
/// missing or cannot be decoded are passed over. Where the archive cannot be read, nothing is
/// taken in, and the reason comes back.
pub fn take_resource(
    reading: &ResourceReading,
    map: &mut ContentMap,
    names: Option<&DebugNames>,
) -> (taken: Result<(), String>)
    ensures
        final(map)@ == recorded(old(map)@, reading_findings(*reading, known_names(names))),
        match *reading {
            ResourceReading::Failed(reason) => taken == Err::<(), String>(reason),
            _ => taken is Ok,
        },
{
    match reading {
        ResourceReading::Failed(reason) => Err(reason.clone()),
        _ => {
            scan_resource(reading, map, names);
            Ok(())
        },
    }
}

/// A resource of an archive: the name of its type, if the type is known, and what
/// came of reading it.
pub struct RegistryResource {
    pub class_name: Option<String>,
    pub reading: ResourceReading,
}

/// What came of reading the resources that belong to a registry, in order.
pub open spec fn registry_readings(
    registry: Seq<char>,
    resources: Seq<RegistryResource>,
) -> Seq<ResourceReading>
    decreases resources.len(),
{
    if resources.len() == 0 {
        Seq::empty()
    } else {
        let before = registry_readings(registry, resources.drop_last());
        if is_wanted(registry, optional_text(resources.last().class_name)) {
            before.push(resources.last().reading)
        } else {
            before
        }
    }
}

/// Takes in the resources of a registry, one after the other, until the archive
/// cannot be read. What was taken in before that stays. Resources that do not belong
/// to the registry are passed over, whatever came of reading them.
pub fn extract_registry_metadata(
    registry: &str,
    resources: &Vec<RegistryResource>,
    map: &mut ContentMap,
    names: Option<&DebugNames>,
) -> (taken: Result<(), String>)
    ensures
        final(map)@ == registry_table(
            old(map)@,
            registry_readings(registry@, resources@),
            known_names(names),
        ),
        match first_failure(registry_readings(registry@, resources@)) {
            Some(reason) => taken == Err::<(), String>(reason),
            None => taken is Ok,
        },
{
    let ghost start = map@;
    let ghost known = known_names(names);
    let mut i: usize = 0;
    proof {
        assert(resources@.take(0) =~= Seq::empty());
    }
    while i < resources.len()
        invariant
            i <= resources@.len(),
            start == old(map)@,
            known == known_names(names),
            first_failure(registry_readings(registry@, resources@.take(i as int))) is None,
            map@ == registry_table(
                start,
                registry_readings(registry@, resources@.take(i as int)),
                known,
            ),
        decreases resources@.len() - i,
    {
        let resource = &resources[i];
        let ghost before = registry_readings(registry@, resources@.take(i as int));
        proof {
            let more = resources@.take(i + 1);
            assert(more.drop_last() =~= resources@.take(i as int));
            assert(more.last() == *resource);
            assert(before.push(resource.reading).drop_last() =~= before);
        }
        let class_name = match &resource.class_name {
            Some(class_name) => Some(class_name.as_str()),
            None => None,
        };
        if registry_wants(registry, class_name) {
            match take_resource(&resource.reading, map, names) {
                Ok(()) => {},
                Err(reason) => {
                    proof {
                        let all = registry_readings(registry@, resources@);
                        let some = registry_readings(registry@, resources@.take(i + 1));
                        lemma_registry_readings_prefix(registry@, resources@, i + 1);
                        assert(all.take(some.len() as int) =~= some);
                        lemma_failure_is_final(start, all, some.len() as int, known);
                    }
                    return Err(reason);
                },
            }
        }
        i = i + 1;
    }
    proof {
        assert(resources@.take(i as int) =~= resources@);
    }
    Ok(())
}

/// The readings of the first resources are the first readings.
proof fn lemma_registry_readings_prefix(
    registry: Seq<char>,
    resources: Seq<RegistryResource>,
    count: int,
)
    requires
        0 <= count <= resources.len(),
    ensures
        registry_readings(registry, resources.take(count)).is_prefix_of(
            registry_readings(registry, resources),
        ),
    decreases resources.len(),
{
    if count == resources.len() {
        assert(resources.take(count) =~= resources);
    } else {
        assert(resources.drop_last().take(count) =~= resources.take(count));
        lemma_registry_readings_prefix(registry, resources.drop_last(), count);
    }
}

/// A resource that does not belong to a registry does not count there, whatever came
/// of reading it.
pub proof fn law_registry_takes_only_its_own(
    registry: Seq<char>,
    resources: Seq<RegistryResource>,
    at: int,
)
    requires
        0 <= at < resources.len(),
        !is_wanted(registry, optional_text(resources[at].class_name)),
    ensures
        registry_readings(registry, resources.remove(at)) == registry_readings(
            registry,
            resources,
        ),
    decreases resources.len(),
{
    if at == resources.len() - 1 {
        assert(resources.remove(at) =~= resources.drop_last());
    } else {
        let shorter = resources.drop_last();
        law_registry_takes_only_its_own(registry, shorter, at);
        assert(resources.remove(at).drop_last() =~= shorter.remove(at));
        assert(resources.remove(at).last() == resources.last());
    }
}

/// A resource that belongs to a registry counts there, in its place.
pub proof fn law_registry_takes_all_its_own(
    registry: Seq<char>,
    resources: Seq<RegistryResource>,
    more: RegistryResource,
)
    requires
        is_wanted(registry, optional_text(more.class_name)),
    ensures
        registry_readings(registry, resources.push(more)) == registry_readings(
            registry,
            resources,
        ).push(more.reading),
{
    assert(resources.push(more).drop_last() =~= resources);
}

/// The reason why the archive cannot be read, at the first resource where it cannot.
pub open spec fn first_failure(readings: Seq<ResourceReading>) -> Option<String>
    decreases readings.len(),
{
    if readings.len() == 0 {
        None
    } else {
        match first_failure(readings.drop_last()) {
            Some(reason) => Some(reason),
            None => match readings.last() {
                ResourceReading::Failed(reason) => Some(reason),
                _ => None,
            },
        }
    }
}

/// A table after the resources of a registry were taken in, up to the first where
/// the archive cannot be read.
pub open spec fn registry_table(
    map: Map<ContentHash, MetadataModel>,
    readings: Seq<ResourceReading>,
    names: Map<u128, Seq<char>>,
) -> Map<ContentHash, MetadataModel>
    decreases readings.len(),
{
    if readings.len() == 0 {
        map
    } else {
        let before = registry_table(map, readings.drop_last(), names);
        if first_failure(readings.drop_last()) is Some {
            before
        } else {
            recorded(before, reading_findings(readings.last(), names))
        }
    }
}

/// Nothing behind the first failure changes anything.
proof fn lemma_failure_is_final(
    map: Map<ContentHash, MetadataModel>,
    readings: Seq<ResourceReading>,
    count: int,
    names: Map<u128, Seq<char>>,
)
    requires
        0 <= count <= readings.len(),
        first_failure(readings.take(count)) is Some,
    ensures
        first_failure(readings) == first_failure(readings.take(count)),
        registry_table(map, readings, names) == registry_table(map, readings.take(count), names),
    decreases readings.len(),
{
    if count == readings.len() {
        assert(readings.take(count) =~= readings);
    } else {
        assert(readings.drop_last().take(count) =~= readings.take(count));
        lemma_failure_is_final(map, readings.drop_last(), count, names);
    }
}

/// What a registry has taken in before the archive could not be read any more is
/// kept, and what stands behind that is never looked at.
pub proof fn law_registry_keeps_what_it_took(
    map: Map<ContentHash, MetadataModel>,
    readings: Seq<ResourceReading>,
    count: int,
    names: Map<u128, Seq<char>>,
)
    requires
        0 <= count < readings.len(),
        readings[count] is Failed,
        first_failure(readings.take(count)) is None,
    ensures
        first_failure(readings) == Some(readings[count]->Failed_0),
        registry_table(map, readings, names) == registry_table(map, readings.take(count), names),
{
    let more = readings.take(count + 1);
    assert(more.drop_last() =~= readings.take(count));
    assert(more.last() == readings[count]);
    lemma_failure_is_final(map, readings, count + 1, names);
}

/// Whether all resources have to be scanned.
pub open spec fn scan_owed(
    registry_given: bool,
    registry_failed: bool,
    map: Map<ContentHash, MetadataModel>,
) -> bool {
    !registry_given || registry_failed || map.dom() == Set::<ContentHash>::empty()
}

/// Whether all resources are scanned: without a registry, where the registry could
/// not be read to its end, and where it brought nothing to light.
pub fn needs_full_scan(registry_given: bool, registry_failed: bool, map: &ContentMap) -> (needed:
    bool)
    ensures
        needed == (!registry_given || registry_failed || map@.dom() == Set::<
            ContentHash,
        >::empty()),
        needed == scan_owed(registry_given, registry_failed, map@),
{
    !registry_given || registry_failed || map.is_empty()
}

// ---------------------------------------------------------------------------
// Which blobs are extracted
// ---------------------------------------------------------------------------

/// The blobs to extract: with a registry that brought anything to light, those of
/// which something is known, else all of them.
pub open spec fn kept_hashes(
    hashes: Seq<ContentHash>,
    registry_given: bool,
    map: Map<ContentHash, MetadataModel>,
) -> Seq<ContentHash> {
    if registry_given && map.dom() != Set::<ContentHash>::empty() {
        hashes.filter(|hash: ContentHash| map.contains_key(hash))
    } else {
        hashes
    }
}

/// The blobs to extract, out of those that were chosen.
pub fn keep_known(hashes: Vec<ContentHash>, registry_given: bool, map: &ContentMap) -> (kept: Vec<
    ContentHash,
>)
    ensures
        kept@ == kept_hashes(hashes@, registry_given, map@),
{
    if !registry_given || map.is_empty() {
        return hashes;
    }
    let ghost known = |hash: ContentHash| map@.contains_key(hash);
    let mut kept: Vec<ContentHash> = Vec::new();
    let mut i: usize = 0;
    proof {
        assert(hashes@.take(0) =~= Seq::empty());
        reveal_with_fuel(Seq::filter, 1);
    }
    while i < hashes.len()
        invariant
            i <= hashes@.len(),
            known == |hash: ContentHash| map@.contains_key(hash),
            kept@ == hashes@.take(i as int).filter(known),
        decreases hashes@.len() - i,
    {
        proof {
            let more = hashes@.take(i + 1);
            assert(more.drop_last() =~= hashes@.take(i as int));
            assert(more.last() == hashes@[i as int]);
            reveal_with_fuel(Seq::filter, 2);
        }
        if map.contains(hashes[i]) {
            kept.push(hashes[i]);
        }
        i = i + 1;
    }
    proof {
        assert(hashes@.take(i as int) =~= hashes@);
    }
    kept
}

/// How many of the blobs are extracted.
pub open spec fn limited_count(count: int, limit: Option<usize>) -> int {
    match limit {
        Some(limit) => if limit < count {
            limit as int
        } else {
            count
        },
        None => count,
    }
}

/// The blobs that are extracted: the first ones, up to the limit.
pub fn apply_limit(hashes: Vec<ContentHash>, limit: Option<usize>) -> (limited: Vec<ContentHash>)
    ensures
        limited@ == hashes@.take(limited_count(hashes@.len() as int, limit)),
{
    let mut hashes = hashes;
    proof {
        assert(hashes@.take(hashes@.len() as int) =~= hashes@);
    }
    if let Some(limit) = limit {
        if limit < hashes.len() {
            hashes.truncate(limit);
            proof {
                assert(hashes@ =~= hashes@.take(limit as int));
            }
        }
    }
    hashes
}

/// Only blobs that were chosen are extracted. Of those, a registry that brought
/// anything to light leaves exactly the ones of which something is known.
pub proof fn law_registry_leaves_known_blobs(
    hashes: Seq<ContentHash>,
    registry_given: bool,
    map: Map<ContentHash, MetadataModel>,
    hash: ContentHash,
)
    ensures
        kept_hashes(hashes, registry_given, map).contains(hash) <==> hashes.contains(hash) && (
        !registry_given || map.dom() == Set::<ContentHash>::empty() || map.contains_key(hash)),
{
    lemma_filter_members(hashes, |hash: ContentHash| map.contains_key(hash), hash);
}

proof fn lemma_filter_members(
    hashes: Seq<ContentHash>,
    condition: spec_fn(ContentHash) -> bool,
    hash: ContentHash,
)
    ensures
        hashes.filter(condition).contains(hash) <==> hashes.contains(hash) && condition(hash),
    decreases hashes.len(),
{
    reveal_with_fuel(Seq::filter, 2);
    if hashes.len() > 0 {
        let shorter = hashes.drop_last();
        let before = shorter.filter(condition);
        let last = hashes.last();
        lemma_filter_members(shorter, condition, hash);
        assert(hashes =~= shorter.push(last));
        assert(hashes.contains(hash) <==> shorter.contains(hash) || hash == last) by {
            if shorter.contains(hash) {
                let i = choose|i: int| 0 <= i < shorter.len() && shorter[i] == hash;
                assert(hashes[i] == hash);
            }
            assert(hashes[hashes.len() - 1] == last);
        }
        assert(before.push(last).contains(hash) <==> before.contains(hash) || hash == last) by {
            if before.contains(hash) {
                let i = choose|i: int| 0 <= i < before.len() && before[i] == hash;
                assert(before.push(last)[i] == hash);
            }
            assert(before.push(last)[before.len() as int] == last);
        }
    }
}

/// What is known of a blob that is to be converted: nothing, if no conversion is
/// asked for.
pub fn conversion_of(convert: bool, map: &ContentMap, hash: ContentHash) -> (metadata: Option<
    &ContentMetadata,
>)
    ensures
        match metadata {
            Some(metadata) => convert && map@.contains_key(hash) && map@[hash] == metadata@,
            None => !convert || !map@.contains_key(hash),
        },
{
    if convert {
        map.get(hash)
    } else {
        None
    }
}

// ---------------------------------------------------------------------------
// Where files go
// ---------------------------------------------------------------------------

/// How the files of content are named and placed.
#[derive(Clone, Copy, Debug, PartialEq, Eq, Structural)]
pub struct Layout {
    /// Whether files go into folders by what they hold.
    pub organize: bool,
    /// Whether files carry the names that content goes by.
    pub use_debug_names: bool,
}

/// The place of a file below the output directory.
pub open spec fn place_of(
    layout: Layout,
    folder: Seq<char>,
    hash: Seq<char>,
    extension: Seq<char>,
    debug_name: Option<Seq<char>>,
) -> Seq<Seq<char>> {
    output_place(
        layout.organize,
        folder,
        content_file_name(hash, extension, debug_name, layout.use_debug_names),
    )
}

/// The place of a file below the output directory.
fn place(
    layout: Layout,
    folder: &str,
    hash: &str,
    extension: &str,
    debug_name: Option<&str>,
) -> (place: Vec<String>)
    ensures
        texts(place@) == place_of(
            layout,
            folder@,
            hash@,
            extension@,
            optional_str(debug_name),
        ),
{
    let file_name = generate_filename(hash, extension, debug_name, layout.use_debug_names);
    get_output_path(layout.organize, folder, file_name.as_str())
}

/// Where content goes that is not converted.
pub fn raw_place(layout: Layout, hash: &str) -> (place: Vec<String>)
    ensures
        texts(place@) == place_of(layout, "unknown"@, hash@, "bin"@, None),
{
    self::place(layout, "unknown", hash, "bin", None)
}

/// Where content goes that could not be converted.
pub fn failed_place(layout: Layout, hash: &str, debug_name: Option<&str>) -> (place: Vec<String>)
    ensures
        texts(place@) == place_of(layout, "failed"@, hash@, "bin"@, optional_str(debug_name)),
{
    self::place(layout, "failed", hash, "bin", debug_name)
}

/// Where a converted sound goes.
pub fn audio_place(layout: Layout, hash: &str, debug_name: Option<&str>) -> (place: Vec<String>)
    ensures
        texts(place@) == place_of(layout, "audio"@, hash@, "wav"@, optional_str(debug_name)),
{
    self::place(layout, "audio", hash, "wav", debug_name)
}

/// The largest width and height of an icon.
pub const ICON_LIMIT: u32 = 512;

/// The folder of an image: small square images are icons.
pub open spec fn image_folder(width: u32, height: u32) -> Seq<char> {
    if width <= ICON_LIMIT && height <= ICON_LIMIT && width == height {
        "icons"@
    } else {
        "textures"@
    }
}

/// What the file name of a level ends with: where there are several levels, its
/// number is in it.
pub open spec fn level_extension_of(level: u32, levels: u32) -> Seq<char> {
    if levels > 1 {
        "_mip"@ + decimal(level as nat) + ".png"@
    } else {
        ".png"@
    }
}

/// Where a converted level of an image goes. `width` and `height` are those of the
/// image, and `levels` is the number of levels that are asked for.
pub fn level_place(
    layout: Layout,
    hash: &str,
    debug_name: Option<&str>,
    width: u32,
    height: u32,
    level: u32,
    levels: u32,
) -> (place: Vec<String>)
    ensures
        texts(place@) == place_of(
            layout,
            image_folder(width, height),
            hash@,
            level_extension_of(level, levels),
            optional_str(debug_name),
        ),
{
    let folder = if width <= ICON_LIMIT && height <= ICON_LIMIT && width == height {
        "icons"
    } else {
        "textures"
    };
    if levels > 1 {
        let mut extension = "_mip".to_owned();
        push_decimal(&mut extension, level as u64);
        extension.append(".png");
        self::place(layout, folder, hash, extension.as_str(), debug_name)
    } else {
        self::place(layout, folder, hash, ".png", debug_name)
    }
}

/// Output that is not organised goes straight into the output directory, and
/// output that is goes into a folder there, under the same file name.
pub proof fn law_folders_do_not_change_file_names(
    layout: Layout,
    folder: Seq<char>,
    hash: Seq<char>,
    extension: Seq<char>,
    debug_name: Option<Seq<char>>,
)
    requires
        folder.len() > 0,
    ensures
        place_of(layout, folder, hash, extension, debug_name).last() == content_file_name(
            hash,
            extension,
            debug_name,
            layout.use_debug_names,
        ),
        place_of(layout, folder, hash, extension, debug_name).len() == if layout.organize {
            2int
        } else {
            1int
        },
        layout.organize ==> place_of(layout, folder, hash, extension, debug_name)[0] == folder,
{
}

/// The levels of an image go to different files.
pub proof fn law_levels_go_to_different_files(
    layout: Layout,
    folder: Seq<char>,
    hash: Seq<char>,
    debug_name: Option<Seq<char>>,
    a: u32,
    b: u32,
    levels: u32,
)
    requires
        levels > 1,
        a != b,
    ensures
        place_of(layout, folder, hash, level_extension_of(a, levels), debug_name).last()
            != place_of(layout, folder, hash, level_extension_of(b, levels), debug_name).last(),
{
    reveal_strlit("_mip");
    reveal_strlit(".png");
    reveal_strlit("_");
    reveal_strlit(".");
    let first = level_extension_of(a, levels);
    let second = level_extension_of(b, levels);
    let x = content_file_name(hash, first, debug_name, layout.use_debug_names);
    let y = content_file_name(hash, second, debug_name, layout.use_debug_names);
    assert(crate::names::without_dot(first) == first);
    assert(crate::names::without_dot(second) == second);
    if x == y {
        let start = x.len() - first.len();
        assert(x.subrange(start, x.len() as int) =~= first);
        assert(first.len() == second.len());
        assert(y.subrange(start, y.len() as int) =~= second);
        assert(first.subrange(4, first.len() - 4) =~= decimal(a as nat));
        assert(second.subrange(4, second.len() - 4) =~= decimal(b as nat));
        crate::text::lemma_decimal_injective(a as nat, b as nat);
    }
}

// ---------------------------------------------------------------------------
// How a blob ends
// ---------------------------------------------------------------------------

/// What came of extracting a blob.
pub enum BlobOutcome {
    /// The blob cannot be read.
    ReadFailed(String),
    /// The archive does not hold the blob.
    NotFound,
    /// A file of the blob cannot be made or written.
    WriteFailed(String),
    /// The files of the blob are written.
    Extracted,
}

/// How a blob ends.
pub open spec fn blob_ending_of(hash: Seq<char>, outcome: BlobOutcome) -> EndingModel {
    let what = "Error extracting content "@;
    match outcome {
        BlobOutcome::ReadFailed(reason) => failure(what, hash, reason@),
        BlobOutcome::NotFound => failure(what, hash, "Content not found"@),
        BlobOutcome::WriteFailed(reason) => failure(what, hash, reason@),
        BlobOutcome::Extracted => done(),
    }
}

/// How a blob ends.
pub fn blob_ending(hash: &str, outcome: BlobOutcome) -> (ending: Ending)
    ensures
        ending@ == blob_ending_of(hash@, outcome),
{
    let what = "Error extracting content ";
    match outcome {
        BlobOutcome::ReadFailed(reason) => end_failed(what, hash, reason.as_str()),
        BlobOutcome::NotFound => end_failed(what, hash, "Content not found"),
        BlobOutcome::WriteFailed(reason) => end_failed(what, hash, reason.as_str()),
        BlobOutcome::Extracted => end_done(),
    }
}

/// What the user is told of a sound that cannot be converted.
pub fn audio_failure_message(hash: &str, reason: &str) -> (message: String)
    ensures
        message@ == "Failed to convert audio "@ + hash@ + ": "@ + reason@
            + ", saving to failed/"@,
{
    let mut message = concat3("Failed to convert audio ", hash, ": ");
    message.append(reason);
    message.append(", saving to failed/");
    message
}

/// The registry of icons has the classes whose names hold `Icon` or `icon`, and that of
/// the user interface those whose names hold `UI`, `Ui` or `ui`. Any other registry has
/// all classes. A resource whose class has no name is in none.
pub proof fn law_what_is_in_a_registry(
    before: Seq<char>,
    after: Seq<char>,
    registry: Seq<char>,
    class_name: Seq<char>,
)
    ensures
        is_wanted("icons"@, Some(before + "Icon"@ + after)),
        is_wanted("icons"@, Some(before + "icon"@ + after)),
        is_wanted("ui"@, Some(before + "UI"@ + after)),
        is_wanted("ui"@, Some(before + "Ui"@ + after)),
        is_wanted("ui"@, Some(before + "ui"@ + after)),
        is_wanted("icons"@, Some(class_name)) ==> occurs_in(class_name, "Icon"@) || occurs_in(
            class_name,
            "icon"@,
        ),
        is_wanted("ui"@, Some(class_name)) ==> occurs_in(class_name, "UI"@) || occurs_in(
            class_name,
            "Ui"@,
        ) || occurs_in(class_name, "ui"@),
        registry != "icons"@ && registry != "ui"@ ==> is_wanted(registry, Some(class_name)),
        !is_wanted(registry, None),
{
    reveal_strlit("icons");
    reveal_strlit("ui");
    assert("icons"@.len() != "ui"@.len());
    law_occurring_is_being_a_part(before, "Icon"@, after, class_name);
    law_occurring_is_being_a_part(before, "icon"@, after, class_name);
    law_occurring_is_being_a_part(before, "UI"@, after, class_name);
    law_occurring_is_being_a_part(before, "Ui"@, after, class_name);
    law_occurring_is_being_a_part(before, "ui"@, after, class_name);
}

/// Scanning two runs of resources is scanning the first and then the second. A decoded
/// resource adds what its value says, and any other adds nothing.
pub proof fn law_resources_are_scanned_in_order(
    map: Map<ContentHash, MetadataModel>,
    a: Seq<ResourceReading>,
    b: Seq<ResourceReading>,
    one: ResourceReading,
    names: Map<u128, Seq<char>>,
)
    ensures
        scanned_table(map, a + b, names) == scanned_table(scanned_table(map, a, names), b, names),
        scanned_table(map, seq![one], names) == match one {
            ResourceReading::Decoded(value) => recorded(map, findings(value@, None, names)),
            _ => map,
        },
    decreases b.len(),
{
    reveal_with_fuel(scanned_table, 2);
    assert(seq![one].drop_last() =~= Seq::empty());
    assert(recorded(map, Seq::empty()) == map);
    if b.len() == 0 {
        assert(a + b =~= a);
    } else {
        assert((a + b).drop_last() =~= a + b.drop_last());
        law_resources_are_scanned_in_order(map, a, b.drop_last(), one, names);
    }
}

/// A registry takes the readings of its resources in their order.
pub proof fn law_registry_takes_in_order(
    registry: Seq<char>,
    a: Seq<RegistryResource>,
    b: Seq<RegistryResource>,
)
    ensures
        registry_readings(registry, a + b) == registry_readings(registry, a) + registry_readings(
            registry,
            b,
        ),
    decreases b.len(),
{
    if b.len() == 0 {
        assert(a + b =~= a);
    } else {
        assert((a + b).drop_last() =~= a + b.drop_last());
        law_registry_takes_in_order(registry, a, b.drop_last());
    }
}

/// A registry does not fail where every resource of it could be read from the archive.
pub proof fn law_only_a_failed_reading_fails(readings: Seq<ResourceReading>)
    requires
        forall|i: int| 0 <= i < readings.len() ==> !(#[trigger] readings[i] is Failed),
    ensures
        first_failure(readings) is None,
    decreases readings.len(),
{
    if readings.len() > 0 {
        assert(!(readings[readings.len() - 1] is Failed));
        assert forall|i: int| 0 <= i < readings.len() - 1 implies !(
        #[trigger] readings.drop_last()[i] is Failed) by {
            assert(!(readings[i] is Failed));
        }
        law_only_a_failed_reading_fails(readings.drop_last());
    }
}

/// Of a list of blobs those stay, in their order, of which each on its own would stay.
/// Without a registry, and where nothing is known at all, every blob stays.
pub proof fn law_kept_blobs_keep_their_order(
    a: Seq<ContentHash>,
    b: Seq<ContentHash>,
    registry_given: bool,
    map: Map<ContentHash, MetadataModel>,
)
    ensures
        kept_hashes(a + b, registry_given, map) == kept_hashes(a, registry_given, map)
            + kept_hashes(b, registry_given, map),
        kept_hashes(a, false, map) == a,
        kept_hashes(a, registry_given, Map::empty()) == a,
        forall|hash: ContentHash| #[trigger]
            map.contains_key(hash) ==> kept_hashes(seq![hash], registry_given, map) == seq![hash],
{
    let known = |hash: ContentHash| map.contains_key(hash);
    Seq::filter_distributes_over_add(a, b, known);
    assert(Map::<ContentHash, MetadataModel>::empty().dom() =~= Set::<ContentHash>::empty());
    assert forall|hash: ContentHash| #[trigger] map.contains_key(hash) implies kept_hashes(
        seq![hash],
        registry_given,
        map,
    ) == seq![hash] by {
        reveal(Seq::filter);
        assert(seq![hash].drop_last() =~= Seq::empty());
        assert(seq![hash].drop_last().filter(known) =~= Seq::<ContentHash>::empty());
    }
}

/// With a limit, as many blobs are extracted as there are, but not more than the limit.
pub proof fn law_limit_is_the_most(count: int, limit: usize)
    requires
        count >= 0,
    ensures
        limited_count(count, None) == count,
        limited_count(count, Some(limit)) <= count,
        limited_count(count, Some(limit)) <= limit,
        limited_count(count, Some(limit)) == count || limited_count(count, Some(limit)) == limit,
{
}

/// Square images of at most 512 pixels are icons, and all others are textures.
pub proof fn law_what_is_an_icon(width: u32, height: u32, side: u32)
    ensures
        side <= 512 ==> image_folder(side, side) == "icons"@,
        side > 512 ==> image_folder(side, side) == "textures"@,
        width != height ==> image_folder(width, height) == "textures"@,
{
}

/// The file of a level carries its number where the image has more than one.
pub proof fn law_endings_of_levels(level: u32, levels: u32)
    ensures
        levels > 1 ==> level_extension_of(level, levels) == "_mip"@ + decimal(level as nat)
            + ".png"@,
        levels <= 1 ==> level_extension_of(level, levels) == ".png"@,
{
}

/// The place of a file is made of the folder, if the layout has folders, and the name.
pub proof fn law_what_a_place_is_made_of(
    folder: Seq<char>,
    hash: Seq<char>,
    extension: Seq<char>,
    debug_name: Option<Seq<char>>,
    use_debug_names: bool,
)
    requires
        folder.len() > 0,
    ensures
        place_of(
            Layout { organize: true, use_debug_names },
            folder,
            hash,
            extension,
            debug_name,
        ) == seq![folder, content_file_name(hash, extension, debug_name, use_debug_names)],
        place_of(
            Layout { organize: false, use_debug_names },
            folder,
            hash,
            extension,
            debug_name,
        ) == seq![content_file_name(hash, extension, debug_name, use_debug_names)],
{
}

/// A blob ends well if its files are written. Every other outcome is a failure, which
/// says which blob it was, and why.
pub proof fn law_endings_of_blobs(hash: Seq<char>, reason: String)
    ensures
        !blob_ending_of(hash, BlobOutcome::Extracted).failed,
        blob_ending_of(hash, BlobOutcome::Extracted).notice is Quiet,
        blob_ending_of(hash, BlobOutcome::ReadFailed(reason)) == (EndingModel {
            failed: true,
            notice: NoticeModel::Problem(
                "Error extracting content "@ + "`"@ + hash + "`: "@ + reason@,
            ),
        }),
        blob_ending_of(hash, BlobOutcome::WriteFailed(reason)) == (EndingModel {
            failed: true,
            notice: NoticeModel::Problem(
                "Error extracting content "@ + "`"@ + hash + "`: "@ + reason@,
            ),
        }),
        blob_ending_of(hash, BlobOutcome::NotFound) == (EndingModel {
            failed: true,
            notice: NoticeModel::Problem(
                "Error extracting content "@ + "`"@ + hash + "`: "@ + "Content not found"@,
            ),
        }),
{
}

/// All resources are scanned where no registry is given, where the registry failed, and
/// where it said nothing. They are not where it said something.
pub proof fn law_when_everything_is_scanned(
    registry_given: bool,
    registry_failed: bool,
    map: Map<ContentHash, MetadataModel>,
    hash: ContentHash,
    metadata: MetadataModel,
)
    ensures
        scan_owed(false, registry_failed, map),
        scan_owed(registry_given, true, map),
        scan_owed(registry_given, registry_failed, Map::empty()),
        !scan_owed(true, false, map.insert(hash, metadata)),
{
    assert(Map::<ContentHash, MetadataModel>::empty().dom() =~= Set::<ContentHash>::empty());
    assert(map.insert(hash, metadata).dom().contains(hash));
}

} // verus!
