//! The table of what is known of each content blob.

use crate::metadata::{ContentMetadata, MetadataModel};
use crate::value::ContentHash;
use std::collections::HashMap;
use vstd::prelude::*;
use vstd::std_specs::hash::group_hash_axioms;

verus! {

broadcast use group_hash_axioms;

/// What is known of content blobs, by their hashes.
pub struct ContentMap {
    entries: HashMap<u128, ContentMetadata>,
}

/// Two numbers in one, the second in the lower 32 bits.
spec fn joined(high: int, low: int) -> int {
    high * 0x1_0000_0000 + low
}

/// The number that a content hash packs into.
spec fn packed(hash: ContentHash) -> int {
    joined(joined(joined(hash.size as int, hash.hash0 as int), hash.hash1 as int), hash.hash2 as int)
}

/// The content hash that packs into a number.
spec fn unpacked(key: u128) -> ContentHash {
    let upper = key as int / 0x1_0000_0000;
    let middle = upper / 0x1_0000_0000;
    ContentHash {
        size: (middle / 0x1_0000_0000) as u32,
        hash0: (middle % 0x1_0000_0000) as u32,
        hash1: (upper % 0x1_0000_0000) as u32,
        hash2: (key as int % 0x1_0000_0000) as u32,
    }
}

impl View for ContentMap {
    type V = Map<ContentHash, MetadataModel>;

    closed spec fn view(&self) -> Map<ContentHash, MetadataModel> {
        Map::new(
            |hash: ContentHash| self.entries@.contains_key(packed(hash) as u128),
            |hash: ContentHash| self.entries@[packed(hash) as u128]@,
        )
    }
}

/// Joined numbers can be told apart again.
proof fn lemma_joined(high: int, low: int)
    requires
        0 <= low < 0x1_0000_0000,
    ensures
        joined(high, low) / 0x1_0000_0000 == high,
        joined(high, low) % 0x1_0000_0000 == low,
{
}

/// Packing keeps hashes apart.
proof fn lemma_packed(hash: ContentHash)
    ensures
        0 <= packed(hash) <= u128::MAX,
        unpacked(packed(hash) as u128) == hash,
{
    let first = joined(hash.size as int, hash.hash0 as int);
    let second = joined(first, hash.hash1 as int);
    lemma_joined(hash.size as int, hash.hash0 as int);
    lemma_joined(first, hash.hash1 as int);
    lemma_joined(second, hash.hash2 as int);
}

/// Packing reaches every number.
proof fn lemma_unpacked(key: u128)
    ensures
        packed(unpacked(key)) == key,
{
    let upper = key as int / 0x1_0000_0000;
    let middle = upper / 0x1_0000_0000;
    let size = middle / 0x1_0000_0000;
    assert(size <= u32::MAX);
}

/// The number that a content hash packs into.
fn pack(hash: ContentHash) -> (key: u128)
    ensures
        key == packed(hash),
{
    let first: u128 = hash.size as u128 * 0x1_0000_0000 + hash.hash0 as u128;
    let second: u128 = first * 0x1_0000_0000 + hash.hash1 as u128;
    second * 0x1_0000_0000 + hash.hash2 as u128
}

/// The hashes of the images in a table.
pub open spec fn image_hashes(map: Map<ContentHash, MetadataModel>) -> Set<ContentHash> {
    map.dom().filter(|hash: ContentHash| map[hash] is Image)
}

/// The hashes of the sounds in a table.
pub open spec fn audio_hashes(map: Map<ContentHash, MetadataModel>) -> Set<ContentHash> {
    map.dom().filter(|hash: ContentHash| map[hash] is Audio)
}

impl ContentMap {
    /// A table without entries.
    pub fn new() -> (map: ContentMap)
        ensures
            map@ == Map::<ContentHash, MetadataModel>::empty(),
    {
        let map = ContentMap { entries: HashMap::new() };
        proof {
            assert(map@ =~= Map::<ContentHash, MetadataModel>::empty());
        }
        map
    }

    /// The table has finitely many entries, as many as the map behind it.
    proof fn lemma_len(&self)
        ensures
            self@.dom().finite(),
            self@.len() == self.entries@.len(),
    {
        let f = |key: u128| unpacked(key);
        assert(self@.dom() =~= self.entries@.dom().map(f)) by {
            assert forall|hash: ContentHash| self@.dom().contains(hash) implies
                self.entries@.dom().map(f).contains(hash) by {
                lemma_packed(hash);
                assert(self.entries@.dom().contains(packed(hash) as u128));
                assert(f(packed(hash) as u128) == hash);
            }
            assert forall|hash: ContentHash| self.entries@.dom().map(f).contains(hash) implies
                self@.dom().contains(hash) by {
                let key = choose|key: u128| self.entries@.dom().contains(key) && hash == f(key);
                lemma_unpacked(key);
            }
        }
        assert(vstd::relations::injective_on(f, self.entries@.dom())) by {
            assert forall|a: u128, b: u128| #[trigger] f(a) == #[trigger] f(b) implies a == b by {
                lemma_unpacked(a);
                lemma_unpacked(b);
            }
        }
        vstd::set_lib::lemma_map_size(self.entries@.dom(), self@.dom(), f);
    }

    /// How many entries there are.
    pub fn len(&self) -> (len: usize)
        ensures
            self@.dom().finite(),
            len == self@.len(),
    {
        proof {
            self.lemma_len();
        }
        self.entries.len()
    }

    /// Whether there are no entries.
    pub fn is_empty(&self) -> (empty: bool)
        ensures
            empty == (self@.dom() == Set::<ContentHash>::empty()),
    {
        let empty = self.len() == 0;
        proof {
            if empty {
                assert(self@.dom() =~= Set::<ContentHash>::empty());
            }
        }
        empty
    }

    /// What is known of a blob.
    pub fn get(&self, hash: ContentHash) -> (metadata: Option<&ContentMetadata>)
        ensures
            match metadata {
                Some(metadata) => self@.contains_key(hash) && self@[hash] == metadata@,
                None => !self@.contains_key(hash),
            },
    {
        self.entries.get(&pack(hash))
    }

    /// Whether anything is known of a blob.
    pub fn contains(&self, hash: ContentHash) -> (found: bool)
        ensures
            found == self@.contains_key(hash),
    {
        self.get(hash).is_some()
    }

    /// Records what is known of a blob, in place of what was known before.
    pub fn insert(&mut self, hash: ContentHash, metadata: ContentMetadata)
        ensures
            final(self)@ == old(self)@.insert(hash, metadata@),
    {
        let ghost before = self@;
        self.entries.insert(pack(hash), metadata);
        proof {
            assert forall|other: ContentHash| packed(other) == packed(hash) implies other
                == hash by {
                lemma_packed(other);
                lemma_packed(hash);
            }
            assert forall|other: ContentHash| 0 <= #[trigger] packed(other) <= u128::MAX by {
                lemma_packed(other);
            }
            assert(self@ =~= before.insert(hash, metadata@));
        }
    }

    /// Records what is known of a blob, unless something was known before.
    pub fn insert_if_absent(&mut self, hash: ContentHash, metadata: ContentMetadata)
        ensures
            final(self)@ == if old(self)@.contains_key(hash) {
                old(self)@
            } else {
                old(self)@.insert(hash, metadata@)
            },
    {
        if !self.contains(hash) {
            self.insert(hash, metadata);
        }
    }

    /// How many images and how many sounds the table holds.
    pub fn counts(&self) -> (counts: (usize, usize))
        ensures
            image_hashes(self@).finite(),
            audio_hashes(self@).finite(),
            counts.0 == image_hashes(self@).len(),
            counts.1 == audio_hashes(self@).len(),
    {
        let mut images: usize = 0;
        let mut sounds: usize = 0;
        let ghost mut image_set = Set::<ContentHash>::empty();
        let ghost mut audio_set = Set::<ContentHash>::empty();
        let ghost mut walked: Seq<u128> = seq![];
        let ghost total: usize = self.entries.len();
        proof {
            if total == 0 {
                assert(walked.to_set() =~= self.entries@.dom());
            }
        }
        for key in it: self.entries.keys()
            invariant
                it.seq().unref().to_set() == self.entries@.dom(),
                it.seq().no_duplicates(),
                it.seq().len() == self.entries@.len() == total,
                walked == it.seq().unref().take(it.index() as int),
                walked.len() == it.index(),
                walked.len() == total ==> walked.to_set() == self.entries@.dom(),
                image_set.finite(),
                audio_set.finite(),
                images == image_set.len(),
                sounds == audio_set.len(),
                images <= it.index(),
                sounds <= it.index(),
                forall|hash: ContentHash| #[trigger]
                    image_set.contains(hash) <==> exists|i: int|
                        0 <= i < walked.len() && #[trigger] walked[i] == packed(hash)
                            && self@[hash] is Image,
                forall|hash: ContentHash| #[trigger]
                    audio_set.contains(hash) <==> exists|i: int|
                        0 <= i < walked.len() && #[trigger] walked[i] == packed(hash)
                            && self@[hash] is Audio,
        {
            let ghost hash = unpacked(*key);
            proof {
                lemma_unpacked(*key);
                assert(it.seq().unref()[it.index() as int] == *key);
                assert(it.seq().unref().to_set().contains(*key));
                let longer = it.seq().unref().take(it.index() + 1);
                assert(longer =~= walked.push(*key));
                assert forall|i: int| 0 <= i < walked.len() implies walked[i] != *key by {
                    assert(it.seq()[i] != it.seq()[it.index() as int]);
                }
                walked = walked.push(*key);
                if walked.len() == total {
                    assert(walked =~= it.seq().unref());
                }
                assert(walked.last() == packed(hash));
                assert forall|other: ContentHash| packed(other) == packed(hash) implies other
                    == hash by {
                    lemma_packed(other);
                    lemma_packed(hash);
                }
            }
            match self.entries.get(key) {
                Some(ContentMetadata::Image { .. }) => {
                    images = images + 1;
                    proof {
                        image_set = image_set.insert(hash);
                    }
                },
                Some(ContentMetadata::Audio { .. }) => {
                    sounds = sounds + 1;
                    proof {
                        audio_set = audio_set.insert(hash);
                    }
                },
                None => {},
            }
        }
        proof {
            assert forall|hash: ContentHash| self@.contains_key(hash) implies exists|i: int|
                0 <= i < walked.len() && #[trigger] walked[i] == packed(hash) by {
                lemma_packed(hash);
                assert(walked.to_set().contains(packed(hash) as u128));
            }
            assert(image_set =~= image_hashes(self@));
            assert(audio_set =~= audio_hashes(self@));
        }
        (images, sounds)
    }
}

/// Every blob that is known is an image or a sound, and none is both.
pub proof fn law_images_and_sounds_are_all(map: Map<ContentHash, MetadataModel>)
    requires
        map.dom().finite(),
    ensures
        image_hashes(map).len() + audio_hashes(map).len() == map.len(),
{
    let images = image_hashes(map);
    let sounds = audio_hashes(map);
    assert(images.disjoint(sounds));
    assert(images + sounds =~= map.dom());
    vstd::set_lib::lemma_set_disjoint_lens(images, sounds);
}

/// A blob counts as an image exactly if an image is known under its hash, and as a
/// sound exactly if a sound is.
pub proof fn law_what_counts_as_image_or_sound(
    map: Map<ContentHash, MetadataModel>,
    hash: ContentHash,
    metadata: MetadataModel,
)
    ensures
        metadata is Image ==> image_hashes(map.insert(hash, metadata)).contains(hash)
            && !audio_hashes(map.insert(hash, metadata)).contains(hash),
        metadata is Audio ==> audio_hashes(map.insert(hash, metadata)).contains(hash)
            && !image_hashes(map.insert(hash, metadata)).contains(hash),
        !map.contains_key(hash) ==> !image_hashes(map).contains(hash) && !audio_hashes(
            map,
        ).contains(hash),
{
}

} // verus!
