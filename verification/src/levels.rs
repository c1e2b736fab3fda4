//! The levels of an image: their sizes, and where each of them lies in the data.

use crate::text::{concat3, decimal, optional_text, push_decimal};
use vstd::arithmetic::power2::{lemma2_to64, lemma_pow2_pos, lemma_pow2_unfold, pow2};
use vstd::prelude::*;
use vstd::string::*;

verus! {

/// The number of bits that a size can be shifted by.
pub const MAX_LEVELS: u32 = 64;

/// The width or the height of an image at a level: halved once for each level, but
/// never less than one.
pub open spec fn level_extent(base: u32, level: nat) -> int {
    let halved = base as int / pow2(level) as int;
    if halved > 1 {
        halved
    } else {
        1
    }
}

/// How many bytes the first levels take.
pub open spec fn bytes_before(sizes: Seq<usize>, level: int) -> int
    decreases level,
{
    if level <= 0 {
        0
    } else {
        bytes_before(sizes, level - 1) + sizes[level - 1]
    }
}

/// How many levels are decoded: all of them where the data reach to the end of the
/// last, else only the first.
pub open spec fn planned_count(sizes: Seq<usize>, have: int) -> nat {
    if bytes_before(sizes, sizes.len() as int) <= have {
        sizes.len()
    } else {
        1
    }
}

/// How many levels of an image are written: all of them where that is asked for,
/// else only the first.
pub open spec fn wanted_levels(level_count: u32, mipmaps: bool) -> u32 {
    if mipmaps {
        level_count
    } else {
        1
    }
}

/// A level of an image: its number, its size, and the range of the data that it
/// lies in.
#[derive(Clone, Copy, Debug, PartialEq, Eq, Structural)]
pub struct Level {
    pub level: u32,
    pub width: u32,
    pub height: u32,
    pub from: usize,
    pub to: usize,
}

/// Why an image is not converted.
#[derive(Debug, PartialEq, Eq)]
pub enum ImageFailure {
    /// There are no data.
    EmptyData,
    /// The data end before the first level does.
    ShortBase { need: usize, have: usize },
    /// The first level cannot be decoded.
    Undecodable { level: u32, reason: String },
    /// The decoder broke down on the first level.
    Panicked { level: u32 },
    /// The image has no levels.
    NothingExtracted,
}

/// How many levels of an image are written.
pub fn levels_to_extract(level_count: u32, mipmaps: bool) -> (levels: u32)
    ensures
        levels == wanted_levels(level_count, mipmaps),
{
    if mipmaps {
        level_count
    } else {
        1
    }
}

/// The width or the height of an image at a level.
fn extent_at(base: u32, level: u32) -> (extent: u32)
    requires
        level < MAX_LEVELS,
    ensures
        extent == level_extent(base, level as nat),
{
    let wide = base as u64;
    let halved: u64 = wide >> (level as u64);
    proof {
        vstd::bits::lemma_u64_shr_is_div(wide, level as u64);
        lemma_pow2_pos(level as nat);
        assert(halved <= wide) by (nonlinear_arith)
            requires
                halved as int == wide as int / pow2(level as nat) as int,
                pow2(level as nat) > 0,
        ;
    }
    if halved > 1 {
        halved as u32
    } else {
        1
    }
}

/// The width and the height of an image at a level.
pub fn level_size(width: u32, height: u32, level: u32) -> (size: (u32, u32))
    requires
        level < MAX_LEVELS,
    ensures
        size.0 == level_extent(width, level as nat),
        size.1 == level_extent(height, level as nat),
{
    (extent_at(width, level), extent_at(height, level))
}

/// The first levels take no more bytes than more of them do.
proof fn lemma_bytes_before_monotonic(sizes: Seq<usize>, a: int, b: int)
    requires
        0 <= a <= b <= sizes.len(),
    ensures
        0 <= bytes_before(sizes, a) <= bytes_before(sizes, b),
    decreases b,
{
    if b > a {
        lemma_bytes_before_monotonic(sizes, a, b - 1);
    } else if a > 0 {
        lemma_bytes_before_monotonic(sizes, a - 1, b - 1);
    }
}

/// The level with a number, in an image of the given size whose levels take the
/// given numbers of bytes.
pub open spec fn level_at(width: u32, height: u32, sizes: Seq<usize>, number: int) -> Level {
    Level {
        level: number as u32,
        width: level_extent(width, number as nat) as u32,
        height: level_extent(height, number as nat) as u32,
        from: bytes_before(sizes, number) as usize,
        to: bytes_before(sizes, number + 1) as usize,
    }
}

/// Why no level can be decoded, if none can.
pub open spec fn plan_failure(sizes: Seq<usize>, have: usize) -> Option<ImageFailure> {
    if have == 0 {
        Some(ImageFailure::EmptyData)
    } else if sizes.len() == 0 {
        Some(ImageFailure::NothingExtracted)
    } else if sizes[0] > have {
        Some(ImageFailure::ShortBase { need: sizes[0], have })
    } else {
        None
    }
}

/// The levels to decode. `sizes` holds the number of bytes of each level, and
/// `have` is the number of bytes of the data. Data that end before the levels do
/// are good for the first level alone.
pub fn plan_levels(width: u32, height: u32, sizes: &Vec<usize>, have: usize) -> (plan: Result<
    Vec<Level>,
    ImageFailure,
>)
    requires
        sizes@.len() <= MAX_LEVELS,
        bytes_before(sizes@, sizes@.len() as int) <= usize::MAX,
    ensures
        match plan {
            Err(ImageFailure::EmptyData) => have == 0,
            Err(ImageFailure::ShortBase { need, have: had }) => have > 0 && sizes@.len() > 0 && need
                == sizes@[0] && need > have && had == have,
            Err(ImageFailure::NothingExtracted) => have > 0 && sizes@.len() == 0,
            Err(_) => false,
            Ok(levels) => {
                &&& have > 0
                &&& sizes@.len() > 0
                &&& sizes@[0] <= have
                &&& levels@ == Seq::new(
                    planned_count(sizes@, have as int),
                    |number: int| level_at(width, height, sizes@, number),
                )
            },
        },
        plan is Err <==> plan_failure(sizes@, have) is Some,
        plan is Err ==> Some(plan->Err_0) == plan_failure(sizes@, have),
{
    if have == 0 {
        return Err(ImageFailure::EmptyData);
    }
    if sizes.len() == 0 {
        return Err(ImageFailure::NothingExtracted);
    }
    if sizes[0] > have {
        return Err(ImageFailure::ShortBase { need: sizes[0], have });
    }
    let count: usize = match total_size(sizes) {
        Some(total) if total <= have => sizes.len(),
        _ => 1,
    };
    let mut levels: Vec<Level> = Vec::new();
    let mut number: usize = 0;
    let mut offset: usize = 0;
    while number < count
        invariant
            number <= count <= sizes@.len() <= MAX_LEVELS,
            offset == bytes_before(sizes@, number as int),
            bytes_before(sizes@, sizes@.len() as int) <= usize::MAX,
            levels@ == Seq::new(
                number as nat,
                |number: int| level_at(width, height, sizes@, number),
            ),
        decreases count - number,
    {
        proof {
            lemma_bytes_before_monotonic(sizes@, number + 1, sizes@.len() as int);
            assert(bytes_before(sizes@, number + 1) == offset + sizes@[number as int]);
        }
        let end: usize = offset + sizes[number];
        let (w, h) = level_size(width, height, number as u32);
        levels.push(Level { level: number as u32, width: w, height: h, from: offset, to: end });
        offset = end;
        number = number + 1;
        proof {
            assert(levels@ =~= Seq::new(
                number as nat,
                |number: int| level_at(width, height, sizes@, number),
            ));
        }
    }
    Ok(levels)
}

/// The number of bytes that the levels of an image take together, if it can be
/// counted.
pub fn total_size(sizes: &Vec<usize>) -> (total: Option<usize>)
    ensures
        match total {
            Some(total) => total == bytes_before(sizes@, sizes@.len() as int),
            None => bytes_before(sizes@, sizes@.len() as int) > usize::MAX,
        },
{
    let mut total: usize = 0;
    let mut number: usize = 0;
    while number < sizes.len()
        invariant
            number <= sizes@.len(),
            total == bytes_before(sizes@, number as int),
        decreases sizes@.len() - number,
    {
        proof {
            lemma_bytes_before_monotonic(sizes@, number + 1, sizes@.len() as int);
        }
        if sizes[number] > usize::MAX - total {
            return None;
        }
        total = total + sizes[number];
        number = number + 1;
    }
    Some(total)
}

// ---------------------------------------------------------------------------
// Decoding
// ---------------------------------------------------------------------------

/// How the decoding of a level ended.
pub enum Decoding {
    /// The level was decoded.
    Done,
    /// The data of the level are not valid.
    Failed(String),
    /// The decoder broke down.
    Panicked,
}

// ---------------------------------------------------------------------------
// What the user is told
// ---------------------------------------------------------------------------

/// What the user is told of an image that is not converted.
pub open spec fn failure_text(hash: Seq<char>, failure: ImageFailure) -> Seq<char> {
    match failure {
        ImageFailure::EmptyData => "Empty data for image "@ + hash + ", saving to failed/"@,
        ImageFailure::ShortBase { need, have } => "Insufficient data for base level "@ + hash
            + ": need "@ + decimal(need as nat) + ", have "@ + decimal(have as nat)
            + ", saving to failed/"@,
        ImageFailure::Undecodable { level, reason } => "Failed to decode image "@ + hash
            + " level "@ + decimal(level as nat) + ": "@ + reason@ + ", saving to failed/"@,
        ImageFailure::Panicked { level } => "Panic during decode of image "@ + hash + " level "@
            + decimal(level as nat) + ", saving to failed/"@,
        ImageFailure::NothingExtracted => "No mipmaps extracted for "@ + hash
            + ", saving to failed/"@,
    }
}

/// What the user is told of an image that is not converted.
pub fn failure_message(hash: &str, failure: &ImageFailure) -> (message: String)
    ensures
        message@ == failure_text(hash@, *failure),
{
    match failure {
        ImageFailure::EmptyData => concat3("Empty data for image ", hash, ", saving to failed/"),
        ImageFailure::ShortBase { need, have } => {
            let mut message = concat3("Insufficient data for base level ", hash, ": need ");
            push_decimal(&mut message, *need as u64);
            message.append(", have ");
            push_decimal(&mut message, *have as u64);
            message.append(", saving to failed/");
            message
        },
        ImageFailure::Undecodable { level, reason } => {
            let mut message = concat3("Failed to decode image ", hash, " level ");
            push_decimal(&mut message, *level as u64);
            message.append(": ");
            message.append(reason.as_str());
            message.append(", saving to failed/");
            message
        },
        ImageFailure::Panicked { level } => {
            let mut message = concat3("Panic during decode of image ", hash, " level ");
            push_decimal(&mut message, *level as u64);
            message.append(", saving to failed/");
            message
        },
        ImageFailure::NothingExtracted => concat3(
            "No mipmaps extracted for ",
            hash,
            ", saving to failed/",
        ),
    }
}

/// What the user is told before an image is converted whose data end before its
/// levels do. Of empty data nothing is said here.
pub open spec fn short_data_text(hash: Seq<char>, total: int, have: int) -> Option<Seq<char>> {
    if 0 < have < total {
        Some(
            "Insufficient data for mipmaps "@ + hash + ": need "@ + decimal(total as nat)
                + ", have "@ + decimal(have as nat) + ", extracting single level"@,
        )
    } else {
        None
    }
}

/// What the user is told before an image is converted whose data end before its
/// levels do. `total` is the number of bytes that the levels take together.
pub fn short_data_warning(hash: &str, total: usize, have: usize) -> (warning: Option<String>)
    ensures
        optional_text(warning) == short_data_text(hash@, total as int, have as int),
{
    if have == 0 || have >= total {
        return None;
    }
    let mut message = concat3("Insufficient data for mipmaps ", hash, ": need ");
    push_decimal(&mut message, total as u64);
    message.append(", have ");
    push_decimal(&mut message, have as u64);
    message.append(", extracting single level");
    Some(message)
}

// ---------------------------------------------------------------------------
// What holds of levels
// ---------------------------------------------------------------------------

/// Each level is half as wide and half as high as the one before, but never less
/// than one, and the first has the size of the image.
pub proof fn law_each_level_halves(base: u32, level: nat)
    requires
        base > 0,
    ensures
        level_extent(base, 0) == base,
        level_extent(base, level + 1) == if level_extent(base, level) / 2 > 1 {
            level_extent(base, level) / 2
        } else {
            1
        },
        1 <= level_extent(base, level + 1) <= level_extent(base, level),
{
    lemma2_to64();
    lemma_pow2_pos(level);
    lemma_pow2_unfold(level + 1);
    vstd::arithmetic::div_mod::lemma_div_denominator(base as int, pow2(level) as int, 2);
    assert(pow2(level) as int * 2 == pow2(level + 1));
}

/// The planned levels follow each other without a gap from the start of the data,
/// and all of them lie within the data.
pub proof fn law_planned_levels_tile_the_data(sizes: Seq<usize>, have: int, number: int)
    requires
        sizes.len() > 0,
        sizes[0] <= have,
        0 <= number < planned_count(sizes, have),
    ensures
        bytes_before(sizes, 0) == 0,
        bytes_before(sizes, number + 1) == bytes_before(sizes, number) + sizes[number],
        bytes_before(sizes, number + 1) <= have,
{
    if bytes_before(sizes, sizes.len() as int) <= have {
        lemma_bytes_before_monotonic(sizes, number + 1, sizes.len() as int);
    } else {
        reveal_with_fuel(bytes_before, 2);
    }
}

/// Where the user is told that a single level is extracted, no more than the first
/// level is planned, and where nothing is said of it, all levels are.
pub proof fn law_short_data_leave_a_single_level(
    hash: Seq<char>,
    sizes: Seq<usize>,
    have: int,
)
    requires
        have > 0,
    ensures
        planned_count(sizes, have) == match short_data_text(
            hash,
            bytes_before(sizes, sizes.len() as int),
            have,
        ) {
            Some(_) => 1,
            None => sizes.len(),
        },
{
}

/// All levels are decoded exactly if the data are as long as all of them together, and
/// else the first alone.
pub proof fn law_how_many_levels_are_planned(sizes: Seq<usize>, have: int)
    ensures
        bytes_before(sizes, sizes.len() as int) == sizes.fold_left(
            0int,
            |sum: int, size: usize| sum + size,
        ),
        bytes_before(sizes, sizes.len() as int) <= have ==> planned_count(sizes, have)
            == sizes.len(),
        bytes_before(sizes, sizes.len() as int) > have ==> planned_count(sizes, have) == 1,
    decreases sizes.len(),
{
    if sizes.len() > 0 {
        law_how_many_levels_are_planned(sizes.drop_last(), have);
        lemma_bytes_before_prefix(sizes, sizes.len() - 1);
    }
}

proof fn lemma_bytes_before_prefix(sizes: Seq<usize>, level: int)
    requires
        level < sizes.len(),
    ensures
        bytes_before(sizes, level) == bytes_before(sizes.drop_last(), level),
    decreases level,
{
    if level > 0 {
        lemma_bytes_before_prefix(sizes, level - 1);
        assert(sizes.drop_last()[level - 1] == sizes[level - 1]);
    }
}

/// All levels are written where that is asked for, and else just one.
pub proof fn law_how_many_levels_are_wanted(level_count: u32)
    ensures
        wanted_levels(level_count, true) == level_count,
        wanted_levels(level_count, false) == 1,
{
}

/// A level has its number and its size, and lies where the one before it ends. The
/// first lies at the start of the data.
pub proof fn law_each_level_has_its_place(
    width: u32,
    height: u32,
    sizes: Seq<usize>,
    number: int,
)
    requires
        0 <= number < sizes.len() <= u32::MAX,
        bytes_before(sizes, number) + sizes[number] <= usize::MAX,
        width > 0,
        height > 0,
    ensures
        level_at(width, height, sizes, number).level == number,
        level_at(width, height, sizes, number).width == level_extent(width, number as nat),
        level_at(width, height, sizes, number).height == level_extent(height, number as nat),
        level_at(width, height, sizes, 0).from == 0,
        level_at(width, height, sizes, number).to == level_at(width, height, sizes, number).from
            + sizes[number],
        level_at(width, height, sizes, number + 1).from == level_at(
            width,
            height,
            sizes,
            number,
        ).to,
{
    lemma_bytes_before_is_positive(sizes, number);
    lemma_extent_fits(width, number as nat);
    lemma_extent_fits(height, number as nat);
}

proof fn lemma_bytes_before_is_positive(sizes: Seq<usize>, level: int)
    ensures
        bytes_before(sizes, level) >= 0,
    decreases level,
{
    if level > 0 {
        lemma_bytes_before_is_positive(sizes, level - 1);
    }
}

proof fn lemma_extent_fits(base: u32, level: nat)
    requires
        base > 0,
    ensures
        1 <= level_extent(base, level) <= base,
    decreases level,
{
    law_each_level_halves(base, 0);
    if level > 0 {
        lemma_extent_fits(base, (level - 1) as nat);
        law_each_level_halves(base, (level - 1) as nat);
    }
}

/// What is said of an image that is saved as it is says which image it is, and why.
pub proof fn law_failures_say_why(
    hash: Seq<char>,
    need: usize,
    have: usize,
    level: u32,
    reason: String,
)
    ensures
        failure_text(hash, ImageFailure::EmptyData) == "Empty data for image "@ + hash
            + ", saving to failed/"@,
        failure_text(hash, ImageFailure::ShortBase { need, have })
            == "Insufficient data for base level "@ + hash + ": need "@ + decimal(need as nat)
            + ", have "@ + decimal(have as nat) + ", saving to failed/"@,
        failure_text(hash, ImageFailure::Undecodable { level, reason })
            == "Failed to decode image "@ + hash + " level "@ + decimal(level as nat) + ": "@
            + reason@ + ", saving to failed/"@,
        failure_text(hash, ImageFailure::Panicked { level }) == "Panic during decode of image "@
            + hash + " level "@ + decimal(level as nat) + ", saving to failed/"@,
        failure_text(hash, ImageFailure::NothingExtracted) == "No mipmaps extracted for "@ + hash
            + ", saving to failed/"@,
{
}

/// The user is told of short data if there are some data but fewer than all levels take.
pub proof fn law_short_data_are_told(hash: Seq<char>, total: int, have: int)
    ensures
        have <= 0 || have >= total ==> short_data_text(hash, total, have) is None,
        0 < have < total ==> short_data_text(hash, total, have) == Some(
            "Insufficient data for mipmaps "@ + hash + ": need "@ + decimal(total as nat)
                + ", have "@ + decimal(have as nat) + ", extracting single level"@,
        ),
{
}

/// No level can be decoded without data, without levels, or where the data end before
/// the first level does. Data that hold just the first level are enough.
pub proof fn law_when_no_level_can_be_decoded(
    sizes: Seq<usize>,
    have: usize,
    first: usize,
    rest: Seq<usize>,
)
    ensures
        plan_failure(sizes, 0) == Some(ImageFailure::EmptyData),
        have > 0 ==> plan_failure(Seq::empty(), have) == Some(ImageFailure::NothingExtracted),
        0 < have < first ==> plan_failure(seq![first] + rest, have) == Some(
            ImageFailure::ShortBase { need: first, have },
        ),
        first <= have && have > 0 ==> plan_failure(seq![first] + rest, have) is None,
{
}

} // verus!
