//! Detection and removal of the header that some content blobs are wrapped in.
//!
//! A wrapped blob starts with a header of 24 bytes that holds three
//! little-endian tags, at the offsets 0, 8 and 20. The bytes between the tags
//! carry no meaning here, and the content follows the header.

use vstd::prelude::*;
use vstd::slice::slice_subrange;

verus! {

/// The tag at offset 0 of a wrapped blob.
pub const WRAPPER_MAGIC: u32 = 0x07230203;

/// The tag at offset 8 of a wrapped blob.
pub const WRAPPER_SECONDARY: u32 = 0x000e0000;

/// The tag at offset 20 of a wrapped blob.
pub const WRAPPER_TERTIARY: u32 = 0x00020011;

/// The length of the header, and so the offset of the content.
pub const WRAPPER_DATA_OFFSET: usize = 24;

/// The number that the four bytes from `at` on spell in little-endian order.
pub open spec fn le_u32(data: Seq<u8>, at: int) -> int {
    data[at] + 0x100 * data[at + 1] + 0x1_0000 * data[at + 2] + 0x100_0000 * data[at + 3]
}

/// Whether `data` starts with a complete header.
pub open spec fn is_wrapped(data: Seq<u8>) -> bool {
    &&& data.len() >= WRAPPER_DATA_OFFSET
    &&& le_u32(data, 0) == WRAPPER_MAGIC
    &&& le_u32(data, 8) == WRAPPER_SECONDARY
    &&& le_u32(data, 20) == WRAPPER_TERTIARY
}

/// The content of a blob: what follows the header, or all of it where there is none.
pub open spec fn unwrapped(data: Seq<u8>) -> Seq<u8> {
    if is_wrapped(data) {
        data.skip(WRAPPER_DATA_OFFSET as int)
    } else {
        data
    }
}

/// Reads the little-endian number at `at`.
fn read_le_u32(data: &[u8], at: usize) -> (value: u32)
    requires
        at + 4 <= data@.len(),
    ensures
        value == le_u32(data@, at as int),
{
    let b0: u32 = data[at] as u32;
    let b1: u32 = data[at + 1] as u32;
    let b2: u32 = data[at + 2] as u32;
    let b3: u32 = data[at + 3] as u32;
    b0 + 0x100 * b1 + 0x1_0000 * b2 + 0x100_0000 * b3
}

/// Checks whether the data starts with the wrapper header.
pub fn has_wrapper(data: &[u8]) -> (found: bool)
    ensures
        found == is_wrapped(data@),
{
    if data.len() < WRAPPER_DATA_OFFSET {
        return false;
    }
    read_le_u32(data, 0) == WRAPPER_MAGIC && read_le_u32(data, 8) == WRAPPER_SECONDARY
        && read_le_u32(data, 20) == WRAPPER_TERTIARY
}

/// Strips the wrapper header if there is one, and returns the content.
pub fn strip_content_wrapper(data: &[u8]) -> (content: &[u8])
    ensures
        content@ == unwrapped(data@),
{
    if has_wrapper(data) {
        slice_subrange(data, WRAPPER_DATA_OFFSET, data.len())
    } else {
        data
    }
}

/// Strips the wrapper header if there is one, and returns the content as owned data.
pub fn strip_content_wrapper_owned(data: Vec<u8>) -> (content: Vec<u8>)
    ensures
        content@ == unwrapped(data@),
{
    if has_wrapper(data.as_slice()) {
        let mut data = data;
        data.split_off(WRAPPER_DATA_OFFSET)
    } else {
        data
    }
}

/// Stripping undoes wrapping: whatever content follows a header comes back
/// unchanged, also where the content starts with a header of its own.
pub proof fn law_strip_undoes_wrapping(header: Seq<u8>, content: Seq<u8>)
    requires
        header.len() == WRAPPER_DATA_OFFSET,
        is_wrapped(header),
    ensures
        is_wrapped(header + content),
        unwrapped(header + content) == content,
{
    assert((header + content).skip(WRAPPER_DATA_OFFSET as int) =~= content);
}

/// Data without a header is its own content.
pub proof fn law_strip_keeps_unwrapped_data(data: Seq<u8>)
    requires
        !is_wrapped(data),
    ensures
        unwrapped(data) == data,
{
}

/// The content is always the end of the data, and it is either all of the data
/// or shorter by exactly one header.
pub proof fn law_content_is_a_suffix(data: Seq<u8>)
    ensures
        unwrapped(data).len() == data.len() || unwrapped(data).len() + WRAPPER_DATA_OFFSET
            == data.len(),
        unwrapped(data) == data.skip(data.len() - unwrapped(data).len()),
{
    assert(data.skip(0) =~= data);
}

/// The bytes of the header that lie between the tags decide nothing.
pub proof fn law_only_the_tags_decide(a: Seq<u8>, b: Seq<u8>)
    requires
        a.len() >= WRAPPER_DATA_OFFSET,
        b.len() >= WRAPPER_DATA_OFFSET,
        a.subrange(0, 4) == b.subrange(0, 4),
        a.subrange(8, 12) == b.subrange(8, 12),
        a.subrange(20, 24) == b.subrange(20, 24),
    ensures
        is_wrapped(a) == is_wrapped(b),
{
    assert forall|at: int| at == 0 || at == 8 || at == 20 implies le_u32(a, at) == le_u32(
        b,
        at,
    ) by {
        let x = a.subrange(at, at + 4);
        let y = b.subrange(at, at + 4);
        assert(x[0] == y[0] && x[1] == y[1] && x[2] == y[2] && x[3] == y[3]);
    }
}

/// The bytes of a header: `03 02 23 07` at the start, `00 00 0e 00` eight bytes in and
/// `11 00 02 00` at the end of the first twenty-four. Data that start so are wrapped, and
/// no others.
pub proof fn law_bytes_of_the_header(data: Seq<u8>)
    ensures
        is_wrapped(data) <==> data.len() >= 24 && data.subrange(0, 4) == seq![
            0x03u8,
            0x02u8,
            0x23u8,
            0x07u8,
        ] && data.subrange(8, 12) == seq![0x00u8, 0x00u8, 0x0eu8, 0x00u8] && data.subrange(20, 24)
            == seq![0x11u8, 0x00u8, 0x02u8, 0x00u8],
        is_wrapped(data) ==> unwrapped(data) == data.subrange(24, data.len() as int),
        !is_wrapped(data) ==> unwrapped(data) == data,
{
    if data.len() >= 24 {
        assert(is_wrapped(data) ==> data.subrange(0, 4) =~= seq![0x03u8, 0x02u8, 0x23u8, 0x07u8]);
        assert(is_wrapped(data) ==> data.subrange(8, 12) =~= seq![
            0x00u8,
            0x00u8,
            0x0eu8,
            0x00u8,
        ]);
        assert(is_wrapped(data) ==> data.subrange(20, 24) =~= seq![
            0x11u8,
            0x00u8,
            0x02u8,
            0x00u8,
        ]);
        assert(data.subrange(0, 4)[0] == data[0]);
        assert(data.subrange(0, 4)[1] == data[1]);
        assert(data.subrange(0, 4)[2] == data[2]);
        assert(data.subrange(0, 4)[3] == data[3]);
        assert(data.subrange(8, 12)[0] == data[8]);
        assert(data.subrange(8, 12)[1] == data[9]);
        assert(data.subrange(8, 12)[2] == data[10]);
        assert(data.subrange(8, 12)[3] == data[11]);
        assert(data.subrange(20, 24)[0] == data[20]);
        assert(data.subrange(20, 24)[1] == data[21]);
        assert(data.subrange(20, 24)[2] == data[22]);
        assert(data.subrange(20, 24)[3] == data[23]);
        assert(data.skip(24) =~= data.subrange(24, data.len() as int));
    }
}

} // verus!
