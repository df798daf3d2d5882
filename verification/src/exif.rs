//! Orientation metadata in JPEG and TIFF containers.
//!
//! A TIFF file (and the TIFF block embedded in a JPEG APP1/Exif segment)
//! starts with a byte-order marker, a magic number and the offset of the
//! first image file directory (IFD); the IFD is a counted list of 12-byte
//! entries, each holding a tag, a field type, a value count and a value
//! field. The orientation lives in the entry with tag 0x0112, field type
//! SHORT and count 1, as a 16-bit value in the entry's value field.
//!
//! The functions here locate that value in a byte buffer, read it, and
//! patch it in place — touching nothing but the two value bytes, so a
//! rotation never re-encodes pixel data.

use vstd::prelude::*;
use crate::file_utils::{chars_ci_eq, eq_ignore_ascii_case, get_extension, spec_extension};

verus! {

/// Byte order recorded in a TIFF header.
#[derive(Debug, Clone, Copy, PartialEq, Eq, Structural)]
pub enum ByteOrder {
    Little,
    Big,
}

/// Container format of a source image, as told by its file extension.
#[derive(Debug, Clone, Copy, PartialEq, Eq, Structural)]
pub enum ContainerFormat {
    Jpeg,
    Tiff,
    Other,
}

/// The 16-bit value stored at offset `i` in byte order `bo`.
pub open spec fn spec_u16_at(b: Seq<u8>, bo: ByteOrder, i: int) -> u16 {
    match bo {
        ByteOrder::Little => ((b[i] as int) + 256 * (b[i + 1] as int)) as u16,
        ByteOrder::Big => (256 * (b[i] as int) + (b[i + 1] as int)) as u16,
    }
}

/// The 32-bit value stored at offset `i` in byte order `bo`.
pub open spec fn spec_u32_at(b: Seq<u8>, bo: ByteOrder, i: int) -> u32 {
    match bo {
        ByteOrder::Little => ((b[i] as int) + 256 * (b[i + 1] as int) + 65536 * (b[i + 2] as int)
            + 16777216 * (b[i + 3] as int)) as u32,
        ByteOrder::Big => (16777216 * (b[i] as int) + 65536 * (b[i + 1] as int) + 256 * (b[i + 2]
            as int) + (b[i + 3] as int)) as u32,
    }
}

/// The byte order named by the two marker bytes at `base`: `II` or `MM`.
pub open spec fn spec_tiff_byte_order(b: Seq<u8>, base: int) -> Option<ByteOrder> {
    if b[base] == 0x49 && b[base + 1] == 0x49 {
        Some(ByteOrder::Little)
    } else if b[base] == 0x4D && b[base + 1] == 0x4D {
        Some(ByteOrder::Big)
    } else {
        None
    }
}

/// A well-formed TIFF block at `base`: marker, magic 42, and a first IFD
/// whose entries lie inside the buffer. The IFD offset is at least 8 so
/// the directory cannot overlap the header.
pub open spec fn spec_tiff_valid(b: Seq<u8>, base: int) -> bool {
    &&& 0 <= base
    &&& base + 8 <= b.len()
    &&& spec_tiff_byte_order(b, base) is Some
    &&& {
        let bo = spec_tiff_byte_order(b, base)->Some_0;
        &&& spec_u16_at(b, bo, base + 2) == 42
        &&& {
            let ifd = spec_u32_at(b, bo, base + 4) as int;
            &&& ifd >= 8
            &&& base + ifd + 2 <= b.len()
            &&& base + ifd + 2 + 12 * (spec_u16_at(b, bo, base + ifd) as int) <= b.len()
        }
    }
}

/// Offset of the first IFD entry with tag 0x0112 among the `n` entries
/// starting at `e`, or `None` when no such entry exists.
pub open spec fn spec_find_orientation_entry(b: Seq<u8>, bo: ByteOrder, e: int, n: int) -> Option<
    int,
>
    decreases n,
{
    if n <= 0 {
        None
    } else if spec_u16_at(b, bo, e) == 0x0112 {
        Some(e)
    } else {
        spec_find_orientation_entry(b, bo, e + 12, n - 1)
    }
}

/// Offset of the 16-bit orientation value inside a TIFF block at `base`,
/// with the block's byte order, when the block is well formed and its
/// first IFD holds an orientation entry of field type SHORT and count 1.
pub open spec fn spec_tiff_orientation_loc(b: Seq<u8>, base: int) -> Option<(int, ByteOrder)> {
    if spec_tiff_valid(b, base) {
        let bo = spec_tiff_byte_order(b, base)->Some_0;
        let ifd = spec_u32_at(b, bo, base + 4) as int;
        let count = spec_u16_at(b, bo, base + ifd) as int;
        match spec_find_orientation_entry(b, bo, base + ifd + 2, count) {
            Some(e) => if spec_u16_at(b, bo, e + 2) == 3 && spec_u32_at(b, bo, e + 4) == 1 {
                Some((e + 8, bo))
            } else {
                None
            },
            None => None,
        }
    } else {
        None
    }
}

/// Every entry offset the IFD search can return lies between `e` and the
/// end of the scanned entries, twelve bytes apart.
pub proof fn lemma_find_entry_bounds(b: Seq<u8>, bo: ByteOrder, e: int, n: int)
    ensures
        spec_find_orientation_entry(b, bo, e, n) matches Some(f) ==> e <= f <= e + 12 * (n - 1),
    decreases n,
{
    if n > 0 && spec_u16_at(b, bo, e) != 0x0112 {
        lemma_find_entry_bounds(b, bo, e + 12, n - 1);
    }
}

/// The 16-bit value at `i`, read from a byte slice.
pub fn u16_at(data: &[u8], bo: ByteOrder, i: usize) -> (r: u16)
    requires
        i + 2 <= data@.len(),
    ensures
        r == spec_u16_at(data@, bo, i as int),
{
    let b0 = data[i] as u16;
    let b1 = data[i + 1] as u16;
    match bo {
        ByteOrder::Little => b0 + 256 * b1,
        ByteOrder::Big => 256 * b0 + b1,
    }
}

/// The 32-bit value at `i`, read from a byte slice.
pub fn u32_at(data: &[u8], bo: ByteOrder, i: usize) -> (r: u32)
    requires
        i + 4 <= data@.len(),
    ensures
        r == spec_u32_at(data@, bo, i as int),
{
    let b0 = data[i] as u32;
    let b1 = data[i + 1] as u32;
    let b2 = data[i + 2] as u32;
    let b3 = data[i + 3] as u32;
    match bo {
        ByteOrder::Little => b0 + 256 * b1 + 65536 * b2 + 16777216 * b3,
        ByteOrder::Big => 16777216 * b0 + 65536 * b1 + 256 * b2 + b3,
    }
}

/// Locates the orientation value of the TIFF block at `base`.
pub fn tiff_orientation_loc(data: &[u8], base: usize) -> (r: Option<(usize, ByteOrder)>)
    ensures
        match r {
            Some((o, bo)) => spec_tiff_orientation_loc(data@, base as int) == Some((o as int, bo)),
            None => spec_tiff_orientation_loc(data@, base as int) is None,
        },
{
    let n = data.len();
    if n < 8 || base > n - 8 {
        return None;
    }
    let bo = if data[base] == 0x49 && data[base + 1] == 0x49 {
        ByteOrder::Little
    } else if data[base] == 0x4D && data[base + 1] == 0x4D {
        ByteOrder::Big
    } else {
        return None;
    };
    if u16_at(data, bo, base + 2) != 42 {
        return None;
    }
    let ifd_raw = u32_at(data, bo, base + 4);
    if ifd_raw < 8 {
        return None;
    }
    if (base as u128) + (ifd_raw as u128) + 2 > (n as u128) {
        return None;
    }
    let ifd = ifd_raw as usize;
    let count = u16_at(data, bo, base + ifd);
    if (base as u128) + (ifd as u128) + 2 + 12 * (count as u128) > (n as u128) {
        return None;
    }
    assert(spec_tiff_valid(data@, base as int));
    let e0 = base + ifd + 2;
    let mut i: usize = 0;
    while i < count as usize
        invariant
            n == data@.len(),
            i <= count as usize,
            e0 + 12 * (count as int) <= n,
            spec_tiff_valid(data@, base as int),
            spec_tiff_byte_order(data@, base as int) == Some(bo),
            ifd == spec_u32_at(data@, bo, base as int + 4),
            count == spec_u16_at(data@, bo, base as int + ifd as int),
            e0 == base + ifd + 2,
            spec_find_orientation_entry(data@, bo, e0 as int, count as int)
                == spec_find_orientation_entry(
                data@,
                bo,
                e0 as int + 12 * (i as int),
                count as int - i as int,
            ),
        decreases count - i,
    {
        let e = e0 + 12 * i;
        if u16_at(data, bo, e) == 0x0112 {
            assert(spec_find_orientation_entry(data@, bo, e0 as int, count as int) == Some(
                e as int,
            ));
            if u16_at(data, bo, e + 2) == 3 && u32_at(data, bo, e + 4) == 1 {
                return Some((e + 8, bo));
            } else {
                return None;
            }
        }
        i = i + 1;
    }
    None
}

/// The six header bytes `Exif\0\0` opening an APP1/Exif segment's payload.
pub open spec fn spec_is_exif_header(b: Seq<u8>, p: int) -> bool {
    &&& b[p] == 0x45
    &&& b[p + 1] == 0x78
    &&& b[p + 2] == 0x69
    &&& b[p + 3] == 0x66
    &&& b[p + 4] == 0x00
    &&& b[p + 5] == 0x00
}

/// Walks the JPEG segment chain from `pos` and returns the offset of the
/// TIFF block inside the first APP1/Exif segment, or `None` when the walk
/// reaches the scan data, the end of the image, or a malformed segment.
pub open spec fn spec_jpeg_exif_search(b: Seq<u8>, pos: int) -> Option<int>
    decreases b.len() - pos,
{
    if pos < 0 || pos + 4 > b.len() {
        None
    } else if b[pos] != 0xFF {
        None
    } else if b[pos + 1] == 0xD9 || b[pos + 1] == 0xDA {
        None
    } else {
        let seglen = spec_u16_at(b, ByteOrder::Big, pos + 2) as int;
        if seglen < 2 {
            None
        } else if b[pos + 1] == 0xE1 && seglen >= 8 && pos + 10 <= b.len() && spec_is_exif_header(
            b,
            pos + 4,
        ) {
            Some(pos + 10)
        } else if pos + 2 + seglen <= b.len() {
            spec_jpeg_exif_search(b, pos + 2 + seglen)
        } else {
            None
        }
    }
}

/// Offset of the TIFF block embedded in a JPEG buffer, when the buffer
/// starts with a start-of-image marker and holds an APP1/Exif segment.
pub open spec fn spec_jpeg_exif_base(b: Seq<u8>) -> Option<int> {
    if b.len() >= 2 && b[0] == 0xFF && b[1] == 0xD8 {
        spec_jpeg_exif_search(b, 2)
    } else {
        None
    }
}

/// A TIFF base found by the segment walk lies at least ten bytes past the
/// walk's start and inside the buffer.
pub proof fn lemma_jpeg_search_bounds(b: Seq<u8>, pos: int)
    ensures
        spec_jpeg_exif_search(b, pos) matches Some(t) ==> pos + 10 <= t <= b.len(),
    decreases b.len() - pos,
{
    if !(pos < 0 || pos + 4 > b.len()) && b[pos] == 0xFF && b[pos + 1] != 0xD9 && b[pos + 1]
        != 0xDA {
        let seglen = spec_u16_at(b, ByteOrder::Big, pos + 2) as int;
        if seglen >= 2 && !(b[pos + 1] == 0xE1 && seglen >= 8 && pos + 10 <= b.len()
            && spec_is_exif_header(b, pos + 4)) && pos + 2 + seglen <= b.len() {
            lemma_jpeg_search_bounds(b, pos + 2 + seglen);
        }
    }
}

/// Where the orientation value of a buffer lives, by container format:
/// at the front for TIFF, inside the APP1/Exif segment for JPEG, nowhere
/// for any other format.
pub open spec fn spec_orientation_loc(b: Seq<u8>, fmt: ContainerFormat) -> Option<
    (int, ByteOrder),
> {
    match fmt {
        ContainerFormat::Jpeg => match spec_jpeg_exif_base(b) {
            Some(t) => spec_tiff_orientation_loc(b, t),
            None => None,
        },
        ContainerFormat::Tiff => spec_tiff_orientation_loc(b, 0),
        ContainerFormat::Other => None,
    }
}

/// The raw stored orientation value, when the buffer holds one.
pub open spec fn spec_raw_orientation(b: Seq<u8>, fmt: ContainerFormat) -> Option<u16> {
    match spec_orientation_loc(b, fmt) {
        Some((o, bo)) => Some(spec_u16_at(b, bo, o)),
        None => None,
    }
}

/// The orientation a renderer must honour: the stored value when it is a
/// supported code, and 1 (no transform) when it is missing or unknown.
pub open spec fn spec_resolved_orientation(b: Seq<u8>, fmt: ContainerFormat) -> u16 {
    match spec_raw_orientation(b, fmt) {
        Some(v) => if 1 <= v <= 8 {
            v
        } else {
            1
        },
        None => 1,
    }
}

/// A located TIFF orientation value lies past the block's header and IFD
/// count, with both its bytes inside the buffer.
pub proof fn lemma_tiff_loc_bounds(b: Seq<u8>, base: int)
    ensures
        spec_tiff_orientation_loc(b, base) matches Some((o, bo)) ==> base + 18 <= o && o + 2
            <= b.len(),
{
    if spec_tiff_orientation_loc(b, base) is Some {
        let bo = spec_tiff_byte_order(b, base)->Some_0;
        let ifd = spec_u32_at(b, bo, base + 4) as int;
        let count = spec_u16_at(b, bo, base + ifd) as int;
        lemma_find_entry_bounds(b, bo, base + ifd + 2, count);
    }
}

/// Both bytes of a located orientation value lie inside the buffer.
pub proof fn lemma_orientation_loc_bounds(b: Seq<u8>, fmt: ContainerFormat)
    ensures
        spec_orientation_loc(b, fmt) matches Some((o, bo)) ==> 0 <= o && o + 2 <= b.len(),
{
    match fmt {
        ContainerFormat::Jpeg => {
            if spec_jpeg_exif_base(b) is Some {
                lemma_jpeg_search_bounds(b, 2);
                lemma_tiff_loc_bounds(b, spec_jpeg_exif_base(b)->Some_0);
            }
        },
        ContainerFormat::Tiff => {
            lemma_tiff_loc_bounds(b, 0);
        },
        ContainerFormat::Other => {},
    }
}

/// Offset of the TIFF block inside a JPEG buffer.
pub fn jpeg_exif_base(data: &[u8]) -> (r: Option<usize>)
    ensures
        match r {
            Some(t) => spec_jpeg_exif_base(data@) == Some(t as int),
            None => spec_jpeg_exif_base(data@) is None,
        },
{
    let n = data.len();
    if n < 2 || data[0] != 0xFF || data[1] != 0xD8 {
        return None;
    }
    let mut pos: usize = 2;
    loop
        invariant
            n == data@.len(),
            2 <= pos <= n,
            data@[0] == 0xFF,
            data@[1] == 0xD8,
            spec_jpeg_exif_search(data@, 2) == spec_jpeg_exif_search(data@, pos as int),
        decreases n - pos,
    {
        if n - pos < 4 {
            return None;
        }
        if data[pos] != 0xFF {
            return None;
        }
        let marker = data[pos + 1];
        if marker == 0xD9 || marker == 0xDA {
            return None;
        }
        let seglen = u16_at(data, ByteOrder::Big, pos + 2) as usize;
        if seglen < 2 {
            return None;
        }
        if marker == 0xE1 && seglen >= 8 && n - pos >= 10 && data[pos + 4] == 0x45 && data[pos + 5]
            == 0x78 && data[pos + 6] == 0x69 && data[pos + 7] == 0x66 && data[pos + 8] == 0x00
            && data[pos + 9] == 0x00 {
            proof {
                assert(spec_jpeg_exif_search(data@, pos as int) == Some(pos + 10 as int)) by {
                    reveal_with_fuel(spec_jpeg_exif_search, 2);
                }
            }
            return Some(pos + 10);
        }
        if seglen > n - pos - 2 {
            return None;
        }
        pos = pos + 2 + seglen;
    }
}

/// Locates the orientation value of a buffer in format `fmt`.
pub fn orientation_loc(data: &[u8], fmt: ContainerFormat) -> (r: Option<(usize, ByteOrder)>)
    ensures
        match r {
            Some((o, bo)) => spec_orientation_loc(data@, fmt) == Some((o as int, bo)),
            None => spec_orientation_loc(data@, fmt) is None,
        },
{
    match fmt {
        ContainerFormat::Jpeg => match jpeg_exif_base(data) {
            Some(t) => tiff_orientation_loc(data, t),
            None => None,
        },
        ContainerFormat::Tiff => tiff_orientation_loc(data, 0),
        ContainerFormat::Other => None,
    }
}

/// Reads the orientation a renderer must honour from an image buffer:
/// the stored code when the buffer carries a supported one, else 1.
pub fn read_orientation(data: &[u8], fmt: ContainerFormat) -> (r: u16)
    ensures
        r == spec_resolved_orientation(data@, fmt),
{
    proof {
        lemma_orientation_loc_bounds(data@, fmt);
    }
    match orientation_loc(data, fmt) {
        Some((o, bo)) => {
            let v = u16_at(data, bo, o);
            if 1 <= v && v <= 8 {
                v
            } else {
                1
            }
        },
        None => 1,
    }
}

/// The IFD search reads nothing but entry tags, all of them below the
/// found entry's value field: a buffer that differs only in the two value
/// bytes at `o` is searched to the same result.
proof fn lemma_find_entry_frame(
    b1: Seq<u8>,
    b2: Seq<u8>,
    bo: ByteOrder,
    e: int,
    n: int,
    o: int,
)
    requires
        b2.len() == b1.len(),
        forall|j: int| 0 <= j < b1.len() && j != o && j != o + 1 ==> b2[j] == b1[j],
        e >= 0,
        e + 12 * n <= b1.len(),
        spec_find_orientation_entry(b1, bo, e, n) matches Some(f) && o >= f + 2,
    ensures
        spec_find_orientation_entry(b2, bo, e, n) == spec_find_orientation_entry(b1, bo, e, n),
    decreases n,
{
    if n > 0 {
        lemma_find_entry_bounds(b1, bo, e, n);
        assert(b2[e] == b1[e]);
        assert(b2[e + 1] == b1[e + 1]);
        assert(spec_u16_at(b2, bo, e) == spec_u16_at(b1, bo, e));
        if spec_u16_at(b1, bo, e) != 0x0112 {
            lemma_find_entry_frame(b1, b2, bo, e + 12, n - 1, o);
        }
    }
}

/// Locating the orientation value of a TIFF block reads only the header,
/// the IFD count and the entry fields before the value field: patching the
/// two value bytes does not move the location.
proof fn lemma_tiff_loc_frame(b1: Seq<u8>, b2: Seq<u8>, base: int, o: int, bo: ByteOrder)
    requires
        spec_tiff_orientation_loc(b1, base) == Some((o, bo)),
        b2.len() == b1.len(),
        forall|j: int| 0 <= j < b1.len() && j != o && j != o + 1 ==> b2[j] == b1[j],
    ensures
        spec_tiff_orientation_loc(b2, base) == Some((o, bo)),
{
    lemma_tiff_loc_bounds(b1, base);
    assert(spec_tiff_valid(b1, base));
    let ifd = spec_u32_at(b1, bo, base + 4) as int;
    let count = spec_u16_at(b1, bo, base + ifd) as int;
    let e0 = base + ifd + 2;
    let f = o - 8;
    lemma_find_entry_bounds(b1, bo, e0, count);
    assert(spec_find_orientation_entry(b1, bo, e0, count) == Some(f));
    assert(forall|j: int| base <= j < base + 8 ==> b2[j] == b1[j]);
    assert(spec_tiff_byte_order(b2, base) == Some(bo));
    assert(spec_u16_at(b2, bo, base + 2) == spec_u16_at(b1, bo, base + 2));
    assert(spec_u32_at(b2, bo, base + 4) == spec_u32_at(b1, bo, base + 4));
    assert(b2[base + ifd] == b1[base + ifd]);
    assert(b2[base + ifd + 1] == b1[base + ifd + 1]);
    assert(spec_u16_at(b2, bo, base + ifd) == spec_u16_at(b1, bo, base + ifd));
    assert(spec_tiff_valid(b2, base));
    lemma_find_entry_frame(b1, b2, bo, e0, count, o);
    assert(b2[f + 2] == b1[f + 2] && b2[f + 3] == b1[f + 3]);
    assert(spec_u16_at(b2, bo, f + 2) == spec_u16_at(b1, bo, f + 2));
    assert(b2[f + 4] == b1[f + 4] && b2[f + 5] == b1[f + 5] && b2[f + 6] == b1[f + 6] && b2[f + 7]
        == b1[f + 7]);
    assert(spec_u32_at(b2, bo, f + 4) == spec_u32_at(b1, bo, f + 4));
}

/// The JPEG segment walk reads only bytes before the TIFF base it returns:
/// patching bytes at or past that base does not change the walk.
proof fn lemma_jpeg_search_frame(b1: Seq<u8>, b2: Seq<u8>, pos: int, o: int)
    requires
        spec_jpeg_exif_search(b1, pos) matches Some(t) && o >= t,
        b2.len() == b1.len(),
        forall|j: int| 0 <= j < b1.len() && j != o && j != o + 1 ==> b2[j] == b1[j],
    ensures
        spec_jpeg_exif_search(b2, pos) == spec_jpeg_exif_search(b1, pos),
    decreases b1.len() - pos,
{
    lemma_jpeg_search_bounds(b1, pos);
    let t = spec_jpeg_exif_search(b1, pos)->Some_0;
    assert(b2[pos] == b1[pos]);
    assert(b2[pos + 1] == b1[pos + 1]);
    assert(b2[pos + 2] == b1[pos + 2]);
    assert(b2[pos + 3] == b1[pos + 3]);
    assert(spec_u16_at(b2, ByteOrder::Big, pos + 2) == spec_u16_at(b1, ByteOrder::Big, pos + 2));
    let seglen = spec_u16_at(b1, ByteOrder::Big, pos + 2) as int;
    if b1[pos + 1] == 0xE1 && seglen >= 8 && pos + 10 <= b1.len() && spec_is_exif_header(
        b1,
        pos + 4,
    ) {
        assert(forall|j: int| pos + 4 <= j < pos + 10 ==> b2[j] == b1[j]);
        assert(spec_is_exif_header(b2, pos + 4));
    } else {
        lemma_jpeg_search_bounds(b1, pos + 2 + seglen);
        assert(spec_jpeg_exif_search(b1, pos + 2 + seglen) == Some(t));
        if pos + 10 <= b1.len() {
            assert(forall|j: int| pos + 4 <= j < pos + 10 ==> b2[j] == b1[j]);
            assert(spec_is_exif_header(b2, pos + 4) == spec_is_exif_header(b1, pos + 4));
        }
        lemma_jpeg_search_frame(b1, b2, pos + 2 + seglen, o);
    }
}

/// Patching the two located value bytes moves neither the location of the
/// orientation value nor the byte order it is read in.
proof fn lemma_orientation_loc_frame(
    b1: Seq<u8>,
    b2: Seq<u8>,
    fmt: ContainerFormat,
    o: int,
    bo: ByteOrder,
)
    requires
        spec_orientation_loc(b1, fmt) == Some((o, bo)),
        b2.len() == b1.len(),
        forall|j: int| 0 <= j < b1.len() && j != o && j != o + 1 ==> b2[j] == b1[j],
    ensures
        spec_orientation_loc(b2, fmt) == Some((o, bo)),
{
    match fmt {
        ContainerFormat::Jpeg => {
            let t = spec_jpeg_exif_base(b1)->Some_0;
            lemma_jpeg_search_bounds(b1, 2);
            lemma_tiff_loc_bounds(b1, t);
            assert(b2[0] == b1[0]);
            assert(b2[1] == b1[1]);
            lemma_jpeg_search_frame(b1, b2, 2, o);
            lemma_tiff_loc_frame(b1, b2, t, o, bo);
        },
        ContainerFormat::Tiff => {
            lemma_tiff_loc_frame(b1, b2, 0, o, bo);
        },
        ContainerFormat::Other => {},
    }
}

/// A copy of `data` whose stored orientation value is `code`, or `None`
/// when the buffer holds no orientation entry to patch. Nothing but the
/// two bytes of the stored value differs from `data`.
pub fn with_orientation(data: &Vec<u8>, fmt: ContainerFormat, code: u16) -> (r: Option<Vec<u8>>)
    requires
        1 <= code <= 8,
    ensures
        match r {
            Some(out) => {
                &&& spec_orientation_loc(data@, fmt) matches Some((o, bo))
                &&& out@.len() == data@.len()
                &&& {
                    let o = spec_orientation_loc(data@, fmt)->Some_0.0;
                    forall|j: int|
                        0 <= j < data@.len() && j != o && j != o + 1 ==> out@[j] == data@[j]
                }
                &&& spec_orientation_loc(out@, fmt) == spec_orientation_loc(data@, fmt)
                &&& spec_resolved_orientation(out@, fmt) == code
            },
            None => spec_orientation_loc(data@, fmt) is None,
        },
{
    let loc = orientation_loc(data.as_slice(), fmt);
    match loc {
        None => None,
        Some((o, bo)) => {
            proof {
                lemma_orientation_loc_bounds(data@, fmt);
            }
            let lo: u8 = match bo {
                ByteOrder::Little => code as u8,
                ByteOrder::Big => 0,
            };
            let hi: u8 = match bo {
                ByteOrder::Little => 0,
                ByteOrder::Big => code as u8,
            };
            let n = data.len();
            let mut out: Vec<u8> = Vec::new();
            let mut i: usize = 0;
            while i < n
                invariant
                    n == data@.len(),
                    o + 2 <= n,
                    i <= n,
                    out@.len() == i,
                    forall|j: int| 0 <= j < i && j != o && j != o + 1 ==> out@[j] == data@[j],
                    o < i ==> out@[o as int] == lo,
                    o + 1 < i ==> out@[o as int + 1] == hi,
                decreases n - i,
            {
                if i == o {
                    out.push(lo);
                } else if i == o + 1 {
                    out.push(hi);
                } else {
                    out.push(data[i]);
                }
                i = i + 1;
            }
            proof {
                assert(spec_u16_at(out@, bo, o as int) == code);
                lemma_orientation_loc_frame(data@, out@, fmt, o as int, bo);
            }
            Some(out)
        },
    }
}

/// The container format a path's extension names: `jpg`/`jpeg`,
/// `tif`/`tiff` (ASCII case ignored), or any other.
pub open spec fn spec_container_format_of(path: Seq<char>) -> ContainerFormat {
    match spec_extension(path) {
        Some(e) => if chars_ci_eq(e, "jpg"@) || chars_ci_eq(e, "jpeg"@) {
            ContainerFormat::Jpeg
        } else if chars_ci_eq(e, "tif"@) || chars_ci_eq(e, "tiff"@) {
            ContainerFormat::Tiff
        } else {
            ContainerFormat::Other
        },
        None => ContainerFormat::Other,
    }
}

/// The container format named by a path's extension.
pub fn container_format_for_path(path: &str) -> (r: ContainerFormat)
    ensures
        r == spec_container_format_of(path@),
{
    match get_extension(path) {
        Some(e) => {
            let es = e.as_str();
            if eq_ignore_ascii_case(es, "jpg") || eq_ignore_ascii_case(es, "jpeg") {
                ContainerFormat::Jpeg
            } else if eq_ignore_ascii_case(es, "tif") || eq_ignore_ascii_case(es, "tiff") {
                ContainerFormat::Tiff
            } else {
                ContainerFormat::Other
            }
        },
        None => ContainerFormat::Other,
    }
}

} // verus!
