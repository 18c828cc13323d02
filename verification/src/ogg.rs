//! Ogg page framing: where each page of a stream starts and ends, and
//! the granule position it carries.
//!
//! A page is a 27-byte header — the capture pattern `OggS`, the granule
//! position as a 64-bit little-endian count at byte 6, and the segment
//! count at byte 26 — followed by the segment table and the body, whose
//! length is the sum of the table's lacing values.  The pacing task walks
//! a staged file page by page with [`parse_page`].

use vstd::prelude::*;

verus! {

/// One parsed page: the granule position it carries, where its body
/// starts, and where the next page would begin.
pub struct OggPage {
    pub granule: u64,
    pub body_start: usize,
    pub end: usize,
}

/// The 64-bit little-endian value whose eight bytes start at `base`.
pub open spec fn le64_at(d: Seq<u8>, base: int) -> int {
    d[base] + 256 * (d[base + 1] + 256 * (d[base + 2] + 256 * (d[base + 3] + 256 * (d[base + 4]
        + 256 * (d[base + 5] + 256 * (d[base + 6] + 256 * d[base + 7]))))))
}

/// Whether the capture pattern `OggS` stands at `off`.
pub open spec fn ogg_capture_at(d: Seq<u8>, off: int) -> bool {
    &&& d[off] == 79
    &&& d[off + 1] == 103
    &&& d[off + 2] == 103
    &&& d[off + 3] == 83
}

/// The total length of the first `n` lacing values of the segment table
/// at `base`.
pub open spec fn seg_total(d: Seq<u8>, base: int, n: int) -> int
    decreases n,
{
    if n <= 0 {
        0
    } else {
        seg_total(d, base, n - 1) + d[base + n - 1]
    }
}

/// Whether a whole page stands at `off`: the header with its capture
/// pattern, and the segment table and body within bounds.
pub open spec fn page_at(d: Seq<u8>, off: int) -> bool {
    &&& off + 27 <= d.len()
    &&& ogg_capture_at(d, off)
    &&& off + 27 + d[off + 26] + seg_total(d, off + 27, d[off + 26] as int) <= d.len()
}

/// Reads the page that starts at `offset`, or `None` where no whole
/// page stands there.
pub fn parse_page(data: &Vec<u8>, offset: usize) -> (r: Option<OggPage>)
    ensures
        r is Some <==> page_at(data@, offset as int),
        r matches Some(p) ==> {
            &&& p.granule == le64_at(data@, offset as int + 6)
            &&& p.body_start == offset + 27 + data@[offset as int + 26]
            &&& p.end == offset + 27 + data@[offset as int + 26] + seg_total(
                data@,
                offset as int + 27,
                data@[offset as int + 26] as int,
            )
        },
{
    if data.len() < 27 || offset > data.len() - 27 {
        return None;
    }
    if !(data[offset] == 79 && data[offset + 1] == 103 && data[offset + 2] == 103 && data[offset
        + 3] == 83) {
        return None;
    }

    let b0 = data[offset + 6] as u64;
    let b1 = data[offset + 7] as u64;
    let b2 = data[offset + 8] as u64;
    let b3 = data[offset + 9] as u64;
    let b4 = data[offset + 10] as u64;
    let b5 = data[offset + 11] as u64;
    let b6 = data[offset + 12] as u64;
    let b7 = data[offset + 13] as u64;
    let granule = b0 + 256 * (b1 + 256 * (b2 + 256 * (b3 + 256 * (b4 + 256 * (b5 + 256 * (b6 + 256
        * b7))))));

    let nsegs = data[offset + 26] as usize;
    if nsegs > data.len() - (offset + 27) {
        proof {
            lemma_seg_total_nonneg(data@, offset as int + 27, data@[offset as int + 26] as int);
        }
        return None;
    }
    let table_base = offset + 27;
    let mut body: usize = 0;
    let mut i: usize = 0;
    while i < nsegs
        invariant
            i <= nsegs,
            nsegs == data@[offset as int + 26],
            table_base == offset + 27,
            offset + 27 + nsegs <= data@.len(),
            offset + 27 + nsegs <= usize::MAX,
            body == seg_total(data@, table_base as int, i as int),
            body <= i * 255,
        decreases nsegs - i,
    {
        body = body + data[table_base + i] as usize;
        i += 1;
    }
    if body > data.len() - (offset + 27 + nsegs) {
        return None;
    }
    Some(OggPage { granule, body_start: table_base + nsegs, end: table_base + nsegs + body })
}

/// A segment table's total length is never negative.
proof fn lemma_seg_total_nonneg(d: Seq<u8>, base: int, n: int)
    ensures
        seg_total(d, base, n) >= 0,
    decreases n,
{
    if n > 0 {
        lemma_seg_total_nonneg(d, base, n - 1);
    }
}

} // verus!
