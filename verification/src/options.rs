//! The options region of a TCP header and what a walk over it yields.

use vstd::prelude::*;

verus! {

/// The length of the fixed part of a TCP header, in bytes.
pub const FIXED_HEADER_LEN: usize = 20;

/// The kind of the option that ends the list of options.
pub const KIND_END: u8 = 0;

/// The kind of the option that does nothing.
pub const KIND_NOP: u8 = 1;

/// The kind of the maximum segment size option.
pub const KIND_MSS: u8 = 2;

/// The kind of the window scale option.
pub const KIND_WINDOW_SCALE: u8 = 3;

/// The header length that a segment declares: the high nibble of byte 12,
/// counted in 32-bit words, as a number of bytes.
pub open spec fn header_length(segment: Seq<u8>) -> int
    recommends
        segment.len() > 12,
{
    (segment[12] as int / 16) * 4
}

/// The bytes of a segment that hold its options: those from offset 20 up to
/// the declared header length, as far as the segment reaches. It is empty
/// when the declared length is 20 or less, and when the segment is no longer
/// than its fixed header.
pub open spec fn options_region(segment: Seq<u8>) -> Seq<u8> {
    if segment.len() <= 20 {
        Seq::empty()
    } else {
        let declared = header_length(segment);
        let end = if declared <= segment.len() {
            declared
        } else {
            segment.len() as int
        };
        if end <= 20 {
            Seq::empty()
        } else {
            segment.subrange(20, end)
        }
    }
}

/// Whatever header length a segment declares, its options region is made of
/// bytes from offset 20 up to the declared header length, and of nothing
/// else: every byte of the region is a byte of the segment at such an offset,
/// and two segments of one length that agree on byte 12 and on those bytes
/// have the same options region, whatever else they hold.
pub proof fn lemma_region_within_header(a: Seq<u8>, b: Seq<u8>)
    requires
        a.len() == b.len(),
        a.len() > 12 ==> a[12] == b[12],
        forall|i: int| 20 <= i < a.len() && i < header_length(a) ==> a[i] == b[i],
    ensures
        options_region(a) == options_region(b),
        options_region(a).len() <= 40,
        forall|k: int|
            0 <= k < options_region(a).len() ==> 20 + k < header_length(a) && 20 + k < a.len()
                && options_region(a)[k] == a[20 + k],
{
    assert(options_region(a) =~= options_region(b));
}

/// The 16-bit number whose big-endian bytes are `high`, `low`.
pub open spec fn big_endian_16(high: u8, low: u8) -> int {
    high as int * 256 + low as int
}

/// The offset of the option that the walk visits after the one at `at`;
/// `None` when the walk ends with the option at `at`.
///
/// A no-op is one byte long, a maximum segment size option four, a window
/// scale option three, whether or not the region holds that many bytes. Any
/// other option is as long as its length byte says. The walk ends with
/// end-of-options, with an option whose length byte is missing or below 2,
/// and where the next offset lies outside the region.
pub open spec fn next_option(region: Seq<u8>, at: int) -> Option<int>
    recommends
        0 <= at < region.len(),
{
    let kind = region[at];
    let length = if kind == KIND_NOP {
        Some(1int)
    } else if kind == KIND_MSS {
        Some(4int)
    } else if kind == KIND_WINDOW_SCALE {
        Some(3int)
    } else if kind != KIND_END && at + 1 < region.len() && region[at + 1] >= 2 {
        Some(region[at + 1] as int)
    } else {
        None
    };
    match length {
        Some(length) if at + length < region.len() => Some(at + length),
        _ => None,
    }
}

/// The kinds of the options that the walk visits from `at` on, in order.
pub open spec fn kinds_from(region: Seq<u8>, at: int) -> Seq<u8>
    decreases region.len() - at,
{
    if at < 0 || at >= region.len() {
        Seq::empty()
    } else {
        match next_option(region, at) {
            Some(next) => seq![region[at]] + kinds_from(region, next),
            None => seq![region[at]],
        }
    }
}

/// The value of the maximum segment size option at `at`, if one stands there
/// with all four of its bytes inside the region.
pub open spec fn mss_at(region: Seq<u8>, at: int) -> Option<u16>
    recommends
        0 <= at < region.len(),
{
    if region[at] == KIND_MSS && at + 4 <= region.len() {
        Some(big_endian_16(region[at + 2], region[at + 3]) as u16)
    } else {
        None
    }
}

/// The value of the window scale option at `at`, if one stands there with all
/// three of its bytes inside the region.
pub open spec fn window_scale_at(region: Seq<u8>, at: int) -> Option<u8>
    recommends
        0 <= at < region.len(),
{
    if region[at] == KIND_WINDOW_SCALE && at + 3 <= region.len() {
        Some(region[at + 2])
    } else {
        None
    }
}

/// The maximum segment size that the walk from `at` on yields: that of the
/// last complete such option it visits.
pub open spec fn mss_from(region: Seq<u8>, at: int) -> Option<u16>
    decreases region.len() - at,
{
    if at < 0 || at >= region.len() {
        None
    } else {
        let later = match next_option(region, at) {
            Some(next) => mss_from(region, next),
            None => None,
        };
        if later is Some {
            later
        } else {
            mss_at(region, at)
        }
    }
}

/// The window scale that the walk from `at` on yields: that of the last
/// complete such option it visits.
pub open spec fn window_scale_from(region: Seq<u8>, at: int) -> Option<u8>
    decreases region.len() - at,
{
    if at < 0 || at >= region.len() {
        None
    } else {
        let later = match next_option(region, at) {
            Some(next) => window_scale_from(region, next),
            None => None,
        };
        if later is Some {
            later
        } else {
            window_scale_at(region, at)
        }
    }
}

/// What a walk yields depends on nothing but the bytes from offset 20 up to
/// the declared header length: two segments of one length that agree on byte
/// 12 and on those bytes yield the same kinds, the same maximum segment size
/// and the same window scale.
pub proof fn lemma_walk_stays_within_header(a: Seq<u8>, b: Seq<u8>)
    requires
        a.len() == b.len(),
        a.len() > 12 ==> a[12] == b[12],
        forall|i: int| 20 <= i < a.len() && i < header_length(a) ==> a[i] == b[i],
    ensures
        kinds_from(options_region(a), 0) == kinds_from(options_region(b), 0),
        mss_from(options_region(a), 0) == mss_from(options_region(b), 0),
        window_scale_from(options_region(a), 0) == window_scale_from(options_region(b), 0),
{
    lemma_region_within_header(a, b);
}

/// What the options of one TCP segment decode to.
#[derive(Debug, Clone, PartialEq, Eq)]
pub struct TcpOptions {
    /// The kind of every option visited, in order.
    pub kinds: Vec<u8>,
    /// The maximum segment size, where an option gave one in full.
    pub mss: Option<u16>,
    /// The window scale, where an option gave one in full.
    pub window_scale: Option<u8>,
}

impl TcpOptions {
    /// Whether these are the options that a walk over `region` yields.
    pub open spec fn decodes(&self, region: Seq<u8>) -> bool {
        &&& self.kinds@ == kinds_from(region, 0)
        &&& self.mss == mss_from(region, 0)
        &&& self.window_scale == window_scale_from(region, 0)
    }
}

/// The offset at which the options of `segment` end: the declared header
/// length, cut to the segment's own length, and 20 where there are none.
pub fn options_end(segment: &[u8]) -> (end: usize)
    ensures
        20 <= end,
        end - 20 == options_region(segment@).len(),
        end > 20 ==> end <= segment.len() && options_region(segment@) == segment@.subrange(
            20,
            end as int,
        ),
{
    if segment.len() <= FIXED_HEADER_LEN {
        return FIXED_HEADER_LEN;
    }
    let byte: u8 = segment[12];
    let words: u8 = byte >> 4;
    assert(words == byte / 16 && words <= 15) by (bit_vector)
        requires
            words == byte >> 4,
    ;
    let declared: usize = (words as usize) * 4;
    let end: usize = if declared <= segment.len() {
        declared
    } else {
        segment.len()
    };
    if end <= FIXED_HEADER_LEN {
        FIXED_HEADER_LEN
    } else {
        end
    }
}

/// Walks the options of a TCP segment.
///
/// Every read stays inside the options region, so inside the segment: an
/// option whose value bytes are cut off still counts by its kind, and leaves
/// its value out.
pub fn decode_tcp_options(segment: &[u8]) -> (decoded: TcpOptions)
    ensures
        decoded.decodes(options_region(segment@)),
{
    let end = options_end(segment);
    let ghost region = options_region(segment@);
    let mut kinds: Vec<u8> = Vec::new();
    let mut mss: Option<u16> = None;
    let mut window_scale: Option<u8> = None;
    let mut i: usize = FIXED_HEADER_LEN;
    while i < end
        invariant
            20 <= i <= end,
            end - 20 == region.len(),
            end > 20 ==> end <= segment.len() && region == segment@.subrange(20, end as int),
            kinds_from(region, 0) == kinds@ + kinds_from(region, i - 20),
            mss_from(region, 0) == if mss_from(region, i - 20) is Some {
                mss_from(region, i - 20)
            } else {
                mss
            },
            window_scale_from(region, 0) == if window_scale_from(region, i - 20) is Some {
                window_scale_from(region, i - 20)
            } else {
                window_scale
            },
        decreases end - i,
    {
        let ghost at = i - 20;
        let kind = segment[i];
        assert(region[at] == kind);
        let left: usize = end - i;
        kinds.push(kind);
        let step: usize = if kind == KIND_END {
            left
        } else if kind == KIND_NOP {
            1
        } else if kind == KIND_MSS {
            if left >= 4 {
                assert(region[at + 2] == segment[i + 2] && region[at + 3] == segment[i + 3]);
                mss = Some(segment[i + 2] as u16 * 256 + segment[i + 3] as u16);
            }
            4
        } else if kind == KIND_WINDOW_SCALE {
            if left >= 3 {
                assert(region[at + 2] == segment[i + 2]);
                window_scale = Some(segment[i + 2]);
            }
            3
        } else if left > 1 {
            assert(region[at + 1] == segment[i + 1]);
            let length = segment[i + 1] as usize;
            if length < 2 {
                left
            } else {
                length
            }
        } else {
            left
        };
        assert(kinds_from(region, 0) == kinds@ + kinds_from(region, at + step));
        i = if step < left {
            i + step
        } else {
            end
        };
    }
    TcpOptions { kinds, mss, window_scale }
}

} // verus!
