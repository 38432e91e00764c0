//! Decoder for the binary `.ebs` motion-sequence format.

use vstd::prelude::*;

use crate::sequence_data::{
    duration_in_range, sample_rate_in_range, SequenceData, HOLD_SENTINEL, JOINTS_PER_ARM,
};
use crate::wire::{le_u16_at, le_u32_at, spec_le_u16, spec_le_u32};

verus! {

/// Size of the fixed header in bytes.
pub const HEADER_SIZE: usize = 96;

/// Size of one frame in bytes: 20 joints, 2 bytes each.
pub const FRAME_SIZE: usize = 40;

/// Size of the NUL-padded name field in bytes.
pub const NAME_SIZE: usize = 64;

/// Byte offset of the name field inside the header.
pub const NAME_OFFSET: usize = 32;

/// Highest legal frame count.
pub const MAX_FRAME_COUNT: u32 = 100000;

/// Why a byte buffer failed to parse. The two rate variants carry the raw
/// IEEE-754 bit pattern of the rejected field.
#[derive(Debug)]
pub enum ParseError {
    /// The buffer is smaller than the fixed header.
    TooShort,
    /// The first four bytes, decoded as text, differ from the magic.
    InvalidMagic(String),
    /// The frame count is zero or above the maximum.
    InvalidFrameCount(u32),
    /// The sample rate is not in (0, 1000] Hz.
    InvalidSampleRate(u32),
    /// The duration is not in (0, 3600] seconds.
    InvalidDuration(u32),
    /// Fewer frame-data bytes follow the header than the frame count needs.
    TruncatedData,
}

/// The first four bytes spell the ASCII magic `EBS1`.
pub open spec fn magic_ok(b: Seq<u8>) -> bool {
    &&& b.len() >= 4
    &&& b[0] == 0x45u8
    &&& b[1] == 0x42u8
    &&& b[2] == 0x53u8
    &&& b[3] == 0x31u8
}

/// The little-endian frame count field.
pub open spec fn spec_frame_count(b: Seq<u8>) -> int {
    spec_le_u32(b, 4)
}

/// The raw bit pattern of the sample-rate field.
pub open spec fn spec_rate_bits(b: Seq<u8>) -> int {
    spec_le_u32(b, 8)
}

/// The raw bit pattern of the duration field.
pub open spec fn spec_duration_bits(b: Seq<u8>) -> int {
    spec_le_u32(b, 12)
}

/// The little-endian compile-timestamp field.
pub open spec fn spec_compiled_at(b: Seq<u8>) -> int {
    spec_le_u32(b, 16)
}

/// `s` with every trailing zero byte removed.
pub open spec fn trim_trailing_zeros(s: Seq<u8>) -> Seq<u8>
    decreases s.len(),
{
    if s.len() > 0 && s.last() == 0 {
        trim_trailing_zeros(s.drop_last())
    } else {
        s
    }
}

/// One decoded joint value: the sentinel word becomes -1, every other word
/// its own numeric value.
pub open spec fn decode_joint(w: u16) -> i32 {
    if w == HOLD_SENTINEL {
        -1i32
    } else {
        w as i32
    }
}

/// The wire word of frame `f`, slot `s` (slots 0-9 left arm, 10-19 right).
pub open spec fn frame_word(b: Seq<u8>, f: int, s: int) -> u16 {
    spec_le_u16(b, 96 + f * 40 + 2 * s) as u16
}

/// The decoded left-arm joint `j` of frame `f`.
pub open spec fn left_joint(b: Seq<u8>, f: int, j: int) -> i32 {
    decode_joint(frame_word(b, f, j))
}

/// The decoded right-arm joint `j` of frame `f`.
pub open spec fn right_joint(b: Seq<u8>, f: int, j: int) -> i32 {
    decode_joint(frame_word(b, f, 10 + j))
}

/// All header checks pass on `b`.
pub open spec fn header_ok(b: Seq<u8>) -> bool {
    &&& b.len() >= 96
    &&& magic_ok(b)
    &&& 1 <= spec_frame_count(b) <= MAX_FRAME_COUNT
    &&& sample_rate_in_range(spec_rate_bits(b) as u32)
    &&& duration_in_range(spec_duration_bits(b) as u32)
}

/// The whole buffer parses: header checks pass and enough data follows.
pub open spec fn buffer_ok(b: Seq<u8>) -> bool {
    &&& header_ok(b)
    &&& b.len() - 96 >= spec_frame_count(b) * 40
}

/// What the decoded name is: the 64-byte name field, trailing NUL bytes
/// trimmed, decoded as UTF-8 text.
pub open spec fn spec_name(b: Seq<u8>) -> Seq<char> {
    utf8_lossy_of(trim_trailing_zeros(b.subrange(32, 96)))
}

/// The text that `String::from_utf8_lossy` decodes the given bytes to.
pub uninterp spec fn utf8_lossy_of(b: Seq<u8>) -> Seq<char>;

/// Relies on `String::from_utf8_lossy`: the decoding is a function of the
/// bytes alone, and a buffer of ASCII bytes (all below 0x80) is valid UTF-8,
/// so it decodes to itself, one character per byte.
#[verifier::external_body]
fn decode_utf8_lossy(b: &[u8]) -> (r: String)
    ensures
        r@ == utf8_lossy_of(b@),
        (forall|i: int| 0 <= i < b@.len() ==> b@[i] < 0x80) ==> r@ == b@.map_values(
            |x: u8| x as char,
        ),
{
    String::from_utf8_lossy(b).into_owned()
}

/// The bytes `data[start..end]` as an owned vector.
fn copy_range(data: &[u8], start: usize, end: usize) -> (r: Vec<u8>)
    requires
        start <= end <= data@.len(),
    ensures
        r@ == data@.subrange(start as int, end as int),
{
    let mut r: Vec<u8> = Vec::new();
    let mut i: usize = start;
    while i < end
        invariant
            start <= i <= end <= data@.len(),
            r@ == data@.subrange(start as int, i as int),
        decreases end - i,
    {
        r.push(data[i]);
        proof {
            assert(r@ =~= data@.subrange(start as int, i + 1));
        }
        i = i + 1;
    }
    r
}

/// `trim_trailing_zeros` is exactly "cut at the last nonzero byte".
proof fn lemma_trim_is_cut(s: Seq<u8>, end: int)
    requires
        0 <= end <= s.len(),
        forall|k: int| end <= k < s.len() ==> s[k] == 0,
        end > 0 ==> s[end - 1] != 0,
    ensures
        trim_trailing_zeros(s) == s.subrange(0, end),
    decreases s.len(),
{
    if s.len() == end {
        assert(s.subrange(0, end) =~= s);
    } else {
        assert(s.last() == 0);
        let t = s.drop_last();
        assert(t =~= s.subrange(0, s.len() - 1));
        lemma_trim_is_cut(t, end);
        assert(t.subrange(0, end) =~= s.subrange(0, end));
    }
}

/// What a successful parse pins down: every header field, the name and
/// every joint value of the result correspond to the input bytes, and the
/// result passes the shape check.
pub open spec fn parse_ok_result(b: Seq<u8>, s: SequenceData) -> bool {
    &&& buffer_ok(b)
    &&& s.total_frames == spec_frame_count(b)
    &&& s.sample_rate_bits == spec_rate_bits(b)
    &&& s.total_duration_bits == spec_duration_bits(b)
    &&& s.compiled_at == spec_compiled_at(b)
    &&& s.name@ == spec_name(b)
    &&& s.left().len() == s.total_frames
    &&& s.right().len() == s.total_frames
    &&& forall|f: int, j: int|
        0 <= f < s.total_frames && 0 <= j < JOINTS_PER_ARM ==> (#[trigger] s.left()[f][j])
            == left_joint(b, f, j)
    &&& forall|f: int, j: int|
        0 <= f < s.total_frames && 0 <= j < JOINTS_PER_ARM ==> (#[trigger] s.right()[f][j])
            == right_joint(b, f, j)
    &&& s.shape_ok()
}

/// The `.ebs` format decoder.
pub struct SequenceParser;

impl SequenceParser {
    /// Decodes a byte buffer into a sequence, or says exactly why not. On
    /// success every header field and every joint value of the result is
    /// pinned to the corresponding bytes of the input.
    pub fn parse_from_bytes(data: &[u8]) -> (r: Result<SequenceData, ParseError>)
        ensures
            match r {
                Ok(s) => parse_ok_result(data@, s),
                Err(ParseError::TooShort) => data@.len() < 96,
                Err(ParseError::InvalidMagic(m)) => {
                    &&& data@.len() >= 96
                    &&& !magic_ok(data@)
                    &&& m@ == utf8_lossy_of(data@.subrange(0, 4))
                },
                Err(ParseError::InvalidFrameCount(n)) => {
                    &&& data@.len() >= 96
                    &&& magic_ok(data@)
                    &&& n == spec_frame_count(data@)
                    &&& !(1 <= n <= MAX_FRAME_COUNT)
                },
                Err(ParseError::InvalidSampleRate(bits)) => {
                    &&& data@.len() >= 96
                    &&& magic_ok(data@)
                    &&& 1 <= spec_frame_count(data@) <= MAX_FRAME_COUNT
                    &&& bits == spec_rate_bits(data@)
                    &&& !sample_rate_in_range(bits)
                },
                Err(ParseError::InvalidDuration(bits)) => {
                    &&& data@.len() >= 96
                    &&& magic_ok(data@)
                    &&& 1 <= spec_frame_count(data@) <= MAX_FRAME_COUNT
                    &&& sample_rate_in_range(spec_rate_bits(data@) as u32)
                    &&& bits == spec_duration_bits(data@)
                    &&& !duration_in_range(bits)
                },
                Err(ParseError::TruncatedData) => {
                    &&& header_ok(data@)
                    &&& data@.len() - 96 < spec_frame_count(data@) * 40
                },
            },
    {
        if data.len() < HEADER_SIZE {
            return Err(ParseError::TooShort);
        }
        if !(data[0] == 0x45 && data[1] == 0x42 && data[2] == 0x53 && data[3] == 0x31) {
            let magic = copy_range(data, 0, 4);
            return Err(ParseError::InvalidMagic(decode_utf8_lossy(magic.as_slice())));
        }
        let frame_count = le_u32_at(data, 4);
        if frame_count == 0 || frame_count > MAX_FRAME_COUNT {
            return Err(ParseError::InvalidFrameCount(frame_count));
        }
        let rate_bits = le_u32_at(data, 8);
        if !(rate_bits >= 1 && rate_bits <= crate::sequence_data::F32_BITS_1000) {
            return Err(ParseError::InvalidSampleRate(rate_bits));
        }
        let duration_bits = le_u32_at(data, 12);
        if !(duration_bits >= 1 && duration_bits <= crate::sequence_data::F32_BITS_3600) {
            return Err(ParseError::InvalidDuration(duration_bits));
        }
        let compiled_at = le_u32_at(data, 16);

        let fc = frame_count as usize;
        let expected = fc * FRAME_SIZE;
        if data.len() - HEADER_SIZE < expected {
            return Err(ParseError::TruncatedData);
        }

        // Name: 64 bytes at offset 32, trailing NUL bytes trimmed.
        let mut name_bytes = copy_range(data, NAME_OFFSET, NAME_OFFSET + NAME_SIZE);
        let mut end: usize = NAME_SIZE;
        while end > 0 && name_bytes[end - 1] == 0
            invariant
                end <= NAME_SIZE,
                name_bytes@.len() == NAME_SIZE,
                forall|k: int| end <= k < NAME_SIZE ==> name_bytes@[k] == 0,
            decreases end,
        {
            end = end - 1;
        }
        name_bytes.truncate(end);
        proof {
            lemma_trim_is_cut(data@.subrange(32, 96), end as int);
        }
        let name = decode_utf8_lossy(name_bytes.as_slice());

        let (left_arm_sequence, right_arm_sequence) = Self::parse_frames(data, frame_count);

        let s = SequenceData {
            name,
            sample_rate_bits: rate_bits,
            total_duration_bits: duration_bits,
            total_frames: frame_count,
            compiled_at,
            left_arm_sequence,
            right_arm_sequence,
        };
        Ok(s)
    }

    /// Decodes the frame-data region into the two per-arm frame sequences.
    fn parse_frames(data: &[u8], frame_count: u32) -> (r: (Vec<Vec<i32>>, Vec<Vec<i32>>))
        requires
            1 <= frame_count <= MAX_FRAME_COUNT,
            data@.len() >= 96 + frame_count * 40,
        ensures
            r.0.deep_view().len() == frame_count,
            r.1.deep_view().len() == frame_count,
            forall|f: int|
                0 <= f < frame_count ==> (#[trigger] r.0.deep_view()[f]).len() == JOINTS_PER_ARM,
            forall|f: int|
                0 <= f < frame_count ==> (#[trigger] r.1.deep_view()[f]).len() == JOINTS_PER_ARM,
            forall|f: int, j: int|
                0 <= f < frame_count && 0 <= j < JOINTS_PER_ARM ==> (
                #[trigger] r.0.deep_view()[f][j]) == left_joint(data@, f, j),
            forall|f: int, j: int|
                0 <= f < frame_count && 0 <= j < JOINTS_PER_ARM ==> (
                #[trigger] r.1.deep_view()[f][j]) == right_joint(data@, f, j),
    {
        let fc = frame_count as usize;
        let mut left_seq: Vec<Vec<i32>> = Vec::new();
        let mut right_seq: Vec<Vec<i32>> = Vec::new();
        let mut f: usize = 0;
        while f < fc
            invariant
                fc == frame_count,
                1 <= frame_count <= MAX_FRAME_COUNT,
                data@.len() >= 96 + frame_count * 40,
                f <= fc,
                left_seq.deep_view().len() == f,
                right_seq.deep_view().len() == f,
                forall|k: int|
                    0 <= k < f ==> (#[trigger] left_seq.deep_view()[k]).len() == JOINTS_PER_ARM,
                forall|k: int|
                    0 <= k < f ==> (#[trigger] right_seq.deep_view()[k]).len() == JOINTS_PER_ARM,
                forall|k: int, j: int|
                    0 <= k < f && 0 <= j < JOINTS_PER_ARM ==> (
                    #[trigger] left_seq.deep_view()[k][j]) == left_joint(data@, k, j),
                forall|k: int, j: int|
                    0 <= k < f && 0 <= j < JOINTS_PER_ARM ==> (
                    #[trigger] right_seq.deep_view()[k][j]) == right_joint(data@, k, j),
            decreases fc - f,
        {
            let base = HEADER_SIZE + f * FRAME_SIZE;
            let mut left_row: Vec<i32> = Vec::new();
            let mut right_row: Vec<i32> = Vec::new();
            let mut j: usize = 0;
            while j < JOINTS_PER_ARM
                invariant
                    f < fc == frame_count <= MAX_FRAME_COUNT,
                    data@.len() >= 96 + frame_count * 40,
                    base == 96 + f * 40,
                    j <= JOINTS_PER_ARM,
                    left_row@.len() == j,
                    forall|m: int| 0 <= m < j ==> left_row@[m] == left_joint(data@, f as int, m),
                decreases JOINTS_PER_ARM - j,
            {
                let w = le_u16_at(data, base + 2 * j);
                let v: i32 = if w == HOLD_SENTINEL {
                    -1
                } else {
                    w as i32
                };
                left_row.push(v);
                j = j + 1;
            }
            let mut j: usize = 0;
            while j < JOINTS_PER_ARM
                invariant
                    f < fc == frame_count <= MAX_FRAME_COUNT,
                    data@.len() >= 96 + frame_count * 40,
                    base == 96 + f * 40,
                    j <= JOINTS_PER_ARM,
                    right_row@.len() == j,
                    forall|m: int| 0 <= m < j ==> right_row@[m] == right_joint(data@, f as int, m),
                decreases JOINTS_PER_ARM - j,
            {
                let w = le_u16_at(data, base + 20 + 2 * j);
                let v: i32 = if w == HOLD_SENTINEL {
                    -1
                } else {
                    w as i32
                };
                right_row.push(v);
                j = j + 1;
            }
            proof {
                crate::sequence_data::lemma_row_deep_view(left_row);
                crate::sequence_data::lemma_row_deep_view(right_row);
            }
            let ghost prev_left = left_seq;
            let ghost prev_right = right_seq;
            left_seq.push(left_row);
            right_seq.push(right_row);
            proof {
                assert forall|k: int| 0 <= k < f + 1 implies #[trigger] left_seq.deep_view()[k]
                    == if k < f {
                    prev_left.deep_view()[k]
                } else {
                    left_row@
                } by {
                    if k < f {
                        assert(left_seq@[k] == prev_left@[k]);
                    }
                }
                assert forall|k: int| 0 <= k < f + 1 implies #[trigger] right_seq.deep_view()[k]
                    == if k < f {
                    prev_right.deep_view()[k]
                } else {
                    right_row@
                } by {
                    if k < f {
                        assert(right_seq@[k] == prev_right@[k]);
                    }
                }
            }
            f = f + 1;
        }
        (left_seq, right_seq)
    }
}

/// The sentinel word decodes to -1 and every other word to its own value;
/// decoded values below the sentinel are the word itself.
pub proof fn lemma_sentinel_decoding(w: u16)
    ensures
        w == HOLD_SENTINEL ==> decode_joint(w) == -1,
        w != HOLD_SENTINEL ==> decode_joint(w) == w as i32,
{
}

} // verus!
