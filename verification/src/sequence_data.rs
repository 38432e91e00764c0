//! The decoded motion-sequence data model and its cheap shape check.

use vstd::prelude::*;

verus! {

/// Number of controllable joints per arm.
pub const JOINTS_PER_ARM: usize = 10;

/// Wire encoding of the hold sentinel; it decodes to the joint value -1.
pub const HOLD_SENTINEL: u16 = 0xFFFF;

// IEEE-754 single-precision bit patterns. Positive finite values and the
// positive infinity order exactly like their bit patterns read as unsigned
// integers, and every NaN pattern lies outside the closed ranges used below,
// so the range checks on the rate and duration fields are exact integer
// comparisons on the stored patterns.
/// Bit pattern of +infinity; patterns of positive reals are 1 up to this.
pub const F32_BITS_POS_INF: u32 = 0x7F80_0000;
/// Bit pattern of 1000.0, the highest legal sample rate in Hz.
pub const F32_BITS_1000: u32 = 0x447A_0000;
/// Bit pattern of 3600.0, the highest legal duration in seconds.
pub const F32_BITS_3600: u32 = 0x4561_0000;
/// Bit pattern of 50.0, the sample-rate threshold of the core heuristic.
pub const F32_BITS_50: u32 = 0x4248_0000;

/// The stored pattern denotes a value strictly greater than zero.
pub open spec fn f32_bits_positive(bits: u32) -> bool {
    1 <= bits <= F32_BITS_POS_INF
}

/// The stored pattern denotes a sample rate in (0, 1000] Hz.
pub open spec fn sample_rate_in_range(bits: u32) -> bool {
    1 <= bits <= F32_BITS_1000
}

/// The stored pattern denotes a duration in (0, 3600] seconds.
pub open spec fn duration_in_range(bits: u32) -> bool {
    1 <= bits <= F32_BITS_3600
}

/// A decoded joint value: the hold sentinel -1, or a 12-bit position code.
pub open spec fn joint_value_ok(v: i32) -> bool {
    v == -1 || (0 <= v && v <= 4095)
}

/// A decoded motion sequence: header fields plus one per-frame row of ten
/// joint values for each arm. The two floating-point header fields are held
/// as their raw IEEE-754 bit patterns, so every range check on them is an
/// integer comparison; callers that want the numeric value reconstruct it
/// from the bits.
pub struct SequenceData {
    pub name: String,
    pub sample_rate_bits: u32,
    pub total_duration_bits: u32,
    pub total_frames: u32,
    pub compiled_at: u32,
    pub left_arm_sequence: Vec<Vec<i32>>,
    pub right_arm_sequence: Vec<Vec<i32>>,
}

impl SequenceData {
    /// The left-arm frames as a sequence of per-joint value rows.
    pub open spec fn left(self) -> Seq<Seq<i32>> {
        self.left_arm_sequence.deep_view()
    }

    /// The right-arm frames as a sequence of per-joint value rows.
    pub open spec fn right(self) -> Seq<Seq<i32>> {
        self.right_arm_sequence.deep_view()
    }

    /// Both arm sequences hold one row per frame.
    pub open spec fn consistent_lengths(self) -> bool {
        &&& self.left().len() == self.total_frames
        &&& self.right().len() == self.total_frames
    }

    /// The cheap shape check: a positive frame count, a positive sample
    /// rate, one row per frame per arm, and ten joints in every row. Joint
    /// values are not inspected here.
    pub open spec fn shape_ok(self) -> bool {
        &&& self.total_frames > 0
        &&& f32_bits_positive(self.sample_rate_bits)
        &&& self.consistent_lengths()
        &&& forall|i: int|
            0 <= i < self.left().len() ==> (#[trigger] self.left()[i]).len() == JOINTS_PER_ARM
        &&& forall|i: int|
            0 <= i < self.right().len() ==> (#[trigger] self.right()[i]).len() == JOINTS_PER_ARM
    }

    /// Field-by-field logical equality; what cloning preserves.
    pub open spec fn same_as(self, other: SequenceData) -> bool {
        &&& self.name@ == other.name@
        &&& self.sample_rate_bits == other.sample_rate_bits
        &&& self.total_duration_bits == other.total_duration_bits
        &&& self.total_frames == other.total_frames
        &&& self.compiled_at == other.compiled_at
        &&& self.left() == other.left()
        &&& self.right() == other.right()
    }

    /// An empty sequence with every field zeroed.
    pub fn new() -> (r: Self)
        ensures
            r.name@ == Seq::<char>::empty(),
            r.sample_rate_bits == 0,
            r.total_duration_bits == 0,
            r.total_frames == 0,
            r.compiled_at == 0,
            r.left() == Seq::<Seq<i32>>::empty(),
            r.right() == Seq::<Seq<i32>>::empty(),
    {
        let r = SequenceData {
            name: String::new(),
            sample_rate_bits: 0,
            total_duration_bits: 0,
            total_frames: 0,
            compiled_at: 0,
            left_arm_sequence: Vec::new(),
            right_arm_sequence: Vec::new(),
        };
        proof {
            assert(r.left() =~= Seq::<Seq<i32>>::empty());
            assert(r.right() =~= Seq::<Seq<i32>>::empty());
        }
        r
    }

    /// The cheap self-check; true exactly when the shape invariant holds.
    pub fn validate(&self) -> (r: bool)
        ensures
            r == self.shape_ok(),
    {
        if self.total_frames == 0 {
            return false;
        }
        if !(self.sample_rate_bits >= 1 && self.sample_rate_bits <= F32_BITS_POS_INF) {
            return false;
        }
        let tf = self.total_frames as usize;
        if self.left_arm_sequence.len() != tf || self.right_arm_sequence.len() != tf {
            return false;
        }
        let mut i: usize = 0;
        while i < tf
            invariant
                tf == self.total_frames,
                self.left_arm_sequence@.len() == tf,
                forall|k: int| 0 <= k < i ==> (#[trigger] self.left()[k]).len() == JOINTS_PER_ARM,
            decreases tf - i,
        {
            if self.left_arm_sequence[i].len() != JOINTS_PER_ARM {
                proof {
                    lemma_row_deep_view(self.left_arm_sequence@[i as int]);
                    assert(self.left()[i as int].len() != JOINTS_PER_ARM);
                }
                return false;
            }
            i = i + 1;
        }
        let mut j: usize = 0;
        while j < tf
            invariant
                tf == self.total_frames,
                self.right_arm_sequence@.len() == tf,
                forall|k: int| 0 <= k < j ==> (#[trigger] self.right()[k]).len() == JOINTS_PER_ARM,
            decreases tf - j,
        {
            if self.right_arm_sequence[j].len() != JOINTS_PER_ARM {
                proof {
                    lemma_row_deep_view(self.right_arm_sequence@[j as int]);
                    assert(self.right()[j as int].len() != JOINTS_PER_ARM);
                }
                return false;
            }
            j = j + 1;
        }
        true
    }

    /// The two joint rows for `frame_index`, cloned, or absent when the
    /// index is at or past the frame count.
    pub fn get_frame_data(&self, frame_index: usize) -> (r: Option<(Vec<i32>, Vec<i32>)>)
        requires
            self.consistent_lengths(),
        ensures
            match r {
                Some(row) => {
                    &&& frame_index < self.total_frames
                    &&& row.0@ == self.left()[frame_index as int]
                    &&& row.1@ == self.right()[frame_index as int]
                },
                None => frame_index >= self.total_frames,
            },
    {
        if frame_index >= self.total_frames as usize {
            return None;
        }
        let l = clone_row(&self.left_arm_sequence[frame_index]);
        let r = clone_row(&self.right_arm_sequence[frame_index]);
        Some((l, r))
    }
}

/// The deep view of a joint row coincides with its plain view.
pub(crate) proof fn lemma_row_deep_view(a: Vec<i32>)
    ensures
        a.deep_view() == a@,
{
    assert(a.deep_view() =~= a@);
}

/// A copy of one joint row with the same contents.
fn clone_row(v: &Vec<i32>) -> (r: Vec<i32>)
    ensures
        r@ == v@,
{
    let mut r: Vec<i32> = Vec::new();
    let mut i: usize = 0;
    while i < v.len()
        invariant
            i <= v@.len(),
            r@ == v@.subrange(0, i as int),
        decreases v@.len() - i,
    {
        r.push(v[i]);
        proof {
            assert(r@ =~= v@.subrange(0, i + 1));
        }
        i = i + 1;
    }
    proof {
        assert(r@ =~= v@);
    }
    r
}

/// A copy of a frame sequence with the same rows.
pub(crate) fn clone_frames(v: &Vec<Vec<i32>>) -> (r: Vec<Vec<i32>>)
    ensures
        r.deep_view() == v.deep_view(),
{
    let mut r: Vec<Vec<i32>> = Vec::new();
    let mut i: usize = 0;
    while i < v.len()
        invariant
            i <= v@.len(),
            r@.len() == i,
            forall|k: int| 0 <= k < i ==> #[trigger] r.deep_view()[k] == v.deep_view()[k],
        decreases v@.len() - i,
    {
        let row = clone_row(&v[i]);
        proof {
            lemma_row_deep_view(row);
            lemma_row_deep_view(v@[i as int]);
        }
        let ghost prev = r;
        r.push(row);
        proof {
            assert forall|k: int| 0 <= k < i + 1 implies #[trigger] r.deep_view()[k]
                == v.deep_view()[k] by {
                if k < i {
                    assert(r@[k] == prev@[k]);
                    assert(prev.deep_view()[k] == v.deep_view()[k]);
                } else {
                    assert(r@[k] == row);
                }
            }
        }
        i = i + 1;
    }
    proof {
        assert(r.deep_view() =~= v.deep_view());
    }
    r
}

impl Clone for SequenceData {
    /// A deep copy; every field compares logically equal to the source.
    fn clone(&self) -> (r: Self)
        ensures
            r.same_as(*self),
    {
        SequenceData {
            name: self.name.clone(),
            sample_rate_bits: self.sample_rate_bits,
            total_duration_bits: self.total_duration_bits,
            total_frames: self.total_frames,
            compiled_at: self.compiled_at,
            left_arm_sequence: clone_frames(&self.left_arm_sequence),
            right_arm_sequence: clone_frames(&self.right_arm_sequence),
        }
    }
}

} // verus!
