//! The thorough, diagnostic validity check for decoded sequences.

use vstd::prelude::*;

use crate::sequence_data::{joint_value_ok, sample_rate_in_range, SequenceData, JOINTS_PER_ARM};

verus! {

/// Which arm a finding concerns.
#[derive(Clone, Copy, Debug, PartialEq, Eq, Structural)]
pub enum Arm {
    Left,
    Right,
}

/// The first violation a sequence was rejected for. Rate and duration
/// variants carry the raw IEEE-754 bit pattern of the offending field.
#[derive(Clone, Copy, Debug, PartialEq, Eq, Structural)]
pub enum ValidationError {
    /// The frame count is zero.
    ZeroTotalFrames,
    /// The sample rate is not in (0, 1000] Hz.
    SampleRateOutOfRange(u32),
    /// The duration compares less than or equal to zero.
    DurationNotPositive(u32),
    /// One arm's frame sequence is not `total_frames` rows long.
    ArmLengthMismatch { arm: Arm, expected: u32, actual: usize },
    /// One row does not hold exactly ten joints.
    JointCountMismatch { arm: Arm, frame: usize, joints: usize },
    /// One joint value is neither -1 nor in [0, 4095].
    JointValueOutOfRange { arm: Arm, frame: usize, joint: usize, value: i32 },
}

/// The stored pattern denotes a value that compares less than or equal to
/// zero: one of the two zeros or a negative real; NaN patterns compare
/// false and are not included.
pub open spec fn f32_bits_le_zero(bits: u32) -> bool {
    bits == 0 || (0x8000_0000 <= bits <= 0xFF80_0000)
}

/// Every joint of every row of `rows` is a legal value.
pub open spec fn arm_values_ok(rows: Seq<Seq<i32>>) -> bool {
    forall|f: int, j: int|
        0 <= f < rows.len() && 0 <= j < rows[f].len() ==> joint_value_ok(#[trigger] rows[f][j])
}

/// Every row of `rows` holds exactly ten joints.
pub open spec fn arm_rows_ok(rows: Seq<Seq<i32>>) -> bool {
    forall|f: int| 0 <= f < rows.len() ==> (#[trigger] rows[f]).len() == JOINTS_PER_ARM
}

/// A sequence the validator accepts: positive frame count, rate in range,
/// positive duration, one ten-joint row per frame per arm, and every joint
/// value legal.
pub open spec fn valid_sequence(d: SequenceData) -> bool {
    &&& d.total_frames > 0
    &&& sample_rate_in_range(d.sample_rate_bits)
    &&& !f32_bits_le_zero(d.total_duration_bits)
    &&& d.left().len() == d.total_frames
    &&& d.right().len() == d.total_frames
    &&& arm_rows_ok(d.left())
    &&& arm_rows_ok(d.right())
    &&& arm_values_ok(d.left())
    &&& arm_values_ok(d.right())
}

/// The diagnostic sequence validator.
pub struct SequenceValidator;

impl SequenceValidator {
    /// Checks a sequence field by field, left arm before right, and stops at
    /// the first violation; the error pins down exactly which check failed
    /// first and on which frame, joint and value.
    pub fn validate_sequence(data: &SequenceData) -> (r: Result<(), ValidationError>)
        ensures
            match r {
                Ok(()) => valid_sequence(*data),
                Err(ValidationError::ZeroTotalFrames) => data.total_frames == 0,
                Err(ValidationError::SampleRateOutOfRange(bits)) => {
                    &&& data.total_frames > 0
                    &&& bits == data.sample_rate_bits
                    &&& !sample_rate_in_range(bits)
                },
                Err(ValidationError::DurationNotPositive(bits)) => {
                    &&& data.total_frames > 0
                    &&& sample_rate_in_range(data.sample_rate_bits)
                    &&& bits == data.total_duration_bits
                    &&& f32_bits_le_zero(bits)
                },
                Err(ValidationError::ArmLengthMismatch { arm, expected, actual }) => {
                    &&& data.total_frames > 0
                    &&& sample_rate_in_range(data.sample_rate_bits)
                    &&& !f32_bits_le_zero(data.total_duration_bits)
                    &&& expected == data.total_frames
                    &&& match arm {
                        Arm::Left => {
                            &&& data.left().len() != data.total_frames
                            &&& actual == data.left().len()
                        },
                        Arm::Right => {
                            &&& data.left().len() == data.total_frames
                            &&& data.right().len() != data.total_frames
                            &&& actual == data.right().len()
                        },
                    }
                },
                Err(ValidationError::JointCountMismatch { arm, frame, joints }) => {
                    &&& data.total_frames > 0
                    &&& sample_rate_in_range(data.sample_rate_bits)
                    &&& !f32_bits_le_zero(data.total_duration_bits)
                    &&& data.left().len() == data.total_frames
                    &&& data.right().len() == data.total_frames
                    &&& match arm {
                        Arm::Left => {
                            &&& frame < data.total_frames
                            &&& data.left()[frame as int].len() != JOINTS_PER_ARM
                            &&& joints == data.left()[frame as int].len()
                            &&& forall|k: int|
                                0 <= k < frame ==> (#[trigger] data.left()[k]).len()
                                    == JOINTS_PER_ARM
                        },
                        Arm::Right => {
                            &&& arm_rows_ok(data.left())
                            &&& frame < data.total_frames
                            &&& data.right()[frame as int].len() != JOINTS_PER_ARM
                            &&& joints == data.right()[frame as int].len()
                            &&& forall|k: int|
                                0 <= k < frame ==> (#[trigger] data.right()[k]).len()
                                    == JOINTS_PER_ARM
                        },
                    }
                },
                Err(ValidationError::JointValueOutOfRange { arm, frame, joint, value }) => {
                    &&& data.total_frames > 0
                    &&& sample_rate_in_range(data.sample_rate_bits)
                    &&& !f32_bits_le_zero(data.total_duration_bits)
                    &&& data.left().len() == data.total_frames
                    &&& data.right().len() == data.total_frames
                    &&& arm_rows_ok(data.left())
                    &&& arm_rows_ok(data.right())
                    &&& !joint_value_ok(value)
                    &&& joint < JOINTS_PER_ARM
                    &&& match arm {
                        Arm::Left => {
                            &&& frame < data.total_frames
                            &&& value == data.left()[frame as int][joint as int]
                            &&& forall|k: int, m: int|
                                0 <= k < frame && 0 <= m < JOINTS_PER_ARM ==> joint_value_ok(
                                    #[trigger] data.left()[k][m],
                                )
                            &&& forall|m: int|
                                0 <= m < joint ==> joint_value_ok(
                                    #[trigger] data.left()[frame as int][m],
                                )
                        },
                        Arm::Right => {
                            &&& arm_values_ok(data.left())
                            &&& frame < data.total_frames
                            &&& value == data.right()[frame as int][joint as int]
                            &&& forall|k: int, m: int|
                                0 <= k < frame && 0 <= m < JOINTS_PER_ARM ==> joint_value_ok(
                                    #[trigger] data.right()[k][m],
                                )
                            &&& forall|m: int|
                                0 <= m < joint ==> joint_value_ok(
                                    #[trigger] data.right()[frame as int][m],
                                )
                        },
                    }
                },
            },
    {
        if data.total_frames == 0 {
            return Err(ValidationError::ZeroTotalFrames);
        }
        if !(data.sample_rate_bits >= 1
            && data.sample_rate_bits <= crate::sequence_data::F32_BITS_1000) {
            return Err(ValidationError::SampleRateOutOfRange(data.sample_rate_bits));
        }
        if data.total_duration_bits == 0
            || (data.total_duration_bits >= 0x8000_0000
                && data.total_duration_bits <= 0xFF80_0000) {
            return Err(ValidationError::DurationNotPositive(data.total_duration_bits));
        }
        let tf = data.total_frames as usize;
        if data.left_arm_sequence.len() != tf {
            return Err(ValidationError::ArmLengthMismatch {
                arm: Arm::Left,
                expected: data.total_frames,
                actual: data.left_arm_sequence.len(),
            });
        }
        if data.right_arm_sequence.len() != tf {
            return Err(ValidationError::ArmLengthMismatch {
                arm: Arm::Right,
                expected: data.total_frames,
                actual: data.right_arm_sequence.len(),
            });
        }
        if let Err(e) = Self::check_joint_counts(&data.left_arm_sequence, Arm::Left) {
            return Err(e);
        }
        if let Err(e) = Self::check_joint_counts(&data.right_arm_sequence, Arm::Right) {
            return Err(e);
        }
        if let Err(e) = Self::validate_joint_values(&data.left_arm_sequence, Arm::Left) {
            return Err(e);
        }
        if let Err(e) = Self::validate_joint_values(&data.right_arm_sequence, Arm::Right) {
            return Err(e);
        }
        Ok(())
    }

    /// Checks that every row of one arm holds exactly ten joints, reporting
    /// the first row that does not.
    fn check_joint_counts(rows: &Vec<Vec<i32>>, arm: Arm) -> (r: Result<(), ValidationError>)
        ensures
            match r {
                Ok(()) => arm_rows_ok(rows.deep_view()),
                Err(e) => match e {
                    ValidationError::JointCountMismatch { arm: a, frame, joints } => {
                        &&& a == arm
                        &&& frame < rows.deep_view().len()
                        &&& rows.deep_view()[frame as int].len() != JOINTS_PER_ARM
                        &&& joints == rows.deep_view()[frame as int].len()
                        &&& forall|k: int|
                            0 <= k < frame ==> (#[trigger] rows.deep_view()[k]).len()
                                == JOINTS_PER_ARM
                    },
                    _ => false,
                },
            },
    {
        let mut f: usize = 0;
        while f < rows.len()
            invariant
                f <= rows@.len(),
                forall|k: int|
                    0 <= k < f ==> (#[trigger] rows.deep_view()[k]).len() == JOINTS_PER_ARM,
            decreases rows@.len() - f,
        {
            if rows[f].len() != JOINTS_PER_ARM {
                proof {
                    crate::sequence_data::lemma_row_deep_view(rows@[f as int]);
                }
                return Err(ValidationError::JointCountMismatch {
                    arm,
                    frame: f,
                    joints: rows[f].len(),
                });
            }
            f = f + 1;
        }
        Ok(())
    }

    /// Checks that every joint value of one arm is -1 or in [0, 4095],
    /// reporting the first value that is not, row by row, left to right.
    fn validate_joint_values(rows: &Vec<Vec<i32>>, arm: Arm) -> (r: Result<(), ValidationError>)
        ensures
            match r {
                Ok(()) => arm_values_ok(rows.deep_view()),
                Err(e) => match e {
                    ValidationError::JointValueOutOfRange { arm: a, frame, joint, value } => {
                        &&& a == arm
                        &&& frame < rows.deep_view().len()
                        &&& joint < rows.deep_view()[frame as int].len()
                        &&& value == rows.deep_view()[frame as int][joint as int]
                        &&& !joint_value_ok(value)
                        &&& forall|k: int, m: int|
                            0 <= k < frame && 0 <= m < rows.deep_view()[k].len()
                                ==> joint_value_ok(#[trigger] rows.deep_view()[k][m])
                        &&& forall|m: int|
                            0 <= m < joint ==> joint_value_ok(
                                #[trigger] rows.deep_view()[frame as int][m],
                            )
                    },
                    _ => false,
                },
            },
    {
        let mut f: usize = 0;
        while f < rows.len()
            invariant
                f <= rows@.len(),
                forall|k: int, m: int|
                    0 <= k < f && 0 <= m < rows.deep_view()[k].len() ==> joint_value_ok(
                        #[trigger] rows.deep_view()[k][m],
                    ),
            decreases rows@.len() - f,
        {
            let row = &rows[f];
            let mut j: usize = 0;
            while j < row.len()
                invariant
                    f < rows@.len(),
                    row == rows@[f as int],
                    j <= row@.len(),
                    forall|m: int| 0 <= m < j ==> joint_value_ok(#[trigger] row@[m]),
                    forall|k: int, m: int|
                        0 <= k < f && 0 <= m < rows.deep_view()[k].len() ==> joint_value_ok(
                            #[trigger] rows.deep_view()[k][m],
                        ),
                decreases row@.len() - j,
            {
                let value = row[j];
                if value != -1 && (value < 0 || value > 4095) {
                    proof {
                        crate::sequence_data::lemma_row_deep_view(rows@[f as int]);
                    }
                    return Err(ValidationError::JointValueOutOfRange {
                        arm,
                        frame: f,
                        joint: j,
                        value,
                    });
                }
                j = j + 1;
            }
            proof {
                crate::sequence_data::lemma_row_deep_view(rows@[f as int]);
            }
            f = f + 1;
        }
        Ok(())
    }
}

} // verus!
