//! Tests for the diagnostic sequence validator.

use evobot_sequence_native::{Arm, SequenceData, SequenceValidator, ValidationError};

fn valid_sequence(frames: usize) -> SequenceData {
    let mut s = SequenceData::new();
    s.name = "v".to_string();
    s.total_frames = frames as u32;
    s.sample_rate_bits = 40.0f32.to_bits();
    s.total_duration_bits = 1.0f32.to_bits();
    s.left_arm_sequence = vec![vec![0; 10]; frames];
    s.right_arm_sequence = vec![vec![0; 10]; frames];
    s
}

#[test]
fn validator_accepts_a_valid_sequence() {
    let s = valid_sequence(3);
    assert_eq!(SequenceValidator::validate_sequence(&s), Ok(()));
}

#[test]
fn validator_range_check() {
    // 4095 is accepted; 4096 rejected; -1 accepted; -2 rejected.
    let mut s = valid_sequence(2);
    s.left_arm_sequence[1][3] = 4095;
    s.right_arm_sequence[0][9] = -1;
    assert_eq!(SequenceValidator::validate_sequence(&s), Ok(()));

    s.left_arm_sequence[1][3] = 4096;
    assert_eq!(
        SequenceValidator::validate_sequence(&s),
        Err(ValidationError::JointValueOutOfRange {
            arm: Arm::Left,
            frame: 1,
            joint: 3,
            value: 4096,
        })
    );

    s.left_arm_sequence[1][3] = -1;
    s.right_arm_sequence[0][9] = -2;
    assert_eq!(
        SequenceValidator::validate_sequence(&s),
        Err(ValidationError::JointValueOutOfRange {
            arm: Arm::Right,
            frame: 0,
            joint: 9,
            value: -2,
        })
    );
}

#[test]
fn validator_zero_frames() {
    let mut s = valid_sequence(1);
    s.total_frames = 0;
    assert_eq!(
        SequenceValidator::validate_sequence(&s),
        Err(ValidationError::ZeroTotalFrames)
    );
}

#[test]
fn validator_sample_rate_range() {
    let mut s = valid_sequence(1);
    s.sample_rate_bits = 0.0f32.to_bits();
    assert!(matches!(
        SequenceValidator::validate_sequence(&s),
        Err(ValidationError::SampleRateOutOfRange(_))
    ));
    s.sample_rate_bits = 1000.5f32.to_bits();
    assert!(matches!(
        SequenceValidator::validate_sequence(&s),
        Err(ValidationError::SampleRateOutOfRange(_))
    ));
    s.sample_rate_bits = 1000.0f32.to_bits();
    assert_eq!(SequenceValidator::validate_sequence(&s), Ok(()));
}

#[test]
fn validator_duration_not_positive() {
    let mut s = valid_sequence(1);
    s.total_duration_bits = 0.0f32.to_bits();
    assert!(matches!(
        SequenceValidator::validate_sequence(&s),
        Err(ValidationError::DurationNotPositive(_))
    ));
    s.total_duration_bits = (-1.0f32).to_bits();
    assert!(matches!(
        SequenceValidator::validate_sequence(&s),
        Err(ValidationError::DurationNotPositive(_))
    ));
    // The validator only rejects non-positive durations; a long one passes.
    s.total_duration_bits = 9999.0f32.to_bits();
    assert_eq!(SequenceValidator::validate_sequence(&s), Ok(()));
}

#[test]
fn validator_length_mismatches() {
    let mut s = valid_sequence(3);
    s.left_arm_sequence.pop();
    assert_eq!(
        SequenceValidator::validate_sequence(&s),
        Err(ValidationError::ArmLengthMismatch { arm: Arm::Left, expected: 3, actual: 2 })
    );

    let mut s2 = valid_sequence(3);
    s2.right_arm_sequence.push(vec![0; 10]);
    assert_eq!(
        SequenceValidator::validate_sequence(&s2),
        Err(ValidationError::ArmLengthMismatch { arm: Arm::Right, expected: 3, actual: 4 })
    );
}

#[test]
fn validator_joint_count_mismatches() {
    let mut s = valid_sequence(3);
    s.left_arm_sequence[2].pop();
    assert_eq!(
        SequenceValidator::validate_sequence(&s),
        Err(ValidationError::JointCountMismatch { arm: Arm::Left, frame: 2, joints: 9 })
    );

    let mut s2 = valid_sequence(3);
    s2.right_arm_sequence[0].push(0);
    assert_eq!(
        SequenceValidator::validate_sequence(&s2),
        Err(ValidationError::JointCountMismatch { arm: Arm::Right, frame: 0, joints: 11 })
    );
}

#[test]
fn validator_reports_first_violation() {
    // Both a left and a right violation: the left arm is checked first; and
    // within one arm, earlier frames first.
    let mut s = valid_sequence(3);
    s.left_arm_sequence[2][0] = 5000;
    s.right_arm_sequence[0][0] = -7;
    assert_eq!(
        SequenceValidator::validate_sequence(&s),
        Err(ValidationError::JointValueOutOfRange {
            arm: Arm::Left,
            frame: 2,
            joint: 0,
            value: 5000,
        })
    );

    let mut s2 = valid_sequence(3);
    s2.left_arm_sequence[1][2] = 9999;
    s2.left_arm_sequence[2][0] = 9999;
    assert_eq!(
        SequenceValidator::validate_sequence(&s2),
        Err(ValidationError::JointValueOutOfRange {
            arm: Arm::Left,
            frame: 1,
            joint: 2,
            value: 9999,
        })
    );
}
