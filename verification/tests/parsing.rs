//! Tests for the `.ebs` parser and the sequence model.

use evobot_sequence_native::{ParseError, SequenceData, SequenceParser};

/// A well-formed `.ebs` buffer with sine-derived joint values.
fn mock_ebs_data(frame_count: u32, rate: f32, duration: f32, name: &str) -> Vec<u8> {
    let mut data = Vec::new();
    data.extend_from_slice(b"EBS1");
    data.extend_from_slice(&frame_count.to_le_bytes());
    data.extend_from_slice(&rate.to_le_bytes());
    data.extend_from_slice(&duration.to_le_bytes());
    data.extend_from_slice(&1640995200u32.to_le_bytes());
    data.extend_from_slice(&[0u8; 12]);
    let mut name_bytes = [0u8; 64];
    name_bytes[..name.len()].copy_from_slice(name.as_bytes());
    data.extend_from_slice(&name_bytes);
    for frame in 0..frame_count {
        for joint in 0..20 {
            let angle = (frame as f32 * 0.1 + joint as f32 * 0.2).sin();
            let position = ((angle + 1.0) * 1000.0) as u16;
            data.extend_from_slice(&position.to_le_bytes());
        }
    }
    data
}

#[test]
fn round_trip_decode() {
    let data = mock_ebs_data(100, 40.0, 2.5, "Test Sequence");
    let sequence = SequenceParser::parse_from_bytes(&data).unwrap();
    assert_eq!(sequence.name, "Test Sequence");
    assert_eq!(sequence.total_frames, 100);
    assert_eq!(sequence.sample_rate_bits, 40.0f32.to_bits());
    assert_eq!(sequence.total_duration_bits, 2.5f32.to_bits());
    assert_eq!(sequence.compiled_at, 1640995200);
    assert!(sequence.validate());
}

#[test]
fn magic_rejection() {
    let mut data = mock_ebs_data(10, 40.0, 1.0, "x");
    data[0] = b'X';
    match SequenceParser::parse_from_bytes(&data) {
        Err(ParseError::InvalidMagic(text)) => assert_eq!(text, "XBS1"),
        _ => panic!("expected an invalid-magic error"),
    }
    let data2: Vec<u8> = {
        let mut d = mock_ebs_data(10, 40.0, 1.0, "x");
        d[3] = 0;
        d
    };
    assert!(matches!(
        SequenceParser::parse_from_bytes(&data2),
        Err(ParseError::InvalidMagic(_))
    ));
}

#[test]
fn frame_count_bounds() {
    let zero = mock_ebs_data(0, 40.0, 1.0, "x");
    assert!(matches!(
        SequenceParser::parse_from_bytes(&zero),
        Err(ParseError::InvalidFrameCount(0))
    ));

    // One past the maximum: patch the count but keep a small body.
    let mut over = mock_ebs_data(1, 40.0, 1.0, "x");
    over[4..8].copy_from_slice(&100001u32.to_le_bytes());
    assert!(matches!(
        SequenceParser::parse_from_bytes(&over),
        Err(ParseError::InvalidFrameCount(100001))
    ));

    let max = mock_ebs_data(100000, 40.0, 1.0, "x");
    let sequence = SequenceParser::parse_from_bytes(&max).unwrap();
    assert_eq!(sequence.total_frames, 100000);
}

#[test]
fn sentinel_decoding() {
    let mut data = mock_ebs_data(1, 40.0, 1.0, "s");
    // Left joint 0: the sentinel word. Left joint 1: the value 5.
    data[96..98].copy_from_slice(&0xFFFFu16.to_le_bytes());
    data[98..100].copy_from_slice(&5u16.to_le_bytes());
    // Right joint 0 (slot 10): the largest non-sentinel word.
    data[116..118].copy_from_slice(&0xFFFEu16.to_le_bytes());
    let sequence = SequenceParser::parse_from_bytes(&data).unwrap();
    assert_eq!(sequence.left_arm_sequence[0][0], -1);
    assert_eq!(sequence.left_arm_sequence[0][1], 5);
    assert_eq!(sequence.right_arm_sequence[0][0], 0xFFFE);
}

#[test]
fn too_short_buffer() {
    let data = vec![0u8; 95];
    assert!(matches!(
        SequenceParser::parse_from_bytes(&data),
        Err(ParseError::TooShort)
    ));
    assert!(matches!(
        SequenceParser::parse_from_bytes(&[]),
        Err(ParseError::TooShort)
    ));
}

#[test]
fn truncated_data() {
    let mut data = mock_ebs_data(2, 40.0, 1.0, "x");
    data.truncate(96 + 2 * 40 - 1);
    assert!(matches!(
        SequenceParser::parse_from_bytes(&data),
        Err(ParseError::TruncatedData)
    ));
}

#[test]
fn sample_rate_bounds() {
    let zero_rate = mock_ebs_data(1, 0.0, 1.0, "x");
    assert!(matches!(
        SequenceParser::parse_from_bytes(&zero_rate),
        Err(ParseError::InvalidSampleRate(_))
    ));
    let negative = mock_ebs_data(1, -1.0, 1.0, "x");
    assert!(matches!(
        SequenceParser::parse_from_bytes(&negative),
        Err(ParseError::InvalidSampleRate(_))
    ));
    let too_fast = mock_ebs_data(1, 1000.5, 1.0, "x");
    assert!(matches!(
        SequenceParser::parse_from_bytes(&too_fast),
        Err(ParseError::InvalidSampleRate(_))
    ));
    let nan = mock_ebs_data(1, f32::NAN, 1.0, "x");
    assert!(matches!(
        SequenceParser::parse_from_bytes(&nan),
        Err(ParseError::InvalidSampleRate(_))
    ));
    let limit = mock_ebs_data(1, 1000.0, 1.0, "x");
    assert!(SequenceParser::parse_from_bytes(&limit).is_ok());
}

#[test]
fn duration_bounds() {
    let zero = mock_ebs_data(1, 40.0, 0.0, "x");
    assert!(matches!(
        SequenceParser::parse_from_bytes(&zero),
        Err(ParseError::InvalidDuration(_))
    ));
    let too_long = mock_ebs_data(1, 40.0, 3600.5, "x");
    assert!(matches!(
        SequenceParser::parse_from_bytes(&too_long),
        Err(ParseError::InvalidDuration(_))
    ));
    let limit = mock_ebs_data(1, 40.0, 3600.0, "x");
    assert!(SequenceParser::parse_from_bytes(&limit).is_ok());
}

#[test]
fn name_trims_trailing_nuls_only() {
    let data = mock_ebs_data(1, 40.0, 1.0, "Wave Hello");
    let sequence = SequenceParser::parse_from_bytes(&data).unwrap();
    assert_eq!(sequence.name, "Wave Hello");

    // A 64-byte name uses the whole field.
    let long = "a".repeat(64);
    let data2 = mock_ebs_data(1, 40.0, 1.0, &long);
    let sequence2 = SequenceParser::parse_from_bytes(&data2).unwrap();
    assert_eq!(sequence2.name, long);
}

#[test]
fn model_shape_check_and_frames() {
    let data = mock_ebs_data(3, 40.0, 1.0, "m");
    let sequence = SequenceParser::parse_from_bytes(&data).unwrap();
    assert!(sequence.validate());

    let (left, right) = sequence.get_frame_data(0).unwrap();
    assert_eq!(left.len(), 10);
    assert_eq!(right.len(), 10);
    assert_eq!(left, sequence.left_arm_sequence[0]);
    assert!(sequence.get_frame_data(3).is_none());

    let empty = SequenceData::new();
    assert!(!empty.validate());
    assert!(empty.get_frame_data(0).is_none());

    // A cloned sequence carries the same data.
    let copy = sequence.clone();
    assert_eq!(copy.name, sequence.name);
    assert_eq!(copy.total_frames, sequence.total_frames);
    assert_eq!(copy.left_arm_sequence, sequence.left_arm_sequence);
    assert_eq!(copy.right_arm_sequence, sequence.right_arm_sequence);
}
