//! Tests for the playback engine, its state machine and the timer.

use evobot_sequence_native::{
    EngineError, PlaybackEngine, PlaybackState, PrecisionTimer, SequenceParser, StepOutcome,
};

/// A well-formed `.ebs` buffer with sine-derived joint values.
fn mock_ebs_data(frame_count: u32, rate: f32, duration: f32, name: &str) -> Vec<u8> {
    let mut data = Vec::new();
    data.extend_from_slice(b"EBS1");
    data.extend_from_slice(&frame_count.to_le_bytes());
    data.extend_from_slice(&rate.to_le_bytes());
    data.extend_from_slice(&duration.to_le_bytes());
    data.extend_from_slice(&1640995200u32.to_le_bytes());
    data.extend_from_slice(&[0u8; 12]);
    let mut name_bytes = [0u8; 64];
    name_bytes[..name.len()].copy_from_slice(name.as_bytes());
    data.extend_from_slice(&name_bytes);
    for frame in 0..frame_count {
        for joint in 0..20 {
            let angle = (frame as f32 * 0.1 + joint as f32 * 0.2).sin();
            let position = ((angle + 1.0) * 1000.0) as u16;
            data.extend_from_slice(&position.to_le_bytes());
        }
    }
    data
}

fn loaded_engine(frame_count: u32) -> PlaybackEngine {
    let data = mock_ebs_data(frame_count, 40.0, 2.5, "Test Sequence");
    let sequence = SequenceParser::parse_from_bytes(&data).unwrap();
    let mut engine = PlaybackEngine::new();
    engine.load_sequence(sequence).unwrap();
    engine
}

#[test]
fn state_guarded_transitions() {
    let mut engine = PlaybackEngine::new();
    assert_eq!(engine.get_state(), PlaybackState::Idle);

    let data = mock_ebs_data(100, 40.0, 2.5, "Test Sequence");
    let sequence = SequenceParser::parse_from_bytes(&data).unwrap();
    engine.load_sequence(sequence).unwrap();
    assert_eq!(engine.get_state(), PlaybackState::Ready);

    // Neither pausing nor resuming has any effect while Ready.
    engine.pause();
    assert_eq!(engine.get_state(), PlaybackState::Ready);
    engine.resume();
    assert_eq!(engine.get_state(), PlaybackState::Ready);
}

#[test]
fn state_guard_queries() {
    assert!(PlaybackState::Ready.can_play());
    assert!(PlaybackState::Paused.can_play());
    assert!(!PlaybackState::Idle.can_play());
    assert!(PlaybackState::Playing.can_pause());
    assert!(!PlaybackState::Ready.can_pause());
    assert!(PlaybackState::Paused.can_resume());
    assert!(!PlaybackState::Playing.can_resume());
    assert!(PlaybackState::Playing.can_stop());
    assert!(PlaybackState::Paused.can_stop());
    assert!(!PlaybackState::Stopped.can_stop());
    assert_eq!(PlaybackState::Idle.get_description(), "Idle");
    assert_eq!(PlaybackState::Loading.get_description(), "Loading");
    assert_eq!(PlaybackState::Ready.get_description(), "Ready");
    assert_eq!(PlaybackState::Playing.get_description(), "Playing");
    assert_eq!(PlaybackState::Paused.get_description(), "Paused");
    assert_eq!(PlaybackState::Stopped.get_description(), "Stopped");
    assert_eq!(
        PlaybackState::Error("boom".to_string()).get_description(),
        "Error"
    );
}

#[test]
fn load_rejects_invalid_sequence() {
    let mut engine = PlaybackEngine::new();
    let bad = evobot_sequence_native::SequenceData::new();
    assert_eq!(engine.load_sequence(bad), Err(EngineError::InvalidSequence));
    assert_eq!(engine.get_state(), PlaybackState::Idle);
}

#[test]
fn seek_bounds() {
    let mut engine = loaded_engine(100);
    assert_eq!(
        engine.seek(100),
        Err(EngineError::InvalidFrameIndex { requested: 100, max: 99 })
    );
    assert_eq!(engine.get_current_frame(), 0);
    assert_eq!(engine.seek(99), Ok(()));
    assert_eq!(engine.get_current_frame(), 99);

    let mut empty = PlaybackEngine::new();
    assert_eq!(empty.seek(0), Err(EngineError::NoSequenceLoaded));
}

#[test]
fn hold_fill_transform() {
    // One joint over four frames: raw -1, -1, 5, -1 comes out -1, -1, 5, 5.
    let mut engine = PlaybackEngine::new();
    let mut outputs = Vec::new();
    for raw in [-1, -1, 5, -1] {
        let out = engine.fill_minus_one_values_optimized(&vec![raw], true);
        outputs.push(out[0]);
    }
    assert_eq!(outputs, vec![-1, -1, 5, 5]);

    // The buffers are per arm: the right arm never saw the 5.
    let right = engine.fill_minus_one_values_optimized(&vec![-1], false);
    assert_eq!(right[0], -1);
}

#[test]
fn hold_fill_full_rows() {
    let mut engine = PlaybackEngine::new();
    let first = engine.fill_minus_one_values_optimized(
        &vec![0, 1, 2, 3, 4, 5, 6, 7, 8, -1],
        true,
    );
    assert_eq!(first, vec![0, 1, 2, 3, 4, 5, 6, 7, 8, -1]);
    let second = engine.fill_minus_one_values_optimized(
        &vec![-1, -1, -1, -1, -1, -1, -1, -1, -1, -1],
        true,
    );
    assert_eq!(second, vec![0, 1, 2, 3, 4, 5, 6, 7, 8, -1]);
}

#[test]
fn playback_completion() {
    let total = 5u32;
    let mut engine = loaded_engine(total);
    let frames = engine.play_frames(40).unwrap();
    assert_eq!(frames.len(), total as usize);
    for (k, frame) in frames.iter().enumerate() {
        assert_eq!(frame.2, k as u32);
        assert_eq!(frame.0.len(), 10);
        assert_eq!(frame.1.len(), 10);
    }
    assert_eq!(engine.get_state(), PlaybackState::Stopped);
    assert_eq!(engine.get_current_frame(), total);
    // No further frames: the playing flag is clear.
    assert!(matches!(engine.playback_step(0), StepOutcome::Interrupted));
}

#[test]
fn playback_steps_and_transport() {
    let mut engine = loaded_engine(3);
    assert_eq!(engine.start_playback(40), Ok(()));
    assert_eq!(engine.get_state(), PlaybackState::Playing);

    match engine.playback_step(1000) {
        StepOutcome::Frame { frame_index, left, right, .. } => {
            assert_eq!(frame_index, 0);
            assert_eq!(left.len(), 10);
            assert_eq!(right.len(), 10);
        }
        _ => panic!("expected a frame"),
    }
    assert_eq!(engine.get_current_frame(), 1);

    engine.pause();
    assert_eq!(engine.get_state(), PlaybackState::Paused);
    assert!(matches!(engine.playback_step(1025), StepOutcome::Interrupted));
    assert_eq!(engine.get_current_frame(), 1);

    engine.resume();
    assert_eq!(engine.get_state(), PlaybackState::Ready);
    // Resuming does not itself restart emission; a fresh start continues
    // from the preserved cursor.
    assert_eq!(engine.start_playback(40), Ok(()));
    match engine.playback_step(1050) {
        StepOutcome::Frame { frame_index, .. } => assert_eq!(frame_index, 1),
        _ => panic!("expected a frame"),
    }

    engine.stop();
    assert_eq!(engine.get_state(), PlaybackState::Stopped);
    assert_eq!(engine.get_current_frame(), 0);
    assert!(!PlaybackState::Stopped.can_play());
    assert_eq!(engine.start_playback(40), Err(EngineError::InvalidState));
}

#[test]
fn start_playback_requires_sequence_and_state() {
    let mut engine = PlaybackEngine::new();
    assert_eq!(engine.start_playback(40), Err(EngineError::NoSequenceLoaded));

    let mut loaded = loaded_engine(2);
    assert_eq!(loaded.start_playback(40), Ok(()));
    // Already playing: a second start is refused.
    assert_eq!(loaded.start_playback(40), Err(EngineError::InvalidState));
}

#[test]
fn core_affinity_heuristics() {
    // Short and slow: efficiency cores.
    let engine = loaded_engine(100);
    assert_eq!(
        engine.get_rk3399_stats(),
        "RK3399 Stats: big_cores=false, current_frame=0, total_frames=100"
    );

    // Long sequences prefer the fast cores.
    let long = loaded_engine(1001);
    assert_eq!(
        long.get_rk3399_stats(),
        "RK3399 Stats: big_cores=true, current_frame=0, total_frames=1001"
    );

    // A fast rate prefers the fast cores.
    let data = mock_ebs_data(10, 50.5, 1.0, "fast");
    let sequence = SequenceParser::parse_from_bytes(&data).unwrap();
    let mut fast = PlaybackEngine::new();
    fast.load_sequence(sequence).unwrap();
    assert!(fast.get_rk3399_stats().contains("big_cores=true"));

    // A high playback frequency forces the preference.
    let mut engine2 = loaded_engine(100);
    assert!(engine2.get_rk3399_stats().contains("big_cores=false"));
    engine2.start_playback(61).unwrap();
    assert!(engine2.get_rk3399_stats().contains("big_cores=true"));

    // The manual switch.
    let mut engine3 = loaded_engine(100);
    engine3.set_use_big_cores(true);
    assert!(engine3.get_rk3399_stats().contains("big_cores=true"));
    engine3.set_use_big_cores(false);
    assert!(engine3.get_rk3399_stats().contains("big_cores=false"));
}

#[test]
fn emergency_stop_resets() {
    let mut engine = loaded_engine(10);
    engine.seek(7).unwrap();
    engine.start_playback(40).unwrap();
    engine.emergency_stop();
    assert_eq!(engine.get_state(), PlaybackState::Stopped);
    assert_eq!(engine.get_current_frame(), 0);
    assert_eq!(engine.get_total_frames(), 10);
}

#[test]
fn timer_first_delay_is_the_interval() {
    let mut timer = PrecisionTimer::new(40);
    assert_eq!(timer.get_frequency(), 40);
    assert_eq!(timer.calculate_next_delay_rk3399(12345), 25);
}

#[test]
fn timer_adaptive_compensation_small_history() {
    let mut timer = PrecisionTimer::new(40);
    timer.mark_tick(1000);
    // Observed 30 ms against a 25 ms target: with fewer than ten samples
    // the compensation is the full 5 ms drift.
    assert_eq!(timer.calculate_next_delay_rk3399(1030), 20);
}

#[test]
fn timer_standard_mode_clamps() {
    let mut timer = PrecisionTimer::new(40);
    timer.set_rk3399_mode(false);
    timer.mark_tick(0);
    // Drift 15 ms: compensated 10 ms clamps up to half the interval.
    assert_eq!(timer.calculate_next_delay(40), 12);
}

#[test]
fn timer_reset_and_stats_text() {
    let mut timer = PrecisionTimer::new(40);
    assert_eq!(
        timer.get_rk3399_performance_stats(),
        "No performance data available"
    );
    timer.mark_tick(1000);
    let _ = timer.calculate_next_delay_rk3399(1030);
    assert_eq!(
        timer.get_rk3399_performance_stats(),
        "RK3399 Timer Stats: avg=30.00ms, min=30ms, max=30ms, samples=1, drift=5ms"
    );
    timer.reset();
    assert_eq!(
        timer.get_rk3399_performance_stats(),
        "No performance data available"
    );
}
