//! Tests for the player registry and the bridge-level load path.

use evobot_sequence_native::{
    CacheManager, EngineError, LoadOutcome, PlayerRegistry, StepOutcome,
};

/// A well-formed `.ebs` buffer with sine-derived joint values.
fn mock_ebs_data(frame_count: u32, rate: f32, duration: f32, name: &str) -> Vec<u8> {
    let mut data = Vec::new();
    data.extend_from_slice(b"EBS1");
    data.extend_from_slice(&frame_count.to_le_bytes());
    data.extend_from_slice(&rate.to_le_bytes());
    data.extend_from_slice(&duration.to_le_bytes());
    data.extend_from_slice(&1640995200u32.to_le_bytes());
    data.extend_from_slice(&[0u8; 12]);
    let mut name_bytes = [0u8; 64];
    name_bytes[..name.len()].copy_from_slice(name.as_bytes());
    data.extend_from_slice(&name_bytes);
    for frame in 0..frame_count {
        for joint in 0..20 {
            let angle = (frame as f32 * 0.1 + joint as f32 * 0.2).sin();
            let position = ((angle + 1.0) * 1000.0) as u16;
            data.extend_from_slice(&position.to_le_bytes());
        }
    }
    data
}

#[test]
fn identifiers_start_at_one_and_are_not_reused() {
    let mut registry = PlayerRegistry::new();
    let first = registry.create();
    let second = registry.create();
    assert_eq!(first, 1);
    assert_eq!(second, 2);
    registry.destroy(first);
    let third = registry.create();
    assert_eq!(third, 3);
    assert_eq!(registry.player_count(), 2);
}

#[test]
fn unknown_id_tolerance() {
    let mut registry = PlayerRegistry::new();
    let ghost_id = 77u64;

    assert_eq!(registry.get_current_frame(ghost_id), -1);
    assert_eq!(registry.get_total_frames(ghost_id), 0);
    assert!(!registry.set_use_big_cores(ghost_id, true));
    assert!(registry.get_rk3399_stats(ghost_id).is_none());
    assert!(registry.seek(ghost_id, 0).is_none());
    assert!(registry.start_playback(ghost_id, 40).is_none());
    assert!(registry.step_player(ghost_id, 0).is_none());
    assert!(!registry.emergency_stop(ghost_id));
    registry.pause(ghost_id);
    registry.resume(ghost_id);
    registry.stop(ghost_id);
    registry.destroy(ghost_id);
    assert_eq!(registry.player_count(), 0);

    // A destroyed identifier behaves exactly like one never created.
    let id = registry.create();
    registry.destroy(id);
    assert_eq!(registry.get_current_frame(id), -1);
    assert_eq!(registry.get_total_frames(id), 0);
    let mut cache = CacheManager::new(10);
    let data = mock_ebs_data(3, 40.0, 1.0, "gone");
    assert!(matches!(
        registry.load_sequence_from_bytes(&mut cache, id, &data),
        LoadOutcome::PlayerNotFound
    ));
}

#[test]
fn load_path_caches_and_loads() {
    let mut registry = PlayerRegistry::new();
    let mut cache = CacheManager::new(10);
    let id = registry.create();

    let data = mock_ebs_data(4, 40.0, 1.5, "Test Sequence");
    assert!(matches!(
        registry.load_sequence_from_bytes(&mut cache, id, &data),
        LoadOutcome::Loaded
    ));
    assert_eq!(registry.get_total_frames(id), 4);
    assert_eq!(registry.get_current_frame(id), 0);

    // The shared cache now holds the sequence under its prefixed name.
    let cached = cache.get("sequence_Test Sequence").expect("cache hit");
    assert_eq!(cached.total_frames, 4);
    assert_eq!(cached.name, "Test Sequence");
    assert_eq!(cache.size(), 1);
}

#[test]
fn load_path_reports_parse_failures() {
    let mut registry = PlayerRegistry::new();
    let mut cache = CacheManager::new(10);
    let id = registry.create();

    let mut bad = mock_ebs_data(4, 40.0, 1.5, "bad");
    bad[0] = b'Z';
    assert!(matches!(
        registry.load_sequence_from_bytes(&mut cache, id, &bad),
        LoadOutcome::ParseFailed(_)
    ));
    assert_eq!(cache.size(), 0);
    assert_eq!(registry.get_total_frames(id), 0);
}

#[test]
fn registry_playback_to_completion() {
    let mut registry = PlayerRegistry::new();
    let mut cache = CacheManager::new(10);
    let id = registry.create();
    let data = mock_ebs_data(3, 40.0, 1.0, "run");
    assert!(matches!(
        registry.load_sequence_from_bytes(&mut cache, id, &data),
        LoadOutcome::Loaded
    ));

    assert_eq!(registry.start_playback(id, 40), Some(Ok(())));
    let mut emitted = Vec::new();
    loop {
        match registry.step_player(id, 0).expect("player exists") {
            StepOutcome::Frame { frame_index, .. } => emitted.push(frame_index),
            StepOutcome::Completed => break,
            StepOutcome::Interrupted => panic!("nothing should interrupt"),
        }
    }
    assert_eq!(emitted, vec![0, 1, 2]);
    assert_eq!(registry.get_current_frame(id), 3);
    // Once complete, further steps report the cleared flag.
    assert!(matches!(
        registry.step_player(id, 0),
        Some(StepOutcome::Interrupted)
    ));
}

#[test]
fn registry_transport_controls() {
    let mut registry = PlayerRegistry::new();
    let mut cache = CacheManager::new(10);
    let id = registry.create();
    let data = mock_ebs_data(10, 40.0, 1.0, "t");
    registry.load_sequence_from_bytes(&mut cache, id, &data);

    assert_eq!(
        registry.seek(id, 10),
        Some(Err(EngineError::InvalidFrameIndex { requested: 10, max: 9 }))
    );
    assert_eq!(registry.seek(id, 9), Some(Ok(())));
    assert_eq!(registry.get_current_frame(id), 9);

    assert_eq!(registry.start_playback(id, 80), Some(Ok(())));
    registry.pause(id);
    let stats = registry.get_rk3399_stats(id).expect("player exists");
    assert_eq!(
        stats,
        "RK3399 Stats: big_cores=true, current_frame=9, total_frames=10"
    );

    registry.resume(id);
    assert_eq!(registry.start_playback(id, 40), Some(Ok(())));
    assert!(registry.emergency_stop(id));
    assert_eq!(registry.get_current_frame(id), 0);

    assert!(registry.set_use_big_cores(id, false));
    let stats2 = registry.get_rk3399_stats(id).expect("player exists");
    assert!(stats2.contains("big_cores=false"));
}
