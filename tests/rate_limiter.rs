use airjedi::{
    Duration, ItemRateLimiter, PendingUpdate, RateLimitConfig, RateLimitResult, UpdateTracker,
    UpdateType,
};

#[test]
fn test_rate_limit_config_default() {
    let config = RateLimitConfig::default();
    assert_eq!(config.position_interval, Duration::from_millis(500));
    assert_eq!(config.velocity_interval, Duration::from_millis(1000));
    assert_eq!(config.identification_interval, Duration::from_millis(0));
}

#[test]
fn test_update_tracker_first_update_allowed() {
    let tracker = UpdateTracker::new();
    let config = RateLimitConfig::default();

    assert!(tracker.is_update_allowed(UpdateType::Position, &config));
    assert!(tracker.is_update_allowed(UpdateType::Velocity, &config));
    assert!(tracker.is_update_allowed(UpdateType::Identification, &config));
}

#[test]
fn test_update_tracker_rate_limiting() {
    let mut tracker = UpdateTracker::new();
    let config = RateLimitConfig::default();

    assert!(tracker.is_update_allowed(UpdateType::Position, &config));
    tracker.record_update(UpdateType::Position);

    assert!(!tracker.is_update_allowed(UpdateType::Position, &config));

    assert!(tracker.is_update_allowed(UpdateType::Identification, &config));
}

#[test]
fn test_item_rate_limiter_immediate_processing() {
    let mut limiter = ItemRateLimiter::new("test_item");
    let config = RateLimitConfig::default();

    let result = limiter.process_update(UpdateType::Identification, "callsign", &config);

    match result {
        RateLimitResult::Allowed(data) => assert_eq!(data, "callsign"),
        RateLimitResult::RateLimited => panic!("Identification should be immediate"),
    }
}

#[test]
fn test_item_rate_limiter_queuing() {
    let mut limiter = ItemRateLimiter::new("test_item");
    let config = RateLimitConfig::default();

    let result1 = limiter.process_update(UpdateType::Position, "pos1", &config);
    assert!(matches!(result1, RateLimitResult::Allowed(_)));

    let result2 = limiter.process_update(UpdateType::Position, "pos2", &config);
    assert!(matches!(result2, RateLimitResult::RateLimited));

    assert_eq!(limiter.pending_count(), 1);
}

#[test]
fn test_pending_update_ready_check() {
    let pending = PendingUpdate::new_at("test_data", UpdateType::Position, 1100, 1000);
    assert!(!pending.is_ready_at(1000));
    assert!(!pending.is_ready_at(1099));
    assert!(pending.is_ready_at(1100));
    assert!(pending.is_ready_at(1150));
    assert_eq!(pending.time_until_ready_at(1000), Duration::from_millis(100));
    assert_eq!(pending.time_until_ready_at(1200), Duration::from_millis(0));
    assert_eq!(pending.received_at, 1000);
}

#[test]
fn deferred_position_goes_out_at_interval() {
    // Submit pos1 at 0 and pos2 at 100 ms with a 500 ms interval: pos1 admitted,
    // pos2 held, and released by the tick at 500 ms.
    let config = RateLimitConfig::default();
    let mut limiter = ItemRateLimiter::new_at("A", 0);
    let r1 = limiter.process_update_at(UpdateType::Position, "pos1", &config, 0);
    assert!(matches!(r1, RateLimitResult::Allowed("pos1")));
    let r2 = limiter.process_update_at(UpdateType::Position, "pos2", &config, 100);
    assert!(matches!(r2, RateLimitResult::RateLimited));
    assert!(limiter.process_pending_updates_at(499).is_empty());
    let out = limiter.process_pending_updates_at(500);
    assert_eq!(out, vec![(UpdateType::Position, "pos2")]);
    assert_eq!(limiter.pending_count(), 0);
    assert_eq!(
        limiter.update_tracker.time_since_last_update_at(UpdateType::Position, 700),
        Some(Duration::from_millis(200))
    );
}

#[test]
fn newer_pending_update_replaces_older() {
    let config = RateLimitConfig::default();
    let mut limiter = ItemRateLimiter::new_at(7u32, 0);
    limiter.process_update_at(UpdateType::Velocity, 1, &config, 0);
    limiter.process_update_at(UpdateType::Velocity, 2, &config, 10);
    limiter.process_update_at(UpdateType::Velocity, 3, &config, 20);
    assert_eq!(limiter.pending_count(), 1);
    assert_eq!(limiter.process_pending_updates_at(1000), vec![(UpdateType::Velocity, 3)]);
}

#[test]
fn identification_with_zero_interval_is_never_deferred() {
    let config = RateLimitConfig::default();
    let mut limiter = ItemRateLimiter::new_at("A", 0);
    let r1 = limiter.process_update_at(UpdateType::Identification, "id1", &config, 0);
    let r2 = limiter.process_update_at(UpdateType::Identification, "id2", &config, 1);
    assert!(matches!(r1, RateLimitResult::Allowed("id1")));
    assert!(matches!(r2, RateLimitResult::Allowed("id2")));
    assert_eq!(limiter.pending_count(), 0);
}

#[test]
fn admission_after_full_interval_clears_pending() {
    let config = RateLimitConfig::default();
    let mut limiter = ItemRateLimiter::new_at("A", 0);
    limiter.process_update_at(UpdateType::Position, "pos1", &config, 0);
    limiter.process_update_at(UpdateType::Position, "pos2", &config, 100);
    assert_eq!(limiter.pending_count(), 1);
    let r = limiter.process_update_at(UpdateType::Position, "pos3", &config, 600);
    assert!(matches!(r, RateLimitResult::Allowed("pos3")));
    assert_eq!(limiter.pending_count(), 0);
    assert!(limiter.should_evict_at(Duration::from_millis(100), 701));
    assert!(!limiter.should_evict_at(Duration::from_millis(100), 700));
}

#[test]
fn flush_hands_out_everything_waiting() {
    let config = RateLimitConfig::default();
    let mut limiter = ItemRateLimiter::new_at("A", 0);
    limiter.process_update_at(UpdateType::Position, "pos1", &config, 0);
    limiter.process_update_at(UpdateType::Velocity, "v1", &config, 0);
    limiter.process_update_at(UpdateType::Velocity, "v2", &config, 1);
    limiter.process_update_at(UpdateType::Position, "pos2", &config, 1);
    let out = limiter.flush_pending_at(2);
    assert_eq!(out, vec![(UpdateType::Position, "pos2"), (UpdateType::Velocity, "v2")]);
    assert_eq!(limiter.pending_count(), 0);
}

#[test]
fn interval_lookup_per_kind() {
    let config = RateLimitConfig {
        position_interval: Duration::from_millis(1),
        velocity_interval: Duration::from_millis(2),
        identification_interval: Duration::from_millis(3),
        metadata_interval: Duration::from_millis(4),
    };
    assert_eq!(UpdateType::Position.get_interval(&config).as_millis(), 1);
    assert_eq!(UpdateType::Velocity.get_interval(&config).as_millis(), 2);
    assert_eq!(UpdateType::Identification.get_interval(&config).as_millis(), 3);
    assert_eq!(UpdateType::Metadata.get_interval(&config).as_millis(), 4);
    let mut tracker = UpdateTracker::new();
    assert_eq!(tracker.next_allowed_update_at(UpdateType::Metadata, &config, 9), 9);
    tracker.record_update_at(UpdateType::Metadata, 10);
    assert_eq!(tracker.next_allowed_update_at(UpdateType::Metadata, &config, 11), 14);
    assert!(!tracker.is_update_allowed_at(UpdateType::Metadata, &config, 13));
    assert!(tracker.is_update_allowed_at(UpdateType::Metadata, &config, 14));
    assert!(!tracker.is_update_allowed_at(UpdateType::Metadata, &config, 5));
}

#[test]
fn admitted_positions_are_an_interval_apart() {
    let config = RateLimitConfig::default();
    let mut limiter = ItemRateLimiter::new_at("A", 0);
    let mut admitted: Vec<u64> = Vec::new();
    for t in (0..3_000u64).step_by(70) {
        if let RateLimitResult::Allowed(_) = limiter.process_update_at(UpdateType::Position, t, &config, t) {
            admitted.push(t);
        }
        for _ in limiter.process_pending_updates_at(t) {
            admitted.push(t);
        }
    }
    assert!(admitted.len() >= 5);
    for pair in admitted.windows(2) {
        assert!(pair[1] - pair[0] >= 500);
    }
}
