use adsb_deku::ICAO;
use airjedi::{
    Duration, RateLimitConfig, RateLimitResult, RateLimitedStateManager,
    RateLimitedStateManagerBuilder, UpdateType,
};

#[test]
fn test_manager_creation() {
    let manager: RateLimitedStateManager<String, &str> = RateLimitedStateManager::new();
    assert_eq!(manager.item_count(), 0);
    assert_eq!(manager.total_pending_count(), 0);
}

#[test]
fn test_manager_update_processing() {
    let mut manager = RateLimitedStateManager::new();

    let result = manager.process_update("item1".to_string(), UpdateType::Position, "data1");
    assert!(matches!(result, RateLimitResult::Allowed(_)));
    assert_eq!(manager.item_count(), 1);

    let result = manager.process_update("item1".to_string(), UpdateType::Position, "data2");
    assert!(matches!(result, RateLimitResult::RateLimited));
    assert_eq!(manager.total_pending_count(), 1);
}

#[test]
fn test_manager_pending_processing() {
    let mut manager = RateLimitedStateManager::with_config_at(
        RateLimitConfig { position_interval: Duration::from_millis(100), ..Default::default() },
        0,
    );

    let result = manager.process_update_at("item1".to_string(), UpdateType::Position, "data1", 0);
    assert!(matches!(result, RateLimitResult::Allowed(_)));

    let result = manager.process_update_at("item1".to_string(), UpdateType::Position, "data2", 1);
    assert!(matches!(result, RateLimitResult::RateLimited));

    let ready = manager.process_pending_updates_at(2);
    assert!(ready.is_empty());

    let ready = manager.process_pending_updates_at(150);
    assert_eq!(ready.len(), 1);
    assert_eq!(ready[0].0, "item1");
    assert_eq!(ready[0].1, UpdateType::Position);
}

#[test]
fn test_manager_statistics() {
    let mut manager = RateLimitedStateManager::new();

    manager.process_update("item1".to_string(), UpdateType::Position, "data1");
    manager.process_update("item1".to_string(), UpdateType::Position, "data2");
    manager.process_update("item2".to_string(), UpdateType::Velocity, "data3");

    let stats = manager.get_stats();
    assert_eq!(stats.total_updates_received, 3);
    assert_eq!(stats.updates_allowed_immediately, 2);
    assert_eq!(stats.updates_rate_limited, 1);
    assert_eq!(stats.active_items, 2);
}

#[test]
fn test_manager_builder() {
    let manager: RateLimitedStateManager<String, &str> = RateLimitedStateManagerBuilder::new()
        .with_position_interval(Duration::from_millis(200))
        .with_eviction_timeout(Duration::from_secs(60))
        .build();

    assert_eq!(manager.get_config().position_interval, Duration::from_millis(200));
}

#[test]
fn test_rate_limiter_with_different_aircraft() {
    let rate_config = RateLimitConfig {
        position_interval: Duration::from_millis(500),
        velocity_interval: Duration::from_millis(1000),
        identification_interval: Duration::from_millis(0),
        metadata_interval: Duration::from_millis(2000),
    };

    let mut manager = RateLimitedStateManagerBuilder::new().with_rate_config(rate_config).build();

    let icao1 = ICAO([0x40, 0x62, 0x1D]);
    let icao2 = ICAO([0x50, 0x72, 0x2E]);

    let result1 = manager.process_update(icao1, UpdateType::Position, "pos1");
    let result2 = manager.process_update(icao2, UpdateType::Position, "pos2");

    assert!(matches!(result1, RateLimitResult::Allowed(_)));
    assert!(matches!(result2, RateLimitResult::Allowed(_)));

    let result3 = manager.process_update(icao1, UpdateType::Position, "pos1_2");
    assert!(matches!(result3, RateLimitResult::RateLimited));

    let result4 = manager.process_update(icao2, UpdateType::Position, "pos2_2");
    assert!(matches!(result4, RateLimitResult::RateLimited));

    assert_eq!(manager.item_count(), 2);
    assert_eq!(manager.total_pending_count(), 2);
}

#[test]
fn test_rate_limiter_immediate_vs_delayed_updates() {
    let rate_config = RateLimitConfig {
        position_interval: Duration::from_millis(500),
        velocity_interval: Duration::from_millis(1000),
        identification_interval: Duration::from_millis(0),
        metadata_interval: Duration::from_millis(2000),
    };

    let mut manager = RateLimitedStateManagerBuilder::new().with_rate_config(rate_config).build();

    let icao = ICAO([0x40, 0x62, 0x1D]);

    let id_result1 = manager.process_update(icao, UpdateType::Identification, "callsign1");
    let id_result2 = manager.process_update(icao, UpdateType::Identification, "callsign2");

    assert!(matches!(id_result1, RateLimitResult::Allowed(_)));
    assert!(matches!(id_result2, RateLimitResult::Allowed(_)));

    let pos_result1 = manager.process_update(icao, UpdateType::Position, "pos1");
    let pos_result2 = manager.process_update(icao, UpdateType::Position, "pos2");

    assert!(matches!(pos_result1, RateLimitResult::Allowed(_)));
    assert!(matches!(pos_result2, RateLimitResult::RateLimited));

    assert_eq!(manager.pending_count_for_item(&icao), 1);
}

#[test]
fn test_rate_limiter_statistics_tracking() {
    let mut manager = RateLimitedStateManagerBuilder::new().build();

    let icao = ICAO([0x40, 0x62, 0x1D]);

    manager.process_update(icao, UpdateType::Position, "pos1");
    manager.process_update(icao, UpdateType::Position, "pos2");
    manager.process_update(icao, UpdateType::Identification, "id1");
    manager.process_update(icao, UpdateType::Velocity, "vel1");
    manager.process_update(icao, UpdateType::Velocity, "vel2");

    let stats = manager.get_stats();
    assert_eq!(stats.total_updates_received, 5);
    assert_eq!(stats.updates_allowed_immediately, 3);
    assert_eq!(stats.updates_rate_limited, 2);
    assert_eq!(stats.active_items, 1);
    assert_eq!(stats.total_pending_updates, 2);

    // Shares are in hundredths of a percent.
    assert_eq!(stats.rate_limit_efficiency() as f64 / 100.0, 40.0);
    assert_eq!(stats.immediate_processing_rate() as f64 / 100.0, 60.0);
}

#[test]
fn test_rate_limiter_cleanup_and_eviction() {
    let mut manager = RateLimitedStateManagerBuilder::new()
        .with_eviction_timeout(Duration::from_millis(100))
        .with_cleanup_interval(Duration::from_millis(50))
        .build();

    let icao = ICAO([0x40, 0x62, 0x1D]);

    manager.process_update_at(icao, UpdateType::Position, "pos1", 1_000);
    assert_eq!(manager.item_count(), 1);

    manager.cleanup_at(1_150);

    assert_eq!(manager.item_count(), 0);
}

#[test]
fn test_rate_limiter_pending_update_processing() {
    let rate_config =
        RateLimitConfig { position_interval: Duration::from_millis(100), ..Default::default() };

    let mut manager = RateLimitedStateManagerBuilder::new().with_rate_config(rate_config).build();

    let icao = ICAO([0x40, 0x62, 0x1D]);

    manager.process_update_at(icao, UpdateType::Position, "pos1", 1_000);
    let result = manager.process_update_at(icao, UpdateType::Position, "pos2", 1_001);
    assert!(matches!(result, RateLimitResult::RateLimited));

    let ready = manager.process_pending_updates_at(1_002);
    assert!(ready.is_empty());

    let ready = manager.process_pending_updates_at(1_150);
    assert_eq!(ready.len(), 1);
    assert_eq!(ready[0].0, icao);
    assert_eq!(ready[0].1, UpdateType::Position);
}

#[test]
fn test_rate_limiter_flush_all_pending() {
    let mut manager = RateLimitedStateManagerBuilder::new().build();

    let icao1 = ICAO([0x40, 0x62, 0x1D]);
    let icao2 = ICAO([0x50, 0x72, 0x2E]);

    manager.process_update(icao1, UpdateType::Position, "pos1");
    manager.process_update(icao1, UpdateType::Position, "pos2");
    manager.process_update(icao2, UpdateType::Velocity, "vel1");
    manager.process_update(icao2, UpdateType::Velocity, "vel2");

    assert_eq!(manager.total_pending_count(), 2);

    let flushed = manager.flush_pending_updates();
    assert_eq!(flushed.len(), 2);
    assert_eq!(manager.total_pending_count(), 0);
}

#[test]
fn test_rate_limiter_config_validation() {
    let config = RateLimitConfig::default();

    assert_eq!(config.position_interval, Duration::from_millis(500));
    assert_eq!(config.velocity_interval, Duration::from_millis(1000));
    assert_eq!(config.identification_interval, Duration::from_millis(0));
    assert_eq!(config.metadata_interval, Duration::from_millis(5000));

    assert_eq!(UpdateType::Position.get_interval(&config), Duration::from_millis(500));
    assert_eq!(UpdateType::Velocity.get_interval(&config), Duration::from_millis(1000));
    assert_eq!(UpdateType::Identification.get_interval(&config), Duration::from_millis(0));
    assert_eq!(UpdateType::Metadata.get_interval(&config), Duration::from_millis(5000));
}

#[test]
fn two_aircraft_each_defer_one_update() {
    // A and B each get a first position at 0 and another at 50 ms, with a
    // 500 ms interval: both first ones admitted, both second ones held.
    let mut manager = RateLimitedStateManager::with_config_at(RateLimitConfig::default(), 0);
    let a = ICAO([0xA0, 0x00, 0x01]);
    let b = ICAO([0xB0, 0x00, 0x02]);
    assert!(matches!(manager.process_update_at(a, UpdateType::Position, "a1", 0), RateLimitResult::Allowed("a1")));
    assert!(matches!(manager.process_update_at(b, UpdateType::Position, "b1", 0), RateLimitResult::Allowed("b1")));
    assert!(matches!(manager.process_update_at(a, UpdateType::Position, "a2", 50), RateLimitResult::RateLimited));
    assert!(matches!(manager.process_update_at(b, UpdateType::Position, "b2", 50), RateLimitResult::RateLimited));
    assert_eq!(manager.total_pending_count(), 2);
    assert_eq!(manager.get_stats().total_pending_updates, 2);
    let out = manager.process_pending_updates_at(500);
    assert_eq!(out, vec![(a, UpdateType::Position, "a2"), (b, UpdateType::Position, "b2")]);
    assert_eq!(manager.total_pending_count(), 0);
}

#[test]
fn identification_twice_within_a_millisecond_both_admitted() {
    let mut manager: RateLimitedStateManager<ICAO, &str> =
        RateLimitedStateManager::with_config_at(RateLimitConfig::default(), 0);
    let a = ICAO([0x40, 0x62, 0x1D]);
    assert!(matches!(manager.process_update_at(a, UpdateType::Identification, "id1", 0), RateLimitResult::Allowed("id1")));
    assert!(matches!(manager.process_update_at(a, UpdateType::Identification, "id2", 1), RateLimitResult::Allowed("id2")));
    assert_eq!(manager.get_stats().updates_rate_limited, 0);
}

#[test]
fn evict_and_track_queries() {
    let mut manager: RateLimitedStateManager<String, u8> = RateLimitedStateManager::with_config_at(RateLimitConfig::default(), 0);
    manager.process_update_at("x".to_string(), UpdateType::Metadata, 1, 0);
    manager.process_update_at("y".to_string(), UpdateType::Metadata, 2, 0);
    manager.process_update_at("y".to_string(), UpdateType::Metadata, 3, 10);
    assert!(manager.is_tracking(&"x".to_string()));
    assert_eq!(manager.pending_count_for_item(&"y".to_string()), 1);
    assert_eq!(manager.pending_count_for_item(&"z".to_string()), 0);
    assert!(manager.evict_item(&"x".to_string()));
    assert!(!manager.evict_item(&"x".to_string()));
    assert!(!manager.is_tracking(&"x".to_string()));
    assert_eq!(manager.item_count(), 1);
    manager.clear_all();
    assert_eq!(manager.item_count(), 0);
    assert_eq!(manager.get_stats().total_updates_received, 0);
}

#[test]
fn cleanup_runs_only_when_due() {
    let mut manager: RateLimitedStateManager<String, u8> = RateLimitedStateManagerBuilder::new()
        .with_eviction_timeout(Duration::from_millis(100))
        .with_cleanup_interval(Duration::from_millis(1000))
        .build();
    manager.cleanup_at(0);
    manager.process_update_at("old".to_string(), UpdateType::Position, 1, 0);
    manager.process_update_at("new".to_string(), UpdateType::Position, 2, 900);
    manager.maybe_cleanup_at(950);
    assert_eq!(manager.item_count(), 2);
    manager.maybe_cleanup_at(1000);
    assert_eq!(manager.item_count(), 1);
    assert!(manager.is_tracking(&"new".to_string()));
}
