use airjedi::packet::velocity_report;
use adsb_deku::ICAO;
use airjedi::{
    AdsbIdentification, AdsbMessage, AdsbPosition, AircraftRegister, ControlQuery, CprFormat,
    DecoderMetaData, Duration, OutputModuleManager, RateLimitConfig, Tracker,
};

fn even_frame() -> AdsbPosition {
    AdsbPosition { type_code: 11, altitude: Some(38000), odd_flag: CprFormat::Even, lat_cpr: 93000, lon_cpr: 51372 }
}

fn odd_frame() -> AdsbPosition {
    AdsbPosition { type_code: 11, altitude: Some(38000), odd_flag: CprFormat::Odd, lat_cpr: 74158, lon_cpr: 50194 }
}

fn deku_frame(p: &AdsbPosition) -> adsb_deku::Altitude {
    adsb_deku::Altitude {
        tc: p.type_code,
        alt: p.altitude,
        odd_flag: match p.odd_flag {
            CprFormat::Even => adsb_deku::CPRFormat::Even,
            CprFormat::Odd => adsb_deku::CPRFormat::Odd,
        },
        lat_cpr: p.lat_cpr,
        lon_cpr: p.lon_cpr,
        ..Default::default()
    }
}

fn meta() -> DecoderMetaData {
    DecoderMetaData { preamble_index: 0, preamble_correlation_bits: 0, crc_passed: true, timestamp: 0 }
}

#[test]
fn even_then_odd_two_seconds_apart_gives_one_position() {
    let icao = ICAO([0x40, 0x62, 0x1D]);
    let mut register = AircraftRegister::new();
    register.record_position_at(&icao, &even_frame(), 0);
    register.record_position_at(&icao, &odd_frame(), 2_000);
    let rec = register.get(&icao).unwrap();
    assert_eq!(rec.positions.len(), 1);
    let expected = adsb_deku::cpr::get_position((&deku_frame(&even_frame()), &deku_frame(&odd_frame()))).unwrap();
    let pos = rec.positions[0];
    assert_eq!(f64::from_bits(pos.position.latitude_bits), expected.latitude);
    assert_eq!(f64::from_bits(pos.position.longitude_bits), expected.longitude);
    let lat = f64::from_bits(pos.position.latitude_bits);
    let lon = f64::from_bits(pos.position.longitude_bits);
    assert!(lat > 52.25 && lat < 52.27);
    assert!(lon > 3.90 && lon < 3.94);
    assert_eq!(pos.position.altitude, Some(38000));
    assert_eq!(pos.time, 2_000);
    assert_eq!(rec.last_seen, 2_000);
}

#[test]
fn half_frames_eleven_seconds_apart_give_no_position() {
    let icao = ICAO([0x40, 0x62, 0x1D]);
    let mut register = AircraftRegister::new();
    register.record_position_at(&icao, &even_frame(), 0);
    register.record_position_at(&icao, &odd_frame(), 11_000);
    let rec = register.get(&icao).unwrap();
    assert_eq!(rec.positions.len(), 0);
    assert!(rec.last_cpr_even.is_some());
    assert!(rec.last_cpr_odd.is_some());
}

#[test]
fn two_even_frames_give_no_position() {
    let icao = ICAO([0x40, 0x62, 0x1D]);
    let mut register = AircraftRegister::new();
    register.record_position_at(&icao, &even_frame(), 0);
    register.record_position_at(&icao, &even_frame(), 1_000);
    assert_eq!(register.get(&icao).unwrap().positions.len(), 0);
}

#[test]
fn odd_then_even_decodes_with_even_newer() {
    let icao = ICAO([0x40, 0x62, 0x1D]);
    let mut register = AircraftRegister::new();
    register.record_position_at(&icao, &odd_frame(), 500);
    register.record_position_at(&icao, &even_frame(), 1_500);
    let rec = register.get(&icao).unwrap();
    let expected = adsb_deku::cpr::get_position((&deku_frame(&odd_frame()), &deku_frame(&even_frame()))).unwrap();
    assert_eq!(rec.positions.len(), 1);
    assert_eq!(f64::from_bits(rec.positions[0].position.latitude_bits), expected.latitude);
}

#[test]
fn silent_aircraft_pruned_after_a_minute() {
    let icao = ICAO([0x40, 0x62, 0x1D]);
    let mut tracker = Tracker::with_pruning(Duration::from_secs(60));
    let id = AdsbIdentification { type_code: 4, ca: 3, cn: "KLM1023".to_string() };
    tracker.packet_received_at(&icao, AdsbMessage::AircraftIdentification(id), &[0x8D], &meta(), 0);
    assert_eq!(tracker.aircraft_register().len(), 1);
    tracker.tick_at(60_000);
    assert_eq!(tracker.aircraft_register().len(), 1);
    tracker.tick_at(61_000);
    assert_eq!(tracker.aircraft_register().len(), 0);
}

#[test]
fn identification_sets_callsign_and_category() {
    let icao = ICAO([0xAB, 0xCD, 0xEF]);
    let mut tracker = Tracker::new();
    let id = AdsbIdentification { type_code: 4, ca: 5, cn: "EZY12".to_string() };
    let handed = tracker.packet_received_at(&icao, AdsbMessage::AircraftIdentification(id), &[1, 2, 3], &meta(), 42);
    assert_eq!(handed, (0, 0));
    let rec = tracker.aircraft_register().get(&icao).unwrap();
    assert_eq!(rec.callsign.as_deref(), Some("EZY12"));
    assert_eq!(rec.emitter_category, Some(5));
    assert_eq!(rec.last_seen, 42);
    assert!(tracker.get_rate_limit_stats().is_none());
}

#[test]
fn other_messages_leave_register_alone() {
    let icao = ICAO([0xAB, 0xCD, 0xEF]);
    let mut tracker = Tracker::new();
    tracker.packet_received_at(&icao, AdsbMessage::Other, &[1], &meta(), 1);
    assert_eq!(tracker.aircraft_register().len(), 0);
}

#[test]
fn rate_limited_positions_applied_on_tick() {
    let icao = ICAO([0x40, 0x62, 0x1D]);
    let config = RateLimitConfig { position_interval: Duration::from_millis(5_000), ..Default::default() };
    let mut tracker = Tracker::new_with_modules_and_rate_limiting(None, OutputModuleManager::new(), Some(config));
    tracker.packet_received_at(&icao, AdsbMessage::AirbornePosition(even_frame()), &[1], &meta(), 0);
    tracker.packet_received_at(&icao, AdsbMessage::AirbornePosition(odd_frame()), &[1], &meta(), 2_000);
    assert_eq!(tracker.aircraft_register().get(&icao).unwrap().positions.len(), 0);
    assert_eq!(tracker.get_rate_limit_stats().unwrap().updates_rate_limited, 1);
    tracker.tick_at(5_000);
    assert_eq!(tracker.aircraft_register().get(&icao).unwrap().positions.len(), 1);
}

#[test]
fn test_rate_limiting_tracker_integration() {
    let rate_config = RateLimitConfig {
        position_interval: Duration::from_millis(100),
        velocity_interval: Duration::from_millis(200),
        identification_interval: Duration::from_millis(0),
        metadata_interval: Duration::from_millis(1000),
    };
    let tracker = Tracker::with_rate_limiting(rate_config);
    assert_eq!(tracker.get_rate_limit_stats().unwrap().total_updates_received, 0);
    let both = Tracker::with_pruning_and_rate_limiting(Duration::from_secs(5), rate_config);
    assert_eq!(both.aircraft_register().len(), 0);
}

#[test]
fn control_queries() {
    assert_eq!(ControlQuery::parse(None), ControlQuery::Register);
    assert_eq!(ControlQuery::parse(Some("aircraft")), ControlQuery::Register);
    assert_eq!(ControlQuery::parse(Some("stats")), ControlQuery::Stats);
    assert_eq!(
        ControlQuery::parse(Some("bogus")),
        ControlQuery::Unknown("{\"error\": \"Unknown command: bogus\"}".to_string())
    );
}

#[test]
fn half_frames_never_later_than_last_seen() {
    let icao = ICAO([0x40, 0x62, 0x1D]);
    let mut register = AircraftRegister::new();
    register.record_position_at(&icao, &even_frame(), 5_000);
    // The wall clock steps back: last_seen stays at its latest value.
    register.record_position_at(&icao, &odd_frame(), 3_000);
    let rec = register.get(&icao).unwrap();
    assert_eq!(rec.last_seen, 5_000);
    assert!(rec.last_cpr_even.unwrap().time <= rec.last_seen);
    assert!(rec.last_cpr_odd.unwrap().time <= rec.last_seen);
    // The odd half-frame arrived "before" the even one on the stepped-back
    // clock, so the even one is not recent at 3 s and nothing pairs.
    assert_eq!(rec.positions.len(), 0);
}

fn velocity(vrate_negative: bool, vrate_value: u16) -> airjedi::AdsbVelocity {
    airjedi::AdsbVelocity {
        ground_speed: Some(airjedi::GroundSpeedFields { ew_negative: true, ew_vel: 10, ns_negative: false, ns_vel: 100 }),
        vrate_negative,
        vrate_value,
        vrate_source: airjedi::AircraftVerticalRateSource::GeometricAltitude,
    }
}

#[test]
fn velocity_report_follows_the_message_fields() {
    let v = velocity_report(&velocity(true, 14)).unwrap();
    assert_eq!(v.vertical_rate, -832);
    assert_eq!(v.vertical_rate_source, airjedi::AircraftVerticalRateSource::GeometricAltitude);
    let deku = adsb_deku::adsb::AirborneVelocity {
        st: 1,
        nac_v: 0,
        sub_type: adsb_deku::adsb::AirborneVelocitySubType::GroundSpeedDecoding(adsb_deku::adsb::GroundSpeedDecoding {
            ew_sign: adsb_deku::Sign::Negative,
            ew_vel: 10,
            ns_sign: adsb_deku::Sign::Positive,
            ns_vel: 100,
        }),
        vrate_src: adsb_deku::adsb::VerticalRateSource::GeometricAltitude,
        vrate_sign: adsb_deku::Sign::Negative,
        vrate_value: 14,
        reverved: 0,
        gnss_sign: adsb_deku::Sign::Positive,
        gnss_baro_diff: 0,
    };
    let (heading, speed, rate) = deku.calculate().unwrap();
    assert_eq!(f32::from_bits(v.heading_bits), heading);
    assert_eq!(f64::from_bits(v.ground_speed_bits), speed);
    assert_eq!(v.vertical_rate, rate);
    assert_eq!(velocity_report(&velocity(false, 1)).unwrap().vertical_rate, 0);
    assert!(velocity_report(&velocity(false, 0)).is_none());
    assert!(velocity_report(&velocity(true, 513)).is_none());
    let mut airspeed = velocity(false, 5);
    airspeed.ground_speed = None;
    assert!(velocity_report(&airspeed).is_none());
    let mut wide = velocity(false, 5);
    wide.ground_speed = Some(airjedi::GroundSpeedFields { ew_negative: false, ew_vel: 32768, ns_negative: false, ns_vel: 1 });
    assert!(velocity_report(&wide).is_none());
}

#[test]
fn velocity_message_appends_a_velocity() {
    let icao = ICAO([0x40, 0x62, 0x1D]);
    let mut tracker = Tracker::new();
    tracker.packet_received_at(&icao, AdsbMessage::AirborneVelocity(velocity(false, 3)), &[0], &meta(), 7);
    let rec = tracker.aircraft_register().get(&icao).unwrap();
    assert_eq!(rec.velocities.len(), 1);
    assert_eq!(rec.velocities[0].velocity.vertical_rate, 128);
    assert_eq!(rec.velocities[0].time, 7);
}

#[test]
fn rate_limited_tracker_applies_admitted_and_holds_deferred() {
    let icao = ICAO([0x40, 0x62, 0x1D]);
    let mut tracker = Tracker::with_rate_limiting(RateLimitConfig::default());
    let id = AdsbIdentification { type_code: 4, ca: 3, cn: "KLM1".to_string() };
    tracker.packet_received_at(&icao, AdsbMessage::AircraftIdentification(id), &[0], &meta(), 0);
    assert_eq!(tracker.aircraft_register().get(&icao).unwrap().callsign.as_deref(), Some("KLM1"));
    tracker.packet_received_at(&icao, AdsbMessage::AirborneVelocity(velocity(false, 3)), &[0], &meta(), 10);
    tracker.packet_received_at(&icao, AdsbMessage::AirborneVelocity(velocity(false, 5)), &[0], &meta(), 20);
    assert_eq!(tracker.aircraft_register().get(&icao).unwrap().velocities.len(), 1);
    tracker.flush_pending_updates_at(30);
    let rec = tracker.aircraft_register().get(&icao).unwrap();
    assert_eq!(rec.velocities.len(), 2);
    assert_eq!(rec.velocities[1].velocity.vertical_rate, 256);
}
