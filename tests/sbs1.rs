use adsb_deku::ICAO;
use airjedi::sbs1::{hex_ident, parse_fixed, parse_signed, sbs1_messages_for};
use airjedi::{
    AdsbIdentification, AdsbMessage, AdsbPosition, CprFormat, DecoderMetaData, Sbs1Message, Tracker,
    WebSocketMessage,
};

#[test]
fn test_sbs1_message_encoding() {
    let message = Sbs1Message {
        message_type: 3,
        transmission_type: 3,
        session_id: 1,
        aircraft_id: 1,
        hex_ident: "ABC123".to_string(),
        flight_id: 1,
        date_generated: "2024/01/01".to_string(),
        time_generated: "12:00:00.000".to_string(),
        date_logged: "2024/01/01".to_string(),
        time_logged: "12:00:00.000".to_string(),
        callsign: Some("TEST123".to_string()),
        altitude: Some(35000),
        ground_speed: Some(4505),
        track: Some(2700),
        latitude: Some(40_123_456),
        longitude: Some(-74_654_321),
        vertical_rate: Some(-800),
        squawk: Some(1200),
        alert: false,
        emergency: false,
        spi: false,
        is_on_ground: false,
    };

    let encoded = message.encode();
    assert!(encoded.starts_with("MSG,3,1,1,ABC123,1,2024/01/01,12:00:00.000,2024/01/01,12:00:00.000,TEST123,35000,450.5,270.0,40.123456,-74.654321,-800,1200,0,0,0,0"));
    assert!(encoded.ends_with("\r\n"));
}

#[test]
fn test_sbs1_identification_constructor() {
    let now = 1_700_000_000_000;
    let message = Sbs1Message::identification("ABC123", "TEST123", now);

    assert_eq!(message.hex_ident, "ABC123");
    assert_eq!(message.transmission_type, 1);
    assert_eq!(message.callsign, Some("TEST123".to_string()));
}

#[test]
fn test_sbs1_airborne_position_constructor() {
    let now = 1_700_000_000_000;
    let message = Sbs1Message::airborne_position("ABC123", 40_123_456, -74_654_321, Some(35000), now);

    assert_eq!(message.hex_ident, "ABC123");
    assert_eq!(message.transmission_type, 3);
    assert_eq!(message.latitude, Some(40_123_456));
    assert_eq!(message.longitude, Some(-74_654_321));
    assert_eq!(message.altitude, Some(35000));
}

#[test]
fn test_sbs1_airborne_velocity_constructor() {
    let now = 1_700_000_000_000;
    let message = Sbs1Message::airborne_velocity("ABC123", 4505, 2700, -800, now);

    assert_eq!(message.hex_ident, "ABC123");
    assert_eq!(message.transmission_type, 4);
    assert_eq!(message.ground_speed, Some(4505));
    assert_eq!(message.track, Some(2700));
    assert_eq!(message.vertical_rate, Some(-800));
}

#[test]
fn test_websocket_message_from_sbs1() {
    let sbs1_msg = Sbs1Message::identification("A12345", "TEST123", 1_700_000_000_000);

    let ws_message = WebSocketMessage::from_sbs1_message(&sbs1_msg);
    assert!(!ws_message.sbs1_data.is_empty());
    assert!(ws_message.sbs1_data.starts_with("MSG,1,"));
    assert!(ws_message.sbs1_data.contains("A12345"));
    assert!(ws_message.sbs1_data.contains("TEST123"));
}

#[test]
fn test_websocket_message_format() {
    let sbs1_msg = Sbs1Message::airborne_position("ABCDEF", 37_500_000, -122_300_000, Some(35000), 1_700_000_000_000);

    let ws_message = WebSocketMessage::from_sbs1_message(&sbs1_msg);
    assert!(ws_message.sbs1_data.starts_with("MSG,3,"));
    assert!(ws_message.sbs1_data.contains("ABCDEF"));
    assert!(ws_message.sbs1_data.contains("37.5"));
    assert!(ws_message.sbs1_data.contains("-122.3"));
}

#[test]
fn date_time_fields_in_utc() {
    // 2023-11-14 22:13:20 UTC; milliseconds are not carried.
    let m = Sbs1Message::squawk_change("4CA2D6", 7, 1_700_000_000_999);
    assert_eq!(m.date_generated, "2023/11/14");
    assert_eq!(m.time_generated, "22:13:20.000");
    assert_eq!(
        m.encode(),
        "MSG,6,1,1,4CA2D6,1,2023/11/14,22:13:20.000,2023/11/14,22:13:20.000,,,,,,,,0007,0,0,0,0\r\n"
    );
}

#[test]
fn small_negative_and_surface_values() {
    let m = Sbs1Message::surface_position("000001", -500_000, 5, None, Some(3), Some(0), 0);
    let line = m.encode();
    assert!(line.contains(",0.3,0.0,-0.500000,0.000005,"));
    assert!(line.ends_with(",0,0,0,1\r\n"));
    let alt = Sbs1Message::surveillance_altitude("000001", 1200, 0);
    assert!(alt.encode().contains(",,1200,,"));
    assert_eq!(Sbs1Message::identification("X", "  KLM12 ", 0).callsign.as_deref(), Some("KLM12"));
}

#[test]
fn hex_ident_is_upper_case() {
    assert_eq!(hex_ident(&ICAO([0x4c, 0xa2, 0x0d])), "4CA20D");
}

#[test]
fn state_messages_for_a_record() {
    let icao = ICAO([0x40, 0x62, 0x1D]);
    let mut tracker = Tracker::new();
    let meta = DecoderMetaData { preamble_index: 0, preamble_correlation_bits: 0, crc_passed: true, timestamp: 0 };
    let id = AdsbIdentification { type_code: 4, ca: 1, cn: "TEST123".to_string() };
    tracker.packet_received_at(&icao, AdsbMessage::AircraftIdentification(id), &[0], &meta, 5_000);
    let even = AdsbPosition { type_code: 11, altitude: Some(38000), odd_flag: CprFormat::Even, lat_cpr: 93000, lon_cpr: 51372 };
    tracker.packet_received_at(&icao, AdsbMessage::AirbornePosition(even), &[0], &meta, 6_000);
    let record = tracker.aircraft_register().get(&icao).unwrap();
    let msgs = sbs1_messages_for(&icao, record, Some((52_257_200, 3_919_400)), None);
    assert_eq!(msgs.len(), 1);
    assert_eq!(msgs[0].transmission_type, 1);
    assert_eq!(msgs[0].hex_ident, "40621D");
}

#[test]
fn encoded_fields_parse_back() {
    let mut message = Sbs1Message::airborne_position("ABC123", 40_123_456, -74_654_321, Some(35000), 0);
    message.ground_speed = Some(4505);
    message.track = Some(-7);
    message.vertical_rate = Some(-800);
    message.callsign = Some("TEST123".to_string());
    let line = message.encode();
    let fields: Vec<&str> = line.trim_end().split(',').collect();
    let chars = |s: &str| s.chars().collect::<Vec<char>>();
    assert_eq!(fields[10], "TEST123");
    assert_eq!(parse_signed(&chars(fields[11])), Some(35000));
    assert_eq!(parse_fixed(&chars(fields[12]), 1), Some(4505));
    assert_eq!(parse_fixed(&chars(fields[13]), 1), Some(-7));
    assert_eq!(parse_fixed(&chars(fields[14]), 6), Some(40_123_456));
    assert_eq!(parse_fixed(&chars(fields[15]), 6), Some(-74_654_321));
    assert_eq!(parse_signed(&chars(fields[16])), Some(-800));
    assert_eq!(parse_fixed(&chars("12.3"), 2), None);
    assert_eq!(parse_signed(&chars("-")), None);
    assert_eq!(parse_signed(&chars("4x")), None);
}
