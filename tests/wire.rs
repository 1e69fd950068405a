use airjedi::wire::{avr_encode, beast_decode, beast_encode, raw_encode};

fn text(chars: Vec<char>) -> String {
    chars.into_iter().collect()
}

#[test]
fn beast_short_frame_layout() {
    let frame = [0x5D, 0x40, 0x62, 0x1D, 0xAB, 0xCD, 0xEF];
    let out = beast_encode(&frame, 0x0102_0304_0506, 0x7F).unwrap();
    assert_eq!(
        out,
        vec![0x1A, b'2', 0x01, 0x02, 0x03, 0x04, 0x05, 0x06, 0x7F, 0x5D, 0x40, 0x62, 0x1D, 0xAB, 0xCD, 0xEF]
    );
}

#[test]
fn beast_doubles_markers_in_timestamp_signal_and_payload() {
    let frame = [0x8D, 0x1A, 0x62, 0x1D, 0x58, 0xC3, 0x82, 0xD6, 0x90, 0xC8, 0xAC, 0x28, 0x63, 0x1A];
    let out = beast_encode(&frame, 0x1A00_0000_001A, 0x1A).unwrap();
    assert_eq!(out[1], b'3');
    assert_eq!(&out[2..4], &[0x1A, 0x1A]);
    assert_eq!(out.len(), 2 + 6 + 1 + 14 + 5);
    assert_eq!(beast_decode(&out), Some((frame.to_vec(), 0x1A00_0000_001A, 0x1A)));
}

#[test]
fn beast_round_trip_plain() {
    let frame = [0x02, 0xE1, 0x98, 0x38, 0x00, 0x00, 0x00];
    let out = beast_encode(&frame, 123_456_789, 200).unwrap();
    assert_eq!(beast_decode(&out), Some((frame.to_vec(), 123_456_789, 200)));
}

#[test]
fn beast_rejects_bad_input() {
    assert_eq!(beast_encode(&[1, 2, 3], 0, 0), None);
    assert_eq!(beast_decode(&[0x1A, b'2', 0x1A, 0x00]), None);
    assert_eq!(beast_decode(&[0x1B, b'2']), None);
    let mut out = beast_encode(&[1, 2, 3, 4, 5, 6, 7], 9, 9).unwrap();
    out.push(0);
    assert_eq!(beast_decode(&out), None);
}

#[test]
fn raw_hex_line() {
    assert_eq!(text(raw_encode(&[0x8D, 0x40, 0x62, 0x1D, 0x0A])), "*8D40621D0A;\n");
}

#[test]
fn avr_line_with_timestamp() {
    assert_eq!(text(avr_encode(&[0x5D, 0xFF], 0x00AB_CDEF_0123)), "@00ABCDEF01235DFF;\n");
}

#[test]
fn sink_frame_carries_detection_time_in_ticks() {
    use_sink();
}

fn use_sink() {
    let frame = [0x5D, 0x40, 0x62, 0x1D, 0xAB, 0xCD, 0xEF];
    let out = airjedi::wire::beast_for_sink(&frame, 1_000, 9).unwrap();
    assert_eq!(beast_decode(&out), Some((frame.to_vec(), 12_000_000, 9)));
    assert_eq!(airjedi::wire::ticks_12mhz(1), 12_000);
    assert_eq!(airjedi::wire::ticks_12mhz(u64::MAX), ((u64::MAX as u128 * 12_000) % (1u128 << 48)) as u64);
}
