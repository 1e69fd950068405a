//! SBS-1 (BaseStation) CSV messages, as sent on port 30003 and over
//! WebSocket. Speeds and headings are held in tenths, latitudes and
//! longitudes in millionths of a degree: the precision the lines carry.
use vstd::arithmetic::div_mod::{lemma_breakdown, lemma_fundamental_div_mod, lemma_mod_pos_bound};
use vstd::prelude::*;

use crate::adsb::AdsbIcao;
use crate::metrics::{decimal, digit_char, push_decimal};
use crate::tracker::AircraftRecord;
use crate::wire::upper_hex;

verus! {

/// Date of a Unix time in seconds, UTC, as `YYYY/MM/DD`.
pub uninterp spec fn utc_date_text(secs: int) -> Seq<char>;

/// Time of day of a Unix time in seconds, UTC, as `HH:MM:SS.mmm`.
pub uninterp spec fn utc_time_text(secs: int) -> Seq<char>;

/// A string without its leading and trailing Unicode white space.
pub uninterp spec fn trimmed(s: Seq<char>) -> Seq<char>;

/// Relies on chrono's `DateTime::from_timestamp` and its `%Y/%m/%d` format:
/// the UTC date of a Unix time, a function of the time alone (the epoch's
/// for a time out of chrono's range), written with digits, a sign and `/`.
#[verifier::external_body]
fn utc_date(secs: i64) -> (r: String)
    ensures
        r@ == utc_date_text(secs as int),
        comma_free(r@),
{
    chrono::DateTime::from_timestamp(secs, 0).unwrap_or_default().format("%Y/%m/%d").to_string()
}

/// Relies on chrono's `DateTime::from_timestamp` and its `%H:%M:%S.%3f`
/// format: the UTC time of day of a Unix time, a function of the time alone,
/// written with digits, `:` and `.`.
#[verifier::external_body]
fn utc_time(secs: i64) -> (r: String)
    ensures
        r@ == utc_time_text(secs as int),
        comma_free(r@),
{
    chrono::DateTime::from_timestamp(secs, 0).unwrap_or_default().format("%H:%M:%S.%3f").to_string()
}

/// Relies on str::trim: the string without leading and trailing white
/// space, a function of the characters alone.
#[verifier::external_body]
fn trim_text(s: &str) -> (r: String)
    ensures
        r@ == trimmed(s@),
{
    s.trim().to_string()
}

/// One SBS-1 message.
#[derive(Clone, Debug, PartialEq, Eq)]
pub struct Sbs1Message {
    pub message_type: u8,
    pub transmission_type: u8,
    pub session_id: u32,
    pub aircraft_id: u32,
    pub hex_ident: String,
    pub flight_id: u32,
    pub date_generated: String,
    pub time_generated: String,
    pub date_logged: String,
    pub time_logged: String,
    pub callsign: Option<String>,
    /// Feet.
    pub altitude: Option<i32>,
    /// Tenths of a knot.
    pub ground_speed: Option<i64>,
    /// Tenths of a degree.
    pub track: Option<i64>,
    /// Millionths of a degree.
    pub latitude: Option<i64>,
    /// Millionths of a degree.
    pub longitude: Option<i64>,
    /// Feet per minute.
    pub vertical_rate: Option<i16>,
    pub squawk: Option<u16>,
    pub alert: bool,
    pub emergency: bool,
    pub spi: bool,
    pub is_on_ground: bool,
}

pub open spec fn pow10(n: nat) -> nat
    decreases n,
{
    if n == 0 {
        1
    } else {
        10 * pow10((n - 1) as nat)
    }
}

/// The last `width` decimal digits of `n`, zeros in front.
pub open spec fn digits(n: nat, width: nat) -> Seq<char>
    decreases width,
{
    if width == 0 {
        seq![]
    } else {
        digits(n / 10, (width - 1) as nat).push(digit_char(n % 10))
    }
}

/// `n` in decimal, with zeros in front up to `width` digits.
pub open spec fn padded(n: nat, width: nat) -> Seq<char> {
    if n < pow10(width) {
        digits(n, width)
    } else {
        decimal(n)
    }
}

/// A signed integer in decimal.
pub open spec fn signed_decimal(v: int) -> Seq<char> {
    if v < 0 {
        seq!['-'] + decimal((-v) as nat)
    } else {
        decimal(v as nat)
    }
}

/// `v` units of `10^-places`, written with `places` decimals.
pub open spec fn fixed_point(v: int, places: nat) -> Seq<char> {
    let a: nat = if v < 0 { (-v) as nat } else { v as nat };
    (if v < 0 { seq!['-'] } else { seq![] }) + decimal(a / pow10(places)) + seq!['.'] + digits(a % pow10(places), places)
}

/// An optional callsign field.
pub open spec fn opt_string(v: Option<String>) -> Seq<char> {
    match v {
        Some(c) => c@,
        None => seq![],
    }
}

/// An optional signed integer field.
pub open spec fn opt_signed(v: Option<int>) -> Seq<char> {
    match v {
        Some(x) => signed_decimal(x),
        None => seq![],
    }
}

/// An optional fixed-point field with `places` decimals.
pub open spec fn opt_fixed(v: Option<i64>, places: nat) -> Seq<char> {
    match v {
        Some(x) => fixed_point(x as int, places),
        None => seq![],
    }
}

/// An optional squawk field, four digits at least.
pub open spec fn opt_squawk(v: Option<u16>) -> Seq<char> {
    match v {
        Some(q) => padded(q as nat, 4),
        None => seq![],
    }
}

pub open spec fn flag(b: bool) -> Seq<char> {
    if b {
        seq!['1']
    } else {
        seq!['0']
    }
}

pub open spec fn widen32(v: Option<i32>) -> Option<int> {
    match v {
        Some(x) => Some(x as int),
        None => None,
    }
}

pub open spec fn widen16(v: Option<i16>) -> Option<int> {
    match v {
        Some(x) => Some(x as int),
        None => None,
    }
}

impl Sbs1Message {
    /// The CSV line of this message, CRLF included.
    pub open spec fn line(&self) -> Seq<char> {
        "MSG,"@ + decimal(self.transmission_type as nat) + ","@ + decimal(self.session_id as nat) + ","@
            + decimal(self.aircraft_id as nat) + ","@ + self.hex_ident@ + ","@ + decimal(self.flight_id as nat)
            + ","@ + self.date_generated@ + ","@ + self.time_generated@ + ","@ + self.date_logged@ + ","@
            + self.time_logged@ + ","@ + opt_string(self.callsign) + ","@ + opt_signed(widen32(self.altitude))
            + ","@ + opt_fixed(self.ground_speed, 1) + ","@ + opt_fixed(self.track, 1) + ","@
            + opt_fixed(self.latitude, 6) + ","@ + opt_fixed(self.longitude, 6) + ","@
            + opt_signed(widen16(self.vertical_rate)) + ","@ + opt_squawk(self.squawk) + ","@ + flag(self.alert)
            + ","@ + flag(self.emergency) + ","@ + flag(self.spi) + ","@ + flag(self.is_on_ground) + "\r\n"@
    }

    /// The fields that do not depend on the message type.
    pub open spec fn stamped(&self, icao: Seq<char>, ms: u64) -> bool {
        &&& self.message_type == self.transmission_type
        &&& self.session_id == 1
        &&& self.aircraft_id == 1
        &&& self.flight_id == 1
        &&& self.hex_ident@ == icao
        &&& self.date_generated@ == utc_date_text((ms / 1000) as int)
        &&& self.date_logged@ == utc_date_text((ms / 1000) as int)
        &&& self.time_generated@ == utc_time_text((ms / 1000) as int)
        &&& self.time_logged@ == utc_time_text((ms / 1000) as int)
        &&& comma_free(self.date_generated@) && comma_free(self.date_logged@)
        &&& comma_free(self.time_generated@) && comma_free(self.time_logged@)
        &&& !self.alert && !self.emergency && !self.spi
    }

    /// This is the MSG,1 message that `identification` builds.
    pub open spec fn is_identification(&self, icao: Seq<char>, callsign: Seq<char>, ms: u64) -> bool {
        &&& self.stamped(icao, ms)
        &&& self.message_type == 1
        &&& self.callsign matches Some(c) && c@ == trimmed(callsign)
        &&& self.altitude is None && self.ground_speed is None && self.track is None
        &&& self.latitude is None && self.longitude is None && self.vertical_rate is None && self.squawk is None
        &&& !self.is_on_ground
    }

    /// This is the MSG,3 message that `airborne_position` builds.
    pub open spec fn is_airborne_position(
        &self,
        icao: Seq<char>,
        latitude: i64,
        longitude: i64,
        altitude: Option<u16>,
        ms: u64,
    ) -> bool {
        &&& self.stamped(icao, ms)
        &&& self.message_type == 3
        &&& self.latitude == Some(latitude) && self.longitude == Some(longitude)
        &&& self.altitude == match altitude {
            Some(a) => Some(a as i32),
            None => None::<i32>,
        }
        &&& self.callsign is None && self.ground_speed is None && self.track is None
        &&& self.vertical_rate is None && self.squawk is None
        &&& !self.is_on_ground
    }

    /// This is the MSG,4 message that `airborne_velocity` builds.
    pub open spec fn is_airborne_velocity(
        &self,
        icao: Seq<char>,
        ground_speed: i64,
        track: i64,
        vertical_rate: i16,
        ms: u64,
    ) -> bool {
        &&& self.stamped(icao, ms)
        &&& self.message_type == 4
        &&& self.ground_speed == Some(ground_speed) && self.track == Some(track)
        &&& self.vertical_rate == Some(vertical_rate)
        &&& self.callsign is None && self.altitude is None && self.latitude is None && self.longitude is None
        &&& self.squawk is None
        &&& !self.is_on_ground
    }

    fn blank(message_type: u8, icao: &str, timestamp: u64) -> (r: Sbs1Message)
        ensures
            r.stamped(icao@, timestamp),
            r.message_type == message_type,
            r.callsign is None && r.altitude is None && r.ground_speed is None && r.track is None,
            r.latitude is None && r.longitude is None && r.vertical_rate is None && r.squawk is None,
            !r.is_on_ground,
    {
        let secs = (timestamp / 1000) as i64;
        Sbs1Message {
            message_type,
            transmission_type: message_type,
            session_id: 1,
            aircraft_id: 1,
            hex_ident: String::from_str(icao),
            flight_id: 1,
            date_generated: utc_date(secs),
            time_generated: utc_time(secs),
            date_logged: utc_date(secs),
            time_logged: utc_time(secs),
            callsign: None,
            altitude: None,
            ground_speed: None,
            track: None,
            latitude: None,
            longitude: None,
            vertical_rate: None,
            squawk: None,
            alert: false,
            emergency: false,
            spi: false,
            is_on_ground: false,
        }
    }

    /// MSG,1: identification, with the callsign trimmed. `timestamp` is in
    /// milliseconds since the Unix epoch.
    pub fn identification(icao: &str, callsign: &str, timestamp: u64) -> (r: Sbs1Message)
        ensures
            r.is_identification(icao@, callsign@, timestamp),
            r.stamped(icao@, timestamp),
            r.message_type == 1,
            r.callsign matches Some(c) && c@ == trimmed(callsign@),
            r.altitude is None && r.ground_speed is None && r.track is None,
            r.latitude is None && r.longitude is None && r.vertical_rate is None && r.squawk is None,
            !r.is_on_ground,
    {
        let mut m = Sbs1Message::blank(1, icao, timestamp);
        m.callsign = Some(trim_text(callsign));
        m
    }

    /// MSG,2: surface position.
    pub fn surface_position(
        icao: &str,
        latitude: i64,
        longitude: i64,
        altitude: Option<u16>,
        ground_speed: Option<i64>,
        track: Option<i64>,
        timestamp: u64,
    ) -> (r: Sbs1Message)
        ensures
            r.stamped(icao@, timestamp),
            r.message_type == 2,
            r.latitude == Some(latitude) && r.longitude == Some(longitude),
            r.altitude == match altitude {
                Some(a) => Some(a as i32),
                None => None::<i32>,
            },
            r.ground_speed == ground_speed && r.track == track,
            r.callsign is None && r.vertical_rate is None && r.squawk is None,
            r.is_on_ground,
    {
        let mut m = Sbs1Message::blank(2, icao, timestamp);
        m.latitude = Some(latitude);
        m.longitude = Some(longitude);
        m.altitude = match altitude {
            Some(a) => Some(a as i32),
            None => None,
        };
        m.ground_speed = ground_speed;
        m.track = track;
        m.is_on_ground = true;
        m
    }

    /// MSG,3: airborne position.
    pub fn airborne_position(
        icao: &str,
        latitude: i64,
        longitude: i64,
        altitude: Option<u16>,
        timestamp: u64,
    ) -> (r: Sbs1Message)
        ensures
            r.is_airborne_position(icao@, latitude, longitude, altitude, timestamp),
            r.stamped(icao@, timestamp),
            r.message_type == 3,
            r.latitude == Some(latitude) && r.longitude == Some(longitude),
            r.altitude == match altitude {
                Some(a) => Some(a as i32),
                None => None::<i32>,
            },
            r.callsign is None && r.ground_speed is None && r.track is None,
            r.vertical_rate is None && r.squawk is None,
            !r.is_on_ground,
    {
        let mut m = Sbs1Message::blank(3, icao, timestamp);
        m.latitude = Some(latitude);
        m.longitude = Some(longitude);
        m.altitude = match altitude {
            Some(a) => Some(a as i32),
            None => None,
        };
        m
    }

    /// MSG,4: airborne velocity.
    pub fn airborne_velocity(
        icao: &str,
        ground_speed: i64,
        track: i64,
        vertical_rate: i16,
        timestamp: u64,
    ) -> (r: Sbs1Message)
        ensures
            r.is_airborne_velocity(icao@, ground_speed, track, vertical_rate, timestamp),
            r.stamped(icao@, timestamp),
            r.message_type == 4,
            r.ground_speed == Some(ground_speed) && r.track == Some(track),
            r.vertical_rate == Some(vertical_rate),
            r.callsign is None && r.altitude is None && r.latitude is None && r.longitude is None,
            r.squawk is None,
            !r.is_on_ground,
    {
        let mut m = Sbs1Message::blank(4, icao, timestamp);
        m.ground_speed = Some(ground_speed);
        m.track = Some(track);
        m.vertical_rate = Some(vertical_rate);
        m
    }

    /// MSG,5: surveillance altitude.
    pub fn surveillance_altitude(icao: &str, altitude: u16, timestamp: u64) -> (r: Sbs1Message)
        ensures
            r.stamped(icao@, timestamp),
            r.message_type == 5,
            r.altitude == Some(altitude as i32),
            r.callsign is None && r.ground_speed is None && r.track is None,
            r.latitude is None && r.longitude is None && r.vertical_rate is None && r.squawk is None,
            !r.is_on_ground,
    {
        let mut m = Sbs1Message::blank(5, icao, timestamp);
        m.altitude = Some(altitude as i32);
        m
    }

    /// MSG,6: surveillance identity (squawk).
    pub fn squawk_change(icao: &str, squawk: u16, timestamp: u64) -> (r: Sbs1Message)
        ensures
            r.stamped(icao@, timestamp),
            r.message_type == 6,
            r.squawk == Some(squawk),
            r.callsign is None && r.altitude is None && r.ground_speed is None && r.track is None,
            r.latitude is None && r.longitude is None && r.vertical_rate is None,
            !r.is_on_ground,
    {
        let mut m = Sbs1Message::blank(6, icao, timestamp);
        m.squawk = Some(squawk);
        m
    }

    /// The CSV line of this message, CRLF included.
    pub fn encode(&self) -> (r: String)
        ensures
            r@ == self.line(),
    {
        let mut s = String::from_str("MSG,");
        push_decimal(&mut s, self.transmission_type as u128);
        s.append(",");
        push_decimal(&mut s, self.session_id as u128);
        s.append(",");
        push_decimal(&mut s, self.aircraft_id as u128);
        s.append(",");
        s.append(self.hex_ident.as_str());
        s.append(",");
        push_decimal(&mut s, self.flight_id as u128);
        s.append(",");
        s.append(self.date_generated.as_str());
        s.append(",");
        s.append(self.time_generated.as_str());
        s.append(",");
        s.append(self.date_logged.as_str());
        s.append(",");
        s.append(self.time_logged.as_str());
        s.append(",");
        push_opt_string(&mut s, &self.callsign);
        s.append(",");
        push_opt_signed(&mut s, match self.altitude { Some(a) => Some(a as i64), None => None });
        s.append(",");
        push_opt_fixed(&mut s, self.ground_speed, 1);
        s.append(",");
        push_opt_fixed(&mut s, self.track, 1);
        s.append(",");
        push_opt_fixed(&mut s, self.latitude, 6);
        s.append(",");
        push_opt_fixed(&mut s, self.longitude, 6);
        s.append(",");
        push_opt_signed(&mut s, match self.vertical_rate { Some(v) => Some(v as i64), None => None });
        s.append(",");
        push_opt_squawk(&mut s, self.squawk);
        s.append(",");
        push_flag(&mut s, self.alert);
        s.append(",");
        push_flag(&mut s, self.emergency);
        s.append(",");
        push_flag(&mut s, self.spi);
        s.append(",");
        push_flag(&mut s, self.is_on_ground);
        s.append("\r\n");
        s
    }
}

fn push_opt_string(s: &mut String, v: &Option<String>)
    ensures
        final(s)@ == old(s)@ + opt_string(*v),
{
    match v {
        Some(c) => s.append(c.as_str()),
        None => {
            assert(old(s)@ + opt_string(*v) =~= old(s)@);
        },
    }
}

fn push_opt_signed(s: &mut String, v: Option<i64>)
    ensures
        final(s)@ == old(s)@ + opt_signed(match v {
            Some(x) => Some(x as int),
            None => None,
        }),
{
    match v {
        Some(x) => push_signed(s, x),
        None => {
            assert(old(s)@ + Seq::<char>::empty() =~= old(s)@);
        },
    }
}

fn push_opt_fixed(s: &mut String, v: Option<i64>, places: u32)
    requires
        places <= 6,
    ensures
        final(s)@ == old(s)@ + opt_fixed(v, places as nat),
{
    match v {
        Some(x) => push_fixed(s, x, places),
        None => {
            assert(old(s)@ + opt_fixed(v, places as nat) =~= old(s)@);
        },
    }
}

fn push_opt_squawk(s: &mut String, v: Option<u16>)
    ensures
        final(s)@ == old(s)@ + opt_squawk(v),
{
    match v {
        Some(q) => push_padded(s, q as u128, 4),
        None => {
            assert(old(s)@ + opt_squawk(v) =~= old(s)@);
        },
    }
}

fn push_flag(s: &mut String, b: bool)
    ensures
        final(s)@ == old(s)@ + flag(b),
{
    proof {
        reveal_strlit("1");
        reveal_strlit("0");
    }
    s.append(if b { "1" } else { "0" });
}

fn pow10_exec(n: u32) -> (r: u128)
    requires
        n <= 6,
    ensures
        r == pow10(n as nat),
        r > 0,
{
    proof {
        assert(pow10(0) == 1);
        assert(pow10(1) == 10);
        assert(pow10(2) == 100);
        assert(pow10(3) == 1000);
        assert(pow10(4) == 10000);
        assert(pow10(5) == 100000);
        assert(pow10(6) == 1000000);
    }
    if n == 0 {
        1
    } else if n == 1 {
        10
    } else if n == 2 {
        100
    } else if n == 3 {
        1000
    } else if n == 4 {
        10000
    } else if n == 5 {
        100000
    } else {
        1000000
    }
}

/// Appends the last `width` digits of `n`, zeros in front.
fn push_digits(s: &mut String, n: u128, width: u32)
    ensures
        final(s)@ == old(s)@ + digits(n as nat, width as nat),
    decreases width,
{
    if width > 0 {
        push_digits(s, n / 10, width - 1);
        let d = n % 10;
        s.append(
            if d == 0 {
                "0"
            } else if d == 1 {
                "1"
            } else if d == 2 {
                "2"
            } else if d == 3 {
                "3"
            } else if d == 4 {
                "4"
            } else if d == 5 {
                "5"
            } else if d == 6 {
                "6"
            } else if d == 7 {
                "7"
            } else if d == 8 {
                "8"
            } else {
                "9"
            },
        );
        proof {
            reveal_strlit("0");
            reveal_strlit("1");
            reveal_strlit("2");
            reveal_strlit("3");
            reveal_strlit("4");
            reveal_strlit("5");
            reveal_strlit("6");
            reveal_strlit("7");
            reveal_strlit("8");
            reveal_strlit("9");
        }
    }
}

fn push_padded(s: &mut String, n: u128, width: u32)
    requires
        width <= 6,
    ensures
        final(s)@ == old(s)@ + padded(n as nat, width as nat),
{
    if n < pow10_exec(width) {
        push_digits(s, n, width);
    } else {
        push_decimal(s, n);
    }
}

fn push_signed(s: &mut String, v: i64)
    ensures
        final(s)@ == old(s)@ + signed_decimal(v as int),
{
    if v < 0 {
        s.append("-");
        proof {
            reveal_strlit("-");
        }
        let a: u128 = (0i128 - v as i128) as u128;
        push_decimal(s, a);
        assert(final(s)@ =~= old(s)@ + signed_decimal(v as int));
    } else {
        push_decimal(s, v as u128);
    }
}

fn push_fixed(s: &mut String, v: i64, places: u32)
    requires
        places <= 6,
    ensures
        final(s)@ == old(s)@ + fixed_point(v as int, places as nat),
{
    let a: u128 = if v < 0 { (0i128 - v as i128) as u128 } else { v as u128 };
    let p = pow10_exec(places);
    proof {
        reveal_strlit("-");
        reveal_strlit(".");
    }
    if v < 0 {
        s.append("-");
    }
    let ghost mid = s@;
    push_decimal(s, a / p);
    s.append(".");
    push_digits(s, a % p, places);
    assert(final(s)@ =~= old(s)@ + fixed_point(v as int, places as nat));
}

/// The hex ident of an address: six upper-case hex digits.
pub fn hex_ident(icao: &AdsbIcao) -> (r: String)
    ensures
        r@ == upper_hex(icao.0@),
{
    let mut s = String::new();
    let mut i: usize = 0;
    while i < 3
        invariant
            i <= 3,
            s@ == upper_hex(icao.0@.take(i as int)),
        decreases 3 - i,
    {
        let b = icao.0[i];
        push_hex_byte(&mut s, b);
        proof {
            assert(icao.0@.take(i as int + 1).drop_last() =~= icao.0@.take(i as int));
            assert(icao.0@.take(i as int + 1).last() == b);
        }
        i = i + 1;
    }
    assert(icao.0@.take(3) =~= icao.0@);
    s
}

fn hex_str(d: u8) -> (r: &'static str)
    requires
        d < 16,
    ensures
        r@ == seq![crate::wire::hex_char(d as nat)],
{
    proof {
        reveal_strlit("0");
        reveal_strlit("1");
        reveal_strlit("2");
        reveal_strlit("3");
        reveal_strlit("4");
        reveal_strlit("5");
        reveal_strlit("6");
        reveal_strlit("7");
        reveal_strlit("8");
        reveal_strlit("9");
        reveal_strlit("A");
        reveal_strlit("B");
        reveal_strlit("C");
        reveal_strlit("D");
        reveal_strlit("E");
        reveal_strlit("F");
    }
    if d == 0 { "0" } else if d == 1 { "1" } else if d == 2 { "2" } else if d == 3 { "3" } else if d == 4 { "4" } else if d
        == 5 { "5" } else if d == 6 { "6" } else if d == 7 { "7" } else if d == 8 { "8" } else if d == 9 { "9" } else if d
        == 10 { "A" } else if d == 11 { "B" } else if d == 12 { "C" } else if d == 13 { "D" } else if d == 14 { "E" } else {
        "F"
    }
}

fn push_hex_byte(s: &mut String, b: u8)
    ensures
        final(s)@ == old(s)@ + seq![crate::wire::hex_char((b / 16) as nat), crate::wire::hex_char((b % 16) as nat)],
{
    s.append(hex_str(b / 16));
    s.append(hex_str(b % 16));
    assert(final(s)@ =~= old(s)@ + seq![crate::wire::hex_char((b / 16) as nat), crate::wire::hex_char((b % 16) as nat)]);
}

/// A message as a WebSocket text frame carries it.
#[derive(Clone, Debug)]
pub struct WebSocketMessage {
    pub sbs1_data: String,
}

impl WebSocketMessage {
    pub fn from_sbs1_message(sbs1_msg: &Sbs1Message) -> (r: WebSocketMessage)
        ensures
            r.sbs1_data@ == sbs1_msg.line(),
    {
        WebSocketMessage { sbs1_data: sbs1_msg.encode() }
    }
}

/// The messages that a state sink sends for an updated record: MSG,1 when
/// the callsign is known, MSG,3 for the latest position and MSG,4 for the
/// latest velocity. The caller gives the latest position in millionths of a
/// degree and the latest velocity (ground speed, track) in tenths, as
/// present; the rest comes from the record.
pub fn sbs1_messages_for(
    icao: &AdsbIcao,
    record: &AircraftRecord,
    latest_position: Option<(i64, i64)>,
    latest_velocity: Option<(i64, i64)>,
) -> (r: Vec<Sbs1Message>)
    ensures
        r@.len() == (if record.callsign is Some { 1nat } else { 0 }) + (if record.positions@.len() > 0
            && latest_position is Some { 1nat } else { 0 }) + (if record.velocities@.len() > 0
            && latest_velocity is Some { 1nat } else { 0 }),
        forall|i: int| 0 <= i < r@.len() ==> (#[trigger] r@[i]).hex_ident@ == upper_hex(icao.0@),
        record.callsign matches Some(c) ==> r@[0].is_identification(upper_hex(icao.0@), c@, record.last_seen),
        record.positions@.len() > 0 && latest_position is Some ==> {
            let p = record.positions@.last();
            r@[if record.callsign is Some { 1int } else { 0int }].is_airborne_position(
                upper_hex(icao.0@),
                latest_position.unwrap().0,
                latest_position.unwrap().1,
                p.position.altitude,
                p.time,
            )
        },
        record.velocities@.len() > 0 && latest_velocity is Some ==> {
            let v = record.velocities@.last();
            r@[r@.len() - 1].is_airborne_velocity(
                upper_hex(icao.0@),
                latest_velocity.unwrap().0,
                latest_velocity.unwrap().1,
                v.velocity.vertical_rate,
                v.time,
            )
        },
{
    let ident = hex_ident(icao);
    let mut out: Vec<Sbs1Message> = Vec::new();
    if let Some(callsign) = &record.callsign {
        out.push(Sbs1Message::identification(ident.as_str(), callsign.as_str(), record.last_seen));
    }
    if record.positions.len() > 0 {
        if let Some((lat, lon)) = latest_position {
            let p = record.positions[record.positions.len() - 1];
            out.push(Sbs1Message::airborne_position(ident.as_str(), lat, lon, p.position.altitude, p.time));
        }
    }
    if record.velocities.len() > 0 {
        if let Some((speed, track)) = latest_velocity {
            let v = record.velocities[record.velocities.len() - 1];
            out.push(
                Sbs1Message::airborne_velocity(ident.as_str(), speed, track, v.velocity.vertical_rate, v.time),
            );
        }
    }
    out
}


/// Whether `c` is a decimal digit.
pub open spec fn is_digit(c: char) -> bool {
    c == '0' || c == '1' || c == '2' || c == '3' || c == '4' || c == '5' || c == '6' || c == '7' || c == '8' || c == '9'
}

/// The value of the digit `c`.
pub open spec fn digit_value(c: char) -> nat {
    if c == '1' {
        1
    } else if c == '2' {
        2
    } else if c == '3' {
        3
    } else if c == '4' {
        4
    } else if c == '5' {
        5
    } else if c == '6' {
        6
    } else if c == '7' {
        7
    } else if c == '8' {
        8
    } else if c == '9' {
        9
    } else {
        0
    }
}

pub open spec fn all_digits(s: Seq<char>) -> bool {
    forall|i: int| 0 <= i < s.len() ==> is_digit(#[trigger] s[i])
}

/// The number that the digits `s` write.
pub open spec fn digits_value(s: Seq<char>) -> nat
    decreases s.len(),
{
    if s.len() == 0 {
        0
    } else {
        digits_value(s.drop_last()) * 10 + digit_value(s.last())
    }
}

/// The value of a signed decimal text: an optional `-` and at least one
/// digit.
pub open spec fn signed_parse(s: Seq<char>) -> Option<int> {
    let neg = s.len() > 0 && s[0] == '-';
    let body = if neg { s.skip(1) } else { s };
    if body.len() > 0 && all_digits(body) {
        Some(if neg { -(digits_value(body) as int) } else { digits_value(body) as int })
    } else {
        None
    }
}

/// The value, in units of `10^-places`, of a fixed-point text: an optional
/// `-`, at least one digit, `.`, and exactly `places` digits.
pub open spec fn fixed_parse(s: Seq<char>, places: nat) -> Option<int> {
    let neg = s.len() > 0 && s[0] == '-';
    let body = if neg { s.skip(1) } else { s };
    if body.len() >= places + 2 {
        let k = body.len() - places - 1;
        if body[k] == '.' && all_digits(body.take(k)) && all_digits(body.skip(k + 1)) {
            let v = digits_value(body.take(k)) * pow10(places) + digits_value(body.skip(k + 1));
            Some(if neg { -(v as int) } else { v as int })
        } else {
            None
        }
    } else {
        None
    }
}

proof fn lemma_digit(d: nat)
    requires
        d < 10,
    ensures
        is_digit(digit_char(d)),
        digit_value(digit_char(d)) == d,
{
}

proof fn lemma_decimal_value(n: nat)
    ensures
        all_digits(decimal(n)),
        digits_value(decimal(n)) == n,
        decimal(n).len() >= 1,
    decreases n,
{
    lemma_digit(n % 10);
    let s = decimal(n);
    if n >= 10 {
        let p = decimal(n / 10);
        lemma_decimal_value(n / 10);
        assert(s == p.push(digit_char(n % 10)));
        assert(s.drop_last() =~= p);
        assert(s.last() == digit_char(n % 10));
        assert forall|i: int| 0 <= i < s.len() implies is_digit(#[trigger] s[i]) by {
            if i < p.len() {
                assert(s[i] == p[i]);
            }
        }
        lemma_fundamental_div_mod(n as int, 10);
        assert((n / 10) * 10 == 10 * (n / 10)) by (nonlinear_arith);
        assert(digits_value(s) == digits_value(p) * 10 + digit_value(digit_char(n % 10)));
    } else {
        assert(s == seq![digit_char(n)]);
        assert(s.drop_last() =~= Seq::<char>::empty());
        assert(digits_value(Seq::<char>::empty()) == 0);
        assert(n % 10 == n);
        assert(digits_value(s) == digits_value(s.drop_last()) * 10 + digit_value(s.last()));
        assert(s.last() == digit_char(n));
    }
}

proof fn lemma_pow10_positive(w: nat)
    ensures
        pow10(w) > 0,
    decreases w,
{
    if w > 0 {
        lemma_pow10_positive((w - 1) as nat);
    }
}

proof fn lemma_digits_value(n: nat, w: nat)
    ensures
        all_digits(digits(n, w)),
        digits_value(digits(n, w)) == n % pow10(w),
        digits(n, w).len() == w,
    decreases w,
{
    lemma_pow10_positive(w);
    if w > 0 {
        lemma_digits_value(n / 10, (w - 1) as nat);
        lemma_digit(n % 10);
        lemma_pow10_positive((w - 1) as nat);
        let s = digits(n, w);
        assert(s.drop_last() =~= digits(n / 10, (w - 1) as nat));
        lemma_breakdown(n as int, 10, pow10((w - 1) as nat) as int);
    } else {
        assert(n % 1 == 0);
    }
}

/// A fixed-point field's text parses back to the value it was written from.
pub proof fn lemma_fixed_point_round_trip(v: int, places: nat)
    ensures
        fixed_parse(fixed_point(v, places), places) == Some(v),
{
    let a: nat = if v < 0 { (-v) as nat } else { v as nat };
    lemma_pow10_positive(places);
    let q = a / pow10(places);
    let r = a % pow10(places);
    lemma_decimal_value(q);
    lemma_digits_value(r, places);
    lemma_mod_pos_bound(r as int, pow10(places) as int);
    assert(r % pow10(places) == r) by {
        lemma_mod_pos_bound(a as int, pow10(places) as int);
        vstd::arithmetic::div_mod::lemma_small_mod(r, pow10(places));
    }
    let body = decimal(q) + seq!['.'] + digits(r, places);
    let k = decimal(q).len();
    assert(body.take(k as int) =~= decimal(q));
    assert(body.skip(k as int + 1) =~= digits(r, places));
    lemma_fundamental_div_mod(a as int, pow10(places) as int);
    let text = fixed_point(v, places);
    assert(body.len() == k + 1 + places);
    assert(body[k as int] == '.');
    assert(q * pow10(places) == pow10(places) * q) by (nonlinear_arith);
    assert(digits_value(body.take(k as int)) * pow10(places) + digits_value(body.skip(k as int + 1)) == a);
    if v < 0 {
        assert(text =~= seq!['-'] + body);
        assert(text.skip(1) =~= body);
        assert(text[0] == '-');
    } else {
        assert(text =~= body);
        assert(is_digit(decimal(q)[0]));
        assert(text[0] == decimal(q)[0]);
        assert(text[0] != '-');
    }
}

/// A signed integer field's text parses back to the value it was written
/// from.
pub proof fn lemma_signed_round_trip(v: int)
    ensures
        signed_parse(signed_decimal(v)) == Some(v),
{
    if v < 0 {
        lemma_decimal_value((-v) as nat);
        assert((seq!['-'] + decimal((-v) as nat)).skip(1) =~= decimal((-v) as nat));
    } else {
        lemma_decimal_value(v as nat);
        assert(is_digit(decimal(v as nat)[0]));
    }
}

fn digit_of(c: char) -> (r: Option<u8>)
    ensures
        r is Some == is_digit(c),
        r matches Some(d) ==> d as nat == digit_value(c) && d < 10,
{
    if c == '0' { Some(0) } else if c == '1' { Some(1) } else if c == '2' { Some(2) } else if c == '3' { Some(3) } else if c
        == '4' { Some(4) } else if c == '5' { Some(5) } else if c == '6' { Some(6) } else if c == '7' { Some(7) } else if c
        == '8' { Some(8) } else if c == '9' { Some(9) } else { None }
}

proof fn lemma_digits_value_bound(s: Seq<char>)
    ensures
        digits_value(s) < pow10(s.len()),
    decreases s.len(),
{
    if s.len() > 0 {
        lemma_digits_value_bound(s.drop_last());
        assert(digit_value(s.last()) < 10);
    }
}

proof fn lemma_pow10_19()
    ensures
        pow10(19) == 10_000_000_000_000_000_000,
{
    reveal_with_fuel(pow10, 20);
}

proof fn lemma_pow10_monotone(a: nat, b: nat)
    requires
        a <= b,
    ensures
        pow10(a) <= pow10(b),
    decreases b,
{
    if a < b {
        lemma_pow10_monotone(a, (b - 1) as nat);
    }
}

/// The value of the digits `s[from..to]`; none if one is not a digit.
fn parse_digits(s: &[char], from: usize, to: usize) -> (r: Option<u128>)
    requires
        from <= to <= s@.len(),
        to - from <= 19,
    ensures
        r is Some == all_digits(s@.subrange(from as int, to as int)),
        r matches Some(v) ==> v == digits_value(s@.subrange(from as int, to as int)),
{
    let mut acc: u128 = 0;
    let mut i: usize = from;
    while i < to
        invariant
            from <= i <= to,
            to <= s@.len(),
            to - from <= 19,
            all_digits(s@.subrange(from as int, i as int)),
            acc == digits_value(s@.subrange(from as int, i as int)),
        decreases to - i,
    {
        match digit_of(s[i]) {
            Some(d) => {
                proof {
                    lemma_digits_value_bound(s@.subrange(from as int, i as int));
                    lemma_pow10_monotone((i - from) as nat, 19);
                    lemma_pow10_19();
                    assert(s@.subrange(from as int, i + 1).drop_last() =~= s@.subrange(from as int, i as int));
                }
                acc = acc * 10 + d as u128;
                i = i + 1;
            },
            None => {
                proof {
                    assert(s@.subrange(from as int, to as int)[i - from] == s@[i as int]);
                }
                return None;
            },
        }
    }
    Some(acc)
}

/// Reads a signed decimal field such as `-800`; none for other text or a
/// value beyond `i64`.
pub fn parse_signed(s: &[char]) -> (r: Option<i64>)
    requires
        s@.len() <= 19,
    ensures
        r matches Some(v) ==> signed_parse(s@) == Some(v as int),
        signed_parse(s@) matches Some(v) ==> (i64::MIN <= v <= i64::MAX ==> r == Some(v as i64)),
{
    let neg = s.len() > 0 && s[0] == '-';
    let start: usize = if neg { 1 } else { 0 };
    if s.len() <= start {
        return None;
    }
    proof {
        assert(s@.subrange(start as int, s@.len() as int) =~= if neg { s@.skip(1) } else { s@ });
    }
    match parse_digits(s, start, s.len()) {
        Some(m) => {
            if neg {
                if m <= 9_223_372_036_854_775_808 {
                    Some((0i128 - m as i128) as i64)
                } else {
                    None
                }
            } else if m <= 9_223_372_036_854_775_807 {
                Some(m as i64)
            } else {
                None
            }
        },
        None => None,
    }
}

/// Reads a fixed-point field with `places` decimals, such as `-74.654321`,
/// as a count of `10^-places`; none for other text or a value beyond `i64`.
pub fn parse_fixed(s: &[char], places: usize) -> (r: Option<i64>)
    requires
        s@.len() <= 19,
        places <= 6,
    ensures
        r matches Some(v) ==> fixed_parse(s@, places as nat) == Some(v as int),
        fixed_parse(s@, places as nat) matches Some(v) ==> (i64::MIN <= v <= i64::MAX ==> r == Some(v as i64)),
{
    let neg = s.len() > 0 && s[0] == '-';
    let start: usize = if neg { 1 } else { 0 };
    let ghost body = if neg { s@.skip(1) } else { s@ };
    if s.len() < start + places + 2 {
        return None;
    }
    let dot = s.len() - places - 1;
    let ghost k = body.len() - places - 1;
    proof {
        assert(body =~= s@.subrange(start as int, s@.len() as int));
        assert(body.take(k) =~= s@.subrange(start as int, dot as int));
        assert(body.skip(k + 1) =~= s@.subrange(dot + 1, s@.len() as int));
        assert(body[k] == s@[dot as int]);
    }
    if s[dot] != '.' {
        return None;
    }
    let whole = match parse_digits(s, start, dot) {
        Some(w) => w,
        None => {
            return None;
        },
    };
    let frac = match parse_digits(s, dot + 1, s.len()) {
        Some(f) => f,
        None => {
            return None;
        },
    };
    let scale = pow10_exec(places as u32);
    proof {
        lemma_digits_value_bound(s@.subrange(start as int, dot as int));
        lemma_digits_value_bound(s@.subrange(dot + 1, s@.len() as int));
        lemma_pow10_monotone((dot - start) as nat, 19);
        lemma_pow10_monotone(places as nat, 19);
        lemma_pow10_19();
        assert(whole * scale <= 10_000_000_000_000_000_000u128 * 10_000_000_000_000_000_000u128) by (nonlinear_arith)
            requires
                whole <= 10_000_000_000_000_000_000u128,
                scale <= 10_000_000_000_000_000_000u128,
        ;
    }
    let magnitude: u128 = whole * scale + frac;
    if neg {
        if magnitude <= 9_223_372_036_854_775_808 {
            Some((0i128 - magnitude as i128) as i64)
        } else {
            None
        }
    } else if magnitude <= 9_223_372_036_854_775_807 {
        Some(magnitude as i64)
    } else {
        None
    }
}


/// `fields` joined by commas.
pub open spec fn join_commas(fields: Seq<Seq<char>>) -> Seq<char>
    decreases fields.len(),
{
    if fields.len() == 0 {
        seq![]
    } else if fields.len() == 1 {
        fields[0]
    } else {
        join_commas(fields.drop_last()) + seq![','] + fields.last()
    }
}

/// The comma-separated fields of `s`.
pub open spec fn split_commas(s: Seq<char>) -> Seq<Seq<char>>
    decreases s.len(),
{
    if s.len() == 0 {
        seq![seq![]]
    } else if s.last() == ',' {
        split_commas(s.drop_last()).push(seq![])
    } else {
        let r = split_commas(s.drop_last());
        r.update(r.len() - 1, r.last().push(s.last()))
    }
}

pub open spec fn comma_free(s: Seq<char>) -> bool {
    forall|i: int| 0 <= i < s.len() ==> #[trigger] s[i] != ','
}

proof fn lemma_split_len(s: Seq<char>)
    ensures
        split_commas(s).len() >= 1,
    decreases s.len(),
{
    if s.len() > 0 {
        lemma_split_len(s.drop_last());
    }
}

proof fn lemma_split_extend(p: Seq<char>, l: Seq<char>)
    requires
        comma_free(l),
    ensures
        split_commas(p + l) == split_commas(p).update(
            split_commas(p).len() - 1,
            split_commas(p).last() + l,
        ),
    decreases l.len(),
{
    lemma_split_len(p);
    let r = split_commas(p);
    if l.len() == 0 {
        assert(p + l =~= p);
        assert(r.last() + l =~= r.last());
        assert(r.update(r.len() - 1, r.last()) =~= r);
    } else {
        let l0 = l.drop_last();
        assert(comma_free(l0)) by {
            assert forall|i: int| 0 <= i < l0.len() implies #[trigger] l0[i] != ',' by {
                assert(l0[i] == l[i]);
            }
        }
        lemma_split_extend(p, l0);
        assert((p + l).drop_last() =~= p + l0);
        assert((p + l).last() == l.last());
        assert(l.last() != ',') by {
            assert(l[l.len() - 1] != ',');
        }
        lemma_split_len(p + l0);
        let r0 = split_commas(p + l0);
        assert(r0 == r.update(r.len() - 1, r.last() + l0));
        assert(r0.len() == r.len());
        assert(r0.last() == r.last() + l0);
        assert(r0.last().push(l.last()) =~= r.last() + l);
        assert(r0.update(r0.len() - 1, r0.last().push(l.last())) =~= r.update(r.len() - 1, r.last() + l));
    }
}

/// Splitting at commas undoes joining by commas, for fields without commas.
pub proof fn lemma_split_join(fields: Seq<Seq<char>>)
    requires
        fields.len() >= 1,
        forall|i: int| 0 <= i < fields.len() ==> comma_free(#[trigger] fields[i]),
    ensures
        split_commas(join_commas(fields)) == fields,
    decreases fields.len(),
{
    if fields.len() == 1 {
        lemma_split_extend(seq![], fields[0]);
        assert(Seq::<char>::empty() + fields[0] =~= fields[0]);
        assert(split_commas(Seq::<char>::empty()) == seq![Seq::<char>::empty()]);
        assert(Seq::<char>::empty() + fields[0] =~= fields[0]);
        assert(seq![Seq::<char>::empty()].update(0, Seq::<char>::empty() + fields[0]) =~= fields);
    } else {
        let init = fields.drop_last();
        assert forall|i: int| 0 <= i < init.len() implies comma_free(#[trigger] init[i]) by {
            assert(init[i] == fields[i]);
        }
        lemma_split_join(init);
        let j = join_commas(init) + seq![','];
        assert(j.drop_last() =~= join_commas(init));
        assert(split_commas(j) == split_commas(join_commas(init)).push(seq![]));
        lemma_split_extend(j, fields.last());
        assert(fields.last() == fields[fields.len() - 1]);
        assert(join_commas(fields) == j + fields.last());
        assert(Seq::<char>::empty() + fields.last() =~= fields.last());
        assert(init.push(Seq::<char>::empty()).update(init.len() as int, Seq::<char>::empty() + fields.last())
            =~= fields);
    }
}

proof fn lemma_fixed_comma_free(v: int, places: nat)
    ensures
        comma_free(fixed_point(v, places)),
{
    let a: nat = if v < 0 { (-v) as nat } else { v as nat };
    lemma_pow10_positive(places);
    lemma_decimal_value(a / pow10(places));
    lemma_digits_value(a % pow10(places), places);
    let t = fixed_point(v, places);
    let sign: Seq<char> = if v < 0 { seq!['-'] } else { seq![] };
    let d = decimal(a / pow10(places));
    let f = digits(a % pow10(places), places);
    assert forall|i: int| 0 <= i < t.len() implies #[trigger] t[i] != ',' by {
        if i < sign.len() {
        } else if i < sign.len() + d.len() {
            assert(t[i] == d[i - sign.len()]);
        } else if i == sign.len() + d.len() {
        } else {
            assert(t[i] == f[i - sign.len() - d.len() - 1]);
        }
    }
}

proof fn lemma_signed_comma_free(v: int)
    ensures
        comma_free(signed_decimal(v)),
{
    let a: nat = if v < 0 { (-v) as nat } else { v as nat };
    lemma_decimal_value(a);
    let t = signed_decimal(v);
    assert forall|i: int| 0 <= i < t.len() implies #[trigger] t[i] != ',' by {
        if v < 0 && i > 0 {
            assert(t[i] == decimal(a)[i - 1]);
        } else if v >= 0 {
            assert(t[i] == decimal(a)[i]);
        }
    }
}

impl Sbs1Message {
    /// The texts of the 22 comma-separated fields of the line.
    pub open spec fn field_texts(&self) -> Seq<Seq<char>> {
        seq![
            "MSG"@,
            decimal(self.transmission_type as nat),
            decimal(self.session_id as nat),
            decimal(self.aircraft_id as nat),
            self.hex_ident@,
            decimal(self.flight_id as nat),
            self.date_generated@,
            self.time_generated@,
            self.date_logged@,
            self.time_logged@,
            opt_string(self.callsign),
            opt_signed(widen32(self.altitude)),
            opt_fixed(self.ground_speed, 1),
            opt_fixed(self.track, 1),
            opt_fixed(self.latitude, 6),
            opt_fixed(self.longitude, 6),
            opt_signed(widen16(self.vertical_rate)),
            opt_squawk(self.squawk),
            flag(self.alert),
            flag(self.emergency),
            flag(self.spi),
            flag(self.is_on_ground),
        ]
    }

    /// No text field holds a comma.
    pub open spec fn text_fields_comma_free(&self) -> bool {
        &&& comma_free(self.hex_ident@)
        &&& comma_free(self.date_generated@)
        &&& comma_free(self.time_generated@)
        &&& comma_free(self.date_logged@)
        &&& comma_free(self.time_logged@)
        &&& (self.callsign matches Some(c) ==> comma_free(c@))
    }
}

proof fn lemma_line_is_joined(m: Sbs1Message)
    ensures
        m.line() == join_commas(m.field_texts()) + "\r\n"@,
{
    reveal_strlit("MSG,");
    reveal_strlit("MSG");
    reveal_strlit(",");
    reveal_with_fuel(join_commas, 23);
    let f = m.field_texts();
    assert("MSG,"@ =~= "MSG"@ + seq![',']);
    assert(","@ =~= seq![',']);
    assert(join_commas(f) + "\r\n"@ =~= m.line());
}

proof fn lemma_opt_signed_comma_free(v: Option<int>)
    ensures
        comma_free(opt_signed(v)),
{
    if let Some(x) = v {
        lemma_signed_comma_free(x);
    }
}

proof fn lemma_opt_fixed_comma_free(v: Option<i64>, places: nat)
    ensures
        comma_free(opt_fixed(v, places)),
{
    if let Some(x) = v {
        lemma_fixed_comma_free(x as int, places);
    }
}

proof fn lemma_opt_squawk_comma_free(v: Option<u16>)
    ensures
        comma_free(opt_squawk(v)),
{
    if let Some(q) = v {
        lemma_pow10_positive(4);
        if (q as nat) < pow10(4) {
            lemma_digits_value(q as nat, 4);
        } else {
            lemma_decimal_value(q as nat);
        }
    }
}

proof fn lemma_decimal_comma_free(n: nat)
    ensures
        comma_free(decimal(n)),
{
    lemma_decimal_value(n);
}

proof fn lemma_fields_comma_free(m: Sbs1Message)
    requires
        m.text_fields_comma_free(),
    ensures
        forall|i: int| 0 <= i < m.field_texts().len() ==> comma_free(#[trigger] m.field_texts()[i]),
{
    reveal_strlit("MSG");
    let f = m.field_texts();
    lemma_decimal_comma_free(m.transmission_type as nat);
    lemma_decimal_comma_free(m.session_id as nat);
    lemma_decimal_comma_free(m.aircraft_id as nat);
    lemma_decimal_comma_free(m.flight_id as nat);
    lemma_opt_signed_comma_free(widen32(m.altitude));
    lemma_opt_signed_comma_free(widen16(m.vertical_rate));
    lemma_opt_fixed_comma_free(m.ground_speed, 1);
    lemma_opt_fixed_comma_free(m.track, 1);
    lemma_opt_fixed_comma_free(m.latitude, 6);
    lemma_opt_fixed_comma_free(m.longitude, 6);
    lemma_opt_squawk_comma_free(m.squawk);
    assert(comma_free(opt_string(m.callsign)));
    assert(comma_free("MSG"@));
    assert(comma_free(flag(m.alert)) && comma_free(flag(m.emergency)));
    assert(comma_free(flag(m.spi)) && comma_free(flag(m.is_on_ground)));
}

/// An SBS-1 line gives its fields back: split at commas (its CRLF aside),
/// it yields each field's text, and the callsign, altitude, ground speed,
/// track, latitude, longitude and vertical rate that were written parse
/// back to exactly the values held (speeds and headings in tenths,
/// latitude and longitude in millionths of a degree), provided no text
/// field holds a comma.
pub proof fn lemma_sbs1_round_trip(m: Sbs1Message)
    requires
        m.text_fields_comma_free(),
    ensures
        split_commas(m.line().subrange(0, m.line().len() - 2)) == m.field_texts(),
        m.callsign matches Some(c) ==> m.field_texts()[10] == c@,
        m.altitude matches Some(a) ==> signed_parse(m.field_texts()[11]) == Some(a as int),
        m.ground_speed matches Some(g) ==> fixed_parse(m.field_texts()[12], 1) == Some(g as int),
        m.track matches Some(t) ==> fixed_parse(m.field_texts()[13], 1) == Some(t as int),
        m.latitude matches Some(l) ==> fixed_parse(m.field_texts()[14], 6) == Some(l as int),
        m.longitude matches Some(l) ==> fixed_parse(m.field_texts()[15], 6) == Some(l as int),
        m.vertical_rate matches Some(v) ==> signed_parse(m.field_texts()[16]) == Some(v as int),
{
    lemma_line_is_joined(m);
    reveal_strlit("\r\n");
    let j = join_commas(m.field_texts());
    assert(m.line().subrange(0, m.line().len() - 2) =~= j);
    lemma_fields_comma_free(m);
    lemma_split_join(m.field_texts());
    if let Some(a) = m.altitude {
        lemma_signed_round_trip(a as int);
    }
    if let Some(v) = m.vertical_rate {
        lemma_signed_round_trip(v as int);
    }
    if let Some(g) = m.ground_speed {
        lemma_fixed_point_round_trip(g as int, 1);
    }
    if let Some(t) = m.track {
        lemma_fixed_point_round_trip(t as int, 1);
    }
    if let Some(l) = m.latitude {
        lemma_fixed_point_round_trip(l as int, 6);
    }
    if let Some(l) = m.longitude {
        lemma_fixed_point_round_trip(l as int, 6);
    }
}

/// A message stamped by the constructors round-trips whenever its hex ident
/// and callsign hold no comma: its date and time fields never do.
pub proof fn lemma_stamped_fields_comma_free(m: Sbs1Message, icao: Seq<char>, ms: u64)
    requires
        m.stamped(icao, ms),
        comma_free(icao),
        m.callsign matches Some(c) ==> comma_free(c@),
    ensures
        m.text_fields_comma_free(),
{
}

} // verus!
