//! What the tracker reads of a decoded Mode-S frame: the metadata of its
//! decoding and the ADS-B message variants that it acts on.
use vstd::prelude::*;

use adsb_deku::adsb::{AirborneVelocitySubType, GroundSpeedDecoding, VerticalRateSource};
use adsb_deku::Sign;

verus! {

/// How a frame was found and checked.
#[derive(Clone, Copy, Debug, PartialEq, Eq, Structural)]
pub struct DecoderMetaData {
    /// Sample index of the preamble, for causal ordering.
    pub preamble_index: u64,
    /// Bit pattern of the preamble correlation value (an `f32`).
    pub preamble_correlation_bits: u32,
    pub crc_passed: bool,
    /// Wall-clock instant of detection, in milliseconds since the Unix
    /// epoch.
    pub timestamp: u64,
}

/// The CPR format of a position half-frame.
#[derive(Clone, Copy, Debug, PartialEq, Eq, Structural, Hash)]
pub enum CprFormat {
    Even,
    Odd,
}

/// An airborne position message: one CPR half-frame.
#[derive(Clone, Copy, Debug, PartialEq, Eq, Structural)]
pub struct AdsbPosition {
    pub type_code: u8,
    /// Altitude in feet, when the message carries one.
    pub altitude: Option<u16>,
    pub odd_flag: CprFormat,
    /// 17-bit encoded latitude.
    pub lat_cpr: u32,
    /// 17-bit encoded longitude.
    pub lon_cpr: u32,
}

/// An aircraft identification message.
#[derive(Clone, Debug)]
pub struct AdsbIdentification {
    pub type_code: u8,
    /// Emitter category.
    pub ca: u8,
    /// Callsign.
    pub cn: String,
}

/// Whether a vertical rate was measured on barometric or on geometric
/// altitude.
#[derive(Clone, Copy, Debug, PartialEq, Eq, Structural)]
pub enum AircraftVerticalRateSource {
    BarometricPressureAltitude,
    GeometricAltitude,
}

/// The ground-speed part of a velocity message: east-west and north-south
/// components, each a sign and a 10-bit speed field.
#[derive(Clone, Copy, Debug, PartialEq, Eq, Structural)]
pub struct GroundSpeedFields {
    pub ew_negative: bool,
    pub ew_vel: u16,
    pub ns_negative: bool,
    pub ns_vel: u16,
}

/// An airborne velocity message: the fields that heading, speed and climb
/// are computed from.
#[derive(Clone, Copy, Debug, PartialEq, Eq, Structural)]
pub struct AdsbVelocity {
    /// The ground-speed fields, for the ground-speed subtypes; none for the
    /// air-speed and reserved subtypes.
    pub ground_speed: Option<GroundSpeedFields>,
    pub vrate_negative: bool,
    /// The 9-bit vertical rate field: zero when unknown, else one more than
    /// the rate in units of 64 ft/min.
    pub vrate_value: u16,
    pub vrate_source: AircraftVerticalRateSource,
}

impl AdsbVelocity {
    /// Every field fits its width in the message.
    pub open spec fn wf(&self) -> bool {
        &&& self.vrate_value < 512
        &&& (self.ground_speed matches Some(g) ==> g.ew_vel < 1024 && g.ns_vel < 1024)
    }

    pub fn is_wf(&self) -> (r: bool)
        ensures
            r == self.wf(),
    {
        self.vrate_value < 512 && match self.ground_speed {
            Some(g) => g.ew_vel < 1024 && g.ns_vel < 1024,
            None => true,
        }
    }
}

/// The ADS-B message variants the tracker acts on; `Other` stands for the
/// rest, which it forwards raw and otherwise ignores.
#[derive(Debug)]
pub enum AdsbMessage {
    AircraftIdentification(AdsbIdentification),
    /// An airborne position, with barometric or GNSS altitude.
    AirbornePosition(AdsbPosition),
    AirborneVelocity(AdsbVelocity),
    Other,
}

/// Heading, speed and climb derived from a velocity message.
#[derive(Clone, Copy, Debug, PartialEq, Eq, Structural)]
pub struct AircraftVelocity {
    /// Bit pattern of the heading in degrees (an `f32`).
    pub heading_bits: u32,
    /// Bit pattern of the ground speed in knots (an `f64`).
    pub ground_speed_bits: u64,
    /// Vertical rate in feet per minute.
    pub vertical_rate: i16,
    pub vertical_rate_source: AircraftVerticalRateSource,
}

/// The bit patterns of the heading in degrees (an `f32`) and of the ground
/// speed in knots (an `f64`) that a velocity message's ground-speed fields
/// give.
pub uninterp spec fn velocity_bits_of(ew_negative: bool, ew_vel: u16, ns_negative: bool, ns_vel: u16) -> (u32, u64);

/// The vertical rate in feet per minute that a velocity message gives.
pub open spec fn vertical_rate_of(v: AdsbVelocity) -> int {
    (v.vrate_value as int - 1) * 64 * (if v.vrate_negative { -1int } else { 1int })
}

/// What a velocity message gives: heading, speed and climb for a
/// ground-speed message with a known rate, else nothing.
pub open spec fn velocity_of(v: AdsbVelocity) -> Option<AircraftVelocity> {
    if v.wf() && v.vrate_value > 0 && v.ground_speed is Some {
        let g = v.ground_speed.unwrap();
        let bits = velocity_bits_of(g.ew_negative, g.ew_vel, g.ns_negative, g.ns_vel);
        Some(
            AircraftVelocity {
                heading_bits: bits.0,
                ground_speed_bits: bits.1,
                vertical_rate: vertical_rate_of(v) as i16,
                vertical_rate_source: v.vrate_source,
            },
        )
    } else {
        None
    }
}

/// Relies on adsb_deku's `AirborneVelocity::calculate`, which reads the
/// subtype, the two signed 10-bit speeds and the signed 9-bit rate: a result
/// exactly for the ground-speed subtype with a known rate, the rate being
/// `(vrate_value - 1) * 64` with its sign, heading and speed a function of
/// the speed fields alone. Within these widths it does not overflow.
#[verifier::external_body]
fn calculate_velocity(v: &AdsbVelocity) -> (r: Option<(u32, u64, i16)>)
    requires
        v.wf(),
    ensures
        r.is_some() == (v.ground_speed is Some && v.vrate_value > 0),
        r matches Some(t) ==> {
            &&& t.2 as int == vertical_rate_of(*v)
            &&& (t.0, t.1) == velocity_bits_of(
                v.ground_speed.unwrap().ew_negative,
                v.ground_speed.unwrap().ew_vel,
                v.ground_speed.unwrap().ns_negative,
                v.ground_speed.unwrap().ns_vel,
            )
        },
{
    let sign = |negative: bool| if negative { Sign::Negative } else { Sign::Positive };
    let sub_type = match v.ground_speed {
        Some(g) => AirborneVelocitySubType::GroundSpeedDecoding(GroundSpeedDecoding {
            ew_sign: sign(g.ew_negative), ew_vel: g.ew_vel, ns_sign: sign(g.ns_negative), ns_vel: g.ns_vel,
        }),
        None => AirborneVelocitySubType::Reserved0(0),
    };
    let m = adsb_deku::adsb::AirborneVelocity {
        st: 1, nac_v: 0, sub_type, vrate_src: VerticalRateSource::BarometricPressureAltitude,
        vrate_sign: sign(v.vrate_negative), vrate_value: v.vrate_value, reverved: 0,
        gnss_sign: Sign::Positive, gnss_baro_diff: 0,
    };
    m.calculate().map(|(heading, speed, rate)| (heading.to_bits(), speed.to_bits(), rate))
}

/// What a velocity message gives; a message whose fields exceed their
/// widths gives nothing.
pub fn velocity_report(v: &AdsbVelocity) -> (r: Option<AircraftVelocity>)
    ensures
        r == velocity_of(*v),
{
    if !v.is_wf() {
        return None;
    }
    match calculate_velocity(v) {
        Some((heading_bits, ground_speed_bits, vertical_rate)) => Some(AircraftVelocity {
            heading_bits,
            ground_speed_bits,
            vertical_rate,
            vertical_rate_source: v.vrate_source,
        }),
        None => None,
    }
}

/// The globally unambiguous position that CPR decoding gives for an older
/// and a newer half-frame, each given by its format (odd or not) and its
/// encoded latitude and longitude: the bit patterns of the latitude and the
/// longitude in degrees (`f64`).
pub uninterp spec fn cpr_position(
    older_odd: bool,
    older_lat: u32,
    older_lon: u32,
    newer_odd: bool,
    newer_lat: u32,
    newer_lon: u32,
) -> (u64, u64);

/// Relies on adsb_deku's `cpr::get_position`: a position exactly when one
/// half-frame is even and the other odd, computed from the formats and the
/// encoded latitudes and longitudes alone, the newer half-frame second.
#[verifier::external_body]
pub(crate) fn global_position(older: &AdsbPosition, newer: &AdsbPosition) -> (r: Option<(u64, u64)>)
    ensures
        r.is_some() == (older.odd_flag != newer.odd_flag),
        r.is_some() ==> r == Some(
            cpr_position(
                older.odd_flag == CprFormat::Odd,
                older.lat_cpr,
                older.lon_cpr,
                newer.odd_flag == CprFormat::Odd,
                newer.lat_cpr,
                newer.lon_cpr,
            ),
        ),
{
    let frame = |p: &AdsbPosition| adsb_deku::Altitude {
        tc: p.type_code,
        alt: p.altitude,
        odd_flag: match p.odd_flag {
            CprFormat::Even => adsb_deku::CPRFormat::Even,
            CprFormat::Odd => adsb_deku::CPRFormat::Odd,
        },
        lat_cpr: p.lat_cpr,
        lon_cpr: p.lon_cpr,
        ..Default::default()
    };
    adsb_deku::cpr::get_position((&frame(older), &frame(newer)))
        .map(|p| (p.latitude.to_bits(), p.longitude.to_bits()))
}

} // verus!
