//! Decoder metrics: lock-free counters and snapshots of them, with the
//! summaries that are logged.
use vstd::prelude::*;

use std::sync::atomic::{AtomicU64, Ordering};

use crate::time::{elapsed, elapsed_between, now_millis, Duration};

verus! {

/// Counters written from any thread without locking.
pub struct GlobalMetrics {
    pub preambles_detected: AtomicU64,
    pub packets_crc_passed: AtomicU64,
    pub packets_crc_failed: AtomicU64,
    pub packets_decoded: AtomicU64,
    pub packets_decode_failed: AtomicU64,
    pub msg_identification: AtomicU64,
    pub msg_position: AtomicU64,
    pub msg_velocity: AtomicU64,
    pub msg_other: AtomicU64,
    pub aircraft_tracked: AtomicU64,
    pub updates_processed: AtomicU64,
    pub output_beast: AtomicU64,
    pub output_raw: AtomicU64,
    pub output_sbs1: AtomicU64,
    pub output_websocket: AtomicU64,
    started_at: u64,
}

impl GlobalMetrics {
    pub closed spec fn started_at(&self) -> u64 {
        self.started_at
    }

    /// All counters at zero; uptime counts from the instant the clock reads.
    pub fn new() -> (r: GlobalMetrics) {
        GlobalMetrics {
            preambles_detected: AtomicU64::new(0),
            packets_crc_passed: AtomicU64::new(0),
            packets_crc_failed: AtomicU64::new(0),
            packets_decoded: AtomicU64::new(0),
            packets_decode_failed: AtomicU64::new(0),
            msg_identification: AtomicU64::new(0),
            msg_position: AtomicU64::new(0),
            msg_velocity: AtomicU64::new(0),
            msg_other: AtomicU64::new(0),
            aircraft_tracked: AtomicU64::new(0),
            updates_processed: AtomicU64::new(0),
            output_beast: AtomicU64::new(0),
            output_raw: AtomicU64::new(0),
            output_sbs1: AtomicU64::new(0),
            output_websocket: AtomicU64::new(0),
            started_at: now_millis(),
        }
    }

    /// The counters as read one by one, with the uptime at `now`.
    pub fn snapshot_at(&self, now: u64) -> (r: MetricsSnapshot)
        ensures
            r.uptime.millis == elapsed(self.started_at(), now),
    {
        MetricsSnapshot {
            preambles_detected: self.preambles_detected.load(Ordering::Relaxed),
            packets_crc_passed: self.packets_crc_passed.load(Ordering::Relaxed),
            packets_crc_failed: self.packets_crc_failed.load(Ordering::Relaxed),
            packets_decoded: self.packets_decoded.load(Ordering::Relaxed),
            packets_decode_failed: self.packets_decode_failed.load(Ordering::Relaxed),
            msg_identification: self.msg_identification.load(Ordering::Relaxed),
            msg_position: self.msg_position.load(Ordering::Relaxed),
            msg_velocity: self.msg_velocity.load(Ordering::Relaxed),
            msg_other: self.msg_other.load(Ordering::Relaxed),
            aircraft_tracked: self.aircraft_tracked.load(Ordering::Relaxed),
            updates_processed: self.updates_processed.load(Ordering::Relaxed),
            output_beast: self.output_beast.load(Ordering::Relaxed),
            output_raw: self.output_raw.load(Ordering::Relaxed),
            output_sbs1: self.output_sbs1.load(Ordering::Relaxed),
            output_websocket: self.output_websocket.load(Ordering::Relaxed),
            uptime: Duration::from_millis(elapsed_between(self.started_at, now)),
        }
    }

    /// As `snapshot_at`, at the instant the clock reads.
    pub fn snapshot(&self) -> (r: MetricsSnapshot) {
        self.snapshot_at(now_millis())
    }
}

/// The counters at one point in time.
#[derive(Clone, Copy, Debug, PartialEq, Eq, Structural)]
pub struct MetricsSnapshot {
    pub preambles_detected: u64,
    pub packets_crc_passed: u64,
    pub packets_crc_failed: u64,
    pub packets_decoded: u64,
    pub packets_decode_failed: u64,
    pub msg_identification: u64,
    pub msg_position: u64,
    pub msg_velocity: u64,
    pub msg_other: u64,
    pub aircraft_tracked: u64,
    pub updates_processed: u64,
    pub output_beast: u64,
    pub output_raw: u64,
    pub output_sbs1: u64,
    pub output_websocket: u64,
    pub uptime: Duration,
}

/// The character of the decimal digit `d`.
pub open spec fn digit_char(d: nat) -> char {
    if d == 0 {
        '0'
    } else if d == 1 {
        '1'
    } else if d == 2 {
        '2'
    } else if d == 3 {
        '3'
    } else if d == 4 {
        '4'
    } else if d == 5 {
        '5'
    } else if d == 6 {
        '6'
    } else if d == 7 {
        '7'
    } else if d == 8 {
        '8'
    } else {
        '9'
    }
}

/// `n` in decimal, without leading zeros.
pub open spec fn decimal(n: nat) -> Seq<char>
    decreases n,
{
    if n < 10 {
        seq![digit_char(n)]
    } else {
        decimal(n / 10).push(digit_char(n % 10))
    }
}

/// `p / q` rounded to the nearest integer, ties to even; zero when `q` is
/// zero.
pub open spec fn round_half_even(p: nat, q: nat) -> nat {
    if q == 0 {
        0
    } else if 2 * (p % q) > q {
        p / q + 1
    } else if 2 * (p % q) < q {
        p / q
    } else if (p / q) % 2 == 0 {
        p / q
    } else {
        p / q + 1
    }
}

/// A value given in tenths, written with one decimal.
pub open spec fn one_decimal(tenths: nat) -> Seq<char> {
    decimal(tenths / 10) + "."@ + decimal(tenths % 10)
}

/// `part` as a percentage of `whole` in tenths, rounded as `{:.1}` rounds;
/// zero when `whole` is zero.
pub open spec fn percent_tenths(part: nat, whole: nat) -> nat {
    round_half_even(part * 1000, whole)
}

fn digit_str(d: u128) -> (r: &'static str)
    requires
        d < 10,
    ensures
        r@ == seq![digit_char(d as nat)],
{
    proof {
        reveal_strlit("0");
        reveal_strlit("1");
        reveal_strlit("2");
        reveal_strlit("3");
        reveal_strlit("4");
        reveal_strlit("5");
        reveal_strlit("6");
        reveal_strlit("7");
        reveal_strlit("8");
        reveal_strlit("9");
    }
    if d == 0 {
        "0"
    } else if d == 1 {
        "1"
    } else if d == 2 {
        "2"
    } else if d == 3 {
        "3"
    } else if d == 4 {
        "4"
    } else if d == 5 {
        "5"
    } else if d == 6 {
        "6"
    } else if d == 7 {
        "7"
    } else if d == 8 {
        "8"
    } else {
        "9"
    }
}

/// Appends `n` in decimal.
pub fn push_decimal(s: &mut String, n: u128)
    ensures
        final(s)@ == old(s)@ + decimal(n as nat),
    decreases n,
{
    if n >= 10 {
        push_decimal(s, n / 10);
    }
    s.append(digit_str(n % 10));
    proof {
        if n >= 10 {
            assert(decimal(n as nat) == decimal((n / 10) as nat).push(digit_char((n % 10) as nat)));
        }
    }
}

fn rounded(p: u128, q: u128) -> (r: u128)
    ensures
        r == round_half_even(p as nat, q as nat),
{
    if q == 0 {
        return 0;
    }
    let fl = p / q;
    let rem = p % q;
    assert(fl <= p) by (nonlinear_arith)
        requires
            fl == p / q,
            q > 0,
    ;
    assert(rem < q) by (nonlinear_arith)
        requires
            rem == p % q,
            q > 0,
    ;
    if rem > q - rem {
        if fl == u128::MAX {
            assert(false) by (nonlinear_arith)
                requires
                    fl == p / q,
                    rem == p % q,
                    q > 0,
                    rem > 0,
                    p <= u128::MAX,
                    fl == u128::MAX,
            ;
        }
        fl + 1
    } else if rem < q - rem {
        fl
    } else if fl % 2 == 0 {
        fl
    } else {
        if fl == u128::MAX {
            assert(false) by (nonlinear_arith)
                requires
                    fl == p / q,
                    rem == p % q,
                    q > 0,
                    rem == q - rem,
                    p <= u128::MAX,
                    fl == u128::MAX,
            ;
        }
        fl + 1
    }
}

fn push_one_decimal(s: &mut String, tenths: u128)
    ensures
        final(s)@ == old(s)@ + one_decimal(tenths as nat),
{
    push_decimal(s, tenths / 10);
    s.append(".");
    push_decimal(s, tenths % 10);
    assert(final(s)@ =~= old(s)@ + one_decimal(tenths as nat)) by {
        assert(one_decimal(tenths as nat) == decimal((tenths / 10) as nat) + "."@ + decimal((tenths % 10) as nat));
    }
}

impl MetricsSnapshot {
    /// Frames received: CRC passed plus CRC failed.
    pub open spec fn packets_total(&self) -> nat {
        (self.packets_crc_passed + self.packets_crc_failed) as nat
    }

    /// The summary line, as `format_summary` writes it.
    pub open spec fn summary(&self) -> Seq<char> {
        decimal(self.packets_total()) + " pkts ("@
            + one_decimal(percent_tenths(self.packets_crc_passed as nat, self.packets_total()))
            + "% CRC OK), "@ + decimal(self.packets_decoded as nat) + " decoded, "@
            + decimal(self.aircraft_tracked as nat) + " aircraft, Types: "@
            + decimal(self.msg_identification as nat) + " ID, "@ + decimal(self.msg_position as nat)
            + " Pos, "@ + decimal(self.msg_velocity as nat) + " Vel | "@
            + decimal(round_half_even((self.packets_decoded * 1000) as nat, self.uptime.millis as nat))
            + " msg/s"@
    }

    /// The multi-line summary, as `format_detailed` writes it.
    pub open spec fn detailed(&self) -> Seq<char> {
        "Metrics Summary:\n├─ Decoder: "@ + decimal(self.packets_total()) + " packets ("@
            + one_decimal(percent_tenths(self.packets_crc_passed as nat, self.packets_total()))
            + "% CRC OK), "@ + decimal(self.packets_decoded as nat) + " decoded ("@
            + one_decimal(percent_tenths(
                self.packets_decoded as nat,
                (self.packets_decoded + self.packets_decode_failed) as nat,
            )) + "% success)\n├─ Messages: "@ + decimal(self.msg_identification as nat) + " ID, "@
            + decimal(self.msg_position as nat) + " Pos, "@ + decimal(self.msg_velocity as nat) + " Vel, "@
            + decimal(self.msg_other as nat) + " Other\n├─ Aircraft: "@ + decimal(self.aircraft_tracked as nat)
            + " tracked, "@ + decimal(self.updates_processed as nat) + " updates processed\n├─ Outputs: "@
            + decimal(self.output_beast as nat) + " BEAST, "@ + decimal(self.output_raw as nat) + " Raw, "@
            + decimal(self.output_sbs1 as nat) + " SBS-1, "@ + decimal(self.output_websocket as nat)
            + " WebSocket\n└─ Performance: "@
            + decimal(round_half_even((self.packets_decoded * 1000) as nat, self.uptime.millis as nat))
            + " msg/s over "@ + decimal(round_half_even(self.uptime.millis as nat, 1000)) + "s uptime"@
    }

    pub fn total_packets(&self) -> (r: u64)
        requires
            self.packets_total() <= u64::MAX,
        ensures
            r == self.packets_total(),
    {
        self.packets_crc_passed + self.packets_crc_failed
    }

    /// Messages sent to all outputs.
    pub fn total_output_messages(&self) -> (r: u64)
        requires
            self.output_beast + self.output_raw + self.output_sbs1 + self.output_websocket <= u64::MAX,
        ensures
            r == self.output_beast + self.output_raw + self.output_sbs1 + self.output_websocket,
    {
        self.output_beast + self.output_raw + self.output_sbs1 + self.output_websocket
    }

    /// The share of frames that passed the CRC check, in tenths of a
    /// percent, rounded as `{:.1}` rounds.
    pub fn crc_pass_rate(&self) -> (r: u128)
        ensures
            r == percent_tenths(self.packets_crc_passed as nat, self.packets_total()),
    {
        let total = self.packets_crc_passed as u128 + self.packets_crc_failed as u128;
        rounded(self.packets_crc_passed as u128 * 1000, total)
    }

    /// The share of decode attempts that succeeded, in tenths of a percent.
    pub fn decode_success_rate(&self) -> (r: u128)
        ensures
            r == percent_tenths(
                self.packets_decoded as nat,
                (self.packets_decoded + self.packets_decode_failed) as nat,
            ),
    {
        let total = self.packets_decoded as u128 + self.packets_decode_failed as u128;
        rounded(self.packets_decoded as u128 * 1000, total)
    }

    /// Decoded frames per second of uptime, rounded to a whole number.
    pub fn messages_per_second(&self) -> (r: u128)
        ensures
            r == round_half_even((self.packets_decoded * 1000) as nat, self.uptime.millis as nat),
    {
        rounded(self.packets_decoded as u128 * 1000, self.uptime.millis as u128)
    }

    /// A one-line summary for logging, e.g. `1050 pkts (95.2% CRC OK), 980
    /// decoded, 45 aircraft, Types: 100 ID, 600 Pos, 280 Vel | 98 msg/s`.
    pub fn format_summary(&self) -> (r: String)
        ensures
            r@ == self.summary(),
    {
        let mut s = String::new();
        let total = self.packets_crc_passed as u128 + self.packets_crc_failed as u128;
        push_decimal(&mut s, total);
        s.append(" pkts (");
        push_one_decimal(&mut s, self.crc_pass_rate());
        s.append("% CRC OK), ");
        push_decimal(&mut s, self.packets_decoded as u128);
        s.append(" decoded, ");
        push_decimal(&mut s, self.aircraft_tracked as u128);
        s.append(" aircraft, Types: ");
        push_decimal(&mut s, self.msg_identification as u128);
        s.append(" ID, ");
        push_decimal(&mut s, self.msg_position as u128);
        s.append(" Pos, ");
        push_decimal(&mut s, self.msg_velocity as u128);
        s.append(" Vel | ");
        push_decimal(&mut s, self.messages_per_second());
        s.append(" msg/s");
        s
    }

    /// A multi-line summary for logging.
    pub fn format_detailed(&self) -> (r: String)
        ensures
            r@ == self.detailed(),
    {
        let mut s = String::from_str("Metrics Summary:\n├─ Decoder: ");
        let total = self.packets_crc_passed as u128 + self.packets_crc_failed as u128;
        push_decimal(&mut s, total);
        s.append(" packets (");
        push_one_decimal(&mut s, self.crc_pass_rate());
        s.append("% CRC OK), ");
        push_decimal(&mut s, self.packets_decoded as u128);
        s.append(" decoded (");
        push_one_decimal(&mut s, self.decode_success_rate());
        s.append("% success)\n├─ Messages: ");
        push_decimal(&mut s, self.msg_identification as u128);
        s.append(" ID, ");
        push_decimal(&mut s, self.msg_position as u128);
        s.append(" Pos, ");
        push_decimal(&mut s, self.msg_velocity as u128);
        s.append(" Vel, ");
        push_decimal(&mut s, self.msg_other as u128);
        s.append(" Other\n├─ Aircraft: ");
        push_decimal(&mut s, self.aircraft_tracked as u128);
        s.append(" tracked, ");
        push_decimal(&mut s, self.updates_processed as u128);
        s.append(" updates processed\n├─ Outputs: ");
        push_decimal(&mut s, self.output_beast as u128);
        s.append(" BEAST, ");
        push_decimal(&mut s, self.output_raw as u128);
        s.append(" Raw, ");
        push_decimal(&mut s, self.output_sbs1 as u128);
        s.append(" SBS-1, ");
        push_decimal(&mut s, self.output_websocket as u128);
        s.append(" WebSocket\n└─ Performance: ");
        push_decimal(&mut s, self.messages_per_second());
        s.append(" msg/s over ");
        push_decimal(&mut s, rounded(self.uptime.millis as u128, 1000));
        s.append("s uptime");
        s
    }
}

} // verus!
