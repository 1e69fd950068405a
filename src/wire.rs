//! Encodings of raw frames for the raw sinks: BEAST binary framing and its
//! parser, AVR text and raw hex text.
use vstd::prelude::*;

verus! {

/// The BEAST frame marker, doubled wherever it occurs in a frame's body.
pub const BEAST_ESCAPE: u8 = 0x1A;

/// Type byte of a 7-byte Mode-S frame.
pub const BEAST_SHORT: u8 = 0x32;

/// Type byte of a 14-byte Mode-S frame.
pub const BEAST_LONG: u8 = 0x33;

/// One byte as it stands in a BEAST body.
pub open spec fn escape_byte(b: u8) -> Seq<u8> {
    if b == BEAST_ESCAPE {
        seq![BEAST_ESCAPE, BEAST_ESCAPE]
    } else {
        seq![b]
    }
}

/// `bytes` with every marker byte doubled.
pub open spec fn escaped(bytes: Seq<u8>) -> Seq<u8>
    decreases bytes.len(),
{
    if bytes.len() == 0 {
        seq![]
    } else {
        escape_byte(bytes[0]) + escaped(bytes.skip(1))
    }
}

/// `p` put before the bytes in `o`.
pub open spec fn prepend(p: Seq<u8>, o: Option<Seq<u8>>) -> Option<Seq<u8>> {
    match o {
        Some(r) => Some(p + r),
        None => None,
    }
}

/// The bytes that an escaped body stands for; none when a marker byte is
/// not doubled.
pub open spec fn unescaped(s: Seq<u8>) -> Option<Seq<u8>>
    decreases s.len(),
{
    if s.len() == 0 {
        Some(seq![])
    } else if s[0] == BEAST_ESCAPE {
        if s.len() >= 2 && s[1] == BEAST_ESCAPE {
            prepend(seq![BEAST_ESCAPE], unescaped(s.skip(2)))
        } else {
            None
        }
    } else {
        prepend(seq![s[0]], unescaped(s.skip(1)))
    }
}

/// The low 48 bits of `ts`, most significant byte first.
pub open spec fn be48(ts: u64) -> Seq<u8> {
    seq![
        ((ts >> 40u64) & 0xff) as u8,
        ((ts >> 32u64) & 0xff) as u8,
        ((ts >> 24u64) & 0xff) as u8,
        ((ts >> 16u64) & 0xff) as u8,
        ((ts >> 8u64) & 0xff) as u8,
        (ts & 0xff) as u8,
    ]
}

/// The number that six bytes give, most significant first.
pub open spec fn from_be48(b: Seq<u8>) -> u64 {
    ((b[0] as u64) << 40u64) | ((b[1] as u64) << 32u64) | ((b[2] as u64) << 24u64) | ((b[3] as u64) << 16u64)
        | ((b[4] as u64) << 8u64) | (b[5] as u64)
}

/// The type byte for a frame of `len` bytes.
pub open spec fn beast_type(len: nat) -> u8 {
    if len == 7 {
        BEAST_SHORT
    } else {
        BEAST_LONG
    }
}

/// The BEAST encoding of `frame` with timestamp `ts` (12 MHz ticks, low 48
/// bits) and signal level `signal`.
pub open spec fn beast_frame(frame: Seq<u8>, ts: u64, signal: u8) -> Seq<u8> {
    seq![BEAST_ESCAPE, beast_type(frame.len())] + escaped(be48(ts) + seq![signal] + frame)
}

/// What a BEAST frame holds: frame bytes, timestamp and signal level; none
/// when `s` is not exactly one well-formed frame.
pub open spec fn beast_parse(s: Seq<u8>) -> Option<(Seq<u8>, u64, u8)> {
    if s.len() < 2 || s[0] != BEAST_ESCAPE || (s[1] != BEAST_SHORT && s[1] != BEAST_LONG) {
        None
    } else {
        let n: nat = if s[1] == BEAST_SHORT { 7 } else { 14 };
        match unescaped(s.skip(2)) {
            Some(body) => if body.len() == 7 + n {
                Some((body.skip(7), from_be48(body.take(6)), body[6]))
            } else {
                None
            },
            None => None,
        }
    }
}

pub proof fn lemma_escaped_concat(a: Seq<u8>, b: Seq<u8>)
    ensures
        escaped(a + b) == escaped(a) + escaped(b),
    decreases a.len(),
{
    if a.len() == 0 {
        assert(a + b =~= b);
    } else {
        assert((a + b).skip(1) =~= a.skip(1) + b);
        lemma_escaped_concat(a.skip(1), b);
        assert((a + b)[0] == a[0]);
        assert(escape_byte(a[0]) + (escaped(a.skip(1)) + escaped(b)) =~= (escape_byte(a[0]) + escaped(a.skip(1)))
            + escaped(b));
    }
}

proof fn lemma_escaped_single(b: u8)
    ensures
        escaped(seq![b]) == escape_byte(b),
{
    let one = seq![b];
    assert(one.skip(1) =~= Seq::<u8>::empty());
    assert(escaped(Seq::<u8>::empty()) == Seq::<u8>::empty());
    assert(escape_byte(b) + Seq::<u8>::empty() =~= escape_byte(b));
}

pub proof fn lemma_unescape_escaped(b: Seq<u8>)
    ensures
        unescaped(escaped(b)) == Some(b),
    decreases b.len(),
{
    if b.len() > 0 {
        let e = escaped(b);
        lemma_unescape_escaped(b.skip(1));
        if b[0] == BEAST_ESCAPE {
            assert(e.skip(2) =~= escaped(b.skip(1)));
            assert(seq![BEAST_ESCAPE] + b.skip(1) =~= b);
        } else {
            assert(e.skip(1) =~= escaped(b.skip(1)));
            assert(seq![b[0]] + b.skip(1) =~= b);
        }
    } else {
        assert(escaped(b) =~= seq![]);
    }
}

pub proof fn lemma_be48_round_trip(ts: u64)
    requires
        ts < 0x1_0000_0000_0000,
    ensures
        from_be48(be48(ts)) == ts,
{
    assert(((((((ts >> 40u64) & 0xff) as u8) as u64) << 40u64) | (((((ts >> 32u64) & 0xff) as u8) as u64) << 32u64)
        | (((((ts >> 24u64) & 0xff) as u8) as u64) << 24u64) | (((((ts >> 16u64) & 0xff) as u8) as u64) << 16u64)
        | (((((ts >> 8u64) & 0xff) as u8) as u64) << 8u64) | (((ts & 0xff) as u8) as u64)) == ts)
        by (bit_vector)
        requires
            ts < 0x1_0000_0000_0000u64,
    ;
}

/// Parsing a BEAST frame gives back the frame bytes, the timestamp and the
/// signal level it was made from, whatever marker bytes had to be doubled.
pub proof fn lemma_beast_round_trip(frame: Seq<u8>, ts: u64, signal: u8)
    requires
        frame.len() == 7 || frame.len() == 14,
        ts < 0x1_0000_0000_0000,
    ensures
        beast_parse(beast_frame(frame, ts, signal)) == Some((frame, ts, signal)),
{
    let body = be48(ts) + seq![signal] + frame;
    let s = beast_frame(frame, ts, signal);
    assert(s.skip(2) =~= escaped(body));
    lemma_unescape_escaped(body);
    assert(body.skip(7) =~= frame);
    assert(body.take(6) =~= be48(ts));
    lemma_be48_round_trip(ts);
}

fn push_escaped(out: &mut Vec<u8>, b: u8)
    ensures
        final(out)@ == old(out)@ + escape_byte(b),
{
    out.push(b);
    if b == BEAST_ESCAPE {
        out.push(b);
    }
    assert(final(out)@ =~= old(out)@ + escape_byte(b));
}

fn push_all_escaped(out: &mut Vec<u8>, bytes: &[u8])
    ensures
        final(out)@ == old(out)@ + escaped(bytes@),
{
    let mut i: usize = 0;
    while i < bytes.len()
        invariant
            i <= bytes@.len(),
            out@ == old(out)@ + escaped(bytes@.take(i as int)),
        decreases bytes@.len() - i,
    {
        let ghost before = out@;
        push_escaped(out, bytes[i]);
        proof {
            assert(bytes@.take(i as int + 1) =~= bytes@.take(i as int) + seq![bytes@[i as int]]);
            lemma_escaped_concat(bytes@.take(i as int), seq![bytes@[i as int]]);
            lemma_escaped_single(bytes@[i as int]);
        }
        i = i + 1;
    }
    assert(bytes@.take(i as int) =~= bytes@);
}

/// The BEAST encoding of a 7- or 14-byte frame; none for another length.
pub fn beast_encode(frame: &[u8], ts: u64, signal: u8) -> (r: Option<Vec<u8>>)
    ensures
        (frame@.len() == 7 || frame@.len() == 14) ==> (r matches Some(v) && v@ == beast_frame(frame@, ts, signal)),
        !(frame@.len() == 7 || frame@.len() == 14) ==> r is None,
{
    if frame.len() != 7 && frame.len() != 14 {
        return None;
    }
    let mut out: Vec<u8> = Vec::new();
    out.push(BEAST_ESCAPE);
    out.push(if frame.len() == 7 { BEAST_SHORT } else { BEAST_LONG });
    let head: [u8; 7] = [
        ((ts >> 40u64) & 0xff) as u8,
        ((ts >> 32u64) & 0xff) as u8,
        ((ts >> 24u64) & 0xff) as u8,
        ((ts >> 16u64) & 0xff) as u8,
        ((ts >> 8u64) & 0xff) as u8,
        (ts & 0xff) as u8,
        signal,
    ];
    let ghost start = out@;
    push_all_escaped(&mut out, head.as_slice());
    push_all_escaped(&mut out, frame);
    proof {
        assert(head@ =~= be48(ts) + seq![signal]);
        lemma_escaped_concat(be48(ts) + seq![signal], frame@);
        assert(start =~= seq![BEAST_ESCAPE, beast_type(frame@.len())]);
        assert(out@ =~= beast_frame(frame@, ts, signal));
    }
    Some(out)
}

/// Undoes the marker doubling from `start` on.
fn unescape_from(s: &[u8], start: usize) -> (r: Option<Vec<u8>>)
    requires
        start <= s@.len(),
    ensures
        match r {
            Some(v) => unescaped(s@.skip(start as int)) == Some(v@),
            None => unescaped(s@.skip(start as int)) is None,
        },
{
    let mut out: Vec<u8> = Vec::new();
    let mut i: usize = start;
    while i < s.len()
        invariant
            start <= i <= s@.len(),
            unescaped(s@.skip(start as int)) == prepend(out@, unescaped(s@.skip(i as int))),
        decreases s@.len() - i,
    {
        let b = s[i];
        let ghost rest = s@.skip(i as int);
        if b == BEAST_ESCAPE {
            if i + 1 < s.len() && s[i + 1] == BEAST_ESCAPE {
                let ghost before = out@;
                out.push(BEAST_ESCAPE);
                proof {
                    assert(rest.skip(2) =~= s@.skip(i + 2));
                    match unescaped(s@.skip(i + 2)) {
                        Some(t) => {
                            assert(before + (seq![BEAST_ESCAPE] + t) =~= out@ + t);
                        },
                        None => {},
                    }
                }
                i = i + 2;
            } else {
                proof {
                    assert(rest[0] == BEAST_ESCAPE);
                    if i + 1 < s.len() {
                        assert(rest[1] == s@[i + 1]);
                    }
                }
                return None;
            }
        } else {
            let ghost before = out@;
            out.push(b);
            proof {
                assert(rest.skip(1) =~= s@.skip(i + 1));
                match unescaped(s@.skip(i + 1)) {
                    Some(t) => {
                        assert(before + (seq![b] + t) =~= out@ + t);
                    },
                    None => {},
                }
            }
            i = i + 1;
        }
    }
    proof {
        assert(s@.skip(i as int) =~= seq![]);
        assert(out@ + seq![] =~= out@);
    }
    Some(out)
}

/// Reads one BEAST frame: its frame bytes, timestamp and signal level; none
/// when `s` is not exactly one well-formed frame.
pub fn beast_decode(s: &[u8]) -> (r: Option<(Vec<u8>, u64, u8)>)
    ensures
        match r {
            Some((f, ts, sig)) => beast_parse(s@) == Some((f@, ts, sig)),
            None => beast_parse(s@) is None,
        },
{
    if s.len() < 2 || s[0] != BEAST_ESCAPE || (s[1] != BEAST_SHORT && s[1] != BEAST_LONG) {
        return None;
    }
    let n: usize = if s[1] == BEAST_SHORT { 7 } else { 14 };
    match unescape_from(s, 2) {
        Some(body) => {
            if body.len() != 7 + n {
                return None;
            }
            let ts: u64 = ((body[0] as u64) << 40u64) | ((body[1] as u64) << 32u64) | ((body[2] as u64) << 24u64)
                | ((body[3] as u64) << 16u64) | ((body[4] as u64) << 8u64) | (body[5] as u64);
            let signal = body[6];
            let mut frame: Vec<u8> = Vec::new();
            let mut i: usize = 7;
            while i < body.len()
                invariant
                    7 <= i <= body@.len(),
                    frame@ == body@.subrange(7, i as int),
                decreases body@.len() - i,
            {
                frame.push(body[i]);
                proof {
                    assert(body@.subrange(7, i + 1) =~= body@.subrange(7, i as int).push(body@[i as int]));
                }
                i = i + 1;
            }
            proof {
                assert(body@.skip(7) =~= body@.subrange(7, body@.len() as int));
                assert(body@.take(6)[0] == body@[0]);
                assert(body@.take(6)[1] == body@[1]);
                assert(body@.take(6)[2] == body@[2]);
                assert(body@.take(6)[3] == body@[3]);
                assert(body@.take(6)[4] == body@[4]);
                assert(body@.take(6)[5] == body@[5]);
            }
            Some((frame, ts, signal))
        },
        None => None,
    }
}

/// The 12 MHz tick count, low 48 bits, of an instant in milliseconds.
pub open spec fn ticks_of(ms: u64) -> u64 {
    ((ms as int * 12000) % 0x1_0000_0000_0000) as u64
}

/// The 12 MHz tick count, low 48 bits, of an instant in milliseconds: the
/// clock of BEAST and AVR frames.
pub fn ticks_12mhz(ms: u64) -> (r: u64)
    ensures
        r == ticks_of(ms),
{
    ((ms as u128 * 12000) % 0x1_0000_0000_0000) as u64
}

/// What a BEAST sink sends for a 7- or 14-byte frame detected at
/// `timestamp_ms` with signal level `signal`; none for another length.
pub fn beast_for_sink(frame: &[u8], timestamp_ms: u64, signal: u8) -> (r: Option<Vec<u8>>)
    ensures
        (frame@.len() == 7 || frame@.len() == 14) ==> (r matches Some(v) && v@ == beast_frame(
            frame@,
            ticks_of(timestamp_ms),
            signal,
        )),
        !(frame@.len() == 7 || frame@.len() == 14) ==> r is None,
{
    beast_encode(frame, ticks_12mhz(timestamp_ms), signal)
}

/// The bytes a BEAST sink sends for a frame parse back to that frame, the
/// detection time in 12 MHz ticks and the signal level.
pub proof fn lemma_sink_frame_round_trip(frame: Seq<u8>, timestamp_ms: u64, signal: u8)
    requires
        frame.len() == 7 || frame.len() == 14,
    ensures
        beast_parse(beast_frame(frame, ticks_of(timestamp_ms), signal)) == Some(
            (frame, ticks_of(timestamp_ms), signal),
        ),
{
    lemma_beast_round_trip(frame, ticks_of(timestamp_ms), signal);
}

/// The upper-case hex digit of `d`.
pub open spec fn hex_char(d: nat) -> char {
    if d < 10 {
        if d == 0 { '0' } else if d == 1 { '1' } else if d == 2 { '2' } else if d == 3 { '3' } else if d == 4 {
            '4'
        } else if d == 5 { '5' } else if d == 6 { '6' } else if d == 7 { '7' } else if d == 8 { '8' } else { '9' }
    } else if d == 10 {
        'A'
    } else if d == 11 {
        'B'
    } else if d == 12 {
        'C'
    } else if d == 13 {
        'D'
    } else if d == 14 {
        'E'
    } else {
        'F'
    }
}

/// `bytes` in upper-case hex, two digits each.
pub open spec fn upper_hex(bytes: Seq<u8>) -> Seq<char>
    decreases bytes.len(),
{
    if bytes.len() == 0 {
        seq![]
    } else {
        upper_hex(bytes.drop_last()) + seq![hex_char((bytes.last() / 16) as nat), hex_char((bytes.last() % 16) as nat)]
    }
}

/// The raw-hex line of a frame: `*`, the bytes in upper-case hex, `;` and a
/// newline.
pub open spec fn raw_line(frame: Seq<u8>) -> Seq<char> {
    seq!['*'] + upper_hex(frame) + seq![';', '\n']
}

/// The AVR line of a frame: `@`, the 48-bit timestamp as 12 hex digits, the
/// bytes in upper-case hex, `;` and a newline.
pub open spec fn avr_line(frame: Seq<u8>, ts: u64) -> Seq<char> {
    seq!['@'] + upper_hex(be48(ts)) + upper_hex(frame) + seq![';', '\n']
}

fn hex_digit(d: u8) -> (r: char)
    requires
        d < 16,
    ensures
        r == hex_char(d as nat),
{
    if d == 0 { '0' } else if d == 1 { '1' } else if d == 2 { '2' } else if d == 3 { '3' } else if d == 4 { '4' } else if d
        == 5 { '5' } else if d == 6 { '6' } else if d == 7 { '7' } else if d == 8 { '8' } else if d == 9 { '9' } else if d
        == 10 { 'A' } else if d == 11 { 'B' } else if d == 12 { 'C' } else if d == 13 { 'D' } else if d == 14 { 'E' } else {
        'F'
    }
}

fn push_hex(out: &mut Vec<char>, bytes: &[u8])
    ensures
        final(out)@ == old(out)@ + upper_hex(bytes@),
{
    let mut i: usize = 0;
    while i < bytes.len()
        invariant
            i <= bytes@.len(),
            out@ == old(out)@ + upper_hex(bytes@.take(i as int)),
        decreases bytes@.len() - i,
    {
        let b = bytes[i];
        out.push(hex_digit(b / 16));
        out.push(hex_digit(b % 16));
        proof {
            assert(bytes@.take(i as int + 1).drop_last() =~= bytes@.take(i as int));
            assert(bytes@.take(i as int + 1).last() == b);
            assert(out@ =~= old(out)@ + upper_hex(bytes@.take(i as int + 1)));
        }
        i = i + 1;
    }
    assert(bytes@.take(i as int) =~= bytes@);
}

/// The raw-hex line of `frame`, as characters.
pub fn raw_encode(frame: &[u8]) -> (r: Vec<char>)
    ensures
        r@ == raw_line(frame@),
{
    let mut out: Vec<char> = Vec::new();
    out.push('*');
    push_hex(&mut out, frame);
    out.push(';');
    out.push('\n');
    assert(out@ =~= raw_line(frame@));
    out
}

/// The AVR line of `frame` with timestamp `ts`, as characters.
pub fn avr_encode(frame: &[u8], ts: u64) -> (r: Vec<char>)
    ensures
        r@ == avr_line(frame@, ts),
{
    let mut out: Vec<char> = Vec::new();
    out.push('@');
    let stamp: [u8; 6] = [
        ((ts >> 40u64) & 0xff) as u8,
        ((ts >> 32u64) & 0xff) as u8,
        ((ts >> 24u64) & 0xff) as u8,
        ((ts >> 16u64) & 0xff) as u8,
        ((ts >> 8u64) & 0xff) as u8,
        (ts & 0xff) as u8,
    ];
    assert(stamp@ =~= be48(ts));
    push_hex(&mut out, stamp.as_slice());
    push_hex(&mut out, frame);
    out.push(';');
    out.push('\n');
    assert(out@ =~= avr_line(frame@, ts));
    out
}

} // verus!
