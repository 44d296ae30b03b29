//! Decoding of one Speedwire datagram into a [`Frame`].
//!
//! A datagram starts with the three bytes `SMA`. Bytes 12..16 hold the
//! payload length (its first two bytes, big-endian) and a protocol tag; the
//! payload ends 16 bytes after the start plus that length. The meter's serial
//! number is at offset 20 and a timestamp at offset 24. From offset 28 on come
//! OBIS records: a two-byte measurement code, a one-byte record type, then the
//! value.

use vstd::prelude::*;
use crate::bytes::{be16, be32, be64, decimal, decimal_string, read_be_u16, read_be_u32, read_be_u64};
use crate::catalog::{channel, channel_spec, Unit, VERSION_CODE};
use crate::frame::Frame;

verus! {

/// Offset of the first OBIS record; a datagram shorter than this holds no frame.
pub const HEADER_LEN: usize = 28;

/// The kind of an OBIS record, from its type byte and measurement code.
#[derive(Clone, Copy, Debug, PartialEq, Eq, Structural)]
pub enum RecordKind {
    /// An instantaneous reading: a four-byte value, eight bytes in all.
    Actual,
    /// A cumulative reading: an eight-byte value, twelve bytes in all.
    Counter,
    /// The protocol-version marker.
    Version,
    /// Anything else.
    Unknown,
}

pub open spec fn record_kind(code: u16, tag: u8) -> RecordKind {
    if tag == 4 {
        RecordKind::Actual
    } else if tag == 8 {
        RecordKind::Counter
    } else if tag == 0 && code == VERSION_CODE {
        RecordKind::Version
    } else {
        RecordKind::Unknown
    }
}

/// Whether the datagram starts with the protocol's magic prefix `SMA`.
pub open spec fn has_magic(d: Seq<u8>) -> bool {
    d.len() >= 3 && d[0] == 0x53u8 && d[1] == 0x4du8 && d[2] == 0x41u8
}

/// Where decoding stops: the declared payload end, clamped to the datagram.
pub open spec fn payload_end(d: Seq<u8>) -> int {
    let declared = 16 + be16(d, 12);
    if declared < d.len() {
        declared as int
    } else {
        d.len() as int
    }
}

/// `m` after an instantaneous reading `raw` of channel `code`.
pub open spec fn with_actual(m: Map<Seq<char>, Seq<char>>, code: u16, raw: u32) -> Map<Seq<char>, Seq<char>> {
    match channel_spec(code) {
        Some(ch) => match ch.unit {
            Some(u) => m.insert(ch.name@, decimal((raw / u.divisor_spec()) as nat)).insert(
                ch.name@ + "unit"@,
                u.symbol_spec()@,
            ),
            None => m,
        },
        None => m,
    }
}

/// `m` after a cumulative reading `raw` of channel `code`.
pub open spec fn with_counter(m: Map<Seq<char>, Seq<char>>, code: u16, raw: u64) -> Map<Seq<char>, Seq<char>> {
    match channel_spec(code) {
        Some(ch) => match ch.counter_unit {
            Some(u) => m.insert(
                ch.name@ + "counter"@,
                decimal((raw / (u.divisor_spec() as u64)) as nat),
            ).insert(ch.name@ + "counterunit"@, u.symbol_spec()@),
            None => m,
        },
        None => m,
    }
}

/// The number of bytes a record of this kind takes.
pub open spec fn record_len(kind: RecordKind) -> int {
    match kind {
        RecordKind::Counter => 12,
        _ => 8,
    }
}

/// `m` after the records from `pos` up to `end`. A record whose bytes would
/// run past the datagram ends decoding.
pub open spec fn decode_records(d: Seq<u8>, pos: int, end: int, m: Map<Seq<char>, Seq<char>>) -> Map<Seq<char>, Seq<char>>
    decreases d.len() - pos,
{
    if pos < 0 || pos >= end || pos + 3 > d.len() {
        m
    } else {
        let code = be16(d, pos) as u16;
        let kind = record_kind(code, d[pos + 2]);
        if pos + record_len(kind) > d.len() {
            m
        } else {
            let next = match kind {
                RecordKind::Actual => with_actual(m, code, be32(d, pos + 4) as u32),
                RecordKind::Counter => with_counter(m, code, be64(d, pos + 4) as u64),
                _ => m,
            };
            decode_records(d, pos + record_len(kind), end, next)
        }
    }
}

/// The frame a datagram decodes to: empty unless it starts with the magic
/// prefix and holds a whole header; otherwise the serial number and the
/// readings of every known channel in the payload.
pub open spec fn decode_spec(d: Seq<u8>) -> Map<Seq<char>, Seq<char>> {
    if !has_magic(d) || d.len() < HEADER_LEN {
        Map::empty()
    } else {
        decode_records(
            d,
            HEADER_LEN as int,
            payload_end(d),
            Map::empty().insert("serial"@, decimal(be32(d, 20))),
        )
    }
}

/// Reads the header of the OBIS record at `at`: its measurement code and kind.
pub fn decode_obis(d: &[u8], at: usize) -> (r: (u16, RecordKind))
    requires
        at + 3 <= d@.len(),
    ensures
        r.0 as nat == be16(d@, at as int),
        r.1 == record_kind(r.0, d@[at + 2]),
{
    let n = d.len();
    let code = read_be_u16(d, at);
    let tag = d[at + 2];
    let kind = if tag == 4 {
        RecordKind::Actual
    } else if tag == 8 {
        RecordKind::Counter
    } else if tag == 0 && code == VERSION_CODE {
        RecordKind::Version
    } else {
        RecordKind::Unknown
    };
    (code, kind)
}

pub(crate) fn suffixed(name: &str, suffix: &str) -> (r: String)
    ensures
        r@ == name@ + suffix@,
{
    let mut s = name.to_owned();
    s.append(suffix);
    s
}

fn add_actual(frame: &mut Frame, code: u16, raw: u32)
    requires
        old(frame).wf(),
    ensures
        final(frame).wf(),
        final(frame)@ == with_actual(old(frame)@, code, raw),
{
    if let Some(ch) = channel(code) {
        if let Some(u) = ch.unit {
            let value = raw / u.divisor();
            frame.insert(ch.name.to_owned(), decimal_string(value as u64));
            frame.insert(suffixed(ch.name, "unit"), u.symbol().to_owned());
        }
    }
}

fn add_counter(frame: &mut Frame, code: u16, raw: u64)
    requires
        old(frame).wf(),
    ensures
        final(frame).wf(),
        final(frame)@ == with_counter(old(frame)@, code, raw),
{
    if let Some(ch) = channel(code) {
        if let Some(u) = ch.counter_unit {
            let value = raw / (u.divisor() as u64);
            frame.insert(suffixed(ch.name, "counter"), decimal_string(value));
            frame.insert(suffixed(ch.name, "counterunit"), u.symbol().to_owned());
        }
    }
}

/// Decodes one datagram. Foreign datagrams (without the magic prefix) and
/// datagrams too short to hold a header give an empty frame; unknown channel
/// codes are skipped; nothing is read past the end of `datagram`.
pub fn decode_speedwire(datagram: &[u8]) -> (r: Frame)
    ensures
        r.wf(),
        r@ == decode_spec(datagram@),
        !has_magic(datagram@) ==> r@ == Map::<Seq<char>, Seq<char>>::empty(),
{
    let d = datagram;
    let mut frame = Frame::new();
    if d.len() < HEADER_LEN || !(d[0] == 0x53u8 && d[1] == 0x4du8 && d[2] == 0x41u8) {
        return frame;
    }
    let declared = read_be_u16(d, 12) as usize + 16;
    let end = if declared < d.len() {
        declared
    } else {
        d.len()
    };
    proof { assert(end == payload_end(d@)); }
    let serial = read_be_u32(d, 20);
    proof { reveal_strlit("serial"); }
    frame.insert("serial".to_owned(), decimal_string(serial as u64));
    // The timestamp at offset 24 carries nothing the frame reports.
    let mut pos: usize = HEADER_LEN;
    while pos < end
        invariant
            HEADER_LEN <= pos <= d@.len(),
            end <= d@.len(),
            end == payload_end(d@),
            has_magic(d@),
            d@.len() >= HEADER_LEN,
            frame.wf(),
            decode_records(d@, pos as int, end as int, frame@) == decode_spec(d@),
        decreases d@.len() - pos,
    {
        if d.len() - pos < 3 {
            pos = end;
        } else {
            let (code, kind) = decode_obis(d, pos);
            match kind {
                RecordKind::Actual => {
                    if d.len() - pos < 8 {
                        pos = end;
                    } else {
                        let raw = read_be_u32(d, pos + 4);
                        add_actual(&mut frame, code, raw);
                        pos = pos + 8;
                    }
                },
                RecordKind::Counter => {
                    if d.len() - pos < 12 {
                        pos = end;
                    } else {
                        let raw = read_be_u64(d, pos + 4);
                        add_counter(&mut frame, code, raw);
                        pos = pos + 12;
                    }
                },
                _ => {
                    if d.len() - pos < 8 {
                        pos = end;
                    } else {
                        pos = pos + 8;
                    }
                },
            }
        }
    }
    frame
}

/// A datagram without the magic prefix decodes to the empty frame.
pub proof fn lemma_foreign_datagram_is_empty(d: Seq<u8>)
    requires
        !has_magic(d),
    ensures
        decode_spec(d) == Map::<Seq<char>, Seq<char>>::empty(),
{
}

/// A record whose measurement code is not in the catalog adds nothing to the
/// frame, and decoding goes on with the record after it.
pub proof fn lemma_unknown_code_skipped(d: Seq<u8>, pos: int, end: int, m: Map<Seq<char>, Seq<char>>)
    requires
        0 <= pos < end,
        pos + 3 <= d.len(),
        channel_spec(be16(d, pos) as u16) is None,
        pos + record_len(record_kind(be16(d, pos) as u16, d[pos + 2])) <= d.len(),
    ensures
        decode_records(d, pos, end, m) == decode_records(
            d,
            pos + record_len(record_kind(be16(d, pos) as u16, d[pos + 2])),
            end,
            m,
        ),
{
}

/// Decoding depends on the bytes alone: equal datagrams give equal frames.
pub proof fn lemma_decode_deterministic(a: Seq<u8>, b: Seq<u8>)
    requires
        a == b,
    ensures
        decode_spec(a) == decode_spec(b),
{
}

} // verus!
