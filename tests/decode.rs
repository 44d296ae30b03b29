use sma_speedwire::bytes::{decimal_string, parse_decimal};
use sma_speedwire::catalog::{channel, Phase, Unit};
use sma_speedwire::decoder::{decode_obis, decode_speedwire, RecordKind};

fn datagram(serial: u32, records: &[u8]) -> Vec<u8> {
    let mut d = vec![0u8; 28];
    d[0] = b'S';
    d[1] = b'M';
    d[2] = b'A';
    let len = (12 + records.len()) as u16;
    d[12..14].copy_from_slice(&len.to_be_bytes());
    d[14..16].copy_from_slice(&[0x00, 0x10]);
    d[20..24].copy_from_slice(&serial.to_be_bytes());
    d[24..28].copy_from_slice(&0x0102_0304u32.to_be_bytes());
    d.extend_from_slice(records);
    d
}

fn actual(code: u16, raw: u32) -> Vec<u8> {
    let mut r = code.to_be_bytes().to_vec();
    r.extend_from_slice(&[4, 0]);
    r.extend_from_slice(&raw.to_be_bytes());
    r
}

fn counter(code: u16, raw: u64) -> Vec<u8> {
    let mut r = code.to_be_bytes().to_vec();
    r.extend_from_slice(&[8, 0]);
    r.extend_from_slice(&raw.to_be_bytes());
    r
}

fn get(d: &[u8], key: &str) -> Option<String> {
    decode_speedwire(d).get(key)
}

#[test]
fn foreign_datagram_is_empty() {
    let mut d = datagram(7, &actual(1, 1234));
    d[0] = b'X';
    assert!(decode_speedwire(&d).is_empty());
    assert!(decode_speedwire(&[]).is_empty());
    assert!(decode_speedwire(b"HTTP/1.1 200 OK").is_empty());
}

#[test]
fn short_datagram_with_prefix_is_empty() {
    assert!(decode_speedwire(b"SMA").is_empty());
    assert!(decode_speedwire(&datagram(1, &[])[..27]).is_empty());
}

#[test]
fn serial_number_is_exposed() {
    let d = datagram(3_000_123_456, &[]);
    let f = decode_speedwire(&d);
    assert_eq!(f.get("serial").as_deref(), Some("3000123456"));
    assert!(!f.contains_key("timestamp"));
}

#[test]
fn actual_real_consumed_power() {
    let d = datagram(1, &actual(1, 1234));
    assert_eq!(get(&d, "pconsume").as_deref(), Some("123"));
    assert_eq!(get(&d, "pconsumeunit").as_deref(), Some("W"));
}

#[test]
fn counter_real_supplied_energy() {
    let d = datagram(1, &counter(2, 36_000_000));
    assert_eq!(get(&d, "psupplycounter").as_deref(), Some("10000"));
    assert_eq!(get(&d, "psupplycounterunit").as_deref(), Some("Wh"));
    assert_eq!(get(&d, "psupply"), None);
}

#[test]
fn unknown_code_is_skipped() {
    let mut records = actual(9999, 555);
    records.extend(actual(32, 230_123));
    let d = datagram(1, &records);
    let f = decode_speedwire(&d);
    assert!(!f.contains_key("9999"));
    assert_eq!(f.get("u1").as_deref(), Some("230"));
    assert_eq!(f.get("u1unit").as_deref(), Some("V"));
}

#[test]
fn unknown_record_type_is_skipped() {
    let mut records = vec![0, 1, 7, 0, 0, 0, 0, 0];
    records.extend(actual(14, 50_012));
    let f = decode_speedwire(&datagram(1, &records));
    assert!(!f.contains_key("pconsume"));
    assert_eq!(f.get("frequency").as_deref(), Some("50"));
    assert_eq!(f.get("frequencyunit").as_deref(), Some("Hz"));
}

#[test]
fn version_record_is_skipped() {
    let mut records = vec![0x90, 0x00, 0, 0, 2, 0, 0, 0x52];
    records.extend(counter(21, 7_200));
    let f = decode_speedwire(&datagram(1, &records));
    assert!(!f.contains_key("speedwire-version"));
    assert_eq!(f.get("p1consumecounter").as_deref(), Some("2"));
}

#[test]
fn decoding_is_deterministic() {
    let mut records = actual(1, 1234);
    records.extend(counter(2, 36_000_000));
    records.extend(actual(33, 998));
    let d = datagram(42, &records);
    let a = decode_speedwire(&d);
    let b = decode_speedwire(&d);
    for key in ["serial", "pconsume", "pconsumeunit", "psupplycounter", "psupplycounterunit", "cosphi1", "cosphi1unit", "none"] {
        assert_eq!(a.get(key), b.get(key));
    }
    assert_eq!(a.get("cosphi1unit").as_deref(), Some("°"));
    assert_eq!(a.get("cosphi1").as_deref(), Some("0"));
}

#[test]
fn counter_without_counter_unit_is_ignored() {
    let f = decode_speedwire(&datagram(1, &counter(13, 5_000)));
    assert!(!f.contains_key("cosphicounter"));
    assert!(!f.contains_key("cosphi"));
}

#[test]
fn declared_length_past_buffer_is_clamped() {
    let mut d = datagram(1, &actual(3, 100));
    d[12..14].copy_from_slice(&0xffffu16.to_be_bytes());
    let f = decode_speedwire(&d);
    assert_eq!(f.get("qconsume").as_deref(), Some("10"));
    assert_eq!(f.get("qconsumeunit").as_deref(), Some("VAr"));
}

#[test]
fn truncated_record_ends_decoding() {
    let mut records = actual(9, 4_321);
    records.extend_from_slice(&counter(10, 7_200_000)[..9]);
    let mut d = datagram(1, &records);
    d[12..14].copy_from_slice(&((12 + 20) as u16).to_be_bytes());
    let f = decode_speedwire(&d);
    assert_eq!(f.get("sconsume").as_deref(), Some("432"));
    assert!(!f.contains_key("ssupplycounter"));
}

#[test]
fn records_past_declared_end_are_ignored() {
    let mut records = actual(1, 1234);
    records.extend(actual(2, 990));
    let mut d = datagram(1, &records);
    d[12..14].copy_from_slice(&((12 + 8) as u16).to_be_bytes());
    let f = decode_speedwire(&d);
    assert_eq!(f.get("pconsume").as_deref(), Some("123"));
    assert!(!f.contains_key("psupply"));
}

#[test]
fn large_counter_value() {
    let f = decode_speedwire(&datagram(1, &counter(62, u64::MAX)));
    assert_eq!(f.get("p3supplycounter").as_deref(), Some("5124095576030431"));
}

#[test]
fn obis_header_kinds() {
    assert_eq!(decode_obis(&[0, 1, 4], 0), (1, RecordKind::Actual));
    assert_eq!(decode_obis(&[9, 0, 2, 8], 1), (2, RecordKind::Counter));
    assert_eq!(decode_obis(&[0x90, 0x00, 0], 0), (36864, RecordKind::Version));
    assert_eq!(decode_obis(&[0x00, 0x01, 0], 0), (1, RecordKind::Unknown));
}

#[test]
fn catalog_lookup() {
    let c = channel(22).unwrap();
    assert_eq!(c.name, "p1supply");
    assert_eq!(c.unit, Some(Unit::Watt));
    assert_eq!(c.counter_unit, Some(Unit::WattHour));
    assert_eq!(c.phase, Phase::L1);
    assert_eq!(channel(71).unwrap().phase, Phase::L3);
    assert!(channel(9999).is_none());
    assert_eq!(Unit::VoltAmpereReactiveHour.divisor(), 3600);
    assert_eq!(Unit::Ampere.divisor(), 1000);
    assert_eq!(Unit::VoltAmpere.symbol(), "VA");
    assert_eq!(Phase::L2.label(), "L2");
}

#[test]
fn decimal_text() {
    assert_eq!(decimal_string(0), "0");
    assert_eq!(decimal_string(10000), "10000");
    assert_eq!(decimal_string(u64::MAX), "18446744073709551615");
    assert_eq!(parse_decimal("10000"), Some(10000));
    assert_eq!(parse_decimal("18446744073709551615"), Some(u64::MAX));
    assert_eq!(parse_decimal("18446744073709551616"), None);
    assert_eq!(parse_decimal(""), None);
    assert_eq!(parse_decimal("12a"), None);
    assert_eq!(parse_decimal("-1"), None);
    assert_eq!(parse_decimal("°"), None);
}
