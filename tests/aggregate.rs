use sma_speedwire::catalog::Phase;
use sma_speedwire::frame::Frame;
use sma_speedwire::metrics::{exposed_mapping, MetricTable, Sample, SeriesKind};

fn frame(entries: &[(&str, &str)]) -> Frame {
    let mut f = Frame::new();
    for (k, v) in entries {
        f.insert(k.to_string(), v.to_string());
    }
    f
}

fn rendered(t: &MetricTable) -> Vec<(String, SeriesKind, Phase, u64)> {
    t.samples()
        .into_iter()
        .map(|s: Sample| (s.metric.to_string(), s.kind, s.phase, s.value))
        .collect()
}

#[test]
fn mapping_consolidates_phases() {
    let m = exposed_mapping();
    assert_eq!(m.len(), 35);
    let second = m.iter().find(|e| e.key == "p2supply").unwrap();
    assert_eq!(second.gauge, "smahomemanager_real_supplied_watts");
    assert_eq!(second.counter, Some("smahomemanager_real_supplied_watthours"));
    assert_eq!(second.phase, Phase::L2);
    let u3 = m.iter().find(|e| e.key == "u3").unwrap();
    assert_eq!(u3.counter, None);
}

#[test]
fn fresh_table_renders_nothing() {
    let t = MetricTable::new(exposed_mapping());
    assert!(t.samples().is_empty());
}

#[test]
fn gauge_and_counter_are_routed() {
    let mut t = MetricTable::new(exposed_mapping());
    let f = frame(&[("pconsume", "123"), ("pconsumeunit", "W"), ("p1supplycounter", "10000"), ("serial", "99")]);
    assert!(t.apply(&f).is_ok());
    assert_eq!(
        rendered(&t),
        vec![
            ("smahomemanager_real_consumed_watts".to_string(), SeriesKind::Gauge, Phase::Total, 123),
            ("smahomemanager_real_supplied_watthours".to_string(), SeriesKind::Counter, Phase::L1, 10000),
        ]
    );
}

#[test]
fn applying_twice_is_idempotent() {
    let mut t = MetricTable::new(exposed_mapping());
    let f = frame(&[("u2", "231"), ("psupply", "5"), ("psupplycounter", "10000")]);
    assert!(t.apply(&f).is_ok());
    let once = rendered(&t);
    assert!(t.apply(&f).is_ok());
    assert_eq!(rendered(&t), once);
    assert!(once.contains(&("smahomemanager_real_supplied_watthours".to_string(), SeriesKind::Counter, Phase::Total, 10000)));
}

#[test]
fn later_frame_overwrites_and_keeps_others() {
    let mut t = MetricTable::new(exposed_mapping());
    assert!(t.apply(&frame(&[("i1", "5"), ("i2", "6")])).is_ok());
    assert!(t.apply(&frame(&[("i1", "7")])).is_ok());
    assert_eq!(
        rendered(&t),
        vec![
            ("smahomemanager_current_milliamperes".to_string(), SeriesKind::Gauge, Phase::L1, 7),
            ("smahomemanager_current_milliamperes".to_string(), SeriesKind::Gauge, Phase::L2, 6),
        ]
    );
}

#[test]
fn unparsable_value_leaves_table_unchanged() {
    let mut t = MetricTable::new(exposed_mapping());
    assert!(t.apply(&frame(&[("frequency", "50")])).is_ok());
    let before = rendered(&t);
    let err = t.apply(&frame(&[("frequency", "49"), ("q3supplycounter", "x1")])).err().unwrap();
    assert_eq!(err.key, "q3supplycounter");
    assert_eq!(rendered(&t), before);
}

#[test]
fn decoded_frame_applies() {
    let mut d = vec![0u8; 28];
    d[..3].copy_from_slice(b"SMA");
    d[12..14].copy_from_slice(&(12u16 + 20).to_be_bytes());
    d.extend_from_slice(&[0, 41, 4, 0, 0, 0, 0x30, 0x39]);
    d.extend_from_slice(&[0, 41, 8, 0, 0, 0, 0, 0, 0, 0, 0x8c, 0xa0]);
    let f = sma_speedwire::decoder::decode_speedwire(&d);
    let mut t = MetricTable::new(exposed_mapping());
    assert!(t.apply(&f).is_ok());
    assert_eq!(
        rendered(&t),
        vec![
            ("smahomemanager_real_consumed_watts".to_string(), SeriesKind::Gauge, Phase::L2, 1234),
            ("smahomemanager_real_consumed_watthours".to_string(), SeriesKind::Counter, Phase::L2, 10),
        ]
    );
}
