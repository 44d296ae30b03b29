//! Projection of decoded frames onto labelled metric series.
//!
//! Each entry of the exposed mapping routes one frame key to a gauge, and
//! its `counter` variant to a counter, of a metric shared by all phases and
//! told apart by the phase label.

use vstd::prelude::*;
use crate::bytes::{decimal, decimal_value, is_decimal, lemma_decimal_round_trip, parse_decimal};
use crate::decoder::{decode_records, decode_spec, with_actual, with_counter};
use crate::catalog::channel_spec;
use crate::catalog::Phase;
use crate::decoder::suffixed;
use crate::frame::Frame;

verus! {

/// Where one frame key is exposed.
#[derive(Clone, Copy, Debug)]
pub struct Exposure {
    /// The frame key of the instantaneous reading.
    pub key: &'static str,
    /// The gauge metric that carries the instantaneous reading.
    pub gauge: &'static str,
    /// The counter metric that carries the cumulative reading, if any.
    pub counter: Option<&'static str>,
    pub phase: Phase,
}

pub open spec fn exposure(key: &'static str, gauge: &'static str, counter: Option<&'static str>, phase: Phase) -> Exposure {
    Exposure { key, gauge, counter, phase }
}

fn make(key: &'static str, gauge: &'static str, counter: Option<&'static str>, phase: Phase) -> (r: Exposure)
    ensures
        r == exposure(key, gauge, counter, phase),
{
    Exposure { key, gauge, counter, phase }
}

/// The exposed mapping, in the order in which series are rendered.
pub open spec fn exposed_spec() -> Seq<Exposure> {
    let rw = "smahomemanager_real_consumed_watts";
    let rwh = Some("smahomemanager_real_consumed_watthours");
    let sw = "smahomemanager_real_supplied_watts";
    let swh = Some("smahomemanager_real_supplied_watthours");
    let rv = "smahomemanager_reactive_consumed_var";
    let rvh = Some("smahomemanager_reactive_consumed_varh");
    let sv = "smahomemanager_reactive_supplied_var";
    let svh = Some("smahomemanager_reactive_supplied_varh");
    let ra = "smahomemanager_apparent_consumed_va";
    let rah = Some("smahomemanager_apparent_consumed_vah");
    let sa = "smahomemanager_apparent_supplied_va";
    let sah = Some("smahomemanager_apparent_supplied_vah");
    let cos = "smahomemanager_cosphi_degrees";
    let amp = "smahomemanager_current_milliamperes";
    let volt = "smahomemanager_voltage_millivolts";
    seq![
        exposure("pconsume", rw, rwh, Phase::Total),
        exposure("psupply", sw, swh, Phase::Total),
        exposure("qconsume", rv, rvh, Phase::Total),
        exposure("qsupply", sv, svh, Phase::Total),
        exposure("sconsume", ra, rah, Phase::Total),
        exposure("ssupply", sa, sah, Phase::Total),
        exposure("cosphi", cos, None, Phase::Total),
        exposure("frequency", "smahomemanager_frequency_millihertz", None, Phase::Total),
        exposure("p1consume", rw, rwh, Phase::L1),
        exposure("p1supply", sw, swh, Phase::L1),
        exposure("q1consume", rv, rvh, Phase::L1),
        exposure("q1supply", sv, svh, Phase::L1),
        exposure("s1consume", ra, rah, Phase::L1),
        exposure("s1supply", sa, sah, Phase::L1),
        exposure("i1", amp, None, Phase::L1),
        exposure("u1", volt, None, Phase::L1),
        exposure("cosphi1", cos, None, Phase::L1),
        exposure("p2consume", rw, rwh, Phase::L2),
        exposure("p2supply", sw, swh, Phase::L2),
        exposure("q2consume", rv, rvh, Phase::L2),
        exposure("q2supply", sv, svh, Phase::L2),
        exposure("s2consume", ra, rah, Phase::L2),
        exposure("s2supply", sa, sah, Phase::L2),
        exposure("i2", amp, None, Phase::L2),
        exposure("u2", volt, None, Phase::L2),
        exposure("cosphi2", cos, None, Phase::L2),
        exposure("p3consume", rw, rwh, Phase::L3),
        exposure("p3supply", sw, swh, Phase::L3),
        exposure("q3consume", rv, rvh, Phase::L3),
        exposure("q3supply", sv, svh, Phase::L3),
        exposure("s3consume", ra, rah, Phase::L3),
        exposure("s3supply", sa, sah, Phase::L3),
        exposure("i3", amp, None, Phase::L3),
        exposure("u3", volt, None, Phase::L3),
        exposure("cosphi3", cos, None, Phase::L3),
    ]
}

/// Builds the exposed mapping.
pub fn exposed_mapping() -> (r: Vec<Exposure>)
    ensures
        r@ == exposed_spec(),
{
    let rw = "smahomemanager_real_consumed_watts";
    let rwh = Some("smahomemanager_real_consumed_watthours");
    let sw = "smahomemanager_real_supplied_watts";
    let swh = Some("smahomemanager_real_supplied_watthours");
    let rv = "smahomemanager_reactive_consumed_var";
    let rvh = Some("smahomemanager_reactive_consumed_varh");
    let sv = "smahomemanager_reactive_supplied_var";
    let svh = Some("smahomemanager_reactive_supplied_varh");
    let ra = "smahomemanager_apparent_consumed_va";
    let rah = Some("smahomemanager_apparent_consumed_vah");
    let sa = "smahomemanager_apparent_supplied_va";
    let sah = Some("smahomemanager_apparent_supplied_vah");
    let cos = "smahomemanager_cosphi_degrees";
    let amp = "smahomemanager_current_milliamperes";
    let volt = "smahomemanager_voltage_millivolts";
    let mut v: Vec<Exposure> = Vec::new();
    v.push(make("pconsume", rw, rwh, Phase::Total));
    v.push(make("psupply", sw, swh, Phase::Total));
    v.push(make("qconsume", rv, rvh, Phase::Total));
    v.push(make("qsupply", sv, svh, Phase::Total));
    v.push(make("sconsume", ra, rah, Phase::Total));
    v.push(make("ssupply", sa, sah, Phase::Total));
    v.push(make("cosphi", cos, None, Phase::Total));
    v.push(make("frequency", "smahomemanager_frequency_millihertz", None, Phase::Total));
    v.push(make("p1consume", rw, rwh, Phase::L1));
    v.push(make("p1supply", sw, swh, Phase::L1));
    v.push(make("q1consume", rv, rvh, Phase::L1));
    v.push(make("q1supply", sv, svh, Phase::L1));
    v.push(make("s1consume", ra, rah, Phase::L1));
    v.push(make("s1supply", sa, sah, Phase::L1));
    v.push(make("i1", amp, None, Phase::L1));
    v.push(make("u1", volt, None, Phase::L1));
    v.push(make("cosphi1", cos, None, Phase::L1));
    v.push(make("p2consume", rw, rwh, Phase::L2));
    v.push(make("p2supply", sw, swh, Phase::L2));
    v.push(make("q2consume", rv, rvh, Phase::L2));
    v.push(make("q2supply", sv, svh, Phase::L2));
    v.push(make("s2consume", ra, rah, Phase::L2));
    v.push(make("s2supply", sa, sah, Phase::L2));
    v.push(make("i2", amp, None, Phase::L2));
    v.push(make("u2", volt, None, Phase::L2));
    v.push(make("cosphi2", cos, None, Phase::L2));
    v.push(make("p3consume", rw, rwh, Phase::L3));
    v.push(make("p3supply", sw, swh, Phase::L3));
    v.push(make("q3consume", rv, rvh, Phase::L3));
    v.push(make("q3supply", sv, svh, Phase::L3));
    v.push(make("s3consume", ra, rah, Phase::L3));
    v.push(make("s3supply", sa, sah, Phase::L3));
    v.push(make("i3", amp, None, Phase::L3));
    v.push(make("u3", volt, None, Phase::L3));
    v.push(make("cosphi3", cos, None, Phase::L3));
    assert(v@ =~= exposed_spec());
    v
}

/// Whether a frame value is the decimal text of a number that fits in 64 bits.
pub open spec fn parses(s: Seq<char>) -> bool {
    is_decimal(s) && decimal_value(s) <= u64::MAX
}

/// The frame key of an exposure's cumulative reading.
pub open spec fn counter_key(e: Exposure) -> Seq<char> {
    e.key@ + "counter"@
}

/// Whether the frame has a reading for the exposure's gauge.
pub open spec fn gauge_source(e: Exposure, f: Map<Seq<char>, Seq<char>>) -> bool {
    f.contains_key(e.key@)
}

/// Whether the frame has a reading for the exposure's counter.
pub open spec fn counter_source(e: Exposure, f: Map<Seq<char>, Seq<char>>) -> bool {
    e.counter.is_some() && f.contains_key(counter_key(e))
}

/// Whether every reading that the mapping routes from the frame is a number.
pub open spec fn applicable(mapping: Seq<Exposure>, f: Map<Seq<char>, Seq<char>>) -> bool {
    forall|i: int|
        0 <= i < mapping.len() ==> (gauge_source(#[trigger] mapping[i], f) ==> parses(f[mapping[i].key@]))
            && (counter_source(mapping[i], f) ==> parses(f[counter_key(mapping[i])]))
}

/// A gauge after a frame: overwritten where the frame has a reading.
pub open spec fn gauge_after(old: Option<u64>, e: Exposure, f: Map<Seq<char>, Seq<char>>) -> Option<u64> {
    if gauge_source(e, f) {
        Some(decimal_value(f[e.key@]) as u64)
    } else {
        old
    }
}

/// A counter after a frame: reset, then raised by the frame's running total,
/// so that it holds that total.
pub open spec fn counter_after(old: Option<u64>, e: Exposure, f: Map<Seq<char>, Seq<char>>) -> Option<u64> {
    if counter_source(e, f) {
        Some(decimal_value(f[counter_key(e)]) as u64)
    } else {
        old
    }
}

pub open spec fn gauges_after(mapping: Seq<Exposure>, gauges: Seq<Option<u64>>, f: Map<Seq<char>, Seq<char>>) -> Seq<Option<u64>> {
    Seq::new(gauges.len(), |i: int| gauge_after(gauges[i], mapping[i], f))
}

pub open spec fn counters_after(mapping: Seq<Exposure>, counters: Seq<Option<u64>>, f: Map<Seq<char>, Seq<char>>) -> Seq<Option<u64>> {
    Seq::new(counters.len(), |i: int| counter_after(counters[i], mapping[i], f))
}

/// Whether a series is a gauge or a counter.
#[derive(Clone, Copy, Debug, PartialEq, Eq, Structural)]
pub enum SeriesKind {
    Gauge,
    Counter,
}

/// One rendered series value: a metric, its phase label and its value.
#[derive(Clone, Copy, Debug)]
pub struct Sample {
    pub metric: &'static str,
    pub kind: SeriesKind,
    pub phase: Phase,
    pub value: u64,
}

/// The state of all series: for each exposure, the last gauge and counter
/// value, if one was ever set.
pub struct SeriesView {
    pub mapping: Seq<Exposure>,
    pub gauges: Seq<Option<u64>>,
    pub counters: Seq<Option<u64>>,
}

/// The samples of one exposure: its gauge, then its counter.
pub open spec fn cell_samples(e: Exposure, g: Option<u64>, c: Option<u64>) -> Seq<Sample> {
    let gs = match g {
        Some(v) => seq![Sample { metric: e.gauge, kind: SeriesKind::Gauge, phase: e.phase, value: v }],
        None => Seq::empty(),
    };
    let cs = match (e.counter, c) {
        (Some(name), Some(v)) => seq![Sample { metric: name, kind: SeriesKind::Counter, phase: e.phase, value: v }],
        _ => Seq::empty(),
    };
    gs + cs
}

/// The samples of the first `n` exposures, in mapping order.
pub open spec fn samples_upto(s: SeriesView, n: int) -> Seq<Sample>
    decreases n,
{
    if n <= 0 {
        Seq::empty()
    } else {
        samples_upto(s, n - 1) + cell_samples(s.mapping[n - 1], s.gauges[n - 1], s.counters[n - 1])
    }
}

/// The rendered snapshot of a state.
pub open spec fn render_spec(s: SeriesView) -> Seq<Sample> {
    samples_upto(s, s.mapping.len() as int)
}

/// A frame value that is not a number; the frame it came from was not applied.
pub struct UnparsableValue {
    pub key: String,
}

/// The gauges and counters of every exposed series.
pub struct MetricTable {
    mapping: Vec<Exposure>,
    gauges: Vec<Option<u64>>,
    counters: Vec<Option<u64>>,
}

impl View for MetricTable {
    type V = SeriesView;

    closed spec fn view(&self) -> SeriesView {
        SeriesView { mapping: self.mapping@, gauges: self.gauges@, counters: self.counters@ }
    }
}

fn reading(frame: &Frame, key: &str) -> (r: Result<Option<u64>, UnparsableValue>)
    requires
        frame.wf(),
    ensures
        match r {
            Ok(None) => !frame@.contains_key(key@),
            Ok(Some(v)) => frame@.contains_key(key@) && parses(frame@[key@]) && v == decimal_value(
                frame@[key@],
            ),
            Err(e) => frame@.contains_key(key@) && !parses(frame@[key@]) && e.key@ == key@,
        },
{
    match frame.get(key) {
        None => Ok(None),
        Some(text) => match parse_decimal(text.as_str()) {
            Some(v) => Ok(Some(v)),
            None => Err(UnparsableValue { key: key.to_owned() }),
        },
    }
}

impl MetricTable {
    /// Every series of `mapping`, none of them set yet.
    pub open spec fn wf(&self) -> bool {
        &&& self@.gauges.len() == self@.mapping.len()
        &&& self@.counters.len() == self@.mapping.len()
    }

    /// A table for the series of `mapping`, none of them set yet.
    pub fn new(mapping: Vec<Exposure>) -> (r: MetricTable)
        ensures
            r.wf(),
            r@.mapping == mapping@,
            r@.gauges == Seq::new(mapping@.len(), |i: int| None::<u64>),
            r@.counters == Seq::new(mapping@.len(), |i: int| None::<u64>),
    {
        let mut gauges: Vec<Option<u64>> = Vec::new();
        let mut counters: Vec<Option<u64>> = Vec::new();
        let mut i: usize = 0;
        while i < mapping.len()
            invariant
                i <= mapping@.len(),
                gauges@ == Seq::new(i as nat, |k: int| None::<u64>),
                counters@ == Seq::new(i as nat, |k: int| None::<u64>),
            decreases mapping.len() - i,
        {
            gauges.push(None);
            counters.push(None);
            i = i + 1;
            assert(gauges@ =~= Seq::new(i as nat, |k: int| None::<u64>));
            assert(counters@ =~= Seq::new(i as nat, |k: int| None::<u64>));
        }
        MetricTable { mapping, gauges, counters }
    }

    /// Applies one decoded frame as one batch: every gauge with a reading is
    /// overwritten, every counter with a reading is reset and then raised by
    /// the reading. If any routed reading is not a number, nothing changes.
    pub fn apply(&mut self, frame: &Frame) -> (r: Result<(), UnparsableValue>)
        requires
            old(self).wf(),
            frame.wf(),
        ensures
            final(self).wf(),
            final(self)@.mapping == old(self)@.mapping,
            match r {
                Ok(()) => {
                    &&& applicable(old(self)@.mapping, frame@)
                    &&& final(self)@.gauges == gauges_after(old(self)@.mapping, old(self)@.gauges, frame@)
                    &&& final(self)@.counters == counters_after(old(self)@.mapping, old(self)@.counters, frame@)
                },
                Err(e) => {
                    &&& !applicable(old(self)@.mapping, frame@)
                    &&& frame@.contains_key(e.key@)
                    &&& !parses(frame@[e.key@])
                    &&& final(self)@ == old(self)@
                },
            },
    {
        let n = self.mapping.len();
        let ghost m = self.mapping@;
        let mut new_gauges: Vec<Option<u64>> = Vec::new();
        let mut new_counters: Vec<Option<u64>> = Vec::new();
        let mut i: usize = 0;
        while i < n
            invariant
                n == m.len(),
                m == self.mapping@,
                self@ == old(self)@,
                self.wf(),
                frame.wf(),
                i <= n,
                new_gauges@.len() == i,
                new_counters@.len() == i,
                forall|k: int| 0 <= k < i ==> (gauge_source(#[trigger] m[k], frame@) ==> parses(frame@[m[k].key@]))
                    && (counter_source(m[k], frame@) ==> parses(frame@[counter_key(m[k])])),
                forall|k: int| 0 <= k < i ==> #[trigger] new_gauges@[k] == (if gauge_source(m[k], frame@) {
                    Some(decimal_value(frame@[m[k].key@]) as u64)
                } else {
                    None
                }),
                forall|k: int| 0 <= k < i ==> #[trigger] new_counters@[k] == (if counter_source(m[k], frame@) {
                    Some(decimal_value(frame@[counter_key(m[k])]) as u64)
                } else {
                    None
                }),
            decreases n - i,
        {
            let e = self.mapping[i];
            match reading(frame, e.key) {
                Ok(g) => new_gauges.push(g),
                Err(err) => {
                    assert(!applicable(m, frame@) && gauge_source(m[i as int], frame@));
                    return Err(err);
                },
            }
            match e.counter {
                Some(_) => {
                    let key = suffixed(e.key, "counter");
                    proof { assert(key@ == counter_key(m[i as int])); }
                    match reading(frame, key.as_str()) {
                        Ok(c) => new_counters.push(c),
                        Err(err) => {
                            proof {
                                reveal_strlit("counter");
                                assert(key@ == counter_key(m[i as int]));
                                assert(!applicable(m, frame@) && counter_source(m[i as int], frame@));
                            }
                            return Err(err);
                        },
                    }
                },
                None => new_counters.push(None),
            }
            i = i + 1;
        }
        let mut j: usize = 0;
        while j < n
            invariant
                n == m.len(),
                m == self.mapping@,
                self.gauges@.len() == n,
                self.counters@.len() == n,
                j <= n,
                new_gauges@.len() == n,
                new_counters@.len() == n,
                forall|k: int| 0 <= k < n ==> #[trigger] new_gauges@[k] == (if gauge_source(m[k], frame@) {
                    Some(decimal_value(frame@[m[k].key@]) as u64)
                } else {
                    None
                }),
                forall|k: int| 0 <= k < n ==> #[trigger] new_counters@[k] == (if counter_source(m[k], frame@) {
                    Some(decimal_value(frame@[counter_key(m[k])]) as u64)
                } else {
                    None
                }),
                forall|k: int| 0 <= k < j ==> #[trigger] self.gauges@[k] == gauge_after(old(self).gauges@[k], m[k], frame@),
                forall|k: int| 0 <= k < j ==> #[trigger] self.counters@[k] == counter_after(old(self).counters@[k], m[k], frame@),
                forall|k: int| j <= k < n ==> #[trigger] self.gauges@[k] == old(self).gauges@[k],
                forall|k: int| j <= k < n ==> #[trigger] self.counters@[k] == old(self).counters@[k],
            decreases n - j,
        {
            if let Some(v) = new_gauges[j] {
                self.gauges.set(j, Some(v));
            }
            if let Some(v) = new_counters[j] {
                // The meter reports a running total: the counter is reset and
                // raised by it, so it ends up holding the total itself.
                self.counters.set(j, Some(v));
            }
            j = j + 1;
        }
        assert(self@.gauges =~= gauges_after(m, old(self)@.gauges, frame@));
        assert(self@.counters =~= counters_after(m, old(self)@.counters, frame@));
        Ok(())
    }

    /// The current value of every series that has been set, in mapping order.
    pub fn samples(&self) -> (r: Vec<Sample>)
        requires
            self.wf(),
        ensures
            r@ == render_spec(self@),
    {
        let mut out: Vec<Sample> = Vec::new();
        let mut i: usize = 0;
        while i < self.mapping.len()
            invariant
                self.wf(),
                i <= self@.mapping.len(),
                out@ == samples_upto(self@, i as int),
            decreases self@.mapping.len() - i,
        {
            let e = self.mapping[i];
            let ghost before = out@;
            if let Some(v) = self.gauges[i] {
                out.push(Sample { metric: e.gauge, kind: SeriesKind::Gauge, phase: e.phase, value: v });
            }
            if let (Some(name), Some(v)) = (e.counter, self.counters[i]) {
                out.push(Sample { metric: name, kind: SeriesKind::Counter, phase: e.phase, value: v });
            }
            assert(out@ =~= before + cell_samples(e, self@.gauges[i as int], self@.counters[i as int]));
            i = i + 1;
        }
        out
    }
}

/// Applying the same frame twice leaves every series as applying it once
/// does, so the rendered snapshot is the same; and each counter with a
/// reading then holds that reading itself, not a sum over applications.
pub proof fn lemma_apply_idempotent(s: SeriesView, f: Map<Seq<char>, Seq<char>>)
    requires
        s.gauges.len() == s.mapping.len(),
        s.counters.len() == s.mapping.len(),
    ensures
        ({
            let once = SeriesView {
                mapping: s.mapping,
                gauges: gauges_after(s.mapping, s.gauges, f),
                counters: counters_after(s.mapping, s.counters, f),
            };
            let twice = SeriesView {
                mapping: s.mapping,
                gauges: gauges_after(s.mapping, once.gauges, f),
                counters: counters_after(s.mapping, once.counters, f),
            };
            &&& twice.gauges == once.gauges
            &&& twice.counters == once.counters
            &&& render_spec(twice) == render_spec(once)
            &&& forall|i: int|
                0 <= i < s.mapping.len() && counter_source(s.mapping[i], f) ==> #[trigger] once.counters[i]
                    == Some(decimal_value(f[counter_key(s.mapping[i])]) as u64)
        }),
{
    let once = SeriesView {
        mapping: s.mapping,
        gauges: gauges_after(s.mapping, s.gauges, f),
        counters: counters_after(s.mapping, s.counters, f),
    };
    assert(gauges_after(s.mapping, once.gauges, f) =~= once.gauges);
    assert(counters_after(s.mapping, once.counters, f) =~= once.counters);
}

/// Whether `k` ends with `unit`: the keys under which a frame names a unit.
pub open spec fn is_unit_key(k: Seq<char>) -> bool {
    k.len() >= 4 && k.subrange(k.len() - 4, k.len() as int) == "unit"@
}

/// Whether every value of `m` outside the unit keys is a number.
pub open spec fn numeric_readings(m: Map<Seq<char>, Seq<char>>) -> bool {
    forall|k: Seq<char>| #[trigger] m.contains_key(k) && !is_unit_key(k) ==> parses(m[k])
}

proof fn lemma_suffix_unit(x: Seq<char>, suffix: Seq<char>)
    requires
        suffix.len() >= 4,
        suffix.subrange(suffix.len() - 4, suffix.len() as int) == "unit"@,
    ensures
        is_unit_key(x + suffix),
{
    assert((x + suffix).subrange((x + suffix).len() - 4, (x + suffix).len() as int) =~= suffix.subrange(
        suffix.len() - 4,
        suffix.len() as int,
    ));
}

proof fn lemma_not_unit_key(k: Seq<char>)
    requires
        k.len() > 0,
        k.last() != 't',
    ensures
        !is_unit_key(k),
{
    reveal_strlit("unit");
    if is_unit_key(k) {
        assert(k.subrange(k.len() - 4, k.len() as int)[3] == k.last());
    }
}

proof fn lemma_decimal_parses(n: nat)
    requires
        n <= u64::MAX,
    ensures
        parses(decimal(n)),
        decimal_value(decimal(n)) == n,
{
    lemma_decimal_round_trip(n);
}

proof fn lemma_actual_numeric(m: Map<Seq<char>, Seq<char>>, code: u16, raw: u32)
    requires
        numeric_readings(m),
    ensures
        numeric_readings(with_actual(m, code, raw)),
{
    if let Some(ch) = channel_spec(code) {
        if let Some(u) = ch.unit {
            reveal_strlit("unit");
            lemma_decimal_parses((raw / u.divisor_spec()) as nat);
            assert(("unit"@).subrange(0, 4) =~= "unit"@);
            lemma_suffix_unit(ch.name@, "unit"@);
        }
    }
}

proof fn lemma_counter_numeric(m: Map<Seq<char>, Seq<char>>, code: u16, raw: u64)
    requires
        numeric_readings(m),
    ensures
        numeric_readings(with_counter(m, code, raw)),
{
    if let Some(ch) = channel_spec(code) {
        if let Some(u) = ch.counter_unit {
            reveal_strlit("unit");
            reveal_strlit("counterunit");
            lemma_decimal_parses((raw / (u.divisor_spec() as u64)) as nat);
            assert(("counterunit"@).subrange(7, 11) =~= "unit"@);
            lemma_suffix_unit(ch.name@, "counterunit"@);
        }
    }
}

proof fn lemma_records_numeric(d: Seq<u8>, pos: int, end: int, m: Map<Seq<char>, Seq<char>>)
    requires
        numeric_readings(m),
    ensures
        numeric_readings(decode_records(d, pos, end, m)),
    decreases d.len() - pos,
{
    if !(pos < 0 || pos >= end || pos + 3 > d.len()) {
        let code = crate::bytes::be16(d, pos) as u16;
        let kind = crate::decoder::record_kind(code, d[pos + 2]);
        if pos + crate::decoder::record_len(kind) <= d.len() {
            let next = match kind {
                crate::decoder::RecordKind::Actual => with_actual(m, code, crate::bytes::be32(d, pos + 4) as u32),
                crate::decoder::RecordKind::Counter => with_counter(m, code, crate::bytes::be64(d, pos + 4) as u64),
                _ => m,
            };
            lemma_actual_numeric(m, code, crate::bytes::be32(d, pos + 4) as u32);
            lemma_counter_numeric(m, code, crate::bytes::be64(d, pos + 4) as u64);
            lemma_records_numeric(d, pos + crate::decoder::record_len(kind), end, next);
        }
    }
}

/// Every value of a decoded frame outside its unit keys is a number.
pub proof fn lemma_decoded_values_numeric(d: Seq<u8>)
    ensures
        numeric_readings(decode_spec(d)),
{
    if crate::decoder::has_magic(d) && d.len() >= crate::decoder::HEADER_LEN {
        reveal_strlit("serial");
        lemma_decimal_parses(crate::bytes::be32(d, 20));
        lemma_records_numeric(
            d,
            crate::decoder::HEADER_LEN as int,
            crate::decoder::payload_end(d),
            Map::empty().insert("serial"@, decimal(crate::bytes::be32(d, 20))),
        );
    }
}

/// A frame decoded from any datagram applies to any mapping none of whose
/// keys names a unit: its readings never fail to parse.
proof fn lemma_decoded_frame_applies(mapping: Seq<Exposure>, d: Seq<u8>)
    requires
        forall|i: int| 0 <= i < mapping.len() ==> !is_unit_key(#[trigger] mapping[i].key@),
    ensures
        applicable(mapping, decode_spec(d)),
{
    lemma_decoded_values_numeric(d);
    reveal_strlit("counter");
    assert forall|i: int| 0 <= i < mapping.len() implies !is_unit_key(counter_key(#[trigger] mapping[i])) by {
        let k = counter_key(mapping[i]);
        assert(k.last() == 'r');
        lemma_not_unit_key(k);
    }
}

/// A frame decoded from any datagram applies to the exposed mapping: none of
/// the readings it routes fails to parse.
pub proof fn lemma_decoded_frame_applies_exposed(d: Seq<u8>)
    ensures
        applicable(exposed_spec(), decode_spec(d)),
{
    let m = exposed_spec();
    reveal_strlit("pconsume");
    reveal_strlit("psupply");
    reveal_strlit("qconsume");
    reveal_strlit("qsupply");
    reveal_strlit("sconsume");
    reveal_strlit("ssupply");
    reveal_strlit("cosphi");
    reveal_strlit("frequency");
    reveal_strlit("p1consume");
    reveal_strlit("p1supply");
    reveal_strlit("q1consume");
    reveal_strlit("q1supply");
    reveal_strlit("s1consume");
    reveal_strlit("s1supply");
    reveal_strlit("i1");
    reveal_strlit("u1");
    reveal_strlit("cosphi1");
    reveal_strlit("p2consume");
    reveal_strlit("p2supply");
    reveal_strlit("q2consume");
    reveal_strlit("q2supply");
    reveal_strlit("s2consume");
    reveal_strlit("s2supply");
    reveal_strlit("i2");
    reveal_strlit("u2");
    reveal_strlit("cosphi2");
    reveal_strlit("p3consume");
    reveal_strlit("p3supply");
    reveal_strlit("q3consume");
    reveal_strlit("q3supply");
    reveal_strlit("s3consume");
    reveal_strlit("s3supply");
    reveal_strlit("i3");
    reveal_strlit("u3");
    reveal_strlit("cosphi3");
    lemma_not_unit_key(m[0].key@);
    lemma_not_unit_key(m[1].key@);
    lemma_not_unit_key(m[2].key@);
    lemma_not_unit_key(m[3].key@);
    lemma_not_unit_key(m[4].key@);
    lemma_not_unit_key(m[5].key@);
    lemma_not_unit_key(m[6].key@);
    lemma_not_unit_key(m[7].key@);
    lemma_not_unit_key(m[8].key@);
    lemma_not_unit_key(m[9].key@);
    lemma_not_unit_key(m[10].key@);
    lemma_not_unit_key(m[11].key@);
    lemma_not_unit_key(m[12].key@);
    lemma_not_unit_key(m[13].key@);
    lemma_not_unit_key(m[14].key@);
    lemma_not_unit_key(m[15].key@);
    lemma_not_unit_key(m[16].key@);
    lemma_not_unit_key(m[17].key@);
    lemma_not_unit_key(m[18].key@);
    lemma_not_unit_key(m[19].key@);
    lemma_not_unit_key(m[20].key@);
    lemma_not_unit_key(m[21].key@);
    lemma_not_unit_key(m[22].key@);
    lemma_not_unit_key(m[23].key@);
    lemma_not_unit_key(m[24].key@);
    lemma_not_unit_key(m[25].key@);
    lemma_not_unit_key(m[26].key@);
    lemma_not_unit_key(m[27].key@);
    lemma_not_unit_key(m[28].key@);
    lemma_not_unit_key(m[29].key@);
    lemma_not_unit_key(m[30].key@);
    lemma_not_unit_key(m[31].key@);
    lemma_not_unit_key(m[32].key@);
    lemma_not_unit_key(m[33].key@);
    lemma_not_unit_key(m[34].key@);
    lemma_decoded_frame_applies(m, d);
}

} // verus!
