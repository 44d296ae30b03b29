//! The channel catalog: every measurement code a meter reports, its semantic
//! name, its units and the phase it belongs to, and the fixed-point scaling of
//! each unit.

use vstd::prelude::*;

verus! {

/// The electrical circuit segment a reading applies to.
#[derive(Clone, Copy, Debug, PartialEq, Eq, Structural)]
pub enum Phase {
    Total,
    L1,
    L2,
    L3,
}

impl Phase {
    pub open spec fn label_spec(self) -> &'static str {
        match self {
            Phase::Total => "Total",
            Phase::L1 => "L1",
            Phase::L2 => "L2",
            Phase::L3 => "L3",
        }
    }

    /// The label value under which series of this phase are exposed.
    pub fn label(&self) -> (r: &'static str)
        ensures
            r == self.label_spec(),
    {
        match self {
            Phase::Total => "Total",
            Phase::L1 => "L1",
            Phase::L2 => "L2",
            Phase::L3 => "L3",
        }
    }
}

/// A physical unit in which the meter reports readings.
#[derive(Clone, Copy, Debug, PartialEq, Eq, Structural)]
pub enum Unit {
    Watt,
    VoltAmpere,
    VoltAmpereReactive,
    WattHour,
    VoltAmpereHour,
    VoltAmpereReactiveHour,
    Ampere,
    Volt,
    Degree,
    Hertz,
}

impl Unit {
    /// Raw readings in this unit divided by this number give the reported value.
    pub open spec fn divisor_spec(self) -> u32 {
        match self {
            Unit::Watt | Unit::VoltAmpere | Unit::VoltAmpereReactive => 10,
            Unit::WattHour | Unit::VoltAmpereHour | Unit::VoltAmpereReactiveHour => 3600,
            Unit::Ampere | Unit::Volt | Unit::Degree | Unit::Hertz => 1000,
        }
    }

    pub open spec fn symbol_spec(self) -> &'static str {
        match self {
            Unit::Watt => "W",
            Unit::VoltAmpere => "VA",
            Unit::VoltAmpereReactive => "VAr",
            Unit::WattHour => "Wh",
            Unit::VoltAmpereHour => "VAh",
            Unit::VoltAmpereReactiveHour => "VArh",
            Unit::Ampere => "A",
            Unit::Volt => "V",
            Unit::Degree => "°",
            Unit::Hertz => "Hz",
        }
    }

    /// The fixed-point divisor of this unit.
    pub fn divisor(&self) -> (r: u32)
        ensures
            r == self.divisor_spec(),
            r > 0,
    {
        match self {
            Unit::Watt | Unit::VoltAmpere | Unit::VoltAmpereReactive => 10,
            Unit::WattHour | Unit::VoltAmpereHour | Unit::VoltAmpereReactiveHour => 3600,
            Unit::Ampere | Unit::Volt | Unit::Degree | Unit::Hertz => 1000,
        }
    }

    /// The unit's name as it appears in a decoded frame.
    pub fn symbol(&self) -> (r: &'static str)
        ensures
            r == self.symbol_spec(),
    {
        match self {
            Unit::Watt => "W",
            Unit::VoltAmpere => "VA",
            Unit::VoltAmpereReactive => "VAr",
            Unit::WattHour => "Wh",
            Unit::VoltAmpereHour => "VAh",
            Unit::VoltAmpereReactiveHour => "VArh",
            Unit::Ampere => "A",
            Unit::Volt => "V",
            Unit::Degree => "°",
            Unit::Hertz => "Hz",
        }
    }
}

/// The measurement code of the protocol-version marker.
pub const VERSION_CODE: u16 = 36864;

/// One known channel of the meter.
///
/// `unit` is the unit of instantaneous readings and `counter_unit` that of
/// cumulative readings; a channel without a unit carries no numeric value.
#[derive(Clone, Copy, Debug, PartialEq, Eq)]
pub struct Channel {
    pub code: u16,
    pub name: &'static str,
    pub unit: Option<Unit>,
    pub counter_unit: Option<Unit>,
    pub phase: Phase,
}

pub open spec fn power(code: u16, name: &'static str, unit: Unit, counter: Unit, phase: Phase) -> Channel {
    Channel { code, name, unit: Some(unit), counter_unit: Some(counter), phase }
}

pub open spec fn instant(code: u16, name: &'static str, unit: Unit, phase: Phase) -> Channel {
    Channel { code, name, unit: Some(unit), counter_unit: None, phase }
}

/// The catalog: the channel that a measurement code denotes, if any.
pub open spec fn channel_spec(code: u16) -> Option<Channel> {
    let (w, wh) = (Unit::Watt, Unit::WattHour);
    let (var, varh) = (Unit::VoltAmpereReactive, Unit::VoltAmpereReactiveHour);
    let (va, vah) = (Unit::VoltAmpere, Unit::VoltAmpereHour);
    match code {
        1 => Some(power(1, "pconsume", w, wh, Phase::Total)),
        2 => Some(power(2, "psupply", w, wh, Phase::Total)),
        3 => Some(power(3, "qconsume", var, varh, Phase::Total)),
        4 => Some(power(4, "qsupply", var, varh, Phase::Total)),
        9 => Some(power(9, "sconsume", va, vah, Phase::Total)),
        10 => Some(power(10, "ssupply", va, vah, Phase::Total)),
        13 => Some(instant(13, "cosphi", Unit::Degree, Phase::Total)),
        14 => Some(instant(14, "frequency", Unit::Hertz, Phase::Total)),
        21 => Some(power(21, "p1consume", w, wh, Phase::L1)),
        22 => Some(power(22, "p1supply", w, wh, Phase::L1)),
        23 => Some(power(23, "q1consume", var, varh, Phase::L1)),
        24 => Some(power(24, "q1supply", var, varh, Phase::L1)),
        29 => Some(power(29, "s1consume", va, vah, Phase::L1)),
        30 => Some(power(30, "s1supply", va, vah, Phase::L1)),
        31 => Some(instant(31, "i1", Unit::Ampere, Phase::L1)),
        32 => Some(instant(32, "u1", Unit::Volt, Phase::L1)),
        33 => Some(instant(33, "cosphi1", Unit::Degree, Phase::L1)),
        41 => Some(power(41, "p2consume", w, wh, Phase::L2)),
        42 => Some(power(42, "p2supply", w, wh, Phase::L2)),
        43 => Some(power(43, "q2consume", var, varh, Phase::L2)),
        44 => Some(power(44, "q2supply", var, varh, Phase::L2)),
        49 => Some(power(49, "s2consume", va, vah, Phase::L2)),
        50 => Some(power(50, "s2supply", va, vah, Phase::L2)),
        51 => Some(instant(51, "i2", Unit::Ampere, Phase::L2)),
        52 => Some(instant(52, "u2", Unit::Volt, Phase::L2)),
        53 => Some(instant(53, "cosphi2", Unit::Degree, Phase::L2)),
        61 => Some(power(61, "p3consume", w, wh, Phase::L3)),
        62 => Some(power(62, "p3supply", w, wh, Phase::L3)),
        63 => Some(power(63, "q3consume", var, varh, Phase::L3)),
        64 => Some(power(64, "q3supply", var, varh, Phase::L3)),
        69 => Some(power(69, "s3consume", va, vah, Phase::L3)),
        70 => Some(power(70, "s3supply", va, vah, Phase::L3)),
        71 => Some(instant(71, "i3", Unit::Ampere, Phase::L3)),
        72 => Some(instant(72, "u3", Unit::Volt, Phase::L3)),
        73 => Some(instant(73, "cosphi3", Unit::Degree, Phase::L3)),
        36864 => Some(
            Channel {
                code: 36864,
                name: "speedwire-version",
                unit: None,
                counter_unit: None,
                phase: Phase::Total,
            },
        ),
        _ => None,
    }
}

fn power_channel(code: u16, name: &'static str, unit: Unit, counter: Unit, phase: Phase) -> (r: Channel)
    ensures
        r == power(code, name, unit, counter, phase),
{
    Channel { code, name, unit: Some(unit), counter_unit: Some(counter), phase }
}

fn instant_channel(code: u16, name: &'static str, unit: Unit, phase: Phase) -> (r: Channel)
    ensures
        r == instant(code, name, unit, phase),
{
    Channel { code, name, unit: Some(unit), counter_unit: None, phase }
}

/// Looks a measurement code up in the catalog.
pub fn channel(code: u16) -> (r: Option<Channel>)
    ensures
        r == channel_spec(code),
{
    let (w, wh) = (Unit::Watt, Unit::WattHour);
    let (var, varh) = (Unit::VoltAmpereReactive, Unit::VoltAmpereReactiveHour);
    let (va, vah) = (Unit::VoltAmpere, Unit::VoltAmpereHour);
    match code {
        1 => Some(power_channel(1, "pconsume", w, wh, Phase::Total)),
        2 => Some(power_channel(2, "psupply", w, wh, Phase::Total)),
        3 => Some(power_channel(3, "qconsume", var, varh, Phase::Total)),
        4 => Some(power_channel(4, "qsupply", var, varh, Phase::Total)),
        9 => Some(power_channel(9, "sconsume", va, vah, Phase::Total)),
        10 => Some(power_channel(10, "ssupply", va, vah, Phase::Total)),
        13 => Some(instant_channel(13, "cosphi", Unit::Degree, Phase::Total)),
        14 => Some(instant_channel(14, "frequency", Unit::Hertz, Phase::Total)),
        21 => Some(power_channel(21, "p1consume", w, wh, Phase::L1)),
        22 => Some(power_channel(22, "p1supply", w, wh, Phase::L1)),
        23 => Some(power_channel(23, "q1consume", var, varh, Phase::L1)),
        24 => Some(power_channel(24, "q1supply", var, varh, Phase::L1)),
        29 => Some(power_channel(29, "s1consume", va, vah, Phase::L1)),
        30 => Some(power_channel(30, "s1supply", va, vah, Phase::L1)),
        31 => Some(instant_channel(31, "i1", Unit::Ampere, Phase::L1)),
        32 => Some(instant_channel(32, "u1", Unit::Volt, Phase::L1)),
        33 => Some(instant_channel(33, "cosphi1", Unit::Degree, Phase::L1)),
        41 => Some(power_channel(41, "p2consume", w, wh, Phase::L2)),
        42 => Some(power_channel(42, "p2supply", w, wh, Phase::L2)),
        43 => Some(power_channel(43, "q2consume", var, varh, Phase::L2)),
        44 => Some(power_channel(44, "q2supply", var, varh, Phase::L2)),
        49 => Some(power_channel(49, "s2consume", va, vah, Phase::L2)),
        50 => Some(power_channel(50, "s2supply", va, vah, Phase::L2)),
        51 => Some(instant_channel(51, "i2", Unit::Ampere, Phase::L2)),
        52 => Some(instant_channel(52, "u2", Unit::Volt, Phase::L2)),
        53 => Some(instant_channel(53, "cosphi2", Unit::Degree, Phase::L2)),
        61 => Some(power_channel(61, "p3consume", w, wh, Phase::L3)),
        62 => Some(power_channel(62, "p3supply", w, wh, Phase::L3)),
        63 => Some(power_channel(63, "q3consume", var, varh, Phase::L3)),
        64 => Some(power_channel(64, "q3supply", var, varh, Phase::L3)),
        69 => Some(power_channel(69, "s3consume", va, vah, Phase::L3)),
        70 => Some(power_channel(70, "s3supply", va, vah, Phase::L3)),
        71 => Some(instant_channel(71, "i3", Unit::Ampere, Phase::L3)),
        72 => Some(instant_channel(72, "u3", Unit::Volt, Phase::L3)),
        73 => Some(instant_channel(73, "cosphi3", Unit::Degree, Phase::L3)),
        36864 => Some(
            Channel {
                code: 36864,
                name: "speedwire-version",
                unit: None,
                counter_unit: None,
                phase: Phase::Total,
            },
        ),
        _ => None,
    }
}

} // verus!
