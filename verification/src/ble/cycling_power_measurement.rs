//! Decoder for the Cycling Power measurement characteristic, the checked
//! crank delta over consecutive measurements, and the accumulated-torque
//! delta used for energy computation.
//!
//! Payload layout, little-endian: a 16-bit flag field, a signed 16-bit
//! instantaneous power, then optional blocks in order: pedal power balance
//! (1 byte, half-percent units), accumulated torque (16 bits, 1/32 Nm
//! units), wheel revolution data (32-bit count, 16-bit event time in
//! 1/2048 s), crank revolution data (16-bit count, 16-bit event time in
//! 1/1024 s).  Flag bit 0 announces the balance, bit 2 the torque, bit 3
//! names the torque source (crank when set, else wheel), bit 4 the wheel
//! block, bit 5 the crank block.
use vstd::prelude::*;

use crate::ble::payload::le16_at;
use crate::ble::payload::le16_bytes;
use crate::ble::payload::le32_at;
use crate::ble::payload::le32_bytes;
use crate::ble::payload::lemma_le16_value;
use crate::ble::payload::lemma_le32_value;
use crate::ble::payload::read_i16_le;
use crate::ble::payload::read_u16_le;
use crate::ble::payload::read_u32_le;
use crate::ble::payload::sint16;
use crate::ble::revolution_data::spec_crank_delta;
use crate::ble::revolution_data::wf_crank_count;
use crate::ble::revolution_data::wf_event_ticks;
use crate::ble::revolution_data::RatePerMinute;
use crate::ble::revolution_data::RevolutionData;
use crate::ble::revolution_data;

verus! {

/// Which rotation the accumulated torque of a power sensor is summed over.
#[derive(Debug, PartialEq, Eq, Clone, Copy)]
pub enum AccumulatedTorqueSource {
    Wheel,
    Crank,
}

/// A decoded cycling power measurement.
#[derive(Debug, PartialEq, Clone)]
pub struct CyclingPowerMeasurement {
    /// Instantaneous power in watts.
    pub instantaneous_power: i16,
    /// Pedal power balance in half-percent units; truly a percentage of a
    /// percentage scale, not a rate.
    pub pedal_power_balance_half_percent: Option<u8>,
    /// Sum of the average torque per source rotation, in 1/32 Nm units.
    /// Divide the units by 32 for newton-metres; multiply the torque by 2*pi
    /// for total mechanical energy in joules.
    pub accumulated_torque: Option<(AccumulatedTorqueSource, u16)>,
    /// Wheel revolution snapshot; its clock counts 1/2048 s units on the
    /// wire, unlike the CSC wheel clock.
    pub wheel_revolution_data: Option<RevolutionData>,
    /// Crank revolution snapshot, encoded exactly as the CSC crank block.
    pub crank_revolution_data: Option<RevolutionData>,
}

pub open spec fn power_has_balance(data: Seq<u8>) -> bool {
    data[0] & 1 == 1
}

pub open spec fn power_has_torque(data: Seq<u8>) -> bool {
    data[0] & 4 == 4
}

pub open spec fn power_torque_is_crank(data: Seq<u8>) -> bool {
    data[0] & 8 == 8
}

pub open spec fn power_has_wheel(data: Seq<u8>) -> bool {
    data[0] & 16 == 16
}

pub open spec fn power_has_crank(data: Seq<u8>) -> bool {
    data[0] & 32 == 32
}

/// Offset of the accumulated-torque block.
pub open spec fn power_torque_index(data: Seq<u8>) -> int {
    4 + if power_has_balance(data) {
        1int
    } else {
        0int
    }
}

/// Offset of the wheel revolution block.
pub open spec fn power_wheel_index(data: Seq<u8>) -> int {
    power_torque_index(data) + if power_has_torque(data) {
        2int
    } else {
        0int
    }
}

/// Offset of the crank revolution block.
pub open spec fn power_crank_index(data: Seq<u8>) -> int {
    power_wheel_index(data) + if power_has_wheel(data) {
        6int
    } else {
        0int
    }
}

/// A payload long enough for every block its flag byte announces.  Shorter
/// input is a protocol violation the decoder does not try to repair.
pub open spec fn power_input_ok(data: Seq<u8>) -> bool {
    &&& data.len() >= 4
    &&& power_has_balance(data) ==> data.len() >= 5
    &&& power_has_torque(data) ==> data.len() >= power_torque_index(data) + 2
    &&& power_has_wheel(data) ==> data.len() >= power_wheel_index(data) + 6
    &&& power_has_crank(data) ==> data.len() >= power_crank_index(data) + 4
}

/// The measurement a cycling power payload denotes.  The wheel event time
/// arrives in 1/2048 s units and is stored as is; the crank event time
/// arrives in 1/1024 s units and is stored as twice as many ticks.
pub open spec fn spec_parse_power(data: Seq<u8>) -> CyclingPowerMeasurement {
    CyclingPowerMeasurement {
        instantaneous_power: sint16(le16_at(data, 2)) as i16,
        pedal_power_balance_half_percent: if power_has_balance(data) {
            Some(data[4])
        } else {
            None
        },
        accumulated_torque: if power_has_torque(data) {
            Some(
                (
                    if power_torque_is_crank(data) {
                        AccumulatedTorqueSource::Crank
                    } else {
                        AccumulatedTorqueSource::Wheel
                    },
                    le16_at(data, power_torque_index(data)) as u16,
                ),
            )
        } else {
            None
        },
        wheel_revolution_data: if power_has_wheel(data) {
            Some(
                RevolutionData {
                    revolution_count: le32_at(data, power_wheel_index(data)) as u32,
                    last_event_ticks: le16_at(data, power_wheel_index(data) + 4) as u32,
                },
            )
        } else {
            None
        },
        crank_revolution_data: if power_has_crank(data) {
            Some(
                RevolutionData {
                    revolution_count: le16_at(data, power_crank_index(data)) as u32,
                    last_event_ticks: (2 * le16_at(data, power_crank_index(data) + 2)) as u32,
                },
            )
        } else {
            None
        },
    }
}

/// Every snapshot a power payload can denote is well formed.
pub open spec fn wf_power(m: CyclingPowerMeasurement) -> bool {
    &&& m.wheel_revolution_data matches Some(w) ==> wf_event_ticks(w)
    &&& m.crank_revolution_data matches Some(c) ==> wf_event_ticks(c) && wf_crank_count(c)
}

/// Decodes a cycling power measurement payload.  The input is assumed
/// valid: the caller must guarantee the payload is as long as its flag byte
/// promises.
pub fn parse_cycling_power_measurement(data: &Vec<u8>) -> (r: CyclingPowerMeasurement)
    requires
        power_input_ok(data@),
    ensures
        r == spec_parse_power(data@),
        wf_power(r),
{
    let has_pedal_power_balance = data[0] & 1 == 1;
    let has_accumulated_torque = data[0] & 4 == 4;
    let has_wheel_data = data[0] & 16 == 16;
    let has_crank_data = data[0] & 32 == 32;
    let power_index: usize = 2;
    let pedal_power_balance_index: usize = 4;
    let accumulated_torque_index: usize = pedal_power_balance_index + if has_pedal_power_balance {
        1
    } else {
        0
    };
    let wheel_data_index: usize = accumulated_torque_index + if has_accumulated_torque {
        2
    } else {
        0
    };
    let crank_data_index: usize = wheel_data_index + if has_wheel_data {
        6
    } else {
        0
    };

    CyclingPowerMeasurement {
        instantaneous_power: read_i16_le(data, power_index),
        pedal_power_balance_half_percent: if has_pedal_power_balance {
            Some(data[pedal_power_balance_index])
        } else {
            None
        },
        accumulated_torque: if has_accumulated_torque {
            let source = if data[0] & 8 == 8 {
                AccumulatedTorqueSource::Crank
            } else {
                AccumulatedTorqueSource::Wheel
            };
            Some((source, read_u16_le(data, accumulated_torque_index)))
        } else {
            None
        },
        wheel_revolution_data: if has_wheel_data {
            Some(
                RevolutionData {
                    revolution_count: read_u32_le(data, wheel_data_index),
                    last_event_ticks: read_u16_le(data, wheel_data_index + 4) as u32,
                },
            )
        } else {
            None
        },
        crank_revolution_data: if has_crank_data {
            Some(
                RevolutionData {
                    revolution_count: read_u16_le(data, crank_data_index) as u32,
                    last_event_ticks: 2 * (read_u16_le(data, crank_data_index + 2) as u32),
                },
            )
        } else {
            None
        },
    }
}

/// A measurement the wire format can carry: the wheel event time fits its
/// 16-bit 1/2048 s field, the crank event time is a whole 1/1024 s unit
/// (an even tick count) under the wrap period, and the crank count fits its
/// 16-bit field.
pub open spec fn power_encodable(m: CyclingPowerMeasurement) -> bool {
    &&& m.wheel_revolution_data matches Some(w) ==> w.last_event_ticks < 65536
    &&& m.crank_revolution_data matches Some(c) ==> (c.last_event_ticks % 2 == 0
        && wf_event_ticks(c) && wf_crank_count(c))
}

/// The 16-bit two's-complement image of a signed power value.
pub open spec fn uint16_of(p: int) -> int {
    if p >= 0 {
        p
    } else {
        p + 65536
    }
}

/// The payload that carries a measurement: two flag bytes, the power, then
/// the present blocks in order.
pub open spec fn spec_power_payload(m: CyclingPowerMeasurement) -> Seq<u8> {
    let flags = ((if m.pedal_power_balance_half_percent is Some {
        1int
    } else {
        0int
    }) + (if m.accumulated_torque is Some {
        4int
    } else {
        0int
    }) + (if m.accumulated_torque matches Some((AccumulatedTorqueSource::Crank, _)) {
        8int
    } else {
        0int
    }) + (if m.wheel_revolution_data is Some {
        16int
    } else {
        0int
    }) + (if m.crank_revolution_data is Some {
        32int
    } else {
        0int
    })) as u8;
    seq![flags, 0u8] + le16_bytes(uint16_of(m.instantaneous_power as int)) + (
    match m.pedal_power_balance_half_percent {
        Some(b) => seq![b],
        None => Seq::empty(),
    }) + (match m.accumulated_torque {
        Some((_, units)) => le16_bytes(units as int),
        None => Seq::empty(),
    }) + (match m.wheel_revolution_data {
        Some(w) => le32_bytes(w.revolution_count as int) + le16_bytes(w.last_event_ticks as int),
        None => Seq::empty(),
    }) + (match m.crank_revolution_data {
        Some(c) => le16_bytes(c.revolution_count as int) + le16_bytes(
            c.last_event_ticks as int / 2,
        ),
        None => Seq::empty(),
    })
}

/// Law: decoding a constructed payload yields exactly the measurement it
/// was built from, for every combination of present blocks.
pub proof fn lemma_power_round_trip(m: CyclingPowerMeasurement)
    requires
        power_encodable(m),
    ensures
        power_input_ok(spec_power_payload(m)),
        spec_parse_power(spec_power_payload(m)) == m,
{
    let data = spec_power_payload(m);
    let x1: u8 = if m.pedal_power_balance_half_percent is Some {
        1
    } else {
        0
    };
    let x2: u8 = if m.accumulated_torque is Some {
        4
    } else {
        0
    };
    let x3: u8 = if m.accumulated_torque matches Some((AccumulatedTorqueSource::Crank, _)) {
        8
    } else {
        0
    };
    let x4: u8 = if m.wheel_revolution_data is Some {
        16
    } else {
        0
    };
    let x5: u8 = if m.crank_revolution_data is Some {
        32
    } else {
        0
    };
    let f: u8 = (x1 + x2 + x3 + x4 + x5) as u8;
    assert(data[0] == f);
    assert((f & 1 == 1) == (x1 == 1) && (f & 4 == 4) == (x2 == 4) && (f & 8 == 8) == (x3 == 8) && (
    f & 16 == 16) == (x4 == 16) && (f & 32 == 32) == (x5 == 32)) by (bit_vector)
        requires
            f == x1 + x2 + x3 + x4 + x5,
            x1 == 0 || x1 == 1,
            x2 == 0 || x2 == 4,
            x3 == 0 || x3 == 8,
            x4 == 0 || x4 == 16,
            x5 == 0 || x5 == 32,
    ;
    assert(power_has_balance(data) == (m.pedal_power_balance_half_percent is Some));
    assert(power_has_torque(data) == (m.accumulated_torque is Some));
    assert(power_has_wheel(data) == (m.wheel_revolution_data is Some));
    assert(power_has_crank(data) == (m.crank_revolution_data is Some));

    let p = m.instantaneous_power as int;
    let pv = uint16_of(p);
    assert(data[2] == (pv % 256) as u8);
    assert(data[3] == ((pv / 256) % 256) as u8);
    lemma_le16_value(pv);
    assert(le16_at(data, 2) == pv);
    assert(sint16(pv) == p);

    match m.accumulated_torque {
        None => {},
        Some((source, units)) => {
            let ti = power_torque_index(data);
            assert(data[ti] == (units as int % 256) as u8);
            assert(data[ti + 1] == ((units as int / 256) % 256) as u8);
            lemma_le16_value(units as int);
            assert(le16_at(data, ti) == units);
            assert(power_torque_is_crank(data) == (source is Crank));
        },
    }
    match m.wheel_revolution_data {
        None => {},
        Some(w) => {
            let wi = power_wheel_index(data);
            let wc = w.revolution_count as int;
            let wt = w.last_event_ticks as int;
            assert(data[wi] == (wc % 256) as u8);
            assert(data[wi + 1] == ((wc / 256) % 256) as u8);
            assert(data[wi + 2] == ((wc / 65536) % 256) as u8);
            assert(data[wi + 3] == ((wc / 16777216) % 256) as u8);
            lemma_le32_value(wc);
            assert(le32_at(data, wi) == wc);
            assert(data[wi + 4] == (wt % 256) as u8);
            assert(data[wi + 5] == ((wt / 256) % 256) as u8);
            lemma_le16_value(wt);
            assert(le16_at(data, wi + 4) == wt);
        },
    }
    match m.crank_revolution_data {
        None => {},
        Some(c) => {
            let ci = power_crank_index(data);
            let cc = c.revolution_count as int;
            let ct = c.last_event_ticks as int;
            assert(data[ci] == (cc % 256) as u8);
            assert(data[ci + 1] == ((cc / 256) % 256) as u8);
            lemma_le16_value(cc);
            assert(le16_at(data, ci) == cc);
            assert(0 <= ct / 2 < 65536) by (nonlinear_arith)
                requires
                    0 <= ct < 131072,
            ;
            assert(data[ci + 2] == ((ct / 2) % 256) as u8);
            assert(data[ci + 3] == (((ct / 2) / 256) % 256) as u8);
            lemma_le16_value(ct / 2);
            assert(le16_at(data, ci + 2) == ct / 2);
            assert(2 * (ct / 2) == ct) by (nonlinear_arith)
                requires
                    ct % 2 == 0,
                    0 <= ct,
            ;
        },
    }
    assert(spec_parse_power(data) == m);
}

/// The crank sub-snapshot of an optional previous power measurement,
/// provided the measurement, when present, carries one.
pub open spec fn spec_power_crank_baseline(a: Option<CyclingPowerMeasurement>) -> Option<
    Option<RevolutionData>,
> {
    match a {
        None => Some(None),
        Some(m) => match m.crank_revolution_data {
            Some(c) => Some(Some(c)),
            None => None,
        },
    }
}

/// The measurement a reference refers to, for use in contracts.
pub open spec fn power_of(a: Option<&CyclingPowerMeasurement>) -> Option<
    CyclingPowerMeasurement,
> {
    match a {
        Some(x) => Some(*x),
        None => None,
    }
}

/// The crank delta between two whole power measurements: `None` when the
/// current measurement has no crank data, or the previous measurement is
/// present yet lacks crank data (its baseline is unknown, not zero), or the
/// snapshot delta itself yields nothing.
pub open spec fn spec_power_crank_delta(
    a: Option<CyclingPowerMeasurement>,
    b: CyclingPowerMeasurement,
) -> Option<(RatePerMinute, u32)> {
    match (spec_power_crank_baseline(a), b.crank_revolution_data) {
        (Some(prev), Some(curr)) => spec_crank_delta(prev, curr),
        _ => None,
    }
}

/// Crank rate (cadence) and new crank revolutions between a previous and a
/// current power measurement.  A missing previous measurement means a zero
/// baseline; a previous measurement that lacks crank data aborts instead.
pub fn checked_crank_rpm_and_new_count(
    a: Option<&CyclingPowerMeasurement>,
    b: &CyclingPowerMeasurement,
) -> (r: Option<(RatePerMinute, u32)>)
    requires
        a matches Some(m) ==> wf_power(*m),
        wf_power(*b),
    ensures
        r == spec_power_crank_delta(power_of(a), *b),
{
    match b.crank_revolution_data.as_ref() {
        None => None,
        Some(curr) => match a {
            None => revolution_data::checked_crank_rpm_and_new_count(None, curr),
            Some(m) => match m.crank_revolution_data.as_ref() {
                None => None,
                Some(prev) => revolution_data::checked_crank_rpm_and_new_count(Some(prev), curr),
            },
        },
    }
}

/// The torque gained between two accumulated-torque readings, in 1/32 Nm
/// units: defined when both measurements carry a reading from the same
/// source.  The 16-bit register follows the crank counter's wrap rule; a
/// register that went strictly backwards is read as one wrap, while an
/// unchanged register contributes nothing.
pub open spec fn spec_new_accumulated_torque(
    a: CyclingPowerMeasurement,
    b: CyclingPowerMeasurement,
) -> Option<u32> {
    match (a.accumulated_torque, b.accumulated_torque) {
        (Some((prev_source, prev_units)), Some((curr_source, curr_units))) => if prev_source
            == curr_source {
            if curr_units >= prev_units {
                Some((curr_units - prev_units) as u32)
            } else {
                Some((65536 + curr_units - prev_units) as u32)
            }
        } else {
            None
        },
        _ => None,
    }
}

impl CyclingPowerMeasurement {
    /// The accumulated torque this measurement adds over a previous one, in
    /// 1/32 Nm units.  Summing these across a session and multiplying by
    /// 2*pi/32 yields total mechanical energy in joules.
    pub fn new_accumulated_torque(&self, b: &CyclingPowerMeasurement) -> (r: Option<u32>)
        ensures
            r == spec_new_accumulated_torque(*self, *b),
    {
        match (self.accumulated_torque.as_ref(), b.accumulated_torque.as_ref()) {
            (Some(prev), Some(curr)) => {
                let same_source = match (prev.0, curr.0) {
                    (AccumulatedTorqueSource::Wheel, AccumulatedTorqueSource::Wheel) => true,
                    (AccumulatedTorqueSource::Crank, AccumulatedTorqueSource::Crank) => true,
                    _ => false,
                };
                if same_source {
                    if curr.1 >= prev.1 {
                        Some((curr.1 - prev.1) as u32)
                    } else {
                        Some(65536 + (curr.1 as u32) - (prev.1 as u32))
                    }
                } else {
                    None
                }
            },
            _ => None,
        }
    }
}

} // verus!
