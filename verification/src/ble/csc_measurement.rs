//! Decoder for the Cycling Speed and Cadence (CSC) measurement
//! characteristic, and the checked deltas over consecutive measurements.
//!
//! Payload layout: a flag byte, then an optional wheel block (32-bit
//! revolution count, 16-bit event time in 1/1024 s), then an optional crank
//! block (16-bit revolution count, 16-bit event time in 1/1024 s), all
//! little-endian.  Bit 0 of the flag byte announces the wheel block, bit 1
//! the crank block.
use vstd::prelude::*;

use crate::ble::payload::le16_at;
use crate::ble::payload::le16_bytes;
use crate::ble::payload::le32_at;
use crate::ble::payload::le32_bytes;
use crate::ble::payload::lemma_le16_value;
use crate::ble::payload::lemma_le32_value;
use crate::ble::payload::read_u16_le;
use crate::ble::payload::read_u32_le;
use crate::ble::revolution_data::snapshot_of;
use crate::ble::revolution_data::spec_crank_delta;
use crate::ble::revolution_data::spec_wheel_delta;
use crate::ble::revolution_data::wf_crank_count;
use crate::ble::revolution_data::wf_event_ticks;
use crate::ble::revolution_data::RatePerMinute;
use crate::ble::revolution_data::RevolutionData;
use crate::ble::revolution_data;

verus! {

/// A decoded CSC measurement: wheel and/or crank revolution snapshots.
#[derive(Debug, PartialEq, Clone)]
pub struct CscMeasurement {
    /// Data about wheel rotations.
    pub wheel: Option<RevolutionData>,
    /// Data about crank rotations.
    pub crank: Option<RevolutionData>,
}

/// Whether the payload announces a wheel block.
pub open spec fn csc_has_wheel(data: Seq<u8>) -> bool {
    data[0] & 1 == 1
}

/// Whether the payload announces a crank block.
pub open spec fn csc_has_crank(data: Seq<u8>) -> bool {
    data[0] & 2 == 2
}

/// Offset of the crank block: it follows the wheel block if one is present.
pub open spec fn csc_crank_index(data: Seq<u8>) -> int {
    if csc_has_wheel(data) {
        7
    } else {
        1
    }
}

/// A payload long enough for every block its flag byte announces.  Shorter
/// input is a protocol violation the decoder does not try to repair.
pub open spec fn csc_input_ok(data: Seq<u8>) -> bool {
    &&& data.len() >= 1
    &&& csc_has_wheel(data) ==> data.len() >= 7
    &&& csc_has_crank(data) ==> data.len() >= csc_crank_index(data) + 4
}

/// The measurement a CSC payload denotes.  Event times arrive in 1/1024 s
/// units and are stored as twice that many 1/2048 s ticks.
pub open spec fn spec_parse_csc(data: Seq<u8>) -> CscMeasurement {
    CscMeasurement {
        wheel: if csc_has_wheel(data) {
            Some(
                RevolutionData {
                    revolution_count: le32_at(data, 1) as u32,
                    last_event_ticks: (2 * le16_at(data, 5)) as u32,
                },
            )
        } else {
            None
        },
        crank: if csc_has_crank(data) {
            Some(
                RevolutionData {
                    revolution_count: le16_at(data, csc_crank_index(data)) as u32,
                    last_event_ticks: (2 * le16_at(data, csc_crank_index(data) + 2)) as u32,
                },
            )
        } else {
            None
        },
    }
}

/// Every snapshot a CSC payload can denote is well formed: its event time
/// lies under the wrap period and a crank count under the 16-bit modulus.
pub open spec fn wf_csc(m: CscMeasurement) -> bool {
    &&& m.wheel matches Some(w) ==> wf_event_ticks(w)
    &&& m.crank matches Some(c) ==> wf_event_ticks(c) && wf_crank_count(c)
}

/// Decodes a CSC measurement payload.  The input is assumed valid: the
/// caller must guarantee the payload is as long as its flag byte promises.
pub fn parse_csc_measurement(data: &Vec<u8>) -> (r: CscMeasurement)
    requires
        csc_input_ok(data@),
    ensures
        r == spec_parse_csc(data@),
        wf_csc(r),
{
    let has_wheel_data = data[0] & 1 == 1;
    let has_crank_data = data[0] & 2 == 2;
    let wheel_index: usize = 1;
    let crank_index: usize = if has_wheel_data {
        7
    } else {
        1
    };

    CscMeasurement {
        wheel: if has_wheel_data {
            Some(
                RevolutionData {
                    revolution_count: read_u32_le(data, wheel_index),
                    last_event_ticks: 2 * (read_u16_le(data, wheel_index + 4) as u32),
                },
            )
        } else {
            None
        },
        crank: if has_crank_data {
            Some(
                RevolutionData {
                    revolution_count: read_u16_le(data, crank_index) as u32,
                    last_event_ticks: 2 * (read_u16_le(data, crank_index + 2) as u32),
                },
            )
        } else {
            None
        },
    }
}

/// A measurement the wire format can carry: event times are whole 1/1024 s
/// units (even tick counts) under the wrap period, and a crank count fits
/// its 16-bit field.
pub open spec fn csc_encodable(m: CscMeasurement) -> bool {
    &&& m.wheel matches Some(w) ==> (w.last_event_ticks % 2 == 0 && wf_event_ticks(w))
    &&& m.crank matches Some(c) ==> (c.last_event_ticks % 2 == 0 && wf_event_ticks(c)
        && wf_crank_count(c))
}

/// The payload that carries a measurement: the flag byte for the blocks
/// present, then the wheel block, then the crank block.
pub open spec fn spec_csc_payload(m: CscMeasurement) -> Seq<u8> {
    let flags = ((if m.wheel is Some {
        1int
    } else {
        0int
    }) + (if m.crank is Some {
        2int
    } else {
        0int
    })) as u8;
    seq![flags] + (match m.wheel {
        Some(w) => le32_bytes(w.revolution_count as int) + le16_bytes(
            w.last_event_ticks as int / 2,
        ),
        None => Seq::empty(),
    }) + (match m.crank {
        Some(c) => le16_bytes(c.revolution_count as int) + le16_bytes(
            c.last_event_ticks as int / 2,
        ),
        None => Seq::empty(),
    })
}

/// Law: decoding a constructed payload yields exactly the measurement it
/// was built from, for every combination of present blocks.
pub proof fn lemma_csc_round_trip(m: CscMeasurement)
    requires
        csc_encodable(m),
    ensures
        csc_input_ok(spec_csc_payload(m)),
        spec_parse_csc(spec_csc_payload(m)) == m,
{
    let data = spec_csc_payload(m);
    let has_w = m.wheel is Some;
    let has_c = m.crank is Some;
    assert(0u8 & 1 != 1 && 0u8 & 2 != 2) by (bit_vector);
    assert(1u8 & 1 == 1 && 1u8 & 2 != 2) by (bit_vector);
    assert(2u8 & 1 != 1 && 2u8 & 2 == 2) by (bit_vector);
    assert(3u8 & 1 == 1 && 3u8 & 2 == 2) by (bit_vector);
    if has_w {
        if has_c {
            assert(data[0] == 3);
        } else {
            assert(data[0] == 1);
        }
    } else {
        if has_c {
            assert(data[0] == 2);
        } else {
            assert(data[0] == 0);
        }
    }
    assert(csc_has_wheel(data) == has_w);
    assert(csc_has_crank(data) == has_c);
    match m.wheel {
        None => {},
        Some(w) => {
            let wc = w.revolution_count as int;
        let wt = w.last_event_ticks as int;
        assert(data[1] == (wc % 256) as u8);
        assert(data[2] == ((wc / 256) % 256) as u8);
        assert(data[3] == ((wc / 65536) % 256) as u8);
        assert(data[4] == ((wc / 16777216) % 256) as u8);
        lemma_le32_value(wc);
        assert(le32_at(data, 1) == wc);
        assert(0 <= wt / 2 < 65536) by (nonlinear_arith)
            requires
                0 <= wt < 131072,
        ;
        assert(data[5] == ((wt / 2) % 256) as u8);
        assert(data[6] == (((wt / 2) / 256) % 256) as u8);
        lemma_le16_value(wt / 2);
        assert(le16_at(data, 5) == wt / 2);
        assert(2 * (wt / 2) == wt) by (nonlinear_arith)
            requires
                wt % 2 == 0,
                0 <= wt,
        ;
        },
    }
    match m.crank {
        None => {},
        Some(c) => {
        let ci = csc_crank_index(data);
        let cc = c.revolution_count as int;
        let ct = c.last_event_ticks as int;
        assert(data[ci] == (cc % 256) as u8);
        assert(data[ci + 1] == ((cc / 256) % 256) as u8);
        lemma_le16_value(cc);
        assert(le16_at(data, ci) == cc);
        assert(0 <= ct / 2 < 65536) by (nonlinear_arith)
            requires
                0 <= ct < 131072,
        ;
        assert(data[ci + 2] == ((ct / 2) % 256) as u8);
        assert(data[ci + 3] == (((ct / 2) / 256) % 256) as u8);
        lemma_le16_value(ct / 2);
        assert(le16_at(data, ci + 2) == ct / 2);
        assert(2 * (ct / 2) == ct) by (nonlinear_arith)
            requires
                ct % 2 == 0,
                0 <= ct,
        ;
        },
    }
    assert(spec_parse_csc(data) == m);
}

/// The crank sub-snapshot of an optional previous measurement, provided the
/// measurement, when present, carries one: a previous measurement without
/// crank data must not fall back to the zero baseline.
pub open spec fn spec_crank_baseline(a: Option<CscMeasurement>) -> Option<
    Option<RevolutionData>,
> {
    match a {
        None => Some(None),
        Some(m) => match m.crank {
            Some(c) => Some(Some(c)),
            None => None,
        },
    }
}

/// As `spec_crank_baseline`, for the wheel sub-snapshot.
pub open spec fn spec_wheel_baseline(a: Option<CscMeasurement>) -> Option<
    Option<RevolutionData>,
> {
    match a {
        None => Some(None),
        Some(m) => match m.wheel {
            Some(w) => Some(Some(w)),
            None => None,
        },
    }
}

/// The measurement a reference refers to, for use in contracts.
pub open spec fn csc_of(a: Option<&CscMeasurement>) -> Option<CscMeasurement> {
    match a {
        Some(x) => Some(*x),
        None => None,
    }
}

/// The crank delta between two whole CSC measurements: `None` when the
/// current measurement has no crank data, or the previous measurement is
/// present yet lacks crank data (its baseline is unknown, not zero), or the
/// snapshot delta itself yields nothing.
pub open spec fn spec_csc_crank_delta(
    a: Option<CscMeasurement>,
    b: CscMeasurement,
) -> Option<(RatePerMinute, u32)> {
    match (spec_crank_baseline(a), b.crank) {
        (Some(prev), Some(curr)) => spec_crank_delta(prev, curr),
        _ => None,
    }
}

/// As `spec_csc_crank_delta`, for wheel data.
pub open spec fn spec_csc_wheel_delta(
    a: Option<CscMeasurement>,
    b: CscMeasurement,
) -> Option<(RatePerMinute, u32)> {
    match (spec_wheel_baseline(a), b.wheel) {
        (Some(prev), Some(curr)) => spec_wheel_delta(prev, curr),
        _ => None,
    }
}

/// Law: a previous measurement that is present overall yet lacks the
/// sub-measurement in question yields nothing, whatever the current
/// measurement holds.  Its baseline is unknown, not zero: only a previous
/// measurement that is entirely absent legitimately defaults the baseline.
pub proof fn lemma_missing_sub_measurement_aborts(prev: CscMeasurement, curr: CscMeasurement)
    ensures
        prev.crank is None ==> spec_csc_crank_delta(Some(prev), curr) is None,
        prev.wheel is None ==> spec_csc_wheel_delta(Some(prev), curr) is None,
{
}

/// Wheel rate and new wheel revolutions between a previous and a current CSC
/// measurement.  A missing previous measurement means a zero baseline; a
/// previous measurement that lacks wheel data aborts instead.
pub fn checked_wheel_rpm_and_new_count(
    a: Option<&CscMeasurement>,
    b: &CscMeasurement,
) -> (r: Option<(RatePerMinute, u32)>)
    requires
        a matches Some(m) ==> wf_csc(*m),
        wf_csc(*b),
        b.wheel matches Some(w) ==> w.revolution_count > 0 || w.last_event_ticks == 0,
    ensures
        r == spec_csc_wheel_delta(csc_of(a), *b),
{
    match b.wheel.as_ref() {
        None => None,
        Some(curr) => match a {
            None => revolution_data::checked_wheel_rpm_and_new_count(None, curr),
            Some(m) => match m.wheel.as_ref() {
                None => None,
                Some(prev) => revolution_data::checked_wheel_rpm_and_new_count(Some(prev), curr),
            },
        },
    }
}

/// Crank rate (cadence) and new crank revolutions between a previous and a
/// current CSC measurement.  A missing previous measurement means a zero
/// baseline; a previous measurement that lacks crank data aborts instead.
pub fn checked_crank_rpm_and_new_count(
    a: Option<&CscMeasurement>,
    b: &CscMeasurement,
) -> (r: Option<(RatePerMinute, u32)>)
    requires
        a matches Some(m) ==> wf_csc(*m),
        wf_csc(*b),
    ensures
        r == spec_csc_crank_delta(csc_of(a), *b),
{
    match b.crank.as_ref() {
        None => None,
        Some(curr) => match a {
            None => revolution_data::checked_crank_rpm_and_new_count(None, curr),
            Some(m) => match m.crank.as_ref() {
                None => None,
                Some(prev) => revolution_data::checked_crank_rpm_and_new_count(Some(prev), curr),
            },
        },
    }
}

} // verus!
