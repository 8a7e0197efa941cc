//! Decoder for the Heart Rate measurement characteristic.
//!
//! Payload layout, little-endian: a flag byte, then the heart rate as one
//! byte or, when flag bit 0 is set, two bytes; then, when flag bit 3 is set,
//! a 16-bit cumulative energy-expended field; every remaining byte pair is
//! an R-R interval in 1/1024 s units, oldest first.  Flag bit 2 says whether
//! the sensor supports contact detection at all, and only then does flag
//! bit 1 carry the detected value.
use vstd::prelude::*;

use crate::ble::payload::le16_at;
use crate::ble::payload::le16_bytes;
use crate::ble::payload::lemma_le16_value;
use crate::ble::payload::read_u16_le;

verus! {

/// A decoded heart rate measurement.
#[derive(Debug, PartialEq, Clone)]
pub struct HeartRateMeasurement {
    /// Heart rate in beats per minute.
    pub bpm: u16,
    /// Whether skin contact is detected; `None` when the sensor does not
    /// support contact detection.
    pub sensor_contact: Option<bool>,
    /// Cumulative energy expended in joules, when reported.  The 16-bit
    /// register silently overflows on very long sessions.
    pub energy_expended: Option<u16>,
    /// R-R intervals in 1/1024 s units, in sensor-transmission order
    /// (oldest first).
    pub rr_intervals: Vec<u16>,
}

pub open spec fn hrm_bpm_is_wide(data: Seq<u8>) -> bool {
    data[0] & 1 == 1
}

pub open spec fn hrm_contact_supported(data: Seq<u8>) -> bool {
    data[0] & 4 == 4
}

pub open spec fn hrm_contact_detected(data: Seq<u8>) -> bool {
    data[0] & 2 == 2
}

pub open spec fn hrm_has_energy(data: Seq<u8>) -> bool {
    data[0] & 8 == 8
}

/// Offset of the first byte after the heart rate field.
pub open spec fn hrm_bpm_end(data: Seq<u8>) -> int {
    1 + if hrm_bpm_is_wide(data) {
        2int
    } else {
        1int
    }
}

/// Offset of the first R-R interval byte.
pub open spec fn hrm_rr_start(data: Seq<u8>) -> int {
    hrm_bpm_end(data) + if hrm_has_energy(data) {
        2int
    } else {
        0int
    }
}

/// A payload long enough for the fields its flag byte announces.
pub open spec fn hrm_input_ok(data: Seq<u8>) -> bool {
    data.len() >= hrm_rr_start(data)
}

/// How many whole R-R intervals follow the fixed fields.
pub open spec fn hrm_rr_count(data: Seq<u8>) -> int {
    (data.len() - hrm_rr_start(data)) / 2
}

/// The heart rate a payload denotes.
pub open spec fn spec_hrm_bpm(data: Seq<u8>) -> u16 {
    if hrm_bpm_is_wide(data) {
        le16_at(data, 1) as u16
    } else {
        data[1] as u16
    }
}

/// The contact field a payload denotes: `None` when unsupported.
pub open spec fn spec_hrm_contact(data: Seq<u8>) -> Option<bool> {
    if hrm_contact_supported(data) {
        Some(hrm_contact_detected(data))
    } else {
        None
    }
}

/// The energy-expended field a payload denotes, when present.
pub open spec fn spec_hrm_energy(data: Seq<u8>) -> Option<u16> {
    if hrm_has_energy(data) {
        Some(le16_at(data, hrm_bpm_end(data)) as u16)
    } else {
        None
    }
}

/// The R-R intervals a heart rate payload denotes.
pub open spec fn spec_hrm_rr_intervals(data: Seq<u8>) -> Seq<u16> {
    Seq::new(
        hrm_rr_count(data) as nat,
        |k: int| le16_at(data, hrm_rr_start(data) + 2 * k) as u16,
    )
}

/// The byte encoding of a run of R-R intervals, two little-endian bytes
/// each, in order.
pub open spec fn rr_bytes(rr: Seq<u16>) -> Seq<u8>
    decreases rr.len(),
{
    if rr.len() == 0 {
        Seq::empty()
    } else {
        rr_bytes(rr.drop_last()) + le16_bytes(rr.last() as int)
    }
}

/// Where each interval's bytes sit in the encoding of a run.
pub proof fn lemma_rr_bytes(rr: Seq<u16>)
    ensures
        rr_bytes(rr).len() == 2 * rr.len(),
        forall|k: int|
            0 <= k < rr.len() ==> rr_bytes(rr)[2 * k] == (rr[k] as int % 256) as u8 && rr_bytes(
                rr,
            )[2 * k + 1] == ((rr[k] as int / 256) % 256) as u8,
    decreases rr.len(),
{
    if rr.len() > 0 {
        lemma_rr_bytes(rr.drop_last());
        assert forall|k: int| 0 <= k < rr.len() implies rr_bytes(rr)[2 * k] == (rr[k] as int
            % 256) as u8 && rr_bytes(rr)[2 * k + 1] == ((rr[k] as int / 256) % 256) as u8 by {
            if k < rr.len() - 1 {
                assert(rr.drop_last()[k] == rr[k]);
                assert(rr_bytes(rr)[2 * k] == rr_bytes(rr.drop_last())[2 * k]);
                assert(rr_bytes(rr)[2 * k + 1] == rr_bytes(rr.drop_last())[2 * k + 1]);
            } else {
                assert(rr.last() == rr[k]);
            }
        }
    }
}

/// The payload that carries a heart rate measurement: the flag byte, the
/// heart rate in one byte or, when `wide` is chosen, two, then the energy
/// field if present, then the R-R intervals.
pub open spec fn spec_hrm_payload(
    wide: bool,
    bpm: u16,
    contact: Option<bool>,
    energy: Option<u16>,
    rr: Seq<u16>,
) -> Seq<u8> {
    let flags = ((if wide {
        1int
    } else {
        0int
    }) + (if contact == Some(true) {
        2int
    } else {
        0int
    }) + (if contact is Some {
        4int
    } else {
        0int
    }) + (if energy is Some {
        8int
    } else {
        0int
    })) as u8;
    seq![flags] + (if wide {
        le16_bytes(bpm as int)
    } else {
        seq![bpm as u8]
    }) + (match energy {
        Some(e) => le16_bytes(e as int),
        None => Seq::empty(),
    }) + rr_bytes(rr)
}

/// Law: decoding a constructed payload yields exactly the fields it was
/// built from, for either heart rate width, every contact state, with and
/// without the energy field, and for any run of R-R intervals.
pub proof fn lemma_hrm_round_trip(
    wide: bool,
    bpm: u16,
    contact: Option<bool>,
    energy: Option<u16>,
    rr: Seq<u16>,
)
    requires
        !wide ==> bpm < 256,
    ensures
        hrm_input_ok(spec_hrm_payload(wide, bpm, contact, energy, rr)),
        spec_hrm_bpm(spec_hrm_payload(wide, bpm, contact, energy, rr)) == bpm,
        spec_hrm_contact(spec_hrm_payload(wide, bpm, contact, energy, rr)) == contact,
        spec_hrm_energy(spec_hrm_payload(wide, bpm, contact, energy, rr)) == energy,
        spec_hrm_rr_intervals(spec_hrm_payload(wide, bpm, contact, energy, rr)) == rr,
{
    let data = spec_hrm_payload(wide, bpm, contact, energy, rr);
    let x1: u8 = if wide {
        1
    } else {
        0
    };
    let x2: u8 = if contact == Some(true) {
        2
    } else {
        0
    };
    let x3: u8 = if contact is Some {
        4
    } else {
        0
    };
    let x4: u8 = if energy is Some {
        8
    } else {
        0
    };
    let f: u8 = (x1 + x2 + x3 + x4) as u8;
    assert(data[0] == f);
    assert((f & 1 == 1) == (x1 == 1) && (f & 2 == 2) == (x2 == 2) && (f & 4 == 4) == (x3 == 4) && (
    f & 8 == 8) == (x4 == 8)) by (bit_vector)
        requires
            f == x1 + x2 + x3 + x4,
            x1 == 0 || x1 == 1,
            x2 == 0 || x2 == 2,
            x3 == 0 || x3 == 4,
            x4 == 0 || x4 == 8,
    ;
    assert(hrm_bpm_is_wide(data) == wide);
    assert(hrm_contact_supported(data) == (contact is Some));
    assert(hrm_has_energy(data) == (energy is Some));
    lemma_rr_bytes(rr);

    if wide {
        assert(data[1] == (bpm as int % 256) as u8);
        assert(data[2] == ((bpm as int / 256) % 256) as u8);
        lemma_le16_value(bpm as int);
        assert(le16_at(data, 1) == bpm);
    } else {
        assert(data[1] == bpm as u8);
    }
    match contact {
        None => {},
        Some(detected) => {
            assert(hrm_contact_detected(data) == detected);
        },
    }
    match energy {
        None => {},
        Some(e) => {
            let ei = hrm_bpm_end(data);
            assert(data[ei] == (e as int % 256) as u8);
            assert(data[ei + 1] == ((e as int / 256) % 256) as u8);
            lemma_le16_value(e as int);
            assert(le16_at(data, ei) == e);
        },
    }
    let start = hrm_rr_start(data);
    assert(data.len() == start + 2 * rr.len());
    assert(hrm_rr_count(data) == rr.len()) by (nonlinear_arith)
        requires
            hrm_rr_count(data) == (data.len() - hrm_rr_start(data)) / 2,
            data.len() == hrm_rr_start(data) + 2 * rr.len(),
    ;
    assert forall|k: int| 0 <= k < rr.len() implies le16_at(data, start + 2 * k) == rr[k] by {
        assert(data[start + 2 * k] == rr_bytes(rr)[2 * k]);
        assert(data[start + 2 * k + 1] == rr_bytes(rr)[2 * k + 1]);
        lemma_le16_value(rr[k] as int);
    }
    assert(spec_hrm_rr_intervals(data) =~= rr);
}

/// Decodes a heart rate measurement payload.  The input is assumed valid:
/// the caller must guarantee the payload is as long as its flag byte
/// promises.  A trailing odd byte, not forming a whole R-R interval, is
/// ignored.
pub fn parse_hrm(data: &Vec<u8>) -> (r: HeartRateMeasurement)
    requires
        hrm_input_ok(data@),
    ensures
        r.bpm == spec_hrm_bpm(data@),
        r.sensor_contact == spec_hrm_contact(data@),
        r.energy_expended == spec_hrm_energy(data@),
        r.rr_intervals@ == spec_hrm_rr_intervals(data@),
{
    let bpm_is_wide = data[0] & 1 == 1;
    let contact_supported = data[0] & 4 == 4;
    let has_energy = data[0] & 8 == 8;

    let bpm: u16 = if bpm_is_wide {
        read_u16_le(data, 1)
    } else {
        data[1] as u16
    };
    let bpm_end: usize = if bpm_is_wide {
        3
    } else {
        2
    };

    let sensor_contact: Option<bool> = if contact_supported {
        Some(data[0] & 2 == 2)
    } else {
        None
    };

    let energy_expended: Option<u16> = if has_energy {
        Some(read_u16_le(data, bpm_end))
    } else {
        None
    };
    let rr_start: usize = if has_energy {
        bpm_end + 2
    } else {
        bpm_end
    };

    let rr_count: usize = (data.len() - rr_start) / 2;
    let mut rr_intervals: Vec<u16> = Vec::new();
    let mut k: usize = 0;
    while k < rr_count
        invariant
            data@.len() <= usize::MAX,
            rr_count == hrm_rr_count(data@),
            rr_start == hrm_rr_start(data@),
            2 * rr_count + rr_start <= data@.len(),
            k <= rr_count,
            rr_intervals@.len() == k,
            forall|j: int|
                0 <= j < k ==> rr_intervals@[j] == le16_at(data@, hrm_rr_start(data@) + 2 * j),
        decreases rr_count - k,
    {
        rr_intervals.push(read_u16_le(data, rr_start + 2 * k));
        k = k + 1;
    }
    assert(rr_intervals@ =~= spec_hrm_rr_intervals(data@));

    HeartRateMeasurement { bpm, sensor_contact, energy_expended, rr_intervals }
}

} // verus!
