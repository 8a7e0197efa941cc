//! Turns a recorded session's sensor notifications into FIT records, one
//! per second: heart rate, power and cadence, with cadence derived from
//! consecutive crank snapshots by the delta engine and power carried
//! forward into a second that got none of its own.  The store that the
//! notifications come from only iterates; every decision lives here.
use vstd::prelude::*;

use crate::ble::csc_measurement::csc_input_ok;
use crate::ble::csc_measurement::parse_csc_measurement;
use crate::ble::csc_measurement::spec_csc_crank_delta;
use crate::ble::csc_measurement::spec_parse_csc;
use crate::ble::csc_measurement::wf_csc;
use crate::ble::csc_measurement::CscMeasurement;
use crate::ble::csc_measurement;
use crate::ble::cycling_power_measurement::parse_cycling_power_measurement;
use crate::ble::cycling_power_measurement::power_input_ok;
use crate::ble::cycling_power_measurement::spec_parse_power;
use crate::ble::cycling_power_measurement::spec_power_crank_delta;
use crate::ble::cycling_power_measurement::uint16_of;
use crate::ble::cycling_power_measurement::wf_power;
use crate::ble::cycling_power_measurement::CyclingPowerMeasurement;
use crate::ble::cycling_power_measurement;
use crate::ble::heart_rate_measurement::hrm_input_ok;
use crate::ble::heart_rate_measurement::parse_hrm;
use crate::ble::heart_rate_measurement::spec_hrm_bpm;
use crate::ble::revolution_data::RatePerMinute;
use crate::fit::FitRecord;

verus! {

/// One sensor notification of a recorded session, routed by characteristic:
/// the raw payload of a heart rate, cycling power, or CSC measurement.
pub enum SessionNotification {
    HeartRate(Vec<u8>),
    Power(Vec<u8>),
    Csc(Vec<u8>),
}

/// A notification and the second of the session it arrived in.
pub struct SessionEntry {
    pub seconds_since_unix_epoch: u32,
    pub notification: SessionNotification,
}

/// Every payload of the session is as long as its flag byte promises.
pub open spec fn session_entries_ok(entries: Seq<SessionEntry>) -> bool {
    forall|i: int|
        0 <= i < entries.len() ==> match #[trigger] entries[i].notification {
            SessionNotification::HeartRate(v) => hrm_input_ok(v@),
            SessionNotification::Power(v) => power_input_ok(v@),
            SessionNotification::Csc(v) => csc_input_ok(v@),
        }
}

/// A record with nothing measured yet.
pub open spec fn spec_empty_record(t: u32) -> FitRecord {
    FitRecord { seconds_since_unix_epoch: t, power: None, heart_rate: None, cadence: None }
}

/// The cadence byte a rate yields: the whole revolutions per minute, capped
/// at the byte's range.
pub open spec fn spec_cadence_byte(rate: RatePerMinute) -> u8 {
    if rate.denominator == 0 {
        0
    } else if rate.numerator / rate.denominator > 255 {
        255
    } else {
        (rate.numerator / rate.denominator) as u8
    }
}

/// A finished record inherits the last power measurement when its own
/// second brought no power notification.
pub open spec fn spec_backfill(r: FitRecord, lp: Option<CyclingPowerMeasurement>) -> FitRecord {
    match (r.power, lp) {
        (None, Some(p)) => FitRecord {
            seconds_since_unix_epoch: r.seconds_since_unix_epoch,
            power: Some(uint16_of(p.instantaneous_power as int) as u16),
            heart_rate: r.heart_rate,
            cadence: r.cadence,
        },
        _ => r,
    }
}

/// What one notification does to the record of its second and to the
/// remembered previous measurements.
pub open spec fn spec_apply(
    cur: FitRecord,
    lp: Option<CyclingPowerMeasurement>,
    lc: Option<CscMeasurement>,
    n: SessionNotification,
) -> (FitRecord, Option<CyclingPowerMeasurement>, Option<CscMeasurement>) {
    match n {
        SessionNotification::HeartRate(v) => (
            FitRecord {
                seconds_since_unix_epoch: cur.seconds_since_unix_epoch,
                power: cur.power,
                heart_rate: Some((spec_hrm_bpm(v@) % 256) as u8),
                cadence: cur.cadence,
            },
            lp,
            lc,
        ),
        SessionNotification::Power(v) => {
            let m = spec_parse_power(v@);
            (
                FitRecord {
                    seconds_since_unix_epoch: cur.seconds_since_unix_epoch,
                    power: Some(uint16_of(m.instantaneous_power as int) as u16),
                    heart_rate: cur.heart_rate,
                    cadence: match spec_power_crank_delta(lp, m) {
                        Some((rate, _)) => Some(spec_cadence_byte(rate)),
                        None => cur.cadence,
                    },
                },
                Some(m),
                lc,
            )
        },
        SessionNotification::Csc(v) => {
            let m = spec_parse_csc(v@);
            (
                FitRecord {
                    seconds_since_unix_epoch: cur.seconds_since_unix_epoch,
                    power: cur.power,
                    heart_rate: cur.heart_rate,
                    cadence: match spec_csc_crank_delta(lc, m) {
                        Some((rate, _)) => Some(spec_cadence_byte(rate)),
                        None => cur.cadence,
                    },
                },
                lp,
                if m.crank is Some {
                    Some(m)
                } else {
                    lc
                },
            )
        },
    }
}

/// The records the remaining entries contribute, given the record in
/// progress and the remembered previous measurements.  A record is finished
/// when an entry of a later second arrives; the record still in progress at
/// the session's end is not emitted, as the surrounding store glue never
/// did.
pub open spec fn spec_session_fold(
    entries: Seq<SessionEntry>,
    i: int,
    record: Option<FitRecord>,
    lp: Option<CyclingPowerMeasurement>,
    lc: Option<CscMeasurement>,
) -> Seq<FitRecord>
    decreases entries.len() - i,
{
    if i < 0 || i >= entries.len() {
        Seq::empty()
    } else {
        let seconds = entries[i].seconds_since_unix_epoch;
        let rolled = match record {
            None => (None::<FitRecord>, spec_empty_record(seconds)),
            Some(r0) => if r0.seconds_since_unix_epoch == seconds {
                (None::<FitRecord>, r0)
            } else {
                (Some(spec_backfill(r0, lp)), spec_empty_record(seconds))
            },
        };
        let applied = spec_apply(rolled.1, lp, lc, entries[i].notification);
        (match rolled.0 {
            Some(f) => seq![f],
            None => Seq::empty(),
        }) + spec_session_fold(entries, i + 1, Some(applied.0), applied.1, applied.2)
    }
}

/// The records a whole session denotes.
pub open spec fn spec_session_records(entries: Seq<SessionEntry>) -> Seq<FitRecord> {
    spec_session_fold(entries, 0, None, None, None)
}

/// The cadence byte a rate yields: the whole revolutions per minute, capped
/// at the byte's range.
fn cadence_byte(rate: RatePerMinute) -> (r: u8)
    ensures
        r == spec_cadence_byte(rate),
{
    if rate.denominator == 0 {
        0
    } else {
        let q: u64 = rate.numerator / rate.denominator;
        if q > 255 {
            255
        } else {
            q as u8
        }
    }
}

/// The 16-bit register image of a signed power value.
fn power_to_u16(p: i16) -> (r: u16)
    ensures
        r == uint16_of(p as int) as u16,
{
    if p >= 0 {
        p as u16
    } else {
        ((p as i32) + 65536) as u16
    }
}

/// Folds a session's notifications into FIT records, one per second.  The
/// payloads are assumed valid, as the decoders assume of every caller.
pub fn session_to_fit_records(entries: &Vec<SessionEntry>) -> (r: Vec<FitRecord>)
    requires
        session_entries_ok(entries@),
    ensures
        r@ == spec_session_records(entries@),
{
    let mut out: Vec<FitRecord> = Vec::new();
    let mut record: Option<FitRecord> = None;
    let mut last_power: Option<CyclingPowerMeasurement> = None;
    let mut last_cadence: Option<CscMeasurement> = None;
    let n: usize = entries.len();
    let mut i: usize = 0;
    assert(out@ + spec_session_records(entries@) =~= spec_session_records(entries@));
    while i < n
        invariant
            n == entries@.len(),
            i <= n,
            session_entries_ok(entries@),
            last_power matches Some(m) ==> wf_power(m),
            last_cadence matches Some(m) ==> wf_csc(m),
            out@ + spec_session_fold(entries@, i as int, record, last_power, last_cadence)
                == spec_session_records(entries@),
        decreases n - i,
    {
        let ghost record0 = record;
        let ghost lp0 = last_power;
        let ghost lc0 = last_cadence;
        let ghost out0 = out@;
        let entry = &entries[i];
        let seconds = entry.seconds_since_unix_epoch;

        let mut finished: Option<FitRecord> = None;
        let current: FitRecord = match record {
            None => FitRecord {
                seconds_since_unix_epoch: seconds,
                power: None,
                heart_rate: None,
                cadence: None,
            },
            Some(r0) => {
                if r0.seconds_since_unix_epoch == seconds {
                    r0
                } else {
                    let filled = if r0.power.is_none() {
                        match &last_power {
                            Some(p) => FitRecord {
                                seconds_since_unix_epoch: r0.seconds_since_unix_epoch,
                                power: Some(power_to_u16(p.instantaneous_power)),
                                heart_rate: r0.heart_rate,
                                cadence: r0.cadence,
                            },
                            None => r0,
                        }
                    } else {
                        r0
                    };
                    finished = Some(filled);
                    FitRecord {
                        seconds_since_unix_epoch: seconds,
                        power: None,
                        heart_rate: None,
                        cadence: None,
                    }
                }
            },
        };
        if let Some(f) = finished {
            out.push(f);
        }

        let applied: FitRecord = match &entry.notification {
            SessionNotification::HeartRate(v) => {
                let hrm = parse_hrm(v);
                FitRecord {
                    seconds_since_unix_epoch: current.seconds_since_unix_epoch,
                    power: current.power,
                    heart_rate: Some((hrm.bpm % 256) as u8),
                    cadence: current.cadence,
                }
            },
            SessionNotification::Power(v) => {
                let m = parse_cycling_power_measurement(v);
                let delta = cycling_power_measurement::checked_crank_rpm_and_new_count(
                    last_power.as_ref(),
                    &m,
                );
                let cadence = match delta {
                    Some((rate, _)) => Some(cadence_byte(rate)),
                    None => current.cadence,
                };
                let power = Some(power_to_u16(m.instantaneous_power));
                last_power = Some(m);
                FitRecord {
                    seconds_since_unix_epoch: current.seconds_since_unix_epoch,
                    power,
                    heart_rate: current.heart_rate,
                    cadence,
                }
            },
            SessionNotification::Csc(v) => {
                let m = parse_csc_measurement(v);
                let delta = csc_measurement::checked_crank_rpm_and_new_count(
                    last_cadence.as_ref(),
                    &m,
                );
                let cadence = match delta {
                    Some((rate, _)) => Some(cadence_byte(rate)),
                    None => current.cadence,
                };
                if m.crank.is_some() {
                    last_cadence = Some(m);
                }
                FitRecord {
                    seconds_since_unix_epoch: current.seconds_since_unix_epoch,
                    power: current.power,
                    heart_rate: current.heart_rate,
                    cadence,
                }
            },
        };
        record = Some(applied);
        i = i + 1;
        proof {
            let e = entries@[i - 1];
            let rolled = match record0 {
                None => (None::<FitRecord>, spec_empty_record(e.seconds_since_unix_epoch)),
                Some(r0) => if r0.seconds_since_unix_epoch == e.seconds_since_unix_epoch {
                    (None::<FitRecord>, r0)
                } else {
                    (
                        Some(spec_backfill(r0, lp0)),
                        spec_empty_record(e.seconds_since_unix_epoch),
                    )
                },
            };
            let sa = spec_apply(rolled.1, lp0, lc0, e.notification);
            assert(record == Some(sa.0));
            assert(last_power == sa.1);
            assert(last_cadence == sa.2);
            assert(spec_session_fold(entries@, i - 1, record0, lp0, lc0) == (match rolled.0 {
                Some(f) => seq![f],
                None => Seq::<FitRecord>::empty(),
            }) + spec_session_fold(entries@, i as int, record, last_power, last_cadence));
            assert(out@ == out0 + (match rolled.0 {
                Some(f) => seq![f],
                None => Seq::<FitRecord>::empty(),
            }));
            assert(out@ + spec_session_fold(entries@, i as int, record, last_power, last_cadence)
                =~= spec_session_records(entries@));
        }
    }
    out
}

} // verus!
