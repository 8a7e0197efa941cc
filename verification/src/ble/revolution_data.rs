//! Revolution snapshots and the delta engine.
//!
//! A cycling sensor reports a cumulative revolution counter together with the
//! time of the last revolution edge, read from a 16-bit fixed-point clock.
//! This module keeps that clock in integer ticks of 1/2048 s, the finest
//! resolution any of the supported characteristics uses, so that every
//! quantity here is exact: a snapshot decoded from a 1/1024 s characteristic
//! stores twice its raw timer value, one decoded from a 1/2048 s
//! characteristic stores the raw value itself.
//!
//! The delta engine compares two snapshots of the same sensor and yields the
//! number of new revolutions and the revolution rate, handling timer wrap,
//! 16-bit counter wrap (cranks), sensor resets (wheels), and physically
//! implausible readings.
use vstd::prelude::*;

verus! {

/// Event-clock ticks per second.
pub const TICKS_PER_SECOND: u64 = 2048;

/// The event clock is a 16-bit counter of 1/1024 s units, so it wraps every
/// 64 seconds: 131072 ticks of 1/2048 s.  (A power sensor's wheel clock
/// counts 1/2048 s units and its 16-bit counter thus rolls over after 32
/// seconds; whether such a backwards step should add 32 s instead is an
/// open question of the real sensors' behaviour, flagged here rather than
/// silently resolved: the engine applies the 64 s period uniformly.)
pub const WRAP_TICKS: u32 = 131072;

/// Crank-style revolution counters are 16 bits wide and wrap at this modulus.
pub const CRANK_COUNT_MODULUS: u32 = 65536;

/// One revolution per tick is 60 * 2048 revolutions per minute, so a rate is
/// the exact fraction (revolutions * 122880) / ticks.
pub const RATE_NUMERATOR_PER_REVOLUTION: u64 = 122880;

/// Cadence ceiling in RPM; faster pedalling than the world record is noise.
pub const MAX_CRANK_RPM: u64 = 271;

/// Wheel ceiling in RPM; faster than the human-powered speed record is noise.
pub const MAX_WHEEL_RPM: u64 = 1250;

/// A sensor's cumulative revolution counter paired with the time of the last
/// revolution edge, in ticks of 1/2048 s since the clock last wrapped.
#[derive(Debug, PartialEq, Clone)]
pub struct RevolutionData {
    /// Total number of revolutions since sensor power-on, modulo the
    /// counter's width (16 bits for cranks, 32 bits for wheels).
    pub revolution_count: u32,
    /// The time the last revolution finished, in 1/2048 s ticks.
    pub last_event_ticks: u32,
}

/// A revolution rate as an exact fraction of revolutions per minute.
///
/// `numerator / denominator` is the rate; the numerator is
/// `RATE_NUMERATOR_PER_REVOLUTION` times the revolution count and the
/// denominator is the elapsed ticks, so a floating-point consumer dividing
/// the two fields reproduces the rate to the last bit.
#[derive(Debug, PartialEq, Eq, Clone, Copy)]
pub struct RatePerMinute {
    pub numerator: u64,
    pub denominator: u64,
}

/// A snapshot's event time is well formed when it lies under the wrap period.
pub open spec fn wf_event_ticks(d: RevolutionData) -> bool {
    d.last_event_ticks < WRAP_TICKS
}

/// A crank-style snapshot also keeps its counter under the 16-bit modulus.
pub open spec fn wf_crank_count(d: RevolutionData) -> bool {
    d.revolution_count < CRANK_COUNT_MODULUS
}

/// The snapshot a reference refers to, for use in contracts.
pub open spec fn snapshot_of(a: Option<&RevolutionData>) -> Option<RevolutionData> {
    match a {
        Some(x) => Some(*x),
        None => None,
    }
}

/// The event time a delta is measured from: the previous snapshot's, or the
/// zero baseline when there is no previous snapshot.
pub open spec fn baseline_ticks(prev: Option<RevolutionData>) -> int {
    match prev {
        Some(p) => p.last_event_ticks as int,
        None => 0,
    }
}

/// The revolution count a delta is measured from, zero when no previous.
pub open spec fn baseline_count(prev: Option<RevolutionData>) -> int {
    match prev {
        Some(p) => p.revolution_count as int,
        None => 0,
    }
}

/// Elapsed ticks between two snapshots: a current event time at or past the
/// baseline is read directly, one behind the baseline means the 64 s clock
/// wrapped exactly once in between.
pub open spec fn spec_duration_ticks(prev: Option<RevolutionData>, curr: RevolutionData) -> int {
    if curr.last_event_ticks >= baseline_ticks(prev) {
        curr.last_event_ticks - baseline_ticks(prev)
    } else {
        WRAP_TICKS + curr.last_event_ticks - baseline_ticks(prev)
    }
}

/// New crank revolutions between two snapshots: a count that did not
/// strictly increase is taken as one wrap of the 16-bit counter.
pub open spec fn spec_crank_new_revolutions(
    prev: Option<RevolutionData>,
    curr: RevolutionData,
) -> int {
    if curr.revolution_count > baseline_count(prev) {
        curr.revolution_count - baseline_count(prev)
    } else {
        CRANK_COUNT_MODULUS + curr.revolution_count - baseline_count(prev)
    }
}

/// The crank delta: `None` on zero elapsed time (a duplicate notification)
/// and on rates above the cadence ceiling, otherwise the exact rate and the
/// new revolutions.
pub open spec fn spec_crank_delta(
    prev: Option<RevolutionData>,
    curr: RevolutionData,
) -> Option<(RatePerMinute, u32)> {
    let dur = spec_duration_ticks(prev, curr);
    if dur == 0 {
        None
    } else {
        let revs = spec_crank_new_revolutions(prev, curr);
        if RATE_NUMERATOR_PER_REVOLUTION * revs > MAX_CRANK_RPM * dur {
            None
        } else {
            Some(
                (
                    RatePerMinute {
                        numerator: (RATE_NUMERATOR_PER_REVOLUTION * revs) as u64,
                        denominator: dur as u64,
                    },
                    revs as u32,
                ),
            )
        }
    }
}

/// The wheel delta measured from the zero baseline, as after a sensor reset:
/// all of the current snapshot's revolutions count as new.
pub open spec fn spec_wheel_delta_fresh(curr: RevolutionData) -> Option<(RatePerMinute, u32)> {
    let dur = curr.last_event_ticks as int;
    if dur == 0 {
        None
    } else {
        let revs = curr.revolution_count as int;
        if RATE_NUMERATOR_PER_REVOLUTION * revs > MAX_WHEEL_RPM * dur {
            None
        } else {
            Some(
                (
                    RatePerMinute {
                        numerator: (RATE_NUMERATOR_PER_REVOLUTION * revs) as u64,
                        denominator: dur as u64,
                    },
                    curr.revolution_count,
                ),
            )
        }
    }
}

/// The wheel delta: a 32-bit wheel counter never wraps in practice, so a
/// count that did not strictly increase signals a sensor reset and the delta
/// is recomputed as if there were no previous snapshot at all.
pub open spec fn spec_wheel_delta(
    prev: Option<RevolutionData>,
    curr: RevolutionData,
) -> Option<(RatePerMinute, u32)> {
    let dur = spec_duration_ticks(prev, curr);
    if dur == 0 {
        None
    } else if curr.revolution_count > baseline_count(prev) {
        let revs = curr.revolution_count - baseline_count(prev);
        if RATE_NUMERATOR_PER_REVOLUTION * revs > MAX_WHEEL_RPM * dur {
            None
        } else {
            Some(
                (
                    RatePerMinute {
                        numerator: (RATE_NUMERATOR_PER_REVOLUTION * revs) as u64,
                        denominator: dur as u64,
                    },
                    revs as u32,
                ),
            )
        }
    } else {
        spec_wheel_delta_fresh(curr)
    }
}

/// Law: handing the engine the same snapshot twice yields nothing, for the
/// crank and for the wheel alike.  No time elapsed between the two, so there
/// is no new information; answering `None` also keeps a duplicated
/// notification from dividing by zero or inventing revolutions.
pub proof fn lemma_delta_of_identical_snapshot(s: RevolutionData)
    ensures
        spec_crank_delta(Some(s), s) is None,
        spec_wheel_delta(Some(s), s) is None,
{
}

/// Law: every crank rate the engine reports is physically plausible, never
/// above the cadence ceiling; anything faster is rejected as noise, so a
/// consumer keeps showing its last good value instead of a glitch.
pub proof fn lemma_reported_crank_rates_are_plausible(
    prev: Option<RevolutionData>,
    curr: RevolutionData,
)
    requires
        prev matches Some(p) ==> wf_event_ticks(p) && wf_crank_count(p),
        wf_event_ticks(curr),
        wf_crank_count(curr),
    ensures
        spec_crank_delta(prev, curr) matches Some((rate, _)) ==> rate.numerator <= MAX_CRANK_RPM
            * rate.denominator,
{
}

/// Law: every wheel rate the engine reports is physically plausible, never
/// above the wheel ceiling; anything faster is rejected as noise, so a
/// consumer keeps showing its last good value instead of a glitch.
pub proof fn lemma_reported_wheel_rates_are_plausible(
    prev: Option<RevolutionData>,
    curr: RevolutionData,
)
    requires
        prev matches Some(p) ==> wf_event_ticks(p),
        wf_event_ticks(curr),
    ensures
        spec_wheel_delta(prev, curr) matches Some((rate, _)) ==> rate.numerator <= MAX_WHEEL_RPM
            * rate.denominator,
{
}

/// Law: a wheel counter that did not increase is a sensor reset, and the
/// delta is then exactly what a missing previous snapshot would give: the
/// engine measures from the zero baseline instead of inventing a wrap of
/// the 32-bit counter.
pub proof fn lemma_wheel_reset_starts_fresh(prev: RevolutionData, curr: RevolutionData)
    requires
        curr.revolution_count <= prev.revolution_count,
        spec_duration_ticks(Some(prev), curr) != 0,
    ensures
        spec_wheel_delta(Some(prev), curr) == spec_wheel_delta(None, curr),
{
}

/// Elapsed event-clock ticks between a previous snapshot (or the zero
/// baseline) and the current one, reading an apparent step backwards in time
/// as one wrap of the 64 s clock.
pub fn checked_duration(a: Option<&RevolutionData>, b: &RevolutionData) -> (d: u32)
    requires
        a matches Some(p) ==> wf_event_ticks(*p),
        wf_event_ticks(*b),
    ensures
        d == spec_duration_ticks(snapshot_of(a), *b),
        d < WRAP_TICKS,
{
    let a_last_event_ticks: u32 = match a {
        Some(x) => x.last_event_ticks,
        None => 0,
    };
    if b.last_event_ticks >= a_last_event_ticks {
        b.last_event_ticks - a_last_event_ticks
    } else {
        WRAP_TICKS + b.last_event_ticks - a_last_event_ticks
    }
}

/// Crank revolutions and cadence between two snapshots of a 16-bit crank
/// counter: `None` when no time elapsed or the rate is implausibly high.
pub fn checked_crank_rpm_and_new_count(
    a: Option<&RevolutionData>,
    b: &RevolutionData,
) -> (r: Option<(RatePerMinute, u32)>)
    requires
        a matches Some(p) ==> wf_event_ticks(*p) && wf_crank_count(*p),
        wf_event_ticks(*b),
        wf_crank_count(*b),
    ensures
        r == spec_crank_delta(snapshot_of(a), *b),
{
    let duration = checked_duration(a, b);
    if duration == 0 {
        None
    } else {
        let a_revolution_count: u32 = match a {
            Some(x) => x.revolution_count,
            None => 0,
        };
        let new_revolutions: u32 = if b.revolution_count > a_revolution_count {
            b.revolution_count - a_revolution_count
        } else {
            CRANK_COUNT_MODULUS + b.revolution_count - a_revolution_count
        };
        let numerator: u64 = RATE_NUMERATOR_PER_REVOLUTION * (new_revolutions as u64);
        if numerator > MAX_CRANK_RPM * (duration as u64) {
            None
        } else {
            Some((RatePerMinute { numerator, denominator: duration as u64 }, new_revolutions))
        }
    }
}

/// Wheel revolutions and wheel rate between two snapshots of a 32-bit wheel
/// counter: `None` when no time elapsed or the rate is implausibly high; a
/// counter that went backwards is a sensor reset and is measured from a
/// fresh zero baseline instead.
///
/// A current snapshot whose counter is zero while its event time is not
/// claims a revolution edge before any revolution; such contradictory data
/// is ruled out rather than given a meaning.
pub fn checked_wheel_rpm_and_new_count(
    a: Option<&RevolutionData>,
    b: &RevolutionData,
) -> (r: Option<(RatePerMinute, u32)>)
    requires
        a matches Some(p) ==> wf_event_ticks(*p),
        wf_event_ticks(*b),
        b.revolution_count > 0 || b.last_event_ticks == 0,
    ensures
        r == spec_wheel_delta(snapshot_of(a), *b),
{
    let duration = checked_duration(a, b);
    if duration == 0 {
        None
    } else {
        let a_revolution_count: u32 = match a {
            Some(x) => x.revolution_count,
            None => 0,
        };
        if b.revolution_count > a_revolution_count {
            let new_revolutions: u32 = b.revolution_count - a_revolution_count;
            let numerator: u64 = RATE_NUMERATOR_PER_REVOLUTION * (new_revolutions as u64);
            if numerator > MAX_WHEEL_RPM * (duration as u64) {
                None
            } else {
                Some((RatePerMinute { numerator, denominator: duration as u64 }, new_revolutions))
            }
        } else {
            // The counter went backwards: a reset, so the previous snapshot
            // is discarded and the delta starts over from the zero baseline.
            let fresh_duration = b.last_event_ticks;
            if fresh_duration == 0 {
                None
            } else {
                let numerator: u64 = RATE_NUMERATOR_PER_REVOLUTION * (b.revolution_count as u64);
                if numerator > MAX_WHEEL_RPM * (fresh_duration as u64) {
                    None
                } else {
                    Some(
                        (
                            RatePerMinute {
                                numerator,
                                denominator: fresh_duration as u64,
                            },
                            b.revolution_count,
                        ),
                    )
                }
            }
        }
    }
}

} // verus!
