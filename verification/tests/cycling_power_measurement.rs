//! Cycling power decoding, its crank delta, and the accumulated-torque
//! delta.
//!
//! Pedal balance is held in half-percent units (99 on the wire is 49.5 %),
//! torque in 1/32 Nm units, the wheel event time in raw 1/2048 s ticks and
//! the crank event time doubled from its raw 1/1024 s value.
use rust_cycle::ble::cycling_power_measurement::parse_cycling_power_measurement;
use rust_cycle::ble::cycling_power_measurement::AccumulatedTorqueSource;
use rust_cycle::ble::cycling_power_measurement::CyclingPowerMeasurement;
use rust_cycle::ble::cycling_power_measurement;
use rust_cycle::ble::revolution_data::RevolutionData;

#[test]
fn parse_cpm_with_balance_torque_wheel_and_crank() {
    assert_eq!(
        CyclingPowerMeasurement {
            instantaneous_power: 0x0102,
            pedal_power_balance_half_percent: Some(99),
            accumulated_torque: Some((AccumulatedTorqueSource::Wheel, 0x0201)),
            wheel_revolution_data: Some(RevolutionData {
                revolution_count: 0x04030201,
                last_event_ticks: 0x0201,
            }),
            crank_revolution_data: Some(RevolutionData {
                revolution_count: 0x0201,
                last_event_ticks: 2 * 0x0201,
            }),
        },
        parse_cycling_power_measurement(&vec![
            0b110101, 0, 2, 1, 99, 1, 2, 1, 2, 3, 4, 1, 2, 1, 2, 1, 2
        ])
    );
}

#[test]
fn parse_cpm_with_accumulated_crank_torque() {
    assert_eq!(
        CyclingPowerMeasurement {
            instantaneous_power: 0x0102,
            pedal_power_balance_half_percent: None,
            accumulated_torque: Some((AccumulatedTorqueSource::Crank, 0x0201)),
            wheel_revolution_data: None,
            crank_revolution_data: Some(RevolutionData {
                revolution_count: 0x0201,
                last_event_ticks: 2 * 0x0201,
            }),
        },
        parse_cycling_power_measurement(&vec![0b101100, 0, 2, 1, 1, 2, 1, 2, 1, 2])
    );
}

#[test]
fn parse_cpm_with_accumulated_wheel_torque() {
    assert_eq!(
        CyclingPowerMeasurement {
            instantaneous_power: 0x0102,
            pedal_power_balance_half_percent: None,
            accumulated_torque: Some((AccumulatedTorqueSource::Wheel, 0x0201)),
            wheel_revolution_data: Some(RevolutionData {
                revolution_count: 0x04030201,
                last_event_ticks: 0x0201,
            }),
            crank_revolution_data: None,
        },
        parse_cycling_power_measurement(&vec![0b10100, 0, 2, 1, 1, 2, 1, 2, 3, 4, 1, 2])
    );
}

#[test]
fn parse_cpm_with_pedal_power_balance() {
    assert_eq!(
        CyclingPowerMeasurement {
            instantaneous_power: 0x0102,
            pedal_power_balance_half_percent: Some(99),
            accumulated_torque: None,
            wheel_revolution_data: None,
            crank_revolution_data: None,
        },
        parse_cycling_power_measurement(&vec![1, 0, 2, 1, 99])
    );
}

#[test]
fn parse_cpm_empty() {
    assert_eq!(
        CyclingPowerMeasurement {
            instantaneous_power: 0x0102,
            pedal_power_balance_half_percent: None,
            accumulated_torque: None,
            wheel_revolution_data: None,
            crank_revolution_data: None,
        },
        parse_cycling_power_measurement(&vec![0, 0, 2, 1])
    );
}

#[test]
fn parse_cpm_negative_power() {
    let m = parse_cycling_power_measurement(&vec![0, 0, 0xff, 0xff]);
    assert_eq!(-1, m.instantaneous_power);
}

fn power_crank(revolution_count: u32, last_event_ticks: u32) -> CyclingPowerMeasurement {
    CyclingPowerMeasurement {
        instantaneous_power: 180,
        pedal_power_balance_half_percent: None,
        accumulated_torque: None,
        wheel_revolution_data: None,
        crank_revolution_data: Some(RevolutionData {
            revolution_count,
            last_event_ticks,
        }),
    }
}

#[test]
fn power_crank_delta_matches_csc_crank_rules() {
    let r = cycling_power_measurement::checked_crank_rpm_and_new_count(
        Some(&power_crank(4434, 128894)),
        &power_crank(4436, 406),
    );
    let (rate, new_count) = r.unwrap();
    assert_eq!(2, new_count);
    assert_eq!(
        95.10835913312694,
        rate.numerator as f64 / rate.denominator as f64
    );
}

#[test]
fn power_crank_delta_aborts_without_previous_crank_data() {
    let mut prev = power_crank(4434, 128894);
    prev.crank_revolution_data = None;
    assert_eq!(
        None,
        cycling_power_measurement::checked_crank_rpm_and_new_count(
            Some(&prev),
            &power_crank(4436, 406),
        )
    );
}

fn with_torque(source: AccumulatedTorqueSource, units: u16) -> CyclingPowerMeasurement {
    CyclingPowerMeasurement {
        instantaneous_power: 180,
        pedal_power_balance_half_percent: None,
        accumulated_torque: Some((source, units)),
        wheel_revolution_data: None,
        crank_revolution_data: None,
    }
}

#[test]
fn accumulated_torque_plain_difference() {
    let prev = with_torque(AccumulatedTorqueSource::Crank, 320);
    let curr = with_torque(AccumulatedTorqueSource::Crank, 480);
    assert_eq!(Some(160), prev.new_accumulated_torque(&curr));
}

#[test]
fn accumulated_torque_wraps_like_the_crank_counter() {
    let prev = with_torque(AccumulatedTorqueSource::Crank, 65500);
    let curr = with_torque(AccumulatedTorqueSource::Crank, 100);
    assert_eq!(Some(136), prev.new_accumulated_torque(&curr));
}

#[test]
fn accumulated_torque_requires_matching_sources() {
    let prev = with_torque(AccumulatedTorqueSource::Wheel, 320);
    let curr = with_torque(AccumulatedTorqueSource::Crank, 480);
    assert_eq!(None, prev.new_accumulated_torque(&curr));
}

#[test]
fn accumulated_torque_needs_both_readings() {
    let prev = with_torque(AccumulatedTorqueSource::Crank, 320);
    let mut curr = with_torque(AccumulatedTorqueSource::Crank, 480);
    curr.accumulated_torque = None;
    assert_eq!(None, prev.new_accumulated_torque(&curr));
}
