//! CSC decoding and the checked wheel/crank deltas.
//!
//! Event times are held in 1/2048 s ticks: a CSC payload's raw 1/1024 s
//! timer value appears doubled, and a rate is checked by dividing the exact
//! fraction the library returns.
use rust_cycle::ble::csc_measurement::checked_crank_rpm_and_new_count;
use rust_cycle::ble::csc_measurement::checked_wheel_rpm_and_new_count;
use rust_cycle::ble::csc_measurement::parse_csc_measurement;
use rust_cycle::ble::csc_measurement::CscMeasurement;
use rust_cycle::ble::revolution_data::RevolutionData;

#[test]
fn parse_csc_with_wheel_and_crank() {
    assert_eq!(
        CscMeasurement {
            wheel: Some(RevolutionData {
                revolution_count: 0x04030201,
                last_event_ticks: 2 * 0x0201,
            }),
            crank: Some(RevolutionData {
                revolution_count: 0x0201,
                last_event_ticks: 2 * 0x0201,
            }),
        },
        parse_csc_measurement(&vec![3, 1, 2, 3, 4, 1, 2, 1, 2, 1, 2])
    );
}

#[test]
fn parse_csc_with_crank() {
    assert_eq!(
        CscMeasurement {
            wheel: None,
            crank: Some(RevolutionData {
                revolution_count: 0x0201,
                last_event_ticks: 2 * 0x0201,
            }),
        },
        parse_csc_measurement(&vec![2, 1, 2, 1, 2])
    );
}

#[test]
fn parse_csc_with_wheel() {
    assert_eq!(
        CscMeasurement {
            wheel: Some(RevolutionData {
                revolution_count: 0x04030201,
                last_event_ticks: 2 * 0x0201,
            }),
            crank: None,
        },
        parse_csc_measurement(&vec![1, 1, 2, 3, 4, 1, 2])
    );
}

#[test]
fn parse_csc_empty() {
    assert_eq!(
        CscMeasurement {
            wheel: None,
            crank: None,
        },
        parse_csc_measurement(&vec![0])
    );
}

/// Decoders are pure: the same bytes yield the same measurement, twice.
#[test]
fn decode_twice_yields_equal_measurements() {
    let data = vec![3, 1, 2, 3, 4, 1, 2, 1, 2, 1, 2];
    assert_eq!(parse_csc_measurement(&data), parse_csc_measurement(&data));
}

fn crank_only(revolution_count: u32, last_event_ticks: u32) -> CscMeasurement {
    CscMeasurement {
        wheel: None,
        crank: Some(RevolutionData {
            revolution_count,
            last_event_ticks,
        }),
    }
}

fn wheel_only(revolution_count: u32, last_event_ticks: u32) -> CscMeasurement {
    CscMeasurement {
        wheel: Some(RevolutionData {
            revolution_count,
            last_event_ticks,
        }),
        crank: None,
    }
}

#[test]
fn overflow_works() {
    // 62.9365234375 s and 0.1982421875 s on the 1/2048 s clock.
    let r = checked_crank_rpm_and_new_count(
        Some(&crank_only(4434, 128894)),
        &crank_only(4436, 406),
    );
    let (rate, new_count) = r.unwrap();
    assert_eq!(2, new_count);
    assert_eq!(
        95.10835913312694,
        rate.numerator as f64 / rate.denominator as f64
    );
}

#[test]
fn does_not_default_if_crank_data_is_not_present() {
    assert_eq!(
        None,
        checked_crank_rpm_and_new_count(
            Some(&CscMeasurement {
                wheel: None,
                crank: None,
            }),
            &crank_only(4436, 406),
        )
    );
}

#[test]
fn defaults_if_missing_measurement_entirely() {
    // 1.5 s on the 1/2048 s clock.
    let r = checked_crank_rpm_and_new_count(None, &crank_only(2, 3072));
    let (rate, new_count) = r.unwrap();
    assert_eq!(2, new_count);
    assert_eq!(80.0, rate.numerator as f64 / rate.denominator as f64);
}

#[test]
fn none_if_not_new() {
    assert_eq!(
        None,
        checked_crank_rpm_and_new_count(Some(&crank_only(2, 3072)), &crank_only(2, 3072))
    );
}

#[test]
fn crank_does_not_report_impossible_numbers() {
    // Five revolutions in one second would be 300 RPM.
    assert_eq!(
        None,
        checked_crank_rpm_and_new_count(Some(&crank_only(4434, 2048)), &crank_only(4439, 4096))
    );
}

#[test]
fn wheel_overflow_works() {
    let r = checked_wheel_rpm_and_new_count(
        Some(&wheel_only(4434, 128894)),
        &wheel_only(4436, 406),
    );
    let (rate, new_count) = r.unwrap();
    assert_eq!(2, new_count);
    assert_eq!(
        95.10835913312694,
        rate.numerator as f64 / rate.denominator as f64
    );
}

#[test]
fn wheel_does_not_default_if_crank_data_is_not_present() {
    assert_eq!(
        None,
        checked_wheel_rpm_and_new_count(
            Some(&CscMeasurement {
                wheel: None,
                crank: None,
            }),
            &wheel_only(4436, 406),
        )
    );
}

#[test]
fn wheel_defaults_if_missing_measurement_entirely() {
    let r = checked_wheel_rpm_and_new_count(None, &wheel_only(2, 3072));
    let (rate, new_count) = r.unwrap();
    assert_eq!(2, new_count);
    assert_eq!(80.0, rate.numerator as f64 / rate.denominator as f64);
}

#[test]
fn wheel_assumes_missing_when_backwards() {
    // The counter went backwards: a sensor reset, measured from scratch.
    let r = checked_wheel_rpm_and_new_count(
        Some(&wheel_only(4434, 128894)),
        &wheel_only(2, 3072),
    );
    let (rate, new_count) = r.unwrap();
    assert_eq!(2, new_count);
    assert_eq!(80.0, rate.numerator as f64 / rate.denominator as f64);
}

#[test]
fn wheel_does_not_report_impossible_numbers() {
    // Twenty-one revolutions in one second would be 1260 RPM.
    assert_eq!(
        None,
        checked_wheel_rpm_and_new_count(Some(&wheel_only(4434, 2048)), &wheel_only(4455, 4096))
    );
}
