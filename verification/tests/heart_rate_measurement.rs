//! Heart rate decoding.
use rust_cycle::ble::heart_rate_measurement::parse_hrm;

#[test]
fn parse_hrm_narrow_bpm_without_extras() {
    let m = parse_hrm(&vec![0, 85]);
    assert_eq!(85, m.bpm);
    assert_eq!(None, m.sensor_contact);
    assert_eq!(None, m.energy_expended);
    assert_eq!(Vec::<u16>::new(), m.rr_intervals);
}

#[test]
fn parse_hrm_wide_bpm() {
    let m = parse_hrm(&vec![1, 0x2c, 0x01]);
    assert_eq!(300, m.bpm);
}

#[test]
fn parse_hrm_contact_supported_and_detected() {
    let m = parse_hrm(&vec![0b110, 85]);
    assert_eq!(Some(true), m.sensor_contact);
}

#[test]
fn parse_hrm_contact_supported_but_lost() {
    let m = parse_hrm(&vec![0b100, 85]);
    assert_eq!(Some(false), m.sensor_contact);
}

#[test]
fn parse_hrm_contact_bit_without_support_means_unsupported() {
    let m = parse_hrm(&vec![0b010, 85]);
    assert_eq!(None, m.sensor_contact);
}

#[test]
fn parse_hrm_energy_expended() {
    let m = parse_hrm(&vec![0b1000, 85, 0x01, 0x02]);
    assert_eq!(Some(0x0201), m.energy_expended);
}

#[test]
fn parse_hrm_rr_intervals_in_order() {
    // 1024 and 512 raw units: 1.0 s and 0.5 s.
    let m = parse_hrm(&vec![0, 85, 0x00, 0x04, 0x00, 0x02]);
    assert_eq!(vec![1024, 512], m.rr_intervals);
}

#[test]
fn parse_hrm_all_fields_at_once() {
    let m = parse_hrm(&vec![0b1101, 0x2c, 0x01, 0x10, 0x00, 0x00, 0x04]);
    assert_eq!(300, m.bpm);
    assert_eq!(Some(false), m.sensor_contact);
    assert_eq!(Some(16), m.energy_expended);
    assert_eq!(vec![1024], m.rr_intervals);
}

#[test]
fn parse_hrm_ignores_a_trailing_odd_byte() {
    let m = parse_hrm(&vec![0, 85, 0x00, 0x04, 0x77]);
    assert_eq!(vec![1024], m.rr_intervals);
}

/// Decoders are pure: the same bytes yield the same measurement, twice.
#[test]
fn hrm_decode_twice_yields_equal_measurements() {
    let data = vec![0b1101, 0x2c, 0x01, 0x10, 0x00, 0x00, 0x04];
    assert_eq!(parse_hrm(&data), parse_hrm(&data));
}
