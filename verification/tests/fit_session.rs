//! Folding a recorded session's notifications into per-second FIT records.
use rust_cycle::fit::FitRecord;
use rust_cycle::fit_session::session_to_fit_records;
use rust_cycle::fit_session::SessionEntry;
use rust_cycle::fit_session::SessionNotification;

const T0: u32 = 1583801576;

#[test]
fn a_second_is_emitted_when_the_next_begins() {
    let records = session_to_fit_records(&vec![
        SessionEntry {
            seconds_since_unix_epoch: T0,
            // Instantaneous power 180 W.
            notification: SessionNotification::Power(vec![0, 0, 180, 0]),
        },
        SessionEntry {
            seconds_since_unix_epoch: T0 + 1,
            notification: SessionNotification::HeartRate(vec![0, 120]),
        },
    ]);
    assert_eq!(
        vec![FitRecord {
            seconds_since_unix_epoch: T0,
            power: Some(180),
            heart_rate: None,
            cadence: None,
        }],
        records
    );
}

#[test]
fn power_is_carried_into_a_second_without_its_own() {
    let records = session_to_fit_records(&vec![
        SessionEntry {
            seconds_since_unix_epoch: T0,
            notification: SessionNotification::Power(vec![0, 0, 180, 0]),
        },
        SessionEntry {
            seconds_since_unix_epoch: T0 + 1,
            notification: SessionNotification::HeartRate(vec![0, 120]),
        },
        SessionEntry {
            seconds_since_unix_epoch: T0 + 2,
            notification: SessionNotification::HeartRate(vec![0, 121]),
        },
    ]);
    assert_eq!(
        vec![
            FitRecord {
                seconds_since_unix_epoch: T0,
                power: Some(180),
                heart_rate: None,
                cadence: None,
            },
            FitRecord {
                seconds_since_unix_epoch: T0 + 1,
                power: Some(180),
                heart_rate: Some(120),
                cadence: None,
            },
        ],
        records
    );
}

#[test]
fn cadence_comes_from_consecutive_crank_snapshots() {
    // Crank snapshots two revolutions and one second (1024 raw units)
    // apart: 120 RPM.
    let records = session_to_fit_records(&vec![
        SessionEntry {
            seconds_since_unix_epoch: T0,
            notification: SessionNotification::Csc(vec![2, 0, 0, 0, 8]),
        },
        SessionEntry {
            seconds_since_unix_epoch: T0,
            notification: SessionNotification::Csc(vec![2, 2, 0, 0, 12]),
        },
        SessionEntry {
            seconds_since_unix_epoch: T0 + 1,
            notification: SessionNotification::HeartRate(vec![0, 120]),
        },
    ]);
    assert_eq!(
        vec![FitRecord {
            seconds_since_unix_epoch: T0,
            power: None,
            heart_rate: None,
            cadence: Some(120),
        }],
        records
    );
}

#[test]
fn the_unfinished_last_second_is_not_emitted() {
    let records = session_to_fit_records(&vec![SessionEntry {
        seconds_since_unix_epoch: T0,
        notification: SessionNotification::HeartRate(vec![0, 120]),
    }]);
    assert_eq!(Vec::<FitRecord>::new(), records);
}
