use chrono::Timelike;
use pidgeon::config::{to_device, FileDevice};
use pidgeon::connection::{Destination, Device};
use pidgeon::db::{destination_columns, new_device_row, to_db_slave};
use pidgeon::decimal::DecimalValue;
use pidgeon::discovery::{all_detected, next_probe, Probe};
use pidgeon::measure::{consolidate_measurement, match_configs, poll_action, PollAction, StreamPoll, StreamRegister};
use pidgeon::merge::{compare_ids, merge_devices, text_before, MergeStep};
use pidgeon::push::{push_end, push_log, push_start, CloudResponse, LogKind, LogStatus};
use pidgeon::register::{IdRegister, JsonField, MeasurementRegister, RegisterValue, RegisterValueStorage, Timestamp};
use pidgeon::status::{consolidate_status, DeviceStatus};
use pidgeon::time::{implementation_for, schneider_time_record, CalendarTime, SchneideriEM3xxxTime, TimeImplementation};
use std::cmp::Ordering;

fn at(seconds: i64) -> Timestamp {
    Timestamp { seconds, nanoseconds: 0 }
}

fn number(mantissa: i128, seconds: i64) -> RegisterValueStorage {
    RegisterValueStorage::U32(RegisterValue {
        value: DecimalValue { mantissa, scale: 0, negative: mantissa < 0 },
        timestamp: at(seconds),
    })
}

#[test]
fn pinged_device_is_healthy_and_seen_now() {
    let c = consolidate_status(true, DeviceStatus::Unreachable, at(1), at(9), 8, 5);
    assert_eq!(c.status, DeviceStatus::Healthy);
    assert_eq!(c.seen, at(9));
    assert!(c.update);
    assert!(!c.remove);
}

#[test]
fn silent_device_becomes_unreachable_then_inactive() {
    let c = consolidate_status(false, DeviceStatus::Healthy, at(1), at(4), 3, 5);
    assert_eq!(c.status, DeviceStatus::Unreachable);
    assert_eq!(c.seen, at(1));
    assert!(c.update && !c.remove);
    let c = consolidate_status(false, DeviceStatus::Unreachable, at(1), at(9), 8, 5);
    assert_eq!(c.status, DeviceStatus::Inactive);
    assert!(c.update && c.remove);
    let c = consolidate_status(false, DeviceStatus::Inactive, at(1), at(20), 19, 5);
    assert!(!c.update && !c.remove);
}

#[test]
fn unchanged_status_is_not_reported_again() {
    let c = consolidate_status(true, DeviceStatus::Healthy, at(1), at(2), 1, 5);
    assert!(!c.update);
}

#[test]
fn push_starts_after_the_last_successful_push() {
    assert_eq!(push_start(Some(Some(41))), 41);
    assert_eq!(push_start(Some(None)), 0);
    assert_eq!(push_start(None), 0);
    assert_eq!(push_end(&vec![42, 57, 43]), Some(57));
    assert_eq!(push_end(&vec![]), None);
}

#[test]
fn push_logs_record_the_cloud_answer() {
    let ok = push_log(LogKind::Push, 57, &Ok(CloudResponse { success: true, text: "ok".to_string(), code: 200 }));
    assert_eq!((ok.last, ok.status, ok.kind, ok.response.as_str()), (Some(57), LogStatus::Success, LogKind::Push, "ok"));
    let refused = push_log(LogKind::Update, 3, &Ok(CloudResponse { success: false, text: "no".to_string(), code: 500 }));
    assert_eq!((refused.status, refused.response.as_str()), (LogStatus::Failure, "no"));
    let failed = push_log(LogKind::Push, 3, &Err("timeout".to_string()));
    assert_eq!((failed.status, failed.response.as_str()), (LogStatus::Failure, "timeout"));
}

#[test]
fn measurement_of_the_right_device_is_kept() {
    let registers = vec![
        StreamRegister::Measurement(MeasurementRegister { address: 10, storage: number(5, 7), name: "power".to_string() }),
        StreamRegister::Id(IdRegister { address: 1, storage: number(123, 6) }),
    ];
    let m = consolidate_measurement(&"abb-123".to_string(), &"abb".to_string(), registers).expect("verified");
    assert_eq!(m.source, "abb-123");
    assert_eq!(m.timestamp, at(6));
    assert_eq!(m.data.len(), 1);
    assert_eq!(m.data[0].0, "power");
    assert!(matches!(&m.data[0].1, JsonField::Decimal(d) if d.mantissa == 5));
}

#[test]
fn measurement_of_another_device_is_dropped() {
    let registers = vec![StreamRegister::Id(IdRegister { address: 1, storage: number(124, 6) })];
    assert!(consolidate_measurement(&"abb-123".to_string(), &"abb".to_string(), registers).is_none());
    let no_ids = vec![StreamRegister::Measurement(MeasurementRegister { address: 10, storage: number(5, 7), name: "p".to_string() })];
    assert!(consolidate_measurement(&"abb-".to_string(), &"abb".to_string(), no_ids).is_none());
}

#[test]
fn stream_polls() {
    assert_eq!(poll_action(StreamPoll::Pending), PollAction::Keep);
    assert_eq!(poll_action(StreamPoll::Ended), PollAction::Drop);
    assert_eq!(poll_action(StreamPoll::FailedToConnect), PollAction::Drop);
    assert_eq!(poll_action(StreamPoll::ServerFailed), PollAction::Drop);
    assert_eq!(poll_action(StreamPoll::ParsingFailed), PollAction::Skip);
    assert_eq!(poll_action(StreamPoll::Ready), PollAction::Record);
}

fn plain_device() -> FileDevice {
    FileDevice {
        detect: Vec::new(),
        id: Vec::new(),
        measurement: Vec::new(),
        configuration: Vec::new(),
        daily: Vec::new(),
        nightly: Vec::new(),
        time: None,
    }
}

#[test]
fn stored_devices_are_matched_to_their_kind() {
    let configs = vec![to_device("a".to_string(), plain_device()), to_device("b".to_string(), plain_device())];
    let kinds = vec!["b".to_string(), "x".to_string(), "a".to_string(), "b".to_string()];
    assert_eq!(match_configs(&kinds, &configs), vec![(0, 1), (2, 0), (3, 1)]);
}

#[test]
fn ids_are_ordered_by_their_characters() {
    assert_eq!(compare_ids(&"a".to_string(), &"b".to_string()), Ordering::Less);
    assert_eq!(compare_ids(&"ab".to_string(), &"a".to_string()), Ordering::Greater);
    assert_eq!(compare_ids(&"abc".to_string(), &"abc".to_string()), Ordering::Equal);
    assert_eq!(compare_ids(&"Z".to_string(), &"a".to_string()), "Z".cmp("a"));
    assert!(text_before(&"é".to_string(), &"ê".to_string()));
    assert_eq!(compare_ids(&"é".to_string(), &"z".to_string()), "é".cmp("z"));
}

#[test]
fn merge_keeps_drops_and_starts_streams() {
    let old = vec!["a".to_string(), "c".to_string(), "d".to_string()];
    let new = vec!["b".to_string(), "c".to_string(), "e".to_string()];
    assert_eq!(
        merge_devices(&old, &new),
        vec![MergeStep::Left(0), MergeStep::Right(0), MergeStep::Both(1, 1), MergeStep::Left(2), MergeStep::Right(2)]
    );
    assert_eq!(merge_devices(&Vec::new(), &new), vec![MergeStep::Right(0), MergeStep::Right(1), MergeStep::Right(2)]);
}

#[test]
fn discovery_probes_slaves_until_one_is_missing() {
    assert_eq!(next_probe(Probe::Standalone, true), Probe::Done);
    assert_eq!(next_probe(Probe::Standalone, false), Probe::Slave(1));
    assert_eq!(next_probe(Probe::Slave(1), true), Probe::Slave(2));
    assert_eq!(next_probe(Probe::Slave(1), false), Probe::Done);
    assert_eq!(next_probe(Probe::Slave(246), true), Probe::Done);
    assert_eq!(next_probe(Probe::Done, true), Probe::Done);
    assert!(all_detected(&vec![true, true]));
    assert!(!all_detected(&vec![true, false]));
    assert!(all_detected(&vec![]));
}

#[test]
fn destinations_are_stored_in_their_columns() {
    assert_eq!(to_db_slave(Some(7)), Some(7));
    assert_eq!(to_db_slave(None), None);
    let tcp = destination_columns(&Destination { address: Device::Tcp("10.0.0.1:502".to_string()), slave: Some(3) });
    assert_eq!((tcp.address.as_deref(), tcp.path.as_deref(), tcp.baud_rate, tcp.slave), (Some("10.0.0.1:502"), None, None, Some(3)));
    let rtu = destination_columns(&Destination {
        address: Device::Rtu { path: "/dev/ttyUSB0".to_string(), baud_rate: 9600 },
        slave: None,
    });
    assert_eq!((rtu.address.as_deref(), rtu.path.as_deref(), rtu.baud_rate, rtu.slave), (None, Some("/dev/ttyUSB0"), Some(9600), None));
}

#[test]
fn new_devices_are_healthy_and_seen_now() {
    let destination = Destination { address: Device::Tcp("10.0.0.1:502".to_string()), slave: None };
    let row = new_device_row("abb-1".to_string(), "abb".to_string(), &destination, at(5));
    assert_eq!(row.status, DeviceStatus::Healthy);
    assert_eq!((row.seen, row.pinged), (at(5), at(5)));
    assert_eq!(row.columns.address.as_deref(), Some("10.0.0.1:502"));
}

#[test]
fn schneider_clock_record() {
    let t = CalendarTime { year: 2024, month: 3, day: 9, hour: 13, minute: 5, second: 59 };
    let r = schneider_time_record(t);
    assert_eq!(r.address, 5250);
    assert_eq!(r.values, vec![1003, 0, 2024, 3, 9, 13, 5, 59, 0]);
    let now = implementation_for(TimeImplementation::SchneideriEM3xxx).create();
    assert_eq!(now.address, 5250);
    assert_eq!(now.values.len(), 9);
    assert_eq!((now.values[0], now.values[1], now.values[8]), (1003, 0, 0));
    let _ = SchneideriEM3xxxTime::new();
}

#[test]
fn schneider_clock_is_set_one_hour_east_of_utc() {
    let before = chrono::Utc::now();
    let record = SchneideriEM3xxxTime::new().create();
    let after = chrono::Utc::now();
    if before.hour() == after.hour() {
        assert_eq!(u32::from(record.values[5]), (before.hour() + 1) % 24);
        let minute = u32::from(record.values[6]);
        assert!(before.minute() <= minute && minute <= after.minute());
    }
}
