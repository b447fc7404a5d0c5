use pidgeon::config::{
    cloud_id_from_serial, db_port, device_for_kind, hardware, ip_range, log_level, modbus_port, parse,
    schedule_expression, timed_device_for_kind, to_device, to_modbus_register_kind, Args, Env,
    EnvCloud, EnvDb, EnvNetwork, FileDetectRegister, FileDevice, FileIdRegister,
    FileMeasurementRegister, FileModbus, FileRegisterKind, FileSchedule, FileTimeImplementation,
    FileValues, LogLevel, Plural, Unparsed, DEFAULT_RANGE_END, DEFAULT_RANGE_START,
};
use pidgeon::decimal::DecimalValue;
use pidgeon::register::{Matcher, RegisterKindStorage};
use pidgeon::time::TimeImplementation;

fn empty_schedule() -> FileSchedule {
    FileSchedule {
        discover: None,
        ping: None,
        measure: None,
        push: None,
        update: None,
        health: None,
        daily: None,
        nightly: None,
        time: None,
        poll: None,
        timezone: None,
    }
}

fn empty_modbus(devices: Vec<(String, FileDevice)>) -> FileModbus {
    FileModbus {
        request_timeout: None,
        batch_threshold: None,
        termination_timeout: None,
        congestion_backoff: None,
        partial_retries: None,
        ping_timeout: None,
        tariff_timeout: None,
        time_timeout: None,
        inactive_timeout: None,
        discovery_timeout: None,
        max_slave: None,
        devices,
    }
}

fn meter() -> FileDevice {
    FileDevice {
        detect: vec![FileDetectRegister {
            address: 70,
            kind: FileRegisterKind::String(10),
            matcher: "^\"iEM3".to_string(),
        }],
        id: vec![FileIdRegister { address: 130, kind: FileRegisterKind::U32(None) }],
        measurement: vec![FileMeasurementRegister {
            name: "energy".to_string(),
            address: 3204,
            kind: FileRegisterKind::S64(Some(DecimalValue { mantissa: 1, scale: 3, negative: false })),
        }],
        configuration: Vec::new(),
        daily: Vec::new(),
        nightly: Vec::new(),
        time: Some(FileTimeImplementation::SchneideriEM3xxx),
    }
}

fn unparsed(id: Option<String>, port: Option<String>) -> Unparsed {
    Unparsed {
        from_args: Args { trace: false, debug: false, local: true, config: None },
        from_env: Env {
            cloud: EnvCloud { ssl: true, domain: "cloud.example".to_string(), api_key: None, id },
            db: EnvDb {
                ssl: false,
                domain: "localhost".to_string(),
                port,
                user: "pidgeon".to_string(),
                password: Some("SECRET-REDACTED".to_string()),
                name: "pidgeon".to_string(),
            },
            network: EnvNetwork { ip_range_start: Some(0x0A00_0001), ip_range_end: None, modbus_port: None },
        },
        from_file: FileValues {
            log_level: Some(LogLevel::Warn),
            schedule: empty_schedule(),
            temperature_monitor: None,
            cloud_timeout: Some(5000),
            cloud_message_limit: None,
            db_timeout: None,
            network_timeout: None,
            modbus: empty_modbus(vec![("schneider-iem3xxx".to_string(), meter())]),
        },
    }
}

#[test]
fn defaults_fill_what_is_not_configured() {
    let values = parse(unparsed(Some("pidgeon-1".to_string()), Some("5433".to_string())), None, false);
    assert_eq!(values.log_level, LogLevel::Warn);
    assert!(values.local);
    assert_eq!(values.cloud.timeout, 5000);
    assert_eq!(values.cloud.message_limit, 10_000);
    assert_eq!(values.cloud.id, "pidgeon-1");
    assert_eq!(values.cloud.domain, "cloud.example");
    assert_eq!(values.db.timeout, 30_000);
    assert_eq!(values.db.port, Some(5433));
    assert_eq!(values.network.timeout, 30_000);
    assert_eq!((values.network.ip_range_start, values.network.ip_range_end), (DEFAULT_RANGE_START, DEFAULT_RANGE_END));
    assert_eq!(values.network.modbus_port, 502);
    assert_eq!(values.hardware.temperature_monitor, "/sys/class/hwmon/hwmon1/temp1_input");
    assert_eq!(values.modbus.request_timeout, 2000);
    assert_eq!(values.modbus.batch_threshold, 4);
    assert_eq!(values.modbus.termination_timeout, 10_000);
    assert_eq!(values.modbus.congestion_backoff, 1000);
    assert_eq!(values.modbus.partial_retries, 10);
    assert_eq!(values.modbus.ping_timeout, 30_000);
    assert_eq!(values.modbus.inactive_timeout, 300_000);
    assert_eq!(values.modbus.discovery_timeout, 30_000);
    assert_eq!(values.modbus.max_slave, 25);
    assert_eq!(values.schedule.discover, "0 0 * * * * *");
    assert_eq!(values.schedule.measure, "0 * * * * * *");
    assert_eq!(values.schedule.daily, "0 0 7 * * * *");
    assert_eq!(values.schedule.nightly, "0 0 21 * * * *");
    assert_eq!(values.schedule.time, "0 0 0 1 * * *");
    assert_eq!(values.schedule.timezone, "UTC");
}

#[test]
fn cloud_id_falls_back_to_the_board_serial() {
    let values = parse(unparsed(None, None), Some("10000000abcd".to_string()), true);
    assert_eq!(values.cloud.id, "pidgeon-10000000abcd");
    assert_eq!(values.db.port, None);
    assert_eq!(cloud_id_from_serial(&"x".to_string()), "pidgeon-x");
}

#[test]
fn device_kinds_are_converted_register_by_register() {
    let values = parse(unparsed(Some("id".to_string()), None), None, false);
    assert_eq!(values.modbus.devices.len(), 1);
    let device = &values.modbus.devices[0];
    assert_eq!(device.kind, "schneider-iem3xxx");
    assert_eq!(device.id[0].address, 130);
    assert!(matches!(device.id[0].storage, RegisterKindStorage::U32(k) if k.multiplier.is_none()));
    assert!(matches!(device.detect[0].matcher, Matcher::Pattern(_)));
    assert!(matches!(device.detect[0].storage, RegisterKindStorage::String(k) if k.length == 10));
    assert_eq!(device.measurement[0].name, "energy");
    assert!(matches!(device.measurement[0].storage, RegisterKindStorage::S64(k) if k.multiplier.map(|m| m.scale) == Some(3)));
    assert_eq!(device.time, Some(TimeImplementation::SchneideriEM3xxx));
}

#[test]
fn register_kinds_keep_their_settings() {
    assert!(matches!(to_modbus_register_kind(FileRegisterKind::String(4)), RegisterKindStorage::String(k) if k.length == 4));
    assert!(matches!(to_modbus_register_kind(FileRegisterKind::F32(None)), RegisterKindStorage::F32(_)));
    assert!(matches!(to_modbus_register_kind(FileRegisterKind::U16(None)), RegisterKindStorage::U16(_)));
}

#[test]
fn log_level_prefers_the_command_line() {
    assert_eq!(log_level(true, true, Some(LogLevel::Error), false), LogLevel::Trace);
    assert_eq!(log_level(false, true, Some(LogLevel::Error), false), LogLevel::Debug);
    assert_eq!(log_level(false, false, Some(LogLevel::Error), true), LogLevel::Error);
    assert_eq!(log_level(false, false, None, true), LogLevel::Debug);
    assert_eq!(log_level(false, false, None, false), LogLevel::Info);
}

#[test]
fn database_port_is_a_decimal_u16() {
    assert_eq!(db_port(Some("5432".to_string())), Some(5432));
    assert_eq!(db_port(Some("+80".to_string())), Some(80));
    assert_eq!(db_port(Some("0080".to_string())), Some(80));
    assert_eq!(db_port(Some("65535".to_string())), Some(65535));
    assert_eq!(db_port(Some("65536".to_string())), None);
    assert_eq!(db_port(Some("-1".to_string())), None);
    assert_eq!(db_port(Some(" 80".to_string())), None);
    assert_eq!(db_port(Some("+".to_string())), None);
    assert_eq!(db_port(Some("".to_string())), None);
    assert_eq!(db_port(None), None);
}

#[test]
fn schedules_fall_back_when_cron_refuses_them() {
    assert_eq!(schedule_expression(Some("0 */5 * * * *".to_string()), "0 * * * * * *"), "0 */5 * * * *");
    assert_eq!(schedule_expression(Some("every minute".to_string()), "0 * * * * * *"), "0 * * * * * *");
    assert_eq!(schedule_expression(None, "0 0 7 * * * *"), "0 0 7 * * * *");
}

#[test]
fn modbus_port_defaults_to_502() {
    assert_eq!(modbus_port(Some("1502".to_string())), 1502);
    assert_eq!(modbus_port(Some("x".to_string())), 502);
    assert_eq!(modbus_port(None), 502);
}

#[test]
fn hardware_monitor_defaults_to_the_first_sensor() {
    assert_eq!(hardware(Some("/tmp/t".to_string())).temperature_monitor, "/tmp/t");
    assert_eq!(hardware(None).temperature_monitor, "/sys/class/hwmon/hwmon1/temp1_input");
}

#[test]
fn ip_range_needs_both_bounds() {
    assert_eq!(ip_range(Some(1), Some(2)), (1, 2));
    assert_eq!(ip_range(Some(1), None), (0xC0A8_0100, 0xC0A8_01FF));
}

#[test]
fn plural_settings_normalize_to_lists() {
    assert_eq!(Plural::One(3).normalize(), vec![3]);
    assert_eq!(Plural::Many(vec![1, 2]).normalize(), vec![1, 2]);
    assert_eq!(Plural::<u8>::Many(Vec::new()).normalize(), Vec::<u8>::new());
}

#[test]
fn device_kinds_are_found_by_name() {
    let mut plain = meter();
    plain.time = None;
    let devices = vec![to_device("a".to_string(), plain), to_device("b".to_string(), meter())];
    assert_eq!(device_for_kind(&devices, &"b".to_string()), Some(1));
    assert_eq!(device_for_kind(&devices, &"c".to_string()), None);
    assert_eq!(timed_device_for_kind(&devices, &"a".to_string()), None);
    assert_eq!(timed_device_for_kind(&devices, &"b".to_string()), Some(1));
}
