//! Configuration: what the command line, the environment and the
//! configuration file give, and the values the gateway runs with, defaults
//! filled in.
//!
//! Durations are in milliseconds. A schedule is a cron expression, and the
//! time zone of the schedules is given by its IANA name.

use vstd::prelude::*;

use crate::decimal::DecimalValue;
use crate::register::{
    law_integer_registers, matcher_for, parse_spec, plain_reading, NumericKind, Timestamp, DetectRegister, IdRegister, Matcher, MeasurementRegister, NumericRegisterKind,
    RegisterKindStorage, RegisterValueStorage, StringRegisterKind, ValueRegister,
};
use crate::text::concat;
use crate::time::TimeImplementation;

verus! {

/// How much the gateway logs.
#[derive(Clone, Copy, Debug, PartialEq, Eq, Structural)]
pub enum LogLevel {
    Trace,
    Debug,
    Info,
    Warn,
    Error,
}

/// The log level: trace when asked on the command line, else debug when
/// asked there, else the level of the configuration file, else debug in a
/// debug build and info otherwise.
pub fn log_level(trace: bool, debug: bool, from_file: Option<LogLevel>, debug_build: bool) -> (r:
    LogLevel)
    ensures
        r == (if trace {
            LogLevel::Trace
        } else if debug {
            LogLevel::Debug
        } else if from_file is Some {
            from_file->0
        } else if debug_build {
            LogLevel::Debug
        } else {
            LogLevel::Info
        }),
{
    if trace {
        LogLevel::Trace
    } else if debug {
        LogLevel::Debug
    } else {
        match from_file {
            Some(level) => level,
            None => if debug_build {
                LogLevel::Debug
            } else {
                LogLevel::Info
            },
        }
    }
}

/// Where the hardware is watched.
#[derive(Clone, Debug)]
pub struct Hardware {
    pub temperature_monitor: String,
}

/// The hardware settings: the configured temperature monitor, or the
/// first hwmon sensor.
pub fn hardware(temperature_monitor: Option<String>) -> (r: Hardware)
    ensures
        r.temperature_monitor@ == match temperature_monitor {
            Some(t) => t@,
            None => "/sys/class/hwmon/hwmon1/temp1_input"@,
        },
{
    match temperature_monitor {
        Some(t) => Hardware { temperature_monitor: t },
        None => Hardware { temperature_monitor: "/sys/class/hwmon/hwmon1/temp1_input".to_owned() },
    }
}

/// How a register is read, as the configuration file writes it.
#[derive(Clone, Copy, Debug)]
pub enum FileRegisterKind {
    U16(Option<DecimalValue>),
    U32(Option<DecimalValue>),
    U64(Option<DecimalValue>),
    S16(Option<DecimalValue>),
    S32(Option<DecimalValue>),
    S64(Option<DecimalValue>),
    F32(Option<DecimalValue>),
    F64(Option<DecimalValue>),
    String(u16),
}

/// The register kind that a kind of the configuration file stands for:
/// the same kind, with the same multiplier or length.
pub open spec fn register_kind_of(kind: FileRegisterKind) -> RegisterKindStorage {
    match kind {
        FileRegisterKind::U16(m) => RegisterKindStorage::U16(NumericRegisterKind { multiplier: m }),
        FileRegisterKind::U32(m) => RegisterKindStorage::U32(NumericRegisterKind { multiplier: m }),
        FileRegisterKind::U64(m) => RegisterKindStorage::U64(NumericRegisterKind { multiplier: m }),
        FileRegisterKind::S16(m) => RegisterKindStorage::S16(NumericRegisterKind { multiplier: m }),
        FileRegisterKind::S32(m) => RegisterKindStorage::S32(NumericRegisterKind { multiplier: m }),
        FileRegisterKind::S64(m) => RegisterKindStorage::S64(NumericRegisterKind { multiplier: m }),
        FileRegisterKind::F32(m) => RegisterKindStorage::F32(NumericRegisterKind { multiplier: m }),
        FileRegisterKind::F64(m) => RegisterKindStorage::F64(NumericRegisterKind { multiplier: m }),
        FileRegisterKind::String(length) => RegisterKindStorage::String(
            StringRegisterKind { length },
        ),
    }
}

/// Law: each register kind of the configuration file stands for the
/// register kind of the same width and signedness, with the same multiplier
/// (or, for text, the same length); so a register configured as a signed
/// kind reads in two's complement, as an `s16` register whose word has its
/// top bit set reads that word minus 2^16.
pub proof fn law_file_kinds_keep_width_and_sign(
    m: Option<DecimalValue>,
    length: u16,
    data: Seq<u16>,
    t: Timestamp,
)
    ensures
        register_kind_of(FileRegisterKind::U16(m)).numeric() == Some((NumericKind::U16, m)),
        register_kind_of(FileRegisterKind::U32(m)).numeric() == Some((NumericKind::U32, m)),
        register_kind_of(FileRegisterKind::U64(m)).numeric() == Some((NumericKind::U64, m)),
        register_kind_of(FileRegisterKind::S16(m)).numeric() == Some((NumericKind::S16, m)),
        register_kind_of(FileRegisterKind::S32(m)).numeric() == Some((NumericKind::S32, m)),
        register_kind_of(FileRegisterKind::S64(m)).numeric() == Some((NumericKind::S64, m)),
        register_kind_of(FileRegisterKind::F32(m)).numeric() == Some((NumericKind::F32, m)),
        register_kind_of(FileRegisterKind::F64(m)).numeric() == Some((NumericKind::F64, m)),
        register_kind_of(FileRegisterKind::String(length)) == RegisterKindStorage::String(
            StringRegisterKind { length },
        ),
        data.len() == 1 && 0x8000 <= data[0] < 0xFFFF ==> parse_spec(
            register_kind_of(FileRegisterKind::S16(None)),
            data,
            t,
        ) == plain_reading(NumericKind::S16, data[0] - 0x1_0000, t),
{
    law_integer_registers(data, t);
}

/// The register kind that a kind of the configuration file stands for.
pub fn to_modbus_register_kind(kind: FileRegisterKind) -> (r: RegisterKindStorage)
    ensures
        r == register_kind_of(kind),
{
    match kind {
        FileRegisterKind::U16(m) => RegisterKindStorage::U16(NumericRegisterKind { multiplier: m }),
        FileRegisterKind::U32(m) => RegisterKindStorage::U32(NumericRegisterKind { multiplier: m }),
        FileRegisterKind::U64(m) => RegisterKindStorage::U64(NumericRegisterKind { multiplier: m }),
        FileRegisterKind::S16(m) => RegisterKindStorage::S16(NumericRegisterKind { multiplier: m }),
        FileRegisterKind::S32(m) => RegisterKindStorage::S32(NumericRegisterKind { multiplier: m }),
        FileRegisterKind::S64(m) => RegisterKindStorage::S64(NumericRegisterKind { multiplier: m }),
        FileRegisterKind::F32(m) => RegisterKindStorage::F32(NumericRegisterKind { multiplier: m }),
        FileRegisterKind::F64(m) => RegisterKindStorage::F64(NumericRegisterKind { multiplier: m }),
        FileRegisterKind::String(length) => RegisterKindStorage::String(
            StringRegisterKind { length },
        ),
    }
}

/// A measurement register of the configuration file.
#[derive(Debug)]
pub struct FileMeasurementRegister {
    pub name: String,
    pub address: u16,
    pub kind: FileRegisterKind,
}

/// A detect register of the configuration file, with the text or pattern
/// its value must match.
#[derive(Debug)]
pub struct FileDetectRegister {
    pub address: u16,
    pub kind: FileRegisterKind,
    pub matcher: String,
}

/// An id register of the configuration file.
#[derive(Debug)]
pub struct FileIdRegister {
    pub address: u16,
    pub kind: FileRegisterKind,
}

/// The measurement register that a register of the configuration file
/// stands for.
pub fn to_modbus_measurement_register(register: FileMeasurementRegister) -> (r: MeasurementRegister<
    RegisterKindStorage,
>)
    ensures
        r.address == register.address,
        r.storage == register_kind_of(register.kind),
        r.name@ == register.name@,
{
    MeasurementRegister {
        address: register.address,
        storage: to_modbus_register_kind(register.kind),
        name: register.name,
    }
}

/// The detect register that a register of the configuration file stands
/// for: its text is a pattern when it compiles as one.
pub fn to_modbus_detect_register(register: FileDetectRegister) -> (r: DetectRegister<
    RegisterKindStorage,
>)
    ensures
        r.address == register.address,
        r.storage == register_kind_of(register.kind),
        r.matcher@ == matcher_for(register.matcher@),
{
    DetectRegister {
        address: register.address,
        storage: to_modbus_register_kind(register.kind),
        matcher: Matcher::from_config(register.matcher),
    }
}

/// The id register that a register of the configuration file stands for.
pub fn to_modbus_id_register(register: FileIdRegister) -> (r: IdRegister<RegisterKindStorage>)
    ensures
        r.address == register.address,
        r.storage == register_kind_of(register.kind),
{
    IdRegister { address: register.address, storage: to_modbus_register_kind(register.kind) }
}

/// How the time of a device is set, as the configuration file writes it.
#[derive(Clone, Copy, Debug, PartialEq, Eq, Structural)]
pub enum FileTimeImplementation {
    SchneideriEM3xxx,
}

/// A device kind of the configuration file.
#[derive(Debug)]
pub struct FileDevice {
    pub detect: Vec<FileDetectRegister>,
    pub id: Vec<FileIdRegister>,
    pub measurement: Vec<FileMeasurementRegister>,
    pub configuration: Vec<ValueRegister<RegisterValueStorage>>,
    pub daily: Vec<ValueRegister<RegisterValueStorage>>,
    pub nightly: Vec<ValueRegister<RegisterValueStorage>>,
    pub time: Option<FileTimeImplementation>,
}

/// A device kind the gateway knows: how to detect it, identify it, measure
/// it, and what to write to it.
#[derive(Debug)]
pub struct Device {
    pub kind: String,
    pub id: Vec<IdRegister<RegisterKindStorage>>,
    pub detect: Vec<DetectRegister<RegisterKindStorage>>,
    pub measurement: Vec<MeasurementRegister<RegisterKindStorage>>,
    pub configuration: Vec<ValueRegister<RegisterValueStorage>>,
    pub daily: Vec<ValueRegister<RegisterValueStorage>>,
    pub nightly: Vec<ValueRegister<RegisterValueStorage>>,
    pub time: Option<TimeImplementation>,
}

/// True when `d` is the device kind `kind` as the configuration file
/// describes it in `f`: the registers in the same order, converted one by
/// one, and the values to write as they are.
pub open spec fn device_from_file(d: Device, kind: Seq<char>, f: FileDevice) -> bool {
    &&& d.kind@ == kind
    &&& d.id@.len() == f.id@.len()
    &&& forall|i: int|
        0 <= i < d.id@.len() ==> (#[trigger] d.id@[i]).address == f.id@[i].address
            && d.id@[i].storage == register_kind_of(f.id@[i].kind)
    &&& d.detect@.len() == f.detect@.len()
    &&& forall|i: int|
        0 <= i < d.detect@.len() ==> (#[trigger] d.detect@[i]).address == f.detect@[i].address
            && d.detect@[i].storage == register_kind_of(f.detect@[i].kind)
            && d.detect@[i].matcher@ == matcher_for(f.detect@[i].matcher@)
    &&& d.measurement@.len() == f.measurement@.len()
    &&& forall|i: int|
        0 <= i < d.measurement@.len() ==> (#[trigger] d.measurement@[i]).address
            == f.measurement@[i].address && d.measurement@[i].storage == register_kind_of(
            f.measurement@[i].kind,
        ) && d.measurement@[i].name@ == f.measurement@[i].name@
    &&& d.configuration == f.configuration
    &&& d.daily == f.daily
    &&& d.nightly == f.nightly
    &&& d.time == match f.time {
        Some(FileTimeImplementation::SchneideriEM3xxx) => Some(TimeImplementation::SchneideriEM3xxx),
        None => None::<TimeImplementation>,
    }
}

/// The device kind `kind` as the configuration file describes it.
pub fn to_device(kind: String, file: FileDevice) -> (d: Device)
    ensures
        device_from_file(d, kind@, file),
{
    let ghost f = file;
    let FileDevice { detect, id, measurement, configuration, daily, nightly, time } = file;

    let mut ids: Vec<IdRegister<RegisterKindStorage>> = Vec::new();
    let mut rest = id;
    let ghost source = rest@;
    let count = rest.len();
    let mut i: usize = 0;
    while rest.len() > 0
        invariant
            source == f.id@,
            i + rest@.len() == source.len(),
            source.len() == count,
            rest@ == source.subrange(i as int, source.len() as int),
            ids@.len() == i,
            forall|j: int|
                0 <= j < i ==> (#[trigger] ids@[j]).address == source[j].address
                    && ids@[j].storage == register_kind_of(source[j].kind),
        decreases rest@.len(),
    {
        let register = rest.remove(0);
        ids.push(to_modbus_id_register(register));
        i = i + 1;
    }

    let mut detects: Vec<DetectRegister<RegisterKindStorage>> = Vec::new();
    let mut rest = detect;
    let ghost source = rest@;
    let count = rest.len();
    let mut i: usize = 0;
    while rest.len() > 0
        invariant
            source == f.detect@,
            i + rest@.len() == source.len(),
            source.len() == count,
            rest@ == source.subrange(i as int, source.len() as int),
            detects@.len() == i,
            forall|j: int|
                0 <= j < i ==> (#[trigger] detects@[j]).address == source[j].address
                    && detects@[j].storage == register_kind_of(source[j].kind)
                    && detects@[j].matcher@ == matcher_for(source[j].matcher@),
        decreases rest@.len(),
    {
        let register = rest.remove(0);
        detects.push(to_modbus_detect_register(register));
        i = i + 1;
    }

    let mut measurements: Vec<MeasurementRegister<RegisterKindStorage>> = Vec::new();
    let mut rest = measurement;
    let ghost source = rest@;
    let count = rest.len();
    let mut i: usize = 0;
    while rest.len() > 0
        invariant
            source == f.measurement@,
            i + rest@.len() == source.len(),
            source.len() == count,
            rest@ == source.subrange(i as int, source.len() as int),
            measurements@.len() == i,
            forall|j: int|
                0 <= j < i ==> (#[trigger] measurements@[j]).address == source[j].address
                    && measurements@[j].storage == register_kind_of(source[j].kind)
                    && measurements@[j].name@ == source[j].name@,
        decreases rest@.len(),
    {
        let register = rest.remove(0);
        measurements.push(to_modbus_measurement_register(register));
        i = i + 1;
    }

    let time = match time {
        Some(FileTimeImplementation::SchneideriEM3xxx) => Some(TimeImplementation::SchneideriEM3xxx),
        None => None,
    };

    Device {
        kind,
        id: ids,
        detect: detects,
        measurement: measurements,
        configuration,
        daily,
        nightly,
        time,
    }
}

/// True when every character of `s` is an ASCII digit.
pub open spec fn all_digits(s: Seq<char>) -> bool {
    forall|i: int| 0 <= i < s.len() ==> '0' <= #[trigger] s[i] <= '9'
}

/// The number that a run of decimal digits writes.
pub open spec fn digits_value(s: Seq<char>) -> int
    decreases s.len(),
{
    if s.len() == 0 {
        0
    } else {
        digits_value(s.drop_last()) * 10 + (s.last() as int - '0' as int)
    }
}

/// The `u16` that a text writes in decimal: an optional `+` and at least
/// one digit, with a value that fits; none for any other text.
pub open spec fn u16_text_value(s: Seq<char>) -> Option<u16> {
    let digits = if s.len() > 0 && s[0] == '+' {
        s.drop_first()
    } else {
        s
    };
    if digits.len() > 0 && all_digits(digits) && digits_value(digits) <= 65535 {
        Some(digits_value(digits) as u16)
    } else {
        None
    }
}

/// `str::parse::<u16>`: the number a decimal text writes. As the standard
/// library documents for integers, the text is an optional `+` followed by
/// digits only, and a value out of range is an error.
#[verifier::external_body]
fn parse_u16(s: &str) -> (r: Option<u16>)
    ensures
        r == u16_text_value(s@),
{
    match s.parse::<u16>() {
        Ok(v) => Some(v),
        Err(_) => None,
    }
}

/// Whether `cron` parses a text as a schedule.
pub uninterp spec fn cron_valid(expression: Seq<char>) -> bool;

/// `cron::Schedule::from_str`: whether the text is a cron schedule that
/// the `cron` crate accepts. What it accepts is left to the crate.
#[verifier::external_body]
fn cron_parses(expression: &str) -> (r: bool)
    ensures
        r == cron_valid(expression@),
{
    match expression.parse::<cron::Schedule>() {
        Ok(_) => true,
        Err(_) => false,
    }
}

/// The schedule that runs: the configured one when `cron` accepts it,
/// the default otherwise.
pub open spec fn schedule_of(configured: Option<Seq<char>>, default: Seq<char>) -> Seq<char> {
    match configured {
        Some(c) => if cron_valid(c) {
            c
        } else {
            default
        },
        None => default,
    }
}

/// The view of an optional string.
pub open spec fn option_view(s: Option<String>) -> Option<Seq<char>> {
    match s {
        Some(s) => Some(s@),
        None => None,
    }
}

/// The schedule that runs, from the configured expression and a default.
pub fn schedule_expression(configured: Option<String>, default: &str) -> (r: String)
    ensures
        r@ == schedule_of(option_view(configured), default@),
{
    match configured {
        Some(c) => if cron_parses(c.as_str()) {
            c
        } else {
            default.to_owned()
        },
        None => default.to_owned(),
    }
}

/// The schedules of the configuration file; each may be left out.
#[derive(Debug)]
pub struct FileSchedule {
    pub discover: Option<String>,
    pub ping: Option<String>,
    pub measure: Option<String>,
    pub push: Option<String>,
    pub update: Option<String>,
    pub health: Option<String>,
    pub daily: Option<String>,
    pub nightly: Option<String>,
    pub time: Option<String>,
    pub poll: Option<String>,
    pub timezone: Option<String>,
}

/// When the recurring processes run.
#[derive(Debug)]
pub struct Schedule {
    pub discover: String,
    pub ping: String,
    pub measure: String,
    pub push: String,
    pub update: String,
    pub health: String,
    pub daily: String,
    pub nightly: String,
    pub time: String,
    pub poll: String,
    pub timezone: String,
}

/// True when `s` is the schedule that `f` configures: each process every
/// hour (discover, ping), every minute (measure, push, update, health,
/// poll), at 7:00 (daily), at 21:00 (nightly) or monthly (time) unless
/// configured otherwise, in UTC unless a time zone is configured.
pub open spec fn schedule_from_file(s: Schedule, f: FileSchedule) -> bool {
    &&& s.discover@ == schedule_of(option_view(f.discover), "0 0 * * * * *"@)
    &&& s.ping@ == schedule_of(option_view(f.ping), "0 0 * * * * *"@)
    &&& s.measure@ == schedule_of(option_view(f.measure), "0 * * * * * *"@)
    &&& s.push@ == schedule_of(option_view(f.push), "0 * * * * * *"@)
    &&& s.update@ == schedule_of(option_view(f.update), "0 * * * * * *"@)
    &&& s.health@ == schedule_of(option_view(f.health), "0 * * * * * *"@)
    &&& s.daily@ == schedule_of(option_view(f.daily), "0 0 7 * * * *"@)
    &&& s.nightly@ == schedule_of(option_view(f.nightly), "0 0 21 * * * *"@)
    &&& s.time@ == schedule_of(option_view(f.time), "0 0 0 1 * * *"@)
    &&& s.poll@ == schedule_of(option_view(f.poll), "0 * * * * * *"@)
    &&& s.timezone@ == match f.timezone {
        Some(t) => t@,
        None => "UTC"@,
    }
}

/// The schedule that the configuration file asks for.
pub fn to_schedule(file: FileSchedule) -> (s: Schedule)
    ensures
        schedule_from_file(s, file),
{
    let ghost f = file;
    let FileSchedule {
        discover,
        ping,
        measure,
        push,
        update,
        health,
        daily,
        nightly,
        time,
        poll,
        timezone,
    } = file;
    Schedule {
        discover: schedule_expression(discover, "0 0 * * * * *"),
        ping: schedule_expression(ping, "0 0 * * * * *"),
        measure: schedule_expression(measure, "0 * * * * * *"),
        push: schedule_expression(push, "0 * * * * * *"),
        update: schedule_expression(update, "0 * * * * * *"),
        health: schedule_expression(health, "0 * * * * * *"),
        daily: schedule_expression(daily, "0 0 7 * * * *"),
        nightly: schedule_expression(nightly, "0 0 21 * * * *"),
        time: schedule_expression(time, "0 0 0 1 * * *"),
        poll: schedule_expression(poll, "0 * * * * * *"),
        timezone: match timezone {
            Some(t) => t,
            None => "UTC".to_owned(),
        },
    }
}

/// The value of an optional setting, or its default.
pub open spec fn or_default<T>(value: Option<T>, default: T) -> T {
    match value {
        Some(v) => v,
        None => default,
    }
}

/// A number of milliseconds, as a duration in milliseconds.
pub fn milliseconds(value: u32) -> (r: i64)
    ensures
        r == value,
{
    value as i64
}

/// The Modbus settings of the configuration file; each may be left out.
#[derive(Debug)]
pub struct FileModbus {
    pub request_timeout: Option<u32>,
    pub batch_threshold: Option<u16>,
    pub termination_timeout: Option<u32>,
    pub congestion_backoff: Option<u32>,
    pub partial_retries: Option<u32>,
    pub ping_timeout: Option<u32>,
    pub tariff_timeout: Option<u32>,
    pub time_timeout: Option<u32>,
    pub inactive_timeout: Option<u32>,
    pub discovery_timeout: Option<u32>,
    pub max_slave: Option<u8>,
    pub devices: Vec<(String, FileDevice)>,
}

/// How the gateway talks Modbus, and the device kinds it knows.
#[derive(Debug)]
pub struct Modbus {
    pub request_timeout: i64,
    pub batch_threshold: u16,
    pub termination_timeout: i64,
    pub congestion_backoff: i64,
    pub partial_retries: u32,
    pub ping_timeout: i64,
    pub tariff_timeout: i64,
    pub time_timeout: i64,
    pub inactive_timeout: i64,
    pub discovery_timeout: i64,
    pub max_slave: u8,
    pub devices: Vec<Device>,
}

/// True when `m` is what the Modbus settings `f` configure: a 2 s request
/// timeout, batches across gaps of up to 4 registers, a 10 s termination
/// timeout, a 1 s congestion backoff, 10 partial retries, 30 s ping, tariff,
/// time and discovery timeouts, a 5 min inactivity timeout and slaves up to
/// 25, unless configured otherwise; and each device kind in the order of
/// the file.
pub open spec fn modbus_from_file(m: Modbus, f: FileModbus) -> bool {
    &&& m.request_timeout == or_default(f.request_timeout, 2000u32)
    &&& m.batch_threshold == or_default(f.batch_threshold, 4u16)
    &&& m.termination_timeout == or_default(f.termination_timeout, 10_000u32)
    &&& m.congestion_backoff == or_default(f.congestion_backoff, 1000u32)
    &&& m.partial_retries == or_default(f.partial_retries, 10u32)
    &&& m.ping_timeout == or_default(f.ping_timeout, 30_000u32)
    &&& m.tariff_timeout == or_default(f.tariff_timeout, 30_000u32)
    &&& m.time_timeout == or_default(f.time_timeout, 30_000u32)
    &&& m.inactive_timeout == or_default(f.inactive_timeout, 300_000u32)
    &&& m.discovery_timeout == or_default(f.discovery_timeout, 30_000u32)
    &&& m.max_slave == or_default(f.max_slave, 25u8)
    &&& m.devices@.len() == f.devices@.len()
    &&& forall|i: int|
        0 <= i < m.devices@.len() ==> device_from_file(
            #[trigger] m.devices@[i],
            f.devices@[i].0@,
            f.devices@[i].1,
        )
}

/// The Modbus settings that the configuration file asks for.
pub fn to_modbus(file: FileModbus) -> (m: Modbus)
    ensures
        modbus_from_file(m, file),
{
    let ghost f = file;
    let FileModbus {
        request_timeout,
        batch_threshold,
        termination_timeout,
        congestion_backoff,
        partial_retries,
        ping_timeout,
        tariff_timeout,
        time_timeout,
        inactive_timeout,
        discovery_timeout,
        max_slave,
        devices,
    } = file;

    let mut kinds: Vec<Device> = Vec::new();
    let mut rest = devices;
    let ghost source = rest@;
    let count = rest.len();
    let mut i: usize = 0;
    while rest.len() > 0
        invariant
            source == f.devices@,
            source.len() == count,
            i + rest@.len() == source.len(),
            rest@ == source.subrange(i as int, source.len() as int),
            kinds@.len() == i,
            forall|j: int|
                0 <= j < i ==> device_from_file(#[trigger] kinds@[j], source[j].0@, source[j].1),
        decreases rest@.len(),
    {
        let (kind, device) = rest.remove(0);
        kinds.push(to_device(kind, device));
        i = i + 1;
    }

    Modbus {
        request_timeout: milliseconds(request_timeout.unwrap_or(2000)),
        batch_threshold: batch_threshold.unwrap_or(4),
        termination_timeout: milliseconds(termination_timeout.unwrap_or(10_000)),
        congestion_backoff: milliseconds(congestion_backoff.unwrap_or(1000)),
        partial_retries: partial_retries.unwrap_or(10),
        ping_timeout: milliseconds(ping_timeout.unwrap_or(30_000)),
        tariff_timeout: milliseconds(tariff_timeout.unwrap_or(30_000)),
        time_timeout: milliseconds(time_timeout.unwrap_or(30_000)),
        inactive_timeout: milliseconds(inactive_timeout.unwrap_or(5 * 60 * 1000)),
        discovery_timeout: milliseconds(discovery_timeout.unwrap_or(30_000)),
        max_slave: max_slave.unwrap_or(25),
        devices: kinds,
    }
}

/// The identity of the gateway in the cloud when none is configured:
/// `pidgeon-` followed by the serial number of the board.
pub fn cloud_id_from_serial(serial: &String) -> (id: String)
    ensures
        id@ == "pidgeon-"@ + serial@,
{
    concat(&"pidgeon-".to_owned(), serial)
}

/// What the command line gives.
#[derive(Debug)]
pub struct Args {
    pub trace: bool,
    pub debug: bool,
    pub local: bool,
    pub config: Option<String>,
}

/// The cloud settings of the environment.
#[derive(Debug)]
pub struct EnvCloud {
    pub ssl: bool,
    pub domain: String,
    pub api_key: Option<String>,
    pub id: Option<String>,
}

/// The database settings of the environment; the port is the text of the
/// variable.
#[derive(Debug)]
pub struct EnvDb {
    pub ssl: bool,
    pub domain: String,
    pub port: Option<String>,
    pub user: String,
    pub password: Option<String>,
    pub name: String,
}

/// The network settings of the environment: the bounds of the range of
/// IPv4 addresses scanned (as numbers, when the variables hold addresses)
/// and the text of the Modbus port.
#[derive(Debug)]
pub struct EnvNetwork {
    pub ip_range_start: Option<u32>,
    pub ip_range_end: Option<u32>,
    pub modbus_port: Option<String>,
}

/// What the environment gives.
#[derive(Debug)]
pub struct Env {
    pub cloud: EnvCloud,
    pub db: EnvDb,
    pub network: EnvNetwork,
}

/// What the configuration file gives; each setting may be left out.
#[derive(Debug)]
pub struct FileValues {
    pub log_level: Option<LogLevel>,
    pub schedule: FileSchedule,
    pub temperature_monitor: Option<String>,
    pub cloud_timeout: Option<u32>,
    pub cloud_message_limit: Option<i64>,
    pub db_timeout: Option<u32>,
    pub network_timeout: Option<u32>,
    pub modbus: FileModbus,
}

/// Everything the configuration is made from.
#[derive(Debug)]
pub struct Unparsed {
    pub from_args: Args,
    pub from_env: Env,
    pub from_file: FileValues,
}

/// How the gateway talks to the cloud.
#[derive(Debug)]
pub struct Cloud {
    pub timeout: i64,
    pub message_limit: i64,
    pub ssl: bool,
    pub domain: String,
    pub api_key: Option<String>,
    pub id: String,
}

/// How the gateway talks to its database.
#[derive(Debug)]
pub struct Db {
    pub timeout: i64,
    pub ssl: bool,
    pub domain: String,
    pub port: Option<u16>,
    pub user: String,
    pub password: Option<String>,
    pub name: String,
}

/// Which network the gateway scans.
#[derive(Debug)]
pub struct Network {
    pub timeout: i64,
    pub ip_range_start: u32,
    pub ip_range_end: u32,
    pub modbus_port: u16,
}

/// The values the gateway runs with.
#[derive(Debug)]
pub struct Values {
    pub cloud: Cloud,
    pub db: Db,
    pub network: Network,
    pub modbus: Modbus,
    pub hardware: Hardware,
    pub schedule: Schedule,
    pub log_level: LogLevel,
    pub local: bool,
}

/// The first address scanned when the range is not configured,
/// 192.168.1.0.
pub const DEFAULT_RANGE_START: u32 = 0xC0A8_0100;

/// The last address scanned when the range is not configured,
/// 192.168.1.255.
pub const DEFAULT_RANGE_END: u32 = 0xC0A8_01FF;

/// The range of addresses scanned: the configured one when both of its
/// bounds are addresses, 192.168.1.0 to 192.168.1.255 otherwise.
pub fn ip_range(start: Option<u32>, end: Option<u32>) -> (r: (u32, u32))
    ensures
        r == (match (start, end) {
            (Some(s), Some(e)) => (s, e),
            _ => (DEFAULT_RANGE_START, DEFAULT_RANGE_END),
        }),
{
    match (start, end) {
        (Some(s), Some(e)) => (s, e),
        _ => (DEFAULT_RANGE_START, DEFAULT_RANGE_END),
    }
}

/// The Modbus port: the number the variable writes, 502 otherwise.
pub fn modbus_port(port: Option<String>) -> (r: u16)
    ensures
        r == match port {
            Some(p) => match u16_text_value(p@) {
                Some(n) => n,
                None => 502u16,
            },
            None => 502u16,
        },
{
    match port {
        Some(p) => match parse_u16(p.as_str()) {
            Some(n) => n,
            None => 502,
        },
        None => 502,
    }
}

/// The port of the database: the number the variable writes, if any.
pub fn db_port(port: Option<String>) -> (r: Option<u16>)
    ensures
        r == match port {
            Some(p) => u16_text_value(p@),
            None => None,
        },
{
    match port {
        Some(p) => parse_u16(p.as_str()),
        None => None,
    }
}

/// True when `v` is what `u` configures (see the spec functions of each
/// part), the serial number giving the cloud identity when the environment
/// gives none.
pub open spec fn values_from(v: Values, u: Unparsed, serial: Option<String>, debug_build: bool) -> bool {
    &&& v.log_level == (if u.from_args.trace {
        LogLevel::Trace
    } else if u.from_args.debug {
        LogLevel::Debug
    } else if u.from_file.log_level is Some {
        u.from_file.log_level->0
    } else if debug_build {
        LogLevel::Debug
    } else {
        LogLevel::Info
    })
    &&& v.local == u.from_args.local
    &&& schedule_from_file(v.schedule, u.from_file.schedule)
    &&& v.hardware.temperature_monitor@ == match u.from_file.temperature_monitor {
        Some(t) => t@,
        None => "/sys/class/hwmon/hwmon1/temp1_input"@,
    }
    &&& v.cloud.timeout == or_default(u.from_file.cloud_timeout, 30_000u32)
    &&& v.cloud.message_limit == or_default(u.from_file.cloud_message_limit, 10_000i64)
    &&& v.cloud.ssl == u.from_env.cloud.ssl
    &&& v.cloud.domain == u.from_env.cloud.domain
    &&& v.cloud.api_key == u.from_env.cloud.api_key
    &&& v.cloud.id@ == match u.from_env.cloud.id {
        Some(id) => id@,
        None => "pidgeon-"@ + serial->0@,
    }
    &&& v.db.timeout == or_default(u.from_file.db_timeout, 30_000u32)
    &&& v.db.ssl == u.from_env.db.ssl
    &&& v.db.domain == u.from_env.db.domain
    &&& v.db.port == match u.from_env.db.port {
        Some(p) => u16_text_value(p@),
        None => None,
    }
    &&& v.db.user == u.from_env.db.user
    &&& v.db.password == u.from_env.db.password
    &&& v.db.name == u.from_env.db.name
    &&& v.network.timeout == or_default(u.from_file.network_timeout, 30_000u32)
    &&& (v.network.ip_range_start, v.network.ip_range_end) == (match (
        u.from_env.network.ip_range_start,
        u.from_env.network.ip_range_end,
    ) {
        (Some(s), Some(e)) => (s, e),
        _ => (DEFAULT_RANGE_START, DEFAULT_RANGE_END),
    })
    &&& v.network.modbus_port == match u.from_env.network.modbus_port {
        Some(p) => match u16_text_value(p@) {
            Some(n) => n,
            None => 502u16,
        },
        None => 502u16,
    }
    &&& modbus_from_file(v.modbus, u.from_file.modbus)
}

/// The values the gateway runs with: each setting from the command line,
/// the environment or the configuration file, or its default. The serial
/// number of the board is needed only when the environment gives no cloud
/// identity.
pub fn parse(config: Unparsed, serial: Option<String>, debug_build: bool) -> (v: Values)
    requires
        config.from_env.cloud.id is Some || serial is Some,
    ensures
        values_from(v, config, serial, debug_build),
{
    let ghost u = config;
    let Unparsed { from_args, from_env, from_file } = config;
    let Env { cloud: env_cloud, db: env_db, network: env_network } = from_env;
    let FileValues {
        log_level: file_log_level,
        schedule,
        temperature_monitor,
        cloud_timeout,
        cloud_message_limit,
        db_timeout,
        network_timeout,
        modbus,
    } = from_file;

    let id = match env_cloud.id {
        Some(id) => id,
        None => match &serial {
            Some(serial) => cloud_id_from_serial(serial),
            None => String::new(),
        },
    };
    let (ip_range_start, ip_range_end) = ip_range(
        env_network.ip_range_start,
        env_network.ip_range_end,
    );

    Values {
        log_level: log_level(from_args.trace, from_args.debug, file_log_level, debug_build),
        local: from_args.local,
        schedule: to_schedule(schedule),
        hardware: hardware(temperature_monitor),
        cloud: Cloud {
            timeout: milliseconds(cloud_timeout.unwrap_or(30_000)),
            message_limit: cloud_message_limit.unwrap_or(10_000),
            ssl: env_cloud.ssl,
            domain: env_cloud.domain,
            api_key: env_cloud.api_key,
            id,
        },
        db: Db {
            timeout: milliseconds(db_timeout.unwrap_or(30_000)),
            ssl: env_db.ssl,
            domain: env_db.domain,
            port: db_port(env_db.port),
            user: env_db.user,
            password: env_db.password,
            name: env_db.name,
        },
        network: Network {
            timeout: milliseconds(network_timeout.unwrap_or(30_000)),
            ip_range_start,
            ip_range_end,
            modbus_port: modbus_port(env_network.modbus_port),
        },
        modbus: to_modbus(modbus),
    }
}

/// A setting that the configuration file gives as one item or as a list.
#[derive(Clone, Debug)]
pub enum Plural<T> {
    One(T),
    Many(Vec<T>),
}

impl<T: Clone> Plural<T> {
    /// The items as a list: the one item alone, or a clone of the list.
    pub fn normalize(&self) -> (r: Vec<T>)
        ensures
            match self {
                Plural::One(item) => r@.len() == 1 && cloned::<T>(*item, r@[0]),
                Plural::Many(items) => r@.len() == items@.len() && forall|i: int|
                    0 <= i < items@.len() ==> cloned::<T>(items@[i], #[trigger] r@[i]),
            },
    {
        match self {
            Plural::One(item) => {
                let mut r: Vec<T> = Vec::new();
                r.push(item.clone());
                r
            },
            Plural::Many(items) => items.clone(),
        }
    }
}

/// The index of the device kind `kind` among `devices`: the first device
/// of that kind, none when no device is of it.
pub fn device_for_kind(devices: &Vec<Device>, kind: &String) -> (r: Option<usize>)
    ensures
        match r {
            Some(i) => i < devices@.len() && devices@[i as int].kind@ == kind@ && forall|j: int|
                0 <= j < i ==> (#[trigger] devices@[j]).kind@ != kind@,
            None => forall|j: int| 0 <= j < devices@.len() ==> (#[trigger] devices@[j]).kind@ != kind@,
        },
{
    let mut i: usize = 0;
    while i < devices.len()
        invariant
            i <= devices@.len(),
            forall|j: int| 0 <= j < i ==> (#[trigger] devices@[j]).kind@ != kind@,
        decreases devices@.len() - i,
    {
        if devices[i].kind == *kind {
            return Some(i);
        }
        i = i + 1;
    }
    None
}

/// The index of the device kind `kind` among the devices whose time can
/// be set: the first such device of that kind, none when there is none.
pub fn timed_device_for_kind(devices: &Vec<Device>, kind: &String) -> (r: Option<usize>)
    ensures
        match r {
            Some(i) => i < devices@.len() && devices@[i as int].kind@ == kind@
                && devices@[i as int].time is Some && forall|j: int|
                0 <= j < i ==> !((#[trigger] devices@[j]).kind@ == kind@ && devices@[j].time is Some),
            None => forall|j: int|
                0 <= j < devices@.len() ==> !((#[trigger] devices@[j]).kind@ == kind@
                    && devices@[j].time is Some),
        },
{
    let mut i: usize = 0;
    while i < devices.len()
        invariant
            i <= devices@.len(),
            forall|j: int|
                0 <= j < i ==> !((#[trigger] devices@[j]).kind@ == kind@ && devices@[j].time is Some),
        decreases devices@.len() - i,
    {
        if devices[i].time.is_some() && devices[i].kind == *kind {
            return Some(i);
        }
        i = i + 1;
    }
    None
}

} // verus!
