//! Measuring devices: what a measurement stream gives, which readings are
//! kept as measurements, and which devices are measured.

use vstd::prelude::*;

use crate::config::Device;
use crate::decimal::DecimalValue;
use crate::register::{
    finish_spec, finished_storage, id_values, make_id, make_id_spec, option_decimal_wf, option_parts,
    serialize_registers, serialized_registers, storage_timestamp, FloatReading, IdRegister, JsonField,
    JsonFieldView, MeasurementRegister, ParseError, Reading, RegisterKindStorage,
    RegisterValueStorage, StorageView, Timestamp,
};
use crate::span::{Span, SpanParser};
use crate::text::copy_string;

verus! {

/// A register read by a measurement stream: an id register or a
/// measurement register.
#[derive(Debug)]
pub enum StreamRegister {
    Id(IdRegister<RegisterValueStorage>),
    Measurement(MeasurementRegister<RegisterValueStorage>),
}

/// The id registers among the registers, in order.
pub open spec fn stream_ids(s: Seq<StreamRegister>) -> Seq<IdRegister<RegisterValueStorage>>
    decreases s.len(),
{
    if s.len() == 0 {
        Seq::empty()
    } else {
        match s.last() {
            StreamRegister::Id(r) => stream_ids(s.drop_last()).push(r),
            StreamRegister::Measurement(_) => stream_ids(s.drop_last()),
        }
    }
}

/// The measurement registers among the registers, in order.
pub open spec fn stream_measurements(s: Seq<StreamRegister>) -> Seq<
    MeasurementRegister<RegisterValueStorage>,
>
    decreases s.len(),
{
    if s.len() == 0 {
        Seq::empty()
    } else {
        match s.last() {
            StreamRegister::Id(_) => stream_measurements(s.drop_last()),
            StreamRegister::Measurement(r) => stream_measurements(s.drop_last()).push(r),
        }
    }
}

/// True when every value among the registers is well formed.
pub open spec fn stream_wf(s: Seq<StreamRegister>) -> bool {
    forall|i: int|
        0 <= i < s.len() ==> match #[trigger] s[i] {
            StreamRegister::Id(r) => r.storage.wf(),
            StreamRegister::Measurement(r) => r.storage.wf(),
        }
}

/// A measurement to store: the device it comes from, when it was read and
/// its named values.
#[derive(Debug)]
pub struct Measurement {
    pub source: String,
    pub timestamp: Timestamp,
    pub data: Vec<(String, JsonField)>,
}

/// The named values of a measurement, as plain values.
pub open spec fn data_view(data: Seq<(String, JsonField)>) -> Seq<(Seq<char>, JsonFieldView)> {
    data.map_values(|f: (String, JsonField)| (f.0@, f.1@))
}

/// True when the registers read from the device `id` of kind `kind` are a
/// measurement of that device: its id registers give back its id, and
/// there is at least one.
pub open spec fn verified_measurement(id: Seq<char>, kind: Seq<char>, s: Seq<StreamRegister>) -> bool {
    &&& make_id_spec(kind, id_values(stream_ids(s))) == id
    &&& stream_ids(s).len() > 0
}

/// The measurement that the registers read from the device `id` of kind
/// `kind` give: none unless the id registers give back the device's id;
/// else read at the time of the first id register, with the values of the
/// measurement registers in order.
pub fn consolidate_measurement(id: &String, kind: &String, registers: Vec<StreamRegister>) -> (r:
    Option<Measurement>)
    requires
        stream_wf(registers@),
    ensures
        r is Some <==> verified_measurement(id@, kind@, registers@),
        r matches Some(m) ==> {
            &&& m.source@ == id@
            &&& m.timestamp == storage_timestamp(stream_ids(registers@)[0].storage@)
            &&& data_view(m.data@) == serialized_registers(stream_measurements(registers@))
        },
{
    let ghost source = registers@;
    let count = registers.len();
    let mut rest = registers;
    let mut ids: Vec<IdRegister<RegisterValueStorage>> = Vec::new();
    let mut measurements: Vec<MeasurementRegister<RegisterValueStorage>> = Vec::new();
    let mut i: usize = 0;
    while rest.len() > 0
        invariant
            stream_wf(source),
            source.len() == count,
            i + rest@.len() == source.len(),
            rest@ == source.subrange(i as int, source.len() as int),
            ids@ == stream_ids(source.take(i as int)),
            measurements@ == stream_measurements(source.take(i as int)),
            forall|j: int| 0 <= j < ids@.len() ==> #[trigger] ids@[j].storage.wf(),
        decreases rest@.len(),
    {
        let register = rest.remove(0);
        assert(source.take(i + 1).drop_last() =~= source.take(i as int));
        assert(source.take(i + 1).last() == source[i as int]);
        assert(register == source[i as int]);
        match register {
            StreamRegister::Id(r) => {
                ids.push(r);
            },
            StreamRegister::Measurement(r) => {
                measurements.push(r);
            },
        }
        i = i + 1;
    }
    assert(source.take(count as int) =~= source);
    let made = make_id(kind, &ids);
    if made != *id {
        return None;
    }
    if ids.len() == 0 {
        return None;
    }
    let timestamp = ids[0].storage.timestamp();
    let data = serialize_registers(&measurements);
    Some(Measurement { source: made, timestamp, data })
}

/// What polling a measurement stream gave.
#[derive(Clone, Copy, Debug, PartialEq, Eq, Structural)]
pub enum StreamPoll {
    /// Nothing is ready yet.
    Pending,
    /// The stream ended.
    Ended,
    /// The server could not be connected.
    FailedToConnect,
    /// The server failed.
    ServerFailed,
    /// A reading could not be parsed.
    ParsingFailed,
    /// A reading is ready.
    Ready,
}

/// What is done after a poll.
#[derive(Clone, Copy, Debug, PartialEq, Eq, Structural)]
pub enum PollAction {
    /// Stop polling and keep the stream.
    Keep,
    /// Stop polling and drop the stream.
    Drop,
    /// Keep the reading as a measurement and poll again.
    Record,
    /// Poll again.
    Skip,
}

/// What is done after a poll: a stream is kept while nothing is ready,
/// dropped when it ended or its server failed, and polled again after a
/// reading, which is kept when it parsed.
pub fn poll_action(poll: StreamPoll) -> (a: PollAction)
    ensures
        a == match poll {
            StreamPoll::Pending => PollAction::Keep,
            StreamPoll::Ended => PollAction::Drop,
            StreamPoll::FailedToConnect => PollAction::Drop,
            StreamPoll::ServerFailed => PollAction::Drop,
            StreamPoll::ParsingFailed => PollAction::Skip,
            StreamPoll::Ready => PollAction::Record,
        },
{
    match poll {
        StreamPoll::Pending => PollAction::Keep,
        StreamPoll::Ended => PollAction::Drop,
        StreamPoll::FailedToConnect => PollAction::Drop,
        StreamPoll::ServerFailed => PollAction::Drop,
        StreamPoll::ParsingFailed => PollAction::Skip,
        StreamPoll::Ready => PollAction::Record,
    }
}

/// The index of the first device kind named `kind`, if any.
pub open spec fn kind_index(configs: Seq<Device>, kind: Seq<char>) -> Option<int>
    decreases configs.len(),
{
    if configs.len() == 0 {
        None
    } else {
        match kind_index(configs.drop_last(), kind) {
            Some(i) => Some(i),
            None => if configs.last().kind@ == kind {
                Some(configs.len() - 1)
            } else {
                None
            },
        }
    }
}

proof fn lemma_kind_index(configs: Seq<Device>, kind: Seq<char>, n: int)
    requires
        0 <= n <= configs.len(),
    ensures
        match kind_index(configs.take(n), kind) {
            Some(i) => 0 <= i < n && configs[i].kind@ == kind && forall|j: int|
                0 <= j < i ==> (#[trigger] configs[j]).kind@ != kind,
            None => forall|j: int| 0 <= j < n ==> (#[trigger] configs[j]).kind@ != kind,
        },
    decreases n,
{
    if n > 0 {
        lemma_kind_index(configs, kind, n - 1);
        assert(configs.take(n).drop_last() =~= configs.take(n - 1));
    }
}

/// The pairs of a stored device and the index of its kind's
/// configuration, for the devices whose kind is configured, in order.
pub open spec fn configured_devices(kinds: Seq<Seq<char>>, configs: Seq<Device>) -> Seq<(int, int)>
    decreases kinds.len(),
{
    if kinds.len() == 0 {
        Seq::empty()
    } else {
        let rest = configured_devices(kinds.drop_last(), configs);
        match kind_index(configs, kinds.last()) {
            Some(c) => rest.push((kinds.len() - 1, c)),
            None => rest,
        }
    }
}

/// For each stored device (given by its kind) whose kind is configured, in
/// order, the index of the device and the index of its kind's
/// configuration.
pub fn match_configs(kinds: &Vec<String>, configs: &Vec<Device>) -> (r: Vec<(usize, usize)>)
    ensures
        r@.map_values(|p: (usize, usize)| (p.0 as int, p.1 as int)) == configured_devices(
            kinds@.map_values(|k: String| k@),
            configs@,
        ),
{
    let ghost views = kinds@.map_values(|k: String| k@);
    let mut r: Vec<(usize, usize)> = Vec::new();
    let mut i: usize = 0;
    while i < kinds.len()
        invariant
            i <= kinds@.len(),
            views == kinds@.map_values(|k: String| k@),
            r@.map_values(|p: (usize, usize)| (p.0 as int, p.1 as int)) =~= configured_devices(
                views.take(i as int),
                configs@,
            ),
        decreases kinds@.len() - i,
    {
        let ghost before = r@;
        proof {
            assert(views.take(i + 1).drop_last() =~= views.take(i as int));
            assert(views.take(i + 1).last() == kinds@[i as int]@);
        }
        let mut c: usize = 0;
        let mut found: Option<usize> = None;
        while c < configs.len()
            invariant
                c <= configs@.len(),
                found is None ==> forall|j: int|
                    0 <= j < c ==> (#[trigger] configs@[j]).kind@ != kinds@[i as int]@,
                found matches Some(f) ==> f < configs@.len() && configs@[f as int].kind@
                    == kinds@[i as int]@ && forall|j: int|
                    0 <= j < f ==> (#[trigger] configs@[j]).kind@ != kinds@[i as int]@,
                i < kinds@.len(),
            decreases configs@.len() - c,
        {
            if found.is_none() && configs[c].kind == kinds[i] {
                found = Some(c);
            }
            c = c + 1;
        }
        proof {
            lemma_kind_index(configs@, kinds@[i as int]@, configs@.len() as int);
            assert(configs@.take(configs@.len() as int) =~= configs@);
            match kind_index(configs@, kinds@[i as int]@) {
                Some(k) => {
                    assert(found matches Some(f) && f == k);
                },
                None => {
                    assert(found is None);
                },
            }
        }
        match found {
            Some(f) => {
                r.push((i, f));
                proof {
                    assert(r@.map_values(|p: (usize, usize)| (p.0 as int, p.1 as int)) =~= before.map_values(
                        |p: (usize, usize)| (p.0 as int, p.1 as int),
                    ).push((i as int, f as int)));
                }
            },
            None => {},
        }
        i = i + 1;
    }
    assert(views.take(kinds@.len() as int) =~= views);
    r
}

/// A register that a measurement stream reads: an id register or a
/// measurement register.
#[derive(Debug)]
pub enum StreamParser {
    Id(IdRegister<RegisterKindStorage>),
    Measurement(MeasurementRegister<RegisterKindStorage>),
}

/// A register read by a measurement stream, before its reading is
/// finished.
#[derive(Debug)]
pub enum StreamReading {
    Id(IdRegister<Reading>),
    Measurement(MeasurementRegister<Reading>),
}

impl Span for StreamParser {
    open spec fn span_address(&self) -> u16 {
        match self {
            StreamParser::Id(r) => r.span_address(),
            StreamParser::Measurement(r) => r.span_address(),
        }
    }

    open spec fn span_quantity(&self) -> u16 {
        match self {
            StreamParser::Id(r) => r.span_quantity(),
            StreamParser::Measurement(r) => r.span_quantity(),
        }
    }

    fn address(&self) -> (r: u16) {
        match self {
            StreamParser::Id(r) => r.address(),
            StreamParser::Measurement(r) => r.address(),
        }
    }

    fn quantity(&self) -> (r: u16) {
        match self {
            StreamParser::Id(r) => r.quantity(),
            StreamParser::Measurement(r) => r.quantity(),
        }
    }
}

impl SpanParser for StreamParser {
    type Parsed = StreamReading;

    open spec fn parse_result(&self, data: Seq<u16>, timestamp: Timestamp) -> Result<(), ParseError> {
        match self {
            StreamParser::Id(r) => r.parse_result(data, timestamp),
            StreamParser::Measurement(r) => r.parse_result(data, timestamp),
        }
    }

    open spec fn parsed_from(&self, data: Seq<u16>, timestamp: Timestamp, parsed: StreamReading) -> bool {
        match (self, parsed) {
            (StreamParser::Id(r), StreamReading::Id(p)) => r.parsed_from(data, timestamp, p),
            (StreamParser::Measurement(r), StreamReading::Measurement(p)) => r.parsed_from(
                data,
                timestamp,
                p,
            ),
            _ => false,
        }
    }

    open spec fn parser_wf(&self) -> bool {
        match self {
            StreamParser::Id(r) => r.parser_wf(),
            StreamParser::Measurement(r) => r.parser_wf(),
        }
    }

    fn parse_with_timestamp(&self, data: &[u16], timestamp: Timestamp) -> (r: Result<
        StreamReading,
        ParseError,
    >) {
        match self {
            StreamParser::Id(p) => match p.parse_with_timestamp(data, timestamp) {
                Ok(x) => Ok(StreamReading::Id(x)),
                Err(e) => Err(e),
            },
            StreamParser::Measurement(p) => match p.parse_with_timestamp(data, timestamp) {
                Ok(x) => Ok(StreamReading::Measurement(x)),
                Err(e) => Err(e),
            },
        }
    }
}

impl StreamReading {
    /// The reading's own validity.
    pub open spec fn wf(&self) -> bool {
        match self {
            StreamReading::Id(r) => r.storage.wf(),
            StreamReading::Measurement(r) => r.storage.wf(),
        }
    }

    /// The reading of a floating point register, whose decimal is still to
    /// be computed.
    pub fn float(&self) -> (f: Option<FloatReading>)
        ensures
            f is Some <==> match self {
                StreamReading::Id(r) => r.storage is Float,
                StreamReading::Measurement(r) => r.storage is Float,
            },
    {
        let storage = match self {
            StreamReading::Id(r) => &r.storage,
            StreamReading::Measurement(r) => &r.storage,
        };
        match storage {
            Reading::Float(f) => Some(*f),
            Reading::Value(_) => None,
        }
    }

    /// Finishes the reading (see [`finish_spec`]), keeping the register's
    /// address and name.
    pub fn finish(self, float_decimal: Option<DecimalValue>) -> (r: Result<StreamRegister, ParseError>)
        requires
            self.wf(),
            option_decimal_wf(float_decimal),
        ensures
            match r {
                Ok(StreamRegister::Id(reg)) => match self {
                    StreamReading::Id(p) => reg.address == p.address && finished_storage(
                        p.storage@,
                        float_decimal,
                        reg.storage,
                    ),
                    StreamReading::Measurement(_) => false,
                },
                Ok(StreamRegister::Measurement(reg)) => match self {
                    StreamReading::Measurement(p) => reg.address == p.address && reg.name@ == p.name@
                        && finished_storage(p.storage@, float_decimal, reg.storage),
                    StreamReading::Id(_) => false,
                },
                Err(e) => match self {
                    StreamReading::Id(p) => finish_spec(p.storage@, option_parts(float_decimal))
                        == Err::<StorageView, ParseError>(e),
                    StreamReading::Measurement(p) => finish_spec(
                        p.storage@,
                        option_parts(float_decimal),
                    ) == Err::<StorageView, ParseError>(e),
                },
            },
    {
        match self {
            StreamReading::Id(p) => match p.finish(float_decimal) {
                Ok(reg) => Ok(StreamRegister::Id(reg)),
                Err(e) => Err(e),
            },
            StreamReading::Measurement(p) => match p.finish(float_decimal) {
                Ok(reg) => Ok(StreamRegister::Measurement(reg)),
                Err(e) => Err(e),
            },
        }
    }
}

/// True when `p` reads the measurement register `m`.
pub open spec fn reads_measurement(p: StreamParser, m: MeasurementRegister<RegisterKindStorage>) -> bool {
    match p {
        StreamParser::Measurement(r) => r.address == m.address && r.storage == m.storage && r.name@
            == m.name@,
        StreamParser::Id(_) => false,
    }
}

/// True when `p` reads the id register `m`.
pub open spec fn reads_id(p: StreamParser, m: IdRegister<RegisterKindStorage>) -> bool {
    match p {
        StreamParser::Id(r) => r.address == m.address && r.storage == m.storage,
        StreamParser::Measurement(_) => false,
    }
}

/// The registers a measurement stream reads for a device kind: its
/// measurement registers, then its id registers.
pub fn measurement_parsers(
    ids: &Vec<IdRegister<RegisterKindStorage>>,
    measurements: &Vec<MeasurementRegister<RegisterKindStorage>>,
) -> (r: Vec<StreamParser>)
    ensures
        r@.len() == measurements@.len() + ids@.len(),
        forall|i: int|
            0 <= i < measurements@.len() ==> reads_measurement(#[trigger] r@[i], measurements@[i]),
        forall|i: int|
            0 <= i < ids@.len() ==> reads_id(#[trigger] r@[measurements@.len() + i], ids@[i]),
{
    let mut r: Vec<StreamParser> = Vec::new();
    let mut i: usize = 0;
    while i < measurements.len()
        invariant
            i <= measurements@.len(),
            r@.len() == i,
            forall|j: int| 0 <= j < i ==> reads_measurement(#[trigger] r@[j], measurements@[j]),
        decreases measurements@.len() - i,
    {
        let m = &measurements[i];
        r.push(
            StreamParser::Measurement(
                MeasurementRegister { address: m.address, storage: m.storage, name: copy_string(&m.name) },
            ),
        );
        i = i + 1;
    }
    let mut k: usize = 0;
    while k < ids.len()
        invariant
            k <= ids@.len(),
            r@.len() == measurements@.len() + k,
            forall|j: int|
                0 <= j < measurements@.len() ==> reads_measurement(#[trigger] r@[j], measurements@[j]),
            forall|j: int| 0 <= j < k ==> reads_id(#[trigger] r@[measurements@.len() + j], ids@[j]),
        decreases ids@.len() - k,
    {
        let m = &ids[k];
        r.push(StreamParser::Id(IdRegister { address: m.address, storage: m.storage }));
        k = k + 1;
    }
    r
}

} // verus!
