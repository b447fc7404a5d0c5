//! Decisions of the task that serves a Modbus server: request queues kept
//! in slave order, partial reads and their retries, stream generations, and
//! the assembly of parsed responses.

use vstd::prelude::*;

use crate::batch::{first_error, span_data, Batch};
use crate::register::{ParseError, Timestamp};
use crate::span::{SimpleSpan, Span, SpanParser};
use crate::record::{Record, SimpleRecord};

verus! {

/// Why connecting to a device failed.
#[derive(Debug)]
pub enum ConnectError {
    /// The transport failed, with the error's text.
    Connect(String),
    /// The slave number is outside the device range.
    Slave,
}

/// Why a request to a server's task failed.
#[derive(Debug)]
pub enum SendError {
    FailedToConnect(ConnectError),
    /// The channel closed before the request finished, with the error's text.
    ChannelDisconnected(String),
}

/// Why reading from a server failed.
#[derive(Debug)]
pub enum ServerReadError {
    FailedToConnect(ConnectError),
    ServerFailed(String),
    ParsingFailed(ParseError),
}

/// Why writing to a server failed.
#[derive(Debug)]
pub enum ServerWriteError {
    FailedToConnect(ConnectError),
    ServerFailed(String),
}

/// Why streaming from a server failed.
#[derive(Debug)]
pub enum ServerStreamError {
    ServerFailed(String),
}

/// Why streaming from a registered device failed.
#[derive(Debug)]
pub enum DeviceStreamError {
    DeviceNotFound(String),
    ServerStream(ServerStreamError),
}

/// Why reading from a registered device failed.
#[derive(Debug)]
pub enum DeviceReadError {
    DeviceNotFound(String),
    ServerRead(ServerReadError),
}

/// Why writing to a registered device failed.
#[derive(Debug)]
pub enum DeviceWriteError {
    DeviceNotFound(String),
    ServerWrite(ServerWriteError),
}

/// Registers read for one request, with the time they were read.
#[derive(Debug)]
pub struct ReadResponseEntry {
    pub inner: Vec<u16>,
    pub timestamp: Timestamp,
}

/// Order of optional slave numbers: no slave first, then by number.
pub open spec fn slave_le(a: Option<u8>, b: Option<u8>) -> bool {
    match (a, b) {
        (None, _) => true,
        (Some(_), None) => false,
        (Some(x), Some(y)) => x <= y,
    }
}

/// True when the slaves are in order.
pub open spec fn slaves_sorted(s: Seq<Option<u8>>) -> bool {
    forall|i: int, j: int| 0 <= i <= j < s.len() ==> slave_le(s[i], s[j])
}

fn slave_lt(a: Option<u8>, b: Option<u8>) -> (r: bool)
    ensures
        r == !slave_le(b, a),
{
    match (a, b) {
        (None, None) => false,
        (None, Some(_)) => true,
        (Some(_), None) => false,
        (Some(x), Some(y)) => x < y,
    }
}

/// Where a request for `slave` goes in a queue kept in slave order: after
/// every request for a smaller slave and before the others.
pub fn insertion_index(slaves: &Vec<Option<u8>>, slave: Option<u8>) -> (p: usize)
    requires
        slaves_sorted(slaves@),
    ensures
        p <= slaves@.len(),
        forall|j: int| 0 <= j < p ==> !slave_le(slave, #[trigger] slaves@[j]),
        forall|j: int| p <= j < slaves@.len() ==> slave_le(slave, #[trigger] slaves@[j]),
{
    let n = slaves.len();
    let mut p: usize = 0;
    while p < n && slave_lt(slaves[p], slave)
        invariant
            p <= n,
            n == slaves@.len(),
            forall|j: int| 0 <= j < p ==> !slave_le(slave, #[trigger] slaves@[j]),
        decreases n - p,
    {
        p = p + 1;
    }
    proof {
        assert forall|j: int| p <= j < slaves@.len() implies slave_le(slave, #[trigger] slaves@[j]) by {
            assert(slave_le(slaves@[p as int], slaves@[j]));
            assert(slave_le(slave, slaves@[p as int]));
        }
    }
    p
}

/// Law: inserting a request where [`insertion_index`] says keeps the queue
/// in slave order and adds exactly that request.
pub proof fn law_insertion_keeps_order(slaves: Seq<Option<u8>>, slave: Option<u8>, p: int)
    requires
        slaves_sorted(slaves),
        0 <= p <= slaves.len(),
        forall|j: int| 0 <= j < p ==> !slave_le(slave, #[trigger] slaves[j]),
        forall|j: int| p <= j < slaves.len() ==> slave_le(slave, #[trigger] slaves[j]),
    ensures
        slaves_sorted(slaves.insert(p, slave)),
        slaves.insert(p, slave).to_multiset() == slaves.to_multiset().insert(slave),
{
    broadcast use vstd::seq_lib::group_to_multiset_ensures;

    let t = slaves.insert(p, slave);
    assert forall|i: int, j: int| 0 <= i <= j < t.len() implies slave_le(t[i], t[j]) by {
        if i < p && j < p {
        } else if i < p && j == p {
        } else if i < p && j > p {
            assert(t[j] == slaves[j - 1]);
        } else if i == p && j > p {
            assert(t[j] == slaves[j - 1]);
        } else if i > p {
            assert(t[i] == slaves[i - 1]);
            assert(t[j] == slaves[j - 1]);
        }
    }
}

/// Generation of a new request: the newest generation among the streams, or
/// zero when there is no stream.
pub open spec fn max_generation_spec(generations: Seq<u64>) -> u64
    decreases generations.len(),
{
    if generations.len() == 0 {
        0
    } else {
        let rest = max_generation_spec(generations.drop_last());
        if generations.last() > rest {
            generations.last()
        } else {
            rest
        }
    }
}

/// Generation of a new request (see [`max_generation_spec`]).
pub fn max_generation(generations: &Vec<u64>) -> (g: u64)
    ensures
        g == max_generation_spec(generations@),
{
    let mut g: u64 = 0;
    let mut i: usize = 0;
    while i < generations.len()
        invariant
            i <= generations@.len(),
            g == max_generation_spec(generations@.take(i as int)),
        decreases generations@.len() - i,
    {
        assert(generations@.take(i + 1).drop_last() =~= generations@.take(i as int));
        if generations[i] > g {
            g = generations[i];
        }
        i = i + 1;
    }
    assert(generations@.take(generations@.len() as int) =~= generations@);
    g
}

/// The oldest generation among the streams, which is the one served next;
/// none when there is no stream.
pub fn min_generation(generations: &Vec<u64>) -> (g: Option<u64>)
    ensures
        g is None <==> generations@.len() == 0,
        g matches Some(m) ==> generations@.contains(m) && forall|i: int|
            0 <= i < generations@.len() ==> m <= #[trigger] generations@[i],
{
    if generations.len() == 0 {
        return None;
    }
    let mut m = generations[0];
    let mut i: usize = 1;
    while i < generations.len()
        invariant
            1 <= i <= generations@.len(),
            generations@.contains(m),
            forall|j: int| 0 <= j < i ==> m <= #[trigger] generations@[j],
        decreases generations@.len() - i,
    {
        if generations[i] < m {
            m = generations[i];
        }
        i = i + 1;
    }
    Some(m)
}

/// What a stream does in a pass of the task.
#[derive(Clone, Copy, Debug, PartialEq, Eq, Structural)]
pub enum StreamStep {
    /// The stream is ahead of the generation being served.
    Skip,
    /// The stream ran out of retries: it starts over in the next generation.
    Reset,
    /// The stream reads its missing spans.
    Read,
}

/// What a stream does in a pass that serves generation `serving`.
pub open spec fn stream_step_spec(generation: u64, serving: u64, retries: u32, partial_retries: u32) -> StreamStep {
    if generation != serving {
        StreamStep::Skip
    } else if retries > partial_retries {
        StreamStep::Reset
    } else {
        StreamStep::Read
    }
}

/// What a stream does in a pass (see [`stream_step_spec`]).
pub fn stream_step(generation: u64, serving: u64, retries: u32, partial_retries: u32) -> (s: StreamStep)
    ensures
        s == stream_step_spec(generation, serving, retries, partial_retries),
{
    if generation != serving {
        StreamStep::Skip
    } else if retries > partial_retries {
        StreamStep::Reset
    } else {
        StreamStep::Read
    }
}

/// The generation a stream moves to after a reset or a delivered response.
pub fn next_generation(generation: u64) -> (g: u64)
    ensures
        g == if generation == u64::MAX {
            u64::MAX
        } else {
            (generation + 1) as u64
        },
{
    generation.saturating_add(1)
}

/// The result of a pass over a request's spans: every span read, or the
/// slots read so far with one more retry counted.
#[derive(Debug)]
pub enum Attempt<T> {
    Complete(Vec<T>),
    Partial { slots: Vec<Option<T>>, retries: u32 },
}

/// True when every slot holds a value.
pub open spec fn all_filled<T>(slots: Seq<Option<T>>) -> bool {
    forall|i: int| 0 <= i < slots.len() ==> #[trigger] slots[i] is Some
}

/// Concludes a pass over a request's spans: complete, with the values in
/// order, when every slot holds a value; partial otherwise, with the retry
/// count increased (saturating).
pub fn conclude_attempt<T>(slots: Vec<Option<T>>, retries: u32) -> (r: Attempt<T>)
    ensures
        all_filled(slots@) ==> (r matches Attempt::Complete(values) && values@.len() == slots@.len()
            && forall|i: int| 0 <= i < slots@.len() ==> slots@[i] == Some(#[trigger] values@[i])),
        !all_filled(slots@) ==> (r matches Attempt::Partial { slots: s, retries: n } && s@
            == slots@ && n == (if retries == u32::MAX {
            u32::MAX
        } else {
            (retries + 1) as u32
        })),
{
    let n = slots.len();
    let mut filled = true;
    let mut i: usize = 0;
    while i < n
        invariant
            i <= n,
            n == slots@.len(),
            filled <==> forall|j: int| 0 <= j < i ==> #[trigger] slots@[j] is Some,
        decreases n - i,
    {
        if slots[i].is_none() {
            filled = false;
        }
        i = i + 1;
    }
    if !filled {
        return Attempt::Partial { slots, retries: retries.saturating_add(1) };
    }
    let ghost all = slots@;
    let mut rest = slots;
    let mut values: Vec<T> = Vec::new();
    while rest.len() > 0
        invariant
            all_filled(all),
            values@.len() + rest@.len() == all.len(),
            rest@ == all.skip(values@.len() as int),
            forall|j: int| 0 <= j < values@.len() ==> all[j] == Some(#[trigger] values@[j]),
        decreases rest@.len(),
    {
        let ghost k = values@.len();
        let slot = rest.remove(0);
        assert(slot == all[k as int]);
        assert(all[k as int] is Some);
        match slot {
            Some(v) => {
                values.push(v);
            },
            None => {},
        }
        assert(rest@ =~= all.skip(values@.len() as int));
    }
    Attempt::Complete(values)
}

/// The bare spans of a request.
pub fn to_simple_spans<T: Span>(spans: &Vec<T>) -> (r: Vec<SimpleSpan>)
    ensures
        r@.len() == spans@.len(),
        forall|i: int|
            0 <= i < spans@.len() ==> (#[trigger] r@[i]).address == spans@[i].span_address()
                && r@[i].quantity == spans@[i].span_quantity(),
{
    let mut r: Vec<SimpleSpan> = Vec::new();
    let mut i: usize = 0;
    while i < spans.len()
        invariant
            i <= spans@.len(),
            r@.len() == i,
            forall|j: int|
                0 <= j < i ==> (#[trigger] r@[j]).address == spans@[j].span_address()
                    && r@[j].quantity == spans@[j].span_quantity(),
        decreases spans@.len() - i,
    {
        r.push(SimpleSpan { address: spans[i].address(), quantity: spans[i].quantity() });
        i = i + 1;
    }
    r
}

/// The bare records of a write request.
pub fn to_simple_records<T: Record>(records: &Vec<T>) -> (r: Vec<SimpleRecord>)
    requires
        forall|i: int| 0 <= i < records@.len() ==> #[trigger] records@[i].record_wf(),
    ensures
        r@.len() == records@.len(),
        forall|i: int|
            0 <= i < records@.len() ==> (#[trigger] r@[i]).address == records@[i].span_address()
                && r@[i].values@ == records@[i].record_values(),
{
    let mut r: Vec<SimpleRecord> = Vec::new();
    let mut i: usize = 0;
    while i < records.len()
        invariant
            i <= records@.len(),
            r@.len() == i,
            forall|k: int| 0 <= k < records@.len() ==> #[trigger] records@[k].record_wf(),
            forall|j: int|
                0 <= j < i ==> (#[trigger] r@[j]).address == records@[j].span_address()
                    && r@[j].values@ == records@[j].record_values(),
        decreases records@.len() - i,
    {
        r.push(SimpleRecord { address: records[i].address(), values: records[i].values() });
        i = i + 1;
    }
    r
}

/// The read error that a failed request turns into.
pub fn read_error_from_send(error: SendError) -> (r: ServerReadError)
    ensures
        match error {
            SendError::FailedToConnect(c) => r == ServerReadError::FailedToConnect(c),
            SendError::ChannelDisconnected(m) => r matches ServerReadError::ServerFailed(t) && t@ == m@,
        },
{
    match error {
        SendError::FailedToConnect(e) => ServerReadError::FailedToConnect(e),
        SendError::ChannelDisconnected(m) => ServerReadError::ServerFailed(m),
    }
}

/// The write error that a failed request turns into.
pub fn write_error_from_send(error: SendError) -> (r: ServerWriteError)
    ensures
        match error {
            SendError::FailedToConnect(c) => r == ServerWriteError::FailedToConnect(c),
            SendError::ChannelDisconnected(m) => r matches ServerWriteError::ServerFailed(t) && t@ == m@,
        },
{
    match error {
        SendError::FailedToConnect(e) => ServerWriteError::FailedToConnect(e),
        SendError::ChannelDisconnected(m) => ServerWriteError::ServerFailed(m),
    }
}

/// The parse jobs of the batches before `k`: each span of each batch, with
/// the registers it covers and the time they were read.
pub open spec fn parse_jobs<P: SpanParser>(
    batches: Seq<Batch<P>>,
    data: Seq<ReadResponseEntry>,
    k: int,
) -> Seq<(P, Seq<u16>, Timestamp)>
    decreases k,
{
    if k <= 0 {
        Seq::empty()
    } else {
        parse_jobs(batches, data, k - 1) + batches[k - 1].inner@.map_values(
            |x: P| (x, span_data(batches[k - 1].address, x, data[k - 1].inner@), data[k - 1].timestamp),
        )
    }
}

/// The first batch error among the batches before `k`, if any.
pub open spec fn first_batch_error<P: SpanParser>(
    batches: Seq<Batch<P>>,
    data: Seq<ReadResponseEntry>,
    k: int,
) -> Result<(), ParseError>
    decreases k,
{
    if k <= 0 {
        Ok(())
    } else {
        match first_batch_error(batches, data, k - 1) {
            Err(e) => Err(e),
            Ok(_) => first_error(
                batches[k - 1].address,
                batches[k - 1].inner@,
                data[k - 1].inner@,
                data[k - 1].timestamp,
                0,
            ),
        }
    }
}

/// Number of batch and response pairs: the shorter of the two.
pub open spec fn pair_count(batches: nat, data: nat) -> int {
    if batches < data {
        batches as int
    } else {
        data as int
    }
}

/// Parses the registers that a server read for batches: batch `i` parses
/// response `i` (extra batches or responses are ignored), the first error
/// stops, and the parsed spans come out batch after batch.
pub fn parse_read_response<P: SpanParser>(
    result: Result<Vec<ReadResponseEntry>, SendError>,
    batches: &Vec<Batch<P>>,
) -> (r: Result<Vec<P::Parsed>, ServerReadError>)
    requires
        forall|i: int, j: int|
            0 <= i < batches@.len() && 0 <= j < batches@[i].inner@.len() ==> (
            #[trigger] batches@[i].inner@[j]).parser_wf(),
        result matches Ok(data) ==> forall|i: int|
            0 <= i < pair_count(batches@.len(), data@.len()) ==> 2 * (#[trigger] data@[i]).inner@.len()
                <= usize::MAX,
        result matches Ok(data) ==> forall|i: int|
            0 <= i < pair_count(batches@.len(), data@.len()) && first_batch_error(batches@, data@, i)
                is Ok ==> (#[trigger] batches@[i]).data_covers(data@[i].inner@, data@[i].timestamp),
    ensures
        match result {
            Err(SendError::FailedToConnect(c)) => r == Err::<Vec<P::Parsed>, ServerReadError>(
                ServerReadError::FailedToConnect(c),
            ),
            Err(SendError::ChannelDisconnected(m)) => r matches Err(ServerReadError::ServerFailed(t))
                && t@ == m@,
            Ok(data) => {
                let k = pair_count(batches@.len(), data@.len());
                match first_batch_error(batches@, data@, k) {
                    Err(e) => r == Err::<Vec<P::Parsed>, ServerReadError>(
                        ServerReadError::ParsingFailed(e),
                    ),
                    Ok(_) => r matches Ok(out) && out@.len() == parse_jobs(batches@, data@, k).len()
                        && forall|f: int|
                        0 <= f < out@.len() ==> (#[trigger] parse_jobs(batches@, data@, k)[f]).0.parsed_from(
                            parse_jobs(batches@, data@, k)[f].1,
                            parse_jobs(batches@, data@, k)[f].2,
                            out@[f],
                        ),
                }
            },
        },
{
    let data = match result {
        Ok(data) => data,
        Err(e) => {
            return Err(read_error_from_send(e));
        },
    };
    assert(result == Ok::<Vec<ReadResponseEntry>, SendError>(data));
    let k: usize = if batches.len() < data.len() {
        batches.len()
    } else {
        data.len()
    };
    let mut out: Vec<P::Parsed> = Vec::new();
    let mut i: usize = 0;
    while i < k
        invariant
            result == Ok::<Vec<ReadResponseEntry>, SendError>(data),
            i <= k,
            k == pair_count(batches@.len(), data@.len()),
            forall|a: int, b: int|
                0 <= a < batches@.len() && 0 <= b < batches@[a].inner@.len() ==> (
                #[trigger] batches@[a].inner@[b]).parser_wf(),
            forall|a: int| 0 <= a < k ==> 2 * (#[trigger] data@[a]).inner@.len() <= usize::MAX,
            forall|a: int|
                0 <= a < k && first_batch_error(batches@, data@, a) is Ok ==> (
                #[trigger] batches@[a]).data_covers(data@[a].inner@, data@[a].timestamp),
            first_batch_error(batches@, data@, i as int) is Ok,
            out@.len() == parse_jobs(batches@, data@, i as int).len(),
            forall|f: int|
                0 <= f < out@.len() ==> (#[trigger] parse_jobs(batches@, data@, i as int)[f]).0.parsed_from(
                    parse_jobs(batches@, data@, i as int)[f].1,
                    parse_jobs(batches@, data@, i as int)[f].2,
                    out@[f],
                ),
        decreases k - i,
    {
        let batch = &batches[i];
        let entry = &data[i];
        assert(forall|b: int| 0 <= b < batch.inner@.len() ==> #[trigger] batch.inner@[b].parser_wf()) by {
            assert forall|b: int| 0 <= b < batch.inner@.len() implies #[trigger] batch.inner@[b].parser_wf() by {
                assert(batches@[i as int].inner@[b].parser_wf());
            }
        }
        let parsed = batch.parse_with_timestamp(entry.inner.as_slice(), entry.timestamp);
        match parsed {
            Err(e) => {
                proof {
                    assert(first_batch_error(batches@, data@, i + 1) == Err::<(), ParseError>(e));
                    lemma_first_batch_error_stops(batches@, data@, i as int + 1, k as int);
                    assert(first_batch_error(batches@, data@, k as int) == Err::<(), ParseError>(e));
                }
                return Err(ServerReadError::ParsingFailed(e));
            },
            Ok(b) => {
                let ghost before = out@;
                let ghost jobs = parse_jobs(batches@, data@, i as int);
                let ghost added = batches@[i as int].inner@.map_values(
                    |x: P|
                        (
                            x,
                            span_data(batches@[i as int].address, x, data@[i as int].inner@),
                            data@[i as int].timestamp,
                        ),
                );
                let mut inner = b.inner;
                out.append(&mut inner);
                proof {
                    assert(parse_jobs(batches@, data@, i + 1) == jobs + added);
                    assert forall|f: int| 0 <= f < out@.len() implies (#[trigger] parse_jobs(
                        batches@,
                        data@,
                        i + 1,
                    )[f]).0.parsed_from(
                        parse_jobs(batches@, data@, i + 1)[f].1,
                        parse_jobs(batches@, data@, i + 1)[f].2,
                        out@[f],
                    ) by {
                        if f < before.len() {
                            assert(parse_jobs(batches@, data@, i + 1)[f] == jobs[f]);
                        } else {
                            assert(parse_jobs(batches@, data@, i + 1)[f] == added[f - before.len()]);
                        }
                    }
                }
            },
        }
        i = i + 1;
    }
    Ok(out)
}

proof fn lemma_first_batch_error_stops<P: SpanParser>(
    batches: Seq<Batch<P>>,
    data: Seq<ReadResponseEntry>,
    i: int,
    k: int,
)
    requires
        1 <= i <= k,
        first_batch_error(batches, data, i) is Err,
    ensures
        first_batch_error(batches, data, k) == first_batch_error(batches, data, i),
    decreases k - i,
{
    if k > i {
        lemma_first_batch_error_stops(batches, data, i, k - 1);
    }
}

/// The times at which the records of a write request were written.
pub fn write_timestamps(entries: &Vec<Timestamp>) -> (r: Vec<Timestamp>)
    ensures
        r@ == entries@,
{
    let mut r: Vec<Timestamp> = Vec::new();
    let mut i: usize = 0;
    while i < entries.len()
        invariant
            i <= entries@.len(),
            r@ =~= entries@.take(i as int),
        decreases entries@.len() - i,
    {
        r.push(entries[i]);
        i = i + 1;
    }
    assert(entries@.take(entries@.len() as int) =~= entries@);
    r
}

/// A request that reaches a server's task.
#[derive(Clone, Copy, Debug, PartialEq, Eq, Structural)]
pub enum Incoming {
    Read,
    Stream,
    Write,
    Terminate,
}

/// What the task does with an incoming request: whether it queues it,
/// whether the task is terminating afterwards, and whether its streams are
/// dropped.
#[derive(Clone, Copy, Debug, PartialEq, Eq, Structural)]
pub struct Admission {
    pub queue: bool,
    pub terminating: bool,
    pub drop_streams: bool,
}

/// What the task does with an incoming request: a terminate request makes
/// it terminate and drops its streams; reads, streams and writes are queued
/// unless it is terminating.
pub fn accept_request(terminating: bool, incoming: Incoming) -> (a: Admission)
    ensures
        a.terminating == (terminating || incoming == Incoming::Terminate),
        a.queue == (!terminating && incoming != Incoming::Terminate),
        a.drop_streams == (incoming == Incoming::Terminate),
{
    match incoming {
        Incoming::Terminate => Admission { queue: false, terminating: true, drop_streams: true },
        _ => Admission { queue: !terminating, terminating, drop_streams: false },
    }
}

/// The generation of streams served in a pass: none while terminating or
/// without streams, the oldest generation otherwise.
pub fn served_generation(terminating: bool, generations: &Vec<u64>) -> (g: Option<u64>)
    ensures
        terminating ==> g is None,
        !terminating ==> (g is None <==> generations@.len() == 0),
        g matches Some(m) ==> generations@.contains(m) && forall|i: int|
            0 <= i < generations@.len() ==> m <= #[trigger] generations@[i],
{
    if terminating {
        None
    } else {
        min_generation(generations)
    }
}

/// The positions of the slots still to be read, in order.
pub fn pending_slots<T>(slots: &Vec<Option<T>>) -> (r: Vec<usize>)
    ensures
        forall|k: int| 0 <= k < r@.len() ==> (#[trigger] r@[k]) < slots@.len() && slots@[r@[k] as int] is None,
        forall|k: int, l: int| 0 <= k < l < r@.len() ==> r@[k] < r@[l],
        forall|i: int| 0 <= i < slots@.len() && (#[trigger] slots@[i]) is None ==> r@.contains(i as usize),
{
    let mut r: Vec<usize> = Vec::new();
    let mut i: usize = 0;
    while i < slots.len()
        invariant
            i <= slots@.len(),
            forall|k: int| 0 <= k < r@.len() ==> (#[trigger] r@[k]) < i && slots@[r@[k] as int] is None,
            forall|k: int, l: int| 0 <= k < l < r@.len() ==> r@[k] < r@[l],
            forall|j: int| 0 <= j < i && (#[trigger] slots@[j]) is None ==> r@.contains(j as usize),
        decreases slots@.len() - i,
    {
        if slots[i].is_none() {
            let ghost before = r@;
            r.push(i);
            proof {
                assert forall|j: int| 0 <= j <= i && (#[trigger] slots@[j]) is None implies r@.contains(
                    j as usize,
                ) by {
                    if j < i {
                        let k = choose|k: int| 0 <= k < before.len() && before[k] == j as usize;
                        assert(r@[k] == j as usize);
                    } else {
                        assert(r@[before.len() as int] == i);
                    }
                }
            }
        }
        i = i + 1;
    }
    r
}

/// Whether the task waits before its next request after one failed: it
/// does after a read failure in which the server sent invalid data (a sign
/// of congestion on the line).
pub fn backs_off(failure: crate::connection::RequestFailure, invalid_data: bool) -> (r: bool)
    ensures
        r == (failure == crate::connection::RequestFailure::Read && invalid_data),
{
    match failure {
        crate::connection::RequestFailure::Read => invalid_data,
        _ => false,
    }
}

/// The items that are not marked for removal, in order.
pub open spec fn unmarked<T>(items: Seq<T>, remove: Seq<bool>) -> Seq<T>
    decreases items.len(),
{
    if items.len() == 0 {
        Seq::empty()
    } else {
        let rest = unmarked(items.drop_last(), remove);
        if remove[items.len() - 1] {
            rest
        } else {
            rest.push(items.last())
        }
    }
}

/// Drops the items marked for removal, keeping the others in order.
pub fn retain_unmarked<T>(items: Vec<T>, remove: &Vec<bool>) -> (r: Vec<T>)
    requires
        remove@.len() == items@.len(),
    ensures
        r@ == unmarked(items@, remove@),
{
    let ghost source = items@;
    let count = items.len();
    let mut rest = items;
    let mut kept: Vec<T> = Vec::new();
    let mut i: usize = 0;
    while rest.len() > 0
        invariant
            source.len() == count,
            remove@.len() == count,
            i + rest@.len() == count,
            rest@ == source.subrange(i as int, count as int),
            kept@ == unmarked(source.take(i as int), remove@),
        decreases rest@.len(),
    {
        let item = rest.remove(0);
        assert(source.take(i + 1).drop_last() =~= source.take(i as int));
        assert(source.take(i + 1).last() == source[i as int]);
        if !remove[i] {
            kept.push(item);
        }
        i = i + 1;
    }
    assert(source.take(count as int) =~= source);
    kept
}

proof fn lemma_unmarked_from<T>(items: Seq<T>, remove: Seq<bool>)
    ensures
        unmarked(items, remove).len() <= items.len(),
        forall|i: int|
            0 <= i < unmarked(items, remove).len() ==> exists|j: int|
                0 <= j < items.len() && #[trigger] unmarked(items, remove)[i] == items[j],
    decreases items.len(),
{
    if items.len() > 0 {
        let rest = items.drop_last();
        lemma_unmarked_from(rest, remove);
        let u = unmarked(items, remove);
        assert forall|i: int| 0 <= i < u.len() implies exists|j: int|
            0 <= j < items.len() && #[trigger] u[i] == items[j] by {
            if i < unmarked(rest, remove).len() {
                let j = choose|j: int| 0 <= j < rest.len() && unmarked(rest, remove)[i] == rest[j];
                assert(u[i] == items[j]);
            } else {
                assert(u[i] == items[items.len() - 1]);
            }
        }
    }
}

/// Law: dropping finished requests keeps a queue in slave order.
pub proof fn law_removal_keeps_order(slaves: Seq<Option<u8>>, remove: Seq<bool>)
    requires
        slaves_sorted(slaves),
        remove.len() == slaves.len(),
    ensures
        slaves_sorted(unmarked(slaves, remove)),
{
    lemma_unmarked_sorted(slaves, remove);
}

proof fn lemma_unmarked_sorted(slaves: Seq<Option<u8>>, remove: Seq<bool>)
    requires
        slaves_sorted(slaves),
        remove.len() >= slaves.len(),
    ensures
        slaves_sorted(unmarked(slaves, remove)),
    decreases slaves.len(),
{
    if slaves.len() > 0 {
        let rest = slaves.drop_last();
        assert(slaves_sorted(rest)) by {
            assert forall|i: int, j: int| 0 <= i <= j < rest.len() implies slave_le(rest[i], rest[j]) by {
                assert(rest[i] == slaves[i] && rest[j] == slaves[j]);
            }
        }
        lemma_unmarked_sorted(rest, remove);
        lemma_unmarked_from(rest, remove);
        let kept = unmarked(rest, remove);
        if !remove[slaves.len() - 1] {
            let u = kept.push(slaves.last());
            assert forall|i: int, j: int| 0 <= i <= j < u.len() implies slave_le(u[i], u[j]) by {
                if j == u.len() - 1 && i < j {
                    let k = choose|k: int| 0 <= k < rest.len() && kept[i] == rest[k];
                    assert(slaves[k] == rest[k]);
                }
            }
        }
    }
}

} // verus!
