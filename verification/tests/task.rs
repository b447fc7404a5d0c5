use pidgeon::cloud::client_settings;
use pidgeon::config::Cloud;
use pidgeon::connection::{Destination, Device};
use pidgeon::record::SimpleRecord;
use pidgeon::register::Timestamp;
use pidgeon::span::SimpleSpan;
use pidgeon::task::{
    empty_slots, read_job_next, stream_event, stream_job_next, Job, JobAction, JobEvent, ReadQueue,
    Request, TaskQueues,
};
use pidgeon::worker::ReadResponseEntry;

fn to(slave: Option<u8>) -> Destination {
    Destination { address: Device::Tcp("10.0.0.1:502".to_string()), slave }
}

fn span(address: u16) -> SimpleSpan {
    SimpleSpan { address, quantity: 2 }
}

fn entry(word: u16) -> ReadResponseEntry {
    ReadResponseEntry { inner: vec![word], timestamp: Timestamp { seconds: 7, nanoseconds: 0 } }
}

fn read(slave: Option<u8>, reply: u32) -> Request<u32, u32> {
    Request::Read { destination: to(slave), spans: vec![span(0), span(10)], stream: false, reply }
}

fn stream(slave: Option<u8>, reply: u32) -> Request<u32, u32> {
    Request::Read { destination: to(slave), spans: vec![span(0)], stream: true, reply }
}

fn replies(queues: &TaskQueues<u32, u32>, which: ReadQueue) -> Vec<u32> {
    (0..queues.read_len(which)).map(|i| queues.read_job(which, i).reply).collect()
}

#[test]
fn empty_slots_hold_nothing() {
    let slots = empty_slots::<u16>(3);
    assert_eq!(slots, vec![None, None, None]);
    assert!(empty_slots::<u16>(0).is_empty());
}

#[test]
fn a_new_job_has_no_slot_read_and_no_retry() {
    let job: Job<SimpleSpan, u16, u32> = Job::new(to(Some(4)), vec![span(0), span(5)], 3, 9);
    assert_eq!(job.slots, vec![None, None]);
    assert_eq!(job.retries, 0);
    assert_eq!(job.generation, 3);
    assert_eq!(job.reply, 9);
    assert_eq!(job.destination.slave, Some(4));
}

#[test]
fn a_job_completes_once_every_slot_is_filled() {
    let mut job: Job<SimpleSpan, u16, u32> = Job::new(to(None), vec![span(0), span(5)], 0, 1);
    job.fill(1, 20);
    assert_eq!(job.slots, vec![None, Some(20)]);
    assert_eq!(job.conclude(), None);
    assert_eq!(job.retries, 1);
    assert_eq!(job.slots, vec![None, Some(20)]);
    job.fill(0, 10);
    assert_eq!(job.conclude(), Some(vec![10, 20]));
    assert_eq!(job.slots, vec![None, None]);
    assert_eq!(job.retries, 1);
}

#[test]
fn retries_and_generations_saturate() {
    let mut job: Job<SimpleSpan, u16, u32> = Job::new(to(None), vec![span(0)], u64::MAX, 1);
    job.retries = u32::MAX;
    assert_eq!(job.conclude(), None);
    assert_eq!(job.retries, u32::MAX);
    job.reset();
    assert_eq!(job.generation, u64::MAX);
    assert_eq!(job.retries, 0);
}

#[test]
fn a_reset_job_starts_over_in_the_next_generation() {
    let mut job: Job<SimpleSpan, u16, u32> = Job::new(to(None), vec![span(0), span(3)], 4, 1);
    job.fill(0, 1);
    job.retries = 6;
    job.reset();
    assert_eq!(job.slots, vec![None, None]);
    assert_eq!(job.retries, 0);
    assert_eq!(job.generation, 5);
}

#[test]
fn reads_leave_once_answered_or_unanswerable() {
    assert_eq!(read_job_next(JobEvent::Disconnected), JobAction::Remove);
    assert_eq!(read_job_next(JobEvent::ConnectFailed), JobAction::Remove);
    assert_eq!(read_job_next(JobEvent::Completed { delivered: true }), JobAction::Remove);
    assert_eq!(read_job_next(JobEvent::Completed { delivered: false }), JobAction::Remove);
    assert_eq!(read_job_next(JobEvent::Incomplete), JobAction::Keep);
    assert_eq!(read_job_next(JobEvent::NotServed), JobAction::Keep);
    assert_eq!(read_job_next(JobEvent::OutOfRetries), JobAction::Keep);
}

#[test]
fn streams_start_over_after_a_delivery() {
    assert_eq!(stream_job_next(JobEvent::Disconnected), JobAction::Remove);
    assert_eq!(stream_job_next(JobEvent::ConnectFailed), JobAction::Remove);
    assert_eq!(stream_job_next(JobEvent::Completed { delivered: true }), JobAction::Reset);
    assert_eq!(stream_job_next(JobEvent::Completed { delivered: false }), JobAction::Remove);
    assert_eq!(stream_job_next(JobEvent::OutOfRetries), JobAction::Reset);
    assert_eq!(stream_job_next(JobEvent::NotServed), JobAction::Keep);
    assert_eq!(stream_job_next(JobEvent::Incomplete), JobAction::Keep);
}

#[test]
fn stream_events_before_any_read() {
    let mut job: Job<SimpleSpan, u16, u32> = Job::new(to(None), vec![span(0)], 2, 1);
    assert_eq!(stream_event(&job, false, 1, 10), Some(JobEvent::Disconnected));
    assert_eq!(stream_event(&job, true, 1, 10), Some(JobEvent::NotServed));
    assert_eq!(stream_event(&job, true, 2, 10), None);
    job.retries = 10;
    assert_eq!(stream_event(&job, true, 2, 10), None);
    job.retries = 11;
    assert_eq!(stream_event(&job, true, 2, 10), Some(JobEvent::OutOfRetries));
}

#[test]
fn received_reads_are_queued_in_slave_order() {
    let mut queues: TaskQueues<u32, u32> = TaskQueues::new();
    assert!(queues.is_idle());
    queues.receive(read(Some(5), 1));
    queues.receive(read(None, 2));
    queues.receive(read(Some(2), 3));
    queues.receive(read(Some(9), 4));
    let slaves: Vec<Option<u8>> =
        (0..queues.read_len(ReadQueue::Reads)).map(|i| queues.read_job(ReadQueue::Reads, i).destination.slave).collect();
    assert_eq!(slaves, vec![None, Some(2), Some(5), Some(9)]);
    assert_eq!(queues.read_len(ReadQueue::Streams), 0);
    let job = queues.read_job(ReadQueue::Reads, 1);
    assert_eq!(job.reply, 3);
    assert_eq!(job.slots.len(), 2);
    assert!(job.slots.iter().all(|slot| slot.is_none()));
    assert_eq!(job.retries, 0);
    assert!(!queues.is_idle());
}

#[test]
fn new_reads_join_the_newest_stream_generation() {
    let mut queues: TaskQueues<u32, u32> = TaskQueues::new();
    queues.receive(stream(Some(1), 1));
    queues.receive(stream(Some(2), 2));
    assert_eq!(queues.served(), Some(0));
    queues.settle_streams(&vec![JobEvent::OutOfRetries, JobEvent::NotServed]);
    assert_eq!(queues.read_job(ReadQueue::Streams, 0).generation, 1);
    assert_eq!(queues.served(), Some(0));
    queues.receive(read(Some(3), 3));
    assert_eq!(queues.read_job(ReadQueue::Reads, 0).generation, 1);
    queues.receive(stream(Some(0), 4));
    assert_eq!(queues.read_job(ReadQueue::Streams, 0).generation, 1);
    assert_eq!(replies(&queues, ReadQueue::Streams), vec![4, 1, 2]);
}

#[test]
fn terminating_drops_streams_and_refuses_requests() {
    let mut queues: TaskQueues<u32, u32> = TaskQueues::new();
    queues.receive(stream(Some(1), 1));
    queues.receive(read(Some(1), 2));
    queues.receive(Request::Terminate);
    assert!(queues.is_terminating());
    assert_eq!(queues.read_len(ReadQueue::Streams), 0);
    assert_eq!(queues.read_len(ReadQueue::Reads), 1);
    assert_eq!(queues.served(), None);
    queues.receive(read(Some(2), 3));
    queues.receive(stream(Some(2), 4));
    queues.receive(Request::Write { destination: to(None), records: vec![], reply: 5 });
    assert_eq!(queues.read_len(ReadQueue::Reads), 1);
    assert_eq!(queues.read_len(ReadQueue::Streams), 0);
    assert_eq!(queues.write_len(), 0);
}

#[test]
fn a_stream_pass_keeps_resets_and_drops_streams() {
    let mut queues: TaskQueues<u32, u32> = TaskQueues::new();
    for reply in 1..=5 {
        queues.receive(stream(Some(reply as u8), reply));
    }
    queues.fill_read(ReadQueue::Streams, 1, 0, entry(11));
    queues.fill_read(ReadQueue::Streams, 2, 0, entry(12));
    queues.fill_read(ReadQueue::Streams, 4, 0, entry(14));
    assert_eq!(queues.conclude_read(ReadQueue::Streams, 4).map(|v| v.len()), Some(1));
    assert!(queues.conclude_read(ReadQueue::Streams, 3).is_none());
    let answer = queues.conclude_read(ReadQueue::Streams, 2).unwrap();
    assert_eq!(answer[0].inner, vec![12]);
    queues.settle_streams(&vec![
        JobEvent::Disconnected,
        JobEvent::NotServed,
        JobEvent::Completed { delivered: true },
        JobEvent::Incomplete,
        JobEvent::Completed { delivered: false },
    ]);
    assert_eq!(replies(&queues, ReadQueue::Streams), vec![2, 3, 4]);
    let kept = queues.read_job(ReadQueue::Streams, 0);
    assert_eq!(kept.generation, 0);
    assert_eq!(kept.slots[0].as_ref().map(|e| e.inner.clone()), Some(vec![11]));
    let reset = queues.read_job(ReadQueue::Streams, 1);
    assert_eq!(reset.generation, 1);
    assert!(reset.slots[0].is_none());
    let partial = queues.read_job(ReadQueue::Streams, 2);
    assert_eq!(partial.generation, 0);
    assert_eq!(partial.retries, 1);
    assert_eq!(queues.served(), Some(0));
}

#[test]
fn a_read_pass_removes_answered_reads() {
    let mut queues: TaskQueues<u32, u32> = TaskQueues::new();
    queues.receive(read(Some(1), 1));
    queues.receive(read(Some(2), 2));
    queues.receive(read(Some(3), 3));
    queues.fill_read(ReadQueue::Reads, 0, 1, entry(5));
    assert!(queues.conclude_read(ReadQueue::Reads, 0).is_none());
    queues.settle_reads(&vec![JobEvent::Incomplete, JobEvent::Completed { delivered: true }, JobEvent::ConnectFailed]);
    assert_eq!(replies(&queues, ReadQueue::Reads), vec![1]);
    let kept = queues.read_job(ReadQueue::Reads, 0);
    assert_eq!(kept.retries, 1);
    assert!(kept.slots[0].is_none());
    assert_eq!(kept.slots[1].as_ref().map(|e| e.inner.clone()), Some(vec![5]));
}

#[test]
fn writes_are_answered_with_their_timestamps() {
    let mut queues: TaskQueues<u32, u32> = TaskQueues::new();
    let record = |address: u16| SimpleRecord { address, values: vec![1, 2] };
    queues.receive(Request::Write { destination: to(Some(7)), records: vec![record(0), record(4)], reply: 1 });
    queues.receive(Request::Write { destination: to(Some(3)), records: vec![record(8)], reply: 2 });
    assert_eq!(queues.write_job(0).reply, 2);
    assert_eq!(queues.write_job(1).generation, 0);
    let at = |seconds: i64| Timestamp { seconds, nanoseconds: 0 };
    queues.fill_write(1, 0, at(1));
    queues.fill_write(1, 1, at(2));
    assert_eq!(queues.conclude_write(1), Some(vec![at(1), at(2)]));
    assert_eq!(queues.conclude_write(0), None);
    queues.settle_writes(&vec![JobEvent::Incomplete, JobEvent::Completed { delivered: true }]);
    assert_eq!(queues.write_len(), 1);
    assert_eq!(queues.write_job(0).reply, 2);
    assert_eq!(queues.write_job(0).retries, 1);
}

fn cloud(api_key: Option<&str>, timeout: i64) -> Cloud {
    Cloud {
        timeout,
        message_limit: 100,
        ssl: true,
        domain: "example.com".to_string(),
        api_key: api_key.map(|k| k.to_string()),
        id: "gateway-1".to_string(),
    }
}

#[test]
fn cloud_client_sends_key_buffer_header_and_timeout() {
    let settings = client_settings(&cloud(Some("secret"), 30_000));
    assert_eq!(settings.endpoints.push, "https://example.com/iot/push/gateway-1");
    assert_eq!(settings.endpoints.update, "https://example.com/iot/update/gateway-1");
    assert_eq!(settings.endpoints.poll, "https://example.com/iot/poll/gateway-1");
    assert_eq!(settings.headers.len(), 2);
    assert_eq!(settings.headers[0].name, "X-API-Key");
    assert_eq!(settings.headers[0].value, "secret");
    assert_eq!(settings.headers[1].name, "X-Buffer-Behavior");
    assert_eq!(settings.headers[1].value, "buffer");
    assert_eq!(settings.timeout_ms, 30_000);
}

#[test]
fn cloud_client_falls_back_to_the_id_as_key() {
    let settings = client_settings(&cloud(None, 5));
    assert_eq!(settings.headers[0].value, "gateway-1");
    assert_eq!(settings.timeout_ms, 5);
}
