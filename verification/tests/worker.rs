use pidgeon::batch::{batch_spans, batch_spans_checked, Batch};
use pidgeon::connection::RequestFailure;
use pidgeon::register::{
    IdRegister, NumericRegisterKind, ParseError, Reading, RegisterKindStorage, StringRegisterKind,
    Timestamp,
};
use pidgeon::span::{SimpleSpan, Span};
use pidgeon::worker::{
    accept_request, backs_off, conclude_attempt, insertion_index, max_generation, min_generation,
    next_generation, parse_read_response, pending_slots, read_error_from_send, retain_unmarked,
    served_generation, stream_step, to_simple_spans, write_error_from_send, write_timestamps,
    Attempt, ConnectError, Incoming, ReadResponseEntry, SendError, ServerReadError,
    ServerWriteError, StreamStep,
};

fn at(seconds: i64) -> Timestamp {
    Timestamp { seconds, nanoseconds: 0 }
}

fn u16_id(address: u16) -> IdRegister<RegisterKindStorage> {
    IdRegister { address, storage: RegisterKindStorage::U16(NumericRegisterKind { multiplier: None }) }
}

#[test]
fn spans_are_batched_across_small_gaps() {
    let spans = vec![
        SimpleSpan { address: 10, quantity: 2 },
        SimpleSpan { address: 0, quantity: 2 },
        SimpleSpan { address: 3, quantity: 1 },
        SimpleSpan { address: 20, quantity: 4 },
    ];
    let batches = batch_spans(spans, 4);
    let shape: Vec<(u16, u16, Vec<u16>)> = batches
        .iter()
        .map(|b| (b.address, b.quantity, b.inner.iter().map(|s| s.address).collect()))
        .collect();
    assert_eq!(shape, vec![(0, 4, vec![0, 3]), (10, 2, vec![10]), (20, 4, vec![20])]);
}

#[test]
fn batching_with_zero_threshold_keeps_adjacent_spans_apart() {
    let spans = vec![SimpleSpan { address: 0, quantity: 2 }, SimpleSpan { address: 2, quantity: 2 }];
    assert_eq!(batch_spans(spans, 0).len(), 2);
}

#[test]
fn batching_nothing_gives_nothing() {
    assert!(batch_spans(Vec::<SimpleSpan>::new(), 4).is_empty());
}

#[test]
fn every_span_lands_in_exactly_one_batch() {
    let spans = vec![
        SimpleSpan { address: 7, quantity: 1 },
        SimpleSpan { address: 1, quantity: 1 },
        SimpleSpan { address: 4, quantity: 2 },
        SimpleSpan { address: 30, quantity: 1 },
    ];
    let batches = batch_spans(spans, 3);
    let flat: Vec<u16> = batches.iter().flat_map(|b| b.inner.iter().map(|s| s.address())).collect();
    assert_eq!(flat, vec![1, 4, 7, 30]);
    for b in &batches {
        for s in &b.inner {
            assert!(b.address <= s.address && s.address + s.quantity <= b.address + b.quantity);
        }
    }
}

#[test]
fn batch_parses_each_span_from_its_offset() {
    let batch = Batch { address: 0, quantity: 4, inner: vec![u16_id(0), u16_id(3)] };
    let parsed = batch.parse_with_timestamp(&[5, 0, 0, 7], at(1)).expect("parses");
    let texts: Vec<String> = parsed
        .inner
        .into_iter()
        .map(|r| match r.storage {
            Reading::Value(v) => v.to_text(),
            other => panic!("not a value {:?}", other),
        })
        .collect();
    assert_eq!(texts, vec!["5".to_string(), "7".to_string()]);
}

#[test]
fn read_response_is_parsed_batch_after_batch() {
    let batches = vec![
        Batch { address: 0, quantity: 1, inner: vec![u16_id(0)] },
        Batch { address: 9, quantity: 1, inner: vec![u16_id(9)] },
    ];
    let data = vec![
        ReadResponseEntry { inner: vec![11], timestamp: at(1) },
        ReadResponseEntry { inner: vec![22], timestamp: at(2) },
    ];
    let parsed = parse_read_response(Ok(data), &batches).expect("parses");
    assert_eq!(parsed.len(), 2);
    assert_eq!(parsed[1].address, 9);
}

#[test]
fn read_response_error_comes_from_the_first_failing_batch() {
    let text = IdRegister { address: 1, storage: RegisterKindStorage::String(StringRegisterKind { length: 1 }) };
    let batches = vec![
        Batch { address: 0, quantity: 1, inner: vec![u16_id(0)] },
        Batch { address: 1, quantity: 1, inner: vec![text] },
    ];
    let data = vec![
        ReadResponseEntry { inner: vec![1], timestamp: at(1) },
        ReadResponseEntry { inner: vec![0xFF00], timestamp: at(1) },
    ];
    let result = parse_read_response(Ok(data), &batches);
    assert!(matches!(result, Err(ServerReadError::ParsingFailed(ParseError::InvalidUtf8))));
}

#[test]
fn failed_requests_become_server_errors() {
    let batches: Vec<Batch<IdRegister<RegisterKindStorage>>> = Vec::new();
    let result = parse_read_response(Err(SendError::ChannelDisconnected("gone".to_string())), &batches);
    assert!(matches!(result, Err(ServerReadError::ServerFailed(m)) if m == "gone"));
    let result = parse_read_response(Err(SendError::FailedToConnect(ConnectError::Slave)), &batches);
    assert!(matches!(result, Err(ServerReadError::FailedToConnect(ConnectError::Slave))));
    assert!(matches!(
        read_error_from_send(SendError::FailedToConnect(ConnectError::Connect("refused".to_string()))),
        ServerReadError::FailedToConnect(ConnectError::Connect(m)) if m == "refused"
    ));
    assert!(matches!(
        write_error_from_send(SendError::ChannelDisconnected("x".to_string())),
        ServerWriteError::ServerFailed(m) if m == "x"
    ));
}

#[test]
fn requests_are_queued_in_slave_order() {
    let queue = vec![None, Some(1), Some(3), Some(3), Some(9)];
    assert_eq!(insertion_index(&queue, Some(2)), 2);
    assert_eq!(insertion_index(&queue, None), 0);
    assert_eq!(insertion_index(&queue, Some(10)), 5);
    let p = insertion_index(&queue, Some(3));
    let mut inserted = queue.clone();
    inserted.insert(p, Some(3));
    assert!(inserted.windows(2).all(|w| w[0] <= w[1]));
}

#[test]
fn new_requests_join_the_newest_generation() {
    assert_eq!(max_generation(&vec![]), 0);
    assert_eq!(max_generation(&vec![3, 7, 5]), 7);
    assert_eq!(min_generation(&vec![3, 7, 5]), Some(3));
    assert_eq!(min_generation(&vec![]), None);
}

#[test]
fn stream_steps() {
    assert_eq!(stream_step(4, 3, 0, 10), StreamStep::Skip);
    assert_eq!(stream_step(3, 3, 11, 10), StreamStep::Reset);
    assert_eq!(stream_step(3, 3, 10, 10), StreamStep::Read);
    assert_eq!(next_generation(3), 4);
    assert_eq!(next_generation(u64::MAX), u64::MAX);
}

#[test]
fn complete_attempt_gives_the_values_in_order() {
    match conclude_attempt(vec![Some(1), Some(2)], 5) {
        Attempt::Complete(values) => assert_eq!(values, vec![1, 2]),
        other => panic!("not complete {:?}", other),
    }
}

#[test]
fn partial_attempt_counts_a_retry() {
    match conclude_attempt(vec![Some(1), None], 5) {
        Attempt::Partial { slots, retries } => {
            assert_eq!(slots, vec![Some(1), None]);
            assert_eq!(retries, 6);
        }
        other => panic!("not partial {:?}", other),
    }
    match conclude_attempt(vec![None::<u8>], u32::MAX) {
        Attempt::Partial { retries, .. } => assert_eq!(retries, u32::MAX),
        other => panic!("not partial {:?}", other),
    }
}

#[test]
fn only_missing_slots_are_read_again() {
    assert_eq!(pending_slots(&vec![Some(1), None, Some(3), None]), vec![1, 3]);
    assert!(pending_slots(&vec![Some(1)]).is_empty());
}

#[test]
fn terminating_task_queues_nothing() {
    let a = accept_request(false, Incoming::Read);
    assert!(a.queue && !a.terminating);
    let a = accept_request(true, Incoming::Write);
    assert!(!a.queue && a.terminating);
    let a = accept_request(false, Incoming::Terminate);
    assert!(!a.queue && a.terminating);
    assert_eq!(served_generation(true, &vec![1, 2]), None);
    assert_eq!(served_generation(false, &vec![4, 2]), Some(2));
}

#[test]
fn congestion_backoff_follows_invalid_data() {
    assert!(backs_off(RequestFailure::Read, true));
    assert!(!backs_off(RequestFailure::Read, false));
    assert!(!backs_off(RequestFailure::Timeout, true));
}

#[test]
fn marked_requests_are_removed() {
    let kept = retain_unmarked(vec!["a", "b", "c"], &vec![false, true, false]);
    assert_eq!(kept, vec!["a", "c"]);
}

#[test]
fn spans_and_timestamps_are_carried_over() {
    let simple = to_simple_spans(&vec![u16_id(4), u16_id(8)]);
    assert_eq!(simple, vec![SimpleSpan { address: 4, quantity: 1 }, SimpleSpan { address: 8, quantity: 1 }]);
    assert_eq!(write_timestamps(&vec![at(1), at(2)]), vec![at(1), at(2)]);
}

#[test]
fn span_before_its_batch_is_a_span_start_error() {
    let batch = Batch { address: 5, quantity: 2, inner: vec![u16_id(4)] };
    assert!(matches!(batch.parse_with_timestamp(&[1, 2], at(1)), Err(ParseError::SpanStart)));
}

#[test]
fn failed_writes_keep_the_connection_error() {
    assert!(matches!(
        write_error_from_send(SendError::FailedToConnect(ConnectError::Slave)),
        ServerWriteError::FailedToConnect(ConnectError::Slave)
    ));
}

#[test]
fn overlapping_spans_cannot_be_batched() {
    let overlapping = vec![SimpleSpan { address: 0, quantity: 4 }, SimpleSpan { address: 2, quantity: 1 }];
    assert!(batch_spans_checked(overlapping, 4).is_none());
    let past_the_end = vec![SimpleSpan { address: 65530, quantity: 2 }, SimpleSpan { address: 65533, quantity: 5 }];
    assert!(batch_spans_checked(past_the_end, 4).is_none());
    let fine = vec![SimpleSpan { address: 10, quantity: 1 }, SimpleSpan { address: 0, quantity: 1 }];
    let batches = batch_spans_checked(fine, 1).expect("batchable");
    assert_eq!(batches.iter().map(|b| b.address).collect::<Vec<_>>(), vec![0, 10]);
}

#[test]
fn removing_requests_keeps_slave_order() {
    let queue = vec![None, Some(2), Some(2), Some(5), Some(9)];
    let kept = retain_unmarked(queue, &vec![false, true, false, true, false]);
    assert_eq!(kept, vec![None, Some(2), Some(9)]);
    assert!(kept.windows(2).all(|w| w[0] <= w[1]));
}
