use rust_echo::stream::{PACING_MILLIS, STREAM_BUFFER_CAPACITY};
use rust_echo::timestamp::format_timestamp;
use rust_echo::{EchoResponse, EchoStreamRequest, Phase, StreamAction, StreamEvent, StreamProducer};

fn producer(message: &str, repeat_count: u32) -> StreamProducer {
    StreamProducer::new(EchoStreamRequest { message: String::from(message), repeat_count })
}

fn response(message: &str, now: u64) -> EchoResponse {
    EchoResponse { message: String::from(message), timestamp: format_timestamp(now) }
}

/// Runs a stream to its end against a consumer that takes `accept` responses
/// and then goes away. The clock starts at `start` seconds and every pause
/// moves it on by the pause's length. Returns every action, the responses
/// that were taken, and the milliseconds from the start at which each was
/// handed out.
fn run(message: &str, repeat_count: u32, accept: usize, start: u64) -> (Vec<StreamAction>, Vec<EchoResponse>, Vec<u64>) {
    let mut producer = producer(message, repeat_count);
    let mut actions = Vec::new();
    let mut taken = Vec::new();
    let mut handed_out_at = Vec::new();
    let mut millis: u64 = 0;
    let mut event = StreamEvent::Start;
    loop {
        let action = producer.step_at(event, start + millis / 1000);
        actions.push(action.clone());
        match action {
            StreamAction::Send(response) => {
                handed_out_at.push(millis);
                if taken.len() < accept {
                    taken.push(response);
                    event = StreamEvent::Sent;
                } else {
                    event = StreamEvent::Disconnected;
                }
            }
            StreamAction::Pause(length) => {
                millis += length;
                event = StreamEvent::Elapsed;
            }
            StreamAction::Close => break,
        }
        assert!(actions.len() < 10_000);
    }
    assert_eq!(producer.phase(), Phase::Closed);
    assert_eq!(producer.sent() as usize, taken.len());
    (actions, taken, handed_out_at)
}

#[test]
fn stream_constants() {
    assert_eq!(STREAM_BUFFER_CAPACITY, 32);
    assert_eq!(PACING_MILLIS, 100);
}

#[test]
fn ping_three_times() {
    let (actions, taken, handed_out_at) = run("ping", 3, usize::MAX, 1_709_164_800);
    assert_eq!(taken.len(), 3);
    for response in &taken {
        assert_eq!(response.message, "ping");
    }
    assert!(taken[0].timestamp <= taken[1].timestamp);
    assert!(taken[1].timestamp <= taken[2].timestamp);
    assert_eq!(handed_out_at, vec![0, 100, 200]);
    assert_eq!(
        actions,
        vec![
            StreamAction::Send(response("ping", 1_709_164_800)),
            StreamAction::Pause(100),
            StreamAction::Send(response("ping", 1_709_164_800)),
            StreamAction::Pause(100),
            StreamAction::Send(response("ping", 1_709_164_800)),
            StreamAction::Pause(100),
            StreamAction::Close,
        ]
    );
}

#[test]
fn zero_repeats_close_at_once() {
    let (actions, taken, _) = run("nothing", 0, usize::MAX, 0);
    assert_eq!(actions, vec![StreamAction::Close]);
    assert!(taken.is_empty());
}

#[test]
fn one_repeat() {
    let (actions, taken, _) = run("once", 1, usize::MAX, 60);
    assert_eq!(taken, vec![response("once", 60)]);
    assert_eq!(
        actions,
        vec![StreamAction::Send(response("once", 60)), StreamAction::Pause(100), StreamAction::Close]
    );
}

#[test]
fn stream_length_is_the_repeat_count() {
    for n in [0u32, 1, 2, 3, 10, 32, 33, 100, 1000] {
        let (actions, taken, _) = run("m", n, usize::MAX, 1_700_000_000);
        assert_eq!(taken.len(), n as usize);
        assert_eq!(actions.len(), 2 * n as usize + 1);
    }
}

#[test]
fn each_response_is_stamped_when_it_is_made() {
    // Fifty responses, 100 ms apart, starting at 23:59:58: the clock passes
    // midnight at the twentieth.
    let start: u64 = 1_709_164_800 - 2;
    let (_, taken, handed_out_at) = run("tick", 50, usize::MAX, start);
    assert_eq!(taken.len(), 50);
    for (i, response) in taken.iter().enumerate() {
        assert_eq!(handed_out_at[i], 100 * i as u64);
        assert_eq!(response.timestamp, format_timestamp(start + (i as u64) / 10));
    }
    assert_eq!(taken[0].timestamp, "2024-02-28T23:59:58Z");
    assert_eq!(taken[19].timestamp, "2024-02-28T23:59:59Z");
    assert_eq!(taken[20].timestamp, "2024-02-29T00:00:00Z");
    assert_eq!(taken[49].timestamp, "2024-02-29T00:00:02Z");
    for pair in taken.windows(2) {
        assert!(pair[0].timestamp <= pair[1].timestamp);
    }
}

#[test]
fn a_pause_lies_between_any_two_responses() {
    let (actions, _, handed_out_at) = run("paced", 20, usize::MAX, 0);
    for pair in actions.windows(2) {
        if let StreamAction::Send(_) = pair[0] {
            assert_eq!(pair[1], StreamAction::Pause(100));
        }
    }
    for pair in handed_out_at.windows(2) {
        assert!(pair[1] - pair[0] >= 100);
    }
}

#[test]
fn consumer_that_leaves_stops_the_producer() {
    let (actions, taken, _) = run("ping", 5, 2, 1000);
    assert_eq!(taken.len(), 2);
    assert_eq!(
        actions,
        vec![
            StreamAction::Send(response("ping", 1000)),
            StreamAction::Pause(100),
            StreamAction::Send(response("ping", 1000)),
            StreamAction::Pause(100),
            StreamAction::Send(response("ping", 1000)),
            StreamAction::Close,
        ]
    );
}

#[test]
fn consumer_that_never_reads_gets_nothing() {
    let (actions, taken, _) = run("ping", 3, 0, 1000);
    assert!(taken.is_empty());
    assert_eq!(actions, vec![StreamAction::Send(response("ping", 1000)), StreamAction::Close]);
}

#[test]
fn at_most_one_response_is_dropped() {
    for n in [1u32, 2, 5, 40] {
        for accept in 0..n as usize {
            let (actions, taken, _) = run("m", n, accept, 7);
            let made = actions.iter().filter(|a| matches!(a, StreamAction::Send(_))).count();
            assert_eq!(taken.len(), accept);
            assert_eq!(made, accept + 1);
            assert_eq!(actions.len(), 2 * accept + 2);
            assert_eq!(actions.last(), Some(&StreamAction::Close));
        }
    }
}

#[test]
fn closed_stream_stays_closed() {
    let mut producer = producer("ping", 3);
    assert_eq!(producer.step_at(StreamEvent::Start, 1), StreamAction::Send(response("ping", 1)));
    assert_eq!(producer.step_at(StreamEvent::Disconnected, 2), StreamAction::Close);
    for event in [StreamEvent::Start, StreamEvent::Sent, StreamEvent::Disconnected, StreamEvent::Elapsed] {
        assert_eq!(producer.step_at(event, 3), StreamAction::Close);
        assert_eq!(producer.phase(), Phase::Closed);
        assert_eq!(producer.sent(), 0);
    }
}

#[test]
fn phases_of_one_round() {
    let mut producer = producer("ping", 2);
    assert_eq!(producer.phase(), Phase::Idle);
    assert!(producer.produces_on(StreamEvent::Start));
    assert!(!producer.produces_on(StreamEvent::Elapsed));
    producer.step_at(StreamEvent::Start, 0);
    assert_eq!(producer.phase(), Phase::Sending);
    assert_eq!(producer.sent(), 0);
    assert!(!producer.produces_on(StreamEvent::Sent));
    producer.step_at(StreamEvent::Sent, 0);
    assert_eq!(producer.phase(), Phase::Pacing);
    assert_eq!(producer.sent(), 1);
    assert!(producer.produces_on(StreamEvent::Elapsed));
    producer.step_at(StreamEvent::Elapsed, 0);
    assert_eq!(producer.phase(), Phase::Sending);
    producer.step_at(StreamEvent::Sent, 0);
    assert_eq!(producer.phase(), Phase::Pacing);
    assert_eq!(producer.sent(), 2);
    assert!(!producer.produces_on(StreamEvent::Elapsed));
    assert_eq!(producer.step_at(StreamEvent::Elapsed, 0), StreamAction::Close);
    assert_eq!(producer.phase(), Phase::Closed);
}

#[test]
fn event_that_is_not_awaited_closes_the_stream() {
    let cases = [
        (vec![], StreamEvent::Sent),
        (vec![], StreamEvent::Elapsed),
        (vec![], StreamEvent::Disconnected),
        (vec![StreamEvent::Start], StreamEvent::Start),
        (vec![StreamEvent::Start], StreamEvent::Elapsed),
        (vec![StreamEvent::Start, StreamEvent::Sent], StreamEvent::Sent),
        (vec![StreamEvent::Start, StreamEvent::Sent], StreamEvent::Start),
        (vec![StreamEvent::Start, StreamEvent::Sent], StreamEvent::Disconnected),
    ];
    for (before, event) in cases {
        let mut producer = producer("ping", 3);
        for e in before {
            assert_ne!(producer.step_at(e, 0), StreamAction::Close);
        }
        assert_eq!(producer.step_at(event, 0), StreamAction::Close);
        assert_eq!(producer.phase(), Phase::Closed);
    }
}

#[test]
fn close_ends_a_stream_at_any_point() {
    let mut producer = producer("ping", 3);
    producer.step_at(StreamEvent::Start, 0);
    producer.step_at(StreamEvent::Sent, 0);
    assert_eq!(producer.close(), StreamAction::Close);
    assert_eq!(producer.phase(), Phase::Closed);
    assert_eq!(producer.sent(), 1);
    assert_eq!(producer.step_at(StreamEvent::Elapsed, 0), StreamAction::Close);
}

#[test]
fn largest_repeat_count_is_accepted() {
    let mut producer = producer("ping", u32::MAX);
    let mut event = StreamEvent::Start;
    for _ in 0..1000 {
        match producer.step_at(event, 0) {
            StreamAction::Send(_) => event = StreamEvent::Sent,
            StreamAction::Pause(_) => event = StreamEvent::Elapsed,
            StreamAction::Close => panic!("closed early"),
        }
    }
    assert_eq!(producer.sent(), 500);
}

#[test]
fn step_reads_the_wall_clock_for_each_response() {
    let mut producer = producer("ping", 3);
    let mut event = StreamEvent::Start;
    let mut taken: Vec<EchoResponse> = Vec::new();
    let mut pauses = 0;
    loop {
        match producer.step(event) {
            StreamAction::Send(response) => {
                taken.push(response);
                event = StreamEvent::Sent;
            }
            StreamAction::Pause(length) => {
                assert_eq!(length, 100);
                pauses += 1;
                event = StreamEvent::Elapsed;
            }
            StreamAction::Close => break,
        }
    }
    assert_eq!(taken.len(), 3);
    assert_eq!(pauses, 3);
    for response in &taken {
        assert_eq!(response.message, "ping");
        assert_eq!(response.timestamp.len(), 20);
    }
    for pair in taken.windows(2) {
        assert!(pair[0].timestamp <= pair[1].timestamp);
    }
}

#[test]
fn step_on_a_disconnect_closes_without_the_clock() {
    let mut producer = producer("ping", 3);
    assert!(matches!(producer.step(StreamEvent::Start), StreamAction::Send(_)));
    assert_eq!(producer.step(StreamEvent::Disconnected), StreamAction::Close);
    assert_eq!(producer.step(StreamEvent::Elapsed), StreamAction::Close);
    assert_eq!(producer.sent(), 0);
}
