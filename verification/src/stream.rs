//! The producer of a repeated echo, as a state machine.
//!
//! A driver owns the bounded channel to the consumer and the timer. It calls
//! the producer with what happened last and does what the producer answers:
//! send a response, pause, or close the stream. The producer never waits
//! itself.

use vstd::prelude::*;
use crate::message::{echoed_at, EchoResponse, EchoStreamRequest, Echoed};
use crate::timestamp::{format_timestamp, lemma_timestamp_round_trip, parse_timestamp, unix_clock};

verus! {

/// Capacity of the channel between the producer and the outbound stream.
/// A producer that finds it full waits for room.
pub const STREAM_BUFFER_CAPACITY: usize = 32;

/// The pause after each response that was sent, in milliseconds.
pub const PACING_MILLIS: u64 = 100;

/// Where the producer stands.
#[derive(Clone, Copy, Debug, PartialEq, Eq, Structural)]
pub enum Phase {
    /// Nothing was produced yet.
    Idle,
    /// A response was handed out; whether it was sent is not known yet.
    Sending,
    /// The last response was sent and the pause after it runs.
    Pacing,
    /// The stream is closed. Nothing more is produced.
    Closed,
}

/// What the driver reports to the producer.
#[derive(Clone, Copy, Debug, PartialEq, Eq, Structural)]
pub enum StreamEvent {
    /// The stream was opened.
    Start,
    /// The response handed out last went into the channel.
    Sent,
    /// The response handed out last could not be sent: the consumer is gone.
    Disconnected,
    /// The pause is over.
    Elapsed,
}

/// What the producer asks the driver to do next.
#[derive(Clone, Debug, PartialEq, Eq)]
pub enum StreamAction {
    /// Send this response, then report `Sent` or `Disconnected`.
    Send(EchoResponse),
    /// Wait this many milliseconds, then report `Elapsed`.
    Pause(u64),
    /// Close the stream. Nothing follows.
    Close,
}

/// What an action says, over the text of its response.
pub ghost enum ActionModel {
    Send(Echoed),
    Pause(nat),
    Close,
}

impl View for StreamAction {
    type V = ActionModel;

    open spec fn view(&self) -> ActionModel {
        match self {
            StreamAction::Send(response) => ActionModel::Send(response@),
            StreamAction::Pause(millis) => ActionModel::Pause(*millis as nat),
            StreamAction::Close => ActionModel::Close,
        }
    }
}

/// The state of a producer: the request it serves, how many responses were
/// sent, and where it stands.
pub ghost struct ProducerModel {
    pub message: Seq<char>,
    pub repeat_count: nat,
    pub sent: nat,
    pub phase: Phase,
}

impl ProducerModel {
    /// The producer of a stream that was just opened.
    pub open spec fn start(message: Seq<char>, repeat_count: nat) -> ProducerModel {
        ProducerModel { message, repeat_count, sent: 0, phase: Phase::Idle }
    }

    /// No more responses were sent than asked for, and a response is handed
    /// out only while one is still owed.
    pub open spec fn wf(self) -> bool {
        &&& self.sent <= self.repeat_count
        &&& self.phase is Sending ==> self.sent < self.repeat_count
    }

    /// This producer with its stream closed.
    pub open spec fn closed(self) -> ProducerModel {
        ProducerModel { phase: Phase::Closed, ..self }
    }

    /// Whether `event` finds the producer about to decide on the next
    /// response: at the start of the stream, or when a pause is over.
    pub open spec fn ready_on(self, event: StreamEvent) -> bool {
        (self.phase is Idle && event is Start) || (self.phase is Pacing && event is Elapsed)
    }

    /// Whether `event` makes the producer read the clock: it is about to
    /// decide on the next response and one is still owed.
    pub open spec fn produces_on(self, event: StreamEvent) -> bool {
        self.ready_on(event) && self.sent < self.repeat_count
    }

    /// One step: the state after `event`, and what the driver is to do.
    ///
    /// - About to decide on the next response: if one is still owed it is
    ///   made at the instant `now` and handed out; if not the stream closes.
    /// - The response handed out was sent: it is counted and the pause
    ///   begins.
    /// - Anything else closes the stream: the consumer is gone, the stream
    ///   was closed already, or the event is not the one awaited.
    pub open spec fn step(self, event: StreamEvent, now: int) -> (ProducerModel, ActionModel) {
        if self.produces_on(event) {
            (
                ProducerModel { phase: Phase::Sending, ..self },
                ActionModel::Send(echoed_at(self.message, now)),
            )
        } else if self.phase is Sending && event is Sent {
            (
                ProducerModel { sent: self.sent + 1, phase: Phase::Pacing, ..self },
                ActionModel::Pause(PACING_MILLIS as nat),
            )
        } else {
            (self.closed(), ActionModel::Close)
        }
    }

    /// An upper bound on the number of steps before the stream closes.
    pub open spec fn budget(self) -> nat {
        let owed = (self.repeat_count - self.sent) as nat;
        match self.phase {
            Phase::Idle => 2 * owed + 2,
            Phase::Pacing => 2 * owed + 2,
            Phase::Sending => 2 * owed + 1,
            Phase::Closed => 0,
        }
    }
}

/// What the driver reports after `action`, when the channel takes `accept`
/// responses before the consumer is gone and `sent` were sent before.
pub open spec fn report(action: ActionModel, sent: nat, accept: nat) -> StreamEvent {
    match action {
        ActionModel::Send(_) => if sent < accept {
            StreamEvent::Sent
        } else {
            StreamEvent::Disconnected
        },
        _ => StreamEvent::Elapsed,
    }
}

/// The actions of a run, first to last: the run starts in state `s` with
/// `event`, the response with index `i` is made at the instant `clock(i)`,
/// and the channel takes `accept` responses before the consumer is gone. The
/// run ends with the action that closes the stream.
pub open spec fn trace(
    s: ProducerModel,
    event: StreamEvent,
    clock: spec_fn(nat) -> int,
    accept: nat,
) -> Seq<ActionModel>
    decreases s.budget(),
    when s.wf()
{
    let (next, action) = s.step(event, clock(s.sent));
    if action is Close {
        seq![action]
    } else {
        seq![action] + trace(next, report(action, s.sent, accept), clock, accept)
    }
}

/// The responses of that run that went into the channel, first to last.
pub open spec fn delivered(
    s: ProducerModel,
    event: StreamEvent,
    clock: spec_fn(nat) -> int,
    accept: nat,
) -> Seq<Echoed>
    decreases s.budget(),
    when s.wf()
{
    let (next, action) = s.step(event, clock(s.sent));
    let rest = if action is Close {
        Seq::empty()
    } else {
        delivered(next, report(action, s.sent, accept), clock, accept)
    };
    match action {
        ActionModel::Send(response) if s.sent < accept => seq![response] + rest,
        _ => rest,
    }
}

/// What a step that reads the clock itself comes to, from `s` on `event`,
/// as the state `next` and the action `action`: the step at some reading of
/// a 64-bit clock or, where a response was to be made and the clock gave no
/// reading, the closing of the stream.
pub open spec fn steps_by_clock(
    s: ProducerModel,
    event: StreamEvent,
    next: ProducerModel,
    action: ActionModel,
) -> bool {
    ||| exists|now: u64| (next, action) == #[trigger] s.step(event, now as int)
    ||| s.produces_on(event) && next == s.closed() && action is Close
}

/// The smaller of two counts.
pub open spec fn least(a: nat, b: nat) -> nat {
    if a <= b {
        a
    } else {
        b
    }
}

/// The run of a stream from its response with index `from` on, written out:
/// each response that the channel takes is followed by one pause of
/// `PACING_MILLIS`; then the stream closes if every response was taken, and
/// else one more response is handed out, is not taken, and the stream closes.
pub open spec fn paced_run(
    message: Seq<char>,
    repeat_count: nat,
    from: nat,
    clock: spec_fn(nat) -> int,
    accept: nat,
) -> Seq<ActionModel> {
    let taken = least(repeat_count, accept) - from;
    let tail: int = if accept < repeat_count {
        2
    } else {
        1
    };
    Seq::new(
        (2 * taken + tail) as nat,
        |i: int|
            if i < 2 * taken {
                if i % 2 == 0 {
                    ActionModel::Send(echoed_at(message, clock((from + i / 2) as nat)))
                } else {
                    ActionModel::Pause(PACING_MILLIS as nat)
                }
            } else if i == 2 * taken && accept < repeat_count {
                ActionModel::Send(echoed_at(message, clock(accept)))
            } else {
                ActionModel::Close
            },
    )
}

/// A step keeps a producer well-formed.
pub proof fn lemma_step_wf(s: ProducerModel, event: StreamEvent, now: int)
    requires
        s.wf(),
    ensures
        s.step(event, now).0.wf(),
{
}

/// Only a step that makes a response depends on the clock.
pub proof fn lemma_step_ignores_clock(s: ProducerModel, event: StreamEvent, a: int, b: int)
    requires
        !s.produces_on(event),
    ensures
        s.step(event, a) == s.step(event, b),
{
}

/// A closed stream stays closed and produces nothing, whatever is reported.
pub proof fn lemma_closed_is_final(s: ProducerModel, event: StreamEvent, now: int)
    requires
        s.phase is Closed,
    ensures
        s.step(event, now) == (s, ActionModel::Close),
{
}

/// When the consumer is gone the stream closes at once: the response that
/// could not be sent is not counted and none is made after it.
pub proof fn lemma_disconnect_closes(s: ProducerModel, now: int)
    ensures
        s.step(StreamEvent::Disconnected, now) == (s.closed(), ActionModel::Close),
        s.closed().sent == s.sent,
{
}

/// A response is handed out only at the start of the stream or when a pause
/// is over, and a pause of `PACING_MILLIS` follows each response that was
/// sent, and nothing else.
pub proof fn lemma_step_pacing(s: ProducerModel, event: StreamEvent, now: int)
    ensures
        s.step(event, now).1 is Send ==> s.ready_on(event),
        s.phase is Sending && event is Sent ==> s.step(event, now).1 == ActionModel::Pause(
            PACING_MILLIS as nat,
        ) && s.step(event, now).0.phase is Pacing,
        s.step(event, now).1 is Pause ==> s.phase is Sending && event is Sent,
{
}

/// The responses delivered from a point of a run where the producer is about
/// to decide on the next response.
pub proof fn lemma_delivered_from(
    s: ProducerModel,
    event: StreamEvent,
    clock: spec_fn(nat) -> int,
    accept: nat,
)
    requires
        s.wf(),
        s.ready_on(event),
        s.sent <= accept,
    ensures
        delivered(s, event, clock, accept) =~= Seq::new(
            (least(s.repeat_count, accept) - s.sent) as nat,
            |i: int| echoed_at(s.message, clock((s.sent + i) as nat)),
        ),
    decreases s.repeat_count - s.sent,
{
    reveal_with_fuel(delivered, 3);
    if s.sent < s.repeat_count && s.sent < accept {
        let handed = s.step(event, clock(s.sent)).0;
        let paused = handed.step(StreamEvent::Sent, clock(handed.sent)).0;
        lemma_delivered_from(paused, StreamEvent::Elapsed, clock, accept);
        assert(delivered(s, event, clock, accept) =~= seq![echoed_at(s.message, clock(s.sent))]
            + delivered(paused, StreamEvent::Elapsed, clock, accept));
    }
}

/// The written-out run begins with a response and the pause after it, while
/// the channel still takes responses and some are owed.
pub proof fn lemma_paced_run_unfold(
    message: Seq<char>,
    repeat_count: nat,
    from: nat,
    clock: spec_fn(nat) -> int,
    accept: nat,
)
    requires
        from < repeat_count,
        from < accept,
    ensures
        paced_run(message, repeat_count, from, clock, accept) =~= seq![
            ActionModel::Send(echoed_at(message, clock(from))),
            ActionModel::Pause(PACING_MILLIS as nat),
        ] + paced_run(message, repeat_count, from + 1, clock, accept),
{
    let head = seq![
        ActionModel::Send(echoed_at(message, clock(from))),
        ActionModel::Pause(PACING_MILLIS as nat),
    ];
    let rest = paced_run(message, repeat_count, from + 1, clock, accept);
    let whole = head + rest;
    let expected = paced_run(message, repeat_count, from, clock, accept);
    assert(whole.len() == expected.len());
    assert forall|i: int| 0 <= i < whole.len() implies whole[i] == expected[i] by {
        if i >= 2 {
            assert(whole[i] == rest[i - 2]);
            assert((i - 2) % 2 == i % 2);
            assert((i - 2) / 2 == i / 2 - 1);
        }
    }
}

/// The actions from a point of a run where the producer is about to decide
/// on the next response.
pub proof fn lemma_trace_from(
    s: ProducerModel,
    event: StreamEvent,
    clock: spec_fn(nat) -> int,
    accept: nat,
)
    requires
        s.wf(),
        s.ready_on(event),
        s.sent <= accept,
    ensures
        trace(s, event, clock, accept) =~= paced_run(
            s.message,
            s.repeat_count,
            s.sent,
            clock,
            accept,
        ),
    decreases s.repeat_count - s.sent,
{
    let expected = paced_run(s.message, s.repeat_count, s.sent, clock, accept);
    let (handed, first) = s.step(event, clock(s.sent));
    if s.sent >= s.repeat_count {
        assert(trace(s, event, clock, accept) =~= seq![ActionModel::Close]);
        assert(expected =~= seq![ActionModel::Close]);
    } else if s.sent == accept {
        let (gone, second) = handed.step(StreamEvent::Disconnected, clock(handed.sent));
        assert(trace(handed, StreamEvent::Disconnected, clock, accept) =~= seq![second]);
        assert(trace(s, event, clock, accept) =~= seq![first, second]);
        assert(expected =~= seq![first, second]);
    } else {
        let (paused, second) = handed.step(StreamEvent::Sent, clock(handed.sent));
        let rest = trace(paused, StreamEvent::Elapsed, clock, accept);
        assert(trace(handed, StreamEvent::Sent, clock, accept) =~= seq![second] + rest);
        assert(trace(s, event, clock, accept) =~= seq![first, second] + rest);
        lemma_trace_from(paused, StreamEvent::Elapsed, clock, accept);
        lemma_paced_run_unfold(s.message, s.repeat_count, s.sent, clock, accept);
    }
}

/// A stream delivers its responses in the order in which they were made,
/// each with the request's message and the timestamp of the instant at which
/// it was made: all `repeat_count` of them to a consumer that stays, none for
/// a count of zero, and the first `accept` where the consumer is gone after
/// that many.
pub proof fn lemma_stream_delivers(
    message: Seq<char>,
    repeat_count: nat,
    clock: spec_fn(nat) -> int,
    accept: nat,
)
    ensures
        delivered(
            ProducerModel::start(message, repeat_count),
            StreamEvent::Start,
            clock,
            accept,
        ) == Seq::new(
            least(repeat_count, accept),
            |i: int| echoed_at(message, clock(i as nat)),
        ),
        accept >= repeat_count ==> delivered(
            ProducerModel::start(message, repeat_count),
            StreamEvent::Start,
            clock,
            accept,
        ).len() == repeat_count,
{
    let s = ProducerModel::start(message, repeat_count);
    lemma_delivered_from(s, StreamEvent::Start, clock, accept);
    assert(delivered(s, StreamEvent::Start, clock, accept) =~= Seq::new(
        least(repeat_count, accept),
        |i: int| echoed_at(message, clock(i as nat)),
    ));
}

/// A stream is paced and stops when its consumer goes away: its actions are
/// exactly those of [`paced_run`] from the first response on. So a pause of
/// `PACING_MILLIS` lies between any two responses, and after the consumer has
/// gone at most one response is made, which is dropped.
pub proof fn lemma_stream_paced(
    message: Seq<char>,
    repeat_count: nat,
    clock: spec_fn(nat) -> int,
    accept: nat,
)
    ensures
        trace(ProducerModel::start(message, repeat_count), StreamEvent::Start, clock, accept)
            == paced_run(message, repeat_count, 0, clock, accept),
{
    let s = ProducerModel::start(message, repeat_count);
    lemma_trace_from(s, StreamEvent::Start, clock, accept);
}

/// Under a clock that does not run backwards, the timestamps of the
/// responses that a stream delivers do not decrease.
pub proof fn lemma_stream_timestamps_ordered(
    message: Seq<char>,
    repeat_count: nat,
    clock: spec_fn(nat) -> int,
    accept: nat,
    i: int,
    k: int,
)
    requires
        forall|a: nat, b: nat| a <= b ==> 0 <= #[trigger] clock(a) <= #[trigger] clock(b),
        0 <= i <= k < least(repeat_count, accept),
    ensures
        ({
            let responses = delivered(
                ProducerModel::start(message, repeat_count),
                StreamEvent::Start,
                clock,
                accept,
            );
            &&& responses.len() == least(repeat_count, accept)
            &&& parse_timestamp(responses[i].timestamp) == Some(clock(i as nat))
            &&& parse_timestamp(responses[k].timestamp) == Some(clock(k as nat))
            &&& clock(i as nat) <= clock(k as nat)
        }),
{
    lemma_stream_delivers(message, repeat_count, clock, accept);
    assert(0 <= clock(i as nat) <= clock(k as nat));
    lemma_timestamp_round_trip(clock(i as nat));
    lemma_timestamp_round_trip(clock(k as nat));
}

/// The producer of one repeated echo.
pub struct StreamProducer {
    message: String,
    repeat_count: u32,
    sent: u32,
    phase: Phase,
}

impl View for StreamProducer {
    type V = ProducerModel;

    closed spec fn view(&self) -> ProducerModel {
        ProducerModel {
            message: self.message@,
            repeat_count: self.repeat_count as nat,
            sent: self.sent as nat,
            phase: self.phase,
        }
    }
}

impl StreamProducer {
    #[verifier::type_invariant]
    spec fn inv(self) -> bool {
        self@.wf()
    }

    /// The producer of the responses to `request`, before the first step.
    pub fn new(request: EchoStreamRequest) -> (producer: StreamProducer)
        ensures
            producer@ == ProducerModel::start(request.message@, request.repeat_count as nat),
            producer@.wf(),
    {
        StreamProducer {
            message: request.message,
            repeat_count: request.repeat_count,
            sent: 0,
            phase: Phase::Idle,
        }
    }

    /// Where the producer stands.
    pub fn phase(&self) -> (phase: Phase)
        ensures
            phase == self@.phase,
    {
        self.phase
    }

    /// Number of responses that were sent.
    pub fn sent(&self) -> (sent: u32)
        ensures
            sent == self@.sent,
    {
        self.sent
    }

    /// Whether `event` makes the producer read the clock.
    pub fn produces_on(&self, event: StreamEvent) -> (produces: bool)
        ensures
            produces == self@.produces_on(event),
    {
        let ready = match (self.phase, event) {
            (Phase::Idle, StreamEvent::Start) => true,
            (Phase::Pacing, StreamEvent::Elapsed) => true,
            _ => false,
        };
        ready && self.sent < self.repeat_count
    }

    /// Closes the stream, whatever the producer was doing.
    pub fn close(&mut self) -> (action: StreamAction)
        ensures
            final(self)@ == old(self)@.closed(),
            final(self)@.wf(),
            action@ is Close,
    {
        proof {
            use_type_invariant(&*self);
        }
        self.phase = Phase::Closed;
        StreamAction::Close
    }

    /// One step of the producer, with `now` as the clock's reading in
    /// seconds since the epoch: see [`ProducerModel::step`].
    pub fn step_at(&mut self, event: StreamEvent, now: u64) -> (action: StreamAction)
        ensures
            (final(self)@, action@) == old(self)@.step(event, now as int),
            final(self)@.wf(),
    {
        proof {
            use_type_invariant(&*self);
        }
        if self.produces_on(event) {
            self.phase = Phase::Sending;
            StreamAction::Send(
                EchoResponse { message: self.message.clone(), timestamp: format_timestamp(now) },
            )
        } else if self.phase == Phase::Sending && event == StreamEvent::Sent {
            self.phase = Phase::Pacing;
            self.sent = self.sent + 1;
            StreamAction::Pause(PACING_MILLIS)
        } else {
            self.close()
        }
    }

    /// One step of the producer. A step that makes a response reads the
    /// system clock for it, at that moment; a clock set before the epoch closes
    /// the stream. Any other step does not depend on the time.
    pub fn step(&mut self, event: StreamEvent) -> (action: StreamAction)
        ensures
            final(self)@.wf(),
            steps_by_clock(old(self)@, event, final(self)@, action@),
            !old(self)@.produces_on(event) ==> (final(self)@, action@) == old(self)@.step(event, 0),
    {
        if self.produces_on(event) {
            match unix_clock() {
                Some(now) => self.step_at(event, now),
                None => self.close(),
            }
        } else {
            self.step_at(event, 0)
        }
    }
}

} // verus!
