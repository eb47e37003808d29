//! The two operations of the echo service.

use vstd::prelude::*;
use crate::message::{echoed_at, EchoRequest, EchoResponse, EchoStreamRequest, Echoed};
use crate::stream::{ProducerModel, StreamProducer};
use crate::timestamp::{chrono_now, format_timestamp, is_timestamp};

verus! {

/// The echo service. It keeps no state: every call stands alone.
#[derive(Clone, Copy, Debug, Default)]
pub struct EchoServiceImpl;

impl EchoServiceImpl {
    /// The response to `request` at the instant `now`, in seconds since the
    /// epoch. No message is refused; the empty one is echoed like any other.
    pub fn echo_at(&self, request: EchoRequest, now: u64) -> (response: EchoResponse)
        ensures
            response@ == echoed_at(request.message@, now as int),
    {
        EchoResponse { message: request.message, timestamp: format_timestamp(now) }
    }

    /// The response to `request`, stamped with the wall-clock time of the
    /// call. There is none only when the system clock is set before the
    /// epoch.
    pub fn echo(&self, request: EchoRequest) -> (response: Option<EchoResponse>)
        ensures
            response matches Some(r) ==> r.message@ == request.message@ && is_timestamp(
                r.timestamp@,
            ),
    {
        self.echo_stamped(request, chrono_now())
    }

    /// What [`EchoServiceImpl::echo`] returns for what the clock gave: the
    /// response with the request's message and that timestamp, and nothing
    /// where the clock gave none.
    pub fn echo_stamped(
        &self,
        request: EchoRequest,
        stamp: Option<String>,
    ) -> (response: Option<EchoResponse>)
        ensures
            stamp matches Some(text) ==> response matches Some(r) && r@ == (Echoed {
                message: request.message@,
                timestamp: text@,
            }),
            stamp is None ==> response is None,
    {
        match stamp {
            Some(timestamp) => Some(EchoResponse { message: request.message, timestamp }),
            None => None,
        }
    }

    /// Opens a repeated echo: the producer of the responses to `request`,
    /// which has not produced anything yet.
    pub fn echo_stream(&self, request: EchoStreamRequest) -> (producer: StreamProducer)
        ensures
            producer@ == ProducerModel::start(request.message@, request.repeat_count as nat),
    {
        StreamProducer::new(request)
    }
}

} // verus!
