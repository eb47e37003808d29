//! The messages of the echo service.

use vstd::prelude::*;
use crate::timestamp::timestamp_text;

verus! {

/// The request of a unary echo.
#[derive(Clone, Debug, PartialEq, Eq)]
pub struct EchoRequest {
    pub message: String,
}

/// The request of a repeated echo: `repeat_count` responses are asked for,
/// and zero is a valid count.
#[derive(Clone, Debug, PartialEq, Eq)]
pub struct EchoStreamRequest {
    pub message: String,
    pub repeat_count: u32,
}

/// One response: the request's message and the time at which the response
/// was made.
#[derive(Clone, Debug, PartialEq, Eq)]
pub struct EchoResponse {
    pub message: String,
    pub timestamp: String,
}

/// What a response says, as text.
pub ghost struct Echoed {
    pub message: Seq<char>,
    pub timestamp: Seq<char>,
}

impl View for EchoResponse {
    type V = Echoed;

    open spec fn view(&self) -> Echoed {
        Echoed { message: self.message@, timestamp: self.timestamp@ }
    }
}

/// The response to `message` made at the instant `now`, in seconds since the
/// epoch: the message unchanged, with the timestamp of that instant.
pub open spec fn echoed_at(message: Seq<char>, now: int) -> Echoed {
    Echoed { message, timestamp: timestamp_text(now) }
}

} // verus!
