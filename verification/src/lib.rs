//! A minimal echo service core: a UTC timestamp formatter built on explicit
//! Gregorian calendar arithmetic, the unary echo operation, and the producer
//! side of the paced, cancellable repeated-echo stream.
//!
//! The transport is not part of this crate. A driver owns the channel to the
//! consumer and the timer; it hands the producer what happened and carries out
//! what the producer answers.

pub mod calendar;
pub mod decimal;
pub mod message;
pub mod service;
pub mod stream;
pub mod timestamp;

pub use calendar::is_leap;
pub use message::{EchoRequest, EchoResponse, EchoStreamRequest};
pub use service::EchoServiceImpl;
pub use stream::{Phase, StreamAction, StreamEvent, StreamProducer};
pub use timestamp::{chrono_now, format_timestamp};
