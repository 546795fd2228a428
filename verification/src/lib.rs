//! Streams that arrive as records on a Kinesis data stream. One record is
//! one Stream, its sequence number kept beside it.
//!
//! Kinesis is the event log of every organisation that lives in AWS, and
//! its JSON API is three calls a Location makes: put a record on a stream,
//! ask for an iterator over a shard at a position, take records with it. A
//! Receive Location reads its shard on from where it last stopped and hands
//! each record on as a Stream; a Send Location puts a Stream as one record.
//!
//! ```text
//! transport.rs  a Location: where it stands, what it sends and hands on
//! client.rs     the near side: put a record, get an iterator, get records
//! session.rs    the far end a test or the playground runs on loopback
//! document.rs   JSON documents, read and built
//! encoding.rs   record bytes as base64
//! text.rs       numerals and iterators in characters
//! error.rs      failures, and Streams as they arrive
//! laws.rs       what holds between the two ends
//! ```
//!
//! Nothing here opens a connection. A [`Call`] says what is to be sent, where
//! and signed as whom; whoever carries it out hands the reply back, and a
//! session is handed what a request came to and says what to answer.
//!
//! A record is bytes, base64 on the wire, one mebibyte at most: [`ceiling`].

pub mod client;
pub mod document;
pub mod encoding;
pub mod error;
pub mod laws;
pub mod session;
pub mod text;
pub mod transport;

pub use client::{Call, Client, Position, Record, Signer, MAX_RECORDS};
pub use error::{Arrived, TransportError};
pub use session::{Event, Held, Reply, Session};
pub use transport::{Directions, KinesisTransport, Next, Receiving};

use vstd::prelude::*;

verus! {

/// The largest record Kinesis carries: one mebibyte.
#[must_use]
pub fn ceiling() -> (bytes: usize)
    ensures
        bytes == 1024 * 1024,
{
    1024 * 1024
}

/// The one shard a stream opens with, and the one the session holds.
pub const SHARD: &'static str = "shardId-000000000000";

} // verus!
