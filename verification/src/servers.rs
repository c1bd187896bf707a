//! The two roles of a server, and what both share: the life of a connection
//! and the reading of a request.

use vstd::prelude::*;
use crate::command::{parsed_command, CommandError, CommandView};
use crate::frame::{decoding, FrameView};

pub mod redis;
pub mod slave;

verus! {

/// The state of a connection.
#[derive(Debug, Clone, Copy, PartialEq, Eq, Structural)]
pub enum Connection {
    /// Requests are read and answered.
    Open,
    /// Nothing more is read or written.
    Closed,
}

/// How a read on a connection ended.
#[derive(Debug)]
pub enum ReadOutcome {
    /// Bytes arrived.
    Data(Vec<u8>),
    /// The read returned nothing: the peer has closed.
    End,
    /// The read failed.
    Failed,
}

/// What a connection does after a read: its next state, and the bytes to
/// write to the peer.
#[derive(Debug)]
pub struct Step {
    pub state: Connection,
    pub output: Vec<u8>,
}

/// The state of a connection after a read: an open connection stays open
/// when bytes arrived, and closes when the peer has closed or the read
/// failed. A closed connection stays closed.
pub open spec fn next_connection(state: Connection, event: ReadOutcome) -> Connection {
    match (state, event) {
        (Connection::Open, ReadOutcome::Data(_)) => Connection::Open,
        _ => Connection::Closed,
    }
}

/// The state of a connection after a write: a write that failed closes it.
pub fn after_write(state: Connection, written: bool) -> (next: Connection)
    ensures
        next == (if written {
            state
        } else {
            Connection::Closed
        }),
{
    if written {
        state
    } else {
        Connection::Closed
    }
}

/// The request that a received text makes. A text that is not an array
/// frame is an unknown request.
pub open spec fn request(input: Seq<char>) -> Result<CommandView, CommandError> {
    match decoding(input) {
        FrameView::Array(words) => parsed_command(words),
        _ => Ok(CommandView::Unknown),
    }
}

} // verus!
