//! The primary: it owns the store, answers requests, and serves a full
//! resync to a replica that asks for one.

use vstd::prelude::*;
use vstd::string::*;
use crate::command::{
    lemma_unknown_command, names_command, parse_command, Command, CommandError, CommandView,
};
use crate::frame::{decode, decoding, encode, encoding, Frame, FrameView};
use crate::servers::{next_connection, request, Connection, ReadOutcome, Step};
use crate::snapshot::{
    decode_snapshot, decoded_snapshot, frame_rdb, rdb_frame, snapshot_view, SnapshotError,
    EMPTY_RDB,
};
use crate::store::{after_get, after_set, lookup, RecordView, Store};
use crate::text::{
    decimal, lossy_text, push_bytes, push_decimal, str_views, to_wire, utf8_lossy, wire_bytes,
};
use crate::{join_lines, join_words, null_bulk_string, simple_string};

verus! {

/// A primary server.
pub struct Redis {
    pub data: Store,
    pub my_port: String,
    pub master_replid: Option<String>,
    pub master_repl_offset: Option<u64>,
}

/// The lines of the `INFO` payload of a primary: its role, then its
/// replication id and its replication offset, each where it has one.
pub open spec fn info_lines(replid: Option<Seq<char>>, offset: Option<u64>) -> Seq<Seq<char>> {
    seq!["role:master"@] + (match replid {
        Some(id) => seq!["master_replid:"@ + id],
        None => Seq::empty(),
    }) + (match offset {
        Some(n) => seq!["master_repl_offset:"@ + decimal(n as nat)],
        None => Seq::empty(),
    })
}

/// The status text that opens a full resync.
pub open spec fn full_resync(replid: Seq<char>, offset: u64) -> Seq<char> {
    "FULLRESYNC "@ + replid + seq![' '] + decimal(offset as nat)
}

/// The bytes that carry the snapshot after the status text of a full
/// resync, where the stored snapshot can be decoded.
pub open spec fn snapshot_bytes() -> Result<Seq<u8>, SnapshotError> {
    match decoded_snapshot(EMPTY_RDB@) {
        Ok(content) => Ok(rdb_frame(content)),
        Err(e) => Err(e),
    }
}

/// A text whose first word names no command of this server is answered by
/// the absent value; it leaves the store as it is, and the connection on
/// which it came stays open.
pub proof fn lemma_unknown_request(redis: Redis, input: Seq<char>, event: ReadOutcome, now: u64)
    requires
        event is Data,
        decoding(input) is Array,
        !names_command(decoding(input)->Array_0),
    ensures
        redis.response(request(input), now) == wire_bytes(null_bulk_string()),
        redis.data_after(request(input), now) == redis.data@,
        next_connection(Connection::Open, event) == Connection::Open,
{
    lemma_unknown_command(decoding(input)->Array_0);
    assert(redis.response(request(input), now) =~= wire_bytes(null_bulk_string()));
}

impl Redis {
    /// The replication id, as a mathematical value.
    pub open spec fn replid(&self) -> Option<Seq<char>> {
        match self.master_replid {
            Some(id) => Some(id@),
            None => None,
        }
    }

    /// Whether this server can serve a full resync: it has a replication id
    /// and a replication offset, and its stored snapshot can be decoded.
    pub open spec fn serves_resync(&self) -> bool {
        self.master_replid is Some && self.master_repl_offset is Some && snapshot_bytes() is Ok
    }

    /// The frame that answers `PSYNC`: the status text of a full resync, or
    /// the absent value where this server cannot serve one.
    pub open spec fn resync_reply(&self) -> FrameView {
        if self.serves_resync() {
            FrameView::SimpleString(full_resync(self.replid()->0, self.master_repl_offset->0))
        } else {
            FrameView::NullBulkString
        }
    }

    /// The frame that answers a request made at the instant `now`.
    pub open spec fn reply(&self, req: Result<CommandView, CommandError>, now: u64) -> FrameView {
        match req {
            Ok(CommandView::Ping) => FrameView::SimpleString("PONG"@),
            Ok(CommandView::Echo(text)) => FrameView::BulkString(text),
            Ok(CommandView::SetKey { key, value, ttl }) => FrameView::SimpleString("OK"@),
            Ok(CommandView::GetKey(key)) => match lookup(self.data@, key, now) {
                Some(value) => FrameView::BulkString(value),
                None => FrameView::NullBulkString,
            },
            Ok(CommandView::Info) => FrameView::BulkString(
                join_lines(info_lines(self.replid(), self.master_repl_offset)),
            ),
            Ok(CommandView::ReplConf) => FrameView::SimpleString("OK"@),
            Ok(CommandView::Psync) => self.resync_reply(),
            Ok(CommandView::Unknown) => FrameView::NullBulkString,
            Err(_) => FrameView::NullBulkString,
        }
    }

    /// The store after a request made at the instant `now`.
    pub open spec fn data_after(&self, req: Result<CommandView, CommandError>, now: u64) -> Map<
        Seq<char>,
        RecordView,
    > {
        match req {
            Ok(CommandView::SetKey { key, value, ttl }) => after_set(
                self.data@,
                key,
                value,
                ttl,
                now,
            ),
            Ok(CommandView::GetKey(key)) => after_get(self.data@, key, now),
            _ => self.data@,
        }
    }

    /// The bytes that answer `PSYNC` where the framed snapshot is `snapshot`:
    /// the status text of a full resync and after it the snapshot, or the
    /// absent value where this server has no replication id, no replication
    /// offset or no snapshot.
    pub open spec fn resync_of(&self, snapshot: Result<Seq<u8>, SnapshotError>) -> Seq<u8> {
        match (self.replid(), self.master_repl_offset, snapshot) {
            (Some(id), Some(n), Ok(bytes)) => wire_bytes(simple_string(full_resync(id, n))) + bytes,
            _ => wire_bytes(null_bulk_string()),
        }
    }

    /// The bytes that answer `PSYNC`.
    pub open spec fn resync(&self) -> Seq<u8> {
        self.resync_of(snapshot_bytes())
    }

    /// The bytes that answer a request made at the instant `now`: the reply
    /// frame, and after the status text of a full resync the snapshot.
    pub open spec fn response(&self, req: Result<CommandView, CommandError>, now: u64) -> Seq<u8> {
        match req {
            Ok(CommandView::Psync) => self.resync(),
            _ => wire_bytes(encoding(self.reply(req, now))),
        }
    }

    /// Whether `other` has the configuration of this server.
    pub open spec fn same_config(&self, other: &Redis) -> bool {
        &&& self.my_port == other.my_port
        &&& self.master_replid == other.master_replid
        &&& self.master_repl_offset == other.master_repl_offset
    }

    /// A primary with an empty store.
    pub fn new(my_port: String, master_replid: Option<String>, master_repl_offset: Option<u64>) -> (redis:
        Redis)
        ensures
            redis.data@ == Map::<Seq<char>, RecordView>::empty(),
            redis.my_port == my_port,
            redis.master_replid == master_replid,
            redis.master_repl_offset == master_repl_offset,
    {
        Redis { data: Store::new(), my_port, master_replid, master_repl_offset }
    }

    /// One read on a client's connection, at the instant `now`. Bytes that
    /// arrived on an open connection are read as text and answered, and the
    /// connection stays open; the end of the stream or a failed read closes
    /// it. Nothing is written at a close or on a closed connection, and the
    /// store stays as it is.
    pub fn handle_client(&mut self, state: Connection, event: ReadOutcome, now: u64) -> (step: Step)
        ensures
            step.state == next_connection(state, event),
            old(self).same_config(final(self)),
            match (state, event) {
                (Connection::Open, ReadOutcome::Data(bytes)) => {
                    &&& step.output@ == old(self).response(request(utf8_lossy(bytes@)), now)
                    &&& final(self).data@ == old(self).data_after(
                        request(utf8_lossy(bytes@)),
                        now,
                    )
                    &&& vstd::utf8::valid_utf8(bytes@) ==> utf8_lossy(bytes@)
                        == vstd::utf8::decode_utf8(bytes@)
                },
                _ => step.output@ == Seq::<u8>::empty() && final(self).data@ == old(self).data@,
            },
    {
        match (state, event) {
            (Connection::Open, ReadOutcome::Data(bytes)) => {
                let output = self.handle_input(lossy_text(&bytes), now);
                Step { state: Connection::Open, output }
            },
            _ => Step { state: Connection::Closed, output: Vec::new() },
        }
    }

    /// Answers one received text at the instant `now`: the text is read as a
    /// frame, the frame as a request, and the request is run. A text that
    /// makes no known request, or one with invalid arguments, is answered by
    /// the absent value.
    pub fn handle_input(&mut self, input: String, now: u64) -> (output: Vec<u8>)
        ensures
            output@ == old(self).response(request(input@), now),
            final(self).data@ == old(self).data_after(request(input@), now),
            old(self).same_config(final(self)),
    {
        let req = match decode(input.as_str()) {
            Frame::Array(words) => parse_command(&words),
            _ => Ok(Command::Unknown),
        };
        let reply = match req {
            Ok(Command::Ping) => Frame::SimpleString(String::from_str("PONG")),
            Ok(Command::Echo(text)) => self.handle_echo(text),
            Ok(Command::SetKey { key, value, ttl }) => self.handle_set(key, value, ttl, now),
            Ok(Command::GetKey(key)) => self.handle_get(key.as_str(), now),
            Ok(Command::Info) => self.handle_info(),
            Ok(Command::ReplConf) => Frame::SimpleString(String::from_str("OK")),
            Ok(Command::Psync) => {
                return self.handle_psync();
            },
            Ok(Command::Unknown) => Frame::NullBulkString,
            Err(_) => Frame::NullBulkString,
        };
        let output = to_wire(encode(&reply).as_str());
        proof {
            assert(output@ =~= old(self).response(request(input@), now));
        }
        output
    }

    /// The reply to `ECHO`: the text, length-prefixed.
    pub fn handle_echo(&self, text: String) -> (reply: Frame)
        ensures
            reply@ == FrameView::BulkString(text@),
    {
        Frame::BulkString(text)
    }

    /// Runs `SET` at the instant `now` and acknowledges it.
    pub fn handle_set(&mut self, key: String, value: String, ttl: Option<u64>, now: u64) -> (reply:
        Frame)
        ensures
            reply@ == FrameView::SimpleString("OK"@),
            final(self).data@ == after_set(old(self).data@, key@, value@, ttl, now),
            old(self).same_config(final(self)),
    {
        self.run_set(key, value, ttl, now);
        Frame::SimpleString(String::from_str("OK"))
    }

    /// Runs `GET` at the instant `now`: the value, length-prefixed, or the
    /// absent value where the key has none or its record has expired.
    pub fn handle_get(&mut self, key: &str, now: u64) -> (reply: Frame)
        ensures
            reply@ == (match lookup(old(self).data@, key@, now) {
                Some(value) => FrameView::BulkString(value),
                None => FrameView::NullBulkString,
            }),
            final(self).data@ == after_get(old(self).data@, key@, now),
            old(self).same_config(final(self)),
    {
        match self.run_get(key, now) {
            Some(value) => Frame::BulkString(value),
            None => Frame::NullBulkString,
        }
    }

    /// The reply to `INFO`: the role and the replication metadata, one to a
    /// line, as one length-prefixed text.
    pub fn handle_info(&self) -> (reply: Frame)
        ensures
            reply@ == FrameView::BulkString(
                join_lines(info_lines(self.replid(), self.master_repl_offset)),
            ),
    {
        let role = String::from_str("role:master");
        let mut replid = String::from_str("master_replid:");
        let mut offset = String::from_str("master_repl_offset:");
        let mut lines: Vec<&str> = Vec::new();
        lines.push(role.as_str());
        match &self.master_replid {
            Some(id) => {
                replid.append(id.as_str());
                lines.push(replid.as_str());
            },
            None => {},
        }
        match self.master_repl_offset {
            Some(n) => {
                push_decimal(&mut offset, n);
                lines.push(offset.as_str());
            },
            None => {},
        }
        proof {
            assert(str_views(lines@) =~= info_lines(self.replid(), self.master_repl_offset));
        }
        Frame::BulkString(join_words(&lines))
    }

    /// Writes `value` under `key` at the instant `now`, with an optional
    /// time to live in milliseconds.
    pub fn run_set(&mut self, key: String, value: String, ttl: Option<u64>, now: u64)
        ensures
            final(self).data@ == after_set(old(self).data@, key@, value@, ttl, now),
            old(self).same_config(final(self)),
    {
        self.data.set(key, value, ttl, now);
    }

    /// Reads `key` at the instant `now`. A record that has expired is
    /// removed and reads as absent.
    pub fn run_get(&mut self, key: &str, now: u64) -> (res: Option<String>)
        ensures
            final(self).data@ == after_get(old(self).data@, key@, now),
            old(self).same_config(final(self)),
            match res {
                Some(value) => lookup(old(self).data@, key@, now) == Some(value@),
                None => lookup(old(self).data@, key@, now) is None,
            },
    {
        self.data.get(key, now)
    }

    /// The answer to `PSYNC`: the status text of a full resync with this
    /// server's replication id and offset, and after it the snapshot. A
    /// server that has no replication id or offset, or cannot decode its
    /// snapshot, answers by the absent value.
    pub fn handle_psync(&self) -> (output: Vec<u8>)
        ensures
            output@ == self.resync(),
    {
        self.resync_with(self.send_rdb())
    }

    /// The answer to `PSYNC` where the framed snapshot is `snapshot`.
    pub fn resync_with(&self, snapshot: Result<Vec<u8>, SnapshotError>) -> (output: Vec<u8>)
        ensures
            output@ == self.resync_of(snapshot_view(snapshot)),
    {
        match (&self.master_replid, self.master_repl_offset, snapshot) {
            (Some(id), Some(n), Ok(bytes)) => {
                let mut status = String::from_str("FULLRESYNC ");
                status.append(id.as_str());
                status.push(' ');
                push_decimal(&mut status, n);
                proof {
                    assert(status@ =~= full_resync(id@, n));
                }
                let mut output = to_wire(encode(&Frame::SimpleString(status)).as_str());
                push_bytes(&mut output, &bytes);
                output
            },
            _ => to_wire(encode(&Frame::NullBulkString).as_str()),
        }
    }

    /// The snapshot as it follows the status text of a full resync.
    pub fn send_rdb(&self) -> (res: Result<Vec<u8>, SnapshotError>)
        ensures
            snapshot_view(res) == snapshot_bytes(),
    {
        match decode_snapshot(EMPTY_RDB) {
            Ok(content) => Ok(frame_rdb(&content)),
            Err(e) => Err(e),
        }
    }
}

} // verus!
