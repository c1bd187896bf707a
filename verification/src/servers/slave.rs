//! The replica: it answers the few requests that it serves itself, and
//! opens its life with a handshake with its primary.

use vstd::prelude::*;
use vstd::string::*;
use crate::command::{parse_command, Command, CommandError, CommandView};
use crate::frame::{decode, decoding, encode, encoding, lemma_decode_encode, Frame, FrameView};
use crate::servers::redis::{full_resync, Redis};
use crate::servers::{next_connection, request, Connection, ReadOutcome, Step};
use crate::snapshot::{first_line_len, line_cut, receipt, receive_rdb, Receipt};
use crate::text::{
    bytes_of, crlf_at, decimal, find_space, is_digit, lemma_decimal_value, lemma_find_space_hit,
    lossy_text, parse_decimal, parsed_decimal, single_line, space_from, str_views, string_of,
    to_chars, to_wire, utf8_lossy, wire_bytes,
};
use crate::{make_resp_array, resp_array, simple_string};

verus! {

/// A replica server.
pub struct Slave {
    pub master_address: String,
    pub my_port: String,
    pub replication_id: String,
    pub replication_offset: u64,
}

/// How far the handshake with the primary has come.
#[derive(Debug, Clone, Copy, PartialEq, Eq, Structural)]
pub enum Handshake {
    /// `PING` is on its way; `PONG` is awaited.
    Start,
    /// The primary answered the ping; the listening port is on its way.
    PingSent,
    /// The listening port is acknowledged; the capabilities are on their way.
    ReplConfPort,
    /// The capabilities are acknowledged; `PSYNC` is on its way.
    ReplConfCapa,
    /// The status text of the full resync has come; the snapshot is awaited.
    FullResync,
    /// The snapshot has come. Nothing more is read.
    Synced,
}

/// What a replica does after a reply of the primary: its next state, whether
/// the reply was other than the one awaited, the request to send next, and
/// how many bytes at the end of the reply it has not used up. The caller
/// hands those bytes over again, followed by what comes next.
#[derive(Debug)]
pub struct HandshakeStep {
    pub next: Handshake,
    pub unexpected: bool,
    pub send: Option<String>,
    pub kept: usize,
}

/// The state after a text reply. The handshake goes on whatever the reply
/// was. A text does not move a replica that awaits the snapshot or is synced.
pub open spec fn after_reply(state: Handshake) -> Handshake {
    match state {
        Handshake::Start => Handshake::PingSent,
        Handshake::PingSent => Handshake::ReplConfPort,
        Handshake::ReplConfPort => Handshake::ReplConfCapa,
        Handshake::ReplConfCapa => Handshake::FullResync,
        Handshake::FullResync => Handshake::FullResync,
        Handshake::Synced => Handshake::Synced,
    }
}

/// The state of a replica that awaits the snapshot, after the bytes
/// `received`: it stays where it is while the snapshot is partial, and is
/// synced once it is complete, or once the bytes prove to be no snapshot.
pub open spec fn after_snapshot(received: Seq<u8>) -> Handshake {
    match receipt(received) {
        Receipt::Partial => Handshake::FullResync,
        _ => Handshake::Synced,
    }
}

/// What follows the status text in the bytes that answer `PSYNC`: the
/// beginning of the snapshot, where it came together with the status text.
pub open spec fn after_status(reply: Seq<u8>) -> Seq<u8> {
    reply.skip(line_cut(reply))
}

/// The state after the bytes `reply` have come in `state`.
pub open spec fn next_handshake(state: Handshake, reply: Seq<u8>) -> Handshake {
    match state {
        Handshake::ReplConfCapa => if after_status(reply).len() == 0 {
            Handshake::FullResync
        } else {
            after_snapshot(after_status(reply))
        },
        Handshake::FullResync => after_snapshot(reply),
        _ => after_reply(state),
    }
}

/// The bytes of `reply` that a replica in `state` reads as text: all of
/// them, but after `PSYNC` the first line only.
pub open spec fn text_bytes(state: Handshake, reply: Seq<u8>) -> Seq<u8> {
    match state {
        Handshake::ReplConfCapa => reply.take(line_cut(reply)),
        _ => reply,
    }
}

/// The text that a replica in `state` reads from the bytes `reply`.
pub open spec fn reply_text(state: Handshake, reply: Seq<u8>) -> Seq<char> {
    utf8_lossy(text_bytes(state, reply))
}

/// How many bytes at the end of `reply` a replica in `state` has not used
/// up: those of a snapshot that is still partial.
pub open spec fn kept_bytes(state: Handshake, reply: Seq<u8>) -> int {
    match state {
        Handshake::ReplConfCapa => if receipt(after_status(reply)) == Receipt::Partial {
            after_status(reply).len() as int
        } else {
            0
        },
        Handshake::FullResync => if receipt(reply) == Receipt::Partial {
            reply.len() as int
        } else {
            0
        },
        _ => 0,
    }
}

/// The words of the request that a replica listening on `port` sends on
/// entering `state`, if it sends one.
pub open spec fn handshake_words(state: Handshake, port: Seq<char>) -> Option<Seq<Seq<char>>> {
    match state {
        Handshake::Start => Some(seq!["PING"@]),
        Handshake::PingSent => Some(seq!["REPLCONF"@, "listening-port"@, port]),
        Handshake::ReplConfPort => Some(seq!["REPLCONF"@, "capa"@, "psync2"@]),
        Handshake::ReplConfCapa => Some(seq!["PSYNC"@, "?"@, "-1"@]),
        Handshake::FullResync => None,
        Handshake::Synced => None,
    }
}

/// The request that a replica listening on `port` sends on entering
/// `state`, as text for the wire.
pub open spec fn handshake_request(state: Handshake, port: Seq<char>) -> Option<Seq<char>> {
    match handshake_words(state, port) {
        Some(words) => Some(resp_array(words)),
        None => None,
    }
}

/// The replication id and offset that the status text of a full resync
/// carries: `FULLRESYNC`, a space, the id, a space, the offset in decimal.
pub open spec fn resync_header(s: Seq<char>) -> Option<(Seq<char>, u64)> {
    let i = find_space(s, 0);
    let j = find_space(s, i + 1);
    if s.take(i) == "FULLRESYNC"@ && i < j && j < s.len() {
        match parsed_decimal(s.skip(j + 1)) {
            Some(n) => Some((s.subrange(i + 1, j), n)),
            None => None,
        }
    } else {
        None
    }
}

/// Whether the text `reply` is what a replica in `state` awaits: `PONG`
/// after the ping, `OK` after each part of the configuration, and the
/// status text of a full resync after `PSYNC`. In the last two states no
/// text is awaited.
pub open spec fn awaited_text(state: Handshake, reply: Seq<char>) -> bool {
    match state {
        Handshake::Start => decoding(reply) == FrameView::SimpleString("PONG"@),
        Handshake::PingSent => decoding(reply) == FrameView::SimpleString("OK"@),
        Handshake::ReplConfPort => decoding(reply) == FrameView::SimpleString("OK"@),
        Handshake::ReplConfCapa => match decoding(reply) {
            FrameView::SimpleString(s) => resync_header(s) is Some,
            _ => false,
        },
        Handshake::FullResync => false,
        Handshake::Synced => false,
    }
}

/// Whether the bytes `reply` are what a replica in `state` awaits: the
/// awaited text; after `PSYNC` the status text of a full resync, alone or
/// followed by a snapshot, partial or complete; then a snapshot, partial or
/// complete. Once synced it awaits nothing.
pub open spec fn awaited(state: Handshake, reply: Seq<u8>) -> bool {
    match state {
        Handshake::ReplConfCapa => awaited_text(state, reply_text(state, reply)) && receipt(
            after_status(reply),
        ) != Receipt::Invalid,
        Handshake::FullResync => receipt(reply) != Receipt::Invalid,
        Handshake::Synced => false,
        _ => awaited_text(state, reply_text(state, reply)),
    }
}

/// The replication id and offset that a text reply received in `state`
/// brings.
pub open spec fn learned(state: Handshake, reply: Seq<char>) -> Option<(Seq<char>, u64)> {
    match (state, decoding(reply)) {
        (Handshake::ReplConfCapa, FrameView::SimpleString(s)) => resync_header(s),
        _ => None,
    }
}

/// The frame by which a replica answers a request.
pub open spec fn replica_reply(req: Result<CommandView, CommandError>) -> FrameView {
    match req {
        Ok(CommandView::Ping) => FrameView::SimpleString("PONG"@),
        Ok(CommandView::Echo(text)) => FrameView::BulkString(text),
        Ok(CommandView::Info) => FrameView::BulkString("role:slave"@),
        _ => FrameView::NullBulkString,
    }
}

/// The status text by which a primary opens a full resync carries its
/// replication id and offset back to the replica that reads it, where the id
/// holds no space.
pub proof fn lemma_resync_header_of_status(id: Seq<char>, offset: u64)
    requires
        forall|k: int| 0 <= k < id.len() ==> id[k] != ' ',
    ensures
        resync_header(full_resync(id, offset)) == Some((id, offset)),
{
    reveal_strlit("FULLRESYNC ");
    reveal_strlit("FULLRESYNC");
    let s = full_resync(id, offset);
    let j = 11 + id.len() as int;
    lemma_decimal_value(offset as nat);
    lemma_find_space_hit(s, 0, 10);
    lemma_find_space_hit(s, 11, j);
    assert(s.take(10) =~= "FULLRESYNC"@);
    assert(s.skip(j + 1) =~= decimal(offset as nat));
    assert(s.subrange(11, j) =~= id);
}

/// A replica awaits what a primary answers: `PONG` to the ping, `OK` to each
/// part of the configuration, and to `PSYNC` the status text of a full
/// resync, from which the replica learns the primary's replication id and
/// offset. The last holds of a replication id that is a single line
/// without a space.
pub proof fn lemma_replica_awaits_primary(primary: Redis, now: u64, id: Seq<char>, offset: u64)
    requires
        single_line(id),
        forall|k: int| 0 <= k < id.len() ==> id[k] != ' ',
    ensures
        awaited_text(Handshake::Start, encoding(primary.reply(Ok(CommandView::Ping), now))),
        awaited_text(Handshake::PingSent, encoding(primary.reply(Ok(CommandView::ReplConf), now))),
        awaited_text(
            Handshake::ReplConfPort,
            encoding(primary.reply(Ok(CommandView::ReplConf), now)),
        ),
        awaited_text(Handshake::ReplConfCapa, simple_string(full_resync(id, offset))),
        learned(Handshake::ReplConfCapa, simple_string(full_resync(id, offset))) == Some(
            (id, offset),
        ),
{
    reveal_strlit("PONG");
    reveal_strlit("OK");
    reveal_strlit("FULLRESYNC ");
    assert(single_line("PONG"@));
    assert(single_line("OK"@));
    lemma_decode_encode(FrameView::SimpleString("PONG"@));
    lemma_decode_encode(FrameView::SimpleString("OK"@));
    let status = full_resync(id, offset);
    lemma_decimal_value(offset as nat);
    assert(single_line(status)) by {
        assert forall|j: int| !crlf_at(status, j) by {
            if crlf_at(status, j) {
                if j < 10 {
                } else if j == 10 {
                } else if j + 1 < 11 + id.len() {
                    assert(crlf_at(id, j - 11));
                } else if j + 1 == 11 + id.len() {
                    assert(status[j + 1] == ' ');
                } else if j == 11 + id.len() {
                } else {
                    assert(is_digit(decimal(offset as nat)[j - 12 - id.len()]));
                }
            }
        }
    }
    lemma_decode_encode(FrameView::SimpleString(status));
    lemma_resync_header_of_status(id, offset);
}

/// Reads the replication id and offset from the status text of a full
/// resync.
pub fn parse_resync_header(text: &str) -> (res: Option<(String, u64)>)
    ensures
        match res {
            Some((id, n)) => resync_header(text@) == Some((id@, n)),
            None => resync_header(text@) is None,
        },
{
    let chars = to_chars(text);
    let n = chars.len();
    let i = space_from(&chars, 0);
    let j = if i < n {
        space_from(&chars, i + 1)
    } else {
        n
    };
    let name = string_of(&chars, 0, i);
    let expected = String::from_str("FULLRESYNC");
    proof {
        assert(chars@.subrange(0, i as int) =~= text@.take(i as int));
    }
    if name == expected && i < j && j < n {
        let tail = string_of(&chars, j + 1, n);
        proof {
            assert(chars@.subrange(j as int + 1, n as int) =~= text@.skip(j as int + 1));
        }
        let digits = to_chars(tail.as_str());
        match parse_decimal(&digits) {
            Some(offset) => Some((string_of(&chars, i + 1, j), offset)),
            None => None,
        }
    } else {
        None
    }
}

impl Slave {
    /// A replica of the primary at `master_address` that listens on
    /// `my_port`. It knows no replication id yet, and its offset is 0.
    pub fn new(master_address: String, my_port: String) -> (slave: Slave)
        ensures
            slave.master_address == master_address,
            slave.my_port == my_port,
            slave.replication_id@ == Seq::<char>::empty(),
            slave.replication_offset == 0,
    {
        Slave { master_address, my_port, replication_id: String::new(), replication_offset: 0 }
    }

    /// One read on a client's connection. Bytes that arrived on an open
    /// connection are read as text and answered, and the connection stays
    /// open; the end of the stream or a failed read closes it, and nothing
    /// is written.
    pub fn handle_client(&mut self, state: Connection, event: ReadOutcome) -> (step: Step)
        ensures
            step.state == next_connection(state, event),
            *final(self) == *old(self),
            match (state, event) {
                (Connection::Open, ReadOutcome::Data(bytes)) => {
                    &&& step.output@ == wire_bytes(
                        encoding(replica_reply(request(utf8_lossy(bytes@)))),
                    )
                    &&& vstd::utf8::valid_utf8(bytes@) ==> utf8_lossy(bytes@)
                        == vstd::utf8::decode_utf8(bytes@)
                },
                _ => step.output@ == Seq::<u8>::empty(),
            },
    {
        match (state, event) {
            (Connection::Open, ReadOutcome::Data(bytes)) => {
                let output = self.handle_input(lossy_text(&bytes));
                Step { state: Connection::Open, output }
            },
            _ => Step { state: Connection::Closed, output: Vec::new() },
        }
    }

    /// Answers one received text. A replica serves `PING`, `ECHO` and
    /// `INFO`; it answers every other text by the absent value.
    pub fn handle_input(&mut self, input: String) -> (output: Vec<u8>)
        ensures
            output@ == wire_bytes(encoding(replica_reply(request(input@)))),
            *final(self) == *old(self),
    {
        let req = match decode(input.as_str()) {
            Frame::Array(words) => parse_command(&words),
            _ => Ok(Command::Unknown),
        };
        let reply = match req {
            Ok(Command::Ping) => Frame::SimpleString(String::from_str("PONG")),
            Ok(Command::Echo(text)) => self.handle_echo(text),
            Ok(Command::Info) => self.handle_info(),
            _ => Frame::NullBulkString,
        };
        to_wire(encode(&reply).as_str())
    }

    /// The reply to `ECHO`: the text, length-prefixed.
    pub fn handle_echo(&self, text: String) -> (reply: Frame)
        ensures
            reply@ == FrameView::BulkString(text@),
    {
        Frame::BulkString(text)
    }

    /// The reply to `INFO`: the role, as a length-prefixed text.
    pub fn handle_info(&self) -> (reply: Frame)
        ensures
            reply@ == FrameView::BulkString("role:slave"@),
    {
        Frame::BulkString(String::from_str("role:slave"))
    }

    /// The request that opens the handshake: `PING`, as an array.
    pub fn ping_master(&self) -> (request: String)
        ensures
            Some(request@) == handshake_request(Handshake::Start, self.my_port@),
    {
        let mut words: Vec<&str> = Vec::new();
        words.push("PING");
        proof {
            assert(str_views(words@) =~= seq!["PING"@]);
        }
        make_resp_array(words)
    }

    /// The request of the configuration phase that is sent on entering
    /// `state`: the listening port once the ping is answered, the
    /// capabilities once the port is acknowledged, and none in other states.
    pub fn send_conf_to_master(&self, state: Handshake) -> (request: Option<String>)
        ensures
            match state {
                Handshake::PingSent | Handshake::ReplConfPort => request is Some
                    && handshake_request(state, self.my_port@) == Some(request->0@),
                _ => request is None,
            },
    {
        let mut words: Vec<&str> = Vec::new();
        match state {
            Handshake::PingSent => {
                words.push("REPLCONF");
                words.push("listening-port");
                words.push(self.my_port.as_str());
                proof {
                    assert(str_views(words@) =~= seq![
                        "REPLCONF"@,
                        "listening-port"@,
                        self.my_port@,
                    ]);
                }
                Some(make_resp_array(words))
            },
            Handshake::ReplConfPort => {
                words.push("REPLCONF");
                words.push("capa");
                words.push("psync2");
                proof {
                    assert(str_views(words@) =~= seq!["REPLCONF"@, "capa"@, "psync2"@]);
                }
                Some(make_resp_array(words))
            },
            _ => None,
        }
    }

    /// The request that asks for a full resync: `PSYNC ? -1`.
    pub fn send_psync_to_master(&self) -> (request: String)
        ensures
            Some(request@) == handshake_request(Handshake::ReplConfCapa, self.my_port@),
    {
        let mut words: Vec<&str> = Vec::new();
        words.push("PSYNC");
        words.push("?");
        words.push("-1");
        proof {
            assert(str_views(words@) =~= seq!["PSYNC"@, "?"@, "-1"@]);
        }
        make_resp_array(words)
    }

    /// The request that a replica sends on entering `state`, if any.
    pub fn handshake_send(&self, state: Handshake) -> (request: Option<String>)
        ensures
            match request {
                Some(text) => handshake_request(state, self.my_port@) == Some(text@),
                None => handshake_request(state, self.my_port@) is None,
            },
    {
        match state {
            Handshake::Start => Some(self.ping_master()),
            Handshake::PingSent => self.send_conf_to_master(state),
            Handshake::ReplConfPort => self.send_conf_to_master(state),
            Handshake::ReplConfCapa => Some(self.send_psync_to_master()),
            Handshake::FullResync => None,
            Handshake::Synced => None,
        }
    }

    /// One step of the handshake: the bytes `reply` of the primary have come
    /// while the replica was in `state`. Before the snapshot is awaited the
    /// bytes are read as text, see `on_reply`; then they are the snapshot as
    /// far as it has come, see `on_snapshot`. Where the snapshot, or its
    /// beginning, comes together with the status text of the full resync,
    /// both are read in one step. A synced replica awaits nothing and stays
    /// as it is.
    pub fn handshake_step(&mut self, state: Handshake, reply: &Vec<u8>) -> (step: HandshakeStep)
        ensures
            step.next == next_handshake(state, reply@),
            step.unexpected == !awaited(state, reply@),
            step.kept == kept_bytes(state, reply@),
            step.kept <= reply@.len(),
            match step.send {
                Some(text) => handshake_request(step.next, old(self).my_port@) == Some(text@),
                None => handshake_request(step.next, old(self).my_port@) is None,
            },
            final(self).master_address == old(self).master_address,
            final(self).my_port == old(self).my_port,
            match state {
                Handshake::FullResync | Handshake::Synced => *final(self) == *old(self),
                _ => match learned(state, reply_text(state, reply@)) {
                    Some((id, n)) => {
                        &&& final(self).replication_id@ == id
                        &&& final(self).replication_offset == n
                    },
                    None => {
                        &&& final(self).replication_id == old(self).replication_id
                        &&& final(self).replication_offset == old(self).replication_offset
                    },
                },
            },
            state != Handshake::FullResync && state != Handshake::Synced && vstd::utf8::valid_utf8(
                text_bytes(state, reply@),
            ) ==> reply_text(state, reply@) == vstd::utf8::decode_utf8(text_bytes(state, reply@)),
    {
        match state {
            Handshake::FullResync => self.on_snapshot(reply),
            Handshake::Synced => HandshakeStep {
                next: Handshake::Synced,
                unexpected: true,
                send: None,
                kept: 0,
            },
            Handshake::ReplConfCapa => {
                let cut = first_line_len(reply);
                let status = bytes_of(reply, 0, cut);
                let rest = bytes_of(reply, cut, reply.len());
                proof {
                    assert(status@ =~= reply@.take(cut as int));
                    assert(rest@ =~= after_status(reply@));
                }
                let text = lossy_text(&status);
                let first = self.on_reply(state, text.as_str());
                if rest.len() == 0 {
                    first
                } else {
                    let second = self.on_snapshot(&rest);
                    HandshakeStep {
                        next: second.next,
                        unexpected: first.unexpected || second.unexpected,
                        send: None,
                        kept: second.kept,
                    }
                }
            },
            _ => {
                let text = lossy_text(reply);
                self.on_reply(state, text.as_str())
            },
        }
    }

    /// A text reply of the primary has come while the replica was in
    /// `state`. The replica moves on whatever the reply was, says so where
    /// it was not the one awaited, and names the request to send next. The
    /// status text of a full resync brings the replication id and offset,
    /// which the replica keeps; any other reply leaves it as it is.
    pub fn on_reply(&mut self, state: Handshake, reply: &str) -> (step: HandshakeStep)
        ensures
            step.next == after_reply(state),
            step.unexpected == !awaited_text(state, reply@),
            step.kept == 0,
            match step.send {
                Some(text) => handshake_request(step.next, old(self).my_port@) == Some(text@),
                None => handshake_request(step.next, old(self).my_port@) is None,
            },
            final(self).master_address == old(self).master_address,
            final(self).my_port == old(self).my_port,
            match learned(state, reply@) {
                Some((id, n)) => {
                    &&& final(self).replication_id@ == id
                    &&& final(self).replication_offset == n
                },
                None => {
                    &&& final(self).replication_id == old(self).replication_id
                    &&& final(self).replication_offset == old(self).replication_offset
                },
            },
    {
        let frame = decode(reply);
        let expected = match state {
            Handshake::Start => Slave::is_status(&frame, "PONG"),
            Handshake::PingSent => Slave::is_status(&frame, "OK"),
            Handshake::ReplConfPort => Slave::is_status(&frame, "OK"),
            Handshake::ReplConfCapa => {
                let header = match &frame {
                    Frame::SimpleString(s) => parse_resync_header(s.as_str()),
                    _ => None,
                };
                match header {
                    Some((id, n)) => {
                        self.replication_id = id;
                        self.replication_offset = n;
                        true
                    },
                    None => false,
                }
            },
            Handshake::FullResync => false,
            Handshake::Synced => false,
        };
        let next = match state {
            Handshake::Start => Handshake::PingSent,
            Handshake::PingSent => Handshake::ReplConfPort,
            Handshake::ReplConfPort => Handshake::ReplConfCapa,
            Handshake::ReplConfCapa => Handshake::FullResync,
            Handshake::FullResync => Handshake::FullResync,
            Handshake::Synced => Handshake::Synced,
        };
        let send = match state {
            Handshake::FullResync => None,
            Handshake::Synced => None,
            _ => self.handshake_send(next),
        };
        HandshakeStep { next, unexpected: !expected, send, kept: 0 }
    }

    /// The bytes `received` have come since the status text of a full
    /// resync. The replica goes on awaiting while the snapshot is partial,
    /// and keeps all the bytes; it is synced once the snapshot is complete.
    /// Bytes that are no snapshot end the handshake too, as an unexpected
    /// reply.
    pub fn on_snapshot(&self, received: &Vec<u8>) -> (step: HandshakeStep)
        ensures
            step.next == after_snapshot(received@),
            step.unexpected == (receipt(received@) == Receipt::Invalid),
            step.send is None,
            step.kept == kept_bytes(Handshake::FullResync, received@),
    {
        match receive_rdb(received) {
            Receipt::Partial => HandshakeStep {
                next: Handshake::FullResync,
                unexpected: false,
                send: None,
                kept: received.len(),
            },
            Receipt::Complete => HandshakeStep {
                next: Handshake::Synced,
                unexpected: false,
                send: None,
                kept: 0,
            },
            Receipt::Invalid => HandshakeStep {
                next: Handshake::Synced,
                unexpected: true,
                send: None,
                kept: 0,
            },
        }
    }

    /// Whether `frame` is the status text `text`.
    pub fn is_status(frame: &Frame, text: &str) -> (same: bool)
        ensures
            same == (frame@ == FrameView::SimpleString(text@)),
    {
        match frame {
            Frame::SimpleString(s) => {
                let expected = String::from_str(text);
                *s == expected
            },
            _ => false,
        }
    }
}

} // verus!
