use redis_starter_rust::frame::Frame;
use redis_starter_rust::servers::redis::Redis;
use redis_starter_rust::servers::{after_write, Connection, ReadOutcome};
use redis_starter_rust::snapshot::{
    decode_snapshot, frame_rdb, receive_rdb, Receipt, SnapshotError, EMPTY_RDB,
};
use redis_starter_rust::make_resp_array;

const REPLID: &str = "8371b4fb1155b71f4a04d3e1bc3e18c4a990aeeb";

fn primary() -> Redis {
    Redis::new("6379".to_string(), Some(REPLID.to_string()), Some(0))
}

fn send(redis: &mut Redis, words: &[&str], now: u64) -> Vec<u8> {
    redis.handle_input(make_resp_array(words.to_vec()), now)
}

#[test]
fn ping_is_answered_by_pong() {
    let mut redis = primary();
    assert_eq!(redis.handle_input("*1\r\n$4\r\nPING\r\n".to_string(), 0), b"+PONG\r\n");
}

#[test]
fn set_then_get_through_requests() {
    let mut redis = primary();
    let set = "*3\r\n$3\r\nSET\r\n$3\r\nfoo\r\n$3\r\nbar\r\n".to_string();
    assert_eq!(redis.handle_input(set, 1000), b"+OK\r\n");
    let get = "*2\r\n$3\r\nGET\r\n$3\r\nfoo\r\n".to_string();
    assert_eq!(redis.handle_input(get, 1001), b"$3\r\nbar\r\n");
}

#[test]
fn get_after_expiry_is_answered_by_null() {
    let mut redis = primary();
    assert_eq!(send(&mut redis, &["SET", "foo", "bar", "PX", "50"], 1000), b"+OK\r\n");
    assert_eq!(send(&mut redis, &["GET", "foo"], 1060), b"$-1\r\n");
    assert_eq!(send(&mut redis, &["GET", "foo"], 1000), b"$-1\r\n");
}

#[test]
fn get_before_expiry_returns_the_value() {
    let mut redis = primary();
    assert_eq!(send(&mut redis, &["SET", "foo", "bar", "px", "50"], 1000), b"+OK\r\n");
    assert_eq!(send(&mut redis, &["GET", "foo"], 1049), b"$3\r\nbar\r\n");
    assert_eq!(send(&mut redis, &["GET", "foo"], 1050), b"$-1\r\n");
}

#[test]
fn primary_answers_the_handshake() {
    let mut redis = primary();
    assert_eq!(send(&mut redis, &["PING"], 0), b"+PONG\r\n");
    assert_eq!(send(&mut redis, &["REPLCONF", "listening-port", "6380"], 0), b"+OK\r\n");
    assert_eq!(send(&mut redis, &["REPLCONF", "capa", "psync2"], 0), b"+OK\r\n");
    let reply = send(&mut redis, &["PSYNC", "?", "-1"], 0);
    let status = format!("+FULLRESYNC {} 0\r\n", REPLID);
    assert!(reply.starts_with(status.as_bytes()));
    let rest = &reply[status.len()..];
    assert!(rest.starts_with(b"$88\r\nREDIS0011"));
    assert_eq!(rest.len(), 5 + 88);
    assert_eq!(&rest[rest.len() - 3..], &[0xff, 0x5a, 0xa2]);
}

#[test]
fn psync_uses_the_replication_offset() {
    let mut redis = Redis::new("6379".to_string(), Some("abc".to_string()), Some(42));
    let reply = send(&mut redis, &["PSYNC", "?", "-1"], 0);
    assert!(reply.starts_with(b"+FULLRESYNC abc 42\r\n$88\r\n"));
}

#[test]
fn psync_without_replication_metadata_is_answered_by_null() {
    let mut redis = Redis::new("6379".to_string(), None, Some(0));
    assert_eq!(send(&mut redis, &["PSYNC", "?", "-1"], 0), b"$-1\r\n");
    let mut redis = Redis::new("6379".to_string(), Some("abc".to_string()), None);
    assert_eq!(send(&mut redis, &["PSYNC", "?", "-1"], 0), b"$-1\r\n");
}

#[test]
fn echo_replies_the_argument() {
    let mut redis = primary();
    assert_eq!(send(&mut redis, &["ECHO", "hey"], 0), b"$3\r\nhey\r\n");
    assert_eq!(send(&mut redis, &["echo", "héllo"], 0), "$6\r\nhéllo\r\n".as_bytes());
}

#[test]
fn info_lists_role_and_replication_metadata() {
    let mut redis = primary();
    let expected = format!(
        "$89\r\nrole:master\r\nmaster_replid:{}\r\nmaster_repl_offset:0\r\n",
        REPLID
    );
    assert_eq!(send(&mut redis, &["INFO", "replication"], 0), expected.as_bytes());
}

#[test]
fn info_without_replication_metadata_lists_the_role() {
    let mut redis = Redis::new("6379".to_string(), None, None);
    assert_eq!(send(&mut redis, &["INFO"], 0), b"$11\r\nrole:master\r\n");
}

#[test]
fn unknown_command_is_answered_by_null_and_the_connection_stays_open() {
    let mut redis = primary();
    let request = make_resp_array(vec!["FLUSHALL"]);
    let step = redis.handle_client(Connection::Open, ReadOutcome::Data(request.into_bytes()), 0);
    assert_eq!(step.output, b"$-1\r\n");
    assert_eq!(step.state, Connection::Open);
    let ping = make_resp_array(vec!["PING"]).into_bytes();
    let step = redis.handle_client(step.state, ReadOutcome::Data(ping), 0);
    assert_eq!(step.output, b"+PONG\r\n");
    assert_eq!(step.state, Connection::Open);
}

#[test]
fn text_that_is_no_array_is_answered_by_null() {
    let mut redis = primary();
    assert_eq!(redis.handle_input(String::new(), 0), b"$-1\r\n");
    assert_eq!(redis.handle_input("PING\r\n".to_string(), 0), b"$-1\r\n");
    assert_eq!(redis.handle_input("$4\r\nPING\r\n".to_string(), 0), b"$-1\r\n");
    assert_eq!(redis.handle_input("+PING\r\n".to_string(), 0), b"$-1\r\n");
    assert_eq!(redis.handle_input("*0\r\n".to_string(), 0), b"$-1\r\n");
}

#[test]
fn invalid_arguments_are_answered_by_null_and_write_nothing() {
    let mut redis = primary();
    assert_eq!(send(&mut redis, &["SET", "foo"], 0), b"$-1\r\n");
    assert_eq!(send(&mut redis, &["SET", "foo", "bar", "EX", "50"], 0), b"$-1\r\n");
    assert_eq!(send(&mut redis, &["SET", "foo", "bar", "PX", "soon"], 0), b"$-1\r\n");
    assert_eq!(send(&mut redis, &["GET"], 0), b"$-1\r\n");
    assert_eq!(send(&mut redis, &["GET", "foo", "bar"], 0), b"$-1\r\n");
    assert_eq!(send(&mut redis, &["GET", "foo"], 0), b"$-1\r\n");
}

#[test]
fn overwrite_through_requests() {
    let mut redis = primary();
    assert_eq!(send(&mut redis, &["SET", "foo", "one"], 1000), b"+OK\r\n");
    assert_eq!(send(&mut redis, &["SET", "foo", "two", "PX", "100"], 2000), b"+OK\r\n");
    assert_eq!(send(&mut redis, &["GET", "foo"], 2099), b"$3\r\ntwo\r\n");
    assert_eq!(send(&mut redis, &["GET", "foo"], 2100), b"$-1\r\n");
}

#[test]
fn a_connection_closes_at_the_end_of_the_stream_or_on_failure() {
    let mut redis = primary();
    let step = redis.handle_client(Connection::Open, ReadOutcome::End, 0);
    assert_eq!(step.state, Connection::Closed);
    assert!(step.output.is_empty());
    let step = redis.handle_client(Connection::Open, ReadOutcome::Failed, 0);
    assert_eq!(step.state, Connection::Closed);
    assert!(step.output.is_empty());
}

#[test]
fn a_closed_connection_stays_closed() {
    let mut redis = primary();
    let request = make_resp_array(vec!["SET", "foo", "bar"]);
    let step = redis.handle_client(Connection::Closed, ReadOutcome::Data(request.into_bytes()), 0);
    assert_eq!(step.state, Connection::Closed);
    assert!(step.output.is_empty());
    assert_eq!(send(&mut redis, &["GET", "foo"], 0), b"$-1\r\n");
}

#[test]
fn handlers_build_the_reply_frames() {
    let mut redis = primary();
    assert!(matches!(redis.handle_echo("x".to_string()), Frame::BulkString(s) if s == "x"));
    assert!(matches!(
        redis.handle_set("k".to_string(), "v".to_string(), Some(10), 5),
        Frame::SimpleString(s) if s == "OK"
    ));
    assert!(matches!(redis.handle_get("k", 14), Frame::BulkString(s) if s == "v"));
    assert!(matches!(redis.handle_get("k", 15), Frame::NullBulkString));
    redis.run_set("a".to_string(), "b".to_string(), None, 0);
    assert_eq!(redis.run_get("a", 99), Some("b".to_string()));
    assert_eq!(redis.run_get("z", 99), None);
}

#[test]
fn new_keeps_the_configuration() {
    let redis = Redis::new("7000".to_string(), Some("id".to_string()), Some(3));
    assert_eq!(redis.my_port, "7000");
    assert_eq!(redis.master_replid, Some("id".to_string()));
    assert_eq!(redis.master_repl_offset, Some(3));
}

#[test]
fn snapshot_frame_has_no_final_terminator() {
    assert_eq!(frame_rdb(&vec![1, 2, 3]), b"$3\r\n\x01\x02\x03");
    assert_eq!(frame_rdb(&vec![]), b"$0\r\n");
    assert_eq!(frame_rdb(&vec![0xff; 12]), [b"$12\r\n".as_slice(), &[0xff; 12]].concat());
}

#[test]
fn snapshot_text_is_decoded_from_base64() {
    assert_eq!(decode_snapshot("aGVsbG8="), Ok(b"hello".to_vec()));
    assert_eq!(decode_snapshot(""), Ok(vec![]));
    assert_eq!(decode_snapshot("/+wgVQA="), Ok(vec![0xff, 0xec, 0x20, 0x55, 0x00]));
    let empty = decode_snapshot(EMPTY_RDB).unwrap();
    assert_eq!(empty.len(), 88);
    assert_eq!(&empty[..9], b"REDIS0011");
}

#[test]
fn snapshot_text_that_is_not_base64_is_malformed() {
    assert_eq!(decode_snapshot("not base64!"), Err(SnapshotError::Malformed));
    assert_eq!(decode_snapshot("aGVsbG8"), Err(SnapshotError::Malformed));
}

#[test]
fn send_rdb_frames_the_empty_snapshot() {
    let redis = primary();
    let sent = redis.send_rdb().unwrap();
    assert_eq!(sent, frame_rdb(&decode_snapshot(EMPTY_RDB).unwrap()));
    assert_eq!(sent.len(), 93);
}

#[test]
fn bytes_that_are_not_utf8_are_read_with_replacement_characters() {
    let mut redis = primary();
    let request = b"*2\r\n$4\r\nECHO\r\n$2\r\na\xff\r\n".to_vec();
    let step = redis.handle_client(Connection::Open, ReadOutcome::Data(request), 0);
    assert_eq!(step.state, Connection::Open);
    assert_eq!(step.output, "$4\r\na\u{fffd}\r\n".as_bytes());
    let request = "*2\r\n$4\r\nECHO\r\n$6\r\n日本\r\n".as_bytes().to_vec();
    let step = redis.handle_client(Connection::Open, ReadOutcome::Data(request), 0);
    assert_eq!(step.output, "$6\r\n日本\r\n".as_bytes());
}

#[test]
fn requests_through_the_connection_reach_the_store() {
    let mut redis = primary();
    let set = b"*3\r\n$3\r\nSET\r\n$3\r\nfoo\r\n$3\r\nbar\r\n".to_vec();
    let step = redis.handle_client(Connection::Open, ReadOutcome::Data(set), 10);
    assert_eq!(step.output, b"+OK\r\n");
    let get = b"*2\r\n$3\r\nGET\r\n$3\r\nfoo\r\n".to_vec();
    let step = redis.handle_client(Connection::Open, ReadOutcome::Data(get), 11);
    assert_eq!(step.output, b"$3\r\nbar\r\n");
    assert_eq!(step.state, Connection::Open);
}

#[test]
fn a_failed_write_closes_the_connection() {
    assert_eq!(after_write(Connection::Open, true), Connection::Open);
    assert_eq!(after_write(Connection::Open, false), Connection::Closed);
    assert_eq!(after_write(Connection::Closed, true), Connection::Closed);
    assert_eq!(after_write(Connection::Closed, false), Connection::Closed);
}

#[test]
fn receipt_of_a_snapshot() {
    assert_eq!(receive_rdb(&b"".to_vec()), Receipt::Partial);
    assert_eq!(receive_rdb(&b"$".to_vec()), Receipt::Partial);
    assert_eq!(receive_rdb(&b"$3".to_vec()), Receipt::Partial);
    assert_eq!(receive_rdb(&b"$3\r".to_vec()), Receipt::Partial);
    assert_eq!(receive_rdb(&b"$3\r\n".to_vec()), Receipt::Partial);
    assert_eq!(receive_rdb(&b"$3\r\nab".to_vec()), Receipt::Partial);
    assert_eq!(receive_rdb(&b"$3\r\nabc".to_vec()), Receipt::Complete);
    assert_eq!(receive_rdb(&b"$3\r\nabcd".to_vec()), Receipt::Complete);
    assert_eq!(receive_rdb(&b"$0\r\n".to_vec()), Receipt::Complete);
    assert_eq!(receive_rdb(&b"$2\r\n\r\n".to_vec()), Receipt::Complete);
    assert_eq!(receive_rdb(&b"+OK\r\n".to_vec()), Receipt::Invalid);
    assert_eq!(receive_rdb(&b"$\r\n".to_vec()), Receipt::Invalid);
    assert_eq!(receive_rdb(&b"$-1\r\n".to_vec()), Receipt::Invalid);
    assert_eq!(receive_rdb(&b"$3x\r\nabc".to_vec()), Receipt::Invalid);
    assert_eq!(receive_rdb(&b"$99999999999999999999\r\n".to_vec()), Receipt::Invalid);
    assert_eq!(receive_rdb(&b"$\xff\r\n".to_vec()), Receipt::Invalid);
}

#[test]
fn receipt_of_the_snapshot_that_a_primary_sends() {
    let sent = primary().send_rdb().unwrap();
    assert_eq!(receive_rdb(&sent), Receipt::Complete);
    for cut in 0..sent.len() {
        assert_eq!(receive_rdb(&sent[..cut].to_vec()), Receipt::Partial);
    }
}

#[test]
fn resync_with_a_given_snapshot() {
    let redis = Redis::new("6379".to_string(), Some("abc".to_string()), Some(7));
    assert_eq!(redis.resync_with(Ok(b"$3\r\nxyz".to_vec())), b"+FULLRESYNC abc 7\r\n$3\r\nxyz");
    assert_eq!(redis.resync_with(Ok(vec![])), b"+FULLRESYNC abc 7\r\n");
    assert_eq!(redis.resync_with(Err(SnapshotError::Malformed)), b"$-1\r\n");
    let redis = Redis::new("6379".to_string(), None, Some(7));
    assert_eq!(redis.resync_with(Ok(b"$3\r\nxyz".to_vec())), b"$-1\r\n");
}
