use redis_starter_rust::servers::redis::Redis;
use redis_starter_rust::servers::slave::{parse_resync_header, Handshake, Slave};
use redis_starter_rust::servers::{Connection, ReadOutcome};
use redis_starter_rust::make_resp_array;

fn replica() -> Slave {
    Slave::new("127.0.0.1:6379".to_string(), "6380".to_string())
}

#[test]
fn new_replica_knows_no_replication_id() {
    let slave = replica();
    assert_eq!(slave.master_address, "127.0.0.1:6379");
    assert_eq!(slave.my_port, "6380");
    assert_eq!(slave.replication_id, "");
    assert_eq!(slave.replication_offset, 0);
}

#[test]
fn replica_serves_ping_echo_and_info() {
    let mut slave = replica();
    assert_eq!(slave.handle_input(make_resp_array(vec!["PING"])), b"+PONG\r\n");
    assert_eq!(slave.handle_input(make_resp_array(vec!["echo", "hey"])), b"$3\r\nhey\r\n");
    assert_eq!(slave.handle_input(make_resp_array(vec!["INFO"])), b"$10\r\nrole:slave\r\n");
}

#[test]
fn replica_answers_everything_else_by_null() {
    let mut slave = replica();
    assert_eq!(slave.handle_input(make_resp_array(vec!["SET", "foo", "bar"])), b"$-1\r\n");
    assert_eq!(slave.handle_input(make_resp_array(vec!["GET", "foo"])), b"$-1\r\n");
    assert_eq!(slave.handle_input(make_resp_array(vec!["PSYNC", "?", "-1"])), b"$-1\r\n");
    assert_eq!(slave.handle_input(make_resp_array(vec!["REPLCONF", "a", "b"])), b"$-1\r\n");
    assert_eq!(slave.handle_input(make_resp_array(vec!["NOPE"])), b"$-1\r\n");
    assert_eq!(slave.handle_input(String::new()), b"$-1\r\n");
}

#[test]
fn replica_connection_steps() {
    let mut slave = replica();
    let ping = make_resp_array(vec!["PING"]).into_bytes();
    let step = slave.handle_client(Connection::Open, ReadOutcome::Data(ping.clone()));
    assert_eq!(step.state, Connection::Open);
    assert_eq!(step.output, b"+PONG\r\n");
    let step = slave.handle_client(Connection::Open, ReadOutcome::End);
    assert_eq!(step.state, Connection::Closed);
    assert!(step.output.is_empty());
    let step = slave.handle_client(Connection::Open, ReadOutcome::Failed);
    assert_eq!(step.state, Connection::Closed);
    let step = slave.handle_client(Connection::Closed, ReadOutcome::Data(ping));
    assert_eq!(step.state, Connection::Closed);
    assert!(step.output.is_empty());
}

#[test]
fn handshake_requests() {
    let slave = replica();
    assert_eq!(slave.ping_master(), "*1\r\n$4\r\nPING\r\n");
    assert_eq!(
        slave.send_conf_to_master(Handshake::PingSent),
        Some("*3\r\n$8\r\nREPLCONF\r\n$14\r\nlistening-port\r\n$4\r\n6380\r\n".to_string())
    );
    assert_eq!(
        slave.send_conf_to_master(Handshake::ReplConfPort),
        Some("*3\r\n$8\r\nREPLCONF\r\n$4\r\ncapa\r\n$6\r\npsync2\r\n".to_string())
    );
    assert_eq!(slave.send_conf_to_master(Handshake::Start), None);
    assert_eq!(slave.send_conf_to_master(Handshake::ReplConfCapa), None);
    assert_eq!(slave.send_conf_to_master(Handshake::FullResync), None);
    assert_eq!(slave.send_conf_to_master(Handshake::Synced), None);
    assert_eq!(slave.send_psync_to_master(), "*3\r\n$5\r\nPSYNC\r\n$1\r\n?\r\n$2\r\n-1\r\n");
    assert_eq!(slave.handshake_send(Handshake::Start), Some(slave.ping_master()));
    assert_eq!(slave.handshake_send(Handshake::ReplConfCapa), Some(slave.send_psync_to_master()));
    assert_eq!(slave.handshake_send(Handshake::FullResync), None);
    assert_eq!(slave.handshake_send(Handshake::Synced), None);
}

#[test]
fn handshake_runs_through_its_states() {
    let mut slave = replica();
    let step = slave.handshake_step(Handshake::Start, &b"+PONG\r\n".to_vec());
    assert_eq!(step.next, Handshake::PingSent);
    assert!(!step.unexpected);
    assert_eq!(step.send, slave.send_conf_to_master(Handshake::PingSent));

    let step = slave.handshake_step(step.next, &b"+OK\r\n".to_vec());
    assert_eq!(step.next, Handshake::ReplConfPort);
    assert!(!step.unexpected);
    assert_eq!(step.send, slave.send_conf_to_master(Handshake::ReplConfPort));

    let step = slave.handshake_step(step.next, &b"+OK\r\n".to_vec());
    assert_eq!(step.next, Handshake::ReplConfCapa);
    assert!(!step.unexpected);
    assert_eq!(step.send, Some(slave.send_psync_to_master()));

    let step = slave.handshake_step(step.next, &b"+FULLRESYNC 8371b4fb 7\r\n".to_vec());
    assert_eq!(step.next, Handshake::FullResync);
    assert!(!step.unexpected);
    assert_eq!(step.send, None);
    assert_eq!(slave.replication_id, "8371b4fb");
    assert_eq!(slave.replication_offset, 7);

    assert_eq!(step.kept, 0);

    let step = slave.handshake_step(step.next, &b"$3\r\na".to_vec());
    assert_eq!(step.next, Handshake::FullResync);
    assert!(!step.unexpected);
    assert_eq!(step.send, None);
    assert_eq!(step.kept, 5);

    let step = slave.handshake_step(step.next, &b"$3\r\na\xffc".to_vec());
    assert_eq!(step.next, Handshake::Synced);
    assert!(!step.unexpected);
    assert_eq!(step.send, None);

    let step = slave.handshake_step(step.next, &b"+OK\r\n".to_vec());
    assert_eq!(step.next, Handshake::Synced);
    assert!(step.unexpected);
    assert_eq!(step.send, None);
    assert_eq!(slave.replication_id, "8371b4fb");
    assert_eq!(slave.replication_offset, 7);
}

#[test]
fn handshake_goes_on_after_an_unexpected_reply() {
    let mut slave = replica();
    let step = slave.handshake_step(Handshake::Start, &b"+OK\r\n".to_vec());
    assert_eq!(step.next, Handshake::PingSent);
    assert!(step.unexpected);
    assert_eq!(step.send, slave.send_conf_to_master(Handshake::PingSent));

    let step = slave.handshake_step(Handshake::PingSent, &b"$-1\r\n".to_vec());
    assert_eq!(step.next, Handshake::ReplConfPort);
    assert!(step.unexpected);

    let step = slave.handshake_step(Handshake::ReplConfPort, &Vec::new());
    assert_eq!(step.next, Handshake::ReplConfCapa);
    assert!(step.unexpected);

    let step = slave.handshake_step(Handshake::ReplConfCapa, &b"+OK\r\n".to_vec());
    assert_eq!(step.next, Handshake::FullResync);
    assert!(step.unexpected);
    assert_eq!(slave.replication_id, "");
    assert_eq!(slave.replication_offset, 0);

    let step = slave.handshake_step(Handshake::FullResync, &b"+OK\r\n".to_vec());
    assert_eq!(step.next, Handshake::Synced);
    assert!(step.unexpected);
}

#[test]
fn text_replies_step_by_step() {
    let mut slave = replica();
    let step = slave.on_reply(Handshake::Start, "+PONG\r\n");
    assert_eq!(step.next, Handshake::PingSent);
    assert!(!step.unexpected);
    let step = slave.on_reply(Handshake::Start, "+PONG");
    assert!(!step.unexpected);
    let step = slave.on_reply(Handshake::Start, "+pong\r\n");
    assert!(step.unexpected);
    let step = slave.on_reply(Handshake::Start, "$4\r\nPONG\r\n");
    assert!(step.unexpected);
    let step = slave.on_reply(Handshake::FullResync, "+OK\r\n");
    assert_eq!(step.next, Handshake::FullResync);
    assert!(step.unexpected);
    assert_eq!(step.send, None);
    let step = slave.on_reply(Handshake::Synced, "+OK\r\n");
    assert_eq!(step.next, Handshake::Synced);
    assert!(step.unexpected);
    assert_eq!(step.send, None);
}

#[test]
fn snapshot_steps() {
    let slave = replica();
    let step = slave.on_snapshot(&b"$5\r\nab".to_vec());
    assert_eq!(step.next, Handshake::FullResync);
    assert!(!step.unexpected);
    assert_eq!(step.send, None);
    assert_eq!(step.kept, 6);
    let step = slave.on_snapshot(&b"$5\r\nabcde".to_vec());
    assert_eq!(step.next, Handshake::Synced);
    assert!(!step.unexpected);
    assert_eq!(step.kept, 0);
    let step = slave.on_snapshot(&b"*1\r\n".to_vec());
    assert_eq!(step.next, Handshake::Synced);
    assert!(step.unexpected);
    assert_eq!(step.kept, 0);
}

#[test]
fn snapshot_that_comes_with_the_status_text() {
    let mut slave = replica();
    let step = slave.handshake_step(Handshake::ReplConfCapa, &b"+FULLRESYNC abc 5\r\n$3\r\nxyz".to_vec());
    assert_eq!(step.next, Handshake::Synced);
    assert!(!step.unexpected);
    assert_eq!(step.send, None);
    assert_eq!(step.kept, 0);
    assert_eq!(slave.replication_id, "abc");
    assert_eq!(slave.replication_offset, 5);

    let mut slave = replica();
    let step = slave.handshake_step(Handshake::ReplConfCapa, &b"+FULLRESYNC abc 5\r\n$3\r\nx\xff".to_vec());
    assert_eq!(step.next, Handshake::FullResync);
    assert!(!step.unexpected);
    assert_eq!(step.kept, 6);
    assert_eq!(slave.replication_id, "abc");

    let mut slave = replica();
    let step = slave.handshake_step(Handshake::ReplConfCapa, &b"+FULLRESYNC abc 5\r\n+OK\r\n".to_vec());
    assert_eq!(step.next, Handshake::Synced);
    assert!(step.unexpected);
    assert_eq!(step.kept, 0);

    let mut slave = replica();
    let step = slave.handshake_step(Handshake::ReplConfCapa, &b"+CONTINUE\r\n$3\r\nxyz".to_vec());
    assert_eq!(step.next, Handshake::Synced);
    assert!(step.unexpected);
    assert_eq!(slave.replication_id, "");
}

#[test]
fn resync_header_carries_id_and_offset() {
    assert_eq!(parse_resync_header("FULLRESYNC abc 0"), Some(("abc".to_string(), 0)));
    assert_eq!(parse_resync_header("FULLRESYNC abc 123"), Some(("abc".to_string(), 123)));
    assert_eq!(parse_resync_header("FULLRESYNC  5"), Some((String::new(), 5)));
    assert_eq!(parse_resync_header("FULLRESYNC abc"), None);
    assert_eq!(parse_resync_header("FULLRESYNC abc "), None);
    assert_eq!(parse_resync_header("FULLRESYNC abc x"), None);
    assert_eq!(parse_resync_header("FULLRESYNC abc 1 2"), None);
    assert_eq!(parse_resync_header("fullresync abc 1"), None);
    assert_eq!(parse_resync_header("CONTINUE abc 1"), None);
    assert_eq!(parse_resync_header("FULLRESYNC"), None);
    assert_eq!(parse_resync_header(""), None);
}

#[test]
fn replica_and_primary_shake_hands() {
    let replid = "8371b4fb1155b71f4a04d3e1bc3e18c4a990aeeb";
    let mut primary = Redis::new("6379".to_string(), Some(replid.to_string()), Some(0));
    let mut slave = replica();
    let mut state = Handshake::Start;
    let mut request = Some(slave.ping_master());
    let mut replies: Vec<Vec<u8>> = Vec::new();
    while let Some(text) = request {
        let reply = primary.handle_input(text, 0);
        let step = slave.handshake_step(state, &reply);
        assert!(!step.unexpected);
        replies.push(reply);
        state = step.next;
        request = step.send;
    }
    assert_eq!(state, Handshake::Synced);
    assert_eq!(replies.len(), 4);
    assert_eq!(replies[0], b"+PONG\r\n");
    assert_eq!(replies[1], b"+OK\r\n");
    assert_eq!(replies[2], b"+OK\r\n");
    let status = format!("+FULLRESYNC {} 0\r\n", replid);
    assert!(replies[3].starts_with(status.as_bytes()));
    assert_eq!(slave.replication_id, replid);
    assert_eq!(slave.replication_offset, 0);
    let snapshot = replies[3][status.len()..].to_vec();
    assert_eq!(snapshot.len(), 93);

    let mut late = replica();
    let step = late.handshake_step(Handshake::ReplConfCapa, &replies[3][..status.len() + 40].to_vec());
    assert_eq!(step.next, Handshake::FullResync);
    assert!(!step.unexpected);
    assert_eq!(step.kept, 40);
    let step = late.handshake_step(step.next, &snapshot);
    assert_eq!(step.next, Handshake::Synced);
    assert!(!step.unexpected);
    assert_eq!(step.kept, 0);
}
