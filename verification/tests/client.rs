use bytes::BytesMut;
use rexmq::cli::{bench_latency, send_command, timestamp, timestamp_bytes};
use rexmq::client::base::{
    binding_address, next_backoff, protocol_from_number, should_retry, ClientBase, ConnectionState, ReceiveAction, RexClientConfig,
};
use rexmq::client::inner::{split_titles, RexClientInner};
use rexmq::net::SocketAddress;
use rexmq::protocol::data::RexData;
use rexmq::protocol::types::{RetCode, RexCommand};
use rexmq::protocol::Protocol;

fn addr() -> SocketAddress {
    SocketAddress::v4(127, 0, 0, 1, 8881)
}

fn config(title: &str) -> RexClientConfig {
    RexClientConfig::new(Protocol::Tcp, addr(), title)
}

// ---- titles ----

#[test]
fn titles_split_on_semicolons_and_drop_empty_parts() {
    assert_eq!(split_titles("a;b;;c;"), vec!["a", "b", "c"]);
    assert!(split_titles(";;").is_empty());
    assert_eq!(split_titles("only"), vec!["only"]);
}

#[test]
fn client_titles_insert_remove_round_trip() {
    let mut c = RexClientInner::new_at(7, addr(), "a;b", 100);
    assert_eq!(c.id(), 7);
    assert_eq!(c.connected_at(), 100);
    assert_eq!(c.last_recv(), 100);
    assert!(c.has_title("a"));
    assert!(!c.has_title("c"));
    c.insert_title("c;a");
    assert_eq!(c.subscribed_titles(), vec!["a", "b", "c"]);
    assert_eq!(c.title_str(), "a;b;c");
    c.remove_title("b;a");
    assert_eq!(c.subscribed_titles(), vec!["a", "b", "c"]);
    c.remove_title("b");
    c.remove_title("a");
    assert_eq!(c.subscribed_titles(), vec!["c"]);
    c.update_last_recv_at(150);
    assert_eq!(c.last_recv(), 150);
    c.set_transport_label("tcp");
    assert_eq!(c.transport_label(), "tcp");
}

// ---- connection state ----

#[test]
fn connection_state_codes_round_trip() {
    for s in [
        ConnectionState::Disconnected,
        ConnectionState::Connecting,
        ConnectionState::Connected,
        ConnectionState::Reconnecting,
    ] {
        assert_eq!(ConnectionState::from(s.as_u8()), s);
    }
    assert_eq!(ConnectionState::from(200u8), ConnectionState::Disconnected);
}

#[test]
fn backoff_doubles_up_to_a_minute() {
    assert_eq!(next_backoff(1), 2);
    assert_eq!(next_backoff(16), 32);
    assert_eq!(next_backoff(30), 60);
    assert_eq!(next_backoff(45), 60);
    assert!(should_retry(0, 5));
    assert!(!should_retry(5, 5));
}

#[test]
fn client_config_defaults() {
    let c = config("t1;t2");
    assert_eq!(c.title(), "t1;t2");
    assert_eq!(c.idle_timeout, 10);
    assert_eq!(c.pong_wait, 5);
    assert_eq!(c.max_reconnect_attempts, 5);
    assert_eq!(c.max_buffer_size, 8 * 1024 * 1024);
    assert!(!c.ack_enabled);
}

// ---- client base ----

#[test]
fn login_packet_carries_the_titles() {
    let base = ClientBase::new(config("news;sport"));
    let d = base.login_data();
    assert_eq!(d.command(), RexCommand::Login);
    assert_eq!(d.title(), "news;sport");
    assert!(d.data().is_empty());
}

#[test]
fn sending_with_acks_records_a_pending_message() {
    let mut cfg = config("t");
    cfg.ack_enabled = true;
    let mut base = ClientBase::new(cfg);
    let mut d = RexData::new(RexCommand::Title, "t", b"payload");
    let id = base.prepare_send_at(42, &mut d, 1000).expect("ack id");
    assert_eq!(d.source(), 42);
    assert_eq!(d.message_id(), id);
    assert_eq!(d.title(), "t");

    let mut plain = ClientBase::new(config("t"));
    let mut d2 = RexData::new(RexCommand::Title, "t", b"payload");
    assert_eq!(plain.prepare_send_at(9, &mut d2, 1000), None);
    assert_eq!(d2.source(), 9);
}

#[test]
fn received_packets_update_the_client() {
    let mut base = ClientBase::new(config("a"));
    let d = RexData::new(RexCommand::Title, "a", b"x");
    assert!(matches!(base.handle_received_data_at(d, 5), ReceiveAction::NoClient));

    base.client = Some(RexClientInner::new_at(1, addr(), "a", 0));
    let mut reg = RexData::new(RexCommand::RegTitleReturn, "b", b"");
    reg.set_retcode(RetCode::Success);
    assert!(matches!(base.handle_received_data_at(reg, 6), ReceiveAction::TitleRegistered));
    let c = base.get_client().as_ref().unwrap();
    assert!(c.has_title("b"));
    assert_eq!(c.last_recv(), 6);
    assert_eq!(base.config.title(), "a;b");

    let msg = RexData::new(RexCommand::Title, "a", b"hello");
    match base.handle_received_data_at(msg, 7) {
        ReceiveAction::Deliver { ack, data } => {
            assert!(ack.is_none());
            assert_eq!(data.data(), b"hello");
        }
        _ => panic!("expected a delivery"),
    }
}

#[test]
fn heartbeat_due_after_idle_timeout() {
    let mut base = ClientBase::new(config("a"));
    base.client = Some(RexClientInner::new_at(1, addr(), "a", 100));
    assert_eq!(base.heartbeat_due(200), None);
    base.set_connection_state(ConnectionState::Connected);
    assert_eq!(base.connection_state(), ConnectionState::Connected);
    assert_eq!(base.heartbeat_due(105), None);
    assert_eq!(base.heartbeat_due(110), Some(100));
    assert!(!base.heartbeat_outcome(100, 120));
    assert_eq!(base.connection_state(), ConnectionState::Disconnected);
}

#[test]
fn buffer_yields_whole_packets_in_order() {
    let base = ClientBase::new(config("a"));
    let p1 = RexData::new(RexCommand::Title, "a", b"one").pack();
    let p2 = RexData::new(RexCommand::Cast, "b", b"two").pack();
    let mut buf = BytesMut::new();
    buf.extend_from_slice(&p1);
    buf.extend_from_slice(&p2);
    buf.extend_from_slice(&p1[..10]);
    let got = base.parse_buffer(&mut buf);
    assert_eq!(got.len(), 2);
    assert_eq!(got[0].data(), b"one");
    assert_eq!(got[1].title(), "b");
    assert_eq!(buf.len(), 10);
}

// ---- bench helpers ----

#[test]
fn bench_send_types() {
    assert_eq!(send_command("title"), Some(RexCommand::Title));
    assert_eq!(send_command("group"), Some(RexCommand::Group));
    assert_eq!(send_command("cast"), Some(RexCommand::Cast));
    assert_eq!(send_command("other"), None);
}

#[test]
fn bench_timestamp_is_big_endian() {
    let mut payload = vec![0u8; 20];
    payload[15] = 1;
    payload[14] = 2;
    assert_eq!(timestamp(&payload), Some(0x0201));
    assert_eq!(timestamp(&payload[..15]), None);
    assert_eq!(bench_latency(0x0301, RexCommand::Title, &payload), Some(0x100));
    assert_eq!(bench_latency(1, RexCommand::Title, &payload), Some(0));
    assert_eq!(bench_latency(0x0301, RexCommand::Login, &payload), None);
}

// ---- binding configuration ----

#[test]
fn binding_values_build_a_client_config() {
    let c = RexClientConfig::from_binding(Protocol::Quic, "10.0.0.1:8882", "a;b", 20, 7, 9, 1024)
        .expect("address reads");
    assert_eq!(c.protocol, Protocol::Quic);
    assert_eq!(c.server_addr, SocketAddress::v4(10, 0, 0, 1, 8882));
    assert_eq!(c.title(), "a;b");
    assert_eq!((c.idle_timeout, c.pong_wait, c.max_reconnect_attempts), (20, 7, 9));
    assert_eq!(c.max_buffer_size, 1024);
    assert!(RexClientConfig::from_binding(Protocol::Tcp, "nowhere", "a", 1, 1, 1, 1).is_none());
    assert_eq!(protocol_from_number(0), Protocol::Tcp);
    assert_eq!(protocol_from_number(1), Protocol::Quic);
    assert_eq!(protocol_from_number(2), Protocol::WebSocket);
    assert_eq!(protocol_from_number(-3), Protocol::Tcp);
}

#[test]
fn buffer_with_ill_formed_packet_yields_what_came_before_and_is_emptied() {
    let base = ClientBase::new(config("a"));
    let good = RexData::new(RexCommand::Title, "a", b"one").pack();
    let mut bad = BytesMut::new();
    bad.extend_from_slice(&RexData::new(RexCommand::Title, "abc", b"").pack());
    bad[36] = 200;
    let mut buf = BytesMut::new();
    buf.extend_from_slice(&good);
    buf.extend_from_slice(&bad);
    buf.extend_from_slice(&good);
    let got = base.parse_buffer(&mut buf);
    assert_eq!(got.len(), 1);
    assert_eq!(got[0].data(), b"one");
    assert!(buf.is_empty());
}

#[test]
fn timestamp_bytes_are_big_endian() {
    let b = timestamp_bytes(0x0102);
    assert_eq!(b.len(), 16);
    assert_eq!(&b[..14], &[0u8; 14]);
    assert_eq!(b[14], 1);
    assert_eq!(b[15], 2);
    assert_eq!(timestamp_bytes(u128::MAX), vec![0xffu8; 16]);
}

#[test]
fn timestamp_written_with_timestamp_bytes_reads_back() {
    for x in [0u128, 1, 0x0102_0304, 1_700_000_000_000_000, u128::MAX] {
        let mut payload = timestamp_bytes(x);
        payload.extend_from_slice(b"rest of the payload");
        assert_eq!(timestamp(&payload), Some(x));
        assert_eq!(timestamp_bytes(x), x.to_be_bytes().to_vec());
    }
}

#[test]
fn binding_host_and_port_make_the_server_address() {
    assert_eq!(binding_address("10.0.0.1", 8882), "10.0.0.1:8882");
    assert_eq!(binding_address("h", -5), "h:-5");
    let c = RexClientConfig::from_binding_values(1, "10.0.0.1", 8882, "a;b", 20, 7, 9, 1024)
        .expect("a valid address");
    assert_eq!(c.protocol, Protocol::Quic);
    assert_eq!(c.server_addr, SocketAddress::v4(10, 0, 0, 1, 8882));
    assert_eq!(c.title(), "a;b");
    assert_eq!(c.idle_timeout, 20);
    assert_eq!(c.pong_wait, 7);
    assert_eq!(c.max_reconnect_attempts, 9);
    assert_eq!(c.max_buffer_size, 1024);
    let unknown = RexClientConfig::from_binding_values(9, "10.0.0.1", 1, "a", 1, 1, 1, 1).unwrap();
    assert_eq!(unknown.protocol, Protocol::Tcp);
    assert!(RexClientConfig::from_binding_values(0, "10.0.0.1", -1, "a", 1, 1, 1, 1).is_none());
    assert!(RexClientConfig::from_binding_values(0, "10.0.0.1", 70000, "a", 1, 1, 1, 1).is_none());
    assert!(RexClientConfig::from_binding_values(0, "localhost", 80, "a", 1, 1, 1, 1).is_none());
    assert!(RexClientConfig::from_binding_values(2, "[::1]", 80, "a", 1, 1, 1, 1).is_some());
}
