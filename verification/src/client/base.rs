//! What every client transport shares: the connection state, the sending
//! and receiving rules, acknowledgements, heartbeats and reconnection.
//!
//! Sockets and timers are the caller's; this module decides what to send,
//! what a received packet means, and when a connection counts as lost.

use bytes::BytesMut;
use dashmap::DashMap;
use vstd::prelude::*;
use vstd::string::StringSliceAdditionalSpecFns;

use crate::bridge::buffer::{buf_clear, buf_len, bytes_mut_view};
use crate::bridge::maps::{acks_insert, acks_new, acks_remove, pending_acks};
use crate::bridge::text::string_from_chars;
use crate::bridge::random::random_u64;
use crate::client::inner::{
    insert_all, join_titles, other_than, title_parts, ClientView, RexClientInner,
};
use crate::net::{parse_socket_address, socket_of, SocketAddress};
use crate::protocol::data::{
    head_of, packet_title_bytes, spliced, title_text, AckData, RexData, TITLE_OFFSET,
};
use crate::protocol::types::{command_of_code, RexCommand};
use crate::protocol::Protocol;
use crate::text::{chars_of, decimal_string, decimal_text};
use crate::utils::now_secs;

verus! {

/// The state of a client's connection.
#[derive(Debug, Clone, Copy, PartialEq, Eq, Structural)]
pub enum ConnectionState {
    Disconnected,
    Connecting,
    Connected,
    Reconnecting,
}

/// The state that a stored number stands for; unknown numbers read as
/// disconnected.
pub open spec fn state_of_code(v: u8) -> ConnectionState {
    if v == 1 {
        ConnectionState::Connecting
    } else if v == 2 {
        ConnectionState::Connected
    } else if v == 3 {
        ConnectionState::Reconnecting
    } else {
        ConnectionState::Disconnected
    }
}

/// The number that stores a state.
pub open spec fn state_code(s: ConnectionState) -> u8 {
    match s {
        ConnectionState::Disconnected => 0,
        ConnectionState::Connecting => 1,
        ConnectionState::Connected => 2,
        ConnectionState::Reconnecting => 3,
    }
}

impl ConnectionState {
    /// The number that stores this state.
    pub fn as_u8(self) -> (r: u8)
        ensures
            r == state_code(self),
    {
        match self {
            ConnectionState::Disconnected => 0,
            ConnectionState::Connecting => 1,
            ConnectionState::Connected => 2,
            ConnectionState::Reconnecting => 3,
        }
    }
}

impl From<u8> for ConnectionState {
    fn from(value: u8) -> (r: ConnectionState) {
        if value == 1 {
            ConnectionState::Connecting
        } else if value == 2 {
            ConnectionState::Connected
        } else if value == 3 {
            ConnectionState::Reconnecting
        } else {
            ConnectionState::Disconnected
        }
    }
}

impl vstd::std_specs::convert::FromSpecImpl<u8> for ConnectionState {
    open spec fn obeys_from_spec() -> bool {
        true
    }

    open spec fn from_spec(v: u8) -> ConnectionState {
        state_of_code(v)
    }
}

/// Storing a state and reading it back gives the same state.
pub proof fn lemma_state_code_roundtrip(s: ConnectionState)
    ensures
        state_of_code(state_code(s)) == s,
{
}

/// How a client connects and behaves.
#[derive(Debug, Clone)]
pub struct RexClientConfig {
    pub protocol: Protocol,
    pub server_addr: SocketAddress,
    /// The titles to subscribe to, separated by `;`.
    pub title: String,
    /// Idle seconds before a heartbeat is sent.
    pub idle_timeout: u64,
    /// Seconds to wait for an answer to a heartbeat.
    pub pong_wait: u64,
    pub max_reconnect_attempts: u32,
    /// Bytes the receive buffer may hold before it is dropped.
    pub max_buffer_size: usize,
    /// Whether sent messages ask for an acknowledgement.
    pub ack_enabled: bool,
    pub ack_timeout_ms: u64,
}

impl RexClientConfig {
    /// A configuration with the default timing and limits.
    pub fn new(protocol: Protocol, server_addr: SocketAddress, title: &str) -> (r: Self)
        ensures
            r.protocol == protocol,
            r.server_addr == server_addr,
            r.title@ == title@,
            r.idle_timeout == 10,
            r.pong_wait == 5,
            r.max_reconnect_attempts == 5,
            r.max_buffer_size == 8 * 1024 * 1024,
            !r.ack_enabled,
            r.ack_timeout_ms == 5000,
    {
        RexClientConfig {
            protocol,
            server_addr,
            title: String::from_str(title),
            idle_timeout: 10,
            pong_wait: 5,
            max_reconnect_attempts: 5,
            max_buffer_size: 8 * 1024 * 1024,
            ack_enabled: false,
            ack_timeout_ms: 5000,
        }
    }

    /// The titles, separated by `;`.
    pub fn title(&self) -> (r: &str)
        ensures
            r@ == self.title@,
    {
        self.title.as_str()
    }

    /// Replaces the titles.
    pub fn set_title(&mut self, title: &str)
        ensures
            final(self).title@ == title@,
            final(self).protocol == old(self).protocol,
            final(self).server_addr == old(self).server_addr,
            final(self).idle_timeout == old(self).idle_timeout,
            final(self).pong_wait == old(self).pong_wait,
            final(self).max_reconnect_attempts == old(self).max_reconnect_attempts,
            final(self).max_buffer_size == old(self).max_buffer_size,
            final(self).ack_enabled == old(self).ack_enabled,
            final(self).ack_timeout_ms == old(self).ack_timeout_ms,
    {
        self.title = String::from_str(title);
    }

    /// The configuration that a language binding hands over as its own
    /// values: a protocol number (see `protocol_of_number`), a host and a
    /// port that make the address `host:port`, the titles and the tuning it
    /// sets. None when the address does not read as `ip:port`.
    pub fn from_binding_values(
        protocol_number: i32,
        host: &str,
        port: i32,
        title: &str,
        idle_timeout: u64,
        pong_wait: u64,
        max_reconnect_attempts: u32,
        max_buffer_size: usize,
    ) -> (r: Option<Self>)
        ensures
            match socket_of(vstd::utf8::encode_utf8(binding_address_text(host@, port))) {
                None => r is None,
                Some(a) => r matches Some(c) && c.protocol == protocol_of_number(protocol_number)
                    && c.server_addr == a && c.title@ == title@ && c.idle_timeout == idle_timeout
                    && c.pong_wait == pong_wait && c.max_reconnect_attempts
                    == max_reconnect_attempts && c.max_buffer_size == max_buffer_size
                    && !c.ack_enabled && c.ack_timeout_ms == 5000,
            },
    {
        let addr = binding_address(host, port);
        Self::from_binding(
            protocol_from_number(protocol_number),
            addr.as_str(),
            title,
            idle_timeout,
            pong_wait,
            max_reconnect_attempts,
            max_buffer_size,
        )
    }

    /// The configuration that a language binding hands over as plain
    /// values: the server address as text, the titles and the tuning it
    /// sets. None when the address does not read as `ip:port`.
    pub fn from_binding(
        protocol: Protocol,
        server_addr: &str,
        title: &str,
        idle_timeout: u64,
        pong_wait: u64,
        max_reconnect_attempts: u32,
        max_buffer_size: usize,
    ) -> (r: Option<Self>)
        ensures
            match socket_of(server_addr.spec_bytes()) {
                None => r is None,
                Some(a) => r matches Some(c) && c.protocol == protocol && c.server_addr == a
                    && c.title@ == title@ && c.idle_timeout == idle_timeout && c.pong_wait
                    == pong_wait && c.max_reconnect_attempts == max_reconnect_attempts
                    && c.max_buffer_size == max_buffer_size && !c.ack_enabled && c.ack_timeout_ms
                    == 5000,
            },
    {
        let addr = match parse_socket_address(server_addr) {
            Some(a) => a,
            None => {
                return None;
            },
        };
        let mut c = RexClientConfig::new(protocol, addr, title);
        c.idle_timeout = idle_timeout;
        c.pong_wait = pong_wait;
        c.max_reconnect_attempts = max_reconnect_attempts;
        c.max_buffer_size = max_buffer_size;
        Some(c)
    }
}

/// The protocol that a binding's protocol number names: 1 is QUIC, 2 is
/// WebSocket, anything else TCP.
pub open spec fn protocol_of_number(v: i32) -> Protocol {
    if v == 1 {
        Protocol::Quic
    } else if v == 2 {
        Protocol::WebSocket
    } else {
        Protocol::Tcp
    }
}

/// The address text that a binding makes of its host and port: `host:port`,
/// the port in decimal, with a minus sign when it is negative.
pub open spec fn binding_address_text(host: Seq<char>, port: i32) -> Seq<char> {
    host + seq![':'] + if port < 0 {
        seq!['-'] + decimal_text((-port) as nat)
    } else {
        decimal_text(port as nat)
    }
}

/// Writes a binding's host and port as `host:port`.
pub fn binding_address(host: &str, port: i32) -> (r: String)
    ensures
        r@ == binding_address_text(host@, port),
{
    let mut cs = chars_of(host);
    cs.push(':');
    let digits = if port < 0 {
        cs.push('-');
        let magnitude: i64 = -(port as i64);
        decimal_string(magnitude as u64)
    } else {
        decimal_string(port as u64)
    };
    let mut tail = chars_of(digits.as_str());
    cs.append(&mut tail);
    proof {
        assert(cs@ =~= binding_address_text(host@, port));
    }
    string_from_chars(cs.as_slice())
}

/// Reads a binding's protocol number (see `protocol_of_number`).
pub fn protocol_from_number(v: i32) -> (r: Protocol)
    ensures
        r == protocol_of_number(v),
{
    if v == 1 {
        Protocol::Quic
    } else if v == 2 {
        Protocol::WebSocket
    } else {
        Protocol::Tcp
    }
}

/// A sent message waiting for its acknowledgement.
#[derive(Debug, Clone)]
pub struct PendingAckInfo {
    /// When it was sent, in seconds since the Unix epoch.
    pub timestamp: u64,
    pub title: String,
}

/// A pending acknowledgement as plain values.
pub ghost struct AckInfoView {
    pub timestamp: u64,
    pub title: Seq<char>,
}

impl PendingAckInfo {
    pub open spec fn view(&self) -> AckInfoView {
        AckInfoView { timestamp: self.timestamp, title: self.title@ }
    }
}

/// What a received packet asks of the caller.
pub enum ReceiveAction {
    /// There is no client to receive it.
    NoClient,
    /// The login succeeded: hand the packet to the handler's `login_ok`.
    LoginOk(RexData),
    /// A title was registered; the client and the configuration hold it.
    TitleRegistered,
    /// A title was removed from the client and the configuration.
    TitleRemoved,
    /// A message for the handler; send `ack` back first, when there is one.
    Deliver { ack: Option<RexData>, data: RexData },
    /// An acknowledgement; `known` tells whether it settled a pending one.
    /// The packet goes to the handler too.
    AckReturn { known: bool, data: RexData },
    /// The answer to a message sent; hand it to the handler.
    DeliverReturn(RexData),
    /// Nothing to do.
    Ignored,
}

/// Whether a command carries a message from another client.
pub open spec fn is_message_command(c: RexCommand) -> bool {
    c == RexCommand::Title || c == RexCommand::Group || c == RexCommand::Cast
}

/// Whether a command answers a message this client sent.
pub open spec fn is_return_command(c: RexCommand) -> bool {
    c == RexCommand::TitleReturn || c == RexCommand::GroupReturn || c == RexCommand::CastReturn
}

/// The state that all client transports share.
pub struct ClientBase {
    pub client: Option<RexClientInner>,
    pub connection_state: ConnectionState,
    pub config: RexClientConfig,
    /// When the last heartbeat was answered, in seconds since the Unix epoch.
    pub last_heartbeat: u64,
    /// Messages awaiting acknowledgement, by message id.
    pub pending_acks: AckTable,
}

/// The messages awaiting acknowledgement, by message id. The map is only
/// reached through the client base that owns it.
pub struct AckTable {
    entries: DashMap<u64, PendingAckInfo>,
}

impl AckTable {
    /// The entries, by message id.
    pub closed spec fn view(&self) -> Map<u64, AckInfoView> {
        pending_acks(self.entries)
    }
}

/// The packets that a buffer yields: the complete packets at its front, in
/// order, then what is left (nothing after an ill-formed packet).
pub open spec fn packets_of(b: Seq<u8>) -> (Seq<Seq<u8>>, Seq<u8>)
    decreases b.len(),
{
    if b.len() < 4 {
        (Seq::empty(), b)
    } else {
        let total = vstd::bytes::spec_u32_from_le_bytes(b.subrange(0, 4)) as int;
        if b.len() < total {
            (Seq::empty(), b)
        } else if total < 37 || 37 + b[36] > total {
            (Seq::empty(), Seq::empty())
        } else {
            let rest = packets_of(b.skip(total));
            (seq![b.take(total)] + rest.0, rest.1)
        }
    }
}

/// The bytes of packets.
pub open spec fn packets_view(v: Seq<RexData>) -> Seq<Seq<u8>> {
    v.map_values(|d: RexData| d.bytes())
}

impl ClientBase {
    /// The connection state.
    pub open spec fn state(&self) -> ConnectionState {
        self.connection_state
    }

    /// The messages awaiting acknowledgement, by message id.
    pub open spec fn acks(&self) -> Map<u64, AckInfoView> {
        self.pending_acks.view()
    }

    /// When the last heartbeat was answered, in seconds since the Unix epoch.
    pub open spec fn heartbeat_at(&self) -> u64 {
        self.last_heartbeat
    }

    /// A disconnected client base, with no client yet and nothing pending.
    pub fn new(config: RexClientConfig) -> (r: Self)
        ensures
            r.client is None,
            r.state() == ConnectionState::Disconnected,
            r.acks() == Map::<u64, AckInfoView>::empty(),
            r.config.title@ == config.title@,
            r.config.ack_enabled == config.ack_enabled,
            r.config.max_buffer_size == config.max_buffer_size,
            r.config.idle_timeout == config.idle_timeout,
    {
        ClientBase {
            client: None,
            connection_state: ConnectionState::Disconnected,
            config,
            last_heartbeat: now_secs(),
            pending_acks: AckTable { entries: acks_new() },
        }
    }

    /// The connection state.
    pub fn connection_state(&self) -> (r: ConnectionState)
        ensures
            r == self.state(),
    {
        self.connection_state
    }

    /// Sets the connection state.
    pub fn set_connection_state(&mut self, state: ConnectionState)
        ensures
            final(self).state() == state,
            final(self).acks() == old(self).acks(),
            final(self).client == old(self).client,
            final(self).heartbeat_at() == old(self).heartbeat_at(),
    {
        self.connection_state = state;
    }

    /// The client, once connected.
    pub fn get_client(&self) -> (r: &Option<RexClientInner>)
        ensures
            *r == self.client,
    {
        &self.client
    }

    /// Records a message as awaiting acknowledgement, sent at time `now`.
    pub fn register_pending_ack_at(&mut self, message_id: u64, title: String, now: u64)
        ensures
            final(self).acks() == old(self).acks().insert(
                message_id,
                AckInfoView { timestamp: now, title: title@ },
            ),
            final(self).state() == old(self).state(),
            final(self).heartbeat_at() == old(self).heartbeat_at(),
    {
        acks_insert(&mut self.pending_acks.entries, message_id, PendingAckInfo { timestamp: now, title });
    }

    /// Records a message as awaiting acknowledgement, sent now.
    pub fn register_pending_ack(&mut self, message_id: u64, title: String)
        ensures
            final(self).acks().dom() == old(self).acks().dom().insert(message_id),
            final(self).acks().contains_key(message_id) && final(self).acks()[message_id].title
                == title@,
            final(self).state() == old(self).state(),
    {
        let now = now_secs();
        self.register_pending_ack_at(message_id, title, now);
        proof {
            assert(final(self).acks().dom() =~= old(self).acks().dom().insert(message_id));
        }
    }

    /// Prepares a packet for sending by the client with id `client_id`:
    /// stamps the client as source and, when acknowledgements are on and
    /// the packet carries a message, gives it a random message id and
    /// records it as pending at time `now`. Returns that message id.
    pub fn prepare_send_at(&mut self, client_id: u128, data: &mut RexData, now: u64) -> (r: Option<u64>)
        requires
            old(data).well_formed(),
        ensures
            final(data).well_formed(),
            final(self).state() == old(self).state(),
            final(self).heartbeat_at() == old(self).heartbeat_at(),
            ({
                let c = command_of_code(head_of(old(data).bytes()).command);
                let stamped = spliced(
                    old(data).bytes(),
                    20,
                    vstd::bytes::spec_u128_to_le_bytes(client_id),
                );
                if old(self).config.ack_enabled && is_message_command(c) {
                    &&& r is Some
                    &&& final(data).bytes() == spliced(
                        stamped,
                        12,
                        vstd::bytes::spec_u64_to_le_bytes(r->0),
                    )
                    &&& final(self).acks() == old(self).acks().insert(
                        r->0,
                        AckInfoView {
                            timestamp: now,
                            title: title_text(packet_title_bytes(old(data).bytes())),
                        },
                    )
                } else {
                    &&& r is None
                    &&& final(data).bytes() == stamped
                    &&& final(self).acks() == old(self).acks()
                }
            }),
    {
        let command = data.command();
        let ghost b0 = data.bytes();
        data.set_source(client_id);
        let ghost b1 = data.bytes();
        proof {
            vstd::bytes::lemma_auto_spec_u128_to_from_le_bytes();
            lemma_head_splice_keeps_title(b0, 20, vstd::bytes::spec_u128_to_le_bytes(client_id));
        }
        if self.config.ack_enabled && (command == RexCommand::Title || command == RexCommand::Group
            || command == RexCommand::Cast) {
            let message_id = random_u64();
            data.set_message_id(message_id);
            proof {
                vstd::bytes::lemma_auto_spec_u64_to_from_le_bytes();
                lemma_head_splice_keeps_title(b1, 12, vstd::bytes::spec_u64_to_le_bytes(message_id));
            }
            let title = String::from_str(data.title());
            self.register_pending_ack_at(message_id, title, now);
            Some(message_id)
        } else {
            None
        }
    }

    /// The login packet: the configured titles.
    pub fn login_data(&self) -> (r: RexData)
        requires
            vstd::utf8::encode_utf8(self.config.title@).len() + 64 <= isize::MAX,
        ensures
            r.bytes() == crate::protocol::data::packet_bytes(
                RexCommand::Login,
                self.config.title@,
                Seq::empty(),
            ),
            r.well_formed(),
    {
        let empty: [u8; 0] = [];
        let r = RexData::new(RexCommand::Login, self.config.title(), &empty);
        assert(empty@ =~= Seq::<u8>::empty());
        r
    }

    /// Acts on a received packet at time `now` (seconds): registers or
    /// removes titles, settles acknowledgements, and says what the caller
    /// must do. Any packet received by a client marks it as heard from.
    pub fn handle_received_data_at(&mut self, rex_data: RexData, now: u64) -> (r: ReceiveAction)
        requires
            rex_data.well_formed(),
            command_of_code(head_of(rex_data.bytes()).command) == RexCommand::AckReturn
                ==> rex_data.bytes().len() >= 45,
        ensures
            final(self).state() == old(self).state(),
            final(self).heartbeat_at() == old(self).heartbeat_at(),
            final(self).config.ack_enabled == old(self).config.ack_enabled,
            final(self).config.max_buffer_size == old(self).config.max_buffer_size,
            final(self).config.idle_timeout == old(self).config.idle_timeout,
            ({
                let b = rex_data.bytes();
                let c = command_of_code(head_of(b).command);
                let t = title_text(packet_title_bytes(b));
                match old(self).client {
                    None => r is NoClient && final(self).client is None && final(self).acks()
                        == old(self).acks(),
                    Some(cl) => {
                        let v = cl.view();
                        let heard = ClientView { last_recv: now, ..v };
                        final(self).client matches Some(fc) && if c == RexCommand::LoginReturn {
                            &&& r matches ReceiveAction::LoginOk(d) && d.bytes() == b
                            &&& fc.view() == heard
                            &&& final(self).acks() == old(self).acks()
                            &&& final(self).config.title@ == old(self).config.title@
                        } else if c == RexCommand::RegTitleReturn {
                            let titles = insert_all(v.titles, title_parts(t));
                            &&& r is TitleRegistered
                            &&& fc.view() == (ClientView { titles, ..heard })
                            &&& final(self).config.title@ == join_titles(titles)
                            &&& final(self).acks() == old(self).acks()
                        } else if c == RexCommand::DelTitleReturn {
                            let titles = v.titles.filter(other_than(t));
                            &&& r is TitleRemoved
                            &&& fc.view() == (ClientView { titles, ..heard })
                            &&& final(self).config.title@ == join_titles(titles)
                            &&& final(self).acks() == old(self).acks()
                        } else if is_message_command(c) {
                            let mid = head_of(b).message_id;
                            &&& r matches ReceiveAction::Deliver { ack, data } && data.bytes() == b && (
                            mid == 0 ==> ack is None) && (mid != 0 ==> (ack matches Some(a)
                                && a.bytes() == crate::protocol::data::ack_packet_bytes(
                                mid,
                                v.id,
                                RexCommand::Ack,
                            )))
                            &&& fc.view() == heard
                            &&& final(self).acks() == old(self).acks()
                            &&& final(self).config.title@ == old(self).config.title@
                        } else if c == RexCommand::AckReturn {
                            let mid = vstd::bytes::spec_u64_from_le_bytes(b.subrange(37, 45));
                            &&& r matches ReceiveAction::AckReturn { known, data } && data.bytes() == b
                                && known == old(self).acks().contains_key(mid)
                            &&& final(self).acks() == old(self).acks().remove(mid)
                            &&& fc.view() == heard
                            &&& final(self).config.title@ == old(self).config.title@
                        } else if is_return_command(c) {
                            &&& r matches ReceiveAction::DeliverReturn(d) && d.bytes() == b
                            &&& fc.view() == heard
                            &&& final(self).acks() == old(self).acks()
                            &&& final(self).config.title@ == old(self).config.title@
                        } else {
                            &&& r is Ignored
                            &&& fc.view() == heard
                            &&& final(self).acks() == old(self).acks()
                            &&& final(self).config.title@ == old(self).config.title@
                        }
                    },
                }
            }),
    {
        let mut client = match self.client.take() {
            Some(c) => c,
            None => {
                return ReceiveAction::NoClient;
            },
        };
        let command = rex_data.command();
        let action = if command == RexCommand::LoginReturn {
            ReceiveAction::LoginOk(rex_data)
        } else if command == RexCommand::RegTitleReturn {
            client.insert_title(rex_data.title());
            let titles = client.title_str();
            self.config.set_title(titles.as_str());
            ReceiveAction::TitleRegistered
        } else if command == RexCommand::DelTitleReturn {
            client.remove_title(rex_data.title());
            let titles = client.title_str();
            self.config.set_title(titles.as_str());
            ReceiveAction::TitleRemoved
        } else if command == RexCommand::Title || command == RexCommand::Group || command
            == RexCommand::Cast {
            let message_id = rex_data.message_id();
            let ack = if message_id != 0 {
                Some(AckData::new(message_id).to_rex_data(client.id(), RexCommand::Ack))
            } else {
                None
            };
            ReceiveAction::Deliver { ack, data: rex_data }
        } else if command == RexCommand::AckReturn {
            let message_id = AckData::from_rex_data(&rex_data).message_id;
            let known = acks_remove(&mut self.pending_acks.entries, message_id);
            ReceiveAction::AckReturn { known, data: rex_data }
        } else if command == RexCommand::TitleReturn || command == RexCommand::GroupReturn
            || command == RexCommand::CastReturn {
            ReceiveAction::DeliverReturn(rex_data)
        } else {
            ReceiveAction::Ignored
        };
        client.update_last_recv_at(now);
        self.client = Some(client);
        action
    }

    /// When a heartbeat is due at time `now` (seconds): the connection is
    /// up, there is a client, and it has been idle for at least the idle
    /// timeout. Returns the last receipt, to compare after the wait.
    pub fn heartbeat_due(&self, now: u64) -> (r: Option<u64>)
        ensures
            match self.client {
                Some(c) => {
                    let idle = if now >= c.view().last_recv {
                        now - c.view().last_recv
                    } else {
                        0
                    };
                    (self.state() == ConnectionState::Connected && idle >= self.config.idle_timeout)
                        == (r is Some) && (r matches Some(t) ==> t == c.view().last_recv)
                },
                None => r is None,
            },
    {
        if self.connection_state != ConnectionState::Connected {
            return None;
        }
        match &self.client {
            None => None,
            Some(c) => {
                let last = c.last_recv();
                let idle = if now >= last {
                    now - last
                } else {
                    0
                };
                if idle < self.config.idle_timeout {
                    None
                } else {
                    Some(last)
                }
            },
        }
    }

    /// The outcome of a heartbeat: the connection is lost unless something
    /// was received after `before_ping`; otherwise the heartbeat counts as
    /// answered at time `now`.
    pub fn heartbeat_outcome(&mut self, before_ping: u64, now: u64) -> (answered: bool)
        ensures
            final(self).acks() == old(self).acks(),
            final(self).client == old(self).client,
            answered == (old(self).client matches Some(c) && c.view().last_recv > before_ping),
            answered ==> final(self).heartbeat_at() == now && final(self).state() == old(self).state(),
            !answered ==> final(self).state() == ConnectionState::Disconnected && final(self).heartbeat_at()
                == old(self).heartbeat_at(),
    {
        let after = match &self.client {
            Some(c) => c.last_recv(),
            None => 0,
        };
        if self.client.is_some() && after > before_ping {
            self.last_heartbeat = now;
            true
        } else {
            self.connection_state = ConnectionState::Disconnected;
            false
        }
    }

    /// Takes every complete packet from the front of the buffer, in order.
    /// An ill-formed packet empties the buffer; so does a remainder larger
    /// than the configured maximum.
    pub fn parse_buffer(&self, buffer: &mut BytesMut) -> (r: Vec<RexData>)
        ensures
            packets_view(r@) == packets_of(bytes_mut_view(*old(buffer))).0,
            forall|i: int| 0 <= i < r@.len() ==> (#[trigger] r@[i]).well_formed(),
            ({
                let rest = packets_of(bytes_mut_view(*old(buffer))).1;
                bytes_mut_view(*final(buffer)) == if rest.len() > self.config.max_buffer_size {
                    Seq::empty()
                } else {
                    rest
                }
            }),
    {
        let ghost b0 = bytes_mut_view(*buffer);
        let mut out: Vec<RexData> = Vec::new();
        loop
            invariant
                packets_of(b0).0 == packets_view(out@) + packets_of(bytes_mut_view(*buffer)).0,
                packets_of(b0).1 == packets_of(bytes_mut_view(*buffer)).1,
                forall|i: int| 0 <= i < out@.len() ==> (#[trigger] out@[i]).well_formed(),
            ensures
                packets_of(b0).0 == packets_view(out@),
                packets_of(b0).1 == bytes_mut_view(*buffer),
                forall|i: int| 0 <= i < out@.len() ==> (#[trigger] out@[i]).well_formed(),
            decreases bytes_mut_view(*buffer).len(),
        {
            let ghost b = bytes_mut_view(*buffer);
            match RexData::try_deserialize(buffer) {
                Ok(Some(d)) => {
                    if !d.is_well_formed() {
                        proof {
                            let total = vstd::bytes::spec_u32_from_le_bytes(b.subrange(0, 4)) as int;
                            assert(d.bytes() == b.take(total));
                            if total >= 37 {
                                assert(b.take(total)[36] == b[36]);
                            }
                        }
                        buf_clear(buffer);
                        assert(packets_view(out@) + Seq::<Seq<u8>>::empty() =~= packets_view(out@));
                        break;
                    }
                    let ghost before = out@;
                    proof {
                        let total = vstd::bytes::spec_u32_from_le_bytes(b.subrange(0, 4)) as int;
                        assert(d.bytes() == b.take(total));
                    }
                    out.push(d);
                    proof {
                        let total = vstd::bytes::spec_u32_from_le_bytes(b.subrange(0, 4)) as int;
                        assert(packets_view(out@) =~= packets_view(before).push(b.take(total)));
                        let rest = packets_of(b.skip(total));
                        assert(packets_view(before) + (seq![b.take(total)] + rest.0) =~= packets_view(
                            out@,
                        ) + rest.0);
                    }
                },
                Ok(None) => {
                    assert(packets_view(out@) + Seq::<Seq<u8>>::empty() =~= packets_view(out@));
                    break;
                },
                Err(_) => {
                    buf_clear(buffer);
                    assert(packets_view(out@) + Seq::<Seq<u8>>::empty() =~= packets_view(out@));
                    break;
                },
            }
        }
        if buf_len(buffer) > self.config.max_buffer_size {
            buf_clear(buffer);
        }
        out
    }
}

/// Rewriting head bytes leaves the title-length byte and the title alone.
proof fn lemma_head_splice_keeps_title(b: Seq<u8>, at: int, p: Seq<u8>)
    requires
        crate::protocol::data::packet_well_formed(b),
        0 <= at,
        at + p.len() <= 36,
    ensures
        packet_title_bytes(spliced(b, at, p)) == packet_title_bytes(b),
        spliced(b, at, p).len() == b.len(),
{
    let s = spliced(b, at, p);
    assert(s[36] == b[36]);
    assert(packet_title_bytes(s) =~= packet_title_bytes(b));
}

/// The delay before the next connection attempt: double the last one, at
/// most a minute.
pub fn next_backoff(backoff: u64) -> (r: u64)
    ensures
        r == if backoff >= 30 {
            60
        } else {
            backoff * 2
        },
{
    if backoff >= 30 {
        60
    } else {
        backoff * 2
    }
}

/// Whether a failed connection attempt is retried: only while fewer than
/// the allowed attempts were made.
pub fn should_retry(attempts: u32, max_reconnect_attempts: u32) -> (r: bool)
    ensures
        r == (attempts < max_reconnect_attempts),
{
    attempts < max_reconnect_attempts
}

} // verus!
