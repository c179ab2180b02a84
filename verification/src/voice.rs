//! The voice-gateway state machine: IDENTIFY → READY → SELECT_PROTOCOL →
//! SESSION_DESCRIPTION, plus heartbeats and SPEAKING signalling.
//!
//! The machine turns inbound events into outbound actions; the caller owns
//! the socket, performs each action, and feeds the next event back.

use vstd::prelude::*;
use vstd::string::StringExecFns;
use crate::crypto::{VoiceCrypto, crypto_key};
use crate::rtp::{VoiceUdp, advanced_n, rtp_packet_of, silence_frame};

verus! {

/// The phases of a voice-gateway session.
#[derive(Clone, Copy, Debug, PartialEq, Eq, Structural)]
pub enum VoiceSessionState {
    Connecting,
    AwaitReady,
    AwaitSession,
    Ready,
    Closed,
}

/// The IDENTIFY payload (op 0).
#[derive(Clone, Debug)]
pub struct IdentifyPayload {
    pub op: u8,
    pub server_id: String,
    pub user_id: String,
    pub session_id: String,
    pub token: String,
}

/// The SELECT_PROTOCOL payload (op 1).
#[derive(Clone, Debug)]
pub struct SelectProtocolPayload {
    pub op: u8,
    pub protocol: String,
    pub address: String,
    pub port: u16,
    pub mode: String,
}

/// The SPEAKING payload (op 5).
#[derive(Clone, Debug)]
pub struct SpeakingPayload {
    pub op: u8,
    pub speaking: u8,
    pub delay: u32,
    pub ssrc: u32,
}

/// Builders for the fixed voice-gateway payloads.
pub struct VoiceWebsocket;

impl VoiceWebsocket {
    /// The IDENTIFY payload: op 0 with the guild as server id and the
    /// caller's credentials.
    pub fn identify(guild_id: &String, user_id: &String, session_id: &String, token: &String) -> (r:
        IdentifyPayload)
        ensures
            r.op == 0,
            r.server_id@ == guild_id@,
            r.user_id@ == user_id@,
            r.session_id@ == session_id@,
            r.token@ == token@,
    {
        IdentifyPayload {
            op: 0,
            server_id: guild_id.clone(),
            user_id: user_id.clone(),
            session_id: session_id.clone(),
            token: token.clone(),
        }
    }

    /// The SELECT_PROTOCOL payload: op 1, UDP, the discovered address and
    /// port, and the AEAD-AES-256-GCM-RTPSize mode.
    pub fn select_protocol(ip: &String, port: u16) -> (r: SelectProtocolPayload)
        ensures
            r.op == 1,
            r.protocol@ == "udp"@,
            r.address@ == ip@,
            r.port == port,
            r.mode@ == "aead_aes256_gcm_rtpsize"@,
    {
        SelectProtocolPayload {
            op: 1,
            protocol: String::from_str("udp"),
            address: ip.clone(),
            port,
            mode: String::from_str("aead_aes256_gcm_rtpsize"),
        }
    }
}

/// The URL a voice connection dials: `wss://{endpoint}/?v=8`.
pub fn voice_gateway_url(endpoint: &String) -> (r: String)
    ensures
        r@ == "wss://"@ + endpoint@ + "/?v=8"@,
{
    String::from_str("wss://").concat(endpoint.as_str()).concat("/?v=8")
}

/// An inbound event on a voice connection.
pub enum VoiceEvent {
    /// The socket to the voice gateway opened.
    SocketOpen,
    /// HELLO (op 8) with the heartbeat interval in milliseconds.
    Hello { heartbeat_interval_ms: u64 },
    /// READY (op 2) with the stream's SSRC and the UDP endpoint.
    Ready { ssrc: u32, ip: String, port: u16 },
    /// The UDP IP discovery finished with the external address.
    IpDiscovered { ip: String, port: u16 },
    /// SESSION_DESCRIPTION (op 4) with the 32-byte secret key.
    SessionDescription { secret_key: Vec<u8> },
    /// The heartbeat timer fired at this epoch time in milliseconds.
    HeartbeatTick { now_ms: u64 },
    /// The socket failed or was closed.
    SocketClosed,
}

/// An outbound action the caller must perform.
pub enum VoiceAction {
    SendIdentify(IdentifyPayload),
    /// Bind a UDP socket to this destination and run IP discovery.
    OpenUdp { ssrc: u32, ip: String, port: u16 },
    SendSelectProtocol(SelectProtocolPayload),
    SendHeartbeat { op: u8, timestamp_ms: u64 },
}

/// The credentials a voice connection dials with; the live handshake
/// state is owned by the task that drives the connection.
#[derive(Debug, PartialEq)]
pub struct VoiceConnectionInfo {
    pub guild_id: String,
    pub session_id: String,
    pub token: String,
    pub endpoint: String,
    pub user_id: String,
}

impl Clone for VoiceConnectionInfo {
    fn clone(&self) -> (r: Self)
        ensures
            r == *self,
    {
        VoiceConnectionInfo {
            guild_id: self.guild_id.clone(),
            session_id: self.session_id.clone(),
            token: self.token.clone(),
            endpoint: self.endpoint.clone(),
            user_id: self.user_id.clone(),
        }
    }
}

impl VoiceConnectionInfo {
    /// The connection these credentials dial.
    pub fn open(&self) -> (r: VoiceConnection)
        ensures
            r.guild_id@ == self.guild_id@,
            r.session_id@ == self.session_id@,
            r.token@ == self.token@,
            r.endpoint@ == self.endpoint@,
            r.user_id@ == self.user_id@,
            r.state == VoiceSessionState::Connecting,
            r.ssrc == 0,
            r.secret_key is None,
            r.heartbeat_interval_ms == 30000,
            r.speaking == false,
    {
        VoiceConnection::new(
            self.guild_id.clone(),
            self.session_id.clone(),
            self.token.clone(),
            self.endpoint.clone(),
            self.user_id.clone(),
        )
    }
}

/// One voice connection's control state: the credentials it dials with and
/// what the handshake has yielded so far.
#[derive(Debug)]
pub struct VoiceConnection {
    pub guild_id: String,
    pub session_id: String,
    pub token: String,
    pub endpoint: String,
    pub user_id: String,
    pub state: VoiceSessionState,
    pub ssrc: u32,
    pub secret_key: Option<Vec<u8>>,
    pub heartbeat_interval_ms: u64,
    pub speaking: bool,
}

impl VoiceConnection {
    /// A fresh connection: not yet dialled, default 30 s heartbeat, no
    /// SSRC, no key.
    pub fn new(
        guild_id: String,
        session_id: String,
        token: String,
        endpoint: String,
        user_id: String,
    ) -> (r: Self)
        ensures
            r.guild_id@ == guild_id@,
            r.session_id@ == session_id@,
            r.token@ == token@,
            r.endpoint@ == endpoint@,
            r.user_id@ == user_id@,
            r.state == VoiceSessionState::Connecting,
            r.ssrc == 0,
            r.secret_key is None,
            r.heartbeat_interval_ms == 30000,
            r.speaking == false,
    {
        VoiceConnection {
            guild_id,
            session_id,
            token,
            endpoint,
            user_id,
            state: VoiceSessionState::Connecting,
            ssrc: 0,
            secret_key: None,
            heartbeat_interval_ms: 30000,
            speaking: false,
        }
    }

    /// Whether audio may be transmitted: the handshake is complete and the
    /// secret key is held.
    pub open spec fn transmit_ready(self) -> bool {
        self.state == VoiceSessionState::Ready && self.secret_key is Some
    }

    /// Advances the state machine by one event and returns the actions the
    /// caller must perform: IDENTIFY on open; HELLO retimes the heartbeat;
    /// READY (awaited) records the SSRC and opens UDP; a discovered
    /// address is answered with SELECT_PROTOCOL; SESSION_DESCRIPTION
    /// (awaited) stores the key and completes the handshake; every tick
    /// sends op 3; a closed socket ends the connection, keeping the
    /// credentials.
    pub fn handle_event(&mut self, ev: VoiceEvent) -> (actions: Vec<VoiceAction>)
        ensures
            final(self).guild_id@ == old(self).guild_id@,
            final(self).session_id@ == old(self).session_id@,
            final(self).token@ == old(self).token@,
            final(self).endpoint@ == old(self).endpoint@,
            final(self).user_id@ == old(self).user_id@,
            final(self).speaking == old(self).speaking,
            match ev {
                VoiceEvent::SocketOpen => {
                    if old(self).state == VoiceSessionState::Connecting {
                        &&& final(self).state == VoiceSessionState::AwaitReady
                        &&& actions@.len() == 1
                        &&& (actions@[0] matches VoiceAction::SendIdentify(p) && p.op == 0
                            && p.server_id@ == old(self).guild_id@ && p.user_id@ == old(
                            self,
                        ).user_id@ && p.session_id@ == old(self).session_id@ && p.token@ == old(
                            self,
                        ).token@)
                        &&& unchanged_handshake(*old(self), *final(self))
                    } else {
                        *final(self) == *old(self) && actions@.len() == 0
                    }
                },
                VoiceEvent::Hello { heartbeat_interval_ms } => {
                    &&& final(self).heartbeat_interval_ms == heartbeat_interval_ms
                    &&& final(self).state == old(self).state
                    &&& final(self).ssrc == old(self).ssrc
                    &&& final(self).secret_key == old(self).secret_key
                    &&& actions@.len() == 0
                },
                VoiceEvent::Ready { ssrc, ip, port } => {
                    if old(self).state == VoiceSessionState::AwaitReady {
                        &&& final(self).state == VoiceSessionState::AwaitSession
                        &&& final(self).ssrc == ssrc
                        &&& final(self).secret_key == old(self).secret_key
                        &&& final(self).heartbeat_interval_ms == old(self).heartbeat_interval_ms
                        &&& actions@.len() == 1
                        &&& (actions@[0] matches VoiceAction::OpenUdp { ssrc: s, ip: i, port: p }
                            && s == ssrc && i@ == ip@ && p == port)
                    } else {
                        *final(self) == *old(self) && actions@.len() == 0
                    }
                },
                VoiceEvent::IpDiscovered { ip, port } => {
                    if old(self).state == VoiceSessionState::AwaitSession {
                        &&& *final(self) == *old(self)
                        &&& actions@.len() == 1
                        &&& (actions@[0] matches VoiceAction::SendSelectProtocol(p) && p.op == 1
                            && p.protocol@ == "udp"@ && p.address@ == ip@ && p.port == port
                            && p.mode@ == "aead_aes256_gcm_rtpsize"@)
                    } else {
                        *final(self) == *old(self) && actions@.len() == 0
                    }
                },
                VoiceEvent::SessionDescription { secret_key } => {
                    if old(self).state == VoiceSessionState::AwaitSession && secret_key@.len()
                        == 32 {
                        &&& final(self).state == VoiceSessionState::Ready
                        &&& final(self).secret_key matches Some(k) && k@ == secret_key@
                        &&& final(self).ssrc == old(self).ssrc
                        &&& final(self).heartbeat_interval_ms == old(self).heartbeat_interval_ms
                        &&& final(self).transmit_ready()
                        &&& actions@.len() == 0
                    } else {
                        *final(self) == *old(self) && actions@.len() == 0
                    }
                },
                VoiceEvent::HeartbeatTick { now_ms } => {
                    &&& *final(self) == *old(self)
                    &&& actions@.len() == 1
                    &&& (actions@[0] matches VoiceAction::SendHeartbeat { op, timestamp_ms } && op
                        == 3 && timestamp_ms == now_ms)
                },
                VoiceEvent::SocketClosed => {
                    &&& final(self).state == VoiceSessionState::Closed
                    &&& final(self).ssrc == old(self).ssrc
                    &&& final(self).secret_key == old(self).secret_key
                    &&& final(self).heartbeat_interval_ms == old(self).heartbeat_interval_ms
                    &&& actions@.len() == 0
                },
            },
    {
        let mut actions: Vec<VoiceAction> = Vec::new();
        match ev {
            VoiceEvent::SocketOpen => {
                if self.state == VoiceSessionState::Connecting {
                    let payload = VoiceWebsocket::identify(
                        &self.guild_id,
                        &self.user_id,
                        &self.session_id,
                        &self.token,
                    );
                    actions.push(VoiceAction::SendIdentify(payload));
                    self.state = VoiceSessionState::AwaitReady;
                }
            },
            VoiceEvent::Hello { heartbeat_interval_ms } => {
                self.heartbeat_interval_ms = heartbeat_interval_ms;
            },
            VoiceEvent::Ready { ssrc, ip, port } => {
                if self.state == VoiceSessionState::AwaitReady {
                    self.ssrc = ssrc;
                    self.state = VoiceSessionState::AwaitSession;
                    actions.push(VoiceAction::OpenUdp { ssrc, ip, port });
                }
            },
            VoiceEvent::IpDiscovered { ip, port } => {
                if self.state == VoiceSessionState::AwaitSession {
                    let payload = VoiceWebsocket::select_protocol(&ip, port);
                    actions.push(VoiceAction::SendSelectProtocol(payload));
                }
            },
            VoiceEvent::SessionDescription { secret_key } => {
                if self.state == VoiceSessionState::AwaitSession && secret_key.len() == 32 {
                    self.secret_key = Some(secret_key);
                    self.state = VoiceSessionState::Ready;
                }
            },
            VoiceEvent::HeartbeatTick { now_ms } => {
                actions.push(VoiceAction::SendHeartbeat { op: 3, timestamp_ms: now_ms });
            },
            VoiceEvent::SocketClosed => {
                self.state = VoiceSessionState::Closed;
            },
        }
        actions
    }

    /// Records the speaking flag and returns the op 5 payload to send.
    pub fn set_speaking(&mut self, speaking: bool) -> (r: SpeakingPayload)
        ensures
            *final(self) == (VoiceConnection { speaking, ..*old(self) }),
            r.op == 5,
            r.speaking == (if speaking {
                1u8
            } else {
                0u8
            }),
            r.delay == 0,
            r.ssrc == old(self).ssrc,
    {
        self.speaking = speaking;
        SpeakingPayload {
            op: 5,
            speaking: if speaking {
                1
            } else {
                0
            },
            delay: 0,
            ssrc: self.ssrc,
        }
    }
}

/// Whether the handshake-derived fields are the same in both states.
pub open spec fn unchanged_handshake(a: VoiceConnection, b: VoiceConnection) -> bool {
    &&& a.ssrc == b.ssrc
    &&& a.secret_key == b.secret_key
    &&& a.heartbeat_interval_ms == b.heartbeat_interval_ms
}

/// The five packets of Opus silence that close a stream, 20 ms apart; the
/// counters advance once per packet.
pub fn send_silence(udp: &mut VoiceUdp, crypto: &VoiceCrypto) -> (packets: Vec<Vec<u8>>)
    ensures
        packets@.len() == 5,
        forall|k: int|
            0 <= k < 5 ==> packets@[k]@ == rtp_packet_of(
                advanced_n(*old(udp), k as nat),
                crypto_key(crypto),
                seq![0xf8u8, 0xffu8, 0xfeu8],
            ),
        *final(udp) == advanced_n(*old(udp), 5),
{
    let mut packets: Vec<Vec<u8>> = Vec::new();
    let mut k: usize = 0;
    while k < 5
        invariant
            k <= 5,
            packets@.len() == k,
            *udp == advanced_n(*old(udp), k as nat),
            forall|j: int|
                0 <= j < k ==> packets@[j]@ == rtp_packet_of(
                    advanced_n(*old(udp), j as nat),
                    crypto_key(crypto),
                    seq![0xf8u8, 0xffu8, 0xfeu8],
                ),
        decreases 5 - k,
    {
        let frame = silence_frame();
        let packet = udp.send_opus(frame.as_slice(), crypto);
        packets.push(packet);
        proof {
            assert(advanced_n(*old(udp), (k + 1) as nat) == crate::rtp::advanced(
                advanced_n(*old(udp), k as nat),
            ));
        }
        k += 1;
    }
    packets
}

} // verus!
