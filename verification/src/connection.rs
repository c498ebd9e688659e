use crate::codec::{chunk_seq, FramingError, PacketFrame, MAX_PACKET_SIZE};
use crate::context::{context_of, fresh_context, Context, ContextView};
use crate::protocol::client::{
    auth_field, client_prelude, handshake_response_payload, ping_payload, HandshakeResponse, Ping,
    SslPacket,
};
use crate::protocol::plugin::native::{native_password, native_scramble};
use crate::protocol::plugin::{auth_response, AuthType, AuthTypeError};
use crate::protocol::server::{
    parse_handshake, HandshakeFailure, InitialHandshakeError, InitialHanshakePacket,
};
use crate::protocol::{lemma_flags_are_defined, Capability};
use crate::ssl::{
    into_tls_parts, tls_parts, StreamTransporter, TlsError, TlsMode, TlsOptions, TlsParts,
};
use crate::stream::StreamType;
use crate::EncodePacket;
use vstd::prelude::*;
use vstd::string::StringSliceAdditionalSpecFns;

verus! {

/// What the caller says about the connection to open.
#[derive(Debug, Clone, Copy)]
pub struct ConnectionOption<'a> {
    pub host: &'a str,
    pub username: &'a str,
    pub password: &'a [u8],
    pub database: Option<&'a str>,
    pub stream_type: StreamType,
    pub tls: TlsOptions<'a>,
}

impl<'a> Default for ConnectionOption<'a> {
    fn default() -> (r: Self)
        ensures
            r.host == "127.0.0.1:3306",
            r.username == "",
            r.password@ == Seq::<u8>::empty(),
            r.database is None,
            r.stream_type == StreamType::Tcp,
            r.tls.mode == TlsMode::Disable,
            r.tls.pem is None,
            r.tls.key is None,
            r.tls.root is None,
            r.tls.domain == Some("localhost"),
    {
        Self {
            host: "127.0.0.1:3306",
            username: "",
            password: &[],
            stream_type: StreamType::default(),
            tls: TlsOptions::default(),
            database: None,
        }
    }
}

/// Why a connection failed, as far as the client's own rules decide it.
#[derive(Debug)]
pub enum ConnectionError {
    /// The server's first packet was not understood.
    InitialHandshake(InitialHandshakeError),
    /// The caller insists on TLS, and the server does not offer it.
    TlsCapability,
    /// The plugin needs an encrypted transport, and there is none.
    PluginNeedsTls,
    /// The server asks for a plugin that this client cannot answer for.
    UnsupportedAuthPlugin(AuthType),
    /// The plugin gave no answer.
    AuthPluginError(AuthTypeError),
    /// No TLS session can be set up from the options.
    Tls(TlsError),
    /// A frame broke the rules of framing.
    Framing(FramingError),
    /// Something was reported that the connection was not waiting for.
    UnexpectedEvent,
}

/// `ConnectionError` as plain values.
pub enum ConnectionFailure {
    InitialHandshake(HandshakeFailure),
    TlsCapability,
    PluginNeedsTls,
    UnsupportedAuthPlugin(AuthType),
    AuthPluginError(AuthTypeError),
    Tls(TlsError),
    Framing(FramingError),
    UnexpectedEvent,
}

impl View for ConnectionError {
    type V = ConnectionFailure;

    open spec fn view(&self) -> ConnectionFailure {
        match self {
            ConnectionError::InitialHandshake(e) => ConnectionFailure::InitialHandshake(e@),
            ConnectionError::TlsCapability => ConnectionFailure::TlsCapability,
            ConnectionError::PluginNeedsTls => ConnectionFailure::PluginNeedsTls,
            ConnectionError::UnsupportedAuthPlugin(a) => ConnectionFailure::UnsupportedAuthPlugin(
                *a,
            ),
            ConnectionError::AuthPluginError(e) => ConnectionFailure::AuthPluginError(*e),
            ConnectionError::Tls(e) => ConnectionFailure::Tls(*e),
            ConnectionError::Framing(e) => ConnectionFailure::Framing(*e),
            ConnectionError::UnexpectedEvent => ConnectionFailure::UnexpectedEvent,
        }
    }
}

/// The bookkeeping of one session: what is known of both sides, and the
/// sequence number that the next frame carries or has to carry.
#[derive(Debug)]
pub struct MyStream {
    context: Context,
    sequence: u8,
}

/// A `MyStream` as plain values.
pub struct StreamView {
    pub context: ContextView,
    pub sequence: u8,
}

impl View for MyStream {
    type V = StreamView;

    open spec fn view(&self) -> StreamView {
        StreamView { context: self.spec_context()@, sequence: self.spec_sequence() }
    }
}

impl StreamView {
    /// The sequence number that a packet goes out under: 0 for one that
    /// starts a command, the next number due for any other.
    pub open spec fn outgoing_sequence(self, starts_command: bool) -> u8 {
        if starts_command {
            0
        } else {
            self.sequence
        }
    }

    /// The bookkeeping once a frame has gone out under `seq` or has come
    /// in under it: the number after `seq` is due next.
    pub open spec fn after(self, seq: u8) -> StreamView {
        StreamView { sequence: chunk_seq(seq, 1), ..self }
    }
}

impl MyStream {
    /// The context that the session holds.
    pub closed spec fn spec_context(&self) -> Context {
        self.context
    }

    /// The sequence number that is due next.
    pub closed spec fn spec_sequence(&self) -> u8 {
        self.sequence
    }

    /// The bookkeeping of a session in which nothing was said yet.
    pub fn new() -> (r: Self)
        ensures
            r@ == (StreamView { context: fresh_context(), sequence: 0 }),
    {
        Self { context: Context::default(), sequence: 0 }
    }

    pub fn context(&self) -> (r: &Context)
        ensures
            *r == self.spec_context(),
    {
        &self.context
    }

    /// The session's context, to be changed in place. The sequence number
    /// stays as it is.
    pub fn context_mut(&mut self) -> (r: &mut Context)
        ensures
            *r == old(self).spec_context(),
            final(self).spec_context() == *final(r),
            final(self).spec_sequence() == old(self).spec_sequence(),
    {
        &mut self.context
    }

    /// The sequence number that is due next.
    pub fn sequence(&self) -> (r: u8)
        ensures
            r == self@.sequence,
    {
        self.sequence
    }

    /// Adds `capability` to what the client offers; nothing else changes.
    pub fn set_client_capability(&mut self, capability: Capability)
        ensures
            final(self)@ == (StreamView {
                context: ContextView {
                    client_capabilities: old(self)@.context.client_capabilities | capability@,
                    ..old(self)@.context
                },
                ..old(self)@
            }),
    {
        self.context.set_client_capability(capability);
    }

    /// Starts the session's context from the server's first packet. The
    /// sequence number is left as it is.
    pub fn handshake_packet(&mut self, packet: InitialHanshakePacket)
        ensures
            final(self)@ == (StreamView { context: context_of(packet@), ..old(self)@ }),
    {
        self.context = Context::new(packet);
    }

    /// Puts the sequence number on a frame that is about to go out: 0 on
    /// one that starts a command, the number due on any other. The number
    /// after it is due next.
    pub fn stamp(&mut self, frame: PacketFrame, starts_command: bool) -> (r: PacketFrame)
        ensures
            r.seq == old(self)@.outgoing_sequence(starts_command),
            r.buffer == frame.buffer,
            final(self)@ == old(self)@.after(r.seq),
    {
        if starts_command {
            self.sequence = 0;
        }
        let stamped = PacketFrame::with_sequence(self.sequence, frame.take_buffer());
        self.sequence = self.sequence.wrapping_add(1);
        stamped
    }

    /// Writes `packet` as a frame that is ready to go out: the frame that
    /// the packet gives under the session's context, with the sequence
    /// number put on it as `stamp` does. Where the packet gives no frame,
    /// nothing changes.
    pub fn send_packet<P>(&mut self, packet: P) -> (r: Result<PacketFrame, P::Error>) where
        P: EncodePacket<PacketFrame>,

        ensures
            match r {
                Ok(frame) => {
                    &&& exists|seq: u8| #[trigger]
                        packet.encodes(
                            &old(self).spec_context(),
                            Ok(PacketFrame { seq, buffer: frame.buffer }),
                        )
                    &&& frame.seq == old(self)@.outgoing_sequence(packet.starts_command())
                    &&& final(self)@ == old(self)@.after(frame.seq)
                },
                Err(e) => {
                    &&& packet.encodes(&old(self).spec_context(), Err(e))
                    &&& final(self)@ == old(self)@
                },
            },
    {
        let starts_command = packet.is_command_packet();
        match packet.encode_packet(&self.context) {
            Ok(frame) => {
                proof {
                    let seq = frame.seq;
                    assert(PacketFrame { seq, buffer: frame.buffer } == frame);
                }
                Ok(self.stamp(frame, starts_command))
            },
            Err(e) => Err(e),
        }
    }

    /// Whether `packet` comes under the sequence number that is due.
    pub fn check_sequence(&self, packet: &PacketFrame) -> (r: Result<(), FramingError>)
        ensures
            r == if packet.seq == self@.sequence {
                Ok::<(), FramingError>(())
            } else {
                Err::<(), FramingError>(
                    FramingError::InvalidSequence { expected: self@.sequence, got: packet.seq },
                )
            },
    {
        if packet.seq == self.sequence {
            Ok(())
        } else {
            Err(FramingError::InvalidSequence { expected: self.sequence, got: packet.seq })
        }
    }

    /// Takes note of a frame that came in: the number after its sequence
    /// number is due next. The frame is handed on as it is.
    pub fn recv_packet(&mut self, packet: PacketFrame) -> (r: PacketFrame)
        ensures
            r == packet,
            final(self)@ == old(self)@.after(packet.seq),
    {
        self.sequence = packet.seq.wrapping_add(1);
        packet
    }
}

/// Where a connection stands on its way from the first byte to the
/// command phase.
#[derive(Debug, Clone, Copy, PartialEq, Eq, Structural)]
pub enum ConnectionPhase {
    /// The transport is open; the server's first packet is due.
    Connecting,
    /// The server's first packet was taken and TLS was decided on; the
    /// request for TLS is on its way.
    ReceivedHandshake,
    /// The transport is being put inside a TLS session.
    MaybeUpgrading,
    /// The handshake response is on its way, or the server's verdict on it
    /// is due.
    Authenticating,
    /// The command phase.
    Ready,
    /// The caller closed the connection.
    Closed,
    /// The connection failed and must not be used again.
    Failed,
}

/// What a connection waits for from the outside.
#[derive(Debug, Clone, Copy, PartialEq, Eq, Structural)]
pub enum Awaited {
    /// Nothing: the connection is idle, closed or failed.
    Nothing,
    /// A frame from the server.
    Frame,
    /// The word that the frame handed out last was written.
    Sent,
    /// The word that the transport is inside a TLS session.
    Tunnel,
}

/// What happened outside, as the connection is told.
#[derive(Debug)]
pub enum ConnectionEvent {
    /// A frame came from the server.
    Received(PacketFrame),
    /// The frame that was handed out last was written.
    Sent,
    /// The transport is inside a TLS session now.
    Upgraded,
    /// The caller asks for a ping.
    Ping,
    /// The caller closes the connection.
    Close,
    /// The transport or the TLS session broke.
    TransportFailed,
}

/// `ConnectionEvent` as plain values.
pub enum EventView {
    Received { seq: u8, payload: Seq<u8> },
    Sent,
    Upgraded,
    Ping,
    Close,
    TransportFailed,
}

impl View for ConnectionEvent {
    type V = EventView;

    open spec fn view(&self) -> EventView {
        match self {
            ConnectionEvent::Received(frame) => EventView::Received {
                seq: frame.seq,
                payload: frame.payload(),
            },
            ConnectionEvent::Sent => EventView::Sent,
            ConnectionEvent::Upgraded => EventView::Upgraded,
            ConnectionEvent::Ping => EventView::Ping,
            ConnectionEvent::Close => EventView::Close,
            ConnectionEvent::TransportFailed => EventView::TransportFailed,
        }
    }
}

/// What is to be done outside next.
#[derive(Debug)]
pub enum ConnectionAction<'a> {
    /// Read one frame and report it.
    Receive,
    /// Write this frame and report that it was written.
    Send(PacketFrame),
    /// Put the transport inside a TLS session that is set up from these
    /// parts, start framing afresh on it, and report that.
    Upgrade(TlsParts<'a>),
    /// Hand this frame, as it came from the server, to the caller.
    Deliver(PacketFrame),
    /// Close the transport.
    Close,
    /// Give up: hand this error to the caller and drop the transport.
    Fail(ConnectionError),
}

/// `ConnectionAction` as plain values.
pub enum ActionView<'a> {
    Receive,
    Send { seq: u8, payload: Seq<u8> },
    Upgrade(TlsParts<'a>),
    Deliver { seq: u8, payload: Seq<u8> },
    Close,
    Fail(ConnectionFailure),
}

impl<'a> View for ConnectionAction<'a> {
    type V = ActionView<'a>;

    open spec fn view(&self) -> ActionView<'a> {
        match self {
            ConnectionAction::Receive => ActionView::Receive,
            ConnectionAction::Send(frame) => ActionView::Send {
                seq: frame.seq,
                payload: frame.payload(),
            },
            ConnectionAction::Upgrade(parts) => ActionView::Upgrade(*parts),
            ConnectionAction::Deliver(frame) => ActionView::Deliver {
                seq: frame.seq,
                payload: frame.payload(),
            },
            ConnectionAction::Close => ActionView::Close,
            ConnectionAction::Fail(e) => ActionView::Fail(e@),
        }
    }
}

/// A connection as its own rules see it: what it was asked for, what it
/// knows, where it stands and what it waits for. The reading and writing is
/// done outside, by whoever holds the transport: the connection is told
/// what happened and says what is to be done next.
#[derive(Debug)]
pub struct Connection<'a> {
    options: ConnectionOption<'a>,
    stream: MyStream,
    phase: ConnectionPhase,
    awaited: Awaited,
    transport: StreamTransporter,
}

/// A `Connection` as plain values.
pub struct ConnectionView<'a> {
    pub options: ConnectionOption<'a>,
    pub stream: StreamView,
    pub phase: ConnectionPhase,
    pub awaited: Awaited,
    pub transport: StreamTransporter,
}

impl<'a> View for Connection<'a> {
    type V = ConnectionView<'a>;

    closed spec fn view(&self) -> ConnectionView<'a> {
        ConnectionView {
            options: self.options,
            stream: self.stream@,
            phase: self.phase,
            awaited: self.awaited,
            transport: self.transport,
        }
    }
}

impl<'a> ConnectionView<'a> {
    /// The context with `flag` added to what the client offers.
    pub open spec fn offering(self, flag: u64) -> ConnectionView<'a> {
        ConnectionView {
            stream: StreamView {
                context: ContextView {
                    client_capabilities: self.stream.context.client_capabilities | flag,
                    ..self.stream.context
                },
                ..self.stream
            },
            ..self
        }
    }

    /// The connection gives up for the reason `why`.
    pub open spec fn failed(self, why: ConnectionFailure) -> (ConnectionView<'a>, ActionView<'a>) {
        (
            ConnectionView { phase: ConnectionPhase::Failed, awaited: Awaited::Nothing, ..self },
            ActionView::Fail(why),
        )
    }

    /// Something was reported that the connection did not wait for. A
    /// connection that is closed or has failed stays as it is; any other
    /// fails.
    pub open spec fn unexpected(self) -> (ConnectionView<'a>, ActionView<'a>) {
        if self.phase == ConnectionPhase::Closed || self.phase == ConnectionPhase::Failed {
            (self, ActionView::Fail(ConnectionFailure::UnexpectedEvent))
        } else {
            self.failed(ConnectionFailure::UnexpectedEvent)
        }
    }

    /// The server's first frame came, under the number `seq`. The numbers
    /// go on from `seq`, whatever it is. Where the packet is understood it
    /// starts the context. Then TLS is decided on: a server without TLS is
    /// refused where the caller insists on TLS; where the options ask for
    /// TLS the client offers `SSL` and sends the request for TLS; and where
    /// they ask for none the client goes on to authenticate.
    pub open spec fn on_handshake(self, seq: u8, payload: Seq<u8>) -> (
        ConnectionView<'a>,
        ActionView<'a>,
    ) {
        let heard = ConnectionView { stream: self.stream.after(seq), ..self };
        match parse_handshake(payload) {
            Err(e) => heard.failed(ConnectionFailure::InitialHandshake(e)),
            Ok(packet) => {
                let greeted = ConnectionView {
                    stream: StreamView { context: context_of(packet), ..heard.stream },
                    ..heard
                };
                if self.options.tls.mode.spec_insists() && !Capability::holds(
                    packet.server_capabilities,
                    Capability::SSL,
                ) {
                    greeted.failed(ConnectionFailure::TlsCapability)
                } else {
                    match tls_parts(self.options.tls) {
                        Err(e) => greeted.failed(ConnectionFailure::Tls(e)),
                        Ok(None) => greeted.authenticate(),
                        Ok(Some(_)) => {
                            let offering = greeted.offering(Capability::SSL);
                            (
                                ConnectionView {
                                    stream: offering.stream.after(offering.stream.sequence),
                                    phase: ConnectionPhase::ReceivedHandshake,
                                    awaited: Awaited::Sent,
                                    ..offering
                                },
                                ActionView::Send {
                                    seq: offering.stream.sequence,
                                    payload: client_prelude(offering.stream.context),
                                },
                            )
                        },
                    }
                }
            },
        }
    }

    /// The client authenticates. The plugin is the one the server named,
    /// or the native one. A plugin that the client cannot answer for is
    /// refused, and so is one that needs TLS while the client does not
    /// offer `SSL`. Where a schema is asked for and the server connects
    /// with one, the client offers `CONNECT_WITH_DB`. The handshake
    /// response goes out under the number that is due, with the plugin's
    /// answer for the password.
    pub open spec fn authenticate(self) -> (ConnectionView<'a>, ActionView<'a>) {
        let context = self.stream.context;
        let auth = context.chosen_auth_type();
        let offering = if self.options.database is Some && Capability::holds(
            context.server_capabilities,
            Capability::CONNECT_WITH_DB,
        ) {
            self.offering(Capability::CONNECT_WITH_DB)
        } else {
            self
        };
        if !auth.spec_supported() {
            self.failed(ConnectionFailure::UnsupportedAuthPlugin(auth))
        } else if auth.spec_needs_ssl() && !Capability::holds(
            context.client_capabilities,
            Capability::SSL,
        ) {
            self.failed(ConnectionFailure::PluginNeedsTls)
        } else {
            match auth_response(auth, self.options.password@, context.seed) {
                Err(e) => self.failed(ConnectionFailure::AuthPluginError(e)),
                Ok(blob) => {
                    let payload = handshake_response_payload(
                        offering.stream.context,
                        self.options.username.spec_bytes(),
                        blob,
                        match self.options.database {
                            Some(name) => Some(name.spec_bytes()),
                            None => None,
                        },
                    );
                    if payload.len() > MAX_PACKET_SIZE {
                        offering.failed(
                            ConnectionFailure::Framing(FramingError::PayloadTooLarge),
                        )
                    } else {
                        (
                            ConnectionView {
                                stream: offering.stream.after(offering.stream.sequence),
                                phase: ConnectionPhase::Authenticating,
                                awaited: Awaited::Sent,
                                ..offering
                            },
                            ActionView::Send { seq: offering.stream.sequence, payload },
                        )
                    }
                },
            }
        }
    }

    /// A frame came that the connection waited for, after the first one.
    /// It has to come under the number that is due. Then it is handed to
    /// the caller as it is, and the connection is in the command phase and
    /// idle.
    pub open spec fn on_reply(self, seq: u8, payload: Seq<u8>) -> (
        ConnectionView<'a>,
        ActionView<'a>,
    ) {
        if seq != self.stream.sequence {
            self.failed(
                ConnectionFailure::Framing(
                    FramingError::InvalidSequence { expected: self.stream.sequence, got: seq },
                ),
            )
        } else {
            (
                ConnectionView {
                    stream: self.stream.after(seq),
                    phase: ConnectionPhase::Ready,
                    awaited: Awaited::Nothing,
                    ..self
                },
                ActionView::Deliver { seq, payload },
            )
        }
    }

    /// The frame that was handed out last was written. Behind the request
    /// for TLS the transport is upgraded; behind anything else the
    /// server's frame is due.
    pub open spec fn on_sent(self) -> (ConnectionView<'a>, ActionView<'a>) {
        if self.phase == ConnectionPhase::ReceivedHandshake && self.awaited == Awaited::Sent {
            match tls_parts(self.options.tls) {
                Ok(Some(parts)) => (
                    ConnectionView {
                        phase: ConnectionPhase::MaybeUpgrading,
                        awaited: Awaited::Tunnel,
                        ..self
                    },
                    ActionView::Upgrade(parts),
                ),
                _ => self.unexpected(),
            }
        } else if (self.phase == ConnectionPhase::Authenticating || self.phase
            == ConnectionPhase::Ready) && self.awaited == Awaited::Sent {
            (ConnectionView { awaited: Awaited::Frame, ..self }, ActionView::Receive)
        } else {
            self.unexpected()
        }
    }

    /// The caller asks for a ping. An idle connection in the command phase
    /// sends one: the numbers start again, so the ping goes out under 0.
    pub open spec fn on_ping(self) -> (ConnectionView<'a>, ActionView<'a>) {
        if self.phase == ConnectionPhase::Ready && self.awaited == Awaited::Nothing {
            (
                ConnectionView { stream: self.stream.after(0), awaited: Awaited::Sent, ..self },
                ActionView::Send { seq: 0, payload: ping_payload() },
            )
        } else {
            self.unexpected()
        }
    }

    /// What the connection becomes when it is told `event`, and what is to
    /// be done next.
    pub open spec fn step(self, event: EventView) -> (ConnectionView<'a>, ActionView<'a>) {
        match event {
            EventView::Received { seq, payload } => {
                if self.phase == ConnectionPhase::Connecting && self.awaited == Awaited::Frame {
                    self.on_handshake(seq, payload)
                } else if (self.phase == ConnectionPhase::Authenticating || self.phase
                    == ConnectionPhase::Ready) && self.awaited == Awaited::Frame {
                    self.on_reply(seq, payload)
                } else {
                    self.unexpected()
                }
            },
            EventView::Sent => self.on_sent(),
            EventView::Upgraded => {
                if self.phase == ConnectionPhase::MaybeUpgrading && self.awaited
                    == Awaited::Tunnel {
                    (ConnectionView { transport: StreamTransporter::Right, ..self }).authenticate()
                } else {
                    self.unexpected()
                }
            },
            EventView::Ping => self.on_ping(),
            EventView::Close => (
                ConnectionView {
                    phase: if self.phase == ConnectionPhase::Failed {
                        ConnectionPhase::Failed
                    } else {
                        ConnectionPhase::Closed
                    },
                    awaited: Awaited::Nothing,
                    ..self
                },
                ActionView::Close,
            ),
            EventView::TransportFailed => (
                ConnectionView {
                    phase: if self.phase == ConnectionPhase::Closed {
                        ConnectionPhase::Closed
                    } else {
                        ConnectionPhase::Failed
                    },
                    awaited: Awaited::Nothing,
                    ..self
                },
                ActionView::Close,
            ),
        }
    }
}

impl<'a> Connection<'a> {
    /// A connection to be brought up as `options` say, on a transport that
    /// was just opened: the server's first frame is due, so the first
    /// thing to do outside is to read one frame.
    pub fn connect(options: &ConnectionOption<'a>) -> (r: Self)
        ensures
            r@ == (ConnectionView {
                options: *options,
                stream: StreamView { context: fresh_context(), sequence: 0 },
                phase: ConnectionPhase::Connecting,
                awaited: Awaited::Frame,
                transport: StreamTransporter::Left,
            }),
    {
        Connection {
            options: *options,
            stream: MyStream::new(),
            phase: ConnectionPhase::Connecting,
            awaited: Awaited::Frame,
            transport: StreamTransporter::Left,
        }
    }

    pub fn phase(&self) -> (r: ConnectionPhase)
        ensures
            r == self@.phase,
    {
        self.phase
    }

    pub fn awaited(&self) -> (r: Awaited)
        ensures
            r == self@.awaited,
    {
        self.awaited
    }

    pub fn transport(&self) -> (r: StreamTransporter)
        ensures
            r == self@.transport,
    {
        self.transport
    }

    pub fn context(&self) -> (r: &Context)
        ensures
            r@ == self@.stream.context,
    {
        self.stream.context()
    }

    /// The sequence number that is due next.
    pub fn sequence(&self) -> (r: u8)
        ensures
            r == self@.stream.sequence,
    {
        self.stream.sequence()
    }

    /// Gives up for the reason `why`.
    fn fail(&mut self, why: ConnectionError) -> (action: ConnectionAction<'a>)
        ensures
            (final(self)@, action@) == old(self)@.failed(why@),
    {
        self.phase = ConnectionPhase::Failed;
        self.awaited = Awaited::Nothing;
        ConnectionAction::Fail(why)
    }

    /// Answers to something that was not waited for.
    fn unexpected(&mut self) -> (action: ConnectionAction<'a>)
        ensures
            (final(self)@, action@) == old(self)@.unexpected(),
    {
        if matches!(self.phase, ConnectionPhase::Closed | ConnectionPhase::Failed) {
            ConnectionAction::Fail(ConnectionError::UnexpectedEvent)
        } else {
            self.fail(ConnectionError::UnexpectedEvent)
        }
    }

    /// Takes the server's first frame.
    fn on_handshake(&mut self, frame: PacketFrame) -> (action: ConnectionAction<'a>)
        ensures
            (final(self)@, action@) == old(self)@.on_handshake(frame.seq, frame.payload()),
    {
        let frame = self.stream.recv_packet(frame);
        let packet = match InitialHanshakePacket::try_from(frame) {
            Ok(packet) => packet,
            Err(e) => return self.fail(ConnectionError::InitialHandshake(e)),
        };
        self.stream.handshake_packet(packet);
        if self.options.tls.mode.insists() && !self.stream.context().server_capabilities().has(
            Capability::SSL,
        ) {
            return self.fail(ConnectionError::TlsCapability);
        }
        match into_tls_parts(&self.options.tls) {
            Err(e) => self.fail(ConnectionError::Tls(e)),
            Ok(None) => self.authenticate(),
            Ok(Some(_)) => {
                proof {
                    lemma_flags_are_defined();
                }
                self.stream.set_client_capability(Capability::from_bits_truncate(Capability::SSL));
                match self.stream.send_packet(SslPacket::new()) {
                    Ok(request) => {
                        self.phase = ConnectionPhase::ReceivedHandshake;
                        self.awaited = Awaited::Sent;
                        ConnectionAction::Send(request)
                    },
                    Err(e) => self.fail(ConnectionError::Framing(e)),
                }
            },
        }
    }

    /// Sends the handshake response.
    fn authenticate(&mut self) -> (action: ConnectionAction<'a>)
        ensures
            (final(self)@, action@) == old(self)@.authenticate(),
    {
        let auth_type = self.stream.context().chosen_auth_type();
        if !auth_type.supported() {
            return self.fail(ConnectionError::UnsupportedAuthPlugin(auth_type));
        }
        if auth_type.needs_ssl() && !self.stream.context().client_capabilities().has(
            Capability::SSL,
        ) {
            return self.fail(ConnectionError::PluginNeedsTls);
        }
        let password = match auth_type.encrypt(self.options.password, self.stream.context()) {
            Ok(password) => password,
            Err(e) => return self.fail(ConnectionError::AuthPluginError(e)),
        };
        if self.options.database.is_some() && self.stream.context().server_capabilities().has(
            Capability::CONNECT_WITH_DB,
        ) {
            proof {
                lemma_flags_are_defined();
            }
            self.stream.set_client_capability(
                Capability::from_bits_truncate(Capability::CONNECT_WITH_DB),
            );
        }
        let handshake = HandshakeResponse {
            username: self.options.username,
            password: password.as_slice(),
            database: self.options.database,
        };
        match self.stream.send_packet(handshake) {
            Ok(response) => {
                self.phase = ConnectionPhase::Authenticating;
                self.awaited = Awaited::Sent;
                ConnectionAction::Send(response)
            },
            Err(e) => self.fail(ConnectionError::Framing(e)),
        }
    }

    /// Takes a frame that was waited for, after the first one.
    fn on_reply(&mut self, frame: PacketFrame) -> (action: ConnectionAction<'a>)
        ensures
            (final(self)@, action@) == old(self)@.on_reply(frame.seq, frame.payload()),
    {
        match self.stream.check_sequence(&frame) {
            Err(e) => self.fail(ConnectionError::Framing(e)),
            Ok(()) => {
                let frame = self.stream.recv_packet(frame);
                self.phase = ConnectionPhase::Ready;
                self.awaited = Awaited::Nothing;
                ConnectionAction::Deliver(frame)
            },
        }
    }

    /// Goes on behind a frame that was written.
    fn on_sent(&mut self) -> (action: ConnectionAction<'a>)
        ensures
            (final(self)@, action@) == old(self)@.on_sent(),
    {
        match (self.phase, self.awaited) {
            (ConnectionPhase::ReceivedHandshake, Awaited::Sent) => {
                match into_tls_parts(&self.options.tls) {
                    Ok(Some(parts)) => {
                        self.phase = ConnectionPhase::MaybeUpgrading;
                        self.awaited = Awaited::Tunnel;
                        ConnectionAction::Upgrade(parts)
                    },
                    _ => self.unexpected(),
                }
            },
            (ConnectionPhase::Authenticating, Awaited::Sent) | (
                ConnectionPhase::Ready,
                Awaited::Sent,
            ) => {
                self.awaited = Awaited::Frame;
                ConnectionAction::Receive
            },
            _ => self.unexpected(),
        }
    }

    /// Sends a ping, where the connection is idle in the command phase:
    /// the same as `step` on the event `Ping`.
    pub fn ping(&mut self) -> (action: ConnectionAction<'a>)
        ensures
            (final(self)@, action@) == old(self)@.on_ping(),
    {
        match (self.phase, self.awaited) {
            (ConnectionPhase::Ready, Awaited::Nothing) => {
                match self.stream.send_packet(Ping::new()) {
                    Ok(frame) => {
                        self.awaited = Awaited::Sent;
                        ConnectionAction::Send(frame)
                    },
                    Err(e) => self.fail(ConnectionError::Framing(e)),
                }
            },
            _ => self.unexpected(),
        }
    }

    /// Tells the connection what happened outside, and learns what is to
    /// be done next.
    pub fn step(&mut self, event: ConnectionEvent) -> (action: ConnectionAction<'a>)
        ensures
            (final(self)@, action@) == old(self)@.step(event@),
    {
        match event {
            ConnectionEvent::Received(frame) => match (self.phase, self.awaited) {
                (ConnectionPhase::Connecting, Awaited::Frame) => self.on_handshake(frame),
                (ConnectionPhase::Authenticating, Awaited::Frame) | (
                    ConnectionPhase::Ready,
                    Awaited::Frame,
                ) => self.on_reply(frame),
                _ => self.unexpected(),
            },
            ConnectionEvent::Sent => self.on_sent(),
            ConnectionEvent::Upgraded => match (self.phase, self.awaited) {
                (ConnectionPhase::MaybeUpgrading, Awaited::Tunnel) => {
                    self.transport = StreamTransporter::Right;
                    self.authenticate()
                },
                _ => self.unexpected(),
            },
            ConnectionEvent::Ping => self.ping(),
            ConnectionEvent::Close => {
                if !matches!(self.phase, ConnectionPhase::Failed) {
                    self.phase = ConnectionPhase::Closed;
                }
                self.awaited = Awaited::Nothing;
                ConnectionAction::Close
            },
            ConnectionEvent::TransportFailed => {
                if !matches!(self.phase, ConnectionPhase::Closed) {
                    self.phase = ConnectionPhase::Failed;
                }
                self.awaited = Awaited::Nothing;
                ConnectionAction::Close
            },
        }
    }
}

/// Adding a flag to a set of capabilities puts it there and takes no
/// other flag away.
pub proof fn lemma_offering_keeps_flags(capabilities: u64, added: u64, flag: u64)
    by (bit_vector)
    ensures
        (capabilities | added) & added == added,
        capabilities & flag == flag ==> (capabilities | added) & flag == flag,
{
}

/// Required TLS, and a server without it. Whatever else the options and
/// the server's first packet say: where the caller insists on TLS and the
/// packet does not advertise `SSL`, the connection fails with
/// `TlsCapability`, and nothing is sent.
pub proof fn lemma_insisting_on_tls_refuses_server_without<'a>(
    c: ConnectionView<'a>,
    seq: u8,
    payload: Seq<u8>,
)
    requires
        c.phase == ConnectionPhase::Connecting,
        c.awaited == Awaited::Frame,
        c.options.tls.mode.spec_insists(),
        parse_handshake(payload) matches Ok(packet) && !Capability::holds(
            packet.server_capabilities,
            Capability::SSL,
        ),
    ensures
        c.step(EventView::Received { seq, payload }).1 == ActionView::Fail(
            ConnectionFailure::TlsCapability,
        ),
        c.step(EventView::Received { seq, payload }).0.phase == ConnectionPhase::Failed,
{
}

/// A plugin that the client cannot answer for. Whenever the client comes to
/// authenticate, under TLS or without, and the server has named a plugin
/// other than the native and the clear one, the connection fails with
/// `UnsupportedAuthPlugin` and that plugin, and nothing is sent. Without
/// TLS that is the answer to the server's first packet.
pub proof fn lemma_unsupported_plugin_is_refused<'a>(
    c: ConnectionView<'a>,
    seq: u8,
    payload: Seq<u8>,
)
    requires
        parse_handshake(payload) matches Ok(packet) && packet.auth_type matches Some(auth)
            && !auth.spec_supported(),
    ensures
        ({
            let auth = parse_handshake(payload)->Ok_0.auth_type->Some_0;
            &&& c.stream.context.auth_type == Some(auth) ==> c.authenticate().1
                == ActionView::Fail(ConnectionFailure::UnsupportedAuthPlugin(auth))
            &&& c.phase == ConnectionPhase::Connecting && c.awaited == Awaited::Frame
                && c.options.tls.mode == TlsMode::Disable ==> {
                &&& c.step(EventView::Received { seq, payload }).1 == ActionView::Fail(
                    ConnectionFailure::UnsupportedAuthPlugin(auth),
                )
                &&& c.step(EventView::Received { seq, payload }).0.phase
                    == ConnectionPhase::Failed
            }
        }),
{
}

/// Authentication without TLS by the native plugin. The options ask for no
/// TLS and the server's first packet, which came under the number `seq`,
/// names the native plugin or none. Then the answer to that packet is the
/// handshake response under the number after `seq`, with the native
/// plugin's answer for the password, unless the response is longer than a
/// frame may carry, which fails the connection. For a password that is not
/// empty and a server with secure connection that takes no variable-width
/// length, the plugin's answer stands in the response as the byte 20 and
/// the 20 bytes of the scramble.
pub proof fn lemma_plaintext_native_auth<'a>(c: ConnectionView<'a>, seq: u8, payload: Seq<u8>)
    requires
        c.phase == ConnectionPhase::Connecting,
        c.awaited == Awaited::Frame,
        c.options.tls.mode == TlsMode::Disable,
        parse_handshake(payload) matches Ok(packet) && (packet.auth_type is None
            || packet.auth_type == Some(AuthType::Native)),
    ensures
        ({
            let packet = parse_handshake(payload)->Ok_0;
            let (next, action) = c.step(EventView::Received { seq, payload });
            let blob = native_password(c.options.password@, packet.seed);
            let response = handshake_response_payload(
                next.stream.context,
                c.options.username.spec_bytes(),
                blob,
                match c.options.database {
                    Some(name) => Some(name.spec_bytes()),
                    None => None,
                },
            );
            &&& next.stream.context.server_capabilities == packet.server_capabilities
            &&& next.stream.context.seed == packet.seed
            &&& if response.len() > MAX_PACKET_SIZE {
                &&& action == ActionView::Fail(
                    ConnectionFailure::Framing(FramingError::PayloadTooLarge),
                )
                &&& next.phase == ConnectionPhase::Failed
            } else {
                &&& action == ActionView::Send { seq: chunk_seq(seq, 1), payload: response }
                &&& next.phase == ConnectionPhase::Authenticating
                &&& next.awaited == Awaited::Sent
                &&& next.stream.sequence == chunk_seq(seq, 2)
                &&& next.transport == c.transport
            }
            &&& c.options.password@.len() > 0 && Capability::holds(
                packet.server_capabilities,
                Capability::SECURE_CONNECTION,
            ) && !Capability::holds(
                packet.server_capabilities,
                Capability::PLUGIN_AUTH_LENENC_CLIENT_DATA,
            ) ==> auth_field(packet.server_capabilities, blob) == seq![20u8] + native_scramble(
                c.options.password@,
                packet.seed,
            )
        }),
{
}

/// The upgrade to TLS. The options ask for TLS, and the server's first
/// packet, which came under the number `seq`, advertises `SSL`. Then the
/// answer to the packet is the request for TLS under the number after
/// `seq`, in which the client asks for `SSL`. Once that is written the
/// transport is to be put inside a TLS session, and no frame is read
/// before. Once the session stands, the client authenticates on the
/// encrypted transport: the handshake response goes out under the second
/// number after `seq`, and it goes out exactly where the client can answer
/// for the plugin and the response is no longer than a frame may carry;
/// else the connection fails. The client offers `SSL` from the request on.
pub proof fn lemma_tls_upgrade<'a>(c: ConnectionView<'a>, seq: u8, payload: Seq<u8>)
    requires
        c.phase == ConnectionPhase::Connecting,
        c.awaited == Awaited::Frame,
        tls_parts(c.options.tls) matches Ok(Some(_)),
        parse_handshake(payload) matches Ok(packet) && Capability::holds(
            packet.server_capabilities,
            Capability::SSL,
        ),
    ensures
        ({
            let parts = tls_parts(c.options.tls)->Ok_0->Some_0;
            let (asked, request) = c.step(EventView::Received { seq, payload });
            let (upgrading, upgrade) = asked.step(EventView::Sent);
            let (last, action) = upgrading.step(EventView::Upgraded);
            let auth = asked.stream.context.chosen_auth_type();
            &&& request == ActionView::Send {
                seq: chunk_seq(seq, 1),
                payload: client_prelude(asked.stream.context),
            }
            &&& asked.phase == ConnectionPhase::ReceivedHandshake
            &&& Capability::holds(asked.stream.context.client_capabilities, Capability::SSL)
            &&& Capability::holds(asked.stream.context.negotiated(), Capability::SSL)
            &&& upgrade == ActionView::Upgrade(parts)
            &&& upgrading.phase == ConnectionPhase::MaybeUpgrading
            &&& upgrading.stream == asked.stream
            &&& last.transport == StreamTransporter::Right
            &&& Capability::holds(last.stream.context.client_capabilities, Capability::SSL)
            &&& action is Send || action is Fail
            &&& action is Send <==> auth.spec_supported() && handshake_response_payload(
                last.stream.context,
                c.options.username.spec_bytes(),
                auth_response(auth, c.options.password@, asked.stream.context.seed)->Ok_0,
                match c.options.database {
                    Some(name) => Some(name.spec_bytes()),
                    None => None,
                },
            ).len() <= MAX_PACKET_SIZE
            &&& action matches ActionView::Send { seq: number, payload: response } ==> {
                &&& number == chunk_seq(seq, 2)
                &&& last.phase == ConnectionPhase::Authenticating
                &&& response == handshake_response_payload(
                    last.stream.context,
                    c.options.username.spec_bytes(),
                    auth_response(auth, c.options.password@, asked.stream.context.seed)->Ok_0,
                    match c.options.database {
                        Some(name) => Some(name.spec_bytes()),
                        None => None,
                    },
                )
            }
        }),
{
    let packet = parse_handshake(payload)->Ok_0;
    let client = context_of(packet).client_capabilities;
    lemma_offering_keeps_flags(client, Capability::SSL, Capability::SSL);
    lemma_offering_keeps_flags(
        client | Capability::SSL,
        Capability::CONNECT_WITH_DB,
        Capability::SSL,
    );
    let server = packet.server_capabilities;
    assert((server & (client | Capability::SSL)) & Capability::SSL == Capability::SSL)
        by (bit_vector)
        requires
            server & Capability::SSL == Capability::SSL,
    ;
}

/// Every command starts the numbers again. An idle connection in the
/// command phase, whatever number is due, sends a ping as the one byte 0x0E
/// under the number 0. Once that is written the server's frame is due, and
/// a frame that comes under the number 1 is taken and handed to the caller
/// as it is; the connection is idle again and the number 2 is due.
pub proof fn lemma_command_sequence_reset<'a>(c: ConnectionView<'a>, reply: Seq<u8>)
    requires
        c.phase == ConnectionPhase::Ready,
        c.awaited == Awaited::Nothing,
    ensures
        ({
            let (pinging, ping) = c.step(EventView::Ping);
            let (waiting, wait) = pinging.step(EventView::Sent);
            let (idle, action) = waiting.step(EventView::Received { seq: 1, payload: reply });
            &&& ping == ActionView::Send { seq: 0, payload: seq![0x0eu8] }
            &&& wait == ActionView::Receive
            &&& action == ActionView::Deliver { seq: 1, payload: reply }
            &&& idle.phase == ConnectionPhase::Ready
            &&& idle.awaited == Awaited::Nothing
            &&& idle.stream.sequence == 2
            &&& idle.stream.context == c.stream.context
        }),
{
}

} // verus!
