use bytes::Bytes;
use dibi::codec::{FramingError, PacketFrame};
use dibi::connection::{
    Awaited, Connection, ConnectionAction, ConnectionError, ConnectionEvent, ConnectionOption,
    ConnectionPhase, MyStream,
};
use dibi::protocol::client::{HandshakeResponse, HandshakeResponsePacket, Ping, PingPacket, SslPacket};
use dibi::protocol::plugin::native::mysql_native_password;
use dibi::protocol::plugin::AuthType;
use dibi::protocol::server::InitialHanshakePacket;
use dibi::protocol::{Capability, ServerStatus, ServerVersion};
use dibi::ssl::{StreamTransporter, TlsError, TlsMode, TlsOptions};
use dibi::stream::StreamType;
use dibi::EncodePacket;

fn seed() -> Vec<u8> {
    (0x00..=0x13).collect()
}

fn server_hello(capabilities: u64, plugin: &str) -> Vec<u8> {
    let seed = seed();
    let mut p = vec![0x0a];
    p.extend_from_slice(b"8.0.23");
    p.push(0);
    p.extend_from_slice(&7u32.to_le_bytes());
    p.extend_from_slice(&seed[..8]);
    p.push(0);
    p.extend_from_slice(&(capabilities as u16).to_le_bytes());
    p.push(33);
    p.extend_from_slice(&2u16.to_le_bytes());
    p.extend_from_slice(&((capabilities >> 16) as u16).to_le_bytes());
    p.push(21);
    p.extend_from_slice(&[0; 6]);
    p.extend_from_slice(&((capabilities >> 32) as u32).to_le_bytes());
    if capabilities & Capability::SECURE_CONNECTION != 0 {
        p.extend_from_slice(&seed[8..]);
        p.push(0);
    }
    if capabilities & Capability::PLUGIN_AUTH != 0 {
        p.extend_from_slice(plugin.as_bytes());
        p.push(0);
    }
    p
}

const BASE: u64 =
    Capability::CLIENT_PROTOCOL_41 | Capability::SECURE_CONNECTION | Capability::PLUGIN_AUTH;

fn options(mode: TlsMode) -> ConnectionOption<'static> {
    ConnectionOption {
        host: "127.0.0.1:3306",
        username: "root",
        password: b"secret",
        database: None,
        stream_type: StreamType::Tcp,
        tls: TlsOptions { mode, pem: None, key: None, root: None, domain: None },
    }
}

fn received(seq: u8, payload: Vec<u8>) -> ConnectionEvent {
    ConnectionEvent::Received(PacketFrame::with_sequence(seq, Bytes::from(payload)))
}

fn sent(action: ConnectionAction<'_>) -> (u8, Vec<u8>) {
    match action {
        ConnectionAction::Send(frame) => (frame.seq, frame.bytes().to_vec()),
        other => panic!("no frame to send: {:?}", other),
    }
}

fn prelude(capabilities: u64, collation: u8) -> Vec<u8> {
    let mut p = Vec::new();
    p.extend_from_slice(&(capabilities as u32).to_le_bytes());
    p.extend_from_slice(&(1u32 << 30).to_le_bytes());
    p.push(collation);
    p.extend_from_slice(&[0; 19]);
    p.extend_from_slice(&[0; 4]);
    p
}

fn scramble() -> Vec<u8> {
    vec![
        0x21, 0xb3, 0xff, 0x40, 0x5f, 0x32, 0xcb, 0xe4, 0xaa, 0xff, 0xf2, 0x91, 0x39, 0x60, 0x46,
        0xea, 0x29, 0xfa, 0x3a, 0x4d,
    ]
}

fn ready(options: &ConnectionOption<'static>) -> Connection<'static> {
    let mut connection = Connection::connect(options);
    let action = connection.step(received(0, server_hello(BASE, "mysql_native_password")));
    assert!(matches!(action, ConnectionAction::Send(_)));
    assert!(matches!(connection.step(ConnectionEvent::Sent), ConnectionAction::Receive));
    let action = connection.step(received(2, vec![0x00, 0, 0, 2, 0, 0, 0]));
    assert!(matches!(action, ConnectionAction::Deliver(_)));
    assert_eq!(connection.phase(), ConnectionPhase::Ready);
    connection
}

#[test]
fn plaintext_native_auth() {
    let options = options(TlsMode::Disable);
    let mut connection = Connection::connect(&options);
    assert_eq!(connection.phase(), ConnectionPhase::Connecting);
    assert_eq!(connection.awaited(), Awaited::Frame);
    assert_eq!(connection.transport(), StreamTransporter::Left);

    let action = connection.step(received(0, server_hello(BASE, "mysql_native_password")));
    let (seq, payload) = sent(action);
    assert_eq!(seq, 1);
    let mut expected = prelude(BASE, 33);
    expected.extend_from_slice(b"root\0");
    expected.push(0x14);
    expected.extend_from_slice(&scramble());
    expected.extend_from_slice(b"mysql_native_password\0");
    assert_eq!(payload, expected);
    assert_eq!(connection.phase(), ConnectionPhase::Authenticating);
    assert_eq!(connection.awaited(), Awaited::Sent);
    assert_eq!(connection.sequence(), 2);
    assert_eq!(connection.context().connection_id(), 7);
    assert_eq!(connection.context().seed(), &seed()[..]);

    assert!(matches!(connection.step(ConnectionEvent::Sent), ConnectionAction::Receive));
    assert_eq!(connection.awaited(), Awaited::Frame);

    let action = connection.step(received(2, vec![0x00, 0, 0, 2, 0, 0, 0]));
    match action {
        ConnectionAction::Deliver(frame) => {
            assert_eq!(frame.seq, 2);
            assert_eq!(frame.bytes(), &[0x00, 0, 0, 2, 0, 0, 0]);
        },
        other => panic!("{:?}", other),
    }
    assert_eq!(connection.phase(), ConnectionPhase::Ready);
    assert_eq!(connection.awaited(), Awaited::Nothing);
    assert_eq!(connection.sequence(), 3);
    assert_eq!(connection.transport(), StreamTransporter::Left);
}

#[test]
fn numbers_go_on_from_the_handshakes_own() {
    let options = options(TlsMode::Disable);
    let mut connection = Connection::connect(&options);
    let action = connection.step(received(255, server_hello(BASE, "mysql_native_password")));
    assert_eq!(sent(action).0, 0);
    assert_eq!(connection.sequence(), 1);
}

#[test]
fn required_tls_but_server_lacks_ssl() {
    for mode in [TlsMode::Require, TlsMode::VerifyCa, TlsMode::VerifyFull] {
        let options = options(mode);
        let mut connection = Connection::connect(&options);
        let action = connection.step(received(0, server_hello(BASE, "mysql_native_password")));
        assert!(matches!(action, ConnectionAction::Fail(ConnectionError::TlsCapability)));
        assert_eq!(connection.phase(), ConnectionPhase::Failed);
        assert_eq!(connection.awaited(), Awaited::Nothing);
    }
}

#[test]
fn tls_upgrade() {
    let options = options(TlsMode::Require);
    let mut connection = Connection::connect(&options);
    let hello = server_hello(BASE | Capability::SSL, "mysql_native_password");
    let (seq, payload) = sent(connection.step(received(0, hello)));
    assert_eq!(seq, 1);
    assert_eq!(payload, prelude(BASE | Capability::SSL, 33));
    assert_eq!(payload.len(), 32);
    assert_eq!(connection.phase(), ConnectionPhase::ReceivedHandshake);
    assert_eq!(connection.transport(), StreamTransporter::Left);

    match connection.step(ConnectionEvent::Sent) {
        ConnectionAction::Upgrade(parts) => {
            assert!(parts.accept_invalid_certs);
            assert!(parts.accept_invalid_hostnames);
            assert_eq!(parts.domain, "");
        },
        other => panic!("{:?}", other),
    }
    assert_eq!(connection.phase(), ConnectionPhase::MaybeUpgrading);
    assert_eq!(connection.awaited(), Awaited::Tunnel);

    let (seq, payload) = sent(connection.step(ConnectionEvent::Upgraded));
    assert_eq!(seq, 2);
    let mut expected = prelude(BASE | Capability::SSL, 33);
    expected.extend_from_slice(b"root\0");
    expected.push(0x14);
    expected.extend_from_slice(&scramble());
    expected.extend_from_slice(b"mysql_native_password\0");
    assert_eq!(payload, expected);
    assert_eq!(connection.phase(), ConnectionPhase::Authenticating);
    assert_eq!(connection.transport(), StreamTransporter::Right);
    assert!(connection.context().client_capabilities().has(Capability::SSL));

    assert!(matches!(connection.step(ConnectionEvent::Sent), ConnectionAction::Receive));
    assert!(matches!(connection.step(received(3, vec![0])), ConnectionAction::Deliver(_)));
    assert_eq!(connection.phase(), ConnectionPhase::Ready);
}

#[test]
fn preferred_tls_is_asked_for_whatever_the_server_offers() {
    let options = options(TlsMode::Prefer);
    let mut connection = Connection::connect(&options);
    let (seq, payload) = sent(connection.step(received(0, server_hello(BASE, "mysql_native_password"))));
    assert_eq!((seq, payload.len()), (1, 32));
    assert_eq!(connection.phase(), ConnectionPhase::ReceivedHandshake);
}

#[test]
fn verify_full_without_domain() {
    let options = options(TlsMode::VerifyFull);
    let mut connection = Connection::connect(&options);
    let hello = server_hello(BASE | Capability::SSL, "mysql_native_password");
    let action = connection.step(received(0, hello));
    assert!(matches!(
        action,
        ConnectionAction::Fail(ConnectionError::Tls(TlsError::DomainRequired))
    ));
    assert_eq!(connection.phase(), ConnectionPhase::Failed);
}

#[test]
fn unsupported_plugin() {
    let options = options(TlsMode::Disable);
    let mut connection = Connection::connect(&options);
    let action = connection.step(received(0, server_hello(BASE, "sha256_password")));
    match action {
        ConnectionAction::Fail(ConnectionError::UnsupportedAuthPlugin(auth)) => {
            assert_eq!(auth, AuthType::Sha256);
            assert_eq!(auth.name(), "sha256_password");
        },
        other => panic!("{:?}", other),
    }
    assert_eq!(connection.phase(), ConnectionPhase::Failed);
}

#[test]
fn clear_plugin_needs_tls() {
    let options = options(TlsMode::Disable);
    let mut connection = Connection::connect(&options);
    let action = connection.step(received(0, server_hello(BASE, "mysql_clear_password")));
    assert!(matches!(action, ConnectionAction::Fail(ConnectionError::PluginNeedsTls)));
    assert_eq!(connection.phase(), ConnectionPhase::Failed);
}

#[test]
fn clear_plugin_under_tls_sends_the_password() {
    let options = options(TlsMode::Require);
    let mut connection = Connection::connect(&options);
    let hello = server_hello(BASE | Capability::SSL, "mysql_clear_password");
    assert_eq!(sent(connection.step(received(0, hello))).0, 1);
    assert!(matches!(connection.step(ConnectionEvent::Sent), ConnectionAction::Upgrade(_)));
    let (seq, payload) = sent(connection.step(ConnectionEvent::Upgraded));
    assert_eq!(seq, 2);
    let mut expected = prelude(BASE | Capability::SSL, 33);
    expected.extend_from_slice(b"root\0\x06secret");
    expected.extend_from_slice(b"mysql_clear_password\0");
    assert_eq!(payload, expected);
}

#[test]
fn malformed_handshake() {
    let options = options(TlsMode::Disable);
    let mut connection = Connection::connect(&options);
    let action = connection.step(received(0, vec![0x09, 1, 2, 3]));
    assert!(matches!(
        action,
        ConnectionAction::Fail(ConnectionError::InitialHandshake(_))
    ));
    assert_eq!(connection.phase(), ConnectionPhase::Failed);
    assert_eq!(connection.sequence(), 1);
}

#[test]
fn schema_is_asked_for_where_the_server_connects_with_one() {
    let mut options = options(TlsMode::Disable);
    options.database = Some("shop");
    let mut connection = Connection::connect(&options);
    let caps = BASE | Capability::CONNECT_WITH_DB;
    let (_, payload) = sent(connection.step(received(0, server_hello(caps, "mysql_native_password"))));
    let mut expected = prelude(BASE | Capability::CONNECT_WITH_DB, 33);
    expected.extend_from_slice(b"root\0");
    expected.push(0x14);
    expected.extend_from_slice(&scramble());
    expected.extend_from_slice(b"shop\0");
    expected.extend_from_slice(b"mysql_native_password\0");
    assert_eq!(payload, expected);

    let mut connection = Connection::connect(&options);
    let (_, payload) = sent(connection.step(received(0, server_hello(BASE, "mysql_native_password"))));
    assert_eq!(&payload[..4], &(BASE as u32).to_le_bytes());
    assert!(!payload.windows(5).any(|w| w == b"shop\0"));
}

#[test]
fn command_sequence_reset() {
    let options = options(TlsMode::Disable);
    let mut connection = ready(&options);
    assert_eq!(connection.sequence(), 3);
    let (seq, payload) = sent(connection.step(ConnectionEvent::Ping));
    assert_eq!((seq, payload), (0, vec![0x0E]));
    assert_eq!(connection.sequence(), 1);
    assert_eq!(connection.awaited(), Awaited::Sent);
    assert!(matches!(connection.step(ConnectionEvent::Sent), ConnectionAction::Receive));
    match connection.step(received(1, vec![0x00, 0, 0, 2, 0, 0, 0])) {
        ConnectionAction::Deliver(frame) => assert_eq!(frame.seq, 1),
        other => panic!("{:?}", other),
    }
    assert_eq!(connection.phase(), ConnectionPhase::Ready);
    assert_eq!(connection.awaited(), Awaited::Nothing);

    let (seq, _) = sent(connection.ping());
    assert_eq!(seq, 0);
}

#[test]
fn reply_under_a_wrong_number_is_refused() {
    let options = options(TlsMode::Disable);
    let mut connection = ready(&options);
    sent(connection.ping());
    connection.step(ConnectionEvent::Sent);
    let action = connection.step(received(2, vec![0]));
    assert!(matches!(
        action,
        ConnectionAction::Fail(ConnectionError::Framing(FramingError::InvalidSequence {
            expected: 1,
            got: 2
        }))
    ));
    assert_eq!(connection.phase(), ConnectionPhase::Failed);
}

#[test]
fn what_is_not_waited_for_fails_the_connection() {
    let options = options(TlsMode::Disable);
    for event in 0..3 {
        let mut connection = Connection::connect(&options);
        let event = match event {
            0 => ConnectionEvent::Sent,
            1 => ConnectionEvent::Upgraded,
            _ => ConnectionEvent::Ping,
        };
        let action = connection.step(event);
        assert!(matches!(action, ConnectionAction::Fail(ConnectionError::UnexpectedEvent)));
        assert_eq!(connection.phase(), ConnectionPhase::Failed);
        let action = connection.step(received(0, server_hello(BASE, "mysql_native_password")));
        assert!(matches!(action, ConnectionAction::Fail(ConnectionError::UnexpectedEvent)));
        assert_eq!(connection.phase(), ConnectionPhase::Failed);
    }
    let mut connection = ready(&options);
    let action = connection.step(received(3, vec![0]));
    assert!(matches!(action, ConnectionAction::Fail(ConnectionError::UnexpectedEvent)));
    assert_eq!(connection.phase(), ConnectionPhase::Failed);
}

#[test]
fn closing_and_breaking() {
    let options = options(TlsMode::Disable);
    let mut connection = ready(&options);
    assert!(matches!(connection.step(ConnectionEvent::Close), ConnectionAction::Close));
    assert_eq!(connection.phase(), ConnectionPhase::Closed);
    assert!(matches!(connection.step(ConnectionEvent::TransportFailed), ConnectionAction::Close));
    assert_eq!(connection.phase(), ConnectionPhase::Closed);
    assert!(matches!(
        connection.ping(),
        ConnectionAction::Fail(ConnectionError::UnexpectedEvent)
    ));
    assert_eq!(connection.phase(), ConnectionPhase::Closed);

    let mut connection = Connection::connect(&options);
    assert!(matches!(connection.step(ConnectionEvent::TransportFailed), ConnectionAction::Close));
    assert_eq!(connection.phase(), ConnectionPhase::Failed);
    assert!(matches!(connection.step(ConnectionEvent::Close), ConnectionAction::Close));
    assert_eq!(connection.phase(), ConnectionPhase::Failed);
}

#[test]
fn default_options() {
    let options = ConnectionOption::default();
    assert_eq!(options.host, "127.0.0.1:3306");
    assert_eq!(options.username, "");
    assert!(options.password.is_empty());
    assert!(options.database.is_none());
    assert_eq!(options.stream_type, StreamType::Tcp);
    assert_eq!(options.tls.mode, TlsMode::Disable);
}

fn packet(capabilities: u64, auth_type: Option<AuthType>, is_maria_db: bool) -> InitialHanshakePacket {
    InitialHanshakePacket {
        server_version: ServerVersion::new(10, 4, 17),
        connection_id: 1,
        server_capabilities: Capability::from_bits_truncate(capabilities),
        default_collation: 8,
        status_flags: ServerStatus::empty(),
        auth_type,
        is_maria_db,
        seed: seed(),
    }
}

#[test]
fn stream_stamps_and_records_sequence_numbers() {
    let mut stream = MyStream::new();
    assert_eq!(stream.sequence(), 0);
    let frame = stream.recv_packet(PacketFrame::with_sequence(0, Bytes::new()));
    assert_eq!(frame.seq, 0);
    assert_eq!(stream.sequence(), 1);
    stream.handshake_packet(packet(BASE, Some(AuthType::Native), false));
    assert_eq!(stream.sequence(), 1);
    assert_eq!(stream.context().connection_id(), 1);

    let frame = stream.send_packet(SslPacket::new()).unwrap();
    assert_eq!(frame.seq, 1);
    assert_eq!(stream.sequence(), 2);
    let frame = stream.send_packet(Ping::new()).unwrap();
    assert_eq!((frame.seq, frame.bytes().to_vec()), (0, vec![0x0E]));
    assert_eq!(stream.sequence(), 1);

    assert_eq!(stream.check_sequence(&PacketFrame::with_sequence(1, Bytes::new())), Ok(()));
    assert_eq!(
        stream.check_sequence(&PacketFrame::with_sequence(0, Bytes::new())),
        Err(FramingError::InvalidSequence { expected: 1, got: 0 })
    );
    stream.recv_packet(PacketFrame::with_sequence(255, Bytes::new()));
    assert_eq!(stream.sequence(), 0);
    let frame = stream.stamp(PacketFrame::new(Bytes::from(vec![1u8])), false);
    assert_eq!((frame.seq, frame.bytes().to_vec()), (0, vec![1]));
    stream.set_client_capability(Capability::from_bits_truncate(Capability::SSL));
    assert!(stream.context().client_capabilities().has(Capability::SSL));
    stream
        .context_mut()
        .set_client_capability(Capability::from_bits_truncate(Capability::COMPRESS));
    assert!(stream.context().client_capabilities().has(Capability::SSL | Capability::COMPRESS));
    assert_eq!(stream.sequence(), 1);
}

#[test]
fn ssl_request_for_mariadb_carries_the_extended_capabilities() {
    let mut stream = MyStream::new();
    let advertised = BASE | Capability::SSL | Capability::STMT_BULK_OPERATIONS;
    stream.handshake_packet(packet(advertised, Some(AuthType::Native), true));
    stream.set_client_capability(Capability::from_bits_truncate(
        Capability::SSL | Capability::STMT_BULK_OPERATIONS,
    ));
    let packet = SslPacket::new();
    assert_eq!(packet.size_hint(), 32);
    assert!(!packet.is_command_packet());
    let frame = packet.encode_packet(stream.context()).unwrap();
    let mut expected = Vec::new();
    expected.extend_from_slice(&((BASE | Capability::SSL) as u32).to_le_bytes());
    expected.extend_from_slice(&[0, 0, 0, 0x40]);
    expected.push(8);
    expected.extend_from_slice(&[0; 19]);
    expected.extend_from_slice(&[4, 0, 0, 0]);
    assert_eq!(frame.bytes(), &expected[..]);
    assert_eq!(frame.seq, 0);
}

fn response(
    capabilities: u64,
    auth_type: Option<AuthType>,
    password: &[u8],
    database: Option<&str>,
) -> Vec<u8> {
    let mut stream = MyStream::new();
    stream.handshake_packet(packet(capabilities, auth_type, false));
    let response = HandshakeResponse { username: "bob", password, database };
    assert!(!response.is_command_packet());
    assert_eq!(response.size_hint(), 512);
    let frame = response.encode_packet(stream.context()).unwrap();
    assert_eq!(frame.seq, 0);
    frame.bytes()[32..].to_vec()
}

#[test]
fn handshake_response_fields() {
    let lenenc = Capability::PLUGIN_AUTH_LENENC_CLIENT_DATA;
    let secure = Capability::SECURE_CONNECTION;
    let with_db = Capability::CONNECT_WITH_DB;
    let plugin = Capability::PLUGIN_AUTH;
    let attrs = Capability::CONNECT_ATTRS;

    assert_eq!(response(0, None, b"pw", None), b"bob\0pw\0".to_vec());
    assert_eq!(response(secure, None, b"pw", None), b"bob\0\x02pw".to_vec());
    assert_eq!(response(lenenc | secure, None, b"pw", None), b"bob\0\x02pw".to_vec());
    assert_eq!(response(with_db, None, b"", Some("shop")), b"bob\0\0shop\0".to_vec());
    assert_eq!(response(with_db, None, b"", None), b"bob\0\0\0".to_vec());
    assert_eq!(response(0, None, b"", Some("shop")), b"bob\0\0".to_vec());
    assert_eq!(response(plugin, None, b"", None), b"bob\0\0mysql_native_password\0".to_vec());
    assert_eq!(
        response(plugin, Some(AuthType::Clear), b"", None),
        b"bob\0\0mysql_clear_password\0".to_vec()
    );
    assert_eq!(response(attrs, None, b"", None), b"bob\0\0\0".to_vec());
    assert_eq!(
        response(lenenc | with_db | plugin | attrs, Some(AuthType::Parsec), b"pw", Some("d")),
        b"bob\0\x02pwd\0parsec\0\0".to_vec()
    );
}

#[test]
fn handshake_response_length_prefixes() {
    let long = vec![0x61u8; 300];
    let out = response(Capability::PLUGIN_AUTH_LENENC_CLIENT_DATA, None, &long, None);
    assert_eq!(&out[..7], b"bob\0\xfc\x2c\x01");
    assert_eq!(&out[7..], &long[..]);
    let out = response(Capability::SECURE_CONNECTION, None, &long, None);
    assert_eq!(&out[..5], b"bob\0\x2c");
    assert_eq!(&out[5..], &long[..]);
}

#[test]
fn handshake_response_too_large() {
    let mut stream = MyStream::new();
    stream.handshake_packet(packet(0, None, false));
    let password = vec![0u8; (1 << 30) - 36];
    let response = HandshakeResponsePacket { username: "bob", password: &password, database: None };
    assert_eq!(
        response.encode_packet(stream.context()).err(),
        Some(FramingError::PayloadTooLarge)
    );
}

#[test]
fn ping_is_a_command() {
    let ping = PingPacket::new();
    assert!(ping.is_command_packet());
    let frame = ping.encode_packet(MyStream::new().context()).unwrap();
    assert_eq!(frame.bytes(), &[0x0E]);
    assert!(Ping::default().is_command_packet());
    assert!(!SslPacket::default().is_command_packet());
}

#[test]
fn native_answer_in_the_response_is_the_plugins() {
    let answer = mysql_native_password(b"secret", &seed());
    assert_eq!(answer, scramble());
}

fn capability_words(server: u64, offered: u64, is_maria_db: bool) -> (u32, u32) {
    let mut stream = MyStream::new();
    stream.handshake_packet(packet(server, None, is_maria_db));
    stream.set_client_capability(Capability::from_bits_truncate(offered));
    let request = SslPacket::new().encode_packet(stream.context()).unwrap();
    let response = HandshakeResponse { username: "bob", password: b"", database: None }
        .encode_packet(stream.context())
        .unwrap();
    assert_eq!(request.bytes(), &response.bytes()[..32]);
    let bytes = request.bytes();
    (
        u32::from_le_bytes([bytes[0], bytes[1], bytes[2], bytes[3]]),
        u32::from_le_bytes([bytes[28], bytes[29], bytes[30], bytes[31]]),
    )
}

#[test]
fn client_asks_only_for_what_the_server_advertised() {
    assert_eq!(capability_words(BASE, 0, false), (BASE as u32, 0));
    assert_eq!(capability_words(BASE, Capability::SSL, false), (BASE as u32, 0));
    assert_eq!(capability_words(0, Capability::SSL, true), (0, 0));
    assert_eq!(capability_words(Capability::ALL, 0, false), (0x00be_a300, 0));
    assert_eq!(capability_words(Capability::ALL, 0, true), (0x00be_a300, 0));
    assert_eq!(
        capability_words(Capability::ALL, Capability::SSL | Capability::PROGRESS, true),
        (0x00be_a300 | 0x800, 1)
    );
    assert_eq!(
        capability_words(Capability::ALL, Capability::SSL | Capability::PROGRESS, false),
        (0x00be_a300 | 0x800, 0)
    );
    assert_eq!(
        capability_words(BASE | Capability::COMPRESS, Capability::PROGRESS, true),
        (BASE as u32, 0)
    );
    for server in [0u64, BASE, Capability::ALL, Capability::SSL | Capability::CACHE_METADATA] {
        for offered in [0u64, Capability::SSL, Capability::ALL] {
            let (low, high) = capability_words(server, offered, true);
            assert_eq!(low & !(server as u32), 0);
            assert_eq!(high & !((server >> 32) as u32), 0);
            let both = server & (0x00be_a300 | offered);
            assert_eq!((low as u64) | ((high as u64) << 32), both);
        }
    }
}
