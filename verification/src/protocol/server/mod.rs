mod handshake;

pub use handshake::parse_handshake;
pub use handshake::parse_handshake_body;
pub use handshake::seed_tail_len;
pub use handshake::HandshakeFailure;
pub use handshake::HandshakeView;
pub use handshake::InitialHandshakeError;
pub use handshake::InitialHanshakePacket;
