use crate::codec::PacketFrame;
use crate::context::Context;
use crate::DecodePacket;
use crate::protocol::plugin::{auth_type_named, AuthType, PluginParseError};
use crate::protocol::{parse_version, Capability, ServerStatus, ServerVersion};
use crate::protocol::error::ParseVersionError;
use crate::wire::{
    find_byte, index_of_byte, le_u16_at, le_u32_at, read_u16_le, read_u32_le, str_from_utf8,
};
use std::str::FromStr;
use vstd::prelude::*;
use vstd::slice::slice_subrange;
use vstd::std_specs::convert::TryFromSpecImpl;
use vstd::string::StringSliceAdditionalSpecFns;
use vstd::utf8::{decode_utf8, encode_utf8_decode_utf8, valid_utf8};

verus! {

/// What the server says of itself in its first packet.
#[derive(Debug)]
pub struct InitialHanshakePacket {
    pub server_version: ServerVersion,
    pub connection_id: u32,
    pub server_capabilities: Capability,
    pub default_collation: u8,
    pub status_flags: ServerStatus,
    pub auth_type: Option<AuthType>,
    pub is_maria_db: bool,
    pub seed: Vec<u8>,
}

/// The first packet as plain values: the flag sets as words, the seed as
/// a sequence of bytes.
pub struct HandshakeView {
    pub server_version: ServerVersion,
    pub connection_id: u32,
    pub server_capabilities: u64,
    pub default_collation: u8,
    pub status_flags: u16,
    pub auth_type: Option<AuthType>,
    pub is_maria_db: bool,
    pub seed: Seq<u8>,
}

impl View for InitialHanshakePacket {
    type V = HandshakeView;

    open spec fn view(&self) -> HandshakeView {
        HandshakeView {
            server_version: self.server_version,
            connection_id: self.connection_id,
            server_capabilities: self.server_capabilities@,
            default_collation: self.default_collation,
            status_flags: self.status_flags@,
            auth_type: self.auth_type,
            is_maria_db: self.is_maria_db,
            seed: self.seed@,
        }
    }
}

/// Why the server's first packet was not understood.
#[derive(Debug)]
pub enum InitialHandshakeError {
    /// The packet speaks another protocol version than 10; it holds the
    /// version.
    ProtocolVersion(u8),
    /// The packet ends before a field that it has to hold.
    UnexpectedEof,
    /// The server's version text is not a version.
    ParseVersion(ParseVersionError),
    /// The server's version or the plugin's name is not UTF-8.
    Utf8,
    /// The plugin's name is none of the known ones.
    PluginParse(PluginParseError),
}

/// `InitialHandshakeError` as plain values: an unknown plugin's name as a
/// sequence of characters.
pub enum HandshakeFailure {
    ProtocolVersion(u8),
    UnexpectedEof,
    ParseVersion(ParseVersionError),
    Utf8,
    PluginParse(Seq<char>),
}

impl View for InitialHandshakeError {
    type V = HandshakeFailure;

    open spec fn view(&self) -> HandshakeFailure {
        match self {
            InitialHandshakeError::ProtocolVersion(v) => HandshakeFailure::ProtocolVersion(*v),
            InitialHandshakeError::UnexpectedEof => HandshakeFailure::UnexpectedEof,
            InitialHandshakeError::ParseVersion(e) => HandshakeFailure::ParseVersion(*e),
            InitialHandshakeError::Utf8 => HandshakeFailure::Utf8,
            InitialHandshakeError::PluginParse(e) => HandshakeFailure::PluginParse(e@),
        }
    }
}

/// The length of the second part of the seed, from the byte in which a
/// server with plugin authentication announces the whole seed's length:
/// that length less 9, and 12 at least.
pub open spec fn seed_tail_len(announced: u8) -> int {
    if announced >= 21 {
        announced - 9
    } else {
        12
    }
}

/// The first packet that the payload `p` holds. The packet starts with the
/// protocol version, which must be 10, and the server's version as text
/// that a zero byte ends; the rest is read by `parse_handshake_body`.
pub open spec fn parse_handshake(p: Seq<u8>) -> Result<HandshakeView, HandshakeFailure> {
    let nul = find_byte(p, 0, 1);
    let text = p.subrange(1, nul);
    if p.len() < 1 {
        Err(HandshakeFailure::UnexpectedEof)
    } else if p[0] != 0x0a {
        Err(HandshakeFailure::ProtocolVersion(p[0]))
    } else if nul >= p.len() {
        Err(HandshakeFailure::UnexpectedEof)
    } else if !valid_utf8(text) {
        Err(HandshakeFailure::Utf8)
    } else {
        match parse_version(text) {
            Err(e) => Err(HandshakeFailure::ParseVersion(e)),
            Ok(version) => parse_handshake_body(p, nul + 1, version),
        }
    }
}

/// The first packet from the index `at` on, behind the server's version.
/// From `at` there are 31 bytes at fixed places, all numbers least
/// significant byte first: the connection id (4 bytes), the first 8 bytes
/// of the seed, a filler, the low 16 capability bits, the collation, the
/// status flags (2), the next 16 capability bits, the announced length of
/// the seed, 6 reserved bytes, and 4 bytes that hold the MariaDB
/// capability bits unless the server says it is MySQL. Behind them, for a
/// server with secure connection, come the rest of the seed and one byte
/// that ends it; and, for a server with plugin authentication, the
/// plugin's name as text that a zero byte ends.
pub open spec fn parse_handshake_body(p: Seq<u8>, at: int, version: ServerVersion) -> Result<
    HandshakeView,
    HandshakeFailure,
> {
    let lower = le_u16_at(p, at + 13);
    let upper = le_u16_at(p, at + 18);
    let named = ((lower as u64) & Capability::ALL) | (((upper as u64) << 16) & Capability::ALL);
    let plugin_auth = Capability::holds(named, Capability::PLUGIN_AUTH);
    let is_mysql = Capability::holds(named, Capability::CLIENT_MYSQL);
    let capabilities = if is_mysql {
        named
    } else {
        named | (((le_u32_at(p, at + 27) as u64) << 32) & Capability::ALL)
    };
    let secure = Capability::holds(capabilities, Capability::SECURE_CONNECTION);
    let tail_len = if plugin_auth {
        seed_tail_len(p[at + 20])
    } else {
        0
    };
    let tail_at = at + 31;
    let name_at = if secure {
        tail_at + tail_len + 1
    } else {
        tail_at
    };
    let seed = if secure {
        p.subrange(at + 4, at + 12) + p.subrange(tail_at, tail_at + tail_len)
    } else {
        p.subrange(at + 4, at + 12)
    };
    let name_end = find_byte(p, 0, name_at);
    let name = p.subrange(name_at, name_end);
    if p.len() < at + 31 {
        Err(HandshakeFailure::UnexpectedEof)
    } else if secure && p.len() < tail_at + tail_len + 1 {
        Err(HandshakeFailure::UnexpectedEof)
    } else if plugin_auth && name_end >= p.len() {
        Err(HandshakeFailure::UnexpectedEof)
    } else if plugin_auth && !valid_utf8(name) {
        Err(HandshakeFailure::Utf8)
    } else if plugin_auth && auth_type_named(decode_utf8(name)) is None {
        Err(HandshakeFailure::PluginParse(decode_utf8(name)))
    } else {
        Ok(
            HandshakeView {
                server_version: version,
                connection_id: le_u32_at(p, at),
                server_capabilities: capabilities,
                default_collation: p[at + 15],
                status_flags: le_u16_at(p, at + 16) & ServerStatus::ALL,
                auth_type: if plugin_auth {
                    auth_type_named(decode_utf8(name))
                } else {
                    None
                },
                is_maria_db: version.is_maria_db && !is_mysql,
                seed,
            },
        )
    }
}

impl InitialHanshakePacket {
    /// Reads the server's first packet from its payload.
    pub fn parse(payload: &[u8]) -> (r: Result<Self, InitialHandshakeError>)
        ensures
            match r {
                Ok(packet) => parse_handshake(payload@) == Ok::<HandshakeView, HandshakeFailure>(
                    packet@,
                ),
                Err(e) => parse_handshake(payload@) == Err::<HandshakeView, HandshakeFailure>(e@),
            },
    {
        if payload.len() < 1 {
            return Err(InitialHandshakeError::UnexpectedEof);
        }
        let protocol_version = payload[0];
        if protocol_version != 0xa {
            return Err(InitialHandshakeError::ProtocolVersion(protocol_version));
        }
        let nul = index_of_byte(payload, 0, 1);
        if nul >= payload.len() {
            return Err(InitialHandshakeError::UnexpectedEof);
        }
        let text = match str_from_utf8(slice_subrange(payload, 1, nul)) {
            Some(text) => text,
            None => return Err(InitialHandshakeError::Utf8),
        };
        let server_version = match ServerVersion::from_str(text) {
            Ok(version) => version,
            Err(e) => return Err(InitialHandshakeError::ParseVersion(e)),
        };
        let at: usize = nul + 1;
        if payload.len() - at < 31 {
            return Err(InitialHandshakeError::UnexpectedEof);
        }
        let connection_id = read_u32_le(payload, at);
        let server_capabilities_lower = read_u16_le(payload, at + 13);
        let mut server_capabilities = Capability::from_lower(server_capabilities_lower);
        let default_collation = payload[at + 15];
        let status_flags = ServerStatus::from_bits_truncate(read_u16_le(payload, at + 16));
        let server_capabilities_upper = read_u16_le(payload, at + 18);
        server_capabilities.upper(server_capabilities_upper);

        let has_plugin_auth = server_capabilities.has(Capability::PLUGIN_AUTH);
        let seed_length: usize = if has_plugin_auth {
            let announced = payload[at + 20];
            if announced >= 21 {
                (announced - 9) as usize
            } else {
                12
            }
        } else {
            0
        };

        let is_mysql = server_capabilities.has(Capability::CLIENT_MYSQL);
        let is_maria_db = server_version.is_maria_db() && !is_mysql;
        if !is_mysql {
            let extended_capabilities = read_u32_le(payload, at + 27);
            server_capabilities.extended(extended_capabilities);
        }
        let has_secure_connection = server_capabilities.has(Capability::SECURE_CONNECTION);
        let tail_at: usize = at + 31;
        let mut seed: Vec<u8> = Vec::new();
        seed.extend_from_slice(slice_subrange(payload, at + 4, at + 12));
        let mut name_at: usize = tail_at;
        if has_secure_connection {
            if payload.len() - tail_at < seed_length + 1 {
                return Err(InitialHandshakeError::UnexpectedEof);
            }
            seed.extend_from_slice(slice_subrange(payload, tail_at, tail_at + seed_length));
            name_at = tail_at + seed_length + 1;
        }
        assert(seed@ =~= if has_secure_connection {
            payload@.subrange(at + 4, at + 12) + payload@.subrange(
                tail_at as int,
                tail_at + seed_length,
            )
        } else {
            payload@.subrange(at + 4, at + 12)
        });

        let auth_type = if has_plugin_auth {
            let name_end = index_of_byte(payload, 0, name_at);
            if name_end >= payload.len() {
                return Err(InitialHandshakeError::UnexpectedEof);
            }
            let name = match str_from_utf8(slice_subrange(payload, name_at, name_end)) {
                Some(name) => name,
                None => return Err(InitialHandshakeError::Utf8),
            };
            proof {
                encode_utf8_decode_utf8(name@);
            }
            match AuthType::from_str(name) {
                Ok(auth_type) => Some(auth_type),
                Err(e) => return Err(InitialHandshakeError::PluginParse(e)),
            }
        } else {
            None
        };

        Ok(
            Self {
                server_version,
                connection_id,
                server_capabilities,
                default_collation,
                status_flags,
                auth_type,
                is_maria_db,
                seed,
            },
        )
    }
}

impl TryFrom<PacketFrame> for InitialHanshakePacket {
    type Error = InitialHandshakeError;

    /// Reads the server's first packet from the frame it came in.
    fn try_from(packet: PacketFrame) -> (r: Result<Self, InitialHandshakeError>)
        ensures
            match r {
                Ok(p) => parse_handshake(packet.payload()) == Ok::<
                    HandshakeView,
                    HandshakeFailure,
                >(p@),
                Err(e) => parse_handshake(packet.payload()) == Err::<
                    HandshakeView,
                    HandshakeFailure,
                >(e@),
            },
    {
        InitialHanshakePacket::parse(packet.bytes())
    }
}

/// The first packet is read from a frame whatever the context holds.
impl DecodePacket for InitialHanshakePacket {
    type Error = InitialHandshakeError;

    open spec fn decodes(
        packet: PacketFrame,
        context: &Context,
        out: Result<Self, InitialHandshakeError>,
    ) -> bool {
        match out {
            Ok(p) => parse_handshake(packet.payload()) == Ok::<HandshakeView, HandshakeFailure>(
                p@,
            ),
            Err(e) => parse_handshake(packet.payload()) == Err::<HandshakeView, HandshakeFailure>(
                e@,
            ),
        }
    }

    fn decode_packet(packet: PacketFrame, context: &Context) -> (r: Result<
        Self,
        InitialHandshakeError,
    >) {
        InitialHanshakePacket::parse(packet.bytes())
    }
}

/// The conversion is described by its own contract, over `parse_handshake`:
/// a packet holds a `Vec`, so no value of it can be written down here.
impl TryFromSpecImpl<PacketFrame> for InitialHanshakePacket {
    open spec fn obeys_try_from_spec() -> bool {
        false
    }

    open spec fn try_from_spec(packet: PacketFrame) -> Result<Self, InitialHandshakeError> {
        arbitrary()
    }
}

} // verus!
