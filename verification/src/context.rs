use crate::codec::MAX_PACKET_SIZE;
use crate::protocol::plugin::AuthType;
use crate::protocol::server::{HandshakeView, InitialHanshakePacket};
use crate::protocol::{Capability, ServerStatus, ServerVersion};
use vstd::prelude::*;

verus! {

/// What a session knows of its server and of itself: the capabilities of
/// both sides, the server's identity, and the seed for the password.
#[derive(Debug, Clone)]
pub struct Context {
    server_capabilities: Capability,
    client_capabilities: Capability,
    is_maria_db: bool,
    max_packet_size: u32,
    client_collation: u8,
    auth_type: Option<AuthType>,
    seed: Vec<u8>,
    server_version: ServerVersion,
    connection_id: u32,
    status_flags: ServerStatus,
}

/// A `Context` as plain values: the flag sets as words, the seed as a
/// sequence of bytes.
pub struct ContextView {
    pub server_capabilities: u64,
    pub client_capabilities: u64,
    pub is_maria_db: bool,
    pub max_packet_size: u32,
    pub client_collation: u8,
    pub auth_type: Option<AuthType>,
    pub seed: Seq<u8>,
    pub server_version: ServerVersion,
    pub connection_id: u32,
    pub status_flags: u16,
}

/// The capabilities that the client offers to every server.
pub open spec fn default_client_capability_bits() -> u64 {
    Capability::IGNORE_SPACE | Capability::CLIENT_PROTOCOL_41 | Capability::TRANSACTIONS
        | Capability::SECURE_CONNECTION | Capability::MULTI_RESULTS | Capability::PS_MULTI_RESULTS
        | Capability::PLUGIN_AUTH | Capability::CONNECT_ATTRS
        | Capability::PLUGIN_AUTH_LENENC_CLIENT_DATA | Capability::CLIENT_SESSION_TRACK
}

/// The context that the server's first packet `packet` starts: the server's
/// side from the packet, the client's side at its defaults.
pub open spec fn context_of(packet: HandshakeView) -> ContextView {
    ContextView {
        server_capabilities: packet.server_capabilities,
        client_capabilities: default_client_capability_bits(),
        is_maria_db: packet.is_maria_db,
        max_packet_size: MAX_PACKET_SIZE as u32,
        client_collation: packet.default_collation,
        auth_type: packet.auth_type,
        seed: packet.seed,
        server_version: packet.server_version,
        connection_id: packet.connection_id,
        status_flags: packet.status_flags,
    }
}

/// The context before any server has spoken: nothing known of the server,
/// the client's side at its defaults.
pub open spec fn fresh_context() -> ContextView {
    ContextView {
        server_capabilities: 0,
        client_capabilities: default_client_capability_bits(),
        is_maria_db: false,
        max_packet_size: MAX_PACKET_SIZE as u32,
        client_collation: 0,
        auth_type: None,
        seed: Seq::empty(),
        server_version: ServerVersion { major: 0, minor: 0, patch: 0, is_maria_db: false },
        connection_id: 0,
        status_flags: 0,
    }
}

impl ContextView {
    /// The plugin that answers the server: the one the server named, or
    /// the native one where it named none.
    pub open spec fn chosen_auth_type(self) -> AuthType {
        match self.auth_type {
            Some(auth) => auth,
            None => AuthType::Native,
        }
    }

    /// The capabilities that both sides have: what the session may use.
    pub open spec fn negotiated(self) -> u64 {
        self.server_capabilities & self.client_capabilities
    }
}

impl View for Context {
    type V = ContextView;

    closed spec fn view(&self) -> ContextView {
        ContextView {
            server_capabilities: self.server_capabilities@,
            client_capabilities: self.client_capabilities@,
            is_maria_db: self.is_maria_db,
            max_packet_size: self.max_packet_size,
            client_collation: self.client_collation,
            auth_type: self.auth_type,
            seed: self.seed@,
            server_version: self.server_version,
            connection_id: self.connection_id,
            status_flags: self.status_flags@,
        }
    }
}

impl Context {
    /// The capabilities that the client offers to every server. `SSL` is
    /// not among them: it is added once the transport is to be encrypted.
    pub fn default_client_capabilities() -> (r: Capability)
        ensures
            r@ == default_client_capability_bits(),
    {
        let bits: u64 = Capability::IGNORE_SPACE | Capability::CLIENT_PROTOCOL_41
            | Capability::TRANSACTIONS | Capability::SECURE_CONNECTION | Capability::MULTI_RESULTS
            | Capability::PS_MULTI_RESULTS | Capability::PLUGIN_AUTH | Capability::CONNECT_ATTRS
            | Capability::PLUGIN_AUTH_LENENC_CLIENT_DATA | Capability::CLIENT_SESSION_TRACK;
        assert(bits & Capability::ALL == bits) by (bit_vector)
            requires
                bits == Capability::IGNORE_SPACE | Capability::CLIENT_PROTOCOL_41
                    | Capability::TRANSACTIONS | Capability::SECURE_CONNECTION
                    | Capability::MULTI_RESULTS | Capability::PS_MULTI_RESULTS
                    | Capability::PLUGIN_AUTH | Capability::CONNECT_ATTRS
                    | Capability::PLUGIN_AUTH_LENENC_CLIENT_DATA
                    | Capability::CLIENT_SESSION_TRACK,
        ;
        Capability::from_bits_truncate(bits)
    }

    /// The context that the server's first packet starts.
    pub fn new(packet: InitialHanshakePacket) -> (r: Self)
        ensures
            r@ == context_of(packet@),
    {
        let server_capabilities = packet.server_capabilities;
        let client_capabilities = Self::default_client_capabilities();

        Context {
            server_capabilities,
            client_capabilities,
            max_packet_size: MAX_PACKET_SIZE as u32,
            is_maria_db: packet.is_maria_db,
            client_collation: packet.default_collation,
            seed: packet.seed,
            auth_type: packet.auth_type,
            server_version: packet.server_version,
            connection_id: packet.connection_id,
            status_flags: packet.status_flags,
        }
    }

    pub fn server_version(&self) -> (r: &ServerVersion)
        ensures
            *r == self@.server_version,
    {
        &self.server_version
    }

    pub fn connection_id(&self) -> (r: u32)
        ensures
            r == self@.connection_id,
    {
        self.connection_id
    }

    pub fn status_flags(&self) -> (r: ServerStatus)
        ensures
            r@ == self@.status_flags,
    {
        self.status_flags
    }

    pub fn auth_type(&self) -> (r: Option<AuthType>)
        ensures
            r == self@.auth_type,
    {
        self.auth_type
    }

    pub fn seed(&self) -> (r: &[u8])
        ensures
            r@ == self@.seed,
    {
        self.seed.as_slice()
    }

    pub fn is_maria_db(&self) -> (r: bool)
        ensures
            r == self@.is_maria_db,
    {
        self.is_maria_db
    }

    /// Adds `capability` to what the client offers; nothing else changes.
    pub fn set_client_capability(&mut self, capability: Capability)
        ensures
            final(self)@ == (ContextView {
                client_capabilities: old(self)@.client_capabilities | capability@,
                ..old(self)@
            }),
    {
        self.client_capabilities.insert(capability);
    }

    pub fn has_server_capability(&self, capability: Capability) -> (r: bool)
        ensures
            r == Capability::holds(self@.server_capabilities, capability@),
    {
        self.server_capabilities.contains(capability)
    }

    pub fn has_client_capability(&self, capability: Capability) -> (r: bool)
        ensures
            r == Capability::holds(self@.client_capabilities, capability@),
    {
        self.client_capabilities.contains(capability)
    }

    pub fn max_packet_size(&self) -> (r: u32)
        ensures
            r == self@.max_packet_size,
    {
        self.max_packet_size
    }

    pub fn client_collation(&self) -> (r: u8)
        ensures
            r == self@.client_collation,
    {
        self.client_collation
    }

    pub fn server_capabilities(&self) -> (r: Capability)
        ensures
            r@ == self@.server_capabilities,
    {
        self.server_capabilities
    }

    pub fn client_capabilities(&self) -> (r: Capability)
        ensures
            r@ == self@.client_capabilities,
    {
        self.client_capabilities
    }

    /// The plugin that answers the server: the one the server named, or
    /// the native one where it named none.
    pub fn chosen_auth_type(&self) -> (r: AuthType)
        ensures
            r == self@.chosen_auth_type(),
    {
        match self.auth_type {
            Some(auth) => auth,
            None => AuthType::Native,
        }
    }

    /// The capabilities that both sides have: what the session may use.
    pub fn negotiated_capabilities(&self) -> (r: Capability)
        ensures
            r@ == self@.negotiated(),
    {
        self.server_capabilities.intersection(self.client_capabilities)
    }
}

impl Default for Context {
    /// The context before any server has spoken.
    fn default() -> (r: Self)
        ensures
            r@ == fresh_context(),
    {
        Context {
            server_capabilities: Capability::empty(),
            client_capabilities: Self::default_client_capabilities(),
            is_maria_db: false,
            max_packet_size: MAX_PACKET_SIZE as u32,
            client_collation: 0,
            auth_type: None,
            seed: Vec::new(),
            server_version: ServerVersion::new(0, 0, 0),
            connection_id: 0,
            status_flags: ServerStatus::empty(),
        }
    }
}

} // verus!
