use crate::buffer::{
    bytes_mut_freeze, bytes_mut_put_slice, bytes_mut_put_u8, bytes_mut_seq,
    bytes_mut_with_capacity,
};
use crate::codec::{FramingError, PacketFrame, MAX_PACKET_SIZE};
use crate::context::{Context, ContextView};
use crate::protocol::plugin::lemma_name_lengths;
use crate::protocol::Capability;
use crate::wire::{le_bytes_4, le_u32_at, lemma_le_u32_reads_back, lenenc_int, put_u32_le};
use crate::{BufMutExt, EncodePacket};
use bytes::BytesMut;
use vstd::prelude::*;
use vstd::string::StringSliceAdditionalSpecFns;
use vstd::utf8::encode_utf8;

verus! {

/// Nineteen zero bytes: the reserved part of the client's first fields.
pub open spec fn reserved_zeros() -> Seq<u8> {
    Seq::new(19, |i: int| 0u8)
}

/// The 32 bytes that open both the request for TLS and the handshake
/// response: the low 32 bits of the capabilities that the client asks for,
/// the largest packet it takes, its collation, 19 reserved zero bytes, and
/// the high 32 bits of the capabilities for a MariaDB server or zero for
/// another one. The client asks for the capabilities that both sides have:
/// what it offers itself, as far as the server has advertised it. The
/// numbers are four bytes each, least significant first.
pub open spec fn client_prelude(context: ContextView) -> Seq<u8> {
    le_bytes_4((context.negotiated() & 0xffff_ffff) as u32) + le_bytes_4(
        context.max_packet_size,
    ) + seq![context.client_collation] + reserved_zeros() + le_bytes_4(
        if context.is_maria_db {
            (context.negotiated() >> 32) as u32
        } else {
            0
        },
    )
}

/// The capabilities that both sides have hold nothing that the server
/// has not advertised, in either of their two words, and hold every flag
/// that both the server and the client have.
pub proof fn lemma_negotiated_within_advertised(server: u64, client: u64)
    by (bit_vector)
    ensures
        (server & client) & 0xffff_ffff <= 0xffff_ffff,
        (server & client) >> 32 <= 0xffff_ffff,
        ((server & client) & 0xffff_ffff) & !(server & 0xffff_ffff) == 0,
        ((server & client) >> 32) & !(server >> 32) == 0,
        forall|flag: u64|
            server & flag == flag && client & flag == flag ==> #[trigger] ((server & client)
                & flag) == flag,
        forall|flag: u64| #[trigger] ((server & client) & flag) == flag ==> server & flag == flag,
{
}

/// The two capability words of the client's first packets, read back from
/// the 32 opening bytes, are the capabilities that both sides have. With
/// `lemma_negotiated_within_advertised`: the client asks for nothing that
/// the server has not advertised, and for every flag that it offers and
/// the server has advertised.
pub proof fn lemma_prelude_asks_for_what_both_have(context: ContextView)
    ensures
        client_prelude(context).len() == 32,
        le_u32_at(client_prelude(context), 0) == context.negotiated() & 0xffff_ffff,
        le_u32_at(client_prelude(context), 28) == if context.is_maria_db {
            context.negotiated() >> 32
        } else {
            0
        },
{
    lemma_negotiated_within_advertised(context.server_capabilities, context.client_capabilities);
    let low = (context.negotiated() & 0xffff_ffff) as u32;
    let high = if context.is_maria_db {
        (context.negotiated() >> 32) as u32
    } else {
        0u32
    };
    let prelude = client_prelude(context);
    assert(prelude.subrange(0, 4) =~= le_bytes_4(low));
    assert(prelude.subrange(28, 32) =~= le_bytes_4(high));
    lemma_le_u32_reads_back(prelude, 0, low);
    lemma_le_u32_reads_back(prelude, 28, high);
}

/// The answer of the authentication plugin as the handshake response
/// carries it: behind its length in the variable-width form for a server
/// that takes that; else behind one byte with its length (the low eight
/// bits of it) for a server with secure connection; else before a zero
/// byte.
pub open spec fn auth_field(server_capabilities: u64, blob: Seq<u8>) -> Seq<u8> {
    if Capability::holds(server_capabilities, Capability::PLUGIN_AUTH_LENENC_CLIENT_DATA) {
        lenenc_int(blob.len() as u64) + blob
    } else if Capability::holds(server_capabilities, Capability::SECURE_CONNECTION) {
        seq![(blob.len() % 256) as u8] + blob
    } else {
        blob + seq![0u8]
    }
}

/// The schema to start in, as the handshake response carries it. A server
/// that connects with a schema gets the name and a zero byte, or the zero
/// byte alone where no schema is asked for; another server gets nothing.
pub open spec fn database_field(server_capabilities: u64, database: Option<Seq<u8>>) -> Seq<u8> {
    if Capability::holds(server_capabilities, Capability::CONNECT_WITH_DB) {
        match database {
            Some(name) => name + seq![0u8],
            None => seq![0u8],
        }
    } else {
        Seq::empty()
    }
}

/// The plugin's name and a zero byte, for a server with plugin
/// authentication; nothing for another server.
pub open spec fn plugin_field(context: ContextView) -> Seq<u8> {
    if Capability::holds(context.server_capabilities, Capability::PLUGIN_AUTH) {
        encode_utf8(context.chosen_auth_type().spec_name()) + seq![0u8]
    } else {
        Seq::empty()
    }
}

/// The connection attributes. The client has none to send: where both
/// sides have agreed on attributes it sends the empty list, which is one
/// zero byte, and else nothing.
pub open spec fn attributes_field(context: ContextView) -> Seq<u8> {
    if Capability::holds(context.negotiated(), Capability::CONNECT_ATTRS) {
        seq![0u8]
    } else {
        Seq::empty()
    }
}

/// The payload of the handshake response: the 32 opening bytes, the user
/// name and a zero byte, the plugin's answer, the schema, the plugin's
/// name, the connection attributes. No compression level is written.
pub open spec fn handshake_response_payload(
    context: ContextView,
    username: Seq<u8>,
    password: Seq<u8>,
    database: Option<Seq<u8>>,
) -> Seq<u8> {
    client_prelude(context) + username + seq![0u8] + auth_field(
        context.server_capabilities,
        password,
    ) + database_field(context.server_capabilities, database) + plugin_field(context)
        + attributes_field(context)
}

/// Appends the 32 opening bytes of the client's first packets.
fn put_client_prelude(bytes: &mut BytesMut, context: &Context)
    requires
        bytes_mut_seq(*old(bytes)).len() + 32 <= isize::MAX,
    ensures
        bytes_mut_seq(*final(bytes)) == bytes_mut_seq(*old(bytes)) + client_prelude(context@),
{
    let ghost before = bytes_mut_seq(*bytes);
    let zeros: [u8; 19] = [0u8; 19];
    assert(zeros@ =~= reserved_zeros());
    let asked = context.negotiated_capabilities();
    put_u32_le(bytes, asked.to_default());
    put_u32_le(bytes, context.max_packet_size());
    bytes_mut_put_u8(bytes, context.client_collation());
    bytes_mut_put_slice(bytes, zeros.as_slice());
    if context.is_maria_db() {
        put_u32_le(bytes, asked.to_extended());
    } else {
        put_u32_le(bytes, 0);
    }
    assert(bytes_mut_seq(*bytes) =~= before + client_prelude(context@));
}

/// The request to go on under TLS: the client's first packet where the
/// transport is to be encrypted.
#[derive(Debug)]
pub struct SslPacket {
    _private: (),
}

impl SslPacket {
    pub fn new() -> Self {
        Self { _private: () }
    }

    /// The number of bytes that the packet's payload has.
    pub fn size_hint(&self) -> (r: usize)
        ensures
            r == 32,
    {
        32
    }
}

impl Default for SslPacket {
    fn default() -> Self {
        SslPacket::new()
    }
}

impl EncodePacket<PacketFrame> for SslPacket {
    type Error = FramingError;

    /// The request is always written: a frame with the 32 opening bytes
    /// and nothing behind them.
    open spec fn encodes(self, context: &Context, out: Result<PacketFrame, FramingError>) -> bool {
        &&& out matches Ok(frame)
        &&& frame.seq == 0
        &&& frame.payload() == client_prelude(context@)
    }

    open spec fn starts_command(&self) -> bool {
        false
    }

    fn encode_packet(self, context: &Context) -> (r: Result<PacketFrame, FramingError>) {
        let mut bytes = bytes_mut_with_capacity(self.size_hint());
        put_client_prelude(&mut bytes, context);
        Ok(PacketFrame::new(bytes_mut_freeze(bytes)))
    }

    fn is_command_packet(&self) -> (r: bool) {
        false
    }
}

/// The client's answer to the server's first packet: who connects, the
/// plugin's answer for the password, and the schema to start in.
pub struct HandshakeResponse<'a> {
    pub username: &'a str,
    pub password: &'a [u8],
    pub database: Option<&'a str>,
}

/// The same packet, under its longer name.
pub type HandshakeResponsePacket<'a> = HandshakeResponse<'a>;

impl<'a> HandshakeResponse<'a> {
    /// The bytes of the schema's name, where a schema is asked for.
    pub open spec fn database_bytes(&self) -> Option<Seq<u8>> {
        match self.database {
            Some(name) => Some(name.spec_bytes()),
            None => None,
        }
    }

    /// The payload that the packet has under `context`.
    pub open spec fn payload(&self, context: ContextView) -> Seq<u8> {
        handshake_response_payload(
            context,
            self.username.spec_bytes(),
            self.password@,
            self.database_bytes(),
        )
    }

    /// A capacity that holds the payload of an ordinary response.
    pub fn size_hint(&self) -> (r: usize)
        ensures
            r == 512,
    {
        512
    }

    /// The number of bytes that the payload has under `context`, where
    /// that is at most `MAX_PACKET_SIZE`.
    fn payload_len(&self, context: &Context) -> (r: Option<usize>)
        ensures
            match r {
                Some(len) => len == self.payload(context@).len() && len <= MAX_PACKET_SIZE,
                None => self.payload(context@).len() > MAX_PACKET_SIZE,
            },
    {
        let server = context.server_capabilities();
        let username_len = self.username.as_bytes().len();
        let auth_len = auth_field_size(server, self.password.len());
        let database_len = match self.database {
            Some(name) => database_field_size(server, Some(name.as_bytes().len())),
            None => database_field_size(server, None),
        };
        let plugin_len = plugin_field_size(context);
        let attributes_len: usize = if context.negotiated_capabilities().has(
            Capability::CONNECT_ATTRS,
        ) {
            1
        } else {
            0
        };
        proof {
            lemma_payload_len(
                context@,
                self.username.spec_bytes(),
                self.password@,
                self.database_bytes(),
            );
        }
        if username_len > MAX_PACKET_SIZE {
            return None;
        }
        match (auth_len, database_len) {
            (Some(auth_len), Some(database_len)) => {
                let total: u64 = 32 + username_len as u64 + 1 + auth_len as u64
                    + database_len as u64 + plugin_len as u64 + attributes_len as u64;
                if total > MAX_PACKET_SIZE as u64 {
                    None
                } else {
                    Some(total as usize)
                }
            },
            _ => None,
        }
    }
}

/// The length of the plugin's answer as a field of the handshake response.
pub open spec fn auth_field_len(server_capabilities: u64, blob_len: nat) -> nat {
    if Capability::holds(server_capabilities, Capability::PLUGIN_AUTH_LENENC_CLIENT_DATA) {
        lenenc_int(blob_len as u64).len() + blob_len
    } else {
        blob_len + 1
    }
}

/// The length of the schema as a field of the handshake response.
pub open spec fn database_field_len(server_capabilities: u64, name_len: Option<nat>) -> nat {
    if Capability::holds(server_capabilities, Capability::CONNECT_WITH_DB) {
        match name_len {
            Some(len) => len + 1,
            None => 1,
        }
    } else {
        0
    }
}

/// The length of the handshake response's payload is the sum of the
/// lengths of its fields.
pub proof fn lemma_payload_len(
    context: ContextView,
    username: Seq<u8>,
    password: Seq<u8>,
    database: Option<Seq<u8>>,
)
    ensures
        client_prelude(context).len() == 32,
        auth_field(context.server_capabilities, password).len() == auth_field_len(
            context.server_capabilities,
            password.len(),
        ),
        database_field(context.server_capabilities, database).len() == database_field_len(
            context.server_capabilities,
            match database {
                Some(name) => Some(name.len()),
                None => None,
            },
        ),
        handshake_response_payload(context, username, password, database).len() == 32
            + username.len() + 1 + auth_field(context.server_capabilities, password).len()
            + database_field(context.server_capabilities, database).len() + plugin_field(
            context,
        ).len() + attributes_field(context).len(),
{
}

/// The length of the plugin's answer as a field, where the answer is at
/// most `MAX_PACKET_SIZE` bytes long.
fn auth_field_size(server: Capability, blob_len: usize) -> (r: Option<usize>)
    ensures
        match r {
            Some(len) => len == auth_field_len(server@, blob_len as nat) && len
                <= MAX_PACKET_SIZE + 9,
            None => blob_len > MAX_PACKET_SIZE,
        },
{
    if blob_len > MAX_PACKET_SIZE {
        return None;
    }
    if server.has(Capability::PLUGIN_AUTH_LENENC_CLIENT_DATA) {
        let prefix: usize = if blob_len < 251 {
            1
        } else if blob_len < 0x10000 {
            3
        } else if blob_len < 0x1000000 {
            4
        } else {
            9
        };
        Some(prefix + blob_len)
    } else {
        Some(blob_len + 1)
    }
}

/// The length of the schema as a field, where the name is at most
/// `MAX_PACKET_SIZE` bytes long or is not written.
fn database_field_size(server: Capability, name_len: Option<usize>) -> (r: Option<usize>)
    ensures
        match r {
            Some(len) => len == database_field_len(
                server@,
                match name_len {
                    Some(n) => Some(n as nat),
                    None => None,
                },
            ) && len <= MAX_PACKET_SIZE + 1,
            None => database_field_len(
                server@,
                match name_len {
                    Some(n) => Some(n as nat),
                    None => None,
                },
            ) > MAX_PACKET_SIZE,
        },
{
    if server.has(Capability::CONNECT_WITH_DB) {
        match name_len {
            Some(len) => if len > MAX_PACKET_SIZE {
                None
            } else {
                Some(len + 1)
            },
            None => Some(1),
        }
    } else {
        Some(0)
    }
}

/// The length of the plugin's name as a field of the handshake response.
fn plugin_field_size(context: &Context) -> (r: usize)
    ensures
        r == plugin_field(context@).len(),
        r <= 22,
{
    if context.server_capabilities().has(Capability::PLUGIN_AUTH) {
        let name = context.chosen_auth_type().name();
        proof {
            lemma_name_lengths(context@.chosen_auth_type());
        }
        name.as_bytes().len() + 1
    } else {
        0
    }
}

impl<'a> EncodePacket<PacketFrame> for HandshakeResponse<'a> {
    type Error = FramingError;

    /// The response is written as a frame with the payload that `payload`
    /// describes, unless that payload is longer than a frame may carry.
    open spec fn encodes(self, context: &Context, out: Result<PacketFrame, FramingError>) -> bool {
        if self.payload(context@).len() > MAX_PACKET_SIZE {
            out == Err::<PacketFrame, FramingError>(FramingError::PayloadTooLarge)
        } else {
            &&& out matches Ok(frame)
            &&& frame.seq == 0
            &&& frame.payload() == self.payload(context@)
        }
    }

    open spec fn starts_command(&self) -> bool {
        false
    }

    fn encode_packet(self, context: &Context) -> (r: Result<PacketFrame, FramingError>) {
        if self.payload_len(context).is_none() {
            return Err(FramingError::PayloadTooLarge);
        }
        let ghost payload = self.payload(context@);
        let server = context.server_capabilities();
        let mut bytes = bytes_mut_with_capacity(self.size_hint());
        put_client_prelude(&mut bytes, context);
        bytes.put_str_null_terminated(self.username.as_bytes());

        if server.has(Capability::PLUGIN_AUTH_LENENC_CLIENT_DATA) {
            bytes.put_len_encoded_str(self.password);
        } else if server.has(Capability::SECURE_CONNECTION) {
            let auth_len = (self.password.len() % 256) as u8;
            bytes_mut_put_u8(&mut bytes, auth_len);
            bytes_mut_put_slice(&mut bytes, self.password);
        } else {
            bytes.put_str_null_terminated(self.password);
        }
        assert(bytes_mut_seq(bytes) =~= client_prelude(context@) + self.username.spec_bytes()
            + seq![0u8] + auth_field(context@.server_capabilities, self.password@));

        if server.has(Capability::CONNECT_WITH_DB) {
            match self.database {
                Some(database) => bytes.put_str_null_terminated(database.as_bytes()),
                None => bytes_mut_put_u8(&mut bytes, 0),
            }
        }
        assert(bytes_mut_seq(bytes) =~= client_prelude(context@) + self.username.spec_bytes()
            + seq![0u8] + auth_field(context@.server_capabilities, self.password@)
            + database_field(context@.server_capabilities, self.database_bytes()));

        if server.has(Capability::PLUGIN_AUTH) {
            let auth_type = context.chosen_auth_type();
            bytes.put_str_null_terminated(auth_type.name().as_bytes());
        }
        assert(bytes_mut_seq(bytes) =~= client_prelude(context@) + self.username.spec_bytes()
            + seq![0u8] + auth_field(context@.server_capabilities, self.password@)
            + database_field(context@.server_capabilities, self.database_bytes())
            + plugin_field(context@));

        if context.negotiated_capabilities().has(Capability::CONNECT_ATTRS) {
            bytes_mut_put_u8(&mut bytes, 0);
        }
        assert(bytes_mut_seq(bytes) =~= payload);

        Ok(PacketFrame::new(bytes_mut_freeze(bytes)))
    }

    fn is_command_packet(&self) -> (r: bool) {
        false
    }
}

/// The command that asks the server whether it is there.
#[derive(Debug)]
pub struct Ping {
    _private: (),
}

/// The same command, under its longer name.
pub type PingPacket = Ping;

/// The payload of a ping: the one byte 0x0E.
pub open spec fn ping_payload() -> Seq<u8> {
    seq![0x0eu8]
}

impl Ping {
    pub fn new() -> Self {
        Self { _private: () }
    }
}

impl Default for Ping {
    fn default() -> Self {
        Ping::new()
    }
}

impl EncodePacket<PacketFrame> for Ping {
    type Error = FramingError;

    /// A ping is always written: a frame with the one byte 0x0E.
    open spec fn encodes(self, context: &Context, out: Result<PacketFrame, FramingError>) -> bool {
        &&& out matches Ok(frame)
        &&& frame.seq == 0
        &&& frame.payload() == ping_payload()
    }

    open spec fn starts_command(&self) -> bool {
        true
    }

    fn encode_packet(self, _context: &Context) -> (r: Result<PacketFrame, FramingError>) {
        let mut bytes = bytes_mut_with_capacity(1);
        bytes_mut_put_u8(&mut bytes, 0x0E);
        assert(bytes_mut_seq(bytes) =~= ping_payload());
        Ok(PacketFrame::new(bytes_mut_freeze(bytes)))
    }

    fn is_command_packet(&self) -> (r: bool) {
        true
    }
}

} // verus!
