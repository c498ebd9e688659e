use crate::context::Context;
use crate::protocol::plugin::native::{mysql_native_password, native_password};
use crate::wire::bytes_equal;
use std::str::FromStr;
use vstd::prelude::*;
use vstd::string::StringSliceAdditionalSpecFns;
use vstd::utf8::{encode_utf8, encode_utf8_decode_utf8};

pub mod native;

verus! {

/// The authentication plugins that a server can ask for.
#[derive(Debug, Clone, Copy, PartialEq, Eq, Structural)]
pub enum AuthType {
    Native,
    Clear,
    Sha256,
    CachedSha2,
    Parsec,
    Gssapi,
    Ed25519,
}

/// A plugin name that is not one of the known ones; it holds the name.
#[derive(Debug)]
pub struct PluginParseError(pub String);

impl View for PluginParseError {
    type V = Seq<char>;

    open spec fn view(&self) -> Seq<char> {
        self.0@
    }
}

/// Why a plugin gave no answer.
#[derive(Debug, Clone, Copy, PartialEq, Eq, Structural)]
pub enum AuthTypeError {
    /// This client cannot compute the plugin's answer; it holds the plugin.
    Unsupported(AuthType),
}

/// What the plugin `auth` answers for `password` under the server's `seed`:
/// the native plugin its scramble, or nothing for the empty password; the
/// clear plugin the password as it is; any other plugin fails.
pub open spec fn auth_response(auth: AuthType, password: Seq<u8>, seed: Seq<u8>) -> Result<
    Seq<u8>,
    AuthTypeError,
> {
    match auth {
        AuthType::Native => Ok(native_password(password, seed)),
        AuthType::Clear => Ok(password),
        _ => Err(AuthTypeError::Unsupported(auth)),
    }
}

/// The plugin that `name` names on the wire, if it names one.
pub open spec fn auth_type_named(name: Seq<char>) -> Option<AuthType> {
    if name == AuthType::Native.spec_name() {
        Some(AuthType::Native)
    } else if name == AuthType::Clear.spec_name() {
        Some(AuthType::Clear)
    } else if name == AuthType::Sha256.spec_name() {
        Some(AuthType::Sha256)
    } else if name == AuthType::CachedSha2.spec_name() {
        Some(AuthType::CachedSha2)
    } else if name == AuthType::Parsec.spec_name() {
        Some(AuthType::Parsec)
    } else if name == AuthType::Gssapi.spec_name() {
        Some(AuthType::Gssapi)
    } else if name == AuthType::Ed25519.spec_name() {
        Some(AuthType::Ed25519)
    } else {
        None
    }
}

impl AuthType {
    /// The name of the plugin on the wire.
    pub open spec fn spec_name(self) -> Seq<char> {
        match self {
            AuthType::Native => "mysql_native_password"@,
            AuthType::Clear => "mysql_clear_password"@,
            AuthType::Sha256 => "sha256_password"@,
            AuthType::CachedSha2 => "caching_sha2_password"@,
            AuthType::Parsec => "parsec"@,
            AuthType::Gssapi => "auth_gssapi_client"@,
            AuthType::Ed25519 => "client_ed25519"@,
        }
    }

    /// Whether the plugin sends the password in a form that needs an
    /// encrypted transport.
    pub open spec fn spec_needs_ssl(self) -> bool {
        self == AuthType::Clear
    }

    /// Whether this client can compute the plugin's answer.
    pub open spec fn spec_supported(self) -> bool {
        self == AuthType::Native || self == AuthType::Clear
    }

    /// The name of the plugin on the wire.
    pub fn name(&self) -> (r: &'static str)
        ensures
            r@ == self.spec_name(),
    {
        match self {
            Self::Native => "mysql_native_password",
            Self::Sha256 => "sha256_password",
            Self::CachedSha2 => "caching_sha2_password",
            Self::Clear => "mysql_clear_password",
            Self::Parsec => "parsec",
            Self::Gssapi => "auth_gssapi_client",
            Self::Ed25519 => "client_ed25519",
        }
    }

    pub fn needs_ssl(&self) -> (r: bool)
        ensures
            r == self.spec_needs_ssl(),
    {
        matches!(self, Self::Clear)
    }

    pub fn supported(&self) -> (r: bool)
        ensures
            r == self.spec_supported(),
    {
        matches!(self, Self::Native | Self::Clear)
    }

    /// The plugin's answer for `password`, under the seed that `context`
    /// holds.
    pub fn encrypt(&self, password: &[u8], context: &Context) -> (r: Result<
        Vec<u8>,
        AuthTypeError,
    >)
        ensures
            match r {
                Ok(blob) => auth_response(*self, password@, context@.seed) == Ok::<
                    Seq<u8>,
                    AuthTypeError,
                >(blob@),
                Err(e) => auth_response(*self, password@, context@.seed) == Err::<
                    Seq<u8>,
                    AuthTypeError,
                >(e),
            },
            *self == AuthType::Native && password@.len() > 0 ==> (r matches Ok(blob)
                && blob@.len() == 20),
            *self == AuthType::Native && password@.len() == 0 ==> (r matches Ok(blob)
                && blob@.len() == 0),
    {
        match self {
            Self::Native => Ok(mysql_native_password(password, context.seed())),
            Self::Clear => Ok(vstd::slice::slice_to_vec(password)),
            _ => Err(AuthTypeError::Unsupported(*self)),
        }
    }

    /// Whether `name` is the wire name of this plugin.
    fn is_named(&self, name: &str) -> (r: bool)
        ensures
            r == (name@ == self.spec_name()),
    {
        let own = self.name();
        proof {
            encode_utf8_decode_utf8(name@);
            encode_utf8_decode_utf8(own@);
        }
        bytes_equal(name.as_bytes(), own.as_bytes())
    }
}

impl Default for AuthType {
    fn default() -> (r: Self)
        ensures
            r == AuthType::Native,
    {
        AuthType::Native
    }
}

impl FromStr for AuthType {
    type Err = PluginParseError;

    /// The plugin that `s` names; the error holds `s` where it names none.
    fn from_str(s: &str) -> (r: Result<Self, PluginParseError>)
        ensures
            match r {
                Ok(auth) => auth_type_named(s@) == Some(auth),
                Err(e) => auth_type_named(s@) is None && e@ == s@,
            },
    {
        if AuthType::Native.is_named(s) {
            Ok(Self::Native)
        } else if AuthType::Clear.is_named(s) {
            Ok(Self::Clear)
        } else if AuthType::Sha256.is_named(s) {
            Ok(Self::Sha256)
        } else if AuthType::CachedSha2.is_named(s) {
            Ok(Self::CachedSha2)
        } else if AuthType::Parsec.is_named(s) {
            Ok(Self::Parsec)
        } else if AuthType::Gssapi.is_named(s) {
            Ok(Self::Gssapi)
        } else if AuthType::Ed25519.is_named(s) {
            Ok(Self::Ed25519)
        } else {
            Err(PluginParseError(s.to_owned()))
        }
    }
}

/// Every plugin is found again by its own wire name.
pub proof fn lemma_name_names_its_plugin(auth: AuthType)
    ensures
        auth_type_named(auth.spec_name()) == Some(auth),
{
    reveal_strlit("mysql_native_password");
    reveal_strlit("mysql_clear_password");
    reveal_strlit("sha256_password");
    reveal_strlit("caching_sha2_password");
    reveal_strlit("parsec");
    reveal_strlit("auth_gssapi_client");
    reveal_strlit("client_ed25519");
    assert("mysql_native_password"@.len() == 21);
    assert("mysql_clear_password"@.len() == 20);
    assert("sha256_password"@.len() == 15);
    assert("caching_sha2_password"@.len() == 21);
    assert("parsec"@.len() == 6);
    assert("auth_gssapi_client"@.len() == 18);
    assert("client_ed25519"@.len() == 14);
    assert("mysql_native_password"@[0] == 'm');
    assert("caching_sha2_password"@[0] == 'c');
}

/// A plugin's wire name is plain ASCII of at most 21 characters, so it has
/// as many bytes as characters.
pub proof fn lemma_name_lengths(auth: AuthType)
    ensures
        encode_utf8(auth.spec_name()).len() == auth.spec_name().len(),
        auth.spec_name().len() <= 21,
{
    reveal_strlit("mysql_native_password");
    reveal_strlit("mysql_clear_password");
    reveal_strlit("sha256_password");
    reveal_strlit("caching_sha2_password");
    reveal_strlit("parsec");
    reveal_strlit("auth_gssapi_client");
    reveal_strlit("client_ed25519");
    let name = auth.spec_name();
    assert(vstd::utf8::is_ascii_chars(name));
    vstd::utf8::is_ascii_chars_encode_utf8(name);
}

} // verus!
