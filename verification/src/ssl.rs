use vstd::prelude::*;

verus! {

/// How far the client insists on TLS.
#[derive(Debug, Clone, Copy, PartialEq, Eq, Structural)]
pub enum TlsMode {
    /// Do not use TLS.
    Disable,
    /// Ask for TLS, and accept any certificate and host name.
    Prefer,
    /// Use TLS, fail if the server does not offer it; accept any
    /// certificate and host name.
    Require,
    /// Use TLS, and accept only a certificate that a trusted authority
    /// issued.
    VerifyCa,
    /// Use TLS, and accept only a certificate that a trusted authority
    /// issued for the server's host name.
    VerifyFull,
}

impl Default for TlsMode {
    fn default() -> (r: Self)
        ensures
            r == TlsMode::Disable,
    {
        TlsMode::Disable
    }
}

impl TlsMode {
    /// Whether a server without TLS is refused.
    pub open spec fn spec_insists(self) -> bool {
        self == TlsMode::Require || self == TlsMode::VerifyCa || self == TlsMode::VerifyFull
    }

    /// Whether a server without TLS is refused.
    pub fn insists(&self) -> (r: bool)
        ensures
            r == self.spec_insists(),
    {
        matches!(self, TlsMode::Require | TlsMode::VerifyCa | TlsMode::VerifyFull)
    }
}

/// What the caller says about TLS: the mode, the client's certificate and
/// key, a further trusted authority, and the server's host name.
#[derive(Debug, Clone, Copy)]
pub struct TlsOptions<'a> {
    pub mode: TlsMode,
    pub pem: Option<&'a [u8]>,
    pub key: Option<&'a [u8]>,
    pub root: Option<&'a [u8]>,
    pub domain: Option<&'a str>,
}

impl<'a> Default for TlsOptions<'a> {
    fn default() -> (r: Self)
        ensures
            r.mode == TlsMode::Disable,
            r.pem is None,
            r.key is None,
            r.root is None,
            r.domain == Some("localhost"),
    {
        Self { mode: TlsMode::Disable, domain: Some("localhost"), pem: None, key: None, root: None }
    }
}

/// Why no TLS session can be set up from the options.
#[derive(Debug, Clone, Copy, PartialEq, Eq, Structural)]
pub enum TlsError {
    /// The host name is to be verified, and none is given.
    DomainRequired,
}

/// How a TLS session is to be set up: the host name to ask for, what to
/// accept of the server's certificate, the client's own certificate with
/// its key, and a further trusted authority.
#[derive(Debug, Clone, Copy)]
pub struct TlsParts<'a> {
    pub domain: &'a str,
    pub accept_invalid_certs: bool,
    pub accept_invalid_hostnames: bool,
    pub identity: Option<(&'a [u8], &'a [u8])>,
    pub root: Option<&'a [u8]>,
}

/// What the options ask for. Mode `Disable` asks for no TLS. The modes
/// `Prefer` and `Require` accept any certificate; all modes but
/// `VerifyFull` accept any host name, and `VerifyFull` needs one to be
/// given. Where none is given, the empty name is asked for. The client
/// shows its certificate where it has both certificate and key.
pub open spec fn tls_parts<'a>(options: TlsOptions<'a>) -> Result<Option<TlsParts<'a>>, TlsError> {
    if options.mode == TlsMode::Disable {
        Ok(None)
    } else if options.mode == TlsMode::VerifyFull && options.domain is None {
        Err(TlsError::DomainRequired)
    } else {
        Ok(
            Some(
                TlsParts {
                    domain: match options.domain {
                        Some(domain) => domain,
                        None => "",
                    },
                    accept_invalid_certs: options.mode == TlsMode::Require || options.mode
                        == TlsMode::Prefer,
                    accept_invalid_hostnames: options.mode != TlsMode::VerifyFull,
                    identity: match (options.pem, options.key) {
                        (Some(pem), Some(key)) => Some((pem, key)),
                        _ => None,
                    },
                    root: options.root,
                },
            ),
        )
    }
}

/// What the options ask for: no TLS, or the parts to set a session up from.
pub fn into_tls_parts<'a>(ssl_opts: &TlsOptions<'a>) -> (r: Result<
    Option<TlsParts<'a>>,
    TlsError,
>)
    ensures
        r == tls_parts(*ssl_opts),
{
    if matches!(ssl_opts.mode, TlsMode::Disable) {
        return Ok(None);
    }
    let accept_invalid_certs = matches!(ssl_opts.mode, TlsMode::Require | TlsMode::Prefer);
    let accept_invalid_hostnames = matches!(
        ssl_opts.mode,
        TlsMode::Require | TlsMode::Prefer | TlsMode::VerifyCa
    );
    let identity = match (ssl_opts.pem, ssl_opts.key) {
        (Some(pem), Some(key)) => Some((pem, key)),
        _ => None,
    };
    let domain = match ssl_opts.domain {
        Some(domain) => domain,
        None => {
            if matches!(ssl_opts.mode, TlsMode::VerifyFull) {
                return Err(TlsError::DomainRequired);
            }
            ""
        },
    };
    Ok(
        Some(
            TlsParts {
                domain,
                accept_invalid_certs,
                accept_invalid_hostnames,
                identity,
                root: ssl_opts.root,
            },
        ),
    )
}

/// The two forms of a transport: the raw stream, or the raw stream inside
/// a TLS session.
#[derive(Debug, Clone, Copy, PartialEq, Eq, Structural)]
pub enum StreamTransporter {
    /// The raw stream.
    Left,
    /// The raw stream inside a TLS session.
    Right,
}

/// Which of two forms a value has.
pub trait EitherExt {
    spec fn spec_is_right(&self) -> bool;

    fn is_right(&self) -> (r: bool)
        ensures
            r == self.spec_is_right(),
    ;

    fn is_left(&self) -> (r: bool)
        ensures
            r == !self.spec_is_right(),
    ;
}

impl EitherExt for StreamTransporter {
    open spec fn spec_is_right(&self) -> bool {
        *self == StreamTransporter::Right
    }

    fn is_right(&self) -> (r: bool) {
        matches!(self, StreamTransporter::Right)
    }

    fn is_left(&self) -> (r: bool) {
        matches!(self, StreamTransporter::Left)
    }
}

impl StreamTransporter {
    /// Whether a TLS session has to be set up to follow `parts`: there are
    /// parts, and the transport is still the raw stream.
    pub fn needs_upgrade<'a>(&self, parts: &Option<TlsParts<'a>>) -> (r: bool)
        ensures
            r == (parts is Some && *self == StreamTransporter::Left),
    {
        parts.is_some() && self.is_left()
    }

    /// The form of the transport once `parts` were followed: inside a TLS
    /// session where there are parts, and as it was where there are none.
    pub fn maybe_upgrade_tls<'a>(self, parts: &Option<TlsParts<'a>>) -> (r: Self)
        ensures
            r == if parts is Some {
                StreamTransporter::Right
            } else {
                self
            },
    {
        if parts.is_some() {
            StreamTransporter::Right
        } else {
            self
        }
    }
}

} // verus!
