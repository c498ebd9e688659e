use vstd::prelude::*;

verus! {

/// The kind of endpoint that a connection is opened to.
#[derive(Debug, Clone, Copy, PartialEq, Eq, Structural)]
pub enum StreamType {
    /// A TCP address, as `host:port`.
    Tcp,
    /// A local socket, as a path in the file system.
    Unix,
}

impl Default for StreamType {
    fn default() -> (r: Self)
        ensures
            r == StreamType::Tcp,
    {
        StreamType::Tcp
    }
}

} // verus!
