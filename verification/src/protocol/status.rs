use vstd::prelude::*;

verus! {

/// The session flags that the server reports with its packets, as a set of
/// bits in a 16-bit word.
#[derive(Debug, Clone, Copy, PartialEq, Eq, Structural)]
pub struct ServerStatus {
    bits: u16,
}

impl ServerStatus {
    pub const IN_TRANSACTION: u16 = 1;
    pub const AUTOCOMMIT: u16 = 2;
    pub const MORE_RESULTS_EXISTS: u16 = 8;
    pub const QUERY_NO_GOOD_INDEX_USED: u16 = 16;
    pub const QUERY_NO_INDEX_USED: u16 = 32;
    pub const CURSOR_EXISTS: u16 = 64;
    pub const LAST_ROW_SENT: u16 = 128;
    pub const DB_DROPPED: u16 = 1 << 8;
    pub const NO_BACKSLASH_ESCAPES: u16 = 1 << 9;
    pub const METADATA_CHANGED: u16 = 1 << 10;
    pub const QUERY_WAS_SLOW: u16 = 1 << 11;
    pub const PS_OUT_PARAMS: u16 = 1 << 12;
    pub const IN_TRANS_READONLY: u16 = 1 << 13;
    pub const SESSION_STATE_CHANGED: u16 = 1 << 14;

    /// Every defined flag at once.
    pub const ALL: u16 = 0x7ffb;

    /// The set as a 16-bit word, one bit per flag.
    pub closed spec fn view(&self) -> u16 {
        self.bits
    }

    /// The set without any flag.
    pub fn empty() -> (r: ServerStatus)
        ensures
            r@ == 0,
    {
        ServerStatus { bits: 0 }
    }

    /// The flags as a 16-bit word.
    pub fn bits(&self) -> (r: u16)
        ensures
            r == self@,
    {
        self.bits
    }

    /// The set of the defined flags in `bits`; undefined bits are dropped.
    pub fn from_bits_truncate(bits: u16) -> (r: ServerStatus)
        ensures
            r@ == bits & ServerStatus::ALL,
    {
        ServerStatus { bits: bits & ServerStatus::ALL }
    }

    /// Whether every flag of `other` is also in `self`.
    pub fn contains(&self, other: ServerStatus) -> (r: bool)
        ensures
            r == (self@ & other@ == other@),
    {
        self.bits & other.bits == other.bits
    }
}

impl Default for ServerStatus {
    fn default() -> (r: ServerStatus)
        ensures
            r@ == 0,
    {
        ServerStatus::empty()
    }
}

} // verus!
