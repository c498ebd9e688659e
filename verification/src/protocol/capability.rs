use vstd::prelude::*;

verus! {

/// The feature flags that client and server negotiate, as a set of bits in a
/// 64-bit word. The low 32 bits are the flags every server knows; the high 32
/// bits are MariaDB extensions. A flag is a mask with a single bit set, and
/// the masks below are the flags the protocol defines.
#[derive(Debug, Clone, Copy, PartialEq, Eq, Structural)]
pub struct Capability {
    bits: u64,
}

impl Capability {
    pub const CLIENT_MYSQL: u64 = 1;
    pub const FOUND_ROWS: u64 = 2;
    pub const CONNECT_WITH_DB: u64 = 8;
    pub const COMPRESS: u64 = 32;
    pub const LOCAL_FILES: u64 = 128;
    pub const IGNORE_SPACE: u64 = 256;
    pub const CLIENT_PROTOCOL_41: u64 = 1 << 9;
    pub const CLIENT_INTERACTIVE: u64 = 1 << 10;
    pub const SSL: u64 = 1 << 11;
    pub const TRANSACTIONS: u64 = 1 << 13;
    pub const SECURE_CONNECTION: u64 = 1 << 15;
    pub const MULTI_STATEMENTS: u64 = 1 << 16;
    pub const MULTI_RESULTS: u64 = 1 << 17;
    pub const PS_MULTI_RESULTS: u64 = 1 << 18;
    pub const PLUGIN_AUTH: u64 = 1 << 19;
    pub const CONNECT_ATTRS: u64 = 1 << 20;
    pub const PLUGIN_AUTH_LENENC_CLIENT_DATA: u64 = 1 << 21;
    pub const CLIENT_CAN_HANDLE_EXPIRED_PASSWORDS: u64 = 1 << 22;
    pub const CLIENT_SESSION_TRACK: u64 = 1 << 23;
    pub const CLIENT_DEPRECATE_EOF: u64 = 1 << 24;
    pub const CLIENT_OPTIONAL_RESULTSET_METADATA: u64 = 1 << 25;
    pub const CLIENT_ZSTD_COMPRESSION_ALGORITHM: u64 = 1 << 26;
    pub const CLIENT_CAPABILITY_EXTENSION: u64 = 1 << 29;
    pub const CLIENT_SSL_VERIFY_SERVER_CERT: u64 = 1 << 30;
    pub const CLIENT_REMEMBER_OPTIONS: u64 = 1 << 31;
    pub const PROGRESS: u64 = 1 << 32;
    pub const COM_MULTI: u64 = 1 << 33;
    pub const STMT_BULK_OPERATIONS: u64 = 1 << 34;
    pub const EXTENDED_METADATA: u64 = 1 << 35;
    pub const CACHE_METADATA: u64 = 1 << 36;
    pub const BULK_UNIT_RESULTS: u64 = 1 << 37;

    /// Every defined flag at once; bits outside this mask mean nothing.
    pub const ALL: u64 = 0x3f_e7ff_afab;

    /// The set as a 64-bit word, one bit per flag.
    pub closed spec fn view(&self) -> u64 {
        self.bits
    }

    /// Whether every bit of `mask` is in the word `bits`.
    pub open spec fn holds(bits: u64, mask: u64) -> bool {
        bits & mask == mask
    }

    /// The set without any flag.
    pub fn empty() -> (r: Capability)
        ensures
            r@ == 0,
    {
        Capability { bits: 0 }
    }

    /// The flags as a 64-bit word.
    pub fn bits(&self) -> (r: u64)
        ensures
            r == self@,
    {
        self.bits
    }

    /// The set of the defined flags in `bits`; undefined bits are dropped.
    pub fn from_bits_truncate(bits: u64) -> (r: Capability)
        ensures
            r@ == bits & Capability::ALL,
    {
        Capability { bits: bits & Capability::ALL }
    }

    /// Whether every flag of `other` is also in `self`.
    pub fn contains(&self, other: Capability) -> (r: bool)
        ensures
            r == Capability::holds(self@, other@),
    {
        self.bits & other.bits == other.bits
    }

    /// Whether every flag of the mask `mask` is in `self`.
    pub fn has(&self, mask: u64) -> (r: bool)
        ensures
            r == Capability::holds(self@, mask),
    {
        self.bits & mask == mask
    }

    /// Adds the flags of `other` to `self`.
    pub fn insert(&mut self, other: Capability)
        ensures
            final(self)@ == old(self)@ | other@,
    {
        self.bits = self.bits | other.bits;
    }

    /// The flags that are in `self` or in `other`.
    pub fn union(self, other: Capability) -> (r: Capability)
        ensures
            r@ == self@ | other@,
    {
        Capability { bits: self.bits | other.bits }
    }

    /// The flags that are in both `self` and `other`: what two peers who
    /// offer `self` and `other` have agreed on.
    pub fn intersection(self, other: Capability) -> (r: Capability)
        ensures
            r@ == self@ & other@,
    {
        Capability { bits: self.bits & other.bits }
    }

    /// The set read from the low 16 bits of the server's capability word.
    pub fn from_lower(lower: u16) -> (r: Capability)
        ensures
            r@ == (lower as u64) & Capability::ALL,
    {
        Capability::from_bits_truncate(lower as u64)
    }

    /// Merges bits 16 to 31 of the server's capability word into the set.
    pub fn upper(&mut self, upper: u16)
        ensures
            final(self)@ == old(self)@ | (((upper as u64) << 16) & Capability::ALL),
    {
        let merged = Capability::from_bits_truncate((upper as u64) << 16);
        self.insert(merged);
    }

    /// Merges the 32 MariaDB extension bits into the set.
    pub fn extended(&mut self, extended: u32)
        ensures
            final(self)@ == old(self)@ | (((extended as u64) << 32) & Capability::ALL),
    {
        let merged = Capability::from_bits_truncate((extended as u64) << 32);
        self.insert(merged);
    }

    /// The low 32 bits, as they travel in the client's capability field.
    pub fn to_default(&self) -> (r: u32)
        ensures
            r == self@ & 0xffff_ffff,
    {
        let bits: u64 = self.bits;
        let low: u64 = bits & 0xffff_ffff;
        assert(low <= 0xffff_ffff) by (bit_vector)
            requires
                low == bits & 0xffff_ffff,
        ;
        low as u32
    }

    /// The high 32 bits, as they travel in the extended capability field.
    pub fn to_extended(&self) -> (r: u32)
        ensures
            r == self@ >> 32,
    {
        let bits: u64 = self.bits;
        let high: u64 = bits >> 32;
        assert(high <= 0xffff_ffff) by (bit_vector)
            requires
                high == bits >> 32,
        ;
        high as u32
    }
}

impl Default for Capability {
    fn default() -> (r: Capability)
        ensures
            r@ == 0,
    {
        Capability::empty()
    }
}

/// The two fields on the wire hold all of a set: putting the extended field
/// above the default one gives the whole word again.
pub proof fn lemma_capability_fields_rejoin(bits: u64)
    ensures
        (bits & 0xffff_ffff) | ((bits >> 32) << 32) == bits,
{
    assert((bits & 0xffff_ffff) | ((bits >> 32) << 32) == bits) by (bit_vector);
}

/// Every named flag is a defined flag: `from_bits_truncate` keeps it.
pub proof fn lemma_flags_are_defined()
    by (bit_vector)
    ensures
        Capability::CLIENT_MYSQL & Capability::ALL == Capability::CLIENT_MYSQL,
        Capability::FOUND_ROWS & Capability::ALL == Capability::FOUND_ROWS,
        Capability::CONNECT_WITH_DB & Capability::ALL == Capability::CONNECT_WITH_DB,
        Capability::COMPRESS & Capability::ALL == Capability::COMPRESS,
        Capability::LOCAL_FILES & Capability::ALL == Capability::LOCAL_FILES,
        Capability::IGNORE_SPACE & Capability::ALL == Capability::IGNORE_SPACE,
        Capability::CLIENT_PROTOCOL_41 & Capability::ALL == Capability::CLIENT_PROTOCOL_41,
        Capability::CLIENT_INTERACTIVE & Capability::ALL == Capability::CLIENT_INTERACTIVE,
        Capability::SSL & Capability::ALL == Capability::SSL,
        Capability::TRANSACTIONS & Capability::ALL == Capability::TRANSACTIONS,
        Capability::SECURE_CONNECTION & Capability::ALL == Capability::SECURE_CONNECTION,
        Capability::MULTI_STATEMENTS & Capability::ALL == Capability::MULTI_STATEMENTS,
        Capability::MULTI_RESULTS & Capability::ALL == Capability::MULTI_RESULTS,
        Capability::PS_MULTI_RESULTS & Capability::ALL == Capability::PS_MULTI_RESULTS,
        Capability::PLUGIN_AUTH & Capability::ALL == Capability::PLUGIN_AUTH,
        Capability::CONNECT_ATTRS & Capability::ALL == Capability::CONNECT_ATTRS,
        Capability::PLUGIN_AUTH_LENENC_CLIENT_DATA & Capability::ALL
            == Capability::PLUGIN_AUTH_LENENC_CLIENT_DATA,
        Capability::CLIENT_CAN_HANDLE_EXPIRED_PASSWORDS & Capability::ALL
            == Capability::CLIENT_CAN_HANDLE_EXPIRED_PASSWORDS,
        Capability::CLIENT_SESSION_TRACK & Capability::ALL == Capability::CLIENT_SESSION_TRACK,
        Capability::CLIENT_DEPRECATE_EOF & Capability::ALL == Capability::CLIENT_DEPRECATE_EOF,
        Capability::CLIENT_OPTIONAL_RESULTSET_METADATA & Capability::ALL
            == Capability::CLIENT_OPTIONAL_RESULTSET_METADATA,
        Capability::CLIENT_ZSTD_COMPRESSION_ALGORITHM & Capability::ALL
            == Capability::CLIENT_ZSTD_COMPRESSION_ALGORITHM,
        Capability::CLIENT_CAPABILITY_EXTENSION & Capability::ALL
            == Capability::CLIENT_CAPABILITY_EXTENSION,
        Capability::CLIENT_SSL_VERIFY_SERVER_CERT & Capability::ALL
            == Capability::CLIENT_SSL_VERIFY_SERVER_CERT,
        Capability::CLIENT_REMEMBER_OPTIONS & Capability::ALL
            == Capability::CLIENT_REMEMBER_OPTIONS,
        Capability::PROGRESS & Capability::ALL == Capability::PROGRESS,
        Capability::COM_MULTI & Capability::ALL == Capability::COM_MULTI,
        Capability::STMT_BULK_OPERATIONS & Capability::ALL == Capability::STMT_BULK_OPERATIONS,
        Capability::EXTENDED_METADATA & Capability::ALL == Capability::EXTENDED_METADATA,
        Capability::CACHE_METADATA & Capability::ALL == Capability::CACHE_METADATA,
        Capability::BULK_UNIT_RESULTS & Capability::ALL == Capability::BULK_UNIT_RESULTS,
{
}

} // verus!
