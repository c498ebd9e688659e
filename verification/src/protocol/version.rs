use crate::wire::{contains_run, find_byte, has_prefix, has_run, index_of_byte, starts_with};
use std::str::FromStr;
use vstd::prelude::*;
use vstd::slice::slice_subrange;
use vstd::string::StringSliceAdditionalSpecFns;

verus! {

/// The version a server reports: three numbers, and whether the server is
/// MariaDB rather than MySQL.
#[derive(Debug, Clone, Copy, PartialEq, Eq, Structural)]
pub struct ServerVersion {
    pub major: u16,
    pub minor: u16,
    pub patch: u16,
    pub is_maria_db: bool,
}

/// Why a version text was not understood.
#[derive(Debug, Clone, Copy, PartialEq, Eq, Structural)]
pub enum ParseVersionError {
    /// One of the three numbers is not a decimal number that fits 16 bits.
    ParseIntError,
    /// The text has fewer than three parts between dots.
    Parse,
    /// The third part has no number before its suffix. No text gives this:
    /// a part always has a (possibly empty) stretch before the first dash.
    VersionParts,
}

/// The text `5.5.5-`, which a MariaDB server may put before its version.
pub open spec fn mariadb_prefix() -> Seq<u8> {
    seq![0x35u8, 0x2eu8, 0x35u8, 0x2eu8, 0x35u8, 0x2du8]
}

/// The text `MariaDB`.
pub open spec fn mariadb_tag() -> Seq<u8> {
    seq![0x4du8, 0x61u8, 0x72u8, 0x69u8, 0x61u8, 0x44u8, 0x42u8]
}

/// Whether `b` is one of the characters `0` to `9`.
pub open spec fn is_digit(b: u8) -> bool {
    0x30 <= b <= 0x39
}

/// Whether `s` holds decimal digits only.
pub open spec fn all_digits(s: Seq<u8>) -> bool {
    forall|i: int| 0 <= i < s.len() ==> is_digit(#[trigger] s[i])
}

/// The number that the decimal digits `s` write, most significant first.
pub open spec fn decimal_value(s: Seq<u8>) -> nat
    decreases s.len(),
{
    if s.len() == 0 {
        0
    } else {
        decimal_value(s.drop_last()) * 10 + if is_digit(s.last()) {
            (s.last() - 0x30) as nat
        } else {
            0
        }
    }
}

/// The 16-bit number that `text` writes in decimal: an optional `+`, then at
/// least one digit, and nothing else. `None` for any other text, and for a
/// number above 65535.
pub open spec fn parse_u16(text: Seq<u8>) -> Option<u16> {
    let digits = if text.len() > 0 && text[0] == 0x2b {
        text.skip(1)
    } else {
        text
    };
    if digits.len() > 0 && all_digits(digits) && decimal_value(digits) <= u16::MAX {
        Some(decimal_value(digits) as u16)
    } else {
        None
    }
}

/// The version that `text` writes. A leading `5.5.5-` is dropped first. The
/// rest is split at dots: the first two parts are the major and the minor
/// number, and the third part, up to its first dash, is the patch number.
/// The server is MariaDB where the text had the leading `5.5.5-` or holds
/// `MariaDB` anywhere.
pub open spec fn parse_version(text: Seq<u8>) -> Result<ServerVersion, ParseVersionError> {
    let hack = has_prefix(text, mariadb_prefix());
    let is_maria_db = hack || has_run(text, mariadb_tag());
    let v = if hack {
        text.skip(6)
    } else {
        text
    };
    let dot1 = find_byte(v, 0x2e, 0);
    let dot2 = find_byte(v, 0x2e, dot1 + 1);
    let dot3 = find_byte(v, 0x2e, dot2 + 1);
    let third = v.subrange(dot2 + 1, dot3);
    let dash = find_byte(third, 0x2d, 0);
    match parse_u16(v.subrange(0, dot1)) {
        None => Err(ParseVersionError::ParseIntError),
        Some(major) => if dot1 >= v.len() {
            Err(ParseVersionError::Parse)
        } else {
            match parse_u16(v.subrange(dot1 + 1, dot2)) {
                None => Err(ParseVersionError::ParseIntError),
                Some(minor) => if dot2 >= v.len() {
                    Err(ParseVersionError::Parse)
                } else {
                    match parse_u16(third.subrange(0, dash)) {
                        None => Err(ParseVersionError::ParseIntError),
                        Some(patch) => Ok(ServerVersion { major, minor, patch, is_maria_db }),
                    }
                },
            }
        },
    }
}

/// A longer run of digits writes a number no smaller than its beginning does.
proof fn lemma_decimal_value_grows(s: Seq<u8>, k: int)
    requires
        0 <= k <= s.len(),
    ensures
        decimal_value(s.subrange(0, k)) <= decimal_value(s),
    decreases s.len() - k,
{
    if k == s.len() {
        assert(s.subrange(0, k) =~= s);
    } else {
        lemma_decimal_value_grows(s.drop_last(), k);
        assert(s.drop_last().subrange(0, k) =~= s.subrange(0, k));
    }
}

/// The number that `text` writes in decimal, as `u16`'s own `from_str` reads it.
pub fn parse_decimal_u16(text: &[u8]) -> (r: Option<u16>)
    ensures
        r == parse_u16(text@),
{
    let start: usize = if text.len() > 0 && text[0] == 0x2b {
        1
    } else {
        0
    };
    let ghost digits = text@.skip(start as int);
    if start == text.len() {
        return None;
    }
    let mut value: u32 = 0;
    let mut i: usize = start;
    while i < text.len()
        invariant
            start <= i <= text.len(),
            start == if text@.len() > 0 && text@[0] == 0x2b {
                1int
            } else {
                0int
            },
            digits == text@.skip(start as int),
            all_digits(digits.subrange(0, i - start)),
            value == decimal_value(digits.subrange(0, i - start)),
            value <= u16::MAX,
        decreases text.len() - i,
    {
        let b: u8 = text[i];
        let ghost before = digits.subrange(0, i - start);
        let ghost after = digits.subrange(0, i + 1 - start);
        proof {
            assert(after.drop_last() =~= before);
            assert(after.last() == b);
        }
        if b < 0x30 || b > 0x39 {
            assert(!is_digit(digits[i - start]));
            return None;
        }
        value = value * 10 + (b - 0x30) as u32;
        assert(value == decimal_value(after));
        if value > 0xffff {
            proof {
                lemma_decimal_value_grows(digits, i + 1 - start);
                assert(text@.skip(0) =~= text@);
            }
            return None;
        }
        assert forall|j: int| 0 <= j < after.len() implies is_digit(#[trigger] after[j]) by {
            if j < before.len() {
                assert(after[j] == before[j]);
            }
        }
        i += 1;
    }
    assert(digits.subrange(0, i - start) =~= digits);
    assert(text@.skip(0) =~= text@);
    Some(value as u16)
}

impl ServerVersion {
    /// A MySQL version with the given three numbers.
    pub fn new(major: u16, minor: u16, patch: u16) -> (r: Self)
        ensures
            r == (ServerVersion { major, minor, patch, is_maria_db: false }),
    {
        Self { major, minor, patch, is_maria_db: false }
    }

    pub fn major(&self) -> (r: u16)
        ensures
            r == self.major,
    {
        self.major
    }

    pub fn minor(&self) -> (r: u16)
        ensures
            r == self.minor,
    {
        self.minor
    }

    pub fn patch(&self) -> (r: u16)
        ensures
            r == self.patch,
    {
        self.patch
    }

    pub fn is_maria_db(&self) -> (r: bool)
        ensures
            r == self.is_maria_db,
    {
        self.is_maria_db
    }

    /// Reads a version from the bytes of its text.
    pub fn from_bytes(text: &[u8]) -> (r: Result<Self, ParseVersionError>)
        ensures
            r == parse_version(text@),
    {
        let prefix: [u8; 6] = [0x35, 0x2e, 0x35, 0x2e, 0x35, 0x2d];
        let tag: [u8; 7] = [0x4d, 0x61, 0x72, 0x69, 0x61, 0x44, 0x42];
        assert(prefix@ =~= mariadb_prefix());
        assert(tag@ =~= mariadb_tag());
        let hack = starts_with(text, prefix.as_slice());
        let is_maria_db = hack || contains_run(text, tag.as_slice());
        let v: &[u8] = if hack {
            slice_subrange(text, 6, text.len())
        } else {
            text
        };
        assert(v@ =~= if hack {
            text@.skip(6)
        } else {
            text@
        });
        let dot1 = index_of_byte(v, 0x2e, 0);
        let major = match parse_decimal_u16(slice_subrange(v, 0, dot1)) {
            Some(n) => n,
            None => return Err(ParseVersionError::ParseIntError),
        };
        if dot1 >= v.len() {
            return Err(ParseVersionError::Parse);
        }
        let dot2 = index_of_byte(v, 0x2e, dot1 + 1);
        let minor = match parse_decimal_u16(slice_subrange(v, dot1 + 1, dot2)) {
            Some(n) => n,
            None => return Err(ParseVersionError::ParseIntError),
        };
        if dot2 >= v.len() {
            return Err(ParseVersionError::Parse);
        }
        let dot3 = index_of_byte(v, 0x2e, dot2 + 1);
        let third = slice_subrange(v, dot2 + 1, dot3);
        let dash = index_of_byte(third, 0x2d, 0);
        let patch = match parse_decimal_u16(slice_subrange(third, 0, dash)) {
            Some(n) => n,
            None => return Err(ParseVersionError::ParseIntError),
        };
        Ok(Self { major, minor, patch, is_maria_db })
    }
}

impl Default for ServerVersion {
    fn default() -> (r: Self)
        ensures
            r == (ServerVersion { major: 0, minor: 0, patch: 0, is_maria_db: false }),
    {
        Self { major: 0, minor: 0, patch: 0, is_maria_db: false }
    }
}

impl FromStr for ServerVersion {
    type Err = ParseVersionError;

    /// Reads a version from its text, as `from_bytes` does from the text's bytes.
    fn from_str(version: &str) -> (r: Result<Self, ParseVersionError>)
        ensures
            r == parse_version(version.spec_bytes()),
    {
        ServerVersion::from_bytes(version.as_bytes())
    }
}

} // verus!
