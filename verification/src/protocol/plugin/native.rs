use sha1::Digest;
use vstd::prelude::*;

verus! {

/// The SHA-1 digest of `data`: 20 bytes. The digest is computed by the
/// `sha1` crate and is not described further here.
pub uninterp spec fn sha1_digest(data: Seq<u8>) -> Seq<u8>;

/// `sha1::Sha1`, fed `data` once and finished: the SHA-1 digest of `data`.
#[verifier::external_body]
pub(crate) fn sha1_hash(data: &[u8]) -> (out: [u8; 20])
    ensures
        out@ == sha1_digest(data@),
{
    let mut hasher = sha1::Sha1::default();
    hasher.update(data);
    let result = hasher.finalize();
    let mut out = [0u8; 20];
    out.copy_from_slice(&result[..20]);
    out
}

/// The 20 bytes of the digest `a`, each combined by exclusive or with the
/// byte of the digest `b` at the same place.
pub open spec fn xor_digest_bytes(a: Seq<u8>, b: Seq<u8>) -> Seq<u8> {
    Seq::new(20, |i: int| a[i] ^ b[i])
}

/// What the native plugin answers for a password and the server's seed: the
/// digest of the password, combined by exclusive or with the digest of the
/// seed followed by the digest of the digest of the password. These are 20
/// bytes.
pub open spec fn native_scramble(password: Seq<u8>, seed: Seq<u8>) -> Seq<u8> {
    let once = sha1_digest(password);
    let twice = sha1_digest(once);
    xor_digest_bytes(once, sha1_digest(seed + twice))
}

/// What the native plugin sends for a password: nothing for the empty
/// password, and else the scramble of the password with the seed.
pub open spec fn native_password(password: Seq<u8>, seed: Seq<u8>) -> Seq<u8> {
    if password.len() == 0 {
        Seq::empty()
    } else {
        native_scramble(password, seed)
    }
}

/// Two digests, combined byte by byte by exclusive or.
pub fn xor_digests(a: &[u8; 20], b: &[u8; 20]) -> (out: [u8; 20])
    ensures
        out@ == xor_digest_bytes(a@, b@),
{
    let mut out = [0u8; 20];
    let mut i: usize = 0;
    while i < 20
        invariant
            i <= 20,
            forall|j: int| 0 <= j < i ==> out@[j] == a@[j] ^ b@[j],
        decreases 20 - i,
    {
        out[i] = a[i] ^ b[i];
        i += 1;
    }
    assert(out@ =~= xor_digest_bytes(a@, b@));
    out
}

/// The scramble of `password` with `seed`, for any password.
pub fn scramble_native_password(password: &[u8], seed: &[u8]) -> (out: [u8; 20])
    ensures
        out@ == native_scramble(password@, seed@),
{
    let password_hash = sha1_hash(password);
    let hash_password_hash = sha1_hash(password_hash.as_slice());
    let mut salted: Vec<u8> = Vec::new();
    salted.extend_from_slice(seed);
    salted.extend_from_slice(hash_password_hash.as_slice());
    assert(salted@ =~= seed@ + sha1_digest(sha1_digest(password@)));
    let salted_hash = sha1_hash(salted.as_slice());
    xor_digests(&password_hash, &salted_hash)
}

/// What the native plugin sends for `password` under the server's `seed`:
/// no byte for the empty password, and else the 20 bytes of the scramble.
pub fn mysql_native_password(password: &[u8], seed: &[u8]) -> (out: Vec<u8>)
    ensures
        out@ == native_password(password@, seed@),
        password@.len() == 0 ==> out@.len() == 0,
        password@.len() > 0 ==> out@.len() == 20,
{
    if password.len() == 0 {
        return Vec::new();
    }
    let scramble = scramble_native_password(password, seed);
    let mut out: Vec<u8> = Vec::new();
    out.extend_from_slice(scramble.as_slice());
    assert(out@ =~= scramble@);
    out
}

/// The native plugin sends no byte for the empty password and 20 bytes for
/// any other, whatever the seed.
pub proof fn lemma_native_password_len(password: Seq<u8>, seed: Seq<u8>)
    ensures
        native_password(password, seed).len() == if password.len() == 0 {
            0nat
        } else {
            20nat
        },
{
}

} // verus!
