//! SHA-256 digests, message authentication and comparison of secrets.

use sha2::Digest;
use vstd::prelude::*;

verus! {

/// The SHA-256 digest of `data`.
pub uninterp spec fn sha256_digest(data: Seq<u8>) -> Seq<u8>;

/// `sha2::Sha256::digest`: hashes `data` in one call. Claimed: the result is a function of the
/// bytes alone, namely their SHA-256 digest, and is 32 bytes long.
#[verifier::external_body]
fn sha256_of(data: &[u8]) -> (r: [u8; 32])
    ensures
        r@ == sha256_digest(data@),
{
    sha2::Sha256::digest(data).into()
}

/// The SHA-256 digest of `data`.
pub fn sha256(data: &[u8]) -> (r: [u8; 32])
    ensures
        r@ == sha256_digest(data@),
{
    sha256_of(data)
}

/// The key that a message authentication code works with: `key`, or its digest where it is longer
/// than a block, filled up with zero bytes to the length of a block.
pub open spec fn hmac_block(key: Seq<u8>) -> Seq<u8> {
    let k = if key.len() <= 64 {
        key
    } else {
        sha256_digest(key)
    };
    Seq::new(64, |i: int| if i < k.len() { k[i] } else { 0u8 })
}

/// `block` with every byte combined with `pad` by exclusive or.
pub open spec fn hmac_pad(block: Seq<u8>, pad: u8) -> Seq<u8> {
    Seq::new(block.len(), |i: int| pad ^ block[i])
}

/// The code HMAC-SHA256 of `msg` under `key`.
pub open spec fn hmac(key: Seq<u8>, msg: Seq<u8>) -> Seq<u8> {
    let block = hmac_block(key);
    sha256_digest(hmac_pad(block, 0x5c) + sha256_digest(hmac_pad(block, 0x36) + msg))
}

/// Appends `bytes` to `out`.
fn append_bytes(out: &mut Vec<u8>, bytes: &[u8])
    ensures
        final(out)@ == old(out)@ + bytes@,
{
    let ghost was = out@;
    let mut i: usize = 0;
    while i < bytes.len()
        invariant
            i <= bytes@.len(),
            out@ == was + bytes@.take(i as int),
        decreases bytes@.len() - i,
    {
        out.push(bytes[i]);
        assert(bytes@.take(i + 1) =~= bytes@.take(i as int).push(bytes@[i as int]));
        i = i + 1;
    }
    assert(bytes@.take(bytes@.len() as int) =~= bytes@);
}

/// The code HMAC-SHA256 of `msg` under `key`.
pub fn hmac_sha256(key: &[u8], msg: &[u8]) -> (r: [u8; 32])
    ensures
        r@ == hmac(key@, msg@),
{
    let mut k: Vec<u8> = Vec::new();
    if key.len() <= 64 {
        append_bytes(&mut k, key);
    } else {
        let h = sha256(key);
        append_bytes(&mut k, &h);
    }
    let ghost short = k@;
    while k.len() < 64
        invariant
            short.len() <= k@.len() <= 64,
            forall|j: int| 0 <= j < k@.len() ==> k@[j] == (if j < short.len() { short[j] } else { 0u8 }),
        decreases 64 - k@.len(),
    {
        k.push(0);
    }
    assert(k@ =~= hmac_block(key@));
    let mut inner: Vec<u8> = Vec::new();
    let mut outer: Vec<u8> = Vec::new();
    let mut i: usize = 0;
    while i < 64
        invariant
            i <= 64,
            k@.len() == 64,
            inner@.len() == i,
            outer@.len() == i,
            forall|j: int| 0 <= j < i ==> inner@[j] == 0x36u8 ^ k@[j],
            forall|j: int| 0 <= j < i ==> outer@[j] == 0x5cu8 ^ k@[j],
        decreases 64 - i,
    {
        inner.push(0x36 ^ k[i]);
        outer.push(0x5c ^ k[i]);
        i = i + 1;
    }
    assert(inner@ =~= hmac_pad(k@, 0x36));
    assert(outer@ =~= hmac_pad(k@, 0x5c));
    append_bytes(&mut inner, msg);
    let inner_hash = sha256(inner.as_slice());
    append_bytes(&mut outer, &inner_hash);
    sha256(outer.as_slice())
}

/// Whether two byte strings are equal. The time taken depends on their lengths alone.
pub fn constant_time_eq(a: &[u8], b: &[u8]) -> (r: bool)
    ensures
        r == (a@ == b@),
{
    if a.len() != b.len() {
        return false;
    }
    let mut diff: u8 = 0;
    let mut i: usize = 0;
    while i < a.len()
        invariant
            i <= a@.len(),
            a@.len() == b@.len(),
            diff == 0 <==> forall|j: int| 0 <= j < i ==> a@[j] == b@[j],
        decreases a@.len() - i,
    {
        let x: u8 = a[i];
        let y: u8 = b[i];
        assert(diff | (x ^ y) == 0 <==> diff == 0 && x == y) by (bit_vector);
        diff = diff | (x ^ y);
        i = i + 1;
    }
    if diff == 0 {
        assert(a@ =~= b@);
    }
    diff == 0
}

// ---------------------------------------------------------------------------
// Laws

/// A key longer than a block counts as its digest, and zero bytes after a key that fits in a block
/// count for nothing; any other key of the length of a block is another block.
pub proof fn keys_are_fitted_to_a_block(key: Seq<u8>, other: Seq<u8>, msg: Seq<u8>)
    ensures
        key.len() > 64 && sha256_digest(key).len() == 32 ==> hmac(key, msg) == hmac(
            sha256_digest(key),
            msg,
        ),
        key.len() < 64 ==> hmac(key, msg) == hmac(key.push(0u8), msg),
        key.len() == 64 && other.len() == 64 && hmac_block(key) == hmac_block(other) ==> key == other,
{
    if key.len() > 64 && sha256_digest(key).len() == 32 {
        assert(hmac_block(key) =~= hmac_block(sha256_digest(key)));
    }
    if key.len() < 64 {
        assert(hmac_block(key) =~= hmac_block(key.push(0u8)));
    }
    if key.len() == 64 && other.len() == 64 {
        assert(hmac_block(key) =~= key);
        assert(hmac_block(other) =~= other);
    }
}

} // verus!
