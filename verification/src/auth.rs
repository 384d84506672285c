//! HTTP API key authentication.
//!
//! Keys are held as SHA-256 digests, and a token is compared with all of them, so that the time
//! taken does not tell which key was tried.

use vstd::prelude::*;
use vstd::utf8::*;

use crate::hashing::{constant_time_eq, sha256, sha256_digest};
use crate::text::{begins, opt_str_view, skip_chars, starts_with, trim, trim_white};

verus! {

/// Store of API keys.
pub struct ApiKeyStore {
    /// SHA-256 digests of the valid API keys.
    pub key_hashes: Vec<[u8; 32]>,
}

/// The digest of a key or token.
pub open spec fn key_digest(key: Seq<char>) -> Seq<u8> {
    sha256_digest(encode_utf8(key))
}

/// The bearer token in the value of an `Authorization` header.
pub open spec fn bearer_token(header: Seq<char>) -> Option<Seq<char>> {
    let t = trim_white(header);
    if begins(t, "Bearer "@) {
        Some(trim_white(t.skip(7)))
    } else {
        None
    }
}

impl ApiKeyStore {
    /// Whether the store lets `token` in: it has no keys, or one with the token's digest.
    pub open spec fn admits(self, token: Seq<char>) -> bool {
        self.key_hashes@.len() == 0 || exists|i: int|
            0 <= i < self.key_hashes@.len() && (#[trigger] self.key_hashes@[i])@ == key_digest(token)
    }

    /// A store of the given keys.
    pub fn new(keys: &[&str]) -> (r: ApiKeyStore)
        ensures
            r.key_hashes@.len() == keys@.len(),
            forall|i: int|
                0 <= i < keys@.len() ==> (#[trigger] r.key_hashes@[i])@ == key_digest(keys@[i]@),
    {
        let mut key_hashes: Vec<[u8; 32]> = Vec::new();
        let mut i: usize = 0;
        while i < keys.len()
            invariant
                i <= keys@.len(),
                key_hashes@.len() == i,
                forall|j: int|
                    0 <= j < i ==> (#[trigger] key_hashes@[j])@ == key_digest(keys@[j]@),
            decreases keys@.len() - i,
        {
            key_hashes.push(sha256(keys[i].as_bytes()));
            i = i + 1;
        }
        ApiKeyStore { key_hashes }
    }

    /// A store of a single key.
    pub fn single(key: &str) -> (r: ApiKeyStore)
        ensures
            r.key_hashes@.len() == 1,
            r.key_hashes@[0]@ == key_digest(key@),
    {
        ApiKeyStore::new(&[key])
    }

    /// A store without keys: no authentication is required.
    pub fn open() -> (r: ApiKeyStore)
        ensures
            r.key_hashes@.len() == 0,
    {
        ApiKeyStore { key_hashes: Vec::new() }
    }

    /// Whether authentication is required: the store has keys.
    pub fn is_enabled(&self) -> (r: bool)
        ensures
            r == (self.key_hashes@.len() > 0),
    {
        self.key_hashes.len() > 0
    }

    /// Whether `token` is let in. Every stored digest is compared, in constant time.
    pub fn verify(&self, token: &str) -> (r: bool)
        ensures
            r == self.admits(token@),
    {
        if !self.is_enabled() {
            return true;
        }
        let token_hash = sha256(token.as_bytes());
        let mut found = false;
        let mut i: usize = 0;
        while i < self.key_hashes.len()
            invariant
                i <= self.key_hashes@.len(),
                token_hash@ == key_digest(token@),
                found <==> exists|j: int|
                    0 <= j < i && (#[trigger] self.key_hashes@[j])@ == key_digest(token@),
            decreases self.key_hashes@.len() - i,
        {
            if constant_time_eq(&token_hash, &self.key_hashes[i]) {
                found = true;
            }
            i = i + 1;
        }
        found
    }

    /// The bearer token in the value of an `Authorization` header.
    pub fn extract_bearer<'a>(auth_header: &'a str) -> (r: Option<&'a str>)
        ensures
            opt_str_view(r) == bearer_token(auth_header@),
    {
        let trimmed = trim(auth_header);
        proof {
            reveal_strlit("Bearer ");
        }
        if starts_with(trimmed, "Bearer ") {
            Some(trim(skip_chars(trimmed, 7)))
        } else {
            None
        }
    }

    /// The number of keys.
    pub fn key_count(&self) -> (r: usize)
        ensures
            r == self.key_hashes@.len(),
    {
        self.key_hashes.len()
    }
}

// ---------------------------------------------------------------------------
// Laws

/// Every key that a store was made from is let in.
pub proof fn own_keys_are_admitted(store: ApiKeyStore, keys: Seq<&str>, i: int)
    requires
        store.key_hashes@.len() == keys.len(),
        forall|j: int|
            0 <= j < keys.len() ==> (#[trigger] store.key_hashes@[j])@ == key_digest(keys[j]@),
        0 <= i < keys.len(),
    ensures
        store.admits(keys[i]@),
{
    assert(store.key_hashes@[i]@ == key_digest(keys[i]@));
}

/// A token is turned away where the store has keys and none of them has the token's digest.
pub proof fn foreign_token_is_refused(store: ApiKeyStore, keys: Seq<&str>, token: Seq<char>)
    requires
        store.key_hashes@.len() == keys.len(),
        forall|j: int|
            0 <= j < keys.len() ==> (#[trigger] store.key_hashes@[j])@ == key_digest(keys[j]@),
        keys.len() > 0,
        forall|j: int| 0 <= j < keys.len() ==> key_digest((#[trigger] keys[j])@) != key_digest(token),
    ensures
        !store.admits(token),
{
    assert forall|j: int| 0 <= j < keys.len() implies (#[trigger] store.key_hashes@[j])@
        != key_digest(token) by {
        assert(key_digest(keys[j]@) != key_digest(token));
    }
}

/// A store without keys lets every token in.
pub proof fn open_store_admits_all(store: ApiKeyStore, token: Seq<char>)
    requires
        store.key_hashes@.len() == 0,
    ensures
        store.admits(token),
{
}

/// A token without white space at its ends is extracted as it was put in the header.
pub proof fn bearer_token_round_trip(token: Seq<char>)
    requires
        token.len() > 0,
        !crate::text::is_white(token[0]),
        !crate::text::is_white(token.last()),
    ensures
        bearer_token("Bearer "@ + token) == Some(token),
{
    reveal_strlit("Bearer ");
    let h = "Bearer "@ + token;
    assert(h.last() == token.last());
    crate::text::lemma_trim_identity(h, crate::text::CharClass::White);
    crate::text::lemma_trim_identity(token, crate::text::CharClass::White);
    assert(h.take(7) =~= "Bearer "@);
    assert(h.skip(7) =~= token);
}

/// A store with keys lets a token in exactly where the SHA-256 digest of the whole token is that of
/// one of its keys.
pub proof fn tokens_are_compared_by_digest(store: ApiKeyStore, keys: Seq<&str>, token: Seq<char>)
    requires
        keys.len() > 0,
        store.key_hashes@.len() == keys.len(),
        forall|j: int|
            0 <= j < keys.len() ==> (#[trigger] store.key_hashes@[j])@ == key_digest(keys[j]@),
    ensures
        store.admits(token) <==> exists|i: int|
            0 <= i < keys.len() && sha256_digest(encode_utf8((#[trigger] keys[i])@))
                == sha256_digest(encode_utf8(token)),
{
    if store.admits(token) {
        let i = choose|i: int|
            0 <= i < store.key_hashes@.len() && (#[trigger] store.key_hashes@[i])@ == key_digest(
                token,
            );
        assert(store.key_hashes@[i]@ == key_digest(keys[i]@));
        assert(sha256_digest(encode_utf8(keys[i]@)) == sha256_digest(encode_utf8(token)));
    }
    if exists|i: int|
        0 <= i < keys.len() && sha256_digest(encode_utf8((#[trigger] keys[i])@)) == sha256_digest(
            encode_utf8(token),
        ) {
        let i = choose|i: int|
            0 <= i < keys.len() && sha256_digest(encode_utf8((#[trigger] keys[i])@))
                == sha256_digest(encode_utf8(token));
        assert(store.key_hashes@[i]@ == key_digest(keys[i]@));
    }
}

/// Only a header that begins with the word `Bearer` carries a token.
pub proof fn other_headers_carry_no_token(header: Seq<char>)
    ensures
        bearer_token(header) is Some <==> begins(trim_white(header), "Bearer "@),
{
}

} // verus!
