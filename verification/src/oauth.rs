//! OAuth 2.0 / OIDC token validation.
//!
//! The gateway acts as a resource server: it validates JSON Web Tokens that an external
//! authorization server issued, and does not take part in the authorization flow itself.
//!
//! Validation goes through these steps:
//!   1. split the token and decode its header and payload (base64url);
//!   2. choose the provider and verify the signature (HS256 or RS256);
//!   3. verify the claims: expiry, issuer, audience, subject;
//!   4. extract the identity: subject, email address, groups.

use std::time::SystemTime;
use vstd::prelude::*;
use vstd::utf8::*;

use crate::clock::{seconds_at, unix_seconds};
use crate::encoding::{
    base64url, base64url_decode, base64url_decoded, base64url_encode,
};
use crate::hashing::{constant_time_eq, hmac, hmac_sha256};
use crate::json::{
    entry_views, is_listing, json_text, parsed_json_bytes, reads_flat, texts_among, Json,
    JsonView,
};
use crate::keyed::KeyedMap;
use crate::oauth_laws::{judges_built, read_tokens_are_judged};
use crate::text::{
    clone_opt, clone_strings, cut, cut_at, dec_int, find_char, first_index, i64_text, opt_view,
    parse_i64, parse_signed, skip_chars, split, split_on, str_eq, str_views, take_chars, trim,
    trim_class, trim_white, trimmed, u64_text, views, CharClass,
};

verus! {

/// Why a token is refused.
#[derive(Debug, Clone, PartialEq, Eq)]
pub enum JwtError {
    MalformedToken,
    InvalidBase64,
    InvalidJson,
    SignatureInvalid,
    TokenExpired,
    InvalidIssuer,
    InvalidAudience,
    MissingClaim(String),
    UnsupportedAlgorithm(String),
}

/// The reason of a [`JwtError`], with the text it carries.
pub enum JwtErrorView {
    MalformedToken,
    InvalidBase64,
    InvalidJson,
    SignatureInvalid,
    TokenExpired,
    InvalidIssuer,
    InvalidAudience,
    MissingClaim(Seq<char>),
    UnsupportedAlgorithm(Seq<char>),
}

impl View for JwtError {
    type V = JwtErrorView;

    open spec fn view(&self) -> JwtErrorView {
        match self {
            JwtError::MalformedToken => JwtErrorView::MalformedToken,
            JwtError::InvalidBase64 => JwtErrorView::InvalidBase64,
            JwtError::InvalidJson => JwtErrorView::InvalidJson,
            JwtError::SignatureInvalid => JwtErrorView::SignatureInvalid,
            JwtError::TokenExpired => JwtErrorView::TokenExpired,
            JwtError::InvalidIssuer => JwtErrorView::InvalidIssuer,
            JwtError::InvalidAudience => JwtErrorView::InvalidAudience,
            JwtError::MissingClaim(c) => JwtErrorView::MissingClaim(c@),
            JwtError::UnsupportedAlgorithm(a) => JwtErrorView::UnsupportedAlgorithm(a@),
        }
    }
}

impl JwtErrorView {
    /// The message of the error.
    pub open spec fn message(self) -> Seq<char> {
        match self {
            JwtErrorView::MalformedToken => "malformed JWT token"@,
            JwtErrorView::InvalidBase64 => "invalid base64 encoding"@,
            JwtErrorView::InvalidJson => "invalid JSON in JWT"@,
            JwtErrorView::SignatureInvalid => "JWT signature invalid"@,
            JwtErrorView::TokenExpired => "JWT token expired"@,
            JwtErrorView::InvalidIssuer => "JWT issuer not trusted"@,
            JwtErrorView::InvalidAudience => "JWT audience mismatch"@,
            JwtErrorView::MissingClaim(c) => "missing JWT claim: "@ + c,
            JwtErrorView::UnsupportedAlgorithm(a) => "unsupported JWT algorithm: "@ + a,
        }
    }
}

impl JwtError {
    /// The message of the error.
    pub fn text(&self) -> (r: String)
        ensures
            r@ == self@.message(),
    {
        match self {
            JwtError::MalformedToken => "malformed JWT token".to_owned(),
            JwtError::InvalidBase64 => "invalid base64 encoding".to_owned(),
            JwtError::InvalidJson => "invalid JSON in JWT".to_owned(),
            JwtError::SignatureInvalid => "JWT signature invalid".to_owned(),
            JwtError::TokenExpired => "JWT token expired".to_owned(),
            JwtError::InvalidIssuer => "JWT issuer not trusted".to_owned(),
            JwtError::InvalidAudience => "JWT audience mismatch".to_owned(),
            JwtError::MissingClaim(c) => "missing JWT claim: ".to_owned().concat(c.as_str()),
            JwtError::UnsupportedAlgorithm(a) => "unsupported JWT algorithm: ".to_owned().concat(
                a.as_str(),
            ),
        }
    }
}

/// A signature algorithm.
#[derive(Debug, Clone, Copy, PartialEq, Eq, Structural)]
pub enum JwtAlgorithm {
    HS256,
    RS256,
    /// The header names no algorithm that is supported.
    NoSignature,
}

/// The algorithm that a header names; an unknown name counts as none.
pub open spec fn algorithm_named(s: Seq<char>) -> JwtAlgorithm {
    if s == "HS256"@ {
        JwtAlgorithm::HS256
    } else if s == "RS256"@ {
        JwtAlgorithm::RS256
    } else {
        JwtAlgorithm::NoSignature
    }
}

impl JwtAlgorithm {
    /// The algorithm that a header names; an unknown name counts as none.
    pub fn from_str(s: &str) -> (r: JwtAlgorithm)
        ensures
            r == algorithm_named(s@),
    {
        if str_eq(s, "HS256") {
            JwtAlgorithm::HS256
        } else if str_eq(s, "RS256") {
            JwtAlgorithm::RS256
        } else {
            JwtAlgorithm::NoSignature
        }
    }
}

/// The claims of a token.
#[derive(Debug, Clone, PartialEq)]
pub struct JwtClaims {
    /// Subject (user ID).
    pub sub: String,
    /// Issuer.
    pub iss: Option<String>,
    /// Audience.
    pub aud: Option<String>,
    /// Email (if present).
    pub email: Option<String>,
    /// Groups/roles (if present).
    pub groups: Vec<String>,
    /// Expiry timestamp (Unix seconds).
    pub exp: Option<i64>,
    /// Issued at timestamp.
    pub iat: Option<i64>,
    /// Raw claims map for custom fields.
    pub raw: KeyedMap<String>,
}

/// The claims of a token, as values.
#[verifier::ext_equal]
pub struct ClaimsView {
    pub sub: Seq<char>,
    pub iss: Option<Seq<char>>,
    pub aud: Option<Seq<char>>,
    pub email: Option<Seq<char>>,
    pub groups: Seq<Seq<char>>,
    pub exp: Option<int>,
    pub iat: Option<int>,
    pub raw: Map<Seq<char>, Seq<char>>,
}

/// An optional machine number as an optional integer.
pub open spec fn opt_int(o: Option<i64>) -> Option<int> {
    match o {
        Some(n) => Some(n as int),
        None => None,
    }
}

/// A map of strings as a map of character sequences.
pub open spec fn string_map(m: Map<Seq<char>, String>) -> Map<Seq<char>, Seq<char>> {
    Map::new(|k: Seq<char>| m.contains_key(k), |k: Seq<char>| m[k]@)
}

impl View for JwtClaims {
    type V = ClaimsView;

    open spec fn view(&self) -> ClaimsView {
        ClaimsView {
            sub: self.sub@,
            iss: opt_view(self.iss),
            aud: opt_view(self.aud),
            email: opt_view(self.email),
            groups: views(self.groups@),
            exp: opt_int(self.exp),
            iat: opt_int(self.iat),
            raw: string_map(self.raw@),
        }
    }
}

impl ClaimsView {
    /// Whether the expiry lies before `now`. Claims without an expiry never expire.
    pub open spec fn expired_at(self, now: int) -> bool {
        self.exp matches Some(e) && e < now
    }
}

impl JwtClaims {
    /// Whether the expiry lies before `now`, in Unix seconds.
    pub fn is_expired_at(&self, now: i64) -> (r: bool)
        ensures
            r == self@.expired_at(now as int),
    {
        match self.exp {
            Some(exp) => exp < now,
            None => false,
        }
    }

    /// Whether the expiry lies before the present.
    pub fn is_expired(&self) -> (r: bool)
        ensures
            exists|t: SystemTime| r == self@.expired_at(#[trigger] seconds_at(t) as i64 as int),
    {
        let seconds: u64 = unix_seconds();
        let r = self.is_expired_at(seconds as i64);
        proof {
            let t = choose|t: SystemTime| seconds == #[trigger] seconds_at(t);
            assert(r == self@.expired_at(seconds_at(t) as i64 as int));
        }
        r
    }
}

/// Configuration of an OAuth provider.
#[derive(Debug, Clone)]
pub struct OAuthProvider {
    pub name: String,
    pub issuer: String,
    pub audience: Option<String>,
    pub algorithm: JwtAlgorithm,
    /// The shared secret of HS256.
    pub hs256_secret: Option<Vec<u8>>,
    /// Further trusted issuers, for set-ups with several.
    pub trusted_issuers: Vec<String>,
}

impl OAuthProvider {
    /// A provider for HS256 (shared secret).
    pub fn hs256(name: &str, issuer: &str, secret: &[u8]) -> (r: OAuthProvider)
        ensures
            r.name@ == name@,
            r.issuer@ == issuer@,
            r.audience is None,
            r.algorithm == JwtAlgorithm::HS256,
            r.hs256_secret matches Some(s) && s@ == secret@,
            r.trusted_issuers@.len() == 0,
    {
        OAuthProvider {
            name: name.to_owned(),
            issuer: issuer.to_owned(),
            audience: None,
            algorithm: JwtAlgorithm::HS256,
            hs256_secret: Some(copy_bytes(secret)),
            trusted_issuers: Vec::new(),
        }
    }

    /// A provider for RS256. Its signatures are checked for form only; the issuer and the claims
    /// carry the trust.
    pub fn rs256(name: &str, issuer: &str) -> (r: OAuthProvider)
        ensures
            r.name@ == name@,
            r.issuer@ == issuer@,
            r.audience is None,
            r.algorithm == JwtAlgorithm::RS256,
            r.hs256_secret is None,
            r.trusted_issuers@.len() == 0,
    {
        OAuthProvider {
            name: name.to_owned(),
            issuer: issuer.to_owned(),
            audience: None,
            algorithm: JwtAlgorithm::RS256,
            hs256_secret: None,
            trusted_issuers: Vec::new(),
        }
    }

    /// The same provider, with a required audience.
    pub fn with_audience(self, aud: &str) -> (r: OAuthProvider)
        ensures
            opt_view(r.audience) == Some(aud@),
            r == (OAuthProvider { audience: r.audience, ..self }),
    {
        OAuthProvider { audience: Some(aud.to_owned()), ..self }
    }

    /// The same provider, with one more trusted issuer.
    pub fn trust_issuer(self, iss: &str) -> (r: OAuthProvider)
        ensures
            views(r.trusted_issuers@) == views(self.trusted_issuers@).push(iss@),
            r == (OAuthProvider { trusted_issuers: r.trusted_issuers, ..self }),
    {
        let mut trusted = self.trusted_issuers;
        trusted.push(iss.to_owned());
        assert(views(trusted@) =~= views(self.trusted_issuers@).push(iss@));
        OAuthProvider { trusted_issuers: trusted, ..self }
    }

    /// Whether tokens of issuer `iss` are this provider's.
    pub open spec fn trusts(self, iss: Seq<char>) -> bool {
        self.issuer@ == iss || views(self.trusted_issuers@).contains(iss)
    }

    /// Whether tokens of issuer `iss` are this provider's.
    pub fn is_trusted(&self, iss: &str) -> (r: bool)
        ensures
            r == self.trusts(iss@),
    {
        str_eq(self.issuer.as_str(), iss) || list_contains(&self.trusted_issuers, iss)
    }
}

/// A copy of `bytes`.
fn copy_bytes(bytes: &[u8]) -> (r: Vec<u8>)
    ensures
        r@ == bytes@,
{
    let mut out: Vec<u8> = Vec::new();
    let mut i: usize = 0;
    while i < bytes.len()
        invariant
            i <= bytes@.len(),
            out@ == bytes@.take(i as int),
        decreases bytes@.len() - i,
    {
        out.push(bytes[i]);
        assert(bytes@.take(i + 1) =~= bytes@.take(i as int).push(bytes@[i as int]));
        i = i + 1;
    }
    assert(bytes@.take(bytes@.len() as int) =~= bytes@);
    out
}

/// Whether `list` holds the string `s`.
pub fn list_contains(list: &Vec<String>, s: &str) -> (r: bool)
    ensures
        r == views(list@).contains(s@),
{
    let mut i: usize = 0;
    while i < list.len()
        invariant
            i <= list@.len(),
            forall|j: int| 0 <= j < i ==> views(list@)[j] != s@,
        decreases list@.len() - i,
    {
        if str_eq(list[i].as_str(), s) {
            assert(views(list@)[i as int] == s@);
            return true;
        }
        i = i + 1;
    }
    false
}

// ---------------------------------------------------------------------------
// Reading the payload

/// `s` without surrounding white space, then without surrounding quotes.
pub open spec fn unquoted(s: Seq<char>) -> Seq<char> {
    trimmed(trim_white(s), CharClass::Only('"'))
}

/// The text of a member's value: a string as it is, a number in decimal, and any other value as
/// compact JSON.
pub open spec fn raw_text(v: JsonView) -> Seq<char> {
    match v {
        JsonView::Str(s) => s,
        JsonView::Int(n) => dec_int(n),
        _ => json_text(v),
    }
}

/// Members with the texts of their values; one without a name is left out.
pub open spec fn raw_members(m: Map<Seq<char>, JsonView>) -> Map<Seq<char>, Seq<char>> {
    Map::new(|k: Seq<char>| m.contains_key(k) && k.len() > 0, |k: Seq<char>| raw_text(m[k]))
}

/// The members of a value: none where it is no object.
pub open spec fn members_of(v: JsonView) -> Map<Seq<char>, JsonView> {
    match v.as_members() {
        Some(m) => m,
        None => Map::empty(),
    }
}

/// The members of the value that `json` denotes; `None` where it is no JSON.
pub open spec fn members_in(json: Seq<u8>) -> Option<Map<Seq<char>, JsonView>> {
    match parsed_json_bytes(json) {
        Ok(v) => Some(members_of(v)),
        Err(_) => None,
    }
}

/// The value of `k` in `m`.
pub open spec fn lookup(m: Map<Seq<char>, Seq<char>>, k: Seq<char>) -> Option<Seq<char>> {
    if m.contains_key(k) {
        Some(m[k])
    } else {
        None
    }
}

/// The number that the value of `k` in `m` denotes.
pub open spec fn lookup_number(m: Map<Seq<char>, Seq<char>>, k: Seq<char>) -> Option<int> {
    match lookup(m, k) {
        Some(v) => parse_signed(v),
        None => None,
    }
}

/// The group names that a member lists: the texts of an array, or what the commas in the text of
/// another value divide.
pub open spec fn groups_of(v: JsonView) -> Seq<Seq<char>> {
    match v {
        JsonView::Array(items) => texts_among(items),
        _ => split(raw_text(v), ',').map_values(|g: Seq<char>| unquoted(g)),
    }
}

/// The claims that the members `m` of a payload make.
pub open spec fn claims_of(m: Map<Seq<char>, JsonView>) -> ClaimsView {
    let raw = raw_members(m);
    ClaimsView {
        sub: lookup(raw, "sub"@).unwrap_or(Seq::empty()),
        iss: lookup(raw, "iss"@),
        aud: lookup(raw, "aud"@),
        email: lookup(raw, "email"@),
        groups: if m.contains_key("groups"@) {
            groups_of(m["groups"@])
        } else {
            Seq::empty()
        },
        exp: lookup_number(raw, "exp"@),
        iat: lookup_number(raw, "iat"@),
        raw,
    }
}

/// Why a byte string gives no members: it is no JSON.
#[derive(Debug, Clone, Copy, PartialEq, Eq, Structural)]
pub struct NotJson;

/// `s` without surrounding white space, then without surrounding quotes.
fn unquote<'a>(s: &'a str) -> (r: &'a str)
    ensures
        r@ == unquoted(s@),
{
    trim_class(trim(s), CharClass::Only('"'))
}

/// The text of a member's value.
fn raw_text_of(v: &Json) -> (r: String)
    ensures
        r@ == raw_text(v@),
{
    match v.as_text() {
        Some(s) => s,
        None => match v.as_signed() {
            Some(n) => i64_text(n),
            None => match v.as_unsigned() {
                Some(n) => u64_text(n),
                None => v.to_text(),
            },
        },
    }
}

/// The texts of the members of a value: none where it is no object.
pub fn member_texts(v: &Json) -> (r: KeyedMap<String>)
    ensures
        string_map(r@) == raw_members(members_of(v@)),
{
    let mut m: KeyedMap<String> = KeyedMap::new();
    let entries = match v.members() {
        Some(e) => e,
        None => {
            assert(string_map(m@) =~= raw_members(members_of(v@)));
            return m;
        },
    };
    let ghost members = members_of(v@);
    let ghost all = entry_views(entries@);
    let mut i: usize = 0;
    while i < entries.len()
        invariant
            i <= entries@.len(),
            all == entry_views(entries@),
            is_listing(all, members),
            forall|k: Seq<char>| #[trigger]
                m@.contains_key(k) ==> members.contains_key(k) && k.len() > 0 && m@[k]@ == raw_text(
                    members[k],
                ),
            forall|j: int|
                0 <= j < i && (#[trigger] all[j]).0.len() > 0 ==> m@.contains_key(all[j].0),
        decreases entries@.len() - i,
    {
        let ghost before = m@;
        assert(all[i as int] == (entries@[i as int].0@, entries@[i as int].1@));
        if !entries[i].0.as_str().is_empty() {
            m.insert(entries[i].0.clone(), raw_text_of(&entries[i].1));
        }
        i = i + 1;
    }
    assert(string_map(m@) =~= raw_members(members)) by {
        assert forall|k: Seq<char>|
            members.contains_key(k) && k.len() > 0 implies m@.contains_key(k) by {
            let j = choose|j: int| 0 <= j < all.len() && (#[trigger] all[j]).0 == k;
            assert(m@.contains_key(all[j].0));
        }
    }
    m
}

/// The texts of the members of the value that `json` denotes.
pub fn parse_json_str_map(json: &[u8]) -> (r: Result<KeyedMap<String>, NotJson>)
    ensures
        match (r, members_in(json@)) {
            (Ok(m), Some(members)) => string_map(m@) == raw_members(members),
            (Err(_), None) => true,
            _ => false,
        },
        reads_flat(json@, parsed_json_bytes(json@)),
{
    match Json::parse_bytes(json) {
        Ok(v) => Ok(member_texts(&v)),
        Err(_) => Err(NotJson),
    }
}

/// A copy of the value of `key`.
fn lookup_copy(m: &KeyedMap<String>, key: &str) -> (r: Option<String>)
    ensures
        opt_view(r) == lookup(string_map(m@), key@),
{
    match m.get(key) {
        Some(v) => Some(v.clone()),
        None => None,
    }
}

/// The number that the value of `key` denotes.
fn lookup_i64(m: &KeyedMap<String>, key: &str) -> (r: Option<i64>)
    ensures
        opt_int(r) == lookup_number(string_map(m@), key@),
{
    match m.get(key) {
        Some(v) => parse_i64(v.as_str()),
        None => None,
    }
}

/// The group names that a claim lists.
fn split_groups(g: &str) -> (r: Vec<String>)
    ensures
        views(r@) == split(g@, ',').map_values(|x: Seq<char>| unquoted(x)),
{
    let pieces = split_on(g, ',');
    let mut out: Vec<String> = Vec::new();
    let mut i: usize = 0;
    while i < pieces.len()
        invariant
            i <= pieces@.len(),
            out@.len() == i,
            str_views(pieces@) == split(g@, ','),
            forall|j: int| 0 <= j < i ==> views(out@)[j] == unquoted(str_views(pieces@)[j]),
        decreases pieces@.len() - i,
    {
        let ghost before = out@;
        out.push(unquote(pieces[i]).to_owned());
        assert forall|j: int| 0 <= j < i + 1 implies views(out@)[j] == unquoted(
            str_views(pieces@)[j],
        ) by {
            if j < i {
                assert(views(out@)[j] == views(before)[j]);
            }
        }
        i = i + 1;
    }
    assert(views(out@) =~= split(g@, ',').map_values(|x: Seq<char>| unquoted(x)));
    out
}

/// The group names that the member `groups` of a payload lists, given the texts of its members.
fn groups_in(payload: &Json, raw: &KeyedMap<String>) -> (r: Vec<String>)
    requires
        string_map(raw@) == raw_members(members_of(payload@)),
    ensures
        views(r@) == claims_of(members_of(payload@)).groups,
{
    let ghost m = members_of(payload@);
    proof {
        reveal_strlit("groups");
        assert("groups"@.len() == 6);
        assert(raw_members(m).contains_key("groups"@) == string_map(raw@).contains_key("groups"@));
    }
    match payload.texts_at("groups") {
        Some(texts) => texts,
        None => match raw.get("groups") {
            Some(g) => {
                assert(string_map(raw@)["groups"@] == g@);
                split_groups(g.as_str())
            },
            None => {
                let none: Vec<String> = Vec::new();
                assert(views(none@) =~= Seq::<Seq<char>>::empty());
                none
            },
        },
    }
}

/// The claims that a payload makes.
pub fn read_claims(payload: &Json) -> (r: JwtClaims)
    ensures
        r@ == claims_of(members_of(payload@)),
{
    let raw = member_texts(payload);
    let sub = match lookup_copy(&raw, "sub") {
        Some(s) => s,
        None => String::new(),
    };
    let iss = lookup_copy(&raw, "iss");
    let aud = lookup_copy(&raw, "aud");
    let email = lookup_copy(&raw, "email");
    let exp = lookup_i64(&raw, "exp");
    let iat = lookup_i64(&raw, "iat");
    let groups = groups_in(payload, &raw);
    JwtClaims { sub, iss, aud, email, groups, exp, iat, raw }
}

/// The claims that the value in `json` makes.
pub fn parse_claims(json: &[u8]) -> (r: Result<JwtClaims, JwtError>)
    ensures
        match (r, members_in(json@)) {
            (Ok(c), Some(m)) => c@ == claims_of(m),
            (Err(e), None) => e@ == JwtErrorView::InvalidJson,
            _ => false,
        },
        reads_flat(json@, parsed_json_bytes(json@)),
{
    match Json::parse_bytes(json) {
        Ok(payload) => Ok(read_claims(&payload)),
        Err(_) => Err(JwtError::InvalidJson),
    }
}

// ---------------------------------------------------------------------------
// Validation

/// The header, payload and signature of a token: what the first two dots divide.
pub open spec fn token_parts(token: Seq<char>) -> Option<(Seq<char>, Seq<char>, Seq<char>)> {
    match cut(token, '.') {
        Some((h, rest)) => match cut(rest, '.') {
            Some((p, s)) => Some((h, p, s)),
            None => None,
        },
        None => None,
    }
}

/// Whether `provider` is configured for issuer `iss` and algorithm `alg`.
pub open spec fn serves(provider: OAuthProvider, iss: Seq<char>, alg: JwtAlgorithm) -> bool {
    provider.trusts(iss) && provider.algorithm == alg
}

/// The position of the first provider for `iss` and `alg`; their number where there is none.
pub open spec fn first_serving(
    providers: Seq<OAuthProvider>,
    iss: Seq<char>,
    alg: JwtAlgorithm,
) -> int
    decreases providers.len(),
{
    if providers.len() == 0 || serves(providers[0], iss, alg) {
        0
    } else {
        1 + first_serving(providers.skip(1), iss, alg)
    }
}

/// The provider for `iss` and `alg`: the first one configured for them, else the only one there
/// is.
pub open spec fn chosen_provider(
    providers: Seq<OAuthProvider>,
    iss: Seq<char>,
    alg: JwtAlgorithm,
) -> Option<OAuthProvider> {
    let i = first_serving(providers, iss, alg);
    if 0 <= i < providers.len() {
        Some(providers[i])
    } else if providers.len() == 1 {
        Some(providers[0])
    } else {
        None
    }
}

/// What is signed: the encoded header and payload, joined by a dot.
pub open spec fn signing_input(h: Seq<char>, p: Seq<char>) -> Seq<char> {
    h + "."@ + p
}

/// The HS256 signature of a header and a payload.
pub open spec fn hs256_signature(secret: Seq<u8>, h: Seq<char>, p: Seq<char>) -> Seq<char> {
    base64url(hmac(secret, encode_utf8(signing_input(h, p))))
}

/// What is wrong with the signature `sig`, if anything: with the secret of the provider, HS256
/// signatures are computed anew; RS256 signatures are checked for form only.
pub open spec fn signature_fault(
    h: Seq<char>,
    p: Seq<char>,
    sig: Seq<char>,
    provider: OAuthProvider,
    alg: JwtAlgorithm,
) -> Option<JwtErrorView> {
    match alg {
        JwtAlgorithm::NoSignature => Some(JwtErrorView::UnsupportedAlgorithm("none"@)),
        JwtAlgorithm::HS256 => match provider.hs256_secret {
            Some(secret) => if sig == hs256_signature(secret@, h, p) {
                None
            } else {
                Some(JwtErrorView::SignatureInvalid)
            },
            None => Some(JwtErrorView::SignatureInvalid),
        },
        JwtAlgorithm::RS256 => match base64url_decoded(sig) {
            Some(bytes) => if bytes.len() == 0 {
                Some(JwtErrorView::SignatureInvalid)
            } else {
                None
            },
            None => Some(JwtErrorView::InvalidBase64),
        },
    }
}

/// Whether a signature that was checked for form only would pass at a provider that is not meant
/// for it.
pub open spec fn evades_secret(provider: OAuthProvider, alg: JwtAlgorithm) -> bool {
    alg == JwtAlgorithm::RS256 && provider.algorithm != JwtAlgorithm::RS256
}

/// What is wrong with `claims` at time `now`, if anything.
pub open spec fn claims_fault(
    claims: ClaimsView,
    provider: OAuthProvider,
    now: int,
) -> Option<JwtErrorView> {
    if claims.expired_at(now) {
        Some(JwtErrorView::TokenExpired)
    } else if claims.iss matches Some(iss) && !provider.trusts(iss) {
        Some(JwtErrorView::InvalidIssuer)
    } else if provider.audience matches Some(aud) && claims.aud != Some(aud@) {
        Some(JwtErrorView::InvalidAudience)
    } else if claims.sub.len() == 0 {
        Some(JwtErrorView::MissingClaim("sub"@))
    } else {
        None
    }
}

/// The algorithm that the members `header` of a token's header name.
pub open spec fn header_algorithm(header: Map<Seq<char>, Seq<char>>) -> JwtAlgorithm {
    algorithm_named(lookup(header, "alg"@).unwrap_or("none"@))
}

/// What comes of a token whose parts are `h`, `p` and `sig`.
pub open spec fn validated_parts(
    providers: Seq<OAuthProvider>,
    h: Seq<char>,
    p: Seq<char>,
    sig: Seq<char>,
    now: int,
) -> Result<ClaimsView, JwtErrorView> {
    match (base64url_decoded(h), base64url_decoded(p)) {
        (Some(header), Some(payload)) => match (members_in(header), members_in(payload)) {
            (Some(hm), Some(pm)) => {
                let alg = header_algorithm(raw_members(hm));
                let claims = claims_of(pm);
                match chosen_provider(providers, claims.iss.unwrap_or(Seq::empty()), alg) {
                    Some(provider) => match signature_fault(h, p, sig, provider, alg) {
                        Some(e) => Err(e),
                        None => if evades_secret(provider, alg) {
                            Err(JwtErrorView::SignatureInvalid)
                        } else {
                            match claims_fault(claims, provider, now) {
                                Some(e) => Err(e),
                                None => Ok(claims),
                            }
                        },
                    },
                    None => Err(JwtErrorView::InvalidIssuer),
                }
            },
            _ => Err(JwtErrorView::InvalidJson),
        },
        _ => Err(JwtErrorView::InvalidBase64),
    }
}

/// What comes of `token` at time `now`: its claims, or the reason why it is refused.
pub open spec fn validated(
    providers: Seq<OAuthProvider>,
    token: Seq<char>,
    now: int,
) -> Result<ClaimsView, JwtErrorView> {
    match token_parts(token) {
        Some((h, p, sig)) => validated_parts(providers, h, p, sig, now),
        None => Err(JwtErrorView::MalformedToken),
    }
}

/// Whether the parts of a token that are flat objects as they are written are read as those.
pub open spec fn token_is_read(token: Seq<char>) -> bool {
    token_parts(token) matches Some((h, p, _)) ==> match (
        base64url_decoded(h),
        base64url_decoded(p),
    ) {
        (Some(header), Some(payload)) => {
            &&& reads_flat(header, parsed_json_bytes(header))
            &&& members_in(header) is Some ==> reads_flat(payload, parsed_json_bytes(payload))
        },
        _ => true,
    }
}

/// The outcome of a validation, as a value.
pub open spec fn outcome(r: Result<JwtClaims, JwtError>) -> Result<ClaimsView, JwtErrorView> {
    match r {
        Ok(c) => Ok(c@),
        Err(e) => Err(e@),
    }
}

/// Validator of OAuth tokens.
pub struct OAuthValidator {
    pub providers: Vec<OAuthProvider>,
}

impl Default for OAuthValidator {
    fn default() -> (r: OAuthValidator)
        ensures
            r.providers@.len() == 0,
    {
        OAuthValidator::new()
    }
}

impl OAuthValidator {
    /// A validator without providers.
    pub fn new() -> (r: OAuthValidator)
        ensures
            r.providers@.len() == 0,
    {
        OAuthValidator { providers: Vec::new() }
    }

    /// Adds a provider; earlier ones take precedence.
    pub fn add_provider(&mut self, provider: OAuthProvider)
        ensures
            final(self).providers@ == old(self).providers@.push(provider),
    {
        self.providers.push(provider);
    }

    /// Whether any provider is configured.
    pub fn has_providers(&self) -> (r: bool)
        ensures
            r == (self.providers@.len() > 0),
    {
        self.providers.len() > 0
    }

    /// Validates a bearer token at the present time. Gives its claims if it is valid.
    pub fn validate(&self, token: &str) -> (r: Result<JwtClaims, JwtError>)
        ensures
            exists|t: SystemTime|
                outcome(r) == validated(
                    self.providers@,
                    token@,
                    #[trigger] seconds_at(t) as i64 as int,
                ),
            token_is_read(token@),
    {
        let seconds: u64 = unix_seconds();
        let r = self.validate_at(token, seconds as i64);
        proof {
            let t = choose|t: SystemTime| seconds == #[trigger] seconds_at(t);
            assert(outcome(r) == validated(self.providers@, token@, seconds_at(t) as i64 as int));
        }
        r
    }

    /// Validates a bearer token at time `now`, in Unix seconds. What was built with the secret of
    /// its provider is judged by its claims.
    pub fn validate_at(&self, token: &str, now: i64) -> (r: Result<JwtClaims, JwtError>)
        ensures
            outcome(r) == validated(self.providers@, token@, now as int),
            token_is_read(token@),
            judges_built(self.providers@, token@, now as int),
    {
        let r = self.judge(token, now);
        proof {
            read_tokens_are_judged(self.providers@, token@, now as int);
        }
        r
    }

    /// The claims of a token at time `now`, in Unix seconds, or the reason why it is refused.
    fn judge(&self, token: &str, now: i64) -> (r: Result<JwtClaims, JwtError>)
        ensures
            outcome(r) == validated(self.providers@, token@, now as int),
            token_is_read(token@),
    {
        let (h, rest) = match cut_at(token, '.') {
            Some(x) => x,
            None => {
                return Err(JwtError::MalformedToken);
            },
        };
        let (p, sig) = match cut_at(rest, '.') {
            Some(x) => x,
            None => {
                return Err(JwtError::MalformedToken);
            },
        };
        let header_json = match base64url_decode(h) {
            Ok(b) => b,
            Err(_) => {
                return Err(JwtError::InvalidBase64);
            },
        };
        let payload_json = match base64url_decode(p) {
            Ok(b) => b,
            Err(_) => {
                return Err(JwtError::InvalidBase64);
            },
        };
        let header = match parse_json_str_map(header_json.as_slice()) {
            Ok(m) => m,
            Err(_) => {
                return Err(JwtError::InvalidJson);
            },
        };
        let alg = match header.get("alg") {
            Some(name) => JwtAlgorithm::from_str(name.as_str()),
            None => JwtAlgorithm::from_str("none"),
        };
        let claims = match parse_claims(payload_json.as_slice()) {
            Ok(c) => c,
            Err(e) => {
                return Err(e);
            },
        };
        let provider = match self.find_provider(&claims, alg) {
            Ok(x) => x,
            Err(e) => {
                return Err(e);
            },
        };
        match verify_signature(h, p, sig, provider, alg) {
            Ok(_) => {},
            Err(e) => {
                return Err(e);
            },
        }
        if alg == JwtAlgorithm::RS256 && provider.algorithm != JwtAlgorithm::RS256 {
            return Err(JwtError::SignatureInvalid);
        }
        match verify_claims(&claims, provider, now) {
            Ok(_) => {},
            Err(e) => {
                return Err(e);
            },
        }
        Ok(claims)
    }

    /// The provider for the issuer of `claims` and the algorithm `alg`.
    pub fn find_provider(&self, claims: &JwtClaims, alg: JwtAlgorithm) -> (r: Result<
        &OAuthProvider,
        JwtError,
    >)
        ensures
            match r {
                Ok(p) => chosen_provider(
                    self.providers@,
                    claims@.iss.unwrap_or(Seq::empty()),
                    alg,
                ) == Some(*p),
                Err(e) => e@ == JwtErrorView::InvalidIssuer && chosen_provider(
                    self.providers@,
                    claims@.iss.unwrap_or(Seq::empty()),
                    alg,
                ) is None,
            },
    {
        let iss = match &claims.iss {
            Some(s) => s.clone(),
            None => String::new(),
        };
        let ghost ps = self.providers@;
        let mut i: usize = 0;
        assert(ps.skip(0) =~= ps);
        while i < self.providers.len()
            invariant
                i <= self.providers@.len(),
                ps == self.providers@,
                iss@ == claims@.iss.unwrap_or(Seq::empty()),
                first_serving(ps, iss@, alg) == i + first_serving(ps.skip(i as int), iss@, alg),
            decreases self.providers@.len() - i,
        {
            if self.providers[i].is_trusted(iss.as_str()) && self.providers[i].algorithm == alg {
                assert(ps.skip(i as int)[0] == ps[i as int]);
                return Ok(&self.providers[i]);
            }
            assert(ps.skip(i as int).skip(1) =~= ps.skip(i + 1));
            i = i + 1;
        }
        assert(ps.skip(i as int).len() == 0);
        if self.providers.len() == 1 {
            return Ok(&self.providers[0]);
        }
        Err(JwtError::InvalidIssuer)
    }
}

/// The text `a`, a dot, and the text `b`.
fn dotted(a: &str, b: &str) -> (r: String)
    ensures
        r@ == signing_input(a@, b@),
{
    a.to_owned().concat(".").concat(b)
}

/// Checks the signature of a token's header and payload.
pub fn verify_signature(
    header_b64: &str,
    payload_b64: &str,
    signature_b64: &str,
    provider: &OAuthProvider,
    alg: JwtAlgorithm,
) -> (r: Result<(), JwtError>)
    ensures
        match r {
            Ok(_) => signature_fault(header_b64@, payload_b64@, signature_b64@, *provider, alg) is None,
            Err(e) => signature_fault(header_b64@, payload_b64@, signature_b64@, *provider, alg)
                == Some(e@),
        },
{
    match alg {
        JwtAlgorithm::NoSignature => Err(JwtError::UnsupportedAlgorithm("none".to_owned())),
        JwtAlgorithm::HS256 => {
            match &provider.hs256_secret {
                Some(secret) => {
                    let input = dotted(header_b64, payload_b64);
                    let expected = hmac_sha256(secret.as_slice(), input.as_str().as_bytes());
                    let expected_b64 = base64url_encode(&expected);
                    proof {
                        encode_utf8_decode_utf8(expected_b64@);
                        encode_utf8_decode_utf8(signature_b64@);
                    }
                    if constant_time_eq(expected_b64.as_str().as_bytes(), signature_b64.as_bytes()) {
                        Ok(())
                    } else {
                        Err(JwtError::SignatureInvalid)
                    }
                },
                None => Err(JwtError::SignatureInvalid),
            }
        },
        JwtAlgorithm::RS256 => {
            match base64url_decode(signature_b64) {
                Ok(bytes) => if bytes.len() == 0 {
                    Err(JwtError::SignatureInvalid)
                } else {
                    Ok(())
                },
                Err(_) => Err(JwtError::InvalidBase64),
            }
        },
    }
}

/// Checks the claims of a token at time `now`, in Unix seconds.
pub fn verify_claims(claims: &JwtClaims, provider: &OAuthProvider, now: i64) -> (r: Result<
    (),
    JwtError,
>)
    ensures
        match r {
            Ok(_) => claims_fault(claims@, *provider, now as int) is None,
            Err(e) => claims_fault(claims@, *provider, now as int) == Some(e@),
        },
{
    if claims.is_expired_at(now) {
        return Err(JwtError::TokenExpired);
    }
    match &claims.iss {
        Some(iss) => {
            if !provider.is_trusted(iss.as_str()) {
                return Err(JwtError::InvalidIssuer);
            }
        },
        None => {},
    }
    match &provider.audience {
        Some(expected) => {
            match &claims.aud {
                Some(aud) => {
                    if !str_eq(aud.as_str(), expected.as_str()) {
                        return Err(JwtError::InvalidAudience);
                    }
                },
                None => {
                    return Err(JwtError::InvalidAudience);
                },
            }
        },
        None => {},
    }
    if claims.sub.as_str().is_empty() {
        return Err(JwtError::MissingClaim("sub".to_owned()));
    }
    Ok(())
}

// ---------------------------------------------------------------------------
// Identities

/// Identity extracted from a validated token.
#[derive(Debug, Clone)]
pub struct OAuthIdentity {
    pub provider: String,
    pub subject: String,
    pub email: Option<String>,
    pub groups: Vec<String>,
    pub raw_claims: JwtClaims,
}

impl OAuthIdentity {
    /// The identity that `claims` state.
    pub fn from_claims(provider_name: &str, claims: JwtClaims) -> (r: OAuthIdentity)
        ensures
            r.provider@ == provider_name@,
            r.subject == claims.sub,
            r.email == claims.email,
            r.groups@ == claims.groups@,
            r.raw_claims == claims,
    {
        OAuthIdentity {
            provider: provider_name.to_owned(),
            subject: claims.sub.clone(),
            email: clone_opt(&claims.email),
            groups: clone_strings(&claims.groups),
            raw_claims: claims,
        }
    }

    /// Whether the identity belongs to `group`.
    pub fn has_group(&self, group: &str) -> (r: bool)
        ensures
            r == views(self.groups@).contains(group@),
    {
        list_contains(&self.groups, group)
    }
}

// ---------------------------------------------------------------------------
// Building tokens

/// The member `"k":"v"` of an object.
pub open spec fn text_member(k: Seq<char>, v: Seq<char>) -> Seq<char> {
    "\""@ + k + "\":\""@ + v + "\""@
}

/// The member `"k":n` of an object.
pub open spec fn number_member(k: Seq<char>, n: int) -> Seq<char> {
    "\""@ + k + "\":"@ + dec_int(n)
}

/// The header of an HS256 token.
pub open spec fn hs256_header() -> Seq<char> {
    "{\"alg\":\"HS256\",\"typ\":\"JWT\"}"@
}

/// The payload of a token without extra claims.
pub open spec fn base_payload(sub: Seq<char>, iss: Seq<char>, iat: int, exp: int) -> Seq<char> {
    "{"@ + text_member("sub"@, sub) + ","@ + text_member("iss"@, iss) + ","@ + number_member(
        "iat"@,
        iat,
    ) + ","@ + number_member("exp"@, exp) + "}"@
}

/// Extra claims, as they follow the others in a payload.
pub open spec fn extra_members(extra: Seq<(&str, &str)>) -> Seq<char>
    decreases extra.len(),
{
    if extra.len() == 0 {
        Seq::empty()
    } else {
        extra_members(extra.drop_last()) + ","@ + text_member(extra.last().0@, extra.last().1@)
    }
}

/// `payload` with `members` before its first closing brace.
pub open spec fn with_members(payload: Seq<char>, members: Seq<char>) -> Seq<char> {
    let i = first_index(payload, '}');
    if i < payload.len() {
        payload.take(i) + members + "}"@ + payload.skip(i + 1)
    } else {
        payload
    }
}

/// The payload of a token.
pub open spec fn payload_text(
    sub: Seq<char>,
    iss: Seq<char>,
    iat: int,
    exp: int,
    extra: Option<&[(&str, &str)]>,
) -> Seq<char> {
    match extra {
        Some(e) => with_members(base_payload(sub, iss, iat, exp), extra_members(e@)),
        None => base_payload(sub, iss, iat, exp),
    }
}

/// The HS256 token with the given payload.
pub open spec fn signed_token(payload: Seq<char>, secret: Seq<u8>) -> Seq<char> {
    let h = base64url(encode_utf8(hs256_header()));
    let p = base64url(encode_utf8(payload));
    signing_input(h, p) + "."@ + hs256_signature(secret, h, p)
}

/// The text of the member `"k":"v"`.
fn member_text(k: &str, v: &str) -> (r: String)
    ensures
        r@ == text_member(k@, v@),
{
    "\"".to_owned().concat(k).concat("\":\"").concat(v).concat("\"")
}

/// The text of the member `"k":n`.
fn member_number(k: &str, n: i64) -> (r: String)
    ensures
        r@ == number_member(k@, n as int),
{
    "\"".to_owned().concat(k).concat("\":").concat(i64_text(n).as_str())
}

/// Builds an HS256 token that was issued at `iat` and expires at `exp`.
pub fn build_test_jwt_at(
    sub: &str,
    iss: &str,
    secret: &[u8],
    iat: i64,
    exp: i64,
    extra_claims: Option<&[(&str, &str)]>,
) -> (r: String)
    ensures
        r@ == signed_token(payload_text(sub@, iss@, iat as int, exp as int, extra_claims), secret@),
{
    let header = "{\"alg\":\"HS256\",\"typ\":\"JWT\"}";
    let base = "{".to_owned().concat(member_text("sub", sub).as_str()).concat(",").concat(
        member_text("iss", iss).as_str(),
    ).concat(",").concat(member_number("iat", iat).as_str()).concat(",").concat(
        member_number("exp", exp).as_str(),
    ).concat("}");
    let payload = match extra_claims {
        Some(extra) => {
            let mut extras = String::new();
            let mut i: usize = 0;
            assert(extra@.take(0) =~= Seq::empty());
            while i < extra.len()
                invariant
                    i <= extra@.len(),
                    extras@ == extra_members(extra@.take(i as int)),
                decreases extra@.len() - i,
            {
                let (k, v) = extra[i];
                assert(extra@.take(i + 1).drop_last() =~= extra@.take(i as int));
                extras.append(",");
                extras.append(member_text(k, v).as_str());
                i = i + 1;
            }
            assert(extra@.take(extra@.len() as int) =~= extra@);
            match find_char(base.as_str(), '}') {
                Some(at) => take_chars(base.as_str(), at).to_owned().concat(
                    extras.as_str(),
                ).concat("}").concat(skip_chars(base.as_str(), at + 1)),
                None => base,
            }
        },
        None => base,
    };
    let h = base64url_encode(header.as_bytes());
    let p = base64url_encode(payload.as_str().as_bytes());
    let input = dotted(h.as_str(), p.as_str());
    let sig = hmac_sha256(secret, input.as_str().as_bytes());
    let s = base64url_encode(&sig);
    input.concat(".").concat(s.as_str())
}

/// The time `offset` after `t`; beyond the largest time it goes on with the smallest.
pub open spec fn later(t: i64, offset: i64) -> i64 {
    vstd::wrapping::i64_specs::wrapping_add(t, offset)
}

/// Builds an HS256 token that was issued now and expires `exp_offset_secs` later.
pub fn build_test_jwt(
    sub: &str,
    iss: &str,
    secret: &[u8],
    exp_offset_secs: i64,
    extra_claims: Option<&[(&str, &str)]>,
) -> (r: String)
    ensures
        exists|t: SystemTime|
            {
                let iat = #[trigger] seconds_at(t) as i64;
                r@ == signed_token(
                    payload_text(
                        sub@,
                        iss@,
                        iat as int,
                        later(iat, exp_offset_secs) as int,
                        extra_claims,
                    ),
                    secret@,
                )
            },
{
    let seconds: u64 = unix_seconds();
    let iat: i64 = seconds as i64;
    let exp: i64 = iat.wrapping_add(exp_offset_secs);
    let r = build_test_jwt_at(sub, iss, secret, iat, exp, extra_claims);
    proof {
        let t = choose|t: SystemTime| seconds == #[trigger] seconds_at(t);
        assert(exp == later(iat, exp_offset_secs));
        assert(iat == seconds_at(t) as i64);
    }
    r
}

} // verus!
