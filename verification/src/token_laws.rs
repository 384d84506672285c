//! How tokens are read, which provider judges them, and what is found wrong with them.

use vstd::prelude::*;

use crate::encoding::base64url_decoded;
use crate::json::{texts_among, JsonView};
use crate::oauth::{
    algorithm_named, chosen_provider, claims_fault, claims_of, first_serving, groups_of,
    header_algorithm, members_in, raw_members, serves, signature_fault, token_parts, unquoted,
    validated, ClaimsView, JwtAlgorithm, JwtErrorView, OAuthProvider,
};
use crate::text::{
    cut, first_index, has_char, lemma_cut_join, lemma_first_index, lemma_first_index_at,
    lemma_parse_dec_int, lemma_trim_identity, split, trim_back, trim_front, trim_white, trimmed, views,
    CharClass,
};

verus! {

// ---------------------------------------------------------------------------
// Reading

proof fn lemma_no_cut(s: Seq<char>, c: char)
    requires
        !has_char(s, c),
    ensures
        cut(s, c) is None,
        split(s, c) == seq![s],
{
    lemma_first_index(s, c);
    let i = first_index(s, c);
    if i < s.len() {
        assert(s[i] == c);
    }
}

/// A token is a header, a payload and a signature with dots between them; with fewer dots it is
/// malformed.
pub proof fn tokens_have_three_parts(
    providers: Seq<OAuthProvider>,
    h: Seq<char>,
    p: Seq<char>,
    sig: Seq<char>,
    now: int,
)
    requires
        !has_char(h, '.'),
        !has_char(p, '.'),
    ensures
        token_parts(h + seq!['.'] + (p + seq!['.'] + sig)) == Some((h, p, sig)),
        validated(providers, h + seq!['.'] + p, now) == Err::<ClaimsView, _>(
            JwtErrorView::MalformedToken,
        ),
        validated(providers, h, now) == Err::<ClaimsView, _>(JwtErrorView::MalformedToken),
{
    lemma_cut_join(h, '.', p + seq!['.'] + sig);
    lemma_cut_join(p, '.', sig);
    lemma_cut_join(h, '.', p);
    lemma_no_cut(h, '.');
    lemma_no_cut(p, '.');
}

proof fn lemma_claim_names()
    ensures
        "sub"@.len() == 3,
        "iss"@.len() == 3,
        "aud"@.len() == 3,
        "email"@.len() == 5,
        "exp"@.len() == 3,
        "iat"@.len() == 3,
{
    reveal_strlit("sub");
    reveal_strlit("iss");
    reveal_strlit("aud");
    reveal_strlit("email");
    reveal_strlit("exp");
    reveal_strlit("iat");
}

/// Every claim is taken from the member of its name: a text as it is, a time as its number.
pub proof fn claims_come_from_their_members(m: Map<Seq<char>, JsonView>, s: Seq<char>, n: i64)
    ensures
        ({
            let c = claims_of(m);
            let text = |k: Seq<char>| m.contains_key(k) && m[k] == JsonView::Str(s);
            let number = |k: Seq<char>| m.contains_key(k) && m[k] == JsonView::Int(n as int);
            &&& text("sub"@) ==> c.sub == s
            &&& text("iss"@) ==> c.iss == Some(s)
            &&& text("aud"@) ==> c.aud == Some(s)
            &&& text("email"@) ==> c.email == Some(s)
            &&& number("exp"@) ==> c.exp == Some(n as int)
            &&& number("iat"@) ==> c.iat == Some(n as int)
            &&& s.len() > 0 && m.contains_key(s) ==> c.raw.contains_key(s)
            &&& m.contains_key("groups"@) ==> c.groups == groups_of(m["groups"@])
        }),
{
    lemma_claim_names();
    lemma_parse_dec_int(n as int);
}

/// A claim whose member is missing is not made.
pub proof fn missing_claims_are_not_made(m: Map<Seq<char>, JsonView>)
    ensures
        ({
            let c = claims_of(m);
            &&& !m.contains_key("sub"@) ==> c.sub.len() == 0
            &&& !m.contains_key("iss"@) ==> c.iss is None
            &&& !m.contains_key("aud"@) ==> c.aud is None
            &&& !m.contains_key("email"@) ==> c.email is None
            &&& !m.contains_key("exp"@) ==> c.exp is None
            &&& !m.contains_key("iat"@) ==> c.iat is None
            &&& !m.contains_key("groups"@) ==> c.groups.len() == 0
            &&& forall|k: Seq<char>| #[trigger] c.raw.contains_key(k) ==> m.contains_key(k)
        }),
{
}

/// Groups are the texts of an array, or what the commas of a text divide: those of two texts with a
/// comma between them are the groups of the first and then those of the second.
pub proof fn groups_are_divided_by_commas(
    items: Seq<JsonView>,
    a: Seq<char>,
    b: Seq<char>,
    g: Seq<char>,
)
    requires
        !has_char(a, ','),
        !has_char(g, ','),
    ensures
        groups_of(JsonView::Array(items)) == texts_among(items),
        groups_of(JsonView::Str(a + seq![','] + b)) == groups_of(JsonView::Str(a)) + groups_of(
            JsonView::Str(b),
        ),
        groups_of(JsonView::Str(g)) == seq![unquoted(g)],
{
    lemma_no_cut(a, ',');
    lemma_no_cut(g, ',');
    let s = a + seq![','] + b;
    assert forall|j: int| 0 <= j < a.len() implies s[j] != ',' by {
        assert(s[j] == a[j]);
    }
    lemma_first_index_at(s, ',', a.len() as int);
    assert(s.take(a.len() as int) =~= a);
    assert(s.skip(a.len() as int + 1) =~= b);
    assert(split(s, ',') == seq![a] + split(b, ','));
    let f = |x: Seq<char>| unquoted(x);
    assert(split(s, ',').map_values(f) =~= split(a, ',').map_values(f) + split(b, ',').map_values(f));
    assert(split(g, ',').map_values(f) =~= seq![unquoted(g)]);
}

/// A name loses the quotes around it, and one without quotes is kept as it is.
pub proof fn names_lose_their_quotes(s: Seq<char>)
    requires
        s.len() > 0,
        s[0] != '"',
        s.last() != '"',
    ensures
        unquoted(seq!['"'] + s + seq!['"']) == s,
        trim_white(s) == s ==> unquoted(s) == s,
{
    let k = CharClass::Only('"');
    let q = seq!['"'] + s + seq!['"'];
    lemma_trim_identity(q, CharClass::White);
    lemma_trim_identity(s, k);
    assert(q.skip(1) =~= s + seq!['"']);
    assert((s + seq!['"']).drop_last() =~= s && s.len() > 0);
    let t = s + seq!['"'];
    assert(t[0] == s[0] && t.last() == '"');
    assert(trim_front(t, k) == t);
    assert(trim_front(q, k) == t);
    assert(trim_back(t, k) == trim_back(s, k));
    assert(trimmed(q, k) == s);
}

/// Every algorithm is known by its name, and a header that names none or another counts as
/// unsigned.
pub proof fn algorithms_are_known_by_name(name: Seq<char>)
    ensures
        algorithm_named(name) == JwtAlgorithm::HS256 <==> name == "HS256"@,
        algorithm_named(name) == JwtAlgorithm::RS256 <==> name == "RS256"@,
        header_algorithm(Map::empty()) == JwtAlgorithm::NoSignature,
        header_algorithm(map!["alg"@ => name]) == algorithm_named(name),
{
    reveal_strlit("HS256");
    reveal_strlit("RS256");
    reveal_strlit("none");
    assert("HS256"@[0] == 'H' && "RS256"@[0] == 'R');
    assert("HS256"@.len() == 5 && "RS256"@.len() == 5 && "none"@.len() == 4);
}

// ---------------------------------------------------------------------------
// Judging

/// A provider trusts its own issuer and each further one that it was given, and nobody else.
pub proof fn issuers_are_trusted(provider: OAuthProvider, iss: Seq<char>, i: int)
    ensures
        provider.trusts(provider.issuer@),
        0 <= i < provider.trusted_issuers@.len() ==> provider.trusts(provider.trusted_issuers@[i]@),
        provider.trusts(iss) && iss != provider.issuer@ ==> exists|j: int|
            0 <= j < provider.trusted_issuers@.len() && (#[trigger] provider.trusted_issuers@[j])@
                == iss,
{
    let all = views(provider.trusted_issuers@);
    if 0 <= i < provider.trusted_issuers@.len() {
        assert(all[i] == provider.trusted_issuers@[i]@);
    }
    if all.contains(iss) {
        let j = choose|j: int| 0 <= j < all.len() && all[j] == iss;
        assert(provider.trusted_issuers@[j]@ == iss);
    }
}

/// The first provider that trusts the issuer and has the algorithm judges a token; later ones do
/// not.
pub proof fn first_provider_is_chosen(
    providers: Seq<OAuthProvider>,
    iss: Seq<char>,
    alg: JwtAlgorithm,
    i: int,
)
    requires
        0 <= i < providers.len(),
        providers[i].trusts(iss) && providers[i].algorithm == alg,
        forall|j: int|
            0 <= j < i ==> !((#[trigger] providers[j]).trusts(iss) && providers[j].algorithm == alg),
    ensures
        chosen_provider(providers, iss, alg) == Some(providers[i]),
{
    lemma_first_serving(providers, iss, alg, i);
}

proof fn lemma_first_serving(
    providers: Seq<OAuthProvider>,
    iss: Seq<char>,
    alg: JwtAlgorithm,
    i: int,
)
    requires
        0 <= i <= providers.len(),
        i < providers.len() ==> serves(providers[i], iss, alg),
        forall|j: int| 0 <= j < i ==> !serves(#[trigger] providers[j], iss, alg),
    ensures
        first_serving(providers, iss, alg) == i,
    decreases providers.len(),
{
    if i > 0 {
        assert(!serves(providers[0], iss, alg));
        let rest = providers.skip(1);
        assert forall|j: int| 0 <= j < i - 1 implies !serves(#[trigger] rest[j], iss, alg) by {
            assert(!serves(providers[j + 1], iss, alg));
        }
        lemma_first_serving(rest, iss, alg, i - 1);
    }
}

/// Where none serves, a provider that is the only one judges nevertheless; of several none does.
pub proof fn only_provider_judges(
    providers: Seq<OAuthProvider>,
    iss: Seq<char>,
    alg: JwtAlgorithm,
)
    requires
        forall|j: int|
            0 <= j < providers.len() ==> !((#[trigger] providers[j]).trusts(iss)
                && providers[j].algorithm == alg),
    ensures
        chosen_provider(providers, iss, alg) == (if providers.len() == 1 {
            Some(providers[0])
        } else {
            None
        }),
{
    lemma_first_serving(providers, iss, alg, providers.len() as int);
}

/// Claims are refused for the first of these that holds: they have expired, their issuer is not
/// trusted, they are not for the audience that is required, or they name no subject. Claims are in
/// order where none holds.
pub proof fn claims_are_judged_in_order(claims: ClaimsView, provider: OAuthProvider, now: int)
    ensures
        ({
            let expired = claims.exp matches Some(e) && e < now;
            let foreign = claims.iss matches Some(iss) && !provider.trusts(iss);
            let astray = provider.audience matches Some(aud) && claims.aud != Some(aud@);
            let nameless = claims.sub.len() == 0;
            let fault = claims_fault(claims, provider, now);
            &&& fault is None <==> !expired && !foreign && !astray && !nameless
            &&& fault == Some(JwtErrorView::TokenExpired) <==> expired
            &&& fault == Some(JwtErrorView::InvalidIssuer) <==> foreign && !expired
            &&& fault == Some(JwtErrorView::InvalidAudience) <==> astray && !foreign && !expired
            &&& fault == Some(JwtErrorView::MissingClaim("sub"@)) <==> nameless && !astray
                && !foreign && !expired
        }),
{
}

/// A token whose parts can be read is accepted, with the claims of its payload, where its signature
/// stands with the provider that judges it and its claims are in order.
pub proof fn sound_tokens_are_accepted(
    providers: Seq<OAuthProvider>,
    token: Seq<char>,
    provider: OAuthProvider,
    header: Map<Seq<char>, JsonView>,
    payload: Map<Seq<char>, JsonView>,
    now: int,
)
    requires
        token_parts(token) matches Some((h, p, sig)) && {
            &&& base64url_decoded(h) matches Some(hb) && members_in(hb) == Some(header)
            &&& base64url_decoded(p) matches Some(pb) && members_in(pb) == Some(payload)
            &&& signature_fault(h, p, sig, provider, provider.algorithm) is None
        },
        header_algorithm(raw_members(header)) == provider.algorithm,
        chosen_provider(
            providers,
            claims_of(payload).iss.unwrap_or(Seq::empty()),
            provider.algorithm,
        ) == Some(provider),
        claims_fault(claims_of(payload), provider, now) is None,
    ensures
        validated(providers, token, now) == Ok::<_, JwtErrorView>(claims_of(payload)),
{
}

/// An accepted RS256 token was judged by a provider of RS256, and its signature is not empty.
pub proof fn rs256_is_for_its_providers(
    providers: Seq<OAuthProvider>,
    token: Seq<char>,
    now: int,
    header: Map<Seq<char>, JsonView>,
)
    requires
        validated(providers, token, now) is Ok,
        token_parts(token) matches Some((h, _, _)) && base64url_decoded(h) matches Some(bytes)
            && members_in(bytes) == Some(header),
        header_algorithm(raw_members(header)) == JwtAlgorithm::RS256,
    ensures
        token_parts(token) matches Some((h, p, sig)) && base64url_decoded(sig) matches Some(bytes)
            && bytes.len() > 0,
        exists|i: int|
            0 <= i < providers.len() && (#[trigger] providers[i]).algorithm == JwtAlgorithm::RS256,
{
    let (h, p, sig) = token_parts(token).unwrap();
    let claims = claims_of(members_in(base64url_decoded(p).unwrap()).unwrap());
    let iss = claims.iss.unwrap_or(Seq::empty());
    let i = first_serving(providers, iss, JwtAlgorithm::RS256);
    let j = if 0 <= i < providers.len() { i } else { 0 };
    assert(chosen_provider(providers, iss, JwtAlgorithm::RS256) == Some(providers[j]));
    assert(signature_fault(h, p, sig, providers[j], JwtAlgorithm::RS256) is None);
    assert(providers[j].algorithm == JwtAlgorithm::RS256);
}

} // verus!
