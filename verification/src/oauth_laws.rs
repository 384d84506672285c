//! What holds of every token: what is built is accepted, and what is accepted is signed, current,
//! trusted and meant for its audience.

use vstd::prelude::*;
use vstd::utf8::*;

use crate::encoding::{
    base64url, base64url_decoded, base64url_is_url_safe, base64url_round_trip, is_url_char,
};
use crate::json::{
    flat_inner, flat_member, flat_members, flat_text, is_flat, is_plain, parsed_json_bytes,
    reads_flat, FlatView, JsonView,
};
use crate::oauth::{
    base_payload, chosen_provider, claims_fault, claims_of, extra_members, first_serving,
    header_algorithm, hs256_header, hs256_signature, number_member, members_in, payload_text,
    raw_members, signature_fault, signed_token, text_member, token_is_read, token_parts, validated,
    ClaimsView, JwtAlgorithm, JwtErrorView, OAuthProvider,
};
use crate::text::{
    dec, dec_int, first_index, has_char, is_digit, lemma_cut_join, lemma_dec_value,
    lemma_first_index_at, lemma_parse_dec_int,
};

verus! {

/// Whether the names and values of extra claims are plain.
pub open spec fn plain_extra(extra: Seq<(&str, &str)>) -> bool {
    forall|i: int|
        0 <= i < extra.len() ==> is_plain((#[trigger] extra[i]).0@) && is_plain(extra[i].1@)
}

/// The members of a payload without extra claims, in order.
pub open spec fn base_list(sub: Seq<char>, iss: Seq<char>, iat: int, exp: int) -> Seq<
    (Seq<char>, FlatView),
> {
    seq![
        ("sub"@, FlatView::Text(sub)),
        ("iss"@, FlatView::Text(iss)),
        ("iat"@, FlatView::Number(iat)),
        ("exp"@, FlatView::Number(exp)),
    ]
}

/// The members of extra claims, in order.
pub open spec fn extra_list(extra: Seq<(&str, &str)>) -> Seq<(Seq<char>, FlatView)> {
    Seq::new(extra.len(), |i: int| (extra[i].0@, FlatView::Text(extra[i].1@)))
}

/// The members of a payload, in order.
pub open spec fn payload_list(
    sub: Seq<char>,
    iss: Seq<char>,
    iat: int,
    exp: int,
    extra: Option<&[(&str, &str)]>,
) -> Seq<(Seq<char>, FlatView)> {
    match extra {
        Some(e) => base_list(sub, iss, iat, exp) + extra_list(e@),
        None => base_list(sub, iss, iat, exp),
    }
}

/// The members of a payload: of two with one name the later counts.
pub open spec fn payload_members(
    sub: Seq<char>,
    iss: Seq<char>,
    iat: int,
    exp: int,
    extra: Option<&[(&str, &str)]>,
) -> Map<Seq<char>, JsonView> {
    flat_members(payload_list(sub, iss, iat, exp, extra))
}

/// Whether the parts of a payload survive in it: the texts are plain and the times fit in 64 bits.
/// Where extra claims go in, they go before the first closing brace, so none may stand earlier.
pub open spec fn plain_payload(
    sub: Seq<char>,
    iss: Seq<char>,
    iat: int,
    exp: int,
    extra: Option<&[(&str, &str)]>,
) -> bool {
    &&& is_plain(sub)
    &&& is_plain(iss)
    &&& i64::MIN <= iat <= i64::MAX
    &&& i64::MIN <= exp <= i64::MAX
    &&& extra matches Some(e) ==> plain_extra(e@) && !has_char(sub, '}') && !has_char(iss, '}')
}

// ---------------------------------------------------------------------------
// Payloads

proof fn lemma_flat_push(m: Seq<(Seq<char>, FlatView)>, e: (Seq<char>, FlatView))
    requires
        m.len() > 0,
    ensures
        flat_inner(m.push(e)) == flat_inner(m) + ","@ + flat_member(e),
{
    assert(m.push(e).drop_last() =~= m);
}

proof fn lemma_text_member(k: Seq<char>, v: Seq<char>)
    ensures
        flat_member((k, FlatView::Text(v))) == text_member(k, v),
{
    reveal_strlit("\"");
    reveal_strlit("\":\"");
    reveal_strlit(":");
    assert(flat_member((k, FlatView::Text(v))) =~= text_member(k, v));
}

proof fn lemma_number_member(k: Seq<char>, n: int)
    ensures
        flat_member((k, FlatView::Number(n))) == number_member(k, n),
{
    reveal_strlit("\"");
    reveal_strlit("\":");
    reveal_strlit(":");
    assert(flat_member((k, FlatView::Number(n))) =~= number_member(k, n));
}

proof fn lemma_numeral_chars(n: int)
    ensures
        dec_int(n).len() > 0,
        forall|i: int|
            0 <= i < dec_int(n).len() ==> is_digit(#[trigger] dec_int(n)[i]) || dec_int(n)[i] == '-',
{
    if n < 0 {
        lemma_dec_value((-n) as nat);
        let d = dec((-n) as nat);
        assert forall|i: int| 0 <= i < dec_int(n).len() implies is_digit(#[trigger] dec_int(n)[i])
            || dec_int(n)[i] == '-' by {
            if i > 0 {
                assert(dec_int(n)[i] == d[i - 1]);
            }
        }
    } else {
        lemma_dec_value(n as nat);
    }
}

/// The members of a payload without extra claims, as text.
spec fn base_inner(sub: Seq<char>, iss: Seq<char>, iat: int, exp: int) -> Seq<char> {
    text_member("sub"@, sub) + seq![','] + text_member("iss"@, iss) + seq![','] + number_member(
        "iat"@,
        iat,
    ) + seq![','] + number_member("exp"@, exp)
}

proof fn lemma_base_payload(sub: Seq<char>, iss: Seq<char>, iat: int, exp: int)
    ensures
        base_payload(sub, iss, iat, exp) == seq!['{'] + base_inner(sub, iss, iat, exp) + seq!['}'],
        flat_inner(base_list(sub, iss, iat, exp)) == base_inner(sub, iss, iat, exp),
{
    reveal_strlit("{");
    reveal_strlit("}");
    reveal_strlit(",");
    assert("{"@ =~= seq!['{']);
    assert("}"@ =~= seq!['}']);
    assert(","@ =~= seq![',']);
    assert(base_payload(sub, iss, iat, exp) =~= seq!['{'] + base_inner(sub, iss, iat, exp)
        + seq!['}']);
    let all = base_list(sub, iss, iat, exp);
    let l1 = seq![all[0]];
    let l2 = l1.push(all[1]);
    let l3 = l2.push(all[2]);
    assert(all =~= l3.push(all[3]));
    lemma_flat_push(l1, all[1]);
    lemma_flat_push(l2, all[2]);
    lemma_flat_push(l3, all[3]);
    lemma_text_member("sub"@, sub);
    lemma_text_member("iss"@, iss);
    lemma_number_member("iat"@, iat);
    lemma_number_member("exp"@, exp);
}

proof fn lemma_extra_inner(base: Seq<(Seq<char>, FlatView)>, extra: Seq<(&str, &str)>)
    requires
        base.len() > 0,
    ensures
        flat_inner(base + extra_list(extra)) == flat_inner(base) + extra_members(extra),
    decreases extra.len(),
{
    if extra.len() == 0 {
        assert(base + extra_list(extra) =~= base);
        assert(flat_inner(base) + extra_members(extra) =~= flat_inner(base));
    } else {
        let init = extra.drop_last();
        let last = (extra.last().0@, FlatView::Text(extra.last().1@));
        lemma_extra_inner(base, init);
        assert(base + extra_list(extra) =~= (base + extra_list(init)).push(last));
        lemma_flat_push(base + extra_list(init), last);
        lemma_text_member(extra.last().0@, extra.last().1@);
        assert(flat_inner(base) + extra_members(init) + ","@ + flat_member(last) =~= flat_inner(base)
            + extra_members(extra));
    }
}

proof fn lemma_base_first_brace(sub: Seq<char>, iss: Seq<char>, iat: int, exp: int)
    requires
        !has_char(sub, '}'),
        !has_char(iss, '}'),
    ensures
        first_index(base_payload(sub, iss, iat, exp), '}') == base_inner(sub, iss, iat, exp).len()
            + 1,
{
    let inner = base_inner(sub, iss, iat, exp);
    let s = seq!['{'] + inner + seq!['}'];
    reveal_strlit("\"");
    reveal_strlit("\":\"");
    reveal_strlit("\":");
    reveal_strlit("sub");
    reveal_strlit("iss");
    reveal_strlit("iat");
    reveal_strlit("exp");
    lemma_numeral_chars(iat);
    lemma_numeral_chars(exp);
    let m1 = text_member("sub"@, sub);
    let m2 = text_member("iss"@, iss);
    let m3 = number_member("iat"@, iat);
    let m4 = number_member("exp"@, exp);
    assert forall|j: int| 0 <= j < m1.len() implies m1[j] != '}' by {
        if 7 <= j < 7 + sub.len() {
            assert(m1[j] == sub[j - 7]);
        }
    }
    assert forall|j: int| 0 <= j < m2.len() implies m2[j] != '}' by {
        if 7 <= j < 7 + iss.len() {
            assert(m2[j] == iss[j - 7]);
        }
    }
    assert forall|j: int| 0 <= j < m3.len() implies m3[j] != '}' by {
        if 6 <= j {
            assert(m3[j] == dec_int(iat)[j - 6]);
        }
    }
    assert forall|j: int| 0 <= j < m4.len() implies m4[j] != '}' by {
        if 6 <= j {
            assert(m4[j] == dec_int(exp)[j - 6]);
        }
    }
    let s2 = m1 + seq![','] + m2;
    let s3 = s2 + seq![','] + m3;
    assert forall|j: int| 0 <= j < s2.len() implies s2[j] != '}' by {
        if j > m1.len() {
            assert(s2[j] == m2[j - m1.len() - 1]);
        }
    }
    assert forall|j: int| 0 <= j < s3.len() implies s3[j] != '}' by {
        if j > s2.len() {
            assert(s3[j] == m3[j - s2.len() - 1]);
        } else if j < s2.len() {
            assert(s3[j] == s2[j]);
        }
    }
    assert(inner == s3 + seq![','] + m4);
    assert forall|j: int| 0 <= j < inner.len() implies inner[j] != '}' by {
        if j > s3.len() {
            assert(inner[j] == m4[j - s3.len() - 1]);
        } else if j < s3.len() {
            assert(inner[j] == s3[j]);
        }
    }
    assert forall|j: int| 0 <= j < inner.len() + 1 implies s[j] != '}' by {
        if j > 0 {
            assert(s[j] == inner[j - 1]);
        }
    }
    lemma_base_payload(sub, iss, iat, exp);
    lemma_first_index_at(s, '}', inner.len() as int + 1);
}

proof fn lemma_plain_names()
    ensures
        is_plain("sub"@),
        is_plain("iss"@),
        is_plain("iat"@),
        is_plain("exp"@),
        "sub"@ != "iss"@,
        "sub"@ != "iat"@,
        "sub"@ != "exp"@,
        "iss"@ != "iat"@,
        "iss"@ != "exp"@,
        "iat"@ != "exp"@,
        "sub"@.len() == 3,
        "iss"@.len() == 3,
        "iat"@.len() == 3,
        "exp"@.len() == 3,
{
    reveal_strlit("sub");
    reveal_strlit("iss");
    reveal_strlit("iat");
    reveal_strlit("exp");
    assert("sub"@[0] == 's' && "iss"@[0] == 'i' && "iat"@[0] == 'i' && "exp"@[0] == 'e');
    assert("iss"@[1] == 's' && "iat"@[1] == 'a');
    assert("sub"@.len() == 3 && "iss"@.len() == 3 && "iat"@.len() == 3 && "exp"@.len() == 3);
}

/// A payload that is built is a flat object of the claims it is built from.
pub proof fn built_payload_is_flat(
    sub: Seq<char>,
    iss: Seq<char>,
    iat: int,
    exp: int,
    extra: Option<&[(&str, &str)]>,
)
    requires
        plain_payload(sub, iss, iat, exp, extra),
    ensures
        is_flat(payload_list(sub, iss, iat, exp, extra)),
        payload_text(sub, iss, iat, exp, extra) == flat_text(
            payload_list(sub, iss, iat, exp, extra),
        ),
{
    let base = base_list(sub, iss, iat, exp);
    let list = payload_list(sub, iss, iat, exp, extra);
    lemma_plain_names();
    lemma_base_payload(sub, iss, iat, exp);
    reveal_strlit("{");
    reveal_strlit("}");
    assert("{"@ =~= seq!['{']);
    assert("}"@ =~= seq!['}']);
    assert forall|i: int| 0 <= i < list.len() implies is_plain((#[trigger] list[i]).0)
        && list[i].1.wf() by {
        if i >= 4 {
            let e = extra.unwrap()@;
            assert(list[i] == extra_list(e)[i - 4]);
            assert(is_plain(e[i - 4].0@));
        } else {
            assert(list[i] == base[i]);
        }
    }
    match extra {
        None => {},
        Some(e) => {
            lemma_base_first_brace(sub, iss, iat, exp);
            lemma_extra_inner(base, e@);
            let text = base_payload(sub, iss, iat, exp);
            let inner = base_inner(sub, iss, iat, exp);
            let i = first_index(text, '}');
            assert(text.take(i) =~= seq!['{'] + inner);
            assert(text.skip(i + 1) =~= Seq::<char>::empty());
            assert(payload_text(sub, iss, iat, exp, extra) =~= flat_text(list));
        },
    }
}

// ---------------------------------------------------------------------------
// Tokens

/// The members of the header of an HS256 token, in order.
spec fn header_list() -> Seq<(Seq<char>, FlatView)> {
    seq![("alg"@, FlatView::Text("HS256"@)), ("typ"@, FlatView::Text("JWT"@))]
}

proof fn lemma_header()
    ensures
        is_flat(header_list()),
        hs256_header() == flat_text(header_list()),
        header_algorithm(raw_members(flat_members(header_list()))) == JwtAlgorithm::HS256,
{
    reveal_strlit("{\"alg\":\"HS256\",\"typ\":\"JWT\"}");
    reveal_strlit("{");
    reveal_strlit("}");
    reveal_strlit(",");
    reveal_strlit(":");
    reveal_strlit("\"");
    reveal_strlit("alg");
    reveal_strlit("HS256");
    reveal_strlit("typ");
    reveal_strlit("JWT");
    let l = header_list();
    let l1 = seq![l[0]];
    assert(l =~= l1.push(l[1]));
    lemma_flat_push(l1, l[1]);
    assert(hs256_header() =~= flat_text(l));
    assert("alg"@[0] != "typ"@[0]);
    assert(l.drop_last() =~= l1);
    assert(l1.drop_last() =~= Seq::<(Seq<char>, FlatView)>::empty());
    reveal_with_fuel(flat_members, 3);
    let m = flat_members(l);
    assert(m.contains_key("alg"@) && m["alg"@] == JsonView::Str("HS256"@));
    assert(raw_members(m).contains_key("alg"@));
}

proof fn lemma_encoded_has_no_dot(d: Seq<u8>)
    ensures
        !has_char(base64url(d), '.'),
{
    base64url_is_url_safe(d);
    if has_char(base64url(d), '.') {
        let i = choose|i: int| 0 <= i < base64url(d).len() && base64url(d)[i] == '.';
        assert(is_url_char(base64url(d)[i]));
    }
}

proof fn lemma_token_parts(payload: Seq<char>, secret: Seq<u8>)
    ensures
        ({
            let h = base64url(encode_utf8(hs256_header()));
            let p = base64url(encode_utf8(payload));
            token_parts(signed_token(payload, secret)) == Some((h, p, hs256_signature(secret, h, p)))
        }),
{
    let h = base64url(encode_utf8(hs256_header()));
    let p = base64url(encode_utf8(payload));
    let sig = hs256_signature(secret, h, p);
    reveal_strlit(".");
    assert("."@ =~= seq!['.']);
    lemma_encoded_has_no_dot(encode_utf8(hs256_header()));
    lemma_encoded_has_no_dot(encode_utf8(payload));
    assert(signed_token(payload, secret) =~= h + seq!['.'] + (p + seq!['.'] + sig));
    lemma_cut_join(h, '.', p + seq!['.'] + sig);
    lemma_cut_join(p, '.', sig);
}

/// A token that was built with the secret of its provider passes the signature check, and what
/// comes of it is decided by its claims: they are accepted as they were put in, or refused for
/// expiry, issuer, audience or a missing subject.
pub proof fn built_token_is_judged_by_its_claims(
    providers: Seq<OAuthProvider>,
    provider: OAuthProvider,
    sub: Seq<char>,
    iss: Seq<char>,
    secret: Seq<u8>,
    iat: int,
    exp: int,
    extra: Option<&[(&str, &str)]>,
    now: int,
)
    requires
        plain_payload(sub, iss, iat, exp, extra),
        token_is_read(signed_token(payload_text(sub, iss, iat, exp, extra), secret)),
        provider.hs256_secret matches Some(s) && s@ == secret,
        chosen_provider(
            providers,
            claims_of(payload_members(sub, iss, iat, exp, extra)).iss.unwrap_or(Seq::empty()),
            JwtAlgorithm::HS256,
        ) == Some(provider),
    ensures
        ({
            let claims = claims_of(payload_members(sub, iss, iat, exp, extra));
            validated(
                providers,
                signed_token(payload_text(sub, iss, iat, exp, extra), secret),
                now,
            ) == match claims_fault(claims, provider, now) {
                Some(e) => Err::<ClaimsView, JwtErrorView>(e),
                None => Ok::<ClaimsView, JwtErrorView>(claims),
            }
        }),
{
    let payload = payload_text(sub, iss, iat, exp, extra);
    let list = payload_list(sub, iss, iat, exp, extra);
    lemma_token_parts(payload, secret);
    base64url_round_trip(encode_utf8(hs256_header()));
    base64url_round_trip(encode_utf8(payload));
    lemma_header();
    built_payload_is_flat(sub, iss, iat, exp, extra);
    assert(reads_flat(
        encode_utf8(flat_text(header_list())),
        parsed_json_bytes(encode_utf8(flat_text(header_list()))),
    ));
    assert(members_in(encode_utf8(hs256_header())) == Some(flat_members(header_list())));
    assert(members_in(encode_utf8(flat_text(list))) == Some(flat_members(list)));
}

/// Whether every token that is built with the secret of its provider is judged by its claims
/// at time `now`, where it is `token`.
pub open spec fn judges_built(providers: Seq<OAuthProvider>, token: Seq<char>, now: int) -> bool {
    forall|
        sub: Seq<char>,
        iss: Seq<char>,
        secret: Seq<u8>,
        iat: int,
        exp: int,
        extra: Option<&[(&str, &str)]>,
    |
        {
            let claims = claims_of(payload_members(sub, iss, iat, exp, extra));
            &&& plain_payload(sub, iss, iat, exp, extra)
            &&& token == #[trigger] signed_token(payload_text(sub, iss, iat, exp, extra), secret)
            &&& chosen_provider(
                providers,
                claims.iss.unwrap_or(Seq::empty()),
                JwtAlgorithm::HS256,
            ) matches Some(provider)
            &&& provider.hs256_secret matches Some(s) && s@ == secret
        } ==> {
            let claims = claims_of(payload_members(sub, iss, iat, exp, extra));
            let provider = chosen_provider(
                providers,
                claims.iss.unwrap_or(Seq::empty()),
                JwtAlgorithm::HS256,
            ).unwrap();
            validated(providers, token, now) == match claims_fault(claims, provider, now) {
                Some(e) => Err::<ClaimsView, JwtErrorView>(e),
                None => Ok::<ClaimsView, JwtErrorView>(claims),
            }
        }
}

/// A token whose parts are read as they are written is judged by its claims, where it was built.
pub proof fn read_tokens_are_judged(providers: Seq<OAuthProvider>, token: Seq<char>, now: int)
    requires
        token_is_read(token),
    ensures
        judges_built(providers, token, now),
{
    assert forall|
        sub: Seq<char>,
        iss: Seq<char>,
        secret: Seq<u8>,
        iat: int,
        exp: int,
        extra: Option<&[(&str, &str)]>,
    |
        {
            let claims = claims_of(payload_members(sub, iss, iat, exp, extra));
            &&& plain_payload(sub, iss, iat, exp, extra)
            &&& token == #[trigger] signed_token(payload_text(sub, iss, iat, exp, extra), secret)
            &&& chosen_provider(
                providers,
                claims.iss.unwrap_or(Seq::empty()),
                JwtAlgorithm::HS256,
            ) matches Some(provider)
            &&& provider.hs256_secret matches Some(s) && s@ == secret
        } implies {
        let claims = claims_of(payload_members(sub, iss, iat, exp, extra));
        let provider = chosen_provider(
            providers,
            claims.iss.unwrap_or(Seq::empty()),
            JwtAlgorithm::HS256,
        ).unwrap();
        validated(providers, token, now) == match claims_fault(claims, provider, now) {
            Some(e) => Err::<ClaimsView, JwtErrorView>(e),
            None => Ok::<ClaimsView, JwtErrorView>(claims),
        }
    } by {
        let claims = claims_of(payload_members(sub, iss, iat, exp, extra));
        let provider = chosen_provider(
            providers,
            claims.iss.unwrap_or(Seq::empty()),
            JwtAlgorithm::HS256,
        ).unwrap();
        built_token_is_judged_by_its_claims(
            providers,
            provider,
            sub,
            iss,
            secret,
            iat,
            exp,
            extra,
            now,
        );
    }
}

/// A token without extra claims carries the subject, issuer and times it was built with.
pub proof fn built_claims_are_kept(sub: Seq<char>, iss: Seq<char>, iat: i64, exp: i64)
    ensures
        ({
            let claims = claims_of(payload_members(sub, iss, iat as int, exp as int, None));
            &&& claims.sub == sub
            &&& claims.iss == Some(iss)
            &&& claims.iat == Some(iat as int)
            &&& claims.exp == Some(exp as int)
        }),
{
    lemma_plain_names();
    lemma_parse_dec_int(iat as int);
    lemma_parse_dec_int(exp as int);
    let all = base_list(sub, iss, iat as int, exp as int);
    let none = Seq::<(Seq<char>, FlatView)>::empty();
    assert(all.drop_last() =~= none.push(all[0]).push(all[1]).push(all[2]));
    assert(none.push(all[0]).push(all[1]).push(all[2]).drop_last() =~= none.push(all[0]).push(
        all[1],
    ));
    assert(none.push(all[0]).push(all[1]).drop_last() =~= none.push(all[0]));
    assert(none.push(all[0]).drop_last() =~= none);
    reveal_with_fuel(flat_members, 5);
    let m = flat_members(all);
    let raw = raw_members(m);
    assert(raw.contains_key("sub"@) && raw["sub"@] == sub);
    assert(raw.contains_key("iss"@) && raw["iss"@] == iss);
    assert(raw.contains_key("iat"@) && raw["iat"@] == dec_int(iat as int));
    assert(raw.contains_key("exp"@) && raw["exp"@] == dec_int(exp as int));
}

/// A token that was built with the secret of the only provider, names its issuer and a subject,
/// and has not expired, is accepted, and its claims are those it was built with.
pub proof fn built_token_is_accepted(
    provider: OAuthProvider,
    sub: Seq<char>,
    secret: Seq<u8>,
    iat: i64,
    exp: i64,
    now: int,
)
    requires
        is_plain(sub),
        sub.len() > 0,
        is_plain(provider.issuer@),
        token_is_read(
            signed_token(
                payload_text(sub, provider.issuer@, iat as int, exp as int, None),
                secret,
            ),
        ),
        provider.hs256_secret matches Some(s) && s@ == secret,
        provider.audience is None,
        now <= exp,
    ensures
        ({
            let r = validated(
                seq![provider],
                signed_token(
                    payload_text(sub, provider.issuer@, iat as int, exp as int, None),
                    secret,
                ),
                now,
            );
            r matches Ok(claims) && claims.sub == sub && claims.iss == Some(provider.issuer@)
                && claims.iat == Some(iat as int) && claims.exp == Some(exp as int)
        }),
{
    let iss = provider.issuer@;
    built_claims_are_kept(sub, iss, iat, exp);
    let providers = seq![provider];
    reveal_with_fuel(first_serving, 3);
    assert(providers.skip(1).len() == 0);
    built_token_is_judged_by_its_claims(
        providers,
        provider,
        sub,
        iss,
        secret,
        iat as int,
        exp as int,
        None,
        now,
    );
}

/// An accepted token carries, where all providers are of HS256, the signature of its header and
/// payload under the secret of one of them, whatever algorithm its header names.
pub proof fn acceptance_needs_a_shared_secret(
    providers: Seq<OAuthProvider>,
    token: Seq<char>,
    now: int,
)
    requires
        forall|i: int|
            0 <= i < providers.len() ==> (#[trigger] providers[i]).algorithm == JwtAlgorithm::HS256,
        validated(providers, token, now) is Ok,
    ensures
        token_parts(token) matches Some((h, p, sig)) && exists|i: int|
            0 <= i < providers.len() && ((#[trigger] providers[i]).hs256_secret matches Some(secret)
                && sig == hs256_signature(secret@, h, p)),
{
    let (h, p, sig) = token_parts(token).unwrap();
    let header = raw_members(members_in(base64url_decoded(h).unwrap()).unwrap());
    let claims = claims_of(members_in(base64url_decoded(p).unwrap()).unwrap());
    let alg = header_algorithm(header);
    let iss = claims.iss.unwrap_or(Seq::empty());
    let i = first_serving(providers, iss, alg);
    let j = if 0 <= i < providers.len() { i } else { 0 };
    assert(chosen_provider(providers, iss, alg) == Some(providers[j]));
    assert(signature_fault(h, p, sig, providers[j], alg) is None);
    assert(providers[j].algorithm == JwtAlgorithm::HS256);
}

/// A token without a supported algorithm is never accepted.
pub proof fn unsigned_token_is_refused(
    providers: Seq<OAuthProvider>,
    token: Seq<char>,
    now: int,
    header: Map<Seq<char>, JsonView>,
)
    requires
        token_parts(token) matches Some((h, _, _)) && base64url_decoded(h) matches Some(bytes)
            && members_in(bytes) == Some(header),
        header_algorithm(raw_members(header)) == JwtAlgorithm::NoSignature,
    ensures
        validated(providers, token, now) is Err,
{
}

/// An accepted HS256 token carries the signature of its header and payload under the secret of
/// one of the providers: any other signature is refused.
pub proof fn accepted_token_is_signed(
    providers: Seq<OAuthProvider>,
    token: Seq<char>,
    now: int,
    header: Map<Seq<char>, JsonView>,
)
    requires
        validated(providers, token, now) is Ok,
        token_parts(token) matches Some((h, _, _)) && base64url_decoded(h) matches Some(bytes)
            && members_in(bytes) == Some(header),
        header_algorithm(raw_members(header)) == JwtAlgorithm::HS256,
    ensures
        token_parts(token) matches Some((h, p, sig)) && exists|i: int|
            0 <= i < providers.len() && ((#[trigger] providers[i]).hs256_secret matches Some(secret)
                && sig == hs256_signature(secret@, h, p)),
{
    let (h, p, sig) = token_parts(token).unwrap();
    let claims = claims_of(members_in(base64url_decoded(p).unwrap()).unwrap());
    let iss = claims.iss.unwrap_or(Seq::empty());
    let i = first_serving(providers, iss, JwtAlgorithm::HS256);
    let j = if 0 <= i < providers.len() { i } else { 0 };
    assert(chosen_provider(providers, iss, JwtAlgorithm::HS256) == Some(providers[j]));
    assert(signature_fault(h, p, sig, providers[j], JwtAlgorithm::HS256) is None);
}

/// Accepted claims have not expired, name a subject, name no issuer that the provider does not
/// trust, and name the audience that the provider requires.
pub proof fn accepted_claims_hold(providers: Seq<OAuthProvider>, token: Seq<char>, now: int)
    requires
        validated(providers, token, now) is Ok,
    ensures
        validated(providers, token, now) matches Ok(claims) && {
            &&& !claims.expired_at(now)
            &&& claims.sub.len() > 0
            &&& exists|i: int|
                0 <= i < providers.len() && {
                    let provider = #[trigger] providers[i];
                    &&& claims.iss matches Some(iss) ==> provider.trusts(iss)
                    &&& provider.audience matches Some(aud) ==> claims.aud == Some(aud@)
                }
        },
{
    let (h, p, sig) = token_parts(token).unwrap();
    let header = raw_members(members_in(base64url_decoded(h).unwrap()).unwrap());
    let claims = claims_of(members_in(base64url_decoded(p).unwrap()).unwrap());
    let alg = header_algorithm(header);
    let iss = claims.iss.unwrap_or(Seq::empty());
    let i = first_serving(providers, iss, alg);
    let j = if 0 <= i < providers.len() { i } else { 0 };
    assert(chosen_provider(providers, iss, alg) == Some(providers[j]));
    assert(claims_fault(claims, providers[j], now) is None);
}

} // verus!
