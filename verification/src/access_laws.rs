//! Who is let in, and what a mode allows.

use vstd::prelude::*;

use crate::auth::{bearer_token_round_trip, own_keys_are_admitted, ApiKeyStore};
use crate::degradation::{DegradationMode, Priority};
use crate::json::is_plain;
use crate::oauth::{
    build_test_jwt_at, hs256_signature, verify_claims, verify_signature, JwtAlgorithm, JwtClaims,
    JwtError, OAuthProvider, OAuthValidator,
};
use crate::oauth_laws::{accepted_claims_hold, built_token_is_accepted};
use crate::server::{refused_by_mode, status_of, Authorization, Credential, Gateway, Headers};
use crate::slo::{worst_of, SloReport, SloStatus};
use crate::text::{is_white, opt_view, views};

verus! {

// ---------------------------------------------------------------------------
// Keys

/// A store lets in every key that it was made from.
pub proof fn keys_open_their_store(keys: &[&str], store: ApiKeyStore, i: int, r: bool)
    requires
        call_ensures(ApiKeyStore::new, (keys,), store),
        0 <= i < keys@.len(),
        call_ensures(ApiKeyStore::verify, (&store, keys@[i]), r),
    ensures
        r,
{
    own_keys_are_admitted(store, keys@, i);
}

/// The token of a header is what follows the word, for every token without white space around it.
pub proof fn bearers_are_extracted(header: &str, token: Seq<char>, r: Option<&str>)
    requires
        call_ensures(ApiKeyStore::extract_bearer, (header,), r),
        header@ == "Bearer "@ + token,
        !is_white(token[0]),
        !is_white(token.last()),
        token.len() > 0,
    ensures
        r matches Some(t) && t@ == token,
{
    bearer_token_round_trip(token);
}

/// A request to anything but the health endpoint has to show a token once there are keys or tenants;
/// without any it has not.
pub proof fn tokens_are_demanded(
    g: &Gateway,
    target: &str,
    headers: &Headers,
    tenants: usize,
    r: Credential,
)
    requires
        call_ensures(Gateway::credential, (g, target, headers, tenants), r),
    ensures
        r is NotNeeded <==> (g.auth.key_hashes@.len() == 0 && tenants == 0) || crate::router::clean_path(
            target@,
        ) == "/v1/health"@,
        r matches Credential::Missing(a) ==> status_of(a@) == 401,
{
    crate::dispatch_laws::errors_tell_what_is_wrong(401, "missing bearer token"@);
}

/// A tenant is let in, and so is an administrator's key; whoever is refused is answered with status
/// 401.
pub proof fn strangers_are_refused(
    g: &Gateway,
    token: &str,
    is_tenant: bool,
    now: i64,
    r: Authorization,
)
    requires
        call_ensures(Gateway::authorize_at, (g, token, is_tenant, now), r),
    ensures
        is_tenant ==> r is Known,
        g.auth.key_hashes@.len() > 0 && g.auth.admits(token@) ==> r is Known,
        r is Known ==> is_tenant || (g.auth.key_hashes@.len() > 0 && g.auth.admits(token@)),
        g.oauth.providers@.len() == 0 && !(r is Known) ==> r is Refused,
        r matches Authorization::Refused(a) ==> status_of(a@) == 401,
{
    crate::dispatch_laws::errors_tell_what_is_wrong(401, "invalid API key"@);
}

// ---------------------------------------------------------------------------
// Tokens

/// A token that was built with the secret of the only provider, for its issuer and a subject, is
/// accepted until it expires, with what it was built with.
pub proof fn built_tokens_are_accepted(
    v: &OAuthValidator,
    sub: &str,
    iss: &str,
    secret: &[u8],
    iat: i64,
    exp: i64,
    token: String,
    shown: &str,
    now: i64,
    r: Result<JwtClaims, JwtError>,
)
    requires
        call_ensures(build_test_jwt_at, (sub, iss, secret, iat, exp, None::<&[(&str, &str)]>), token),
        shown@ == token@,
        call_ensures(OAuthValidator::validate_at, (v, shown, now), r),
        v.providers@.len() == 1,
        v.providers@[0].issuer@ == iss@,
        v.providers@[0].hs256_secret matches Some(s) && s@ == secret@,
        v.providers@[0].audience is None,
        is_plain(sub@),
        is_plain(iss@),
        sub@.len() > 0,
        now <= exp,
    ensures
        r matches Ok(claims) && claims.sub@ == sub@ && opt_view(claims.iss) == Some(iss@)
            && claims.exp == Some(exp) && claims.iat == Some(iat),
{
    let provider = v.providers@[0];
    assert(v.providers@ =~= seq![provider]);
    built_token_is_accepted(provider, sub@, secret@, iat, exp, now as int);
}

/// Whatever is accepted has not expired and names a subject.
pub proof fn accepted_tokens_are_current(
    v: &OAuthValidator,
    token: &str,
    now: i64,
    r: Result<JwtClaims, JwtError>,
)
    requires
        call_ensures(OAuthValidator::validate_at, (v, token, now), r),
    ensures
        r matches Ok(claims) ==> claims.sub@.len() > 0 && (claims.exp matches Some(e) ==> now <= e),
        v.providers@.len() == 0 ==> r is Err,
{
    if r is Ok {
        accepted_claims_hold(v.providers@, token@, now as int);
    }
}

/// Claims pass exactly where they have not expired, their issuer is trusted where they name one,
/// they are for the audience where one is required, and they name a subject.
pub proof fn claims_pass_where_they_hold(
    claims: &JwtClaims,
    provider: &OAuthProvider,
    now: i64,
    r: Result<(), JwtError>,
)
    requires
        call_ensures(verify_claims, (claims, provider, now), r),
    ensures
        r is Ok <==> {
            &&& (claims.exp matches Some(e) ==> now <= e)
            &&& (opt_view(claims.iss) matches Some(iss) ==> provider.trusts(iss))
            &&& (opt_view(provider.audience) matches Some(aud) ==> opt_view(claims.aud) == Some(aud))
            &&& claims.sub@.len() > 0
        },
        claims.exp matches Some(e) ==> (e < now <==> r == Err::<(), _>(JwtError::TokenExpired)),
{
}

/// A signature with a shared secret passes exactly where it is that of the header and the payload
/// under the provider's secret; without an algorithm none passes.
pub proof fn signatures_pass_under_their_secret(
    h: &str,
    p: &str,
    sig: &str,
    provider: &OAuthProvider,
    r: Result<(), JwtError>,
    unsigned: Result<(), JwtError>,
)
    requires
        call_ensures(verify_signature, (h, p, sig, provider, JwtAlgorithm::HS256), r),
        call_ensures(verify_signature, (h, p, sig, provider, JwtAlgorithm::NoSignature), unsigned),
    ensures
        r is Ok <==> (provider.hs256_secret matches Some(s) && sig@ == hs256_signature(s@, h@, p@)),
        unsigned is Err,
{
}

/// A provider trusts an issuer once it was told to, and goes on trusting those it trusted.
pub proof fn trust_is_added(
    provider: OAuthProvider,
    iss: &str,
    told: OAuthProvider,
    other: &str,
    before: bool,
    after: bool,
    added: bool,
)
    requires
        call_ensures(OAuthProvider::trust_issuer, (provider, iss), told),
        call_ensures(OAuthProvider::is_trusted, (&told, iss), added),
        call_ensures(OAuthProvider::is_trusted, (&provider, other), before),
        call_ensures(OAuthProvider::is_trusted, (&told, other), after),
    ensures
        added,
        after <==> before || other@ == iss@,
{
    let was = views(provider.trusted_issuers@);
    let now = views(told.trusted_issuers@);
    assert(now == was.push(iss@));
    assert(now[was.len() as int] == iss@);
    if was.contains(other@) {
        let i = choose|i: int| 0 <= i < was.len() && was[i] == other@;
        assert(now[i] == other@);
    }
    if now.contains(other@) {
        let i = choose|i: int| 0 <= i < now.len() && now[i] == other@;
        if i < was.len() {
            assert(was[i] == other@);
        }
    }
}

// ---------------------------------------------------------------------------
// Modes

/// A mode allows nothing that a milder one does not, each takes something away, and reading is the
/// last to go.
pub proof fn modes_allow_less_and_less(
    m: DegradationMode,
    writes: bool,
    model: bool,
    reads: bool,
    workflows: bool,
)
    requires
        call_ensures(DegradationMode::allows_writes, (&m,), writes),
        call_ensures(DegradationMode::allows_llm, (&m,), model),
        call_ensures(DegradationMode::allows_reads, (&m,), reads),
        call_ensures(DegradationMode::allows_workflows, (&m,), workflows),
    ensures
        model ==> writes,
        writes <==> workflows,
        writes ==> reads,
        m == DegradationMode::Normal <==> model,
        m == DegradationMode::Degraded <==> writes && !model,
        m == DegradationMode::ReadOnly <==> reads && !writes,
        m == DegradationMode::Emergency <==> !reads,
{
}

/// A mode that is stored as a number is read back from it.
pub proof fn modes_are_read_back(m: DegradationMode, n: u8, r: DegradationMode)
    requires
        call_ensures(DegradationMode::as_u8, (&m,), n),
        call_ensures(DegradationMode::from_u8, (n,), r),
    ensures
        r == m,
{
}

/// A plan has the priority of its name, and any other name that of the lowest plan.
pub proof fn plans_have_their_priority(
    p: Priority,
    name: String,
    plan: &str,
    r: Priority,
    other: &str,
    s: Priority,
)
    requires
        call_ensures(Priority::text, (&p,), name),
        plan@ == name@,
        call_ensures(Priority::from_plan, (plan,), r),
        call_ensures(Priority::from_plan, (other,), s),
    ensures
        p == Priority::Starter || p == Priority::Pro || p == Priority::Enterprise ==> r == p,
        other@ != "pro"@ && other@ != "enterprise"@ ==> s == Priority::Starter,
{
    reveal_strlit("starter");
    reveal_strlit("pro");
    reveal_strlit("enterprise");
    assert("starter"@.len() == 7 && "pro"@.len() == 3 && "enterprise"@.len() == 10);
}

/// Nothing that is read is refused in any mode, and nothing is refused in normal mode.
pub proof fn reading_is_never_refused(
    mode: DegradationMode,
    method: &str,
    target: &str,
    from_tenant: bool,
    get: Option<&'static str>,
    normal: Option<&'static str>,
)
    requires
        call_ensures(refused_by_mode, (mode, "GET", target, from_tenant), get),
        call_ensures(refused_by_mode, (DegradationMode::Normal, method, target, from_tenant), normal),
    ensures
        get is None,
        normal is None,
{
    crate::server_laws::reads_are_let_through(mode, target@, from_tenant);
    crate::server_laws::reads_are_let_through(DegradationMode::Normal, target@, from_tenant);
}

/// How bad a status is.
pub open spec fn badness(s: SloStatus) -> int {
    match s {
        SloStatus::Good => 0,
        SloStatus::Warning => 1,
        SloStatus::Violated => 2,
    }
}

/// The worst status among reports is that of one of them, and none is worse; without reports it is
/// good.
pub proof fn worst_is_worst(all: &Vec<SloReport>, r: SloStatus)
    requires
        call_ensures(worst_of, (all,), r),
    ensures
        forall|i: int| 0 <= i < all@.len() ==> badness((#[trigger] all@[i]).status) <= badness(r),
        r == SloStatus::Good || exists|i: int|
            0 <= i < all@.len() && (#[trigger] all@[i]).status == r,
{
}

} // verus!
