//! One connection, from its first line to its account.
//!
//! The steps can only be taken in order: what a step needs is what an earlier one gave. Between
//! the steps the caller reads lines, looks up tenants, serves the request and sends answers.

use vstd::prelude::*;

use crate::degradation::DegradationMode;
use crate::documents::{document_text, lossy_text};
use crate::probes::ShutdownController;
use crate::response::{error_response, service_unavailable};
use crate::router::clean_path;
use crate::server::{
    accounted, authorized, bearer_in, counted, credential_of, dispatch, dispatched, field_pairs,
    fields_after, has_status, header_name, is_broken_message_path, length_after, lowercase,
    mode_refusal, open_to_all, parse_request_line, probe_answer, quota_exceeded, refused_by_mode,
    request_line, shadowable, turned_away, AuditEntry, Authorization, Clocks, Credential,
    CredentialView, Dispatch, Gateway, Headers,
};
use crate::text::{clone_opt, opt_view, trim_white};

verus! {

/// A request whose head is being read.
pub struct Request {
    pub method: String,
    pub target: String,
    pub headers: Headers,
}

/// A request that was let in, with its tenant, if it has one.
pub struct Call {
    request: Request,
    tenant: Option<String>,
}

/// A request that shows a token which is still to be looked up.
pub struct Pending {
    request: Request,
    token: String,
}

/// What comes of a request when it arrives.
pub enum Entry {
    /// It is answered at once.
    Answer(String),
    /// It is let in.
    Pass(Call),
    /// It shows a token: the caller looks up the tenant that has it.
    Lookup(Pending),
}

/// What comes of a token.
pub enum Identity {
    /// The holder is a tenant, whose quota is still to be checked.
    Tenant(Call),
    /// The holder is let in.
    Pass(Call),
    /// The holder of a validated token is let in, which is to be entered in the audit log.
    Validated(Call, AuditEntry),
    /// The holder is refused with this answer, which is to be entered in the audit log.
    Refused(String),
}

impl Request {
    /// The request that a first line begins; `None` where it names no target.
    pub fn begin(line: &str) -> (r: Option<Request>)
        ensures
            match r {
                Some(q) => request_line(line@) == Some((q.method@, q.target@))
                    && q.headers.content_length == 0 && q.headers.fields@.len() == 0,
                None => request_line(line@) is None,
            },
    {
        match parse_request_line(line) {
            Some((method, target)) => Some(Request { method, target, headers: Headers::new() }),
            None => None,
        }
    }

    /// Takes in one more line of the head; gives whether the head is complete.
    pub fn header(&mut self, line: &str) -> (r: bool)
        ensures
            final(self).method == old(self).method,
            final(self).target == old(self).target,
            r == (trim_white(line@).len() == 0),
            r ==> final(self).headers == old(self).headers,
            !r ==> final(self).headers.content_length == length_after(
                old(self).headers.content_length,
                lowercase(line@),
            ),
            !r ==> field_pairs(final(self).headers.fields@) == fields_after(
                field_pairs(old(self).headers.fields@),
                line@,
                lowercase(header_name(line@)),
            ),
    {
        self.headers.read_line(line)
    }

    /// What the request has to show for itself at a gateway with so many tenants.
    pub open spec fn credential(self, gate: Gateway, tenant_count: int) -> CredentialView {
        credential_of(
            gate.auth.key_hashes@.len() > 0,
            tenant_count,
            clean_path(self.target@),
            field_pairs(self.headers.fields@),
        )
    }

    /// The answer that the request gets before anything is asked of it, given whether its address
    /// is within the rate limit.
    pub open spec fn early_answer(self, gate: Gateway, allowed: bool, db_ok: bool) -> Option<
        Seq<char>,
    > {
        if !allowed {
            Some(error_response(429, "rate limit exceeded"@))
        } else {
            turned_away(
                gate.probes,
                gate.degradation,
                gate.shutdown,
                db_ok,
                self.method@,
                clean_path(self.target@),
            )
        }
    }

    /// Brings the request to the gateway at time `now`, in nanoseconds: it is admitted or answered,
    /// and then asked for a token where it needs one. A request that is answered here is not in
    /// flight.
    pub fn enter(
        self,
        gate: &mut Gateway,
        ip: &str,
        db_ok: bool,
        tenant_count: usize,
        now: u64,
    ) -> (r: Entry)
        ensures
            ({
                let early = self.early_answer(
                    *old(gate),
                    old(gate).allows(ip@, now),
                    db_ok,
                );
                &&& counted(*old(gate), *final(gate), ip@, now, early is None, !(r is Answer))
                &&& match early {
                    Some(x) => r matches Entry::Answer(s) && s@ == x,
                    None => match self.credential(*old(gate), tenant_count as int) {
                        CredentialView::NotNeeded => r matches Entry::Pass(c) && c.of() == self
                            && c.tenant_id() is None,
                        CredentialView::Token(t) => r matches Entry::Lookup(p) && p.of() == self
                            && p.shown() == t,
                        CredentialView::Missing(x) => r matches Entry::Answer(s) && s@ == x,
                    },
                }
            }),
            final(gate).shutdown == entered(old(gate).shutdown, r),
    {
        match gate.admit_at(ip, self.method.as_str(), self.target.as_str(), db_ok, now) {
            Some(answer) => Entry::Answer(answer),
            None => match gate.credential(
                self.target.as_str(),
                &self.headers,
                tenant_count,
            ) {
                Credential::NotNeeded => Entry::Pass(Call { request: self, tenant: None }),
                Credential::Token(token) => Entry::Lookup(Pending { request: self, token }),
                Credential::Missing(answer) => {
                    gate.shutdown.request_end();
                    Entry::Answer(answer)
                },
            },
        }
    }
}

/// The requests in flight after a request came in: one more, unless it was answered.
pub open spec fn entered(before: ShutdownController, r: Entry) -> ShutdownController {
    match r {
        Entry::Answer(_) => before,
        _ => before.started(),
    }
}

/// The requests in flight after a token was looked at: one less where it was refused.
pub open spec fn identified(before: ShutdownController, r: Identity) -> ShutdownController {
    match r {
        Identity::Refused(_) => before.ended(),
        _ => before,
    }
}

/// The requests in flight after a quota or the mode was checked: one less where the request was
/// answered.
pub open spec fn checked(before: ShutdownController, r: Result<Call, String>) -> ShutdownController {
    match r {
        Ok(_) => before,
        Err(_) => before.ended(),
    }
}

impl Pending {
    /// The request that shows the token.
    pub closed spec fn of(self) -> Request {
        self.request
    }

    /// The token that is shown.
    pub closed spec fn shown(self) -> Seq<char> {
        self.token@
    }

    /// The token that is shown.
    pub fn token(&self) -> (r: &String)
        ensures
            r@ == self.shown(),
    {
        &self.token
    }

    /// What comes of the token at time `now`, in Unix seconds, given the tenant that has it, if
    /// any. A tenant's token always makes the request the tenant's, even where it is an
    /// administrator's key as well. A request that is refused is no longer in flight.
    pub fn identify(self, gate: &mut Gateway, tenant: Option<String>, now: i64) -> (r: Identity)
        ensures
            *final(gate) == (Gateway {
                shutdown: identified(old(gate).shutdown, r),
                ..*old(gate)
            }),
            match authorized(old(gate).auth, old(gate).oauth, self.shown(), tenant is Some, now as int) {
                Err(x) => r matches Identity::Refused(s) && s@ == x,
                Ok(None) => if tenant is Some {
                    r matches Identity::Tenant(c) && c.of() == self.of() && c.tenant_id()
                        == opt_view(tenant)
                } else {
                    r matches Identity::Pass(c) && c.of() == self.of() && c.tenant_id() is None
                },
                Ok(Some(claims)) => r matches Identity::Validated(c, a) && c.of() == self.of()
                    && c.tenant_id() is None && opt_view(a.issuer) == claims.iss && a.subject@
                    == claims.sub,
            },
    {
        match gate.authorize_at(self.token.as_str(), tenant.is_some(), now) {
            Authorization::Refused(answer) => {
                gate.shutdown.request_end();
                Identity::Refused(answer)
            },
            Authorization::Validated(entry) => Identity::Validated(
                Call { request: self.request, tenant: None },
                entry,
            ),
            Authorization::Known => {
                if tenant.is_some() {
                    Identity::Tenant(Call { request: self.request, tenant })
                } else {
                    Identity::Pass(Call { request: self.request, tenant: None })
                }
            },
        }
    }
}

impl Call {
    /// The request that was let in.
    pub closed spec fn of(self) -> Request {
        self.request
    }

    /// The tenant that makes the request, if one does.
    pub closed spec fn tenant_id(self) -> Option<Seq<char>> {
        opt_view(self.tenant)
    }

    /// The request that was let in.
    pub fn request(&self) -> (r: &Request)
        ensures
            *r == self.of(),
    {
        &self.request
    }

    /// The tenant that makes the request, if one does.
    pub fn tenant(&self) -> (r: Option<String>)
        ensures
            opt_view(r) == self.tenant_id(),
    {
        clone_opt(&self.tenant)
    }

    /// Checks the tenant's quota: the request goes on, or is answered with what was exceeded and is
    /// no longer in flight.
    pub fn within_quota(self, gate: &mut Gateway, quota: &Result<(), String>) -> (r: Result<
        Call,
        String,
    >)
        ensures
            *final(gate) == (Gateway {
                shutdown: checked(old(gate).shutdown, r),
                ..*old(gate)
            }),
            match *quota {
                Ok(_) => r == Ok::<Call, String>(self),
                Err(e) => r matches Err(s) && s@ == error_response(429, e@),
            },
    {
        match quota {
            Ok(_) => Ok(self),
            Err(e) => {
                gate.shutdown.request_end();
                Err(quota_exceeded(e.as_str()))
            },
        }
    }

    /// Checks what the mode allows: the request goes on, or is answered and is no longer in flight.
    pub fn allowed(self, gate: &mut Gateway) -> (r: Result<Call, String>)
        ensures
            *final(gate) == (Gateway {
                shutdown: checked(old(gate).shutdown, r),
                ..*old(gate)
            }),
            match mode_refusal(
                old(gate).degradation.current(),
                dispatched(self.of().method@, self.of().target@, self.tenant_id() is Some),
            ) {
                Some(why) => r matches Err(s) && s@ == error_response(503, why),
                None => r == Ok::<Call, String>(self),
            },
    {
        match refused_by_mode(
            gate.degradation.mode(),
            self.request.method.as_str(),
            self.request.target.as_str(),
            self.tenant.is_some(),
        ) {
            Some(why) => {
                gate.shutdown.request_end();
                Err(service_unavailable(why))
            },
            None => Ok(self),
        }
    }

    /// Ends the request where it is not accounted for: it was not routed, or its body could not be
    /// read. It is no longer in flight, and nothing else changes.
    pub fn close(self, gate: &mut Gateway)
        ensures
            *final(gate) == (Gateway { shutdown: old(gate).shutdown.ended(), ..*old(gate) }),
    {
        gate.shutdown.request_end();
    }

    /// How many bytes of body are to be read.
    pub fn body_len(&self) -> (r: usize)
        ensures
            r == self.of().headers.content_length,
    {
        self.request.headers.content_length
    }

    /// The text of the body.
    pub fn body_text(&self, body: &[u8]) -> (r: String)
        ensures
            r@ == lossy_text(body@),
    {
        document_text(body)
    }

    /// What serves the request. A path whose parts overlap names no session and is not served.
    pub fn serve(&self) -> (r: Dispatch)
        requires
            self.of().method@ == "POST"@ ==> !is_broken_message_path(
                clean_path(self.of().target@),
            ),
        ensures
            r@ == dispatched(self.of().method@, self.of().target@, self.tenant_id() is Some),
    {
        dispatch(
            self.request.method.as_str(),
            self.request.target.as_str(),
            self.tenant.is_some(),
        )
    }

    /// Accounts for the request, once it was routed and answered; it is no longer in flight.
    pub fn finish(
        self,
        gate: &mut Gateway,
        body: &str,
        response: &str,
        latency_ms: u64,
        at: &Clocks,
    )
        requires
            has_status(response@),
            shadowable(response@),
        ensures
            accounted(
                *old(gate),
                *final(gate),
                self.of().method@,
                self.of().target@,
                body@,
                response@,
                latency_ms,
                self.tenant_id(),
                *at,
            ),
    {
        let tenant = match &self.tenant {
            Some(t) => Some(t.as_str()),
            None => None,
        };
        gate.account_at(
            self.request.method.as_str(),
            self.request.target.as_str(),
            body,
            response,
            latency_ms,
            tenant,
            at,
        );
    }
}

// ---------------------------------------------------------------------------
// Laws

/// Whoever is let in without showing a token made a request that is open to all, or
/// came to a gateway without keys and tenants.
pub proof fn only_open_requests_pass_unseen(q: Request, gate: Gateway, tenant_count: int)
    requires
        q.credential(gate, tenant_count) == CredentialView::NotNeeded,
    ensures
        open_to_all(clean_path(q.target@)) || (gate.auth.key_hashes@.len()
            == 0 && tenant_count <= 0),
{
}

/// However a request goes through, the requests in flight are then as before it came: it is
/// answered as it comes, its token is refused, its quota is exceeded, the mode does not allow it,
/// or it is served and then finished or closed. `e`, `i`, `q` and `a` are what came of it on the
/// way, as far as it went.
pub proof fn every_request_ends(
    c: ShutdownController,
    e: Entry,
    i: Identity,
    q: Result<Call, String>,
    a: Result<Call, String>,
)
    ensures
        match e {
            Entry::Answer(_) => entered(c, e) == c,
            Entry::Pass(_) => ends_as(c, entered(c, e), a),
            Entry::Lookup(_) => match i {
                Identity::Refused(_) => identified(entered(c, e), i) == c,
                Identity::Pass(_) => ends_as(c, identified(entered(c, e), i), a),
                Identity::Validated(_, _) => ends_as(c, identified(entered(c, e), i), a),
                Identity::Tenant(_) => match q {
                    Err(_) => checked(identified(entered(c, e), i), q) == c,
                    Ok(_) => ends_as(c, checked(identified(entered(c, e), i), q), a),
                },
            },
        },
{
    crate::probes::start_and_end_cancel(c);
}

/// Whether a request that was let in, with `now` in flight, leaves `before` in flight: once the
/// mode has refused it, or once it was served and ended.
pub open spec fn ends_as(
    before: ShutdownController,
    now: ShutdownController,
    a: Result<Call, String>,
) -> bool {
    match a {
        Err(_) => checked(now, a) == before,
        Ok(_) => checked(now, a).ended() == before,
    }
}

/// Where keys or tenants are configured, a request without a token is answered with status 401,
/// whatever the mode short of emergency, unless a probe answers it or it asks for the health
/// endpoint.
pub proof fn tokenless_requests_are_refused(
    q: Request,
    gate: Gateway,
    db_ok: bool,
    tenant_count: int,
)
    requires
        gate.auth.key_hashes@.len() > 0 || tenant_count > 0,
        gate.degradation.current() != DegradationMode::Emergency,
        !gate.shutdown.drain_started,
        probe_answer(gate.probes, true, db_ok, q.method@, clean_path(q.target@)) is None,
        clean_path(q.target@) != "/v1/health"@,
        bearer_in(field_pairs(q.headers.fields@)) is None,
    ensures
        q.early_answer(gate, true, db_ok) is None,
        q.credential(gate, tenant_count) == CredentialView::Missing(
            error_response(401, "missing bearer token"@),
        ),
{
}

/// A call of a tenant never reaches the administration of tenants.
pub proof fn tenant_calls_never_administer(c: Call)
    requires
        c.tenant_id() is Some,
    ensures
        !crate::server_laws::administers_tenants(
            dispatched(c.of().method@, c.of().target@, c.tenant_id() is Some),
        ),
{
    crate::server_laws::tenants_never_administer(c.of().method@, c.of().target@);
}

} // verus!
