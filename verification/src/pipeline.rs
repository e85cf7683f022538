//! The per-request pipeline.
//!
//! Every inbound request runs through the same stations: an `OPTIONS`
//! preflight is answered at once; otherwise the path is classified,
//! protected paths are authorized against the identity service, the
//! upstream target is resolved, the request is forwarded with the identity
//! envelope injected, and every outbound response receives the CORS
//! headers.  The functions here make all the decisions on plain values;
//! the surrounding binary only performs the network calls they ask for.
//!
//! The identity header of the inbound request is never trusted: whatever
//! arrives under that name is dropped, and the header is set afresh by the
//! gateway only after a successful verification.

use vstd::prelude::*;

use crate::classify::classify_spec;
use crate::classify::classify;
use crate::classify::PathClass;
use crate::identity::envelope_spec;
use crate::identity::extract_spec;
use crate::identity::extract;
use crate::identity::ReqUser;
use crate::identity::ReqUserView;
use crate::messages::error_body_spec;
use crate::messages::error_body;
use crate::resolve::opt_str_view;
use crate::resolve::resolve_spec;
use crate::resolve::resolve;
use crate::resolve::GatewayConfig;
use crate::resolve::UpstreamTarget;
use crate::text::str_eq;

verus! {

/// One HTTP header, name and value.
#[derive(Debug, Clone, PartialEq)]
pub struct Header {
    pub name: String,
    pub value: String,
}

/// Copies a header, fields and all.
fn clone_header(h: &Header) -> (r: Header)
    ensures
        r == *h,
{
    Header { name: h.name.clone(), value: h.value.clone() }
}

/// The inbound request, reduced to the plain values the pipeline reads:
/// the method, the path and query, the forwardable headers (as the HTTP
/// layer hands them over, names lowercased), and the two headers the
/// gateway itself inspects.
#[derive(Debug)]
pub struct InboundRequest {
    pub method: String,
    pub path: String,
    pub query: Option<String>,
    pub headers: Vec<Header>,
    pub cookie: Option<String>,
    pub user_agent: Option<String>,
}

/// A response the gateway sends: status, headers and body.
#[derive(Debug, Clone, PartialEq)]
pub struct GatewayResponse {
    pub status: u16,
    pub headers: Vec<Header>,
    pub body: String,
}

/// A response an upstream service gave, to be relayed verbatim.
#[derive(Debug)]
pub struct UpstreamResponse {
    pub status: u16,
    pub headers: Vec<Header>,
    pub body: String,
}

/// View of an optional owned string.
pub open spec fn opt_string_view(q: Option<String>) -> Option<Seq<char>> {
    match q {
        Some(s) => Some(s@),
        None => None,
    }
}

// ---------------------------------------------------------------------
// The identity header: scrubbing and injection
// ---------------------------------------------------------------------

/// The name under which the envelope travels to the upstream services.
pub open spec fn identity_header_name() -> Seq<char> {
    "user"@
}

/// No header in the sequence carries the identity name.
pub open spec fn no_identity_header(hs: Seq<Header>) -> bool {
    forall|i: int| 0 <= i < hs.len() ==> hs[i].name@ != identity_header_name()
}

/// The headers with every identity header removed, order otherwise kept.
pub open spec fn scrub_spec(hs: Seq<Header>) -> Seq<Header>
    decreases hs.len(),
{
    if hs.len() == 0 {
        Seq::empty()
    } else {
        let rest = scrub_spec(hs.drop_last());
        if hs.last().name@ == identity_header_name() {
            rest
        } else {
            rest.push(hs.last())
        }
    }
}

/// Law: after scrubbing, no identity header is left.  A client-supplied
/// identity header therefore never reaches an upstream service.
pub proof fn lemma_scrub_removes_identity(hs: Seq<Header>)
    ensures
        no_identity_header(scrub_spec(hs)),
    decreases hs.len(),
{
    if hs.len() > 0 {
        lemma_scrub_removes_identity(hs.drop_last());
    }
}

/// Removes every identity header from the inbound header list.
fn scrub_headers(hs: &Vec<Header>) -> (out: Vec<Header>)
    ensures
        out@ == scrub_spec(hs@),
        no_identity_header(out@),
{
    let mut out: Vec<Header> = Vec::new();
    let mut i: usize = 0;
    proof {
        assert(hs@.subrange(0, 0) =~= Seq::<Header>::empty());
    }
    while i < hs.len()
        invariant
            i <= hs@.len(),
            out@ == scrub_spec(hs@.subrange(0, i as int)),
        decreases hs@.len() - i,
    {
        let ghost pre = hs@.subrange(0, i as int);
        let h = &hs[i];
        proof {
            assert(hs@.subrange(0, i + 1 as int).drop_last() =~= pre);
            assert(hs@.subrange(0, i + 1 as int).last() == hs@[i as int]);
        }
        if !str_eq(h.name.as_str(), "user") {
            out.push(clone_header(h));
        }
        i = i + 1;
    }
    proof {
        assert(hs@.subrange(0, hs@.len() as int) =~= hs@);
        lemma_scrub_removes_identity(hs@);
    }
    out
}

// ---------------------------------------------------------------------
// CORS post-processing
// ---------------------------------------------------------------------

/// The allowed origin: the dashboard in production, the local development
/// origin otherwise.
pub open spec fn cors_origin_spec(prod: bool) -> Seq<char> {
    if prod {
        "https://dashboard.milkyweb.app"@
    } else {
        "http://localhost:3000"@
    }
}

/// `new` is `old` with the four CORS headers appended, in order.
pub open spec fn corsified(old_headers: Seq<Header>, new_headers: Seq<Header>, prod: bool) -> bool {
    let n = old_headers.len() as int;
    &&& new_headers.len() == old_headers.len() + 4
    &&& new_headers.subrange(0, n) == old_headers
    &&& new_headers[n].name@ == "Access-Control-Allow-Origin"@
    &&& new_headers[n].value@ == cors_origin_spec(prod)
    &&& new_headers[n + 1].name@ == "Access-Control-Allow-Headers"@
    &&& new_headers[n + 1].value@ == "Cookie, Content-Type"@
    &&& new_headers[n + 2].name@ == "Access-Control-Allow-Methods"@
    &&& new_headers[n + 2].value@ == "POST, GET, DELETE, PUT, OPTIONS"@
    &&& new_headers[n + 3].name@ == "Access-Control-Allow-Credentials"@
    &&& new_headers[n + 3].value@ == "true"@
}

/// The four CORS headers, in the order they are appended.
pub fn cors_headers(prod: bool) -> (hs: Vec<Header>)
    ensures
        corsified(Seq::empty(), hs@, prod),
{
    let origin = if prod {
        "https://dashboard.milkyweb.app"
    } else {
        "http://localhost:3000"
    };
    let mut hs: Vec<Header> = Vec::new();
    hs.push(Header {
        name: String::from_str("Access-Control-Allow-Origin"),
        value: String::from_str(origin),
    });
    hs.push(Header {
        name: String::from_str("Access-Control-Allow-Headers"),
        value: String::from_str("Cookie, Content-Type"),
    });
    hs.push(Header {
        name: String::from_str("Access-Control-Allow-Methods"),
        value: String::from_str("POST, GET, DELETE, PUT, OPTIONS"),
    });
    hs.push(Header {
        name: String::from_str("Access-Control-Allow-Credentials"),
        value: String::from_str("true"),
    });
    proof {
        assert(hs@.subrange(0, 0) =~= Seq::<Header>::empty());
    }
    hs
}

/// Appends the CORS headers to a response; everything else is untouched.
pub fn corsify(res: &mut GatewayResponse, prod: bool)
    ensures
        final(res).status == old(res).status,
        final(res).body == old(res).body,
        corsified(old(res).headers@, final(res).headers@, prod),
{
    let ghost before = res.headers@;
    let mut extra = cors_headers(prod);
    let ghost extra_view = extra@;
    res.headers.append(&mut extra);
    proof {
        assert(res.headers@.subrange(0, before.len() as int) =~= before);
        assert(res.headers@ == before + extra_view);
        assert(extra_view.subrange(0, 0) =~= Seq::<Header>::empty());
    }
}

// ---------------------------------------------------------------------
// Authorization outcome
// ---------------------------------------------------------------------

/// What the verification side-call yields: the envelope from a 2xx answer
/// whose body decodes, nothing from everything else.  A missing answer
/// (connection failure or timeout) yields nothing as well: the gateway
/// fails closed.
pub open spec fn verify_outcome_spec(resp: Option<(u16, Seq<char>)>) -> Option<ReqUserView> {
    match resp {
        Some(p) => if 200 <= p.0 < 300 {
            extract_spec(p.1)
        } else {
            None
        },
        None => None,
    }
}

/// Decodes the identity service's answer, as `verify_outcome_spec`
/// describes.
pub fn verify_outcome(resp: Option<(u16, String)>) -> (r: Option<ReqUser>)
    ensures
        (match r {
            Some(u) => verify_outcome_spec(
                match resp {
                    Some(p) => Some((p.0, p.1@)),
                    None => None,
                },
            ) == Some(u@),
            None => verify_outcome_spec(
                match resp {
                    Some(p) => Some((p.0, p.1@)),
                    None => None,
                },
            ) is None,
        }),
{
    match resp {
        Some(p) => {
            if 200 <= p.0 && p.0 < 300 {
                extract(p.1)
            } else {
                None
            }
        },
        None => None,
    }
}

// ---------------------------------------------------------------------
// Access log
// ---------------------------------------------------------------------

/// One access-log line: status, method, URI and the quoted user agent,
/// written after the response is ready so the status is the real outcome.
pub open spec fn log_line_spec(
    status: u16,
    method: Seq<char>,
    uri: Seq<char>,
    user_agent: Option<Seq<char>>,
) -> Seq<char> {
    let ua = match user_agent {
        Some(u) => u,
        None => Seq::empty(),
    };
    "[Logger] "@ + crate::codec::dec_int(status as int) + " "@ + method + " "@ + uri + " \""@ + ua
        + "\""@
}

/// Renders one access-log line, as `log_line_spec` describes.
pub fn log_line(status: u16, method: &str, uri: &str, user_agent: Option<&str>) -> (r: String)
    ensures
        r@ == log_line_spec(status, method@, uri@, opt_str_view(user_agent)),
{
    let mut out = String::from_str("[Logger] ");
    crate::codec::push_i32_dec(&mut out, status as i32);
    out.append(" ");
    out.append(method);
    out.append(" ");
    out.append(uri);
    out.append(" \"");
    if let Some(ua) = user_agent {
        out.append(ua);
    }
    out.append("\"");
    proof {
        assert(out@ =~= log_line_spec(status, method@, uri@, opt_str_view(user_agent)));
    }
    out
}

// ---------------------------------------------------------------------
// Decisions
// ---------------------------------------------------------------------

/// What the gateway decides for a request before any outside call: answer
/// the preflight, reject an internal path, forward a public path, ask the
/// identity service, or reject for want of credentials.
pub enum Decision {
    ShortCircuitOptions,
    RejectInternal,
    ForwardPublic,
    AskVerify,
    Unauthorized,
}

/// The decision for a request: `OPTIONS` is answered at once; otherwise
/// internal-only paths are rejected, public paths forwarded, and protected
/// paths authorized — with a cookie by asking the identity service,
/// without one by immediate rejection.
pub open spec fn decide_spec(method: Seq<char>, path: Seq<char>, has_cookie: bool) -> Decision {
    if method == "OPTIONS"@ {
        Decision::ShortCircuitOptions
    } else {
        match classify_spec(path) {
            PathClass::InternalOnly => Decision::RejectInternal,
            PathClass::Public => Decision::ForwardPublic,
            PathClass::Protected => if has_cookie {
                Decision::AskVerify
            } else {
                Decision::Unauthorized
            },
        }
    }
}

/// Body of the not-found answer: it echoes only the caller's own path.
pub open spec fn not_found_body_spec(path: Seq<char>) -> Seq<char> {
    error_body_spec("uri: "@ + path + " is not valid"@)
}

/// The message of the unauthorized answer.
pub open spec fn unauthorized_message() -> Seq<char> {
    "You are not authorized! Login before accessing this resource."@
}

/// A bare not-found response for `path`, before CORS post-processing.
pub open spec fn is_not_found_response(r: GatewayResponse, path: Seq<char>) -> bool {
    r.status == 404 && r.headers@.len() == 0 && r.body@ == not_found_body_spec(path)
}

/// A bare unauthorized response, before CORS post-processing.
pub open spec fn is_unauthorized_response(r: GatewayResponse) -> bool {
    r.status == 401 && r.headers@.len() == 0 && r.body@ == error_body_spec(unauthorized_message())
}

/// A bare empty OK response, before CORS post-processing.
pub open spec fn is_options_response(r: GatewayResponse) -> bool {
    r.status == 200 && r.headers@.len() == 0 && r.body@.len() == 0
}

/// View of the envelope a forward carries, if any.
pub open spec fn opt_ref_user_view(identity: Option<&ReqUser>) -> Option<ReqUserView> {
    match identity {
        Some(u) => Some(u@),
        None => None,
    }
}

/// How a request is forwarded: the resolved target, the full URI, and the
/// outbound headers.  The method, body and query travel unchanged beside
/// this plan.
#[derive(Debug)]
pub struct ForwardPlan {
    pub target: UpstreamTarget,
    pub uri: String,
    pub headers: Vec<Header>,
}

/// A well-formed forward plan for `req` carrying `identity`: the target is
/// what the resolver gives, the URI is the target's base URI and rewritten
/// path, and the outbound headers are the inbound ones with every identity
/// header dropped — plus, when an envelope is carried, exactly one fresh
/// identity header holding its serialized form, at the end.
pub open spec fn is_forward_plan(
    plan: ForwardPlan,
    config: GatewayConfig,
    req: InboundRequest,
    identity: Option<ReqUserView>,
) -> bool {
    &&& resolve_spec(req.path@, opt_string_view(req.query)) == Some(
        (plan.target.service, plan.target.path_query@),
    )
    &&& plan.target.base_uri@ == (if plan.target.service is Payments {
        config.payments_uri@
    } else {
        config.crud_uri@
    })
    &&& plan.uri@ == plan.target.base_uri@ + plan.target.path_query@
    &&& (match identity {
        None => plan.headers@ == scrub_spec(req.headers@),
        Some(u) => {
            &&& plan.headers@.len() == scrub_spec(req.headers@).len() + 1
            &&& plan.headers@.subrange(0, plan.headers@.len() - 1) == scrub_spec(req.headers@)
            &&& plan.headers@.last().name@ == identity_header_name()
            &&& plan.headers@.last().value@ == envelope_spec(u)
        },
    })
}

/// What the pipeline asks of the surrounding binary next: send a response,
/// make the verification side-call, or forward to the upstream target.
#[derive(Debug)]
pub enum Step {
    Respond(GatewayResponse),
    CallVerify { verify_uri: String, cookie: String },
    Forward(ForwardPlan),
}

/// A bare not-found response echoing `path`.
fn not_found_response(path: &str) -> (r: GatewayResponse)
    ensures
        is_not_found_response(r, path@),
{
    let mut m = String::from_str("uri: ");
    m.append(path);
    m.append(" is not valid");
    proof {
        assert(m@ =~= "uri: "@ + path@ + " is not valid"@);
    }
    GatewayResponse { status: 404, headers: Vec::new(), body: error_body(m.as_str()) }
}

/// A bare unauthorized response.
fn unauthorized_response() -> (r: GatewayResponse)
    ensures
        is_unauthorized_response(r),
{
    GatewayResponse {
        status: 401,
        headers: Vec::new(),
        body: error_body("You are not authorized! Login before accessing this resource."),
    }
}

/// The response for a failed forward: a bare 500 with an empty body.  The
/// forward is not retried — it may not have been idempotent.
pub fn forward_error_response() -> (r: GatewayResponse)
    ensures
        r.status == 500,
        r.headers@.len() == 0,
        r.body@.len() == 0,
{
    GatewayResponse { status: 500, headers: Vec::new(), body: String::new() }
}

/// Builds the forward plan for `req` carrying `identity`, or nothing when
/// no upstream matches the path.
fn build_forward(config: &GatewayConfig, req: &InboundRequest, identity: Option<&ReqUser>) -> (r:
    Option<ForwardPlan>)
    ensures
        (match r {
            Some(plan) => is_forward_plan(plan, *config, *req, opt_ref_user_view(identity)),
            None => resolve_spec(req.path@, opt_string_view(req.query)) is None,
        }),
{
    let q: Option<&str> = match &req.query {
        Some(s) => Some(s.as_str()),
        None => None,
    };
    proof {
        assert(opt_str_view(q) == opt_string_view(req.query));
    }
    match resolve(config, req.path.as_str(), q) {
        Some(target) => {
            let uri = target.base_uri.clone().concat(target.path_query.as_str());
            let mut headers = scrub_headers(&req.headers);
            let ghost scrubbed = headers@;
            match identity {
                Some(u) => {
                    let value = crate::identity::serialize_identity(u);
                    headers.push(Header { name: String::from_str("user"), value });
                    proof {
                        assert(headers@.subrange(0, headers@.len() - 1) =~= scrubbed);
                    }
                },
                None => {},
            }
            Some(ForwardPlan { target, uri, headers })
        },
        None => None,
    }
}

/// Plans the handling of a fresh request, before any outside call.
///
/// An `OPTIONS` request is answered at once and reaches neither the
/// classifier nor any upstream.  An internal-only path receives the same
/// not-found answer as an unresolvable one, whatever credentials came
/// along.  A public path is forwarded without any identity.  A protected
/// path leads to the verification side-call when a cookie is present, and
/// is rejected outright when none is.
pub fn plan_request(config: &GatewayConfig, req: &InboundRequest) -> (r: Step)
    ensures
        ({
            let d = decide_spec(req.method@, req.path@, req.cookie is Some);
            match r {
                Step::Respond(resp) => {
                    ||| (d is ShortCircuitOptions && is_options_response(resp))
                    ||| (d is RejectInternal && is_not_found_response(resp, req.path@))
                    ||| (d is Unauthorized && is_unauthorized_response(resp))
                    ||| (d is ForwardPublic && resolve_spec(req.path@, opt_string_view(req.query))
                        is None && is_not_found_response(resp, req.path@))
                },
                Step::CallVerify { verify_uri, cookie } => d is AskVerify && verify_uri@
                    == config.crud_uri@ + "/verify"@ && (match req.cookie {
                    Some(c) => cookie@ == c@,
                    None => false,
                }),
                Step::Forward(plan) => d is ForwardPublic && is_forward_plan(
                    plan,
                    *config,
                    *req,
                    None,
                ) && no_identity_header(plan.headers@),
            }
        }),
{
    if str_eq(req.method.as_str(), "OPTIONS") {
        return Step::Respond(
            GatewayResponse { status: 200, headers: Vec::new(), body: String::new() },
        );
    }
    match classify(req.path.as_str()) {
        PathClass::InternalOnly => Step::Respond(not_found_response(req.path.as_str())),
        PathClass::Public => {
            match build_forward(config, req, None) {
                Some(plan) => {
                    proof {
                        lemma_scrub_removes_identity(req.headers@);
                    }
                    Step::Forward(plan)
                },
                None => Step::Respond(not_found_response(req.path.as_str())),
            }
        },
        PathClass::Protected => {
            match &req.cookie {
                Some(c) => Step::CallVerify {
                    verify_uri: config.crud_uri.clone().concat("/verify"),
                    cookie: c.clone(),
                },
                None => Step::Respond(unauthorized_response()),
            }
        },
    }
}

/// Resumes a protected request once the verification outcome is known: a
/// verified envelope is forwarded (with the envelope injected), anything
/// else is rejected — never forwarded.
pub fn resume_after_verify(config: &GatewayConfig, req: &InboundRequest, outcome: Option<
    ReqUser,
>) -> (r: Step)
    ensures
        (match r {
            Step::Respond(resp) => {
                ||| (outcome is None && is_unauthorized_response(resp))
                ||| (outcome is Some && resolve_spec(req.path@, opt_string_view(req.query)) is None
                    && is_not_found_response(resp, req.path@))
            },
            Step::CallVerify { verify_uri, cookie } => false,
            Step::Forward(plan) => outcome is Some && is_forward_plan(
                plan,
                *config,
                *req,
                Some(outcome->0@),
            ),
        }),
{
    match outcome {
        Some(user) => {
            match build_forward(config, req, Some(&user)) {
                Some(plan) => Step::Forward(plan),
                None => Step::Respond(not_found_response(req.path.as_str())),
            }
        },
        None => Step::Respond(unauthorized_response()),
    }
}

// ---------------------------------------------------------------------
// Driving a whole request
// ---------------------------------------------------------------------

/// The outcome of a whole request: the final response, which outside
/// calls were made and with what, and the forward plan if one was carried
/// out.  The verification call is recorded as its URI and the cookie it
/// forwarded.
#[derive(Debug)]
pub struct HandledRequest {
    pub response: GatewayResponse,
    pub called_verify: bool,
    pub called_upstream: bool,
    pub verify_call: Option<(String, String)>,
    pub forward: Option<ForwardPlan>,
}

/// Relays the upstream's answer verbatim — or a bare 500 when the forward
/// failed — and appends the CORS headers.
fn relay(upstream_resp: Option<UpstreamResponse>, prod: bool) -> (r: GatewayResponse)
    ensures
        (match upstream_resp {
            Some(u) => r.status == u.status && r.body@ == u.body@ && corsified(
                u.headers@,
                r.headers@,
                prod,
            ),
            None => r.status == 500 && r.body@.len() == 0 && corsified(
                Seq::empty(),
                r.headers@,
                prod,
            ),
        }),
{
    match upstream_resp {
        Some(u) => {
            let mut resp = GatewayResponse { status: u.status, headers: u.headers, body: u.body };
            corsify(&mut resp, prod);
            resp
        },
        None => {
            let mut resp = forward_error_response();
            proof {
                assert(resp.headers@ =~= Seq::<Header>::empty());
            }
            corsify(&mut resp, prod);
            resp
        },
    }
}

/// Drives one request through the whole pipeline, given what the two
/// collaborators would answer: `verify_resp` is the identity service's
/// status and body (nothing on connection failure or timeout), and
/// `upstream_resp` is the upstream's answer to a forward (nothing on
/// connection failure).  The flags say which calls were actually made; an
/// answer for a call that was never made is ignored.
pub fn handle_request(
    config: &GatewayConfig,
    req: &InboundRequest,
    verify_resp: Option<(u16, String)>,
    upstream_resp: Option<UpstreamResponse>,
) -> (h: HandledRequest)
    ensures
        ({
            let d = decide_spec(req.method@, req.path@, req.cookie is Some);
            let auth = verify_outcome_spec(
                match verify_resp {
                    Some(p) => Some((p.0, p.1@)),
                    None => None,
                },
            );
            let resolved = resolve_spec(req.path@, opt_string_view(req.query));
            let wants_forward = d is ForwardPublic || (d is AskVerify && auth is Some);
            &&& h.called_verify == d is AskVerify
            &&& h.called_upstream == (wants_forward && resolved is Some)
            &&& h.verify_call is Some <==> h.called_verify
            &&& (match h.verify_call {
                Some(vc) => vc.0@ == config.crud_uri@ + "/verify"@ && (match req.cookie {
                    Some(c) => vc.1@ == c@,
                    None => false,
                }),
                None => true,
            })
            &&& h.forward is Some <==> h.called_upstream
            &&& (d is ShortCircuitOptions ==> h.response.status == 200 && h.response.body@.len()
                == 0 && corsified(Seq::empty(), h.response.headers@, config.prod))
            &&& (d is RejectInternal ==> h.response.status == 404 && h.response.body@
                == not_found_body_spec(req.path@) && corsified(
                Seq::empty(),
                h.response.headers@,
                config.prod,
            ))
            &&& (d is Unauthorized || (d is AskVerify && auth is None) ==> h.response.status == 401
                && h.response.body@ == error_body_spec(unauthorized_message()) && corsified(
                Seq::empty(),
                h.response.headers@,
                config.prod,
            ))
            &&& (wants_forward && resolved is None ==> h.response.status == 404
                && h.response.body@ == not_found_body_spec(req.path@) && corsified(
                Seq::empty(),
                h.response.headers@,
                config.prod,
            ))
            &&& (h.called_upstream ==> (match h.forward {
                Some(plan) => is_forward_plan(
                    plan,
                    *config,
                    *req,
                    if d is AskVerify {
                        auth
                    } else {
                        None
                    },
                ) && (d is ForwardPublic ==> no_identity_header(plan.headers@)),
                None => false,
            }))
            &&& (h.called_upstream ==> (match upstream_resp {
                Some(u) => h.response.status == u.status && h.response.body@ == u.body@
                    && corsified(u.headers@, h.response.headers@, config.prod),
                None => h.response.status == 500 && h.response.body@.len() == 0 && corsified(
                    Seq::empty(),
                    h.response.headers@,
                    config.prod,
                ),
            }))
        }),
{
    let step = plan_request(config, req);
    match step {
        Step::Respond(mut resp) => {
            proof {
                assert(resp.headers@ =~= Seq::<Header>::empty());
            }
            corsify(&mut resp, config.prod);
            HandledRequest {
                response: resp,
                called_verify: false,
                called_upstream: false,
                verify_call: None,
                forward: None,
            }
        },
        Step::CallVerify { verify_uri, cookie } => {
            let outcome = verify_outcome(verify_resp);
            match resume_after_verify(config, req, outcome) {
                Step::Respond(mut resp) => {
                    proof {
                        assert(resp.headers@ =~= Seq::<Header>::empty());
                    }
                    corsify(&mut resp, config.prod);
                    HandledRequest {
                        response: resp,
                        called_verify: true,
                        called_upstream: false,
                        verify_call: Some((verify_uri, cookie)),
                        forward: None,
                    }
                },
                Step::Forward(plan) => {
                    let response = relay(upstream_resp, config.prod);
                    HandledRequest {
                        response,
                        called_verify: true,
                        called_upstream: true,
                        verify_call: Some((verify_uri, cookie)),
                        forward: Some(plan),
                    }
                },
                Step::CallVerify { verify_uri: v, cookie: c } => vstd::pervasive::unreached(),
            }
        },
        Step::Forward(plan) => {
            let response = relay(upstream_resp, config.prod);
            HandledRequest {
                response,
                called_verify: false,
                called_upstream: true,
                verify_call: None,
                forward: Some(plan),
            }
        },
    }
}

// ---------------------------------------------------------------------
// Laws
// ---------------------------------------------------------------------

/// Law: a path matching an internal-only pattern is rejected with the
/// not-found decision whatever credentials the request carries — with or
/// without a cookie alike.
pub proof fn lemma_internal_only_always_rejected(method: Seq<char>, path: Seq<char>)
    requires
        classify_spec(path) is InternalOnly,
        method != "OPTIONS"@,
    ensures
        decide_spec(method, path, true) is RejectInternal,
        decide_spec(method, path, false) is RejectInternal,
{
}

/// Law: a public path is forwarded even without any cookie; no identity is
/// ever attached to such a forward, as `plan_request` guarantees.
pub proof fn lemma_public_forwarded_without_cookie(method: Seq<char>, path: Seq<char>)
    requires
        classify_spec(path) is Public,
        method != "OPTIONS"@,
    ensures
        decide_spec(method, path, false) is ForwardPublic,
        decide_spec(method, path, true) is ForwardPublic,
{
}

/// Law: when the identity service answers with anything but a 2xx — or
/// does not answer at all — a protected request is rejected and never
/// forwarded: the gateway fails closed.
pub proof fn lemma_failed_verification_is_rejected(resp: Option<(u16, Seq<char>)>)
    requires
        (match resp {
            Some(p) => !(200 <= p.0 < 300),
            None => true,
        }),
    ensures
        verify_outcome_spec(resp) is None,
{
}

/// Law: the only decision that forwards without verification is the one
/// for public paths — a protected path is never forwarded straight away,
/// and an internal-only path never at all.
pub proof fn lemma_no_unverified_forward(method: Seq<char>, path: Seq<char>, has_cookie: bool)
    ensures
        decide_spec(method, path, has_cookie) is ForwardPublic ==> classify_spec(path) is Public,
        classify_spec(path) is Protected ==> !(decide_spec(method, path, has_cookie)
            is ForwardPublic),
        classify_spec(path) is InternalOnly ==> !(decide_spec(method, path, has_cookie)
            is ForwardPublic) && !(decide_spec(method, path, has_cookie) is AskVerify),
{
}

/// Law: an authorized forward carries exactly one identity header — the
/// one the gateway set, at the end, holding the serialized envelope; every
/// earlier header is not an identity header, whatever the client sent.
pub proof fn lemma_exactly_one_identity_header(
    plan: ForwardPlan,
    config: GatewayConfig,
    req: InboundRequest,
    u: ReqUserView,
)
    requires
        is_forward_plan(plan, config, req, Some(u)),
    ensures
        plan.headers@.len() >= 1,
        plan.headers@.last().name@ == identity_header_name(),
        plan.headers@.last().value@ == envelope_spec(u),
        forall|i: int|
            0 <= i < plan.headers@.len() - 1 ==> plan.headers@[i].name@ != identity_header_name(),
{
    lemma_scrub_removes_identity(req.headers@);
    let scrubbed = scrub_spec(req.headers@);
    assert forall|i: int|
        0 <= i < plan.headers@.len() - 1 implies plan.headers@[i].name@
        != identity_header_name() by {
        assert(plan.headers@.subrange(0, plan.headers@.len() - 1)[i] == plan.headers@[i]);
        assert(scrubbed[i].name@ != identity_header_name());
    }
}

/// Law: the envelope attached to an authorized forward decodes back to
/// exactly the envelope the identity service returned.
pub proof fn lemma_forwarded_identity_round_trips(u: ReqUserView)
    requires
        -0x8000_0000 <= u.id < 0x8000_0000,
    ensures
        extract_spec(envelope_spec(u)) == Some(u),
{
    crate::identity::lemma_envelope_round_trip(u);
}

} // verus!
