use gateway::identity::{extract, serialize_identity, ReqUser, Role};
use gateway::pipeline::{
    handle_request, plan_request, resume_after_verify, verify_outcome, GatewayResponse, Header,
    InboundRequest, Step, UpstreamResponse,
};
use gateway::resolve::GatewayConfig;

fn config() -> GatewayConfig {
    GatewayConfig::new(false, None, None)
}

fn request(method: &str, path: &str, cookie: Option<&str>) -> InboundRequest {
    InboundRequest {
        method: method.to_string(),
        path: path.to_string(),
        query: None,
        headers: vec![header("accept", "*/*")],
        cookie: cookie.map(|c| c.to_string()),
        user_agent: Some("test-agent".to_string()),
    }
}

fn header(name: &str, value: &str) -> Header {
    Header {
        name: name.to_string(),
        value: value.to_string(),
    }
}

fn upstream(status: u16, body: &str) -> UpstreamResponse {
    UpstreamResponse {
        status,
        headers: vec![header("content-type", "application/json")],
        body: body.to_string(),
    }
}

fn envelope_json() -> String {
    serialize_identity(&ReqUser {
        id: 10,
        account_id: "account_id".to_string(),
        role: Role::User,
    })
}

fn cors_names(r: &GatewayResponse) -> Vec<&str> {
    r.headers
        .iter()
        .filter(|h| h.name.starts_with("Access-Control-"))
        .map(|h| h.name.as_str())
        .collect()
}

fn assert_has_cors(r: &GatewayResponse, prod: bool) {
    let names = cors_names(r);
    assert_eq!(
        names,
        vec![
            "Access-Control-Allow-Origin",
            "Access-Control-Allow-Headers",
            "Access-Control-Allow-Methods",
            "Access-Control-Allow-Credentials",
        ]
    );
    let origin = &r
        .headers
        .iter()
        .find(|h| h.name == "Access-Control-Allow-Origin")
        .unwrap()
        .value;
    if prod {
        assert_eq!(origin, "https://dashboard.milkyweb.app");
    } else {
        assert_eq!(origin, "http://localhost:3000");
    }
}

#[test]
fn scenario_a_options_short_circuits() {
    let h = handle_request(&config(), &request("OPTIONS", "/anything", None), None, None);
    assert_eq!(h.response.status, 200);
    assert_eq!(h.response.body, "");
    assert_has_cors(&h.response, false);
    assert!(!h.called_verify);
    assert!(!h.called_upstream);
}

#[test]
fn options_with_cookie_still_short_circuits() {
    let h = handle_request(
        &config(),
        &request("OPTIONS", "/widgets", Some("session=s3cr3t")),
        Some((200, envelope_json())),
        Some(upstream(200, "should never be seen")),
    );
    assert_eq!(h.response.status, 200);
    assert_eq!(h.response.body, "");
    assert!(!h.called_verify);
    assert!(!h.called_upstream);
}

#[test]
fn scenario_b_public_login_is_forwarded_verbatim() {
    let h = handle_request(
        &config(),
        &request("GET", "/login", None),
        None,
        Some(upstream(200, "login page")),
    );
    assert!(!h.called_verify);
    assert!(h.called_upstream);
    let plan = h.forward.as_ref().unwrap();
    assert_eq!(plan.uri, "http://127.0.0.1:8080/login");
    assert!(plan.headers.iter().all(|hd| hd.name != "user"));
    assert_eq!(h.response.status, 200);
    assert_eq!(h.response.body, "login page");
    assert_has_cors(&h.response, false);
}

#[test]
fn scenario_c_protected_path_with_valid_session() {
    let h = handle_request(
        &config(),
        &request("GET", "/widgets", Some("session=s3cr3t")),
        Some((200, envelope_json())),
        Some(upstream(200, "[\"widget\"]")),
    );
    assert!(h.called_verify);
    assert!(h.called_upstream);
    let (verify_uri, verify_cookie) = h.verify_call.as_ref().unwrap();
    assert_eq!(verify_uri, "http://127.0.0.1:8080/verify");
    assert_eq!(verify_cookie, "session=s3cr3t");
    let plan = h.forward.as_ref().unwrap();
    assert_eq!(plan.uri, "http://127.0.0.1:8080/widgets");
    // exactly one identity header, and it round-trips to the same envelope
    let users: Vec<_> = plan.headers.iter().filter(|hd| hd.name == "user").collect();
    assert_eq!(users.len(), 1);
    assert_eq!(
        extract(users[0].value.clone()),
        Some(ReqUser {
            id: 10,
            account_id: "account_id".to_string(),
            role: Role::User,
        })
    );
    assert_eq!(h.response.status, 200);
    assert_eq!(h.response.body, "[\"widget\"]");
    assert_has_cors(&h.response, false);
}

#[test]
fn scenario_d_internal_callback_is_not_found() {
    let h = handle_request(
        &config(),
        &request("POST", "/instances/abc123/callback", Some("session=s3cr3t")),
        Some((200, envelope_json())),
        Some(upstream(200, "should never be seen")),
    );
    assert!(!h.called_verify);
    assert!(!h.called_upstream);
    assert_eq!(h.response.status, 404);
    assert_eq!(
        h.response.body,
        "{\"message\": \"uri: /instances/abc123/callback is not valid\"}"
    );
    assert_has_cors(&h.response, false);
}

#[test]
fn protected_without_cookie_is_unauthorized() {
    let h = handle_request(&config(), &request("GET", "/widgets", None), None, None);
    assert!(!h.called_verify);
    assert!(!h.called_upstream);
    assert_eq!(h.response.status, 401);
    assert_eq!(
        h.response.body,
        "{\"message\": \"You are not authorized! Login before accessing this resource.\"}"
    );
}

#[test]
fn rejected_verification_is_unauthorized_and_never_forwarded() {
    for verify in [
        None,
        Some((401, "denied".to_string())),
        Some((500, "boom".to_string())),
        Some((200, "not an envelope".to_string())),
    ] {
        let h = handle_request(
            &config(),
            &request("GET", "/widgets", Some("session=bad")),
            verify,
            Some(upstream(200, "should never be seen")),
        );
        assert!(h.called_verify);
        assert!(!h.called_upstream);
        assert_eq!(h.response.status, 401);
    }
}

#[test]
fn spoofed_identity_header_is_stripped_on_public_forward() {
    let mut req = request("GET", "/login", None);
    req.headers.push(header("user", "{\"id\":999,\"accountId\":\"admin\",\"role\":\"owner\"}"));
    let h = handle_request(&config(), &req, None, Some(upstream(200, "ok")));
    assert!(h.called_upstream);
    let plan = h.forward.as_ref().unwrap();
    assert!(plan.headers.iter().all(|hd| hd.name != "user"));
    // the harmless headers survive
    assert!(plan.headers.iter().any(|hd| hd.name == "accept"));
}

#[test]
fn spoofed_identity_header_is_replaced_on_authorized_forward() {
    let mut req = request("GET", "/widgets", Some("session=s3cr3t"));
    req.headers.push(header("user", "{\"id\":999,\"accountId\":\"admin\",\"role\":\"owner\"}"));
    let h = handle_request(
        &config(),
        &req,
        Some((200, envelope_json())),
        Some(upstream(200, "ok")),
    );
    let plan = h.forward.as_ref().unwrap();
    let users: Vec<_> = plan.headers.iter().filter(|hd| hd.name == "user").collect();
    assert_eq!(users.len(), 1);
    assert_eq!(users[0].value, envelope_json());
}

#[test]
fn upstream_failure_becomes_bare_500() {
    let h = handle_request(
        &config(),
        &request("GET", "/login", None),
        None,
        None,
    );
    assert!(h.called_upstream);
    assert_eq!(h.response.status, 500);
    assert_eq!(h.response.body, "");
    assert_has_cors(&h.response, false);
}

#[test]
fn unresolvable_path_is_not_found() {
    let h = handle_request(&config(), &request("GET", "widgets", Some("c=1")), Some((200, envelope_json())), None);
    assert!(h.called_verify);
    assert!(!h.called_upstream);
    assert_eq!(h.response.status, 404);
    assert_eq!(h.response.body, "{\"message\": \"uri: widgets is not valid\"}");
}

#[test]
fn production_origin_is_used_in_prod() {
    let c = GatewayConfig::new(true, None, None);
    let h = handle_request(&c, &request("OPTIONS", "/x", None), None, None);
    assert_has_cors(&h.response, true);
}

#[test]
fn payments_forward_uses_payments_base_uri() {
    let h = handle_request(
        &config(),
        &request("POST", "/payments/webhooks", None),
        None,
        Some(upstream(200, "Web hooked")),
    );
    assert!(!h.called_verify);
    assert!(h.called_upstream);
    let plan = h.forward.as_ref().unwrap();
    assert_eq!(plan.uri, "http://127.0.0.1:6000/webhooks");
    assert_eq!(h.response.body, "Web hooked");
}

#[test]
fn plan_and_resume_agree_with_the_driver() {
    let cfg = config();
    let req = request("GET", "/widgets", Some("session=s3cr3t"));
    match plan_request(&cfg, &req) {
        Step::CallVerify { verify_uri, cookie } => {
            assert_eq!(verify_uri, "http://127.0.0.1:8080/verify");
            assert_eq!(cookie, "session=s3cr3t");
        }
        other => panic!("expected a verification call, got {other:?}"),
    }
    let outcome = verify_outcome(Some((200, envelope_json())));
    assert!(outcome.is_some());
    match resume_after_verify(&cfg, &req, outcome) {
        Step::Forward(plan) => assert_eq!(plan.uri, "http://127.0.0.1:8080/widgets"),
        other => panic!("expected a forward, got {other:?}"),
    }
}

#[test]
fn log_line_reflects_the_outcome() {
    let line = gateway::pipeline::log_line(404, "GET", "/nope", Some("curl/8"));
    assert_eq!(line, "[Logger] 404 GET /nope \"curl/8\"");
    let line = gateway::pipeline::log_line(200, "POST", "/login", None);
    assert_eq!(line, "[Logger] 200 POST /login \"\"");
}
