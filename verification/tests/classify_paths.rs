use gateway::classify::{classify, PathClass};

#[test]
fn auth_endpoints_are_public() {
    assert_eq!(classify("/verify"), PathClass::Public);
    assert_eq!(classify("/login"), PathClass::Public);
    assert_eq!(classify("/authenticate"), PathClass::Public);
    assert_eq!(classify("/register"), PathClass::Public);
}

#[test]
fn instance_callbacks_are_internal_only() {
    assert_eq!(classify("/instances/abc123/callback"), PathClass::InternalOnly);
    // the parameter may be empty or hold further slashes
    assert_eq!(classify("/instances//callback"), PathClass::InternalOnly);
    assert_eq!(classify("/instances/a/b/callback"), PathClass::InternalOnly);
}

#[test]
fn whitespace_breaks_the_callback_pattern() {
    assert_eq!(classify("/instances/a b/callback"), PathClass::Protected);
    assert_eq!(classify("/instances/a\tb/callback"), PathClass::Protected);
}

#[test]
fn near_misses_of_the_callback_pattern() {
    assert_eq!(classify("/instances/callback"), PathClass::Protected);
    assert_eq!(classify("/instances/abc/callbac"), PathClass::Protected);
    assert_eq!(classify("/instance/abc/callback"), PathClass::Protected);
}

#[test]
fn everything_else_is_protected() {
    assert_eq!(classify("/widgets"), PathClass::Protected);
    assert_eq!(classify("/users"), PathClass::Protected);
    assert_eq!(classify("/"), PathClass::Protected);
    assert_eq!(classify("/loginx"), PathClass::Protected);
    assert_eq!(classify("/login/"), PathClass::Protected);
}

#[test]
fn payment_webhooks_are_public() {
    assert_eq!(classify("/payments/webhooks"), PathClass::Public);
    assert_eq!(classify("/payments/webhooks/"), PathClass::Public);
}

#[test]
fn payment_internal_routes() {
    assert_eq!(classify("/payments/create-usage-record"), PathClass::InternalOnly);
    assert_eq!(classify("/payments/create-usage-record/"), PathClass::InternalOnly);
    assert_eq!(classify("/payments/customer/cus_42"), PathClass::InternalOnly);
    assert_eq!(classify("/payments/customer/"), PathClass::InternalOnly);
}

#[test]
fn payment_line_break_escapes_customer_pattern() {
    assert_eq!(classify("/payments/customer/a\nb"), PathClass::Protected);
}

#[test]
fn other_payment_routes_are_protected() {
    assert_eq!(classify("/payments/subscriptions"), PathClass::Protected);
    assert_eq!(classify("/payments"), PathClass::Protected);
    assert_eq!(classify("/payments/webhooksx"), PathClass::Protected);
}

#[test]
fn classification_is_idempotent() {
    for p in ["/verify", "/instances/x/callback", "/widgets", "/payments/webhooks"] {
        assert_eq!(classify(p), classify(p));
    }
}
