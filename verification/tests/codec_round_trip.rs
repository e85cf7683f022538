use gateway::identity::{extract, serialize_identity, ReqUser, Role};

fn user(id: i32, account: &str, role: Role) -> ReqUser {
    ReqUser {
        id,
        account_id: account.to_string(),
        role,
    }
}

#[test]
fn serializes_canonical_form() {
    let s = serialize_identity(&user(10, "account_id", Role::User));
    assert_eq!(s, "{\"id\":10,\"accountId\":\"account_id\",\"role\":\"user\"}");
}

#[test]
fn serializes_negative_id() {
    let s = serialize_identity(&user(-7, "a", Role::Owner));
    assert_eq!(s, "{\"id\":-7,\"accountId\":\"a\",\"role\":\"owner\"}");
}

#[test]
fn serializes_extreme_ids() {
    let s = serialize_identity(&user(i32::MAX, "a", Role::Admin));
    assert_eq!(s, "{\"id\":2147483647,\"accountId\":\"a\",\"role\":\"admin\"}");
    let s = serialize_identity(&user(i32::MIN, "a", Role::Moderator));
    assert_eq!(
        s,
        "{\"id\":-2147483648,\"accountId\":\"a\",\"role\":\"moderator\"}"
    );
}

#[test]
fn escapes_quotes_and_backslashes() {
    let s = serialize_identity(&user(1, "a\"b\\c", Role::User));
    assert_eq!(s, "{\"id\":1,\"accountId\":\"a\\\"b\\\\c\",\"role\":\"user\"}");
}

#[test]
fn round_trips_every_role() {
    for role in [Role::Owner, Role::Admin, Role::Moderator, Role::User] {
        let u = user(42, "acct-9", role);
        let s = serialize_identity(&u);
        assert_eq!(extract(s), Some(u));
    }
}

#[test]
fn round_trips_awkward_accounts() {
    for account in ["", "a\"b", "back\\slash", "snowman \u{2603}", "x y z"] {
        let u = user(-123, account, Role::Admin);
        let s = serialize_identity(&u);
        assert_eq!(extract(s), Some(u));
    }
}

#[test]
fn rejects_malformed_envelopes() {
    let bad = [
        "",
        "{}",
        "not json",
        "{\"id\":10}",
        "{\"id\":,\"accountId\":\"a\",\"role\":\"user\"}",
        // a redundant leading zero is not canonical
        "{\"id\":007,\"accountId\":\"a\",\"role\":\"user\"}",
        // negative zero is not canonical
        "{\"id\":-0,\"accountId\":\"a\",\"role\":\"user\"}",
        // out of the 32-bit range
        "{\"id\":2147483648,\"accountId\":\"a\",\"role\":\"user\"}",
        "{\"id\":-2147483649,\"accountId\":\"a\",\"role\":\"user\"}",
        // unknown role
        "{\"id\":1,\"accountId\":\"a\",\"role\":\"emperor\"}",
        // unknown escape
        "{\"id\":1,\"accountId\":\"a\\nb\",\"role\":\"user\"}",
        // unterminated string
        "{\"id\":1,\"accountId\":\"a,\"role\":\"user\"}",
        // trailing garbage
        "{\"id\":1,\"accountId\":\"a\",\"role\":\"user\"} ",
        // fields out of order
        "{\"accountId\":\"a\",\"id\":1,\"role\":\"user\"}",
    ];
    for s in bad {
        assert_eq!(extract(s.to_string()), None, "accepted: {s}");
    }
}

#[test]
fn accepts_in_range_boundaries() {
    let s = "{\"id\":-2147483648,\"accountId\":\"a\",\"role\":\"user\"}";
    assert_eq!(
        extract(s.to_string()),
        Some(user(i32::MIN, "a", Role::User))
    );
    let s = "{\"id\":2147483647,\"accountId\":\"a\",\"role\":\"user\"}";
    assert_eq!(
        extract(s.to_string()),
        Some(user(i32::MAX, "a", Role::User))
    );
}

#[test]
fn output_is_valid_json_for_serde() {
    let s = serialize_identity(&user(10, "account_id", Role::User));
    let v: serde_json::Value = serde_json::from_str(&s).expect("valid JSON");
    assert_eq!(v["id"], serde_json::Value::from(10));
    assert_eq!(v["accountId"], serde_json::Value::from("account_id"));
    assert_eq!(v["role"], serde_json::Value::from("user"));
}
