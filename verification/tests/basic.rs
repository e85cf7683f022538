use gateway::identity::Role;
use gateway::messages::{parse_resource, resource_as_str, Resource};

#[test]
fn it_works() {
    let result = 2 + 2;
    assert_eq!(result, 4);
}

#[test]
fn role_numbers_are_ordered() {
    assert_eq!(gateway::identity::role_to_number(&Role::User), 0);
    assert_eq!(gateway::identity::role_to_number(&Role::Moderator), 1);
    assert_eq!(gateway::identity::role_to_number(&Role::Admin), 2);
    assert_eq!(gateway::identity::role_to_number(&Role::Owner), 3);
}

#[test]
fn require_role_checks_rank() {
    let admin = Some(gateway::identity::ReqUser {
        id: 1,
        account_id: "acct".to_string(),
        role: Role::Admin,
    });
    assert!(gateway::identity::require_role(&admin, Role::Moderator));
    assert!(gateway::identity::require_role(&admin, Role::Admin));
    assert!(!gateway::identity::require_role(&admin, Role::Owner));
    // absent identity: the request came from inside, let it through
    assert!(gateway::identity::require_role(&None, Role::Owner));
}

#[test]
fn higher_role_is_strict() {
    let admin = Some(gateway::identity::ReqUser {
        id: 1,
        account_id: "acct".to_string(),
        role: Role::Admin,
    });
    assert!(gateway::identity::higher_role(&admin, Role::Moderator));
    assert!(!gateway::identity::higher_role(&admin, Role::Admin));
    assert!(!gateway::identity::higher_role(&admin, Role::Owner));
    assert!(gateway::identity::higher_role(&None, Role::Owner));
}

#[test]
fn belongs_to_account_matches_or_admin() {
    let u = |account: &str| {
        Some(gateway::identity::ReqUser {
            id: 7,
            account_id: account.to_string(),
            role: Role::User,
        })
    };
    assert!(gateway::identity::belongs_to_account(&u("acct-1"), "acct-1"));
    assert!(!gateway::identity::belongs_to_account(&u("acct-1"), "acct-2"));
    assert!(gateway::identity::belongs_to_account(&u("admin"), "acct-2"));
    assert!(gateway::identity::belongs_to_account(&None, "acct-2"));
}

#[test]
fn extract_req_user_mirrors_header() {
    let missing = gateway::identity::extract_req_user(None);
    assert!(missing.0.is_none());
    let garbled = gateway::identity::extract_req_user(Some("not json".to_string()));
    assert!(garbled.0.is_none());
    let good = gateway::identity::extract_req_user(Some(
        "{\"id\":10,\"accountId\":\"account_id\",\"role\":\"user\"}".to_string(),
    ));
    assert_eq!(
        good.0,
        Some(gateway::identity::ReqUser {
            id: 10,
            account_id: "account_id".to_string(),
            role: Role::User,
        })
    );
}

#[test]
fn delete_body_counts() {
    let b = gateway::messages::DeleteBody::new(3);
    assert_eq!(b.affected, 3);
}

#[test]
fn error_bodies_carry_messages() {
    let b = gateway::messages::ErrorBody::new("boom");
    assert_eq!(b.message(), "boom");
    let s = gateway::messages::ErrorBody::server_err(None);
    assert_eq!(s.message(), "Internal server error.");
    let s2 = gateway::messages::ErrorBody::server_err(Some("db down"));
    assert_eq!(s2.message(), "db down");
    let u = gateway::messages::ErrorBody::unauthorized(None);
    assert_eq!(u.message(), "You are not authorized.");
}

#[test]
fn id_route_appends_id() {
    assert_eq!(gateway::messages::id_route("cus_42"), "/customer/cus_42");
}

#[test]
fn resource_wire_names_round_trip() {
    for r in [Resource::Load, Resource::Carrier, Resource::Shipper] {
        assert_eq!(parse_resource(resource_as_str(r)), Some(r));
    }
    assert_eq!(parse_resource("truck"), None);
    assert_eq!(parse_resource("Load"), None);
}

#[test]
fn error_body_shape() {
    assert_eq!(
        gateway::messages::error_body("nope"),
        "{\"message\": \"nope\"}"
    );
}
