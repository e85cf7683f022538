//! The identity envelope and the role lattice it carries.
//!
//! An envelope is produced by the authorization verifier after a successful
//! verification call, travels to the upstream service as a single header,
//! and lives for one request.  It is never taken from the inbound request.

use vstd::prelude::*;

use crate::codec;
use crate::text::str_eq;
use crate::text::to_chars;

verus! {

/// Role of an authenticated subject; a small closed set used for
/// permission checks by the services behind the gateway.
#[derive(Debug, Clone, Copy, PartialEq, Eq, Structural)]
pub enum Role {
    Owner,
    Admin,
    Moderator,
    User,
}

/// Numeric rank of a role: higher means more privileged.
pub open spec fn role_number(role: Role) -> int {
    match role {
        Role::Owner => 3,
        Role::Admin => 2,
        Role::Moderator => 1,
        Role::User => 0,
    }
}

/// Rank of `role` as a machine integer: 0 for any user, 1 for at least
/// moderator, 2 for at least admin, 3 only for the owner.
pub fn role_to_number(role: &Role) -> (n: i32)
    ensures
        n == role_number(*role),
{
    match role {
        Role::Owner => 3,
        Role::Admin => 2,
        Role::Moderator => 1,
        Role::User => 0,
    }
}

/// The identity envelope: the authenticated subject, its account and its
/// role, as the services behind the gateway receive them.
#[derive(Debug, Clone, PartialEq)]
pub struct ReqUser {
    pub id: i32,
    pub account_id: String,
    pub role: Role,
}

/// Mathematical image of an envelope.
pub struct ReqUserView {
    pub id: int,
    pub account_id: Seq<char>,
    pub role: Role,
}

impl View for ReqUser {
    type V = ReqUserView;

    open spec fn view(&self) -> ReqUserView {
        ReqUserView { id: self.id as int, account_id: self.account_id@, role: self.role }
    }
}

/// View of an optional envelope.
pub open spec fn opt_user_view(req_user: Option<ReqUser>) -> Option<ReqUserView> {
    match req_user {
        Some(u) => Some(u@),
        None => None,
    }
}

/// The envelope a header value decodes to, if it is a well-formed
/// serialized envelope; anything else decodes to nothing.
pub open spec fn extract_spec(s: Seq<char>) -> Option<ReqUserView> {
    match codec::parse_identity(s) {
        Some(t) => Some((ReqUserView { id: t.0, account_id: t.1, role: t.2 })),
        None => None,
    }
}

/// Serialized form of an envelope, as it is put on the wire.
pub open spec fn envelope_spec(u: ReqUserView) -> Seq<char> {
    codec::ser_identity(u.id, u.account_id, u.role)
}

/// Takes a value (such as a header) and attempts to decode it into an
/// envelope; a malformed value yields `None`.
pub fn extract(value: String) -> (r: Option<ReqUser>)
    ensures
        (match r {
            Some(u) => extract_spec(value@) == Some(u@),
            None => extract_spec(value@) is None,
        }),
{
    let chars = to_chars(value.as_str());
    match codec::read_identity(&chars) {
        Some(p) => Some(ReqUser { id: p.0, account_id: p.1, role: p.2 }),
        None => None,
    }
}

/// Serializes an envelope into the single header value that carries it.
pub fn serialize_identity(u: &ReqUser) -> (r: String)
    ensures
        r@ == envelope_spec(u@),
{
    codec::write_identity(u.id, u.account_id.as_str(), u.role)
}

/// Law: decoding a serialized envelope yields the envelope it was written
/// from, whatever the identifier, account string and role.
pub proof fn lemma_envelope_round_trip(u: ReqUserView)
    requires
        -0x8000_0000 <= u.id < 0x8000_0000,
    ensures
        extract_spec(envelope_spec(u)) == Some(u),
{
    codec::lemma_identity_round_trip(u.id, u.account_id, u.role);
}

/// An absent envelope passes the account check: the request then came from
/// inside.  A present envelope must name the expected account or the
/// all-powerful admin account.
pub open spec fn belongs_to_account_spec(req_user: Option<ReqUserView>, expected: Seq<char>) -> bool {
    match req_user {
        Some(u) => u.account_id == expected || u.account_id == "admin"@,
        None => true,
    }
}

/// Make sure a user is requesting something within their account.
pub fn belongs_to_account(req_user: &Option<ReqUser>, expected: &str) -> (r: bool)
    ensures
        r == belongs_to_account_spec(opt_user_view(*req_user), expected@),
{
    match req_user {
        Some(u) => str_eq(u.account_id.as_str(), expected) || str_eq(
            u.account_id.as_str(),
            "admin",
        ),
        None => true,
    }
}

/// An absent envelope passes every role check; a present one must rank at
/// least as high as the requirement.
pub open spec fn require_role_spec(req_user: Option<ReqUserView>, requirement: Role) -> bool {
    match req_user {
        Some(u) => role_number(u.role) >= role_number(requirement),
        None => true,
    }
}

/// Checks that the user's role meets at least the requirement.
pub fn require_role(req_user: &Option<ReqUser>, requirement: Role) -> (r: bool)
    ensures
        r == require_role_spec(opt_user_view(*req_user), requirement),
{
    match req_user {
        Some(user) => role_to_number(&user.role) >= role_to_number(&requirement),
        None => true,
    }
}

/// An absent envelope passes every role check; a present one must rank
/// strictly above the requirement, impossible when the requirement is the
/// owner role.
pub open spec fn higher_role_spec(req_user: Option<ReqUserView>, requirement: Role) -> bool {
    match req_user {
        Some(u) => role_number(u.role) > role_number(requirement),
        None => true,
    }
}

/// Checks that the user's role ranks strictly above the requirement.
pub fn higher_role(req_user: &Option<ReqUser>, requirement: Role) -> (r: bool)
    ensures
        r == higher_role_spec(opt_user_view(*req_user), requirement),
{
    match req_user {
        Some(user) => role_to_number(&user.role) > role_to_number(&requirement),
        None => true,
    }
}

/// The optional envelope as an upstream service extracts it from the
/// identity header of a forwarded request.
pub struct ExtractReqUser(pub Option<ReqUser>);

/// Decodes the identity header an upstream service received: no header
/// means no identity, a malformed header decodes to nothing.
pub fn extract_req_user(header_value: Option<String>) -> (r: ExtractReqUser)
    ensures
        (match header_value {
            Some(v) => (match r.0 {
                Some(u) => extract_spec(v@) == Some(u@),
                None => extract_spec(v@) is None,
            }),
            None => r.0 is None,
        }),
{
    match header_value {
        Some(v) => ExtractReqUser(extract(v)),
        None => ExtractReqUser(None),
    }
}

/// An error response of the identity service: a status code and a
/// human-readable message.
#[derive(Debug)]
pub struct Error {
    pub status_code: u16,
    pub message: String,
}

} // verus!
