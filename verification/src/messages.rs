//! Wire shapes shared with the services behind the gateway: error bodies
//! the gateway itself produces, and the request shapes of the billing
//! service's internal routes.  The gateway only needs these network
//! contracts, never the services' internals.

use vstd::prelude::*;

verus! {

/// Body of an error response: `{"message": "<text>"}`.
pub open spec fn error_body_spec(message: Seq<char>) -> Seq<char> {
    "{\"message\": \""@ + message + "\"}"@
}

/// Renders an error body, as `error_body_spec` describes.
pub fn error_body(message: &str) -> (r: String)
    ensures
        r@ == error_body_spec(message@),
{
    let mut out = String::from_str("{\"message\": \"");
    out.append(message);
    out.append("\"}");
    proof {
        assert(out@ =~= error_body_spec(message@));
    }
    out
}

/// Body of a deletion response: how many records were affected.
#[derive(Debug, Clone, Copy, PartialEq, Eq, Structural)]
pub struct DeleteBody {
    pub affected: i32,
}

impl DeleteBody {
    /// A deletion response for `affected` records.
    pub fn new(affected: i32) -> (r: DeleteBody)
        ensures
            r == (DeleteBody { affected }),
    {
        DeleteBody { affected }
    }
}

/// Body of an error response as a borrowed message.
#[derive(Debug, Clone, Copy)]
pub struct ErrorBody<'a> {
    message: &'a str,
}

impl<'a> ErrorBody<'a> {
    /// The message this body carries.
    pub closed spec fn spec_message(&self) -> Seq<char> {
        self.message@
    }

    /// An error body with the given message.
    pub fn new(message: &'a str) -> (r: ErrorBody<'a>)
        ensures
            r.spec_message() == message@,
    {
        ErrorBody { message }
    }

    /// A server-error body: the given message, or the standard one.
    pub fn server_err(message: Option<&'a str>) -> (r: ErrorBody<'a>)
        ensures
            r.spec_message() == (match message {
                Some(m) => m@,
                None => "Internal server error."@,
            }),
    {
        if let Some(message) = message {
            ErrorBody { message }
        } else {
            ErrorBody { message: "Internal server error." }
        }
    }

    /// An unauthorized body: the given message, or the standard one.
    pub fn unauthorized(message: Option<&'a str>) -> (r: ErrorBody<'a>)
        ensures
            r.spec_message() == (match message {
                Some(m) => m@,
                None => "You are not authorized."@,
            }),
    {
        if let Some(message) = message {
            ErrorBody { message }
        } else {
            ErrorBody { message: "You are not authorized." }
        }
    }

    /// The message carried by this body.
    pub fn message(&self) -> (r: &'a str)
        ensures
            r@ == self.spec_message(),
    {
        self.message
    }
}

/// The record kinds the services keep per-user permissions for; the
/// gateway only knows their wire names.
#[derive(Debug, Clone, Copy, PartialEq, Eq, Structural)]
pub enum Resource {
    Load,
    Carrier,
    Shipper,
}

/// The wire name of a resource.
pub open spec fn resource_name(r: Resource) -> Seq<char> {
    match r {
        Resource::Load => "load"@,
        Resource::Carrier => "carrier"@,
        Resource::Shipper => "shipper"@,
    }
}

/// The wire name of a resource, as a string slice.
pub fn resource_as_str(r: Resource) -> (s: &'static str)
    ensures
        s@ == resource_name(r),
{
    match r {
        Resource::Load => "load",
        Resource::Carrier => "carrier",
        Resource::Shipper => "shipper",
    }
}

/// Reads a resource from its wire name; any other name reads as nothing.
pub fn parse_resource(s: &str) -> (r: Option<Resource>)
    ensures
        (match r {
            Some(x) => resource_name(x) == s@,
            None => s@ != "load"@ && s@ != "carrier"@ && s@ != "shipper"@,
        }),
{
    if crate::text::str_eq(s, "load") {
        Some(Resource::Load)
    } else if crate::text::str_eq(s, "carrier") {
        Some(Resource::Carrier)
    } else if crate::text::str_eq(s, "shipper") {
        Some(Resource::Shipper)
    } else {
        None
    }
}

/// Parameters of the billing service's usage-record route.
#[derive(Debug, Clone, PartialEq)]
pub struct CreateUsageRecordParams {
    pub sub_id: String,
    /// Either "instances" or "users".
    pub resource: String,
    pub number: u64,
}

/// Response of the billing service's usage-record route: empty.
#[derive(Debug, Clone, Copy, PartialEq, Eq, Structural)]
pub struct CreateUsageRecordResponse;

/// Query of the billing service's subscription-status route.
#[derive(Debug, Clone, PartialEq)]
pub struct IsSubbedQuery {
    pub sub_id: String,
}

/// The billing service's per-customer route for a customer id.
pub fn id_route(id: &str) -> (r: String)
    ensures
        r@ == "/customer/"@ + id@,
{
    let mut out = String::from_str("/customer/");
    out.append(id);
    out
}

} // verus!
