//! Upstream resolver.
//!
//! The gateway forwards to one of two backend services: the billing
//! service, for paths under `/payments`, and the tenant-data / identity
//! service for every other path.  Prefixes are tried in that fixed order
//! and the first match wins.  The matched prefix is stripped from the path
//! (an empty remainder becomes `/`) and the query string is reattached.

use vstd::prelude::*;

use crate::text::lit_at;
use crate::text::push_char;
use crate::text::starts_with_str;

verus! {

/// The backend services the gateway can forward to.
#[derive(Debug, Clone, Copy, PartialEq, Eq, Structural)]
pub enum UpstreamId {
    /// The billing service.
    Payments,
    /// The tenant-data / identity service.
    Crud,
}

/// Where a request goes: the service, its base URI and the rewritten
/// path with the query reattached.
#[derive(Debug, Clone, PartialEq)]
pub struct UpstreamTarget {
    pub service: UpstreamId,
    pub base_uri: String,
    pub path_query: String,
}

/// Read-only gateway configuration, resolved once at startup: the
/// deployment-environment flag and the per-service base URIs.
#[derive(Debug, Clone, PartialEq)]
pub struct GatewayConfig {
    pub prod: bool,
    pub crud_uri: String,
    pub payments_uri: String,
}

impl GatewayConfig {
    /// Builds the configuration from the environment's overrides, falling
    /// back to the documented localhost defaults.
    pub fn new(prod: bool, crud_uri: Option<String>, payments_uri: Option<String>) -> (c:
        GatewayConfig)
        ensures
            c.prod == prod,
            c.crud_uri@ == (match crud_uri {
                Some(u) => u@,
                None => "http://127.0.0.1:8080"@,
            }),
            c.payments_uri@ == (match payments_uri {
                Some(u) => u@,
                None => "http://127.0.0.1:6000"@,
            }),
    {
        GatewayConfig {
            prod,
            crud_uri: (match crud_uri {
                Some(u) => u,
                None => String::from_str("http://127.0.0.1:8080"),
            }),
            payments_uri: (match payments_uri {
                Some(u) => u,
                None => String::from_str("http://127.0.0.1:6000"),
            }),
        }
    }
}

/// View of an optional string slice.
pub open spec fn opt_str_view(q: Option<&str>) -> Option<Seq<char>> {
    match q {
        Some(s) => Some(s@),
        None => None,
    }
}

/// The rewritten path: the first `prefix_len` characters are stripped, an
/// empty remainder becomes `/`, and the query is reattached with `?`.
pub open spec fn rewrite_spec(prefix_len: int, path: Seq<char>, query: Option<Seq<char>>) -> Seq<
    char,
> {
    let stripped = path.subrange(prefix_len, path.len() as int);
    let base = if stripped.len() == 0 {
        "/"@
    } else {
        stripped
    };
    match query {
        Some(q) => base + "?"@ + q,
        None => base,
    }
}

/// Which service a path resolves to, and the rewritten path-and-query the
/// service receives: `/payments` first, then the catch-all `/`; a path
/// that starts with neither resolves to nothing.
pub open spec fn resolve_spec(path: Seq<char>, query: Option<Seq<char>>) -> Option<
    (UpstreamId, Seq<char>),
> {
    if lit_at(path, 0, "/payments"@) {
        Some((UpstreamId::Payments, rewrite_spec("/payments"@.len() as int, path, query)))
    } else if lit_at(path, 0, "/"@) {
        Some((UpstreamId::Crud, rewrite_spec(0, path, query)))
    } else {
        None
    }
}

/// Strips the matched service prefix from the path, substitutes `/` for an
/// empty remainder, and reattaches the query string.
pub fn service_path_query(service_path: &str, path: &str, query: Option<&str>) -> (r: String)
    requires
        lit_at(path@, 0, service_path@),
    ensures
        r@ == rewrite_spec(service_path@.len() as int, path@, opt_str_view(query)),
{
    let plen = service_path.unicode_len();
    let n = path.unicode_len();
    let mut out = String::new();
    let mut i: usize = plen;
    proof {
        assert(out@ =~= path@.subrange(plen as int, plen as int));
    }
    while i < n
        invariant
            plen <= i <= n,
            n == path@.len(),
            out@ == path@.subrange(plen as int, i as int),
        decreases n - i,
    {
        let c = path.get_char(i);
        push_char(&mut out, c);
        proof {
            assert(path@.subrange(plen as int, i + 1 as int) =~= path@.subrange(
                plen as int,
                i as int,
            ).push(c));
        }
        i = i + 1;
    }
    if plen == n {
        // the whole path was the prefix: never forward an empty path
        out.append("/");
    }
    match query {
        Some(q) => {
            out.append("?");
            out.append(q);
        },
        None => {},
    }
    proof {
        assert(out@ =~= rewrite_spec(service_path@.len() as int, path@, opt_str_view(query)));
    }
    out
}

/// Resolves a path to its upstream service, as `resolve_spec` describes;
/// the target carries the configured base URI of the matched service.
pub fn resolve(config: &GatewayConfig, path: &str, query: Option<&str>) -> (r: Option<
    UpstreamTarget,
>)
    ensures
        (match r {
            Some(t) => resolve_spec(path@, opt_str_view(query)) == Some((t.service, t.path_query@))
                && (t.service == UpstreamId::Payments ==> t.base_uri@ == config.payments_uri@) && (
            t.service == UpstreamId::Crud ==> t.base_uri@ == config.crud_uri@),
            None => resolve_spec(path@, opt_str_view(query)) is None,
        }),
{
    if starts_with_str(path, "/payments") {
        Some(UpstreamTarget {
            service: UpstreamId::Payments,
            base_uri: config.payments_uri.clone(),
            path_query: service_path_query("/payments", path, query),
        })
    } else if starts_with_str(path, "/") {
        let pq = {
            proof {
                reveal_strlit("");
                assert(path@.subrange(0, 0) =~= ""@);
            }
            service_path_query("", path, query)
        };
        proof {
            assert(""@.len() == 0) by {
                reveal_strlit("");
            }
        }
        Some(UpstreamTarget {
            service: UpstreamId::Crud,
            base_uri: config.crud_uri.clone(),
            path_query: pq,
        })
    } else {
        None
    }
}

} // verus!
