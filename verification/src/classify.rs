//! Path classifier.
//!
//! Every inbound path is classified as public (no authentication needed),
//! internal-only (reachable only from inside the deployment, answered with
//! a plain not-found to outside callers) or protected (the default).
//! Internal-only patterns are checked first, then public ones: an internal
//! callback path must never become reachable merely because it also happens
//! to match a public pattern.  Classification is a pure function of the
//! path: no I/O, no state, the same path always classifies the same way.

use vstd::prelude::*;

use crate::text::lit_at;
use crate::text::match_lit;
use crate::text::to_chars;

verus! {

/// What the classifier decides about a path.
#[derive(Debug, Clone, Copy, PartialEq, Eq, Structural)]
pub enum PathClass {
    Public,
    InternalOnly,
    Protected,
}

/// Whitespace, which the callback pattern's parameter may not contain:
/// the Unicode White_Space code points.
pub open spec fn is_space(c: char) -> bool {
    let x = c as u32;
    ||| (0x9 <= x && x <= 0xd)
    ||| x == 0x20
    ||| x == 0x85
    ||| x == 0xa0
    ||| x == 0x1680
    ||| (0x2000 <= x && x <= 0x200a)
    ||| x == 0x2028
    ||| x == 0x2029
    ||| x == 0x202f
    ||| x == 0x205f
    ||| x == 0x3000
}

/// Decides `is_space`.
fn is_space_char(c: char) -> (r: bool)
    ensures
        r == is_space(c),
{
    let x = c as u32;
    (0x9 <= x && x <= 0xd) || x == 0x20 || x == 0x85 || x == 0xa0 || x == 0x1680 || (0x2000 <= x
        && x <= 0x200a) || x == 0x2028 || x == 0x2029 || x == 0x202f || x == 0x205f || x == 0x3000
}

// ---------------------------------------------------------------------
// The tenant-data / identity service (every path not under /payments)
// ---------------------------------------------------------------------

/// Public paths of the tenant-data service: the authentication endpoints.
pub open spec fn crud_public(p: Seq<char>) -> bool {
    ||| p == "/verify"@
    ||| p == "/login"@
    ||| p == "/authenticate"@
    ||| p == "/register"@
}

/// Internal-only paths of the tenant-data service: the parameterized
/// instance callback, `/instances/<anything without whitespace>/callback`.
pub open spec fn crud_internal(p: Seq<char>) -> bool {
    &&& p.len() >= "/instances/"@.len() + "/callback"@.len()
    &&& lit_at(p, 0, "/instances/"@)
    &&& lit_at(p, p.len() - "/callback"@.len(), "/callback"@)
    &&& (forall|j: int|
        "/instances/"@.len() <= j < p.len() - "/callback"@.len() ==> !is_space(p[j]))
}

/// Classification of a tenant-data path: internal-only first, then public,
/// protected by default.
pub open spec fn classify_crud(p: Seq<char>) -> PathClass {
    if crud_internal(p) {
        PathClass::InternalOnly
    } else if crud_public(p) {
        PathClass::Public
    } else {
        PathClass::Protected
    }
}

// ---------------------------------------------------------------------
// The billing service (paths under /payments, after the prefix is gone)
// ---------------------------------------------------------------------

/// Public paths of the billing service: the webhook endpoint.
pub open spec fn payments_public(p: Seq<char>) -> bool {
    p == "/webhooks"@ || p == "/webhooks/"@
}

/// Internal-only paths of the billing service: usage-record creation and
/// everything under `/customer/` (any characters but a line break).
pub open spec fn payments_internal(p: Seq<char>) -> bool {
    ||| p == "/create-usage-record"@
    ||| p == "/create-usage-record/"@
    ||| (lit_at(p, 0, "/customer/"@) && (forall|j: int|
        "/customer/"@.len() <= j < p.len() ==> p[j] != '\n'))
}

/// Classification of a billing path: internal-only first, then public,
/// protected by default.
pub open spec fn classify_payments(p: Seq<char>) -> PathClass {
    if payments_internal(p) {
        PathClass::InternalOnly
    } else if payments_public(p) {
        PathClass::Public
    } else {
        PathClass::Protected
    }
}

// ---------------------------------------------------------------------
// The gateway-level classifier
// ---------------------------------------------------------------------

/// True when `p` starts with `prefix`.
pub open spec fn starts_with(p: Seq<char>, prefix: Seq<char>) -> bool {
    lit_at(p, 0, prefix)
}

/// Gateway-level classification of a full request path: paths under
/// `/payments` are classified by the billing service's table after the
/// prefix is stripped, everything else by the tenant-data service's table.
pub open spec fn classify_spec(path: Seq<char>) -> PathClass {
    if starts_with(path, "/payments"@) {
        classify_payments(path.subrange("/payments"@.len() as int, path.len() as int))
    } else {
        classify_crud(path)
    }
}

/// Compares every character of `v` against an equal-length literal.
fn chars_eq_lit(v: &Vec<char>, lit: &str) -> (r: bool)
    ensures
        r == (v@ == lit@),
{
    let n = lit.unicode_len();
    if v.len() != n {
        return false;
    }
    let r = match_lit(v, 0, lit);
    proof {
        assert(v@.subrange(0, lit@.len() as int) =~= v@);
    }
    r
}

/// Classifies a tenant-data path, as `classify_crud` describes.
fn classify_crud_chars(v: &Vec<char>) -> (c: PathClass)
    ensures
        c == classify_crud(v@),
{
    proof {
        reveal_strlit("/instances/");
        reveal_strlit("/callback");
    }
    let n = v.len();
    if n >= 20 && match_lit(v, 0, "/instances/") && match_lit(v, n - 9, "/callback") {
        let mut j: usize = 11;
        let mut clean = true;
        while j < n - 9
            invariant
                11 <= j <= n - 9 <= v@.len() - 9,
                n == v@.len(),
                clean == (forall|m: int| 11 <= m < j ==> !is_space(v@[m])),
            decreases n - 9 - j,
        {
            if is_space_char(v[j]) {
                clean = false;
            }
            j = j + 1;
        }
        if clean {
            return PathClass::InternalOnly;
        }
        proof {
            assert(!crud_internal(v@));
        }
    }
    if chars_eq_lit(v, "/verify") || chars_eq_lit(v, "/login") || chars_eq_lit(v, "/authenticate")
        || chars_eq_lit(v, "/register") {
        proof {
            assert(!crud_internal(v@)) by {
                reveal_strlit("/verify");
                reveal_strlit("/login");
                reveal_strlit("/authenticate");
                reveal_strlit("/register");
                if crud_internal(v@) {
                    assert(v@.len() >= 20);
                }
            }
        }
        return PathClass::Public;
    }
    PathClass::Protected
}

/// Classifies a billing path, as `classify_payments` describes.
fn classify_payments_chars(v: &Vec<char>) -> (c: PathClass)
    ensures
        c == classify_payments(v@),
{
    proof {
        reveal_strlit("/customer/");
    }
    if chars_eq_lit(v, "/create-usage-record") || chars_eq_lit(v, "/create-usage-record/") {
        return PathClass::InternalOnly;
    }
    let n = v.len();
    if match_lit(v, 0, "/customer/") {
        let mut j: usize = 10;
        let mut clean = true;
        while j < n
            invariant
                10 <= j <= n,
                n == v@.len(),
                clean == (forall|m: int| 10 <= m < j ==> v@[m] != '\n'),
            decreases n - j,
        {
            if v[j] == '\n' {
                clean = false;
            }
            j = j + 1;
        }
        if clean {
            return PathClass::InternalOnly;
        }
    }
    proof {
        assert(!payments_internal(v@)) by {
            reveal_strlit("/create-usage-record");
            reveal_strlit("/create-usage-record/");
        }
    }
    if chars_eq_lit(v, "/webhooks") || chars_eq_lit(v, "/webhooks/") {
        return PathClass::Public;
    }
    PathClass::Protected
}

/// Classifies a full request path.  A pure function: no I/O, no hidden
/// state, so the same path always yields the same class.
pub fn classify(path: &str) -> (c: PathClass)
    ensures
        c == classify_spec(path@),
{
    proof {
        reveal_strlit("/payments");
    }
    let v = to_chars(path);
    if match_lit(&v, 0, "/payments") {
        let n = v.len();
        let mut rest: Vec<char> = Vec::new();
        let mut i: usize = 9;
        while i < n
            invariant
                9 <= i <= n,
                n == v@.len(),
                rest@ == v@.subrange(9, i as int),
            decreases n - i,
        {
            let c = v[i];
            rest.push(c);
            proof {
                assert(v@.subrange(9, i + 1 as int) =~= v@.subrange(9, i as int).push(c));
            }
            i = i + 1;
        }
        classify_payments_chars(&rest)
    } else {
        classify_crud_chars(&v)
    }
}

/// Law: classification is idempotent — it depends on the path's characters
/// alone, with no hidden state, so classifying the same path twice (or two
/// equal paths) yields the same result.
pub proof fn lemma_classify_idempotent(first: Seq<char>, second: Seq<char>)
    requires
        first == second,
    ensures
        classify_spec(first) == classify_spec(second),
{
}

} // verus!
