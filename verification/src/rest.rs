//! The wire payloads shared by both transport paths, their defaults, and
//! the bearer token taken from an `Authorization` header.

use vstd::prelude::*;
use vstd::string::*;

use crate::text::str_eq;

verus! {

/// `enabled` defaults to on.
pub fn default_payload_enabled() -> (r: bool)
    ensures
        r,
{
    true
}

/// A PLC connection's protocol defaults to Modbus TCP.
pub fn default_plc_protocol() -> (r: String)
    ensures
        r@ == "modbus-tcp"@,
{
    String::from_str("modbus-tcp")
}

/// A PLC connection's unit id defaults to 1.
pub fn default_plc_unit_id() -> (r: i64)
    ensures
        r == 1,
{
    1
}

/// A tag's display precision defaults to 0 places.
pub fn default_tag_decimals() -> (r: i64)
    ensures
        r == 0,
{
    0
}

/// The new display order of the QR strings, by id.
pub struct QrStringsReorderPayload {
    pub ids: Vec<i64>,
}

/// Create/update payload for a PLC connection.
pub struct PlcConnectionPayload {
    pub name: String,
    pub protocol: String,
    pub host: String,
    pub port: i64,
    pub unit_id: i64,
    pub enabled: bool,
}

/// Create/update payload for a collection group.
pub struct CollectionGroupPayload {
    pub name: String,
    pub plc_connection_id: i64,
    pub period_ms: i64,
    pub enabled: bool,
}

/// The scheme prefix of a bearer `Authorization` value.
pub open spec fn bearer_prefix() -> Seq<char> {
    "Bearer "@
}

/// The token of a bearer `Authorization` value: what follows the exact,
/// case-sensitive prefix `Bearer `; `None` for a missing header or any
/// other value.
pub open spec fn bearer_token_spec(value: Option<Seq<char>>) -> Option<Seq<char>> {
    match value {
        Some(v) => if v.len() >= 7 && v.subrange(0, 7) == bearer_prefix() {
            Some(v.subrange(7, v.len() as int))
        } else {
            None
        },
        None => None,
    }
}

/// The bearer token of an `Authorization` header value, if it has one.
pub fn bearer_token<'a>(value: Option<&'a str>) -> (r: Option<&'a str>)
    ensures
        bearer_token_spec(match value {
            Some(v) => Some(v@),
            None => None,
        }) == match r {
            Some(t) => Some(t@),
            None => None::<Seq<char>>,
        },
{
    proof {
        reveal_strlit("Bearer ");
    }
    match value {
        Some(v) => {
            let n = v.unicode_len();
            if n >= 7 && str_eq(v.substring_char(0, 7), "Bearer ") {
                Some(v.substring_char(7, n))
            } else {
                None
            }
        },
        None => None,
    }
}

/// What the role check does with a request.
#[derive(Clone, Copy, PartialEq, Eq, Debug, Structural)]
pub struct AccessDecision {
    /// The request goes through.
    pub allow: bool,
    /// A denial is recorded to the audit log.
    pub record_denial: bool,
}

/// The role check, which fails closed: a request goes through only when the
/// caller's token resolved to an identity whose role parsed and is at least
/// the route's floor (`role_meets_floor` is `None` when no role could be
/// read). A denial is recorded only when there was an identity whose role
/// was simply too low or unreadable; a request with no identity at all is
/// refused without a record.
pub fn access_decision(identity_resolved: bool, role_meets_floor: Option<bool>) -> (r: AccessDecision)
    ensures
        r.allow == (identity_resolved && role_meets_floor == Some(true)),
        r.record_denial == (!r.allow && identity_resolved),
{
    let allow = identity_resolved && match role_meets_floor {
        Some(true) => true,
        _ => false,
    };
    AccessDecision { allow, record_denial: !allow && identity_resolved }
}

} // verus!
