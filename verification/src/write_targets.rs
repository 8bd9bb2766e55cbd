//! Save-time validation of a write target and the trimming applied to its
//! text fields. The scaling check and the list of data types belong to the
//! tag registry and are passed in; the existence of the referenced PLC
//! connection is looked up by the caller.

use vstd::prelude::*;
use vstd::string::*;

use crate::error::{append_errors, error_views, push_error, FieldError};
use crate::support::{max_length_message, max_length_text, range_message, range_text, required_message, required_text};
use crate::text::{char_count, str_eq, trim, trim_spec};

verus! {

/// The longest target name, in characters.
pub const MAX_NAME_LEN: usize = 100;
/// The smallest display precision.
pub const MIN_DECIMALS: i64 = 0;
/// The largest display precision.
pub const MAX_DECIMALS: i64 = 6;

/// The default display precision of a new target.
pub fn default_decimals() -> (r: i64)
    ensures
        r == 0,
{
    0
}

/// Targets are enabled unless the payload says otherwise.
pub fn default_enabled() -> (r: bool)
    ensures
        r,
{
    true
}

/// A write target create/update payload, as validation reads it.
pub struct TargetDraft {
    pub name: String,
    pub plc_connection_id: i64,
    pub address: String,
    pub data_type: String,
    pub unit: Option<String>,
    pub decimals: i64,
    pub enabled: bool,
}

/// The trimmed text fields bound on a successful save.
pub struct NormalizedTarget {
    pub name: String,
    pub address: String,
    /// The trimmed unit, `None` when absent or blank.
    pub unit: Option<String>,
}

/// `items` joined with `sep` between consecutive items.
pub open spec fn join_spec(items: Seq<Seq<char>>, sep: Seq<char>) -> Seq<char>
    decreases items.len(),
{
    if items.len() == 0 {
        Seq::empty()
    } else if items.len() == 1 {
        items[0]
    } else {
        join_spec(items.drop_last(), sep) + sep + items.last()
    }
}

/// The character sequences of a list of strings.
pub open spec fn strings_of(v: Seq<String>) -> Seq<Seq<char>> {
    v.map_values(|s: String| s@)
}

/// Joins `items` with `sep`.
pub fn join(items: &Vec<String>, sep: &str) -> (r: String)
    ensures
        r@ == join_spec(strings_of(items@), sep@),
{
    let mut out = String::new();
    let mut i: usize = 0;
    while i < items.len()
        invariant
            i <= items@.len(),
            out@ == join_spec(strings_of(items@).take(i as int), sep@),
        decreases items@.len() - i,
    {
        if i > 0 {
            out.append(sep);
        }
        out.append(items[i].as_str());
        proof {
            let t = strings_of(items@).take(i + 1);
            assert(t.drop_last() =~= strings_of(items@).take(i as int));
            assert(t.last() == items@[i as int]@);
            if i == 0 {
                assert(out@ =~= t[0]);
            }
        }
        i = i + 1;
    }
    proof {
        assert(strings_of(items@).take(items@.len() as int) =~= strings_of(items@));
    }
    out
}

/// Whether `s` is one of `items`.
pub fn contains_str(items: &Vec<String>, s: &str) -> (r: bool)
    ensures
        r == strings_of(items@).contains(s@),
{
    let mut i: usize = 0;
    while i < items.len()
        invariant
            i <= items@.len(),
            forall|j: int| 0 <= j < i ==> items@[j]@ != s@,
        decreases items@.len() - i,
    {
        if str_eq(items[i].as_str(), s) {
            proof {
                assert(strings_of(items@)[i as int] == s@);
            }
            return true;
        }
        i = i + 1;
    }
    proof {
        if strings_of(items@).contains(s@) {
            let j = choose|j: int| 0 <= j < items@.len() && strings_of(items@)[j] == s@;
            assert(items@[j]@ == s@);
        }
    }
    false
}

/// The trimmed unit, `None` when absent or blank.
pub open spec fn unit_spec(unit: Option<Seq<char>>) -> Option<Seq<char>> {
    match unit {
        Some(u) => if trim_spec(u).len() == 0 {
            None
        } else {
            Some(trim_spec(u))
        },
        None => None,
    }
}

/// Every violation of a target draft, in report order: name, address, data
/// type, decimals, the registry's scaling errors, then a missing PLC
/// connection.
pub open spec fn target_errors_spec(
    d: TargetDraft,
    allowed: Seq<Seq<char>>,
    scaling: Seq<(Seq<char>, Seq<char>)>,
    connection_exists: bool,
) -> Seq<(Seq<char>, Seq<char>)> {
    let name = trim_spec(d.name@);
    let e_name = if name.len() == 0 {
        seq![("name"@, required_text())]
    } else if name.len() > 100 {
        seq![("name"@, max_length_text(100))]
    } else {
        Seq::empty()
    };
    let e_addr = if trim_spec(d.address@).len() == 0 {
        seq![("address"@, required_text())]
    } else {
        Seq::empty()
    };
    let e_type = if !allowed.contains(d.data_type@) {
        seq![("dataType"@, "対応データ型は "@ + join_spec(allowed, ", "@) + " のいずれかです"@)]
    } else {
        Seq::empty()
    };
    let e_dec = if !(0 <= d.decimals <= 6) {
        seq![("decimals"@, range_text(0, 6))]
    } else {
        Seq::empty()
    };
    let e_conn = if !connection_exists {
        seq![("plcConnectionId"@, "指定されたPLC接続が見つかりません"@)]
    } else {
        Seq::empty()
    };
    e_name + e_addr + e_type + e_dec + scaling + e_conn
}

/// Validates a write target draft, collecting every violation, and returns
/// the trimmed fields to bind. `allowed_data_types` is the registry's list
/// of data types, `scaling_errors` the registry's verdict on the four scaling
/// bounds, `connection_exists` whether the referenced PLC connection exists.
pub fn validate_target(
    d: &TargetDraft,
    allowed_data_types: &Vec<String>,
    scaling_errors: Vec<FieldError>,
    connection_exists: bool,
) -> (r: (Vec<FieldError>, NormalizedTarget))
    ensures
        error_views(r.0@) == target_errors_spec(
            *d,
            strings_of(allowed_data_types@),
            error_views(scaling_errors@),
            connection_exists,
        ),
        r.1.name@ == trim_spec(d.name@),
        r.1.address@ == trim_spec(d.address@),
        match r.1.unit {
            Some(u) => unit_spec(match d.unit { Some(x) => Some(x@), None => None }) == Some(u@),
            None => unit_spec(match d.unit { Some(x) => Some(x@), None => None }) is None,
        },
{
    let ghost scaling_view = error_views(scaling_errors@);
    let mut errors: Vec<FieldError> = Vec::new();
    let name = trim(d.name.as_str());
    let n = char_count(name.as_str());
    if n == 0 {
        push_error(&mut errors, String::from_str("name"), required_message());
    } else if n > MAX_NAME_LEN {
        push_error(&mut errors, String::from_str("name"), max_length_message(MAX_NAME_LEN));
    }
    let address = trim(d.address.as_str());
    if char_count(address.as_str()) == 0 {
        push_error(&mut errors, String::from_str("address"), required_message());
    }
    if !contains_str(allowed_data_types, d.data_type.as_str()) {
        let mut m = String::from_str("対応データ型は ");
        let joined = join(allowed_data_types, ", ");
        m.append(joined.as_str());
        m.append(" のいずれかです");
        push_error(&mut errors, String::from_str("dataType"), m);
    }
    if !(MIN_DECIMALS <= d.decimals && d.decimals <= MAX_DECIMALS) {
        push_error(&mut errors, String::from_str("decimals"), range_message(MIN_DECIMALS, MAX_DECIMALS));
    }
    append_errors(&mut errors, scaling_errors);
    if !connection_exists {
        push_error(&mut errors, String::from_str("plcConnectionId"), String::from_str("指定されたPLC接続が見つかりません"));
    }
    let unit = match &d.unit {
        Some(u) => {
            let t = trim(u.as_str());
            if char_count(t.as_str()) == 0 {
                None
            } else {
                Some(t)
            }
        },
        None => None,
    };
    proof {
        assert(error_views(errors@) =~= target_errors_spec(
            *d,
            strings_of(allowed_data_types@),
            scaling_view,
            connection_exists,
        ));
    }
    (errors, NormalizedTarget { name, address, unit })
}

/// The refusal to delete a target that rules still use.
pub open spec fn in_use_message(rule_count: int) -> Seq<char> {
    "この書き込み先を使用している書き込みルールが"@ + crate::text::int_decimal(rule_count) + "件あるため削除できません"@
}

/// Checks a delete against the number of rules still targeting the target:
/// refused (on field `id`) while any rule does.
pub fn check_delete(rule_count: i64) -> (r: Option<FieldError>)
    ensures
        rule_count > 0 ==> (r matches Some(e) && e.field@ == "id"@ && e.message@ == in_use_message(rule_count as int)),
        rule_count <= 0 ==> r is None,
{
    if rule_count > 0 {
        let mut m = String::from_str("この書き込み先を使用している書き込みルールが");
        crate::text::push_i64(&mut m, rule_count);
        m.append("件あるため削除できません");
        Some(FieldError { field: String::from_str("id"), message: m })
    } else {
        None
    }
}

} // verus!
