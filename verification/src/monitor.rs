//! The tag monitor's decisions: the SLMP-only scope guard, the manual-write
//! settings guard and how callers recognise its refusal, bit input parsing,
//! and how one group read is put back together per tag.
//!
//! The monitor only ever talks to connections whose protocol is `slmp`;
//! manual writes bypass arming, the rate limiter and dry-run, but are
//! refused outright while switched off in settings.

use vstd::prelude::*;
use vstd::string::*;

use crate::error::{FieldError, ServiceError};
use crate::text::{int_decimal, push_char, push_i64, str_eq};

verus! {

/// The only protocol the monitor serves.
pub open spec fn slmp_protocol() -> Seq<char> {
    "slmp"@
}

/// The refusal returned while manual writes are switched off in settings.
pub open spec fn manual_write_disabled_message() -> Seq<char> {
    "手動書き込みは設定で無効です(設定画面から有効化できます)"@
}

/// The error a manual write gets while switched off in settings.
pub fn manual_write_disabled() -> (r: ServiceError)
    ensures
        r matches ServiceError::Other(m) && m@ == manual_write_disabled_message(),
{
    ServiceError::Other(String::from_str("手動書き込みは設定で無効です(設定画面から有効化できます)"))
}

/// Whether `err` is exactly the settings-guard refusal of a manual write (as
/// opposed to any other failure, whose message differs).
pub fn is_manual_write_disabled(err: &ServiceError) -> (r: bool)
    ensures
        r == (err matches ServiceError::Other(m) && m@ == manual_write_disabled_message()),
{
    match err {
        ServiceError::Other(m) => str_eq(m.as_str(), "手動書き込みは設定で無効です(設定画面から有効化できます)"),
        _ => false,
    }
}

/// The refusal of a connection whose protocol is not SLMP.
pub open spec fn slmp_only_message(connection_id: int, protocol: Seq<char>) -> Seq<char> {
    "タグモニタは SLMP 接続のみ対応です(接続 "@ + int_decimal(connection_id) + " は protocol="@
        + protocol + ", relay-wright は現時点で他プロトコルに未対応)"@
}

/// The monitor's scope guard: only SLMP connections pass.
pub fn require_slmp(connection_id: i64, protocol: &str) -> (r: Result<(), ServiceError>)
    ensures
        r is Ok <==> protocol@ == slmp_protocol(),
        r matches Err(e) ==> (e matches ServiceError::Other(m) && m@ == slmp_only_message(
            connection_id as int,
            protocol@,
        )),
{
    if str_eq(protocol, "slmp") {
        Ok(())
    } else {
        let mut m = String::from_str("タグモニタは SLMP 接続のみ対応です(接続 ");
        push_i64(&mut m, connection_id);
        m.append(" は protocol=");
        m.append(protocol);
        m.append(", relay-wright は現時点で他プロトコルに未対応)");
        Err(ServiceError::Other(m))
    }
}

/// `c` with ASCII upper-case letters lowered.
pub open spec fn ascii_lower_char(c: char) -> char {
    if 'A' <= c && c <= 'Z' {
        ((c as u32) + 32) as char
    } else {
        c
    }
}

/// `s` with ASCII upper-case letters lowered.
pub open spec fn ascii_lower(s: Seq<char>) -> Seq<char> {
    s.map_values(|c: char| ascii_lower_char(c))
}

/// The bit a (trimmed) manual-write input names, ignoring ASCII case:
/// `0`/`false`/`off` or `1`/`true`/`on`.
pub open spec fn bit_input_value(s: Seq<char>) -> Option<bool> {
    let l = ascii_lower(s);
    if l == "0"@ || l == "false"@ || l == "off"@ {
        Some(false)
    } else if l == "1"@ || l == "true"@ || l == "on"@ {
        Some(true)
    } else {
        None
    }
}

/// The refusal of an input that names no bit.
pub open spec fn bit_input_message() -> Seq<char> {
    "bit タグには 0/1（または true/false）を入力してください"@
}

/// `s` with ASCII letters lowered.
fn to_ascii_lowercase(s: &str) -> (r: String)
    ensures
        r@ == ascii_lower(s@),
{
    let mut out = String::new();
    let n = s.unicode_len();
    let mut i: usize = 0;
    while i < n
        invariant
            n == s@.len(),
            i <= n,
            out@ == ascii_lower(s@.take(i as int)),
        decreases n - i,
    {
        let c = s.get_char(i);
        let l = if 'A' <= c && c <= 'Z' {
            ((c as u8) + 32) as char
        } else {
            c
        };
        push_char(&mut out, l);
        proof {
            assert(s@.take(i as int + 1) =~= s@.take(i as int).push(c));
            assert(ascii_lower(s@.take(i as int + 1)) =~= ascii_lower(s@.take(i as int)).push(
                ascii_lower_char(c),
            ));
        }
        i = i + 1;
    }
    proof {
        assert(s@.take(n as int) =~= s@);
    }
    out
}

/// Parses a (trimmed) manual-write input for a bit tag.
pub fn parse_bit_input(input: &str) -> (r: Result<bool, String>)
    ensures
        r matches Ok(b) ==> bit_input_value(input@) == Some(b),
        r matches Err(m) ==> bit_input_value(input@) is None && m@ == bit_input_message(),
        r is Ok <==> bit_input_value(input@) is Some,
{
    let l = to_ascii_lowercase(input);
    let t = l.as_str();
    if str_eq(t, "0") || str_eq(t, "false") || str_eq(t, "off") {
        Ok(false)
    } else if str_eq(t, "1") || str_eq(t, "true") || str_eq(t, "on") {
        Ok(true)
    } else {
        Err(String::from_str("bit タグには 0/1（または true/false）を入力してください"))
    }
}

/// How many of the first `i` tags of a group resolved to a wire read
/// (`None` marks a resolved tag; `Some(reason)` one that did not).
pub open spec fn readable_before(resolved: Seq<Option<String>>, i: int) -> nat
    decreases i,
{
    if i <= 0 {
        0
    } else {
        readable_before(resolved, i - 1) + (if resolved[i - 1] is None { 1nat } else { 0nat })
    }
}

/// What the monitor shows for tag `i` of a group read.
pub open spec fn group_entry<V>(
    resolved: Seq<Option<String>>,
    read: Result<Seq<Result<V, String>>, String>,
    i: int,
) -> (Option<V>, Seq<char>) {
    match resolved[i] {
        Some(reason) => (None, reason@),
        None => match read {
            Err(message) => (None, message@),
            Ok(results) => match results[readable_before(resolved, i) as int] {
                Ok(v) => (Some(v), Seq::empty()),
                Err(e) => (None, e@),
            },
        },
    }
}

/// The view of one assembled entry: its value, or no value and why.
pub open spec fn entry_view<V>(e: Result<V, String>) -> (Option<V>, Seq<char>) {
    match e {
        Ok(v) => (Some(v), Seq::empty()),
        Err(m) => (None, m@),
    }
}

/// A read's results as a sequence (or the connection's failure).
pub open spec fn read_results<V>(read: Result<Vec<Result<V, String>>, String>) -> Result<
    Seq<Result<V, String>>,
    String,
> {
    match read {
        Ok(results) => Ok(results@),
        Err(m) => Err(m),
    }
}

/// Puts one group read back together, one entry per tag in order: a tag
/// that did not resolve keeps its own reason; the resolved tags take the
/// read's results in order (the broker answers in request order), or all
/// take the connection's failure when the whole read failed. No tag is
/// dropped.
pub fn assemble_group_read<V>(
    resolved: &Vec<Option<String>>,
    read: Result<Vec<Result<V, String>>, String>,
) -> (r: Vec<Result<V, String>>)
    requires
        read matches Ok(results) ==> results@.len() >= readable_before(resolved@, resolved@.len() as int),
    ensures
        r@.len() == resolved@.len(),
        forall|i: int|
            0 <= i < r@.len() ==> #[trigger] entry_view(r@[i]) == group_entry(
                resolved@,
                read_results(read),
                i,
            ),
{
    let ghost read_view = read_results(read);
    let n = resolved.len();
    let mut out: Vec<Result<V, String>> = Vec::new();
    match read {
        Err(message) => {
            let mut i: usize = 0;
            while i < n
                invariant
                    n == resolved@.len(),
                    i <= n,
                    read_view == Err::<Seq<Result<V, String>>, String>(message),
                    out@.len() == i,
                    forall|j: int|
                        0 <= j < i ==> #[trigger] entry_view(out@[j]) == group_entry(
                            resolved@,
                            read_view,
                            j,
                        ),
                decreases n - i,
            {
                match &resolved[i] {
                    Some(reason) => out.push(Err(reason.clone())),
                    None => out.push(Err(message.clone())),
                }
                i = i + 1;
            }
        },
        Ok(results) => {
            let ghost all = results@;
            let mut rest = results;
            let mut i: usize = 0;
            while i < n
                invariant
                    n == resolved@.len(),
                    i <= n,
                    read_view == Ok::<Seq<Result<V, String>>, String>(all),
                    all.len() >= readable_before(resolved@, n as int),
                    readable_before(resolved@, i as int) <= all.len(),
                    rest@ == all.subrange(readable_before(resolved@, i as int) as int, all.len() as int),
                    out@.len() == i,
                    forall|j: int|
                        0 <= j < i ==> #[trigger] entry_view(out@[j]) == group_entry(
                            resolved@,
                            read_view,
                            j,
                        ),
                decreases n - i,
            {
                proof {
                    lemma_readable_before_monotone(resolved@, i as int + 1, n as int);
                }
                match &resolved[i] {
                    Some(reason) => out.push(Err(reason.clone())),
                    None => {
                        let v = rest.remove(0);
                        out.push(v);
                    },
                }
                proof {
                    assert(rest@ =~= all.subrange(
                        readable_before(resolved@, i as int + 1) as int,
                        all.len() as int,
                    ));
                }
                i = i + 1;
            }
        },
    }
    out
}

/// Counting resolved tags over a longer prefix never gives fewer.
proof fn lemma_readable_before_monotone(resolved: Seq<Option<String>>, i: int, j: int)
    requires
        i <= j,
    ensures
        readable_before(resolved, i) <= readable_before(resolved, j),
    decreases j - i,
{
    if i < j {
        lemma_readable_before_monotone(resolved, i, j - 1);
    }
}

/// A manual write's input was refused: a validation error on `value`.
pub fn value_error(message: String) -> (r: ServiceError)
    ensures
        r matches ServiceError::Validation { field_errors } && field_errors@.len() == 1
            && field_errors@[0].field@ == "value"@ && field_errors@[0].message@ == message@,
{
    ServiceError::Validation { field_errors: vec![FieldError { field: String::from_str("value"), message }] }
}

/// The integer wire types (whose raw values are whole counts).
pub open spec fn integer_wire_type(data_type: Seq<char>) -> bool {
    data_type == "i16"@ || data_type == "u16"@ || data_type == "i32"@ || data_type == "u32"@
}

/// Whether a manually written engineering value, once unscaled, is rounded
/// to the nearest raw count: only when a scaling was applied and the wire
/// type is an integer. A raw value typed directly is never rounded, so a
/// fractional input into an integer device is refused by the encoder
/// instead of silently changed.
pub fn rounds_unscaled_value(has_scaling: bool, data_type: &str) -> (r: bool)
    ensures
        r == (has_scaling && integer_wire_type(data_type@)),
{
    has_scaling && (str_eq(data_type, "i16") || str_eq(data_type, "u16") || str_eq(data_type, "i32")
        || str_eq(data_type, "u32"))
}

} // verus!
