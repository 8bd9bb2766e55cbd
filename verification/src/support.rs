//! Validation messages shared by the registry services, and the save-time
//! Shift-JIS check for text bound for a MELSEC string device, and how a
//! failed write is reported.

use vstd::prelude::*;
use vstd::string::*;

use crate::error::{FieldError, ServiceError};
use crate::text::{int_decimal, nat_digits, push_i64, push_u64};

verus! {

/// The message for a required field left empty.
pub open spec fn required_text() -> Seq<char> {
    "必須項目です"@
}

/// "Required".
pub fn required_message() -> (r: String)
    ensures
        r@ == required_text(),
{
    String::from_str("必須項目です")
}

/// The message for a text longer than `max` characters.
pub open spec fn max_length_text(max: nat) -> Seq<char> {
    nat_digits(max) + "文字以内で入力してください"@
}

/// "At most `max` characters".
pub fn max_length_message(max: usize) -> (r: String)
    ensures
        r@ == max_length_text(max as nat),
{
    let mut s = String::new();
    push_u64(&mut s, max as u64);
    s.append("文字以内で入力してください");
    s
}

/// The message for a number outside `min..=max`.
pub open spec fn range_text(min: int, max: int) -> Seq<char> {
    int_decimal(min) + "〜"@ + int_decimal(max) + "の範囲で入力してください"@
}

/// "Between `min` and `max`".
pub fn range_message(min: i64, max: i64) -> (r: String)
    ensures
        r@ == range_text(min as int, max as int),
{
    let mut s = String::new();
    push_i64(&mut s, min);
    s.append("〜");
    push_i64(&mut s, max);
    s.append("の範囲で入力してください");
    s
}

/// What `encoding_rs::SHIFT_JIS.encode` produces for `text`: the encoded
/// bytes and whether some character had no Shift-JIS representation.
pub uninterp spec fn shift_jis_encode(text: Seq<char>) -> (Seq<u8>, bool);

/// `encoding_rs::SHIFT_JIS.encode(text)`, reduced to the encoded length and
/// the had-unmappable-characters flag.
#[verifier::external_body]
fn shift_jis_encoded_len(text: &str) -> (r: (usize, bool))
    ensures
        r.0 == shift_jis_encode(text@).0.len(),
        r.1 == shift_jis_encode(text@).1,
{
    let (bytes, _, had_errors) = encoding_rs::SHIFT_JIS.encode(text);
    (bytes.len(), had_errors)
}

/// The byte capacity of a `words`-word string device: two bytes a word
/// (saturating; a negative word count leaves no limit).
pub open spec fn word_capacity(words: i64) -> int {
    if words < 0 || 2 * words > usize::MAX {
        usize::MAX as int
    } else {
        2 * words
    }
}

/// Why text encoding to `len` Shift-JIS bytes (`had_errors` when some
/// character had no Shift-JIS form) cannot be written to a `words`-word
/// string device, or `None` when it can.
pub open spec fn sjis_error_of(len: nat, had_errors: bool, words: i64) -> Option<Seq<char>> {
    if had_errors {
        Some("Shift-JIS で表現できない文字を含みます"@)
    } else if len > word_capacity(words) {
        Some(
            "Shift-JIS で "@ + nat_digits(len) + " バイトになり、"@ + int_decimal(words as int) + " 語（"@
                + nat_digits(word_capacity(words) as nat) + " バイト）に収まりません"@,
        )
    } else {
        None
    }
}

/// Why `text` cannot be written to a `words`-word string device, or `None`
/// when it can: it holds a character Shift-JIS cannot represent, or its
/// encoded bytes exceed the device's capacity.
pub open spec fn sjis_error_spec(text: Seq<char>, words: i64) -> Option<Seq<char>> {
    sjis_error_of(shift_jis_encode(text).0.len(), shift_jis_encode(text).1, words)
}

/// The verdict on text already encoded to `encoded_len` Shift-JIS bytes
/// (see [`sjis_error_of`]).
pub fn sjis_error_from_encoding(encoded_len: usize, had_errors: bool, words: i64) -> (r: Option<String>)
    ensures
        match r {
            Some(m) => sjis_error_of(encoded_len as nat, had_errors, words) == Some(m@),
            None => sjis_error_of(encoded_len as nat, had_errors, words) is None,
        },
{
    if had_errors {
        return Some(String::from_str("Shift-JIS で表現できない文字を含みます"));
    }
    let capacity: usize = if words < 0 {
        usize::MAX
    } else if words as u64 > (usize::MAX / 2) as u64 {
        usize::MAX
    } else {
        (words as usize) * 2
    };
    proof {
        assert(capacity as int == word_capacity(words));
    }
    if encoded_len > capacity {
        let mut s = String::from_str("Shift-JIS で ");
        push_u64(&mut s, encoded_len as u64);
        s.append(" バイトになり、");
        push_i64(&mut s, words);
        s.append(" 語（");
        push_u64(&mut s, capacity as u64);
        s.append(" バイト）に収まりません");
        Some(s)
    } else {
        None
    }
}

/// Save-time check of text bound for a `words`-word string device; see
/// [`sjis_error_spec`].
pub fn sjis_text_error(text: &str, words: i64) -> (r: Option<String>)
    ensures
        match r {
            Some(m) => sjis_error_spec(text@, words) == Some(m@),
            None => sjis_error_spec(text@, words) is None,
        },
{
    let (len, had_errors) = shift_jis_encoded_len(text);
    sjis_error_from_encoding(len, had_errors, words)
}

/// Which constraint a failed write violated.
#[derive(Clone, Copy, PartialEq, Eq, Debug, Structural)]
pub enum WriteViolation {
    /// A `UNIQUE` column (every entity's `name`).
    Unique,
    /// A `FOREIGN KEY` to a parent row.
    ForeignKey,
    /// Anything else.
    Other,
}

/// The service error for a failed write: a taken name or a missing parent
/// becomes a field error, anything else a storage failure with the
/// database's own text.
pub fn write_error(
    violation: WriteViolation,
    unique_field: &str,
    fk_field: &str,
    fk_message: &str,
    storage_text: String,
) -> (r: ServiceError)
    ensures
        match violation {
            WriteViolation::Unique => r matches ServiceError::Validation { field_errors }
                && field_errors@.len() == 1 && field_errors@[0].field@ == unique_field@
                && field_errors@[0].message@ == "既に使用されています"@,
            WriteViolation::ForeignKey => r matches ServiceError::Validation { field_errors }
                && field_errors@.len() == 1 && field_errors@[0].field@ == fk_field@
                && field_errors@[0].message@ == fk_message@,
            WriteViolation::Other => r matches ServiceError::Storage(m) && m@ == storage_text@,
        },
{
    match violation {
        WriteViolation::Unique => ServiceError::Validation {
            field_errors: vec![
                FieldError { field: unique_field.to_owned(), message: String::from_str("既に使用されています") },
            ],
        },
        WriteViolation::ForeignKey => ServiceError::Validation {
            field_errors: vec![FieldError { field: fk_field.to_owned(), message: fk_message.to_owned() }],
        },
        WriteViolation::Other => ServiceError::Storage(storage_text),
    }
}

/// Scaling is all or nothing: the four bounds count only when every one
/// is set.
pub fn collapse_scaling<T: Copy>(raw_lo: Option<T>, raw_hi: Option<T>, eng_lo: Option<T>, eng_hi: Option<T>) -> (r:
    Option<(T, T, T, T)>)
    ensures
        match (raw_lo, raw_hi, eng_lo, eng_hi) {
            (Some(a), Some(b), Some(c), Some(d)) => r == Some((a, b, c, d)),
            _ => r is None,
        },
{
    match (raw_lo, raw_hi, eng_lo, eng_hi) {
        (Some(a), Some(b), Some(c), Some(d)) => Some((a, b, c, d)),
        _ => None,
    }
}

} // verus!
