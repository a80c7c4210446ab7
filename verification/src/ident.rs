use vstd::prelude::*;

use crate::text::concat;

verus! {

/// A lower-case hexadecimal digit.
pub open spec fn is_lower_hex(c: char) -> bool {
    ('0' <= c && c <= '9') || ('a' <= c && c <= 'f')
}

/// The simple form of a UUID: 32 lower-case hexadecimal digits.
pub open spec fn is_simple_uuid(s: Seq<char>) -> bool {
    s.len() == 32 && forall|i: int| 0 <= i < s.len() ==> is_lower_hex(#[trigger] s[i])
}

/// A generated identifier: `prefix` followed by a simple UUID.
pub open spec fn is_generated_id(s: Seq<char>, prefix: Seq<char>) -> bool {
    s.len() == prefix.len() + 32 && s.subrange(0, prefix.len() as int) == prefix && is_simple_uuid(
        s.subrange(prefix.len() as int, s.len() as int),
    )
}

/// A fresh random version-4 UUID in simple form (`uuid::Uuid::new_v4().simple()`,
/// rendered as a string). The crate formats the simple form as 32 lower-case hexadecimal
/// digits; the value itself is random, so nothing more is stated.
#[verifier::external_body]
pub(crate) fn random_uuid_simple() -> (s: String)
    ensures
        is_simple_uuid(s@),
{
    uuid::Uuid::new_v4().simple().to_string()
}

/// The current time in milliseconds since the Unix epoch (`chrono::Utc::now().timestamp_millis()`).
/// It depends on the clock, so nothing is stated of it.
#[verifier::external_body]
pub(crate) fn now_millis() -> i64 {
    chrono::Utc::now().timestamp_millis()
}

/// The current time in seconds since the Unix epoch (`chrono::Utc::now().timestamp()`).
/// It depends on the clock, so nothing is stated of it.
#[verifier::external_body]
pub(crate) fn now_seconds() -> i64 {
    chrono::Utc::now().timestamp()
}

/// A fresh identifier made of `prefix` and a random simple UUID, as `format!("{prefix}{uuid}")`.
pub fn generate_id(prefix: &str) -> (s: String)
    ensures
        is_generated_id(s@, prefix@),
{
    let u = random_uuid_simple();
    let s = concat(prefix, u.as_str());
    assert(s@.subrange(0, prefix@.len() as int) =~= prefix@);
    assert(s@.subrange(prefix@.len() as int, s@.len() as int) =~= u@);
    s
}

/// The current time in milliseconds, as reported by the system clock.
pub fn current_time_millis() -> i64 {
    now_millis()
}

/// The current time in seconds, as reported by the system clock.
pub fn current_time_seconds() -> i64 {
    now_seconds()
}

} // verus!
