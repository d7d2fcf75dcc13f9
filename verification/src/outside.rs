use vstd::prelude::*;

verus! {

/// Relies on String's FromIterator impl: collecting chars concatenates
/// exactly those chars, in order, into the returned string.
#[verifier::external_body]
pub fn chars_to_string(v: Vec<char>) -> (r: String)
    ensures
        r@ == v@,
{
    v.into_iter().collect()
}

/// Relies on str::chars and Vec's FromIterator impl: collecting the
/// chars of a string yields exactly its characters, in order.
#[verifier::external_body]
pub fn str_to_chars(s: &str) -> (r: Vec<char>)
    ensures
        r@ == s@,
{
    s.chars().collect()
}

/// Relies on dateparser::DateTimeUtc's FromStr impl and
/// chrono::DateTime::timestamp: a recognised datetime string parses to
/// its epoch seconds, an unrecognised one to `None`.  Inputs without an
/// explicit date or timezone are completed from the machine's clock and
/// local timezone, so nothing relates the value to the text alone.
#[verifier::external_body]
pub fn parse_timestamp(s: &str) -> (r: Option<i64>)
{
    match s.parse::<dateparser::DateTimeUtc>() {
        Ok(d) => Some(d.0.timestamp()),
        Err(_) => None,
    }
}

/// Relies on uuid::Uuid::new_v4 and Uuid::as_u128: a freshly drawn
/// random (version 4) identifier.  Randomness promises nothing about
/// the value.
#[verifier::external_body]
pub fn new_point_id() -> (r: u128)
{
    uuid::Uuid::new_v4().as_u128()
}

/// Relies on chrono::Utc::now and DateTime::timestamp: the machine
/// clock's epoch seconds, about which nothing can be promised.
#[verifier::external_body]
pub fn now_timestamp() -> (r: i64)
{
    chrono::Utc::now().timestamp()
}

} // verus!
