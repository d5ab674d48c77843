//! The two values the inspector takes from its surroundings: the current time
//! (from `jiff`) and fresh random identifiers (from `uuid`).
use vstd::prelude::*;

verus! {

/// Earliest instant `jiff::Timestamp` represents, in nanoseconds since the epoch.
pub open spec fn timestamp_min() -> int {
    -377705023201 * 1000000000
}

/// Latest instant `jiff::Timestamp` represents, in nanoseconds since the epoch.
pub open spec fn timestamp_max() -> int {
    253402207200int * 1000000000 + 999999999
}

/// `t` is a nanosecond count that `jiff::Timestamp` can hold.
pub open spec fn timestamp_in_range(t: int) -> bool {
    timestamp_min() <= t <= timestamp_max()
}

/// The current system time, from `jiff::Timestamp::now`, as nanoseconds since
/// the Unix epoch (`Timestamp::as_nanosecond`).
///
/// Claimed: the value lies in the range every `jiff::Timestamp` lies in.
/// Nothing else is said of it: it depends on the clock. `jiff` panics when
/// the system clock lies outside that range.
#[verifier::external_body]
pub fn now_nanos() -> (t: i128)
    ensures
        timestamp_in_range(t as int),
{
    jiff::Timestamp::now().as_nanosecond()
}

/// A lowercase hexadecimal digit.
pub open spec fn is_lower_hex(c: char) -> bool {
    ('0' <= c <= '9') || ('a' <= c <= 'f')
}

/// The shape of a hyphenated version-4 UUID: 36 characters, hyphens at
/// positions 8, 13, 18 and 23, the version digit `4` at position 14, and
/// lowercase hexadecimal digits everywhere else.
pub open spec fn is_uuid_v4_text(s: Seq<char>) -> bool {
    &&& s.len() == 36
    &&& forall|i: int|
        0 <= i < 36 ==> if i == 8 || i == 13 || i == 18 || i == 23 {
            s[i] == '-'
        } else {
            is_lower_hex(#[trigger] s[i])
        }
    &&& s[14] == '4'
}

/// A fresh random identifier: `uuid::Uuid::new_v4()` rendered by its
/// `Display` impl.
///
/// Claimed: the text has the hyphenated lowercase shape that `Uuid`'s
/// `Display` writes, with the version digit of a version-4 UUID. Which
/// identifier comes out is left open: it is random.
#[verifier::external_body]
pub fn fresh_uuid() -> (s: String)
    ensures
        is_uuid_v4_text(s@),
{
    uuid::Uuid::new_v4().to_string()
}

/// Whether `t` is a nanosecond count that `jiff::Timestamp` can hold.
pub fn is_timestamp_in_range(t: i128) -> (b: bool)
    ensures
        b == timestamp_in_range(t as int),
{
    -377705023201000000000i128 <= t && t <= 253402207200999999999i128
}

/// `t` rendered by `jiff` in the machine's time zone: the timestamp made by
/// `Timestamp::from_nanosecond`, turned into a zoned datetime with
/// `to_zoned(TimeZone::system())`, then written with its `Display` impl.
///
/// Nothing is claimed of the text: it depends on the machine's time zone.
/// `from_nanosecond` succeeds exactly on the nanosecond counts that
/// `timestamp_in_range` admits, which the precondition asks for.
#[verifier::external_body]
pub fn local_time_text(t: i128) -> (s: String)
    requires
        timestamp_in_range(t as int),
{
    jiff::Timestamp::from_nanosecond(t).unwrap().to_zoned(jiff::tz::TimeZone::system()).to_string()
}

} // verus!
