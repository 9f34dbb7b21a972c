use vstd::prelude::*;

use crate::text::{chars_of, find_char, piece_end, substring};

verus! {

/// Why a token could not be made or checked.
pub enum JwtError {
    GenerationFailed(String),
    ValidationFailed(String),
}

/// The text that describes a token error.
pub open spec fn jwt_error_text(e: JwtError) -> Seq<char> {
    match e {
        JwtError::GenerationFailed(d) => "Token generation failed: "@ + d@,
        JwtError::ValidationFailed(d) => "Token validation failed: "@ + d@,
    }
}

impl JwtError {
    /// The text that describes this error.
    pub fn message(&self) -> (r: String)
        ensures
            r@ == jwt_error_text(*self),
    {
        match self {
            JwtError::GenerationFailed(d) => String::from_str("Token generation failed: ").concat(
                d.as_str(),
            ),
            JwtError::ValidationFailed(d) => String::from_str("Token validation failed: ").concat(
                d.as_str(),
            ),
        }
    }
}

/// The seconds in an hour.
pub const SECONDS_PER_HOUR: i64 = 3600;

/// When a token issued at `issued_at` (seconds since the epoch) for
/// `expires_in_hours` hours expires; `None` where that does not fit in an
/// `i64`.
pub fn expiry_time(issued_at: i64, expires_in_hours: i64) -> (r: Option<i64>)
    ensures
        ({
            let t = issued_at + expires_in_hours * 3600;
            if i64::MIN <= expires_in_hours * 3600 <= i64::MAX && i64::MIN <= t <= i64::MAX {
                r == Some(t as i64)
            } else {
                r is None
            }
        }),
{
    match expires_in_hours.checked_mul(SECONDS_PER_HOUR) {
        None => None,
        Some(span) => issued_at.checked_add(span),
    }
}

/// The header and payload segments of a token of exactly three
/// `.`-separated segments; `None` for any other number of segments.
pub open spec fn token_segments_of(t: Seq<char>) -> Option<(Seq<char>, Seq<char>)> {
    let d1 = piece_end(t, 0, '.');
    let d2 = piece_end(t, d1 + 1, '.');
    let d3 = piece_end(t, d2 + 1, '.');
    if d1 < t.len() && d2 < t.len() && d3 == t.len() {
        Some((t.subrange(0, d1), t.subrange(d1 + 1, d2)))
    } else {
        None
    }
}

/// Splits a token into its header and payload segments, where it has
/// exactly three segments.
pub fn token_segments(token: &str) -> (r: Option<(String, String)>)
    ensures
        match r {
            Some((h, p)) => token_segments_of(token@) == Some((h@, p@)),
            None => token_segments_of(token@) is None,
        },
{
    let cs = chars_of(token);
    let n = cs.len();
    let d1 = find_char(&cs, 0, '.');
    if d1 >= n {
        return None;
    }
    let d2 = find_char(&cs, d1 + 1, '.');
    if d2 >= n {
        return None;
    }
    let d3 = find_char(&cs, d2 + 1, '.');
    if d3 != n {
        return None;
    }
    Some((substring(token, 0, d1), substring(token, d1 + 1, d2)))
}

} // verus!
