//! Trusted wrappers around outside crates: the wall clock, human-readable
//! durations, and base64 encoding.

use vstd::prelude::*;
use vstd::string::StringSliceAdditionalSpecFns;
use base64::Engine;

verus! {

/// Relies on chrono::Utc::now: the current wall-clock time in milliseconds
/// since the epoch. Nothing is assumed of the value returned.
#[verifier::external_body]
pub(crate) fn now_millis() -> i64 {
    chrono::Utc::now().timestamp_millis()
}

/// The human-readable English phrase that chrono_humanize produces for a
/// duration of `ms` milliseconds.
pub uninterp spec fn human_duration_of(ms: int) -> Seq<char>;

/// Relies on chrono_humanize::HumanTime: the phrase depends on the
/// duration alone. Negative arguments are excluded: chrono's duration
/// constructor rejects values below the negated maximum, so the most
/// negative argument would end the process.
#[verifier::external_body]
pub(crate) fn humanize_millis(ms: i64) -> (r: String)
    requires
        ms >= 0,
    ensures
        r@ == human_duration_of(ms as int),
{
    let duration = chrono::Duration::milliseconds(ms);
    format!("{}", chrono_humanize::HumanTime::from(duration))
}

/// The standard base64 encoding (with padding) of the UTF-8 bytes of `s`.
pub uninterp spec fn base64_of(s: Seq<char>) -> Seq<char>;

/// Relies on base64's general_purpose::STANDARD engine: the encoding
/// depends on the input bytes alone; an empty input encodes to the empty
/// string. The length bound keeps the engine's output-size computation
/// from overflowing.
#[verifier::external_body]
pub(crate) fn base64_encode(s: &str) -> (r: String)
    requires
        s.spec_bytes().len() * 4 <= usize::MAX as int,
    ensures
        r@ == base64_of(s@),
        s@.len() == 0 ==> r@.len() == 0,
{
    base64::engine::general_purpose::STANDARD.encode(s.as_bytes())
}

} // verus!
