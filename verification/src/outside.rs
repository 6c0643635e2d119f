//! What this library takes on trust from code that is not verified here.

use vstd::prelude::*;
use rand::Rng;

verus! {

/// `String::push_str` of the standard library appends the given string slice
/// to the end of the string.
pub assume_specification[ String::push_str ](s: &mut String, other: &str)
    ensures
        final(s)@ == old(s)@ + other@,
;

/// The escape sequence that `termion::style::Bold` writes: the control
/// sequence introducer followed by `1m`.
#[verifier::external_body]
pub(crate) fn bold_code() -> (code: String)
    ensures
        code@ == "\x1B[1m"@,
{
    format!("{}", termion::style::Bold)
}

/// The escape sequence that `termion::style::Underline` writes: the control
/// sequence introducer followed by `4m`.
#[verifier::external_body]
pub(crate) fn underline_code() -> (code: String)
    ensures
        code@ == "\x1B[4m"@,
{
    format!("{}", termion::style::Underline)
}

/// The escape sequence that `termion::style::Reset` writes: the control
/// sequence introducer followed by `m`.
#[verifier::external_body]
pub(crate) fn style_reset_code() -> (code: String)
    ensures
        code@ == "\x1B[m"@,
{
    format!("{}", termion::style::Reset)
}

/// `Rng::gen_range` of `rand` on the thread's generator, over the inclusive
/// range from `low` to `high`. The range must not be empty; the number drawn
/// lies in it, and nothing more is known of it.
#[verifier::external_body]
pub(crate) fn random_in_range(low: u16, high: u16) -> (drawn: u16)
    requires
        low <= high,
    ensures
        low <= drawn <= high,
{
    rand::thread_rng().gen_range(low..=high)
}

/// `Rng::gen_range` of `rand` on the thread's generator, over all byte values.
/// Nothing is known of the byte drawn.
#[verifier::external_body]
pub(crate) fn random_byte() -> u8 {
    rand::thread_rng().gen_range(0..=255)
}

} // verus!
