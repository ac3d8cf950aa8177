//! The confirmation that ends a timed wait.

use crate::text::append_decimal;
use crate::text::decimal_digits;
use vstd::prelude::*;

verus! {

/// The confirmation text after a wait of `duration` seconds.
pub open spec fn confirmation_text(duration: nat) -> Seq<char> {
    "Async task completed after "@ + decimal_digits(duration) + " seconds"@
}

/// Builds the confirmation that is returned once a wait of `duration`
/// seconds is over.
pub fn confirmation(duration: u64) -> (text: String)
    ensures
        text@ == confirmation_text(duration as nat),
{
    let mut text = "Async task completed after ".to_string();
    append_decimal(&mut text, duration);
    text.append(" seconds");
    text
}

} // verus!
