//! The greeting offered to a named user.

use vstd::prelude::*;

verus! {

/// The greeting for `name`.
pub open spec fn greeting(name: Seq<char>) -> Seq<char> {
    "Hello, "@ + name + "! You've been greeted from Rust!"@
}

/// The complaint returned when no name is given.
pub open spec fn missing_name_message() -> Seq<char> {
    "Don't be so shy, introduce yourself"@
}

/// Greets `name`; an empty name is rejected.
pub fn greet(name: &str) -> (result: Result<String, String>)
    ensures
        match result {
            Ok(text) => name@.len() > 0 && text@ == greeting(name@),
            Err(message) => name@.len() == 0 && message@ == missing_name_message(),
        },
{
    if name.is_empty() {
        return Err("Don't be so shy, introduce yourself".to_string());
    }
    let mut text = "Hello, ".to_string();
    text.append(name);
    text.append("! You've been greeted from Rust!");
    Ok(text)
}

} // verus!
