//! Which plain messages the bot answers.
use crate::text::{eq_ignore_ascii_case, lowercase, same_text, same_text_ignoring_ascii_case, to_lowercase};
use vstd::prelude::*;

verus! {

/// A message asking for the ping embed: `!ping` in any case.
pub fn is_ping_request(content: &str) -> (b: bool)
    ensures
        b == (lowercase(content@) == "!ping"@),
{
    let lower = to_lowercase(content);
    same_text(lower.as_str(), "!ping")
}

/// A message asking for the status embed: `!status`, ASCII letters in any case.
pub fn is_status_request(content: &str) -> (b: bool)
    ensures
        b == eq_ignore_ascii_case(content@, "!status"@),
{
    same_text_ignoring_ascii_case(content, "!status")
}

} // verus!
