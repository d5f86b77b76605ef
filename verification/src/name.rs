//! The short name of an output: the name of its device directory without the
//! card prefix.
//!
//! The prefix is found by the `regex` crate.

use vstd::prelude::*;

verus! {

/// The card prefix: `card`, one or more digits and a hyphen, at the start.
pub const CARD_PREFIX: &'static str = "^card\\d+-";

/// The error with which `regex` refuses a pattern.
#[verifier::external_type_specification]
#[verifier::external_body]
pub struct ExPatternError(regex::Error);

/// What `regex` makes of a pattern, a text and a replacement: the text with
/// its first match of the pattern replaced, or `None` where the pattern does
/// not compile.
pub uninterp spec fn regex_replaced(
    pattern: Seq<char>,
    text: Seq<char>,
    replacement: Seq<char>,
) -> Option<Seq<char>>;

/// Calls `regex::Regex::new` on `pattern` and `Regex::replace` of what was
/// compiled on `text` and `replacement`.
///
/// Trusted, not proved. Both calls return the same for the same arguments;
/// nothing else is claimed of them.
#[verifier::external_body]
fn replace_first(pattern: &str, text: &str, replacement: &str) -> (r: Result<String, regex::Error>)
    ensures
        match r {
            Ok(replaced) => regex_replaced(pattern@, text@, replacement@) == Some(replaced@),
            Err(_) => regex_replaced(pattern@, text@, replacement@) is None,
        },
{
    match regex::Regex::new(pattern) {
        Ok(compiled) => Ok(compiled.replace(text, replacement).into_owned()),
        Err(refusal) => Err(refusal),
    }
}

/// The text that a replacement yields, or `None` for a refused pattern.
pub fn name_of_replacement(replaced: Result<String, regex::Error>) -> (r: Option<String>)
    ensures
        match replaced {
            Ok(name) => r == Some(name),
            Err(_) => r is None,
        },
{
    match replaced {
        Ok(name) => Some(name),
        Err(_) => None,
    }
}

/// The short name of the directory name `directory_name`: the name with its
/// first match of the card prefix replaced by nothing.
pub open spec fn short_name_spec(directory_name: Seq<char>) -> Option<Seq<char>> {
    regex_replaced(CARD_PREFIX@, directory_name, ""@)
}

/// The short name of an output from the name of its device directory, or
/// `None` where the pattern engine refuses the card prefix.
pub fn short_name(directory_name: &str) -> (r: Option<String>)
    ensures
        match r {
            Some(name) => short_name_spec(directory_name@) == Some(name@),
            None => short_name_spec(directory_name@) is None,
        },
{
    name_of_replacement(replace_first(CARD_PREFIX, directory_name, ""))
}

} // verus!
