//! The two boolean classifiers and the ordinal preference lookup.
//!
//! `interested` is permissive: only the literal negative answer counts as
//! `false`. `know` is conservative: only the literal affirmative answer
//! counts as `true`. The two polarities are deliberately asymmetric.
//! `preference` is a fallible lookup over three recognized categories; its
//! caller decides what to do with an unrecognized one.

use vstd::prelude::*;
use crate::chars::chars_eq;
use crate::chars::chars_of;
use crate::chars::str_is;

verus! {

/// `false` exactly for the literal negative answer; everything else,
/// empty or malformed text included, counts as interested.
pub open spec fn interested_spec(s: Seq<char>) -> bool {
    s != "not interested"@
}

/// `true` exactly for the literal affirmative answer; everything else,
/// empty or malformed text included, counts as not knowing.
pub open spec fn know_spec(s: Seq<char>) -> bool {
    s == "yes"@
}

/// The ordinal for each recognized preference category, and an error for
/// any other text.
pub open spec fn preference_spec(s: Seq<char>) -> Result<i32, ()> {
    if s == "new"@ {
        Ok(1i32)
    } else if s == "no preference"@ {
        Ok(0i32)
    } else if s == "used"@ {
        Ok(-1i32)
    } else {
        Err(())
    }
}

/// Whether the respondent is interested, as [`interested_spec`] describes.
pub fn sanitize_interested(s: &str) -> (r: bool)
    ensures
        r == interested_spec(s@),
{
    let negative = chars_of("not interested");
    !str_is(s, &negative)
}

/// Whether the respondent knows the product, as [`know_spec`] describes.
pub fn sanitize_know(s: &str) -> (r: bool)
    ensures
        r == know_spec(s@),
{
    let affirmative = chars_of("yes");
    str_is(s, &affirmative)
}

/// The preference ordinal, or an error for an unrecognized category, as
/// [`preference_spec`] describes. The row normalizer recovers from the
/// error by substituting the neutral value.
pub fn sanitize_preference(s: &str) -> (r: Result<i32, ()>)
    ensures
        r == preference_spec(s@),
{
    let cs = chars_of(s);
    let new_text = chars_of("new");
    let neutral_text = chars_of("no preference");
    let used_text = chars_of("used");
    if chars_eq(&cs, &new_text) {
        Ok(1)
    } else if chars_eq(&cs, &neutral_text) {
        Ok(0)
    } else if chars_eq(&cs, &used_text) {
        Ok(-1)
    } else {
        Err(())
    }
}

} // verus!
