//! The age sanitizer: four ordered literal substitutions that compact a
//! free-text age-range phrase into a dashed or plus-prefixed token. No
//! numeric parsing takes place; the result stays free text.

use vstd::prelude::*;
use crate::chars::chars_of;
use crate::chars::string_of;
use crate::text::contains_sub;
use crate::text::lemma_replace_absent;
use crate::text::replace_all;
use crate::text::replace_chars;

verus! {

/// The four substitutions, applied in order: the range prefix and the unit
/// suffix are stripped, the range conjunction becomes a dash, and the
/// open-ended prefix becomes a plus sign.
pub open spec fn age_spec(s: Seq<char>) -> Seq<char> {
    replace_all(
        replace_all(
            replace_all(replace_all(s, "between "@, Seq::<char>::empty()), " years"@, Seq::<char>::empty()),
            " and "@,
            "-"@,
        ),
        "more than "@,
        "+"@,
    )
}

/// A text free of all four patterns is left unchanged. The sanitizer's
/// outputs on the survey's answer domain (dashed ranges, plus-prefixed
/// thresholds) are such texts, so re-running it on them is a no-op.
pub proof fn lemma_age_fixpoint(s: Seq<char>)
    requires
        !contains_sub(s, "between "@),
        !contains_sub(s, " years"@),
        !contains_sub(s, " and "@),
        !contains_sub(s, "more than "@),
    ensures
        age_spec(s) == s,
{
    reveal_strlit("between ");
    reveal_strlit(" years");
    reveal_strlit(" and ");
    reveal_strlit("more than ");
    lemma_replace_absent(s, "between "@, Seq::<char>::empty());
    lemma_replace_absent(s, " years"@, Seq::<char>::empty());
    lemma_replace_absent(s, " and "@, "-"@);
    lemma_replace_absent(s, "more than "@, "+"@);
}

/// Re-running the age sanitizer is a no-op whenever its first run left a
/// text free of the four patterns. (It need not: a first run can splice a
/// pattern together out of surrounding text.)
pub proof fn lemma_age_idempotent(s: Seq<char>)
    requires
        !contains_sub(age_spec(s), "between "@),
        !contains_sub(age_spec(s), " years"@),
        !contains_sub(age_spec(s), " and "@),
        !contains_sub(age_spec(s), "more than "@),
    ensures
        age_spec(age_spec(s)) == age_spec(s),
{
    lemma_age_fixpoint(age_spec(s));
}

/// The compacted age text, as [`age_spec`] describes.
pub fn sanitize_age(s: &str) -> (r: String)
    ensures
        r@ == age_spec(s@),
{
    let cs = chars_of(s);
    let nothing: Vec<char> = Vec::new();
    let between = chars_of("between ");
    let years = chars_of(" years");
    let and_word = chars_of(" and ");
    let dash = chars_of("-");
    let more_than = chars_of("more than ");
    let plus = chars_of("+");
    proof {
        reveal_strlit("between ");
        reveal_strlit(" years");
        reveal_strlit(" and ");
        reveal_strlit("more than ");
        assert(nothing@ =~= Seq::<char>::empty());
    }
    let t1 = replace_chars(&cs, &between, &nothing);
    let t2 = replace_chars(&t1, &years, &nothing);
    let t3 = replace_chars(&t2, &and_word, &dash);
    let t4 = replace_chars(&t3, &more_than, &plus);
    string_of(&t4)
}

} // verus!
