//! The color sanitizer: two sentinel answers short-circuit to no tokens;
//! otherwise punctuation becomes spaces, the text is split on spaces, and
//! each token is trimmed, has its underscore artifacts rewritten (the
//! double-underscore collapse must run before the single one) and an
//! ellipsis artifact deleted, then is upper-cased and held against a
//! denylist of filler words.

use vstd::prelude::*;
use crate::chars::chars_eq;
use crate::chars::chars_of;
use crate::chars::is_wspace;
use crate::chars::str_is;
use crate::chars::str_views;
use crate::chars::string_of;
use crate::chars::to_upper;
use crate::chars::to_upper_chars;
use crate::text::lemma_contains_sub_char;
use crate::text::lemma_replace_absent;
use crate::text::lemma_split_whole;
use crate::text::lemma_trim_fixed;
use crate::text::contains_sub;
use crate::text::replace_all;
use crate::text::replace_chars;
use crate::text::split_any;
use crate::text::split_chars;
use crate::text::trim;
use crate::text::trim_chars;
use crate::text::views;
use crate::tokens::lemma_token_pipeline_empty;
use crate::tokens::lemma_token_pipeline_push;
use crate::tokens::token_pipeline;

verus! {

/// The punctuation pass: each ampersand, comma and exclamation mark
/// becomes a space.
pub open spec fn blank_punct(s: Seq<char>) -> Seq<char> {
    s.map_values(|c: char| if c == '&' || c == ',' || c == '!' { ' ' } else { c })
}

/// The filler and connector words dropped from the color list.
pub open spec fn is_color_filler(t: Seq<char>) -> bool {
    t == "CE"@ || t == "QUI"@ || t == "FLASH"@ || t == "ET"@ || t == "LE"@ || t == "LA"@ || t
        == "LES"@
}

/// The per-token rewrites: trim, collapse a double underscore to one
/// space, delete the ellipsis artifact, then turn remaining underscores
/// into spaces.
pub open spec fn color_token(t: Seq<char>) -> Seq<char> {
    replace_all(
        replace_all(replace_all(trim(t), "__"@, " "@), "..."@, Seq::<char>::empty()),
        "_"@,
        " "@,
    )
}

/// The per-token pass over all tokens: rewrite, drop empties, upper-case,
/// drop fillers.
pub open spec fn clean_color_tokens(ts: Seq<Seq<char>>) -> Seq<Seq<char>> {
    token_pipeline(
        ts,
        |t: Seq<char>| color_token(t),
        |t: Seq<char>| t.len() > 0,
        |t: Seq<char>| to_upper(t),
        |t: Seq<char>| !is_color_filler(t),
    )
}

/// The normalized color tokens of `s`: none for the two sentinel answers,
/// otherwise the token pass over the space-split punctuation-blanked text.
pub open spec fn colors_spec(s: Seq<char>) -> Seq<Seq<char>> {
    if s == "doesn't matter"@ || s == "all colors"@ {
        Seq::<Seq<char>>::empty()
    } else {
        clean_color_tokens(split_any(blank_punct(s), seq![' ']))
    }
}

/// A color token on which the sanitizer acts as the identity: non-empty,
/// upper-cased, not a filler word, with non-whitespace ends, and free of
/// the characters and artifacts the sanitizer rewrites. Tokens the
/// sanitizer emits need not all be of this shape: an underscore in the
/// source becomes a space inside an output token, and on such a token a
/// second run splits again.
pub open spec fn clean_color_token(z: Seq<char>) -> bool {
    z.len() > 0 && to_upper(z) == z && !is_wspace(z[0]) && !is_wspace(z.last())
        && !is_color_filler(z) && !contains_sub(z, "..."@) && forall|j: int|
        0 <= j < z.len() ==> !((#[trigger] z[j]) == ' ' || z[j] == '&' || z[j] == ',' || z[j]
            == '!' || z[j] == '_')
}

/// The color sanitizer leaves a clean color token alone: it comes back
/// as the one token.
pub proof fn lemma_color_fixpoint(z: Seq<char>)
    requires
        clean_color_token(z),
    ensures
        colors_spec(z) == seq![z],
{
    reveal_strlit("doesn't matter");
    reveal_strlit("all colors");
    reveal_strlit("__");
    reveal_strlit("...");
    reveal_strlit("_");
    assert(z != "doesn't matter"@) by {
        if z == "doesn't matter"@ {
            assert(z[7] == ' ');
        }
    }
    assert(z != "all colors"@) by {
        if z == "all colors"@ {
            assert(z[3] == ' ');
        }
    }
    assert(blank_punct(z) =~= z);
    assert forall|i: int| 0 <= i < z.len() implies !seq![' '].contains(#[trigger] z[i]) by {
        if seq![' '].contains(z[i]) {
            let k = choose|k: int| 0 <= k < seq![' '].len() && seq![' '][k] == z[i];
            assert(k == 0);
        }
    }
    lemma_split_whole(z, seq![' ']);
    lemma_trim_fixed(z);
    assert(!contains_sub(z, "__"@)) by {
        if contains_sub(z, "__"@) {
            assert("__"@[0] == '_');
            assert("__"@.contains('_'));
            lemma_contains_sub_char(z, "__"@, '_');
            let j = choose|j: int| 0 <= j < z.len() && z[j] == '_';
            assert(false);
        }
    }
    assert(!contains_sub(z, "_"@)) by {
        if contains_sub(z, "_"@) {
            assert("_"@[0] == '_');
            assert("_"@.contains('_'));
            lemma_contains_sub_char(z, "_"@, '_');
            let j = choose|j: int| 0 <= j < z.len() && z[j] == '_';
            assert(false);
        }
    }
    lemma_replace_absent(z, "__"@, " "@);
    lemma_replace_absent(z, "..."@, Seq::<char>::empty());
    lemma_replace_absent(z, "_"@, " "@);
    assert(color_token(z) == z);
    let ts = seq![z];
    lemma_token_pipeline_empty(
        |t: Seq<char>| color_token(t),
        |t: Seq<char>| t.len() > 0,
        |t: Seq<char>| to_upper(t),
        |t: Seq<char>| !is_color_filler(t),
    );
    lemma_token_pipeline_push(
        ts,
        |t: Seq<char>| color_token(t),
        |t: Seq<char>| t.len() > 0,
        |t: Seq<char>| to_upper(t),
        |t: Seq<char>| !is_color_filler(t),
        0,
    );
    assert(ts.take(0) =~= Seq::<Seq<char>>::empty());
    assert(ts.take(1) =~= ts);
    assert(clean_color_tokens(ts) == Seq::<Seq<char>>::empty().push(z));
    assert(Seq::<Seq<char>>::empty().push(z) =~= seq![z]);
}

/// Blanks punctuation as [`blank_punct`] describes.
fn blank_punct_chars(v: &Vec<char>) -> (r: Vec<char>)
    ensures
        r@ == blank_punct(v@),
{
    let mut out: Vec<char> = Vec::new();
    let mut i: usize = 0;
    while i < v.len()
        invariant
            i <= v.len(),
            out@ == blank_punct(v@.take(i as int)),
        decreases v.len() - i,
    {
        let c = v[i];
        if c == '&' || c == ',' || c == '!' {
            out.push(' ');
        } else {
            out.push(c);
        }
        proof {
            assert(v@.take(i + 1 as int) =~= v@.take(i as int).push(v@[i as int]));
            assert(blank_punct(v@.take(i + 1 as int)) =~= blank_punct(v@.take(i as int)).push(
                out@.last(),
            ));
        }
        i = i + 1;
    }
    proof {
        assert(v@.take(v@.len() as int) =~= v@);
    }
    out
}

/// Whether `u` is one of the filler words, as [`is_color_filler`]
/// describes.
fn is_filler_token(u: &Vec<char>) -> (r: bool)
    ensures
        r == is_color_filler(u@),
{
    let w1 = chars_of("CE");
    let w2 = chars_of("QUI");
    let w3 = chars_of("FLASH");
    let w4 = chars_of("ET");
    let w5 = chars_of("LE");
    let w6 = chars_of("LA");
    let w7 = chars_of("LES");
    chars_eq(u, &w1) || chars_eq(u, &w2) || chars_eq(u, &w3) || chars_eq(u, &w4) || chars_eq(
        u,
        &w5,
    ) || chars_eq(u, &w6) || chars_eq(u, &w7)
}

/// The normalized color tokens, as [`colors_spec`] describes.
pub fn sanitize_colors(s: &str) -> (r: Vec<String>)
    ensures
        str_views(r@) == colors_spec(s@),
{
    let sent1 = chars_of("doesn't matter");
    let sent2 = chars_of("all colors");
    if str_is(s, &sent1) || str_is(s, &sent2) {
        let none: Vec<String> = Vec::new();
        proof {
            assert(str_views(none@) =~= Seq::<Seq<char>>::empty());
        }
        return none;
    }
    let cs = chars_of(s);
    let blanked = blank_punct_chars(&cs);
    let mut delims: Vec<char> = Vec::new();
    delims.push(' ');
    proof {
        assert(delims@ =~= seq![' ']);
    }
    let toks = split_chars(&blanked, &delims);
    let dunder = chars_of("__");
    let space = chars_of(" ");
    let ellipsis = chars_of("...");
    let nothing: Vec<char> = Vec::new();
    let under = chars_of("_");
    proof {
        reveal_strlit("__");
        reveal_strlit("...");
        reveal_strlit("_");
        assert(nothing@ =~= Seq::<char>::empty());
    }
    let ghost tsv = views(toks@);
    let mut out: Vec<String> = Vec::new();
    let mut i: usize = 0;
    proof {
        assert(tsv.take(0) =~= Seq::<Seq<char>>::empty());
        lemma_token_pipeline_empty(
            |t: Seq<char>| color_token(t),
            |t: Seq<char>| t.len() > 0,
            |t: Seq<char>| to_upper(t),
            |t: Seq<char>| !is_color_filler(t),
        );
        assert(str_views(out@) =~= Seq::<Seq<char>>::empty());
    }
    while i < toks.len()
        invariant
            i <= toks@.len(),
            tsv == views(toks@),
            dunder@ == "__"@ && dunder@.len() > 0,
            space@ == " "@,
            ellipsis@ == "..."@ && ellipsis@.len() > 0,
            nothing@ == Seq::<char>::empty(),
            under@ == "_"@ && under@.len() > 0,
            str_views(out@) == clean_color_tokens(tsv.take(i as int)),
        decreases toks@.len() - i,
    {
        let trimmed = trim_chars(&toks[i]);
        let t1 = replace_chars(&trimmed, &dunder, &space);
        let t2 = replace_chars(&t1, &ellipsis, &nothing);
        let t3 = replace_chars(&t2, &under, &space);
        proof {
            assert(tsv[i as int] == toks@[i as int]@);
            assert(t3@ == color_token(tsv[i as int]));
            lemma_token_pipeline_push(
                tsv,
                |t: Seq<char>| color_token(t),
                |t: Seq<char>| t.len() > 0,
                |t: Seq<char>| to_upper(t),
                |t: Seq<char>| !is_color_filler(t),
                i as int,
            );
        }
        if t3.len() > 0 {
            let u = to_upper_chars(&t3);
            if !is_filler_token(&u) {
                let w = string_of(&u);
                out.push(w);
                proof {
                    assert(str_views(out@) =~= str_views(out@.drop_last()).push(u@));
                }
            }
        }
        i = i + 1;
    }
    proof {
        assert(tsv.take(toks@.len() as int) =~= tsv);
    }
    out
}

} // verus!
