//! The brand sanitizer. Multi-word brand names must survive the generic
//! split, so a pattern pass first glues each recognized brand phrase into
//! one underscore-joined token; the underscores are turned back into
//! spaces after the split. The glue pass is the one piece of this library
//! done by the regex engine; everything around it is verified against the
//! name [`brand_glued`] given to its result.

use vstd::prelude::*;
use crate::chars::chars_eq;
use crate::chars::chars_of;
use crate::chars::is_wspace;
use crate::chars::str_is;
use crate::chars::str_views;
use crate::chars::string_of;
use crate::chars::to_upper;
use crate::chars::to_upper_chars;
use crate::text::lemma_contains_sub_char;
use crate::text::lemma_replace_absent;
use crate::text::lemma_split_whole;
use crate::text::lemma_trim_fixed;
use crate::text::contains_sub;
use crate::text::replace_all;
use crate::text::replace_chars;
use crate::text::split_any;
use crate::text::split_chars;
use crate::text::trim;
use crate::text::trim_chars;
use crate::text::views;
use crate::tokens::lemma_token_pipeline_empty;
use crate::tokens::lemma_token_pipeline_push;
use crate::tokens::token_pipeline;

verus! {

/// What the brand-gluing pattern pass returns on a given text: each
/// occurrence of a recognized brand phrase rewritten into one
/// underscore-joined token. The result depends on the text alone.
pub uninterp spec fn brand_glued(s: Seq<char>) -> Seq<char>;

/// Relies on `regex::Regex::replace_all` with the fixed pattern
/// `(?P<first>AIR|DOC|NIKE)\s*(?P<middle>\w*)\s*(?P<last>1|MARTEN|TN)` and
/// the replacement `${first}_${middle}_${last}`: every non-overlapping
/// match, scanned left to right, is rewritten to its three capture groups
/// joined by underscores, and the result is a function of the input text
/// alone. `regex::Regex::new` returns `Ok` for this fixed valid pattern.
#[verifier::external_body]
fn glue_brands(s: &str) -> (r: String)
    ensures
        r@ == brand_glued(s@),
{
    let re = regex::Regex::new(r"(?P<first>AIR|DOC|NIKE)\s*(?P<middle>\w*)\s*(?P<last>1|MARTEN|TN)")
        .unwrap();
    re.replace_all(s, "${first}_${middle}_${last}").into_owned()
}

/// The characters that separate brand mentions.
pub open spec fn mark_delims() -> Seq<char> {
    seq!['/', ',', ' ']
}

/// The connector words dropped from the brand list.
pub open spec fn is_mark_connector(t: Seq<char>) -> bool {
    t == "ET"@ || t == "LE"@ || t == "LA"@ || t == "LES"@
}

/// The per-token rewrites: trim, collapse a double underscore to one
/// space, then turn remaining underscores into spaces. The double
/// underscore must be handled first, or it would become two spaces.
pub open spec fn mark_token(t: Seq<char>) -> Seq<char> {
    replace_all(replace_all(trim(t), "__"@, " "@), "_"@, " "@)
}

/// The per-token pass over all tokens: rewrite, drop empties, drop
/// connector words.
pub open spec fn clean_mark_tokens(ts: Seq<Seq<char>>) -> Seq<Seq<char>> {
    token_pipeline(
        ts,
        |t: Seq<char>| mark_token(t),
        |t: Seq<char>| t.len() > 0,
        |t: Seq<char>| t,
        |t: Seq<char>| !is_mark_connector(t),
    )
}

/// The normalized brand tokens of `s`: none for the sentinel answer,
/// otherwise the token pass over the split of the glued upper-cased text.
pub open spec fn marks_spec(s: Seq<char>) -> Seq<Seq<char>> {
    if s == "no preference"@ {
        Seq::<Seq<char>>::empty()
    } else {
        clean_mark_tokens(split_any(brand_glued(to_upper(s)), mark_delims()))
    }
}

/// A brand token on which the token pass acts as the identity:
/// non-empty, not a connector word, with non-whitespace ends, and free of
/// delimiters and underscores. The pattern pass itself is done by the
/// regex engine, so nothing is claimed here about re-gluing.
pub open spec fn clean_mark_token(z: Seq<char>) -> bool {
    z.len() > 0 && !is_mark_connector(z) && !is_wspace(z[0]) && !is_wspace(z.last()) && forall|
        j: int,
    |
        0 <= j < z.len() ==> !((#[trigger] z[j]) == '/' || z[j] == ',' || z[j] == ' ' || z[j]
            == '_')
}

/// The token pass leaves a clean brand token alone: it comes back as the
/// one token.
pub proof fn lemma_mark_fixpoint(z: Seq<char>)
    requires
        clean_mark_token(z),
    ensures
        clean_mark_tokens(split_any(z, mark_delims())) == seq![z],
{
    reveal_strlit("__");
    reveal_strlit("_");
    assert forall|i: int| 0 <= i < z.len() implies !mark_delims().contains(#[trigger] z[i]) by {
        if mark_delims().contains(z[i]) {
            let k = choose|k: int| 0 <= k < mark_delims().len() && mark_delims()[k] == z[i];
            assert(k == 0 || k == 1 || k == 2);
        }
    }
    lemma_split_whole(z, mark_delims());
    lemma_trim_fixed(z);
    assert(!contains_sub(z, "__"@)) by {
        if contains_sub(z, "__"@) {
            assert("__"@[0] == '_');
            assert("__"@.contains('_'));
            lemma_contains_sub_char(z, "__"@, '_');
            let j = choose|j: int| 0 <= j < z.len() && z[j] == '_';
            assert(false);
        }
    }
    assert(!contains_sub(z, "_"@)) by {
        if contains_sub(z, "_"@) {
            assert("_"@[0] == '_');
            assert("_"@.contains('_'));
            lemma_contains_sub_char(z, "_"@, '_');
            let j = choose|j: int| 0 <= j < z.len() && z[j] == '_';
            assert(false);
        }
    }
    lemma_replace_absent(z, "__"@, " "@);
    lemma_replace_absent(z, "_"@, " "@);
    assert(mark_token(z) == z);
    let ts = seq![z];
    lemma_token_pipeline_empty(
        |t: Seq<char>| mark_token(t),
        |t: Seq<char>| t.len() > 0,
        |t: Seq<char>| t,
        |t: Seq<char>| !is_mark_connector(t),
    );
    lemma_token_pipeline_push(
        ts,
        |t: Seq<char>| mark_token(t),
        |t: Seq<char>| t.len() > 0,
        |t: Seq<char>| t,
        |t: Seq<char>| !is_mark_connector(t),
        0,
    );
    assert(ts.take(0) =~= Seq::<Seq<char>>::empty());
    assert(ts.take(1) =~= ts);
    assert(clean_mark_tokens(ts) == Seq::<Seq<char>>::empty().push(z));
    assert(Seq::<Seq<char>>::empty().push(z) =~= seq![z]);
}

/// Whether `u` is a connector word, as [`is_mark_connector`] describes.
fn is_connector_token(u: &Vec<char>) -> (r: bool)
    ensures
        r == is_mark_connector(u@),
{
    let w1 = chars_of("ET");
    let w2 = chars_of("LE");
    let w3 = chars_of("LA");
    let w4 = chars_of("LES");
    chars_eq(u, &w1) || chars_eq(u, &w2) || chars_eq(u, &w3) || chars_eq(u, &w4)
}

/// The token pass on an already glued text: split, trim, underscore
/// rewrites, empty and connector tokens dropped. Everything after the
/// pattern pass stands here, verified for every value of its argument.
pub fn marks_from_glued(glued: &str) -> (r: Vec<String>)
    ensures
        str_views(r@) == clean_mark_tokens(split_any(glued@, mark_delims())),
{
    let cs = chars_of(glued);
    let mut delims: Vec<char> = Vec::new();
    delims.push('/');
    delims.push(',');
    delims.push(' ');
    proof {
        assert(delims@ =~= mark_delims());
    }
    let toks = split_chars(&cs, &delims);
    let dunder = chars_of("__");
    let space = chars_of(" ");
    let under = chars_of("_");
    proof {
        reveal_strlit("__");
        reveal_strlit("_");
    }
    let ghost tsv = views(toks@);
    let mut out: Vec<String> = Vec::new();
    let mut i: usize = 0;
    proof {
        assert(tsv.take(0) =~= Seq::<Seq<char>>::empty());
        lemma_token_pipeline_empty(
            |t: Seq<char>| mark_token(t),
            |t: Seq<char>| t.len() > 0,
            |t: Seq<char>| t,
            |t: Seq<char>| !is_mark_connector(t),
        );
        assert(str_views(out@) =~= Seq::<Seq<char>>::empty());
    }
    while i < toks.len()
        invariant
            i <= toks@.len(),
            tsv == views(toks@),
            dunder@ == "__"@ && dunder@.len() > 0,
            space@ == " "@,
            under@ == "_"@ && under@.len() > 0,
            str_views(out@) == clean_mark_tokens(tsv.take(i as int)),
        decreases toks@.len() - i,
    {
        let trimmed = trim_chars(&toks[i]);
        let t1 = replace_chars(&trimmed, &dunder, &space);
        let t2 = replace_chars(&t1, &under, &space);
        proof {
            assert(tsv[i as int] == toks@[i as int]@);
            assert(t2@ == mark_token(tsv[i as int]));
            lemma_token_pipeline_push(
                tsv,
                |t: Seq<char>| mark_token(t),
                |t: Seq<char>| t.len() > 0,
                |t: Seq<char>| t,
                |t: Seq<char>| !is_mark_connector(t),
                i as int,
            );
        }
        if t2.len() > 0 {
            if !is_connector_token(&t2) {
                let w = string_of(&t2);
                out.push(w);
                proof {
                    assert(str_views(out@) =~= str_views(out@.drop_last()).push(t2@));
                }
            }
        }
        i = i + 1;
    }
    proof {
        assert(tsv.take(toks@.len() as int) =~= tsv);
    }
    out
}

/// The normalized brand tokens, as [`marks_spec`] describes.
pub fn sanitize_marks(s: &str) -> (r: Vec<String>)
    ensures
        str_views(r@) == marks_spec(s@),
{
    let sentinel = chars_of("no preference");
    if str_is(s, &sentinel) {
        let none: Vec<String> = Vec::new();
        proof {
            assert(str_views(none@) =~= Seq::<Seq<char>>::empty());
        }
        return none;
    }
    let up = string_of(&to_upper_chars(&chars_of(s)));
    let glued = glue_brands(up.as_str());
    marks_from_glued(glued.as_str())
}

} // verus!
