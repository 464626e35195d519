//! The city sanitizer: two hyphenation rewrites run over the whole text
//! first, because they bridge what would otherwise be separate tokens;
//! then the text is split, each token trimmed and upper-cased, empty
//! tokens dropped, and any token containing the conjunction substring
//! dropped. The conjunction filter is a substring filter, so a city name
//! that happens to contain those two letters is dropped too — a known
//! over-filtering quirk kept on purpose.

use vstd::prelude::*;
use crate::chars::chars_of;
use crate::chars::is_wspace;
use crate::chars::lemma_to_upper_idempotent;
use crate::chars::lemma_upper_char_special;
use crate::chars::str_views;
use crate::chars::string_of;
use crate::chars::to_upper;
use crate::chars::to_upper_chars;
use crate::chars::upper_char;
use crate::text::contains_chars;
use crate::text::contains_sub;
use crate::text::lemma_contains_sub_char;
use crate::text::lemma_replace_absent;
use crate::text::lemma_split_acc_pieces;
use crate::text::lemma_split_whole;
use crate::text::lemma_trim_fixed;
use crate::text::lemma_trim_props;
use crate::text::replace_all;
use crate::text::replace_chars;
use crate::text::split_any;
use crate::text::split_chars;
use crate::text::trim;
use crate::text::trim_chars;
use crate::text::views;
use crate::tokens::lemma_token_pipeline_empty;
use crate::tokens::lemma_token_pipeline_push;
use crate::tokens::token_pipeline;

verus! {

/// The characters that separate city names.
pub open spec fn city_delims() -> Seq<char> {
    seq!['/', ',', ' ']
}

/// The whole-text rewrites: a lowercase "saint " prefix is hyphen-joined
/// to the name after it, and an " en " infix is hyphen-joined to the
/// names around it.
pub open spec fn city_rewrite(s: Seq<char>) -> Seq<char> {
    replace_all(replace_all(s, "saint "@, "saint-"@), " en "@, "-en-"@)
}

/// The per-token pass: trim and upper-case, drop empty tokens, drop any
/// token containing the conjunction substring.
pub open spec fn clean_city_tokens(ts: Seq<Seq<char>>) -> Seq<Seq<char>> {
    token_pipeline(
        ts,
        |t: Seq<char>| to_upper(trim(t)),
        |t: Seq<char>| t.len() > 0,
        |t: Seq<char>| t,
        |t: Seq<char>| !contains_sub(t, "ET"@),
    )
}

/// The normalized city tokens of `s`, in order of appearance, duplicates
/// kept.
pub open spec fn cities_spec(s: Seq<char>) -> Seq<Seq<char>> {
    clean_city_tokens(split_any(city_rewrite(s), city_delims()))
}

/// What every token the city sanitizer emits looks like: non-empty,
/// upper-cased, free of delimiter characters, of surrounding whitespace
/// and of the conjunction substring.
pub open spec fn clean_city_token(z: Seq<char>) -> bool {
    z.len() > 0 && to_upper(z) == z && !is_wspace(z[0]) && !is_wspace(z.last()) && !contains_sub(
        z,
        "ET"@,
    ) && forall|j: int| 0 <= j < z.len() ==> !city_delims().contains(#[trigger] z[j])
}

/// Membership in the delimiter set, character by character.
pub proof fn lemma_city_delim_chars(c: char)
    ensures
        city_delims().contains(c) == (c == '/' || c == ',' || c == ' '),
{
    let d = city_delims();
    assert(d[0] == '/' && d[1] == ',' && d[2] == ' ');
    if d.contains(c) {
        let k = choose|k: int| 0 <= k < d.len() && d[k] == c;
        assert(k == 0 || k == 1 || k == 2);
    }
}

/// The per-token pass turns a delimiter-free token it keeps into a clean
/// city token.
proof fn lemma_city_token_wf(t: Seq<char>)
    requires
        forall|j: int| 0 <= j < t.len() ==> !city_delims().contains(#[trigger] t[j]),
        to_upper(trim(t)).len() > 0,
        !contains_sub(to_upper(trim(t)), "ET"@),
    ensures
        clean_city_token(to_upper(trim(t))),
{
    let w = trim(t);
    let z = to_upper(w);
    lemma_trim_props(t);
    assert(z[0] == upper_char(w[0]));
    lemma_upper_char_special(w[0]);
    assert(z.last() == upper_char(w.last()));
    lemma_upper_char_special(w.last());
    lemma_to_upper_idempotent(w);
    assert forall|j: int| 0 <= j < z.len() implies !city_delims().contains(#[trigger] z[j]) by {
        assert(z[j] == upper_char(w[j]));
        lemma_upper_char_special(w[j]);
        assert(t.contains(w[j]));
        let i = choose|i: int| 0 <= i < t.len() && t[i] == w[j];
        assert(!city_delims().contains(t[i]));
        lemma_city_delim_chars(w[j]);
        lemma_city_delim_chars(z[j]);
    }
}

/// Every token the city sanitizer emits is a clean city token.
pub proof fn lemma_cities_tokens_clean(ts: Seq<Seq<char>>)
    requires
        forall|i: int, j: int|
            0 <= i < ts.len() && 0 <= j < ts[i].len() ==> !city_delims().contains(
                #[trigger] ts[i][j],
            ),
    ensures
        forall|i: int|
            0 <= i < clean_city_tokens(ts).len() ==> clean_city_token(
                #[trigger] clean_city_tokens(ts)[i],
            ),
    decreases ts.len(),
{
    if ts.len() == 0 {
        assert(ts =~= Seq::<Seq<char>>::empty());
        lemma_token_pipeline_empty(
            |t: Seq<char>| to_upper(trim(t)),
            |t: Seq<char>| t.len() > 0,
            |t: Seq<char>| t,
            |t: Seq<char>| !contains_sub(t, "ET"@),
        );
    } else {
        let n = ts.len() as int;
        let prefix = ts.take(n - 1);
        assert forall|i: int, j: int|
            0 <= i < prefix.len() && 0 <= j < prefix[i].len() implies !city_delims().contains(
            #[trigger] prefix[i][j],
        ) by {
            assert(prefix[i] == ts[i]);
        }
        lemma_cities_tokens_clean(prefix);
        lemma_token_pipeline_push(
            ts,
            |t: Seq<char>| to_upper(trim(t)),
            |t: Seq<char>| t.len() > 0,
            |t: Seq<char>| t,
            |t: Seq<char>| !contains_sub(t, "ET"@),
            n - 1,
        );
        assert(ts.take(n) =~= ts);
        let t = ts[n - 1];
        let z = to_upper(trim(t));
        let prev = clean_city_tokens(prefix);
        if z.len() > 0 && !contains_sub(z, "ET"@) {
            assert(forall|j: int| 0 <= j < t.len() ==> !city_delims().contains(#[trigger] t[j]));
            lemma_city_token_wf(t);
            assert(clean_city_tokens(ts) == prev.push(z));
            assert forall|i: int| 0 <= i < clean_city_tokens(ts).len() implies clean_city_token(
                #[trigger] clean_city_tokens(ts)[i],
            ) by {
                if i < prev.len() {
                    assert(clean_city_tokens(ts)[i] == prev[i]);
                } else {
                    assert(clean_city_tokens(ts)[i] == z);
                }
            }
        } else {
            assert(clean_city_tokens(ts) == prev);
        }
    }
}

/// The city sanitizer leaves a clean city token alone: it comes back as
/// the one token.
pub proof fn lemma_city_fixpoint(z: Seq<char>)
    requires
        clean_city_token(z),
    ensures
        cities_spec(z) == seq![z],
{
    reveal_strlit("saint ");
    reveal_strlit(" en ");
    if contains_sub(z, "saint "@) {
        assert("saint "@[5] == ' ');
        assert("saint "@.contains(' '));
        lemma_contains_sub_char(z, "saint "@, ' ');
        let j = choose|j: int| 0 <= j < z.len() && z[j] == ' ';
        lemma_city_delim_chars(' ');
        assert(false);
    }
    lemma_replace_absent(z, "saint "@, "saint-"@);
    if contains_sub(z, " en "@) {
        assert(" en "@[0] == ' ');
        assert(" en "@.contains(' '));
        lemma_contains_sub_char(z, " en "@, ' ');
        let j = choose|j: int| 0 <= j < z.len() && z[j] == ' ';
        lemma_city_delim_chars(' ');
        assert(false);
    }
    lemma_replace_absent(z, " en "@, "-en-"@);
    assert(city_rewrite(z) == z);
    lemma_split_whole(z, city_delims());
    let ts = seq![z];
    lemma_token_pipeline_empty(
        |t: Seq<char>| to_upper(trim(t)),
        |t: Seq<char>| t.len() > 0,
        |t: Seq<char>| t,
        |t: Seq<char>| !contains_sub(t, "ET"@),
    );
    lemma_token_pipeline_push(
        ts,
        |t: Seq<char>| to_upper(trim(t)),
        |t: Seq<char>| t.len() > 0,
        |t: Seq<char>| t,
        |t: Seq<char>| !contains_sub(t, "ET"@),
        0,
    );
    assert(ts.take(0) =~= Seq::<Seq<char>>::empty());
    assert(ts.take(1) =~= ts);
    lemma_trim_fixed(z);
    assert(to_upper(trim(z)) == z);
    assert(clean_city_tokens(ts) == Seq::<Seq<char>>::empty().push(z));
    assert(Seq::<Seq<char>>::empty().push(z) =~= seq![z]);
}

/// Idempotence: running the city sanitizer on any one of its own output
/// tokens yields exactly that token again.
pub proof fn lemma_cities_idempotent(s: Seq<char>, i: int)
    requires
        0 <= i < cities_spec(s).len(),
    ensures
        cities_spec(cities_spec(s)[i]) == seq![cities_spec(s)[i]],
{
    lemma_split_acc_pieces(city_rewrite(s), city_delims(), Seq::<char>::empty());
    lemma_cities_tokens_clean(split_any(city_rewrite(s), city_delims()));
    lemma_city_fixpoint(cities_spec(s)[i]);
}

/// The normalized city tokens, as [`cities_spec`] describes.
pub fn sanitize_cities(s: &str) -> (r: Vec<String>)
    ensures
        str_views(r@) == cities_spec(s@),
{
    let cs = chars_of(s);
    let p_saint = chars_of("saint ");
    let r_saint = chars_of("saint-");
    let p_en = chars_of(" en ");
    let r_en = chars_of("-en-");
    proof {
        reveal_strlit("saint ");
        reveal_strlit(" en ");
    }
    let t1 = replace_chars(&cs, &p_saint, &r_saint);
    let t2 = replace_chars(&t1, &p_en, &r_en);
    let mut delims: Vec<char> = Vec::new();
    delims.push('/');
    delims.push(',');
    delims.push(' ');
    proof {
        assert(delims@ =~= city_delims());
    }
    let toks = split_chars(&t2, &delims);
    let et = chars_of("ET");
    let ghost tsv = views(toks@);
    let mut out: Vec<String> = Vec::new();
    let mut i: usize = 0;
    proof {
        assert(tsv.take(0) =~= Seq::<Seq<char>>::empty());
        lemma_token_pipeline_empty(
            |t: Seq<char>| to_upper(trim(t)),
            |t: Seq<char>| t.len() > 0,
            |t: Seq<char>| t,
            |t: Seq<char>| !contains_sub(t, "ET"@),
        );
        assert(str_views(out@) =~= Seq::<Seq<char>>::empty());
    }
    while i < toks.len()
        invariant
            i <= toks@.len(),
            tsv == views(toks@),
            et@ == "ET"@,
            str_views(out@) == clean_city_tokens(tsv.take(i as int)),
        decreases toks@.len() - i,
    {
        let trimmed = trim_chars(&toks[i]);
        let u = to_upper_chars(&trimmed);
        proof {
            assert(tsv[i as int] == toks@[i as int]@);
            lemma_token_pipeline_push(
                tsv,
                |t: Seq<char>| to_upper(trim(t)),
                |t: Seq<char>| t.len() > 0,
                |t: Seq<char>| t,
                |t: Seq<char>| !contains_sub(t, "ET"@),
                i as int,
            );
        }
        if u.len() > 0 {
            let has_et = contains_chars(&u, &et);
            if !has_et {
                let w = string_of(&u);
                out.push(w);
                proof {
                    assert(str_views(out@) =~= str_views(out@.drop_last()).push(u@));
                }
            }
        }
        i = i + 1;
    }
    proof {
        assert(tsv.take(toks@.len() as int) =~= tsv);
    }
    out
}

} // verus!
