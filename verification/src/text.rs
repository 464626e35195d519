//! Verified text rewriting used by the field sanitizers: literal
//! substring replacement, splitting on delimiter characters, trimming,
//! and substring search, each stated over `Seq<char>`.

use vstd::prelude::*;
use crate::chars::is_wspace;
use crate::chars::is_wspace_char;

verus! {

/// `s` begins with the pattern `p`.
pub open spec fn starts_with(s: Seq<char>, p: Seq<char>) -> bool {
    p.len() <= s.len() && s.take(p.len() as int) == p
}

/// Every non-overlapping occurrence of `p` in `s`, scanned left to right,
/// replaced by `r`; text already substituted is not scanned again.
pub open spec fn replace_all(s: Seq<char>, p: Seq<char>, r: Seq<char>) -> Seq<char>
    decreases s.len(),
    when p.len() > 0
{
    if s.len() == 0 {
        s
    } else if starts_with(s, p) {
        r + replace_all(s.skip(p.len() as int), p, r)
    } else {
        seq![s[0]] + replace_all(s.skip(1), p, r)
    }
}

/// `p` occurs as a contiguous run somewhere in `s`.
pub open spec fn contains_sub(s: Seq<char>, p: Seq<char>) -> bool {
    exists|k: int| 0 <= k && k + p.len() <= s.len() && #[trigger] s.subrange(k, k + p.len()) == p
}

/// The pieces of `s` between occurrences of the delimiter characters `d`,
/// with `cur` the piece under construction; empty pieces are kept.
pub open spec fn split_acc(s: Seq<char>, d: Seq<char>, cur: Seq<char>) -> Seq<Seq<char>>
    decreases s.len(),
{
    if s.len() == 0 {
        seq![cur]
    } else if d.contains(s[0]) {
        seq![cur] + split_acc(s.skip(1), d, Seq::<char>::empty())
    } else {
        split_acc(s.skip(1), d, cur.push(s[0]))
    }
}

/// The pieces of `s` between occurrences of the delimiter characters `d`.
pub open spec fn split_any(s: Seq<char>, d: Seq<char>) -> Seq<Seq<char>> {
    split_acc(s, d, Seq::<char>::empty())
}

/// `s` with leading whitespace removed.
pub open spec fn trim_front(s: Seq<char>) -> Seq<char>
    decreases s.len(),
{
    if s.len() > 0 && is_wspace(s[0]) {
        trim_front(s.skip(1))
    } else {
        s
    }
}

/// `s` with trailing whitespace removed.
pub open spec fn trim_back(s: Seq<char>) -> Seq<char>
    decreases s.len(),
{
    if s.len() > 0 && is_wspace(s.last()) {
        trim_back(s.drop_last())
    } else {
        s
    }
}

/// `s` with leading and trailing whitespace removed.
pub open spec fn trim(s: Seq<char>) -> Seq<char> {
    trim_back(trim_front(s))
}

/// The views of a sequence of character vectors.
pub open spec fn views(ts: Seq<Vec<char>>) -> Seq<Seq<char>> {
    ts.map_values(|t: Vec<char>| t@)
}

/// Appends every character of `p` to `out`.
pub fn push_all(out: &mut Vec<char>, p: &Vec<char>)
    ensures
        final(out)@ == old(out)@ + p@,
{
    let mut j: usize = 0;
    while j < p.len()
        invariant
            j <= p.len(),
            out@ == old(out)@ + p@.take(j as int),
        decreases p.len() - j,
    {
        out.push(p[j]);
        proof {
            assert(p@.take(j + 1 as int) =~= p@.take(j as int).push(p@[j as int]));
            assert(old(out)@ + p@.take(j + 1 as int) =~= (old(out)@ + p@.take(j as int)).push(
                p@[j as int],
            ));
        }
        j = j + 1;
    }
    proof {
        assert(p@.take(p@.len() as int) =~= p@);
    }
}

/// Whether `p` stands in `s` at position `i`.
pub fn matches_at(s: &Vec<char>, i: usize, p: &Vec<char>) -> (r: bool)
    requires
        i <= s@.len(),
    ensures
        r == (i + p@.len() <= s@.len() && s@.subrange(i as int, i + p@.len()) == p@),
{
    if p.len() > s.len() - i {
        return false;
    }
    let mut j: usize = 0;
    while j < p.len()
        invariant
            j <= p.len(),
            i + p.len() <= s.len(),
            forall|k: int| 0 <= k < j ==> s@[i + k] == p@[k],
        decreases p.len() - j,
    {
        if s[i + j] != p[j] {
            proof {
                assert(s@.subrange(i as int, i + p@.len())[j as int] == s@[i + j]);
            }
            return false;
        }
        j = j + 1;
    }
    proof {
        assert(s@.subrange(i as int, i + p@.len()) =~= p@);
    }
    true
}

/// Every non-overlapping occurrence of `p` in `s` replaced by `r`,
/// left to right.
pub fn replace_chars(s: &Vec<char>, p: &Vec<char>, r: &Vec<char>) -> (out: Vec<char>)
    requires
        p@.len() > 0,
    ensures
        out@ == replace_all(s@, p@, r@),
{
    let mut out: Vec<char> = Vec::new();
    let mut i: usize = 0;
    proof {
        assert(s@.skip(0) =~= s@);
        assert(Seq::<char>::empty() + replace_all(s@, p@, r@) =~= replace_all(s@, p@, r@));
    }
    while i < s.len()
        invariant
            i <= s@.len(),
            p@.len() > 0,
            replace_all(s@, p@, r@) == out@ + replace_all(s@.skip(i as int), p@, r@),
        decreases s@.len() - i,
    {
        let ghost rest = s@.skip(i as int);
        if matches_at(s, i, p) {
            proof {
                assert(rest.take(p@.len() as int) =~= s@.subrange(i as int, i + p@.len()));
                assert(starts_with(rest, p@));
                assert(rest.skip(p@.len() as int) =~= s@.skip(i + p@.len()));
                assert(replace_all(rest, p@, r@) == r@ + replace_all(
                    s@.skip(i + p@.len()),
                    p@,
                    r@,
                ));
            }
            let ghost out0 = out@;
            push_all(&mut out, r);
            proof {
                assert(out@ + replace_all(s@.skip(i + p@.len()), p@, r@) =~= out0 + (r@
                    + replace_all(s@.skip(i + p@.len()), p@, r@)));
            }
            i = i + p.len();
        } else {
            proof {
                assert(rest.len() > 0);
                assert(rest[0] == s@[i as int]);
                if starts_with(rest, p@) {
                    assert(rest.take(p@.len() as int) =~= s@.subrange(i as int, i + p@.len()));
                    assert(false);
                }
                assert(rest.skip(1) =~= s@.skip(i + 1));
                assert(replace_all(rest, p@, r@) == seq![s@[i as int]] + replace_all(
                    s@.skip(i + 1),
                    p@,
                    r@,
                ));
            }
            out.push(s[i]);
            proof {
                assert(out@ + replace_all(s@.skip(i + 1), p@, r@) =~= out@.drop_last() + (
                seq![s@[i as int]] + replace_all(s@.skip(i + 1), p@, r@)));
            }
            i = i + 1;
        }
    }
    proof {
        assert(s@.skip(s@.len() as int) =~= Seq::<char>::empty());
        assert(replace_all(Seq::<char>::empty(), p@, r@) == Seq::<char>::empty());
        assert(out@ + Seq::<char>::empty() =~= out@);
    }
    out
}

/// Whether the character `c` is one of `d`.
pub fn one_of(d: &Vec<char>, c: char) -> (r: bool)
    ensures
        r == d@.contains(c),
{
    let mut j: usize = 0;
    while j < d.len()
        invariant
            j <= d.len(),
            forall|k: int| 0 <= k < j ==> d@[k] != c,
        decreases d.len() - j,
    {
        if d[j] == c {
            return true;
        }
        j = j + 1;
    }
    false
}

/// Whether `p` occurs as a contiguous run somewhere in `s`.
pub fn contains_chars(s: &Vec<char>, p: &Vec<char>) -> (r: bool)
    ensures
        r == contains_sub(s@, p@),
{
    if p.len() == 0 {
        proof {
            assert(s@.subrange(0, 0 + p@.len() as int) =~= p@);
        }
        return true;
    }
    if p.len() > s.len() {
        proof {
            assert(!contains_sub(s@, p@));
        }
        return false;
    }
    let bound: usize = s.len() - p.len();
    let mut k: usize = 0;
    loop
        invariant
            k <= bound + 1,
            bound + p@.len() == s@.len(),
            bound < s@.len() <= usize::MAX,
            forall|k2: int| 0 <= k2 < k ==> #[trigger] s@.subrange(k2, k2 + p@.len()) != p@,
        decreases bound + 1 - k,
    {
        if k > bound {
            proof {
                assert(forall|k2: int|
                    0 <= k2 && k2 + p@.len() <= s@.len() ==> #[trigger] s@.subrange(
                        k2,
                        k2 + p@.len(),
                    ) != p@);
            }
            return false;
        }
        if matches_at(s, k, p) {
            return true;
        }
        k = k + 1;
    }
}

/// Splits `s` at every occurrence of a character of `d`, keeping empty
/// pieces, as [`split_any`] describes.
pub fn split_chars(s: &Vec<char>, d: &Vec<char>) -> (out: Vec<Vec<char>>)
    ensures
        views(out@) == split_any(s@, d@),
{
    let mut out: Vec<Vec<char>> = Vec::new();
    let mut cur: Vec<char> = Vec::new();
    let mut i: usize = 0;
    proof {
        assert(s@.skip(0) =~= s@);
        assert(views(out@) =~= Seq::<Seq<char>>::empty());
        assert(views(out@) + split_acc(s@, d@, cur@) =~= split_acc(s@, d@, cur@));
    }
    while i < s.len()
        invariant
            i <= s@.len(),
            split_any(s@, d@) == views(out@) + split_acc(s@.skip(i as int), d@, cur@),
        decreases s@.len() - i,
    {
        let ghost rest = s@.skip(i as int);
        proof {
            assert(rest.len() > 0);
            assert(rest[0] == s@[i as int]);
            assert(rest.skip(1) =~= s@.skip(i + 1));
        }
        if one_of(d, s[i]) {
            proof {
                assert(split_acc(rest, d@, cur@) == seq![cur@] + split_acc(
                    s@.skip(i + 1),
                    d@,
                    Seq::<char>::empty(),
                ));
            }
            let done = cur;
            cur = Vec::new();
            out.push(done);
            proof {
                assert(views(out@) =~= views(out@.drop_last()).push(done@));
                assert(views(out@) + split_acc(s@.skip(i + 1), d@, Seq::<char>::empty())
                    =~= views(out@.drop_last()) + (seq![done@] + split_acc(
                    s@.skip(i + 1),
                    d@,
                    Seq::<char>::empty(),
                )));
            }
        } else {
            proof {
                assert(split_acc(rest, d@, cur@) == split_acc(
                    s@.skip(i + 1),
                    d@,
                    cur@.push(s@[i as int]),
                ));
            }
            cur.push(s[i]);
        }
        i = i + 1;
    }
    proof {
        assert(s@.skip(s@.len() as int) =~= Seq::<char>::empty());
        assert(split_acc(Seq::<char>::empty(), d@, cur@) == seq![cur@]);
    }
    out.push(cur);
    proof {
        assert(views(out@) =~= views(out@.drop_last()) + seq![out@.last()@]);
    }
    out
}

/// Replacement leaves a text without the pattern unchanged.
pub proof fn lemma_replace_absent(s: Seq<char>, p: Seq<char>, r: Seq<char>)
    requires
        p.len() > 0,
        !contains_sub(s, p),
    ensures
        replace_all(s, p, r) == s,
    decreases s.len(),
{
    if s.len() == 0 {
    } else {
        if starts_with(s, p) {
            assert(s.subrange(0, 0 + p.len() as int) =~= s.take(p.len() as int));
            assert(false);
        }
        assert forall|k: int| 0 <= k && k + p.len() <= s.skip(1).len() implies #[trigger] s.skip(
            1,
        ).subrange(k, k + p.len()) != p by {
            assert(s.skip(1).subrange(k, k + p.len()) =~= s.subrange(k + 1, k + 1 + p.len()));
        }
        lemma_replace_absent(s.skip(1), p, r);
        assert(seq![s[0]] + s.skip(1) =~= s);
    }
}

/// A text containing the pattern contains each of the pattern's characters.
pub proof fn lemma_contains_sub_char(s: Seq<char>, p: Seq<char>, c: char)
    requires
        contains_sub(s, p),
        p.contains(c),
    ensures
        s.contains(c),
{
    let k = choose|k: int|
        0 <= k && k + p.len() <= s.len() && #[trigger] s.subrange(k, k + p.len()) == p;
    let j = choose|j: int| 0 <= j < p.len() && p[j] == c;
    assert(s[k + j] == s.subrange(k, k + p.len())[j]);
}

/// Splitting a text free of delimiter characters yields it whole, after
/// whatever piece was already under construction.
pub proof fn lemma_split_acc_whole(s: Seq<char>, d: Seq<char>, cur: Seq<char>)
    requires
        forall|i: int| 0 <= i < s.len() ==> !d.contains(#[trigger] s[i]),
    ensures
        split_acc(s, d, cur) == seq![cur + s],
    decreases s.len(),
{
    if s.len() == 0 {
        assert(cur + s =~= cur);
    } else {
        assert(!d.contains(s[0]));
        lemma_split_acc_whole(s.skip(1), d, cur.push(s[0]));
        assert(cur.push(s[0]) + s.skip(1) =~= cur + s);
    }
}

/// Splitting a text free of delimiter characters yields that text as the
/// one piece.
pub proof fn lemma_split_whole(s: Seq<char>, d: Seq<char>)
    requires
        forall|i: int| 0 <= i < s.len() ==> !d.contains(#[trigger] s[i]),
    ensures
        split_any(s, d) == seq![s],
{
    lemma_split_acc_whole(s, d, Seq::<char>::empty());
    assert(Seq::<char>::empty() + s =~= s);
}

/// No piece of a split contains a delimiter character, provided the piece
/// under construction holds none.
pub proof fn lemma_split_acc_pieces(s: Seq<char>, d: Seq<char>, cur: Seq<char>)
    requires
        forall|j: int| 0 <= j < cur.len() ==> !d.contains(#[trigger] cur[j]),
    ensures
        forall|i: int, j: int|
            0 <= i < split_acc(s, d, cur).len() && 0 <= j < split_acc(s, d, cur)[i].len()
                ==> !d.contains(#[trigger] split_acc(s, d, cur)[i][j]),
    decreases s.len(),
{
    let out = split_acc(s, d, cur);
    if s.len() == 0 {
        assert(out == seq![cur]);
        assert forall|i: int, j: int| 0 <= i < out.len() && 0 <= j < out[i].len() implies !d
            .contains(#[trigger] out[i][j]) by {
            assert(out[i] == cur);
        }
    } else if d.contains(s[0]) {
        lemma_split_acc_pieces(s.skip(1), d, Seq::<char>::empty());
        let rec = split_acc(s.skip(1), d, Seq::<char>::empty());
        assert(out == seq![cur] + rec);
        assert forall|i: int, j: int| 0 <= i < out.len() && 0 <= j < out[i].len() implies !d
            .contains(#[trigger] out[i][j]) by {
            if i == 0 {
                assert(out[i] == cur);
            } else {
                assert(out[i] == rec[i - 1]);
                assert(!d.contains(rec[i - 1][j]));
            }
        }
    } else {
        lemma_split_acc_pieces(s.skip(1), d, cur.push(s[0]));
        let rec = split_acc(s.skip(1), d, cur.push(s[0]));
        assert(out == rec);
        assert forall|i: int, j: int| 0 <= i < out.len() && 0 <= j < out[i].len() implies !d
            .contains(#[trigger] out[i][j]) by {
            assert(!d.contains(rec[i][j]));
        }
    }
}

/// Trimming the front keeps a suffix of the text.
pub proof fn lemma_trim_front_suffix(s: Seq<char>)
    ensures
        trim_front(s).len() <= s.len(),
        trim_front(s) == s.skip(s.len() - trim_front(s).len()),
        trim_front(s).len() > 0 ==> !is_wspace(trim_front(s)[0]),
    decreases s.len(),
{
    if s.len() > 0 && is_wspace(s[0]) {
        lemma_trim_front_suffix(s.skip(1));
        assert(s.skip(1).skip(s.skip(1).len() - trim_front(s.skip(1)).len()) =~= s.skip(
            s.len() - trim_front(s.skip(1)).len(),
        ));
    } else {
        assert(s.skip(0) =~= s);
    }
}

/// Trimming the back keeps a prefix of the text.
pub proof fn lemma_trim_back_prefix(s: Seq<char>)
    ensures
        trim_back(s).len() <= s.len(),
        trim_back(s) == s.take(trim_back(s).len() as int),
        trim_back(s).len() > 0 ==> !is_wspace(trim_back(s).last()),
    decreases s.len(),
{
    if s.len() > 0 && is_wspace(s.last()) {
        lemma_trim_back_prefix(s.drop_last());
        assert(s.drop_last().take(trim_back(s.drop_last()).len() as int) =~= s.take(
            trim_back(s.drop_last()).len() as int,
        ));
    } else {
        assert(s.take(s.len() as int) =~= s);
    }
}

/// What trimming yields: a contiguous part of the text whose ends, if it
/// is not empty, are not whitespace.
pub proof fn lemma_trim_props(s: Seq<char>)
    ensures
        trim(s).len() <= s.len(),
        trim(s).len() > 0 ==> !is_wspace(trim(s)[0]),
        trim(s).len() > 0 ==> !is_wspace(trim(s).last()),
        forall|j: int| 0 <= j < trim(s).len() ==> s.contains(#[trigger] trim(s)[j]),
{
    let tf = trim_front(s);
    lemma_trim_front_suffix(s);
    lemma_trim_back_prefix(tf);
    let k = s.len() - tf.len();
    let m = trim_back(tf).len();
    assert forall|j: int| 0 <= j < trim(s).len() implies s.contains(#[trigger] trim(s)[j]) by {
        assert(trim(s)[j] == tf.take(m as int)[j]);
        assert(tf[j] == s.skip(k)[j]);
        assert(s[k + j] == trim(s)[j]);
    }
    if trim(s).len() > 0 {
        assert(trim(s)[0] == tf.take(m as int)[0]);
        assert(tf.len() > 0);
    }
}

/// A text that is empty or ends in non-whitespace on both sides trims to
/// itself.
pub proof fn lemma_trim_fixed(s: Seq<char>)
    requires
        s.len() == 0 || (!is_wspace(s[0]) && !is_wspace(s.last())),
    ensures
        trim(s) == s,
{
    assert(trim_front(s) == s);
    assert(trim_back(s) == s);
}

/// `v` with leading and trailing whitespace removed, as [`trim`] describes.
pub fn trim_chars(v: &Vec<char>) -> (out: Vec<char>)
    ensures
        out@ == trim(v@),
{
    let mut start: usize = 0;
    proof {
        assert(v@.skip(0) =~= v@);
    }
    while start < v.len() && is_wspace_char(v[start])
        invariant
            start <= v@.len(),
            trim_front(v@) == trim_front(v@.skip(start as int)),
        decreases v@.len() - start,
    {
        proof {
            assert(v@.skip(start as int).skip(1) =~= v@.skip(start + 1));
        }
        start = start + 1;
    }
    proof {
        assert(trim_front(v@.skip(start as int)) == v@.skip(start as int));
        assert(v@.skip(start as int) =~= v@.subrange(start as int, v@.len() as int));
    }
    let mut end: usize = v.len();
    while end > start && is_wspace_char(v[end - 1])
        invariant
            start <= end <= v@.len(),
            trim_back(v@.subrange(start as int, v@.len() as int)) == trim_back(
                v@.subrange(start as int, end as int),
            ),
        decreases end,
    {
        proof {
            let cur = v@.subrange(start as int, end as int);
            assert(cur.last() == v@[end - 1]);
            assert(cur.drop_last() =~= v@.subrange(start as int, end - 1));
        }
        end = end - 1;
    }
    proof {
        assert(trim_back(v@.subrange(start as int, end as int)) == v@.subrange(
            start as int,
            end as int,
        ));
    }
    let mut out: Vec<char> = Vec::new();
    let mut k: usize = start;
    while k < end
        invariant
            start <= k <= end <= v@.len(),
            out@ == v@.subrange(start as int, k as int),
        decreases end - k,
    {
        out.push(v[k]);
        proof {
            assert(v@.subrange(start as int, k + 1 as int) =~= v@.subrange(
                start as int,
                k as int,
            ).push(v@[k as int]));
        }
        k = k + 1;
    }
    out
}

} // verus!
