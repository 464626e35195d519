//! The shape shared by the three list-valued sanitizers: each token is
//! rewritten, empty tokens are dropped, a second rewrite may follow, and
//! denylisted tokens are dropped.

use vstd::prelude::*;

verus! {

/// Each token of `ts` rewritten by `f1`, filtered by `keep1`, rewritten by
/// `f2`, filtered by `keep2`, in that order, keeping the order of the
/// surviving tokens.
pub open spec fn token_pipeline(
    ts: Seq<Seq<char>>,
    f1: spec_fn(Seq<char>) -> Seq<char>,
    keep1: spec_fn(Seq<char>) -> bool,
    f2: spec_fn(Seq<char>) -> Seq<char>,
    keep2: spec_fn(Seq<char>) -> bool,
) -> Seq<Seq<char>> {
    ts.map_values(f1).filter(keep1).map_values(f2).filter(keep2)
}

/// On no tokens the pipeline yields no tokens.
pub proof fn lemma_token_pipeline_empty(
    f1: spec_fn(Seq<char>) -> Seq<char>,
    keep1: spec_fn(Seq<char>) -> bool,
    f2: spec_fn(Seq<char>) -> Seq<char>,
    keep2: spec_fn(Seq<char>) -> bool,
)
    ensures
        token_pipeline(Seq::<Seq<char>>::empty(), f1, keep1, f2, keep2) == Seq::<Seq<
            char,
        >>::empty(),
{
    reveal(Seq::filter);
    let e = Seq::<Seq<char>>::empty();
    assert(e.map_values(f1) =~= e);
    assert(e.filter(keep1) =~= e);
    assert(e.map_values(f2) =~= e);
    assert(e.filter(keep2) =~= e);
}

/// Extending the input by one token extends the output by that token's
/// image exactly when both filters keep it.
pub proof fn lemma_token_pipeline_push(
    ts: Seq<Seq<char>>,
    f1: spec_fn(Seq<char>) -> Seq<char>,
    keep1: spec_fn(Seq<char>) -> bool,
    f2: spec_fn(Seq<char>) -> Seq<char>,
    keep2: spec_fn(Seq<char>) -> bool,
    i: int,
)
    requires
        0 <= i < ts.len(),
    ensures
        ({
            let prev = token_pipeline(ts.take(i), f1, keep1, f2, keep2);
            let y = f1(ts[i]);
            let z = f2(y);
            token_pipeline(ts.take(i + 1), f1, keep1, f2, keep2) == (if keep1(y) && keep2(z) {
                prev.push(z)
            } else {
                prev
            })
        }),
{
    reveal(Seq::filter);
    let a = ts.take(i);
    let b = ts.take(i + 1);
    let y = f1(ts[i]);
    let z = f2(y);
    assert(b =~= a.push(ts[i]));
    let am1 = a.map_values(f1);
    let bm1 = b.map_values(f1);
    assert(bm1 =~= am1.push(y));
    assert(bm1.drop_last() =~= am1);
    assert(bm1.last() == y);
    if keep1(y) {
        assert(bm1.filter(keep1) == am1.filter(keep1).push(y));
        let af = am1.filter(keep1);
        let am2 = af.map_values(f2);
        let bm2 = bm1.filter(keep1).map_values(f2);
        assert(bm2 =~= am2.push(z));
        assert(bm2.drop_last() =~= am2);
        assert(bm2.last() == z);
        if keep2(z) {
            assert(bm2.filter(keep2) == am2.filter(keep2).push(z));
        } else {
            assert(bm2.filter(keep2) == am2.filter(keep2));
        }
    } else {
        assert(bm1.filter(keep1) == am1.filter(keep1));
    }
}

} // verus!
