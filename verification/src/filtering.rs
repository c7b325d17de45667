//! General facts about `Seq::filter_map` and `Seq::filter`.

use vstd::prelude::*;

verus! {

/// `filter_map` of a concatenation is the concatenation of the `filter_map`s.
pub proof fn filter_map_concat<A, B>(a: Seq<A>, b: Seq<A>, f: spec_fn(A) -> Option<B>)
    ensures
        (a + b).filter_map(f) == a.filter_map(f) + b.filter_map(f),
    decreases b.len(),
{
    if b.len() == 0 {
        assert(a + b =~= a);
        assert(a.filter_map(f) + b.filter_map(f) =~= a.filter_map(f));
    } else {
        assert((a + b).drop_last() =~= a + b.drop_last());
        assert((a + b).last() == b.last());
        filter_map_concat(a, b.drop_last(), f);
        match f(b.last()) {
            Some(y) => {
                assert((a.filter_map(f) + b.drop_last().filter_map(f)) + seq![y] =~= a.filter_map(
                    f,
                ) + (b.drop_last().filter_map(f) + seq![y]));
            },
            None => {},
        }
    }
}

/// Where `f` rejects no element of `s`, `filter_map` keeps the length and
/// maps element by element.
pub proof fn filter_map_keeps_all<A, B>(s: Seq<A>, f: spec_fn(A) -> Option<B>)
    requires
        forall|i: int| 0 <= i < s.len() ==> f(#[trigger] s[i]) is Some,
    ensures
        s.filter_map(f).len() == s.len(),
        forall|i: int| 0 <= i < s.len() ==> (#[trigger] s.filter_map(f)[i]) == f(s[i])->Some_0,
    decreases s.len(),
{
    if s.len() > 0 {
        let rest = s.drop_last();
        assert forall|i: int| 0 <= i < rest.len() implies f(#[trigger] rest[i]) is Some by {
            assert(rest[i] == s[i]);
        }
        filter_map_keeps_all(rest, f);
        assert(f(s[s.len() - 1]) is Some);
    }
}

/// Where `f` rejects `x`, inserting `x` anywhere does not change the
/// `filter_map`.
pub proof fn filter_map_skips_inserted<A, B>(s: Seq<A>, i: int, x: A, f: spec_fn(A) -> Option<B>)
    requires
        0 <= i <= s.len(),
        f(x) is None,
    ensures
        s.insert(i, x).filter_map(f) == s.filter_map(f),
{
    let left = s.subrange(0, i);
    let right = s.subrange(i, s.len() as int);
    assert(left.push(x) =~= left + seq![x]);
    Seq::lemma_filter_map_singleton(x, f);
    filter_map_concat(left, seq![x], f);
    filter_map_concat(left.push(x), right, f);
    filter_map_concat(left, right, f);
    assert(left + right =~= s);
    assert(left.filter_map(f) + seq![x].filter_map(f) =~= left.filter_map(f));
}

/// Where `f` rejects everything that `keep` rejects, filtering by `keep`
/// first does not change the `filter_map`.
pub proof fn filter_map_after_filter<A, B>(
    s: Seq<A>,
    keep: spec_fn(A) -> bool,
    f: spec_fn(A) -> Option<B>,
)
    requires
        forall|x: A| !keep(x) ==> (#[trigger] f(x)) is None,
    ensures
        s.filter(keep).filter_map(f) == s.filter_map(f),
    decreases s.len(),
{
    reveal(Seq::filter);
    if s.len() > 0 {
        let rest = s.drop_last();
        filter_map_after_filter(rest, keep, f);
        if keep(s.last()) {
            assert(rest.filter(keep).push(s.last()).drop_last() =~= rest.filter(keep));
        }
    }
}

/// Where `keep` holds of every element of `s`, filtering by it changes
/// nothing.
pub proof fn filter_keeps_all<A>(s: Seq<A>, keep: spec_fn(A) -> bool)
    requires
        forall|i: int| 0 <= i < s.len() ==> keep(#[trigger] s[i]),
    ensures
        s.filter(keep) == s,
    decreases s.len(),
{
    reveal(Seq::filter);
    if s.len() > 0 {
        let rest = s.drop_last();
        assert forall|i: int| 0 <= i < rest.len() implies keep(#[trigger] rest[i]) by {
            assert(rest[i] == s[i]);
        }
        filter_keeps_all(rest, keep);
        assert(rest.push(s.last()) =~= s);
    }
}

} // verus!
