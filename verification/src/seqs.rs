//! Sequences: selecting, mapping and searching.
use vstd::prelude::*;

verus! {

/// What `f` makes of the elements of `s`, in order, without those of which it makes nothing.
pub open spec fn collect<A, B>(s: Seq<A>, f: spec_fn(A) -> Option<B>) -> Seq<B>
    decreases s.len(),
{
    if s.len() == 0 {
        Seq::empty()
    } else {
        let rest = collect(s.drop_last(), f);
        match f(s.last()) {
            Some(b) => rest.push(b),
            None => rest,
        }
    }
}

/// One more element of the prefix that has been collected.
pub proof fn lemma_collect_step<A, B>(s: Seq<A>, f: spec_fn(A) -> Option<B>, i: int)
    requires
        0 <= i < s.len(),
    ensures
        collect(s.take(i + 1), f) == (match f(s[i]) {
            Some(b) => collect(s.take(i), f).push(b),
            None => collect(s.take(i), f),
        }),
{
    assert(s.take(i + 1).drop_last() =~= s.take(i));
}

/// The whole is its longest prefix, and nothing is collected of the empty one.
pub proof fn lemma_collect_ends<A, B>(s: Seq<A>, f: spec_fn(A) -> Option<B>)
    ensures
        collect(s.take(s.len() as int), f) == collect(s, f),
        collect(s.take(0), f) == Seq::<B>::empty(),
{
    assert(s.take(s.len() as int) =~= s);
}

/// What was collected was made of one of the elements.
pub proof fn lemma_collected_from<A, B>(s: Seq<A>, f: spec_fn(A) -> Option<B>, i: int)
    requires
        0 <= i < collect(s, f).len(),
    ensures
        exists|j: int| 0 <= j < s.len() && f(#[trigger] s[j]) == Some(collect(s, f)[i]),
    decreases s.len(),
{
    let front = s.drop_last();
    let rest = collect(front, f);
    if i < rest.len() {
        lemma_collected_from(front, f, i);
        let j = choose|j: int| 0 <= j < front.len() && f(#[trigger] front[j]) == Some(rest[i]);
        assert(f(s[j]) == Some(collect(s, f)[i]));
    } else {
        assert(f(s[s.len() - 1]) == Some(collect(s, f)[i]));
    }
}

/// What is collected is exactly what is made of the elements.
pub proof fn lemma_collect_contains<A, B>(s: Seq<A>, f: spec_fn(A) -> Option<B>, b: B)
    ensures
        collect(s, f).contains(b) <==> exists|j: int| 0 <= j < s.len() && f(#[trigger] s[j]) == Some(b),
    decreases s.len(),
{
    let all = collect(s, f);
    if all.contains(b) {
        let i = choose|i: int| 0 <= i < all.len() && all[i] == b;
        lemma_collected_from(s, f, i);
    }
    if exists|j: int| 0 <= j < s.len() && f(#[trigger] s[j]) == Some(b) {
        let j = choose|j: int| 0 <= j < s.len() && f(#[trigger] s[j]) == Some(b);
        let front = s.drop_last();
        let rest = collect(front, f);
        if j < front.len() {
            assert(f(front[j]) == Some(b));
            lemma_collect_contains(front, f, b);
            let i = choose|i: int| 0 <= i < rest.len() && rest[i] == b;
            assert(all[i] == b);
        } else {
            assert(all[rest.len() as int] == b);
        }
    }
}

/// What is collected of two sequences in a row is what is collected of each, in a row.
pub proof fn lemma_collect_add<A, B>(s: Seq<A>, t: Seq<A>, f: spec_fn(A) -> Option<B>)
    ensures
        collect(s + t, f) == collect(s, f) + collect(t, f),
    decreases t.len(),
{
    if t.len() == 0 {
        assert(s + t =~= s);
        assert(collect(s, f) + collect(t, f) =~= collect(s, f));
    } else {
        assert((s + t).drop_last() =~= s + t.drop_last());
        lemma_collect_add(s, t.drop_last(), f);
        assert(collect(s + t, f) =~= collect(s, f) + collect(t, f));
    }
}

/// The first position at or after `from` whose element satisfies `f`; the length if none does.
pub open spec fn first_from<A>(s: Seq<A>, f: spec_fn(A) -> bool, from: int) -> int
    decreases s.len() - from,
{
    if from >= s.len() {
        s.len() as int
    } else if f(s[from]) {
        from
    } else {
        first_from(s, f, from + 1)
    }
}

pub proof fn lemma_first_from<A>(s: Seq<A>, f: spec_fn(A) -> bool, from: int)
    requires
        0 <= from <= s.len(),
    ensures
        from <= first_from(s, f, from) <= s.len(),
        first_from(s, f, from) < s.len() ==> f(s[first_from(s, f, from)]),
        forall|j: int| from <= j < first_from(s, f, from) ==> !f(#[trigger] s[j]),
    decreases s.len() - from,
{
    if from < s.len() && !f(s[from]) {
        lemma_first_from(s, f, from + 1);
    }
}

/// The first position that `lemma_first_from` describes is the only one.
pub proof fn lemma_first_from_is<A>(s: Seq<A>, f: spec_fn(A) -> bool, from: int, at: int)
    requires
        0 <= from <= at <= s.len(),
        forall|j: int| from <= j < at ==> !f(#[trigger] s[j]),
        at < s.len() ==> f(s[at]),
    ensures
        first_from(s, f, from) == at,
    decreases at - from,
{
    if from < at {
        lemma_first_from_is(s, f, from + 1, at);
    }
}

} // verus!
