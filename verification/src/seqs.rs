//! Facts about sequences that the state machines share.
use vstd::prelude::*;

verus! {

/// Whether `i` is the first place in `s` where `pred` holds.
pub open spec fn is_first<A>(s: Seq<A>, pred: spec_fn(A) -> bool, i: int) -> bool {
    &&& 0 <= i < s.len()
    &&& pred(s[i])
    &&& forall|j: int| 0 <= j < i ==> !pred(#[trigger] s[j])
}

/// The first place in `s` where `pred` holds.
pub open spec fn first_where<A>(s: Seq<A>, pred: spec_fn(A) -> bool) -> Option<int> {
    if exists|i: int| is_first(s, pred, i) {
        Some(choose|i: int| is_first(s, pred, i))
    } else {
        None
    }
}

/// There is one first place at most.
pub proof fn lemma_first<A>(s: Seq<A>, pred: spec_fn(A) -> bool, i: int)
    requires
        is_first(s, pred, i),
    ensures
        first_where(s, pred) == Some(i),
{
    let k = choose|k: int| is_first(s, pred, k);
    assert(is_first(s, pred, k));
    if k < i {
        assert(!pred(s[k]));
    }
    if i < k {
        assert(!pred(s[i]));
    }
}

/// Where `pred` holds nowhere, there is no first place.
pub proof fn lemma_no_first<A>(s: Seq<A>, pred: spec_fn(A) -> bool)
    requires
        forall|j: int| 0 <= j < s.len() ==> !pred(#[trigger] s[j]),
    ensures
        first_where(s, pred) is None,
{
}

/// What `first_where` promises of its result.
pub proof fn lemma_first_where<A>(s: Seq<A>, pred: spec_fn(A) -> bool)
    ensures
        match first_where(s, pred) {
            Some(i) => is_first(s, pred, i),
            None => forall|j: int| 0 <= j < s.len() ==> !pred(#[trigger] s[j]),
        },
    decreases s.len(),
{
    if first_where(s, pred) is None {
        if s.len() > 0 {
            let init = s.drop_last();
            lemma_first_where(init, pred);
            match first_where(init, pred) {
                Some(i) => {
                    assert forall|j: int| 0 <= j < i implies !pred(#[trigger] s[j]) by {
                        assert(!pred(init[j]));
                    }
                    assert(pred(init[i]));
                    assert(is_first(s, pred, i));
                },
                None => {
                    assert forall|j: int| 0 <= j < s.len() - 1 implies !pred(#[trigger] s[j]) by {
                        assert(!pred(init[j]));
                    }
                    if pred(s.last()) {
                        assert(is_first(s, pred, s.len() - 1));
                    }
                },
            }
        }
    }
}

/// How often `pred` holds in `s`.
pub open spec fn count<A>(s: Seq<A>, pred: spec_fn(A) -> bool) -> nat {
    s.filter(pred).len()
}

/// Filtering after a push.
pub proof fn lemma_filter_push<A>(s: Seq<A>, a: A, keep: spec_fn(A) -> bool)
    ensures
        s.push(a).filter(keep) == if keep(a) {
            s.filter(keep).push(a)
        } else {
            s.filter(keep)
        },
{
    reveal(Seq::filter);
    assert(s.push(a).drop_last() =~= s);
}

/// What a filter keeps was there before, and passes.
pub proof fn lemma_filter_members<A>(s: Seq<A>, keep: spec_fn(A) -> bool)
    ensures
        forall|i: int|
            0 <= i < s.filter(keep).len() ==> s.contains(#[trigger] s.filter(keep)[i]) && keep(
                s.filter(keep)[i],
            ),
        forall|x: A| #[trigger] s.filter(keep).contains(x) <==> s.contains(x) && keep(x),
    decreases s.len(),
{
    if s.len() > 0 {
        let init = s.drop_last();
        let last = s.last();
        lemma_filter_members(init, keep);
        assert(s =~= init.push(last));
        lemma_filter_push(init, last, keep);
        let kept = init.filter(keep);
        let out = s.filter(keep);
        assert forall|i: int| 0 <= i < out.len() implies s.contains(#[trigger] out[i]) && keep(out[i]) by {
            if i < kept.len() {
                assert(out[i] == kept[i]);
                let k = choose|k: int| 0 <= k < init.len() && init[k] == kept[i];
                assert(s[k] == out[i]);
            } else {
                assert(s[s.len() - 1] == out[i]);
            }
        }
        assert forall|x: A| #[trigger] out.contains(x) <==> s.contains(x) && keep(x) by {
            if s.contains(x) && keep(x) {
                let k = choose|k: int| 0 <= k < s.len() && s[k] == x;
                if k < init.len() {
                    assert(init[k] == x);
                    assert(kept.contains(x));
                    let m = choose|m: int| 0 <= m < kept.len() && kept[m] == x;
                    assert(out[m] == x);
                } else {
                    assert(out[kept.len() as int] == x);
                }
            }
        }
    } else {
        assert(s.filter(keep) =~= s) by {
            reveal(Seq::filter);
        }
    }
}

/// Filtering twice is filtering once by both.
pub proof fn lemma_filter_twice<A>(
    s: Seq<A>,
    keep: spec_fn(A) -> bool,
    again: spec_fn(A) -> bool,
    both: spec_fn(A) -> bool,
)
    requires
        forall|i: int|
            0 <= i < s.len() ==> both(#[trigger] s[i]) == (keep(s[i]) && again(s[i])),
    ensures
        s.filter(keep).filter(again) == s.filter(both),
    decreases s.len(),
{
    if s.len() > 0 {
        let init = s.drop_last();
        assert(s =~= init.push(s.last()));
        assert forall|i: int| 0 <= i < init.len() implies both(#[trigger] init[i]) == (keep(init[i])
            && again(init[i])) by {
            assert(init[i] == s[i]);
        }
        lemma_filter_twice(init, keep, again, both);
        lemma_filter_push(init, s.last(), keep);
        lemma_filter_push(init, s.last(), both);
        lemma_filter_push(init.filter(keep), s.last(), again);
        assert(both(s[s.len() - 1]) == (keep(s.last()) && again(s.last())));
    } else {
        reveal(Seq::filter);
    }
}

/// A filter that everything passes changes nothing.
pub proof fn lemma_filter_all<A>(s: Seq<A>, keep: spec_fn(A) -> bool)
    requires
        forall|i: int| 0 <= i < s.len() ==> keep(#[trigger] s[i]),
    ensures
        s.filter(keep) == s,
    decreases s.len(),
{
    if s.len() > 0 {
        let init = s.drop_last();
        assert(s =~= init.push(s.last()));
        assert forall|i: int| 0 <= i < init.len() implies keep(#[trigger] init[i]) by {
            assert(init[i] == s[i]);
        }
        lemma_filter_all(init, keep);
        lemma_filter_push(init, s.last(), keep);
        assert(keep(s[s.len() - 1]));
    } else {
        reveal(Seq::filter);
        assert(s.filter(keep) =~= s);
    }
}

/// Filtering one after the other.
pub proof fn lemma_filter_sum<A>(a: Seq<A>, b: Seq<A>, keep: spec_fn(A) -> bool)
    ensures
        (a + b).filter(keep) == a.filter(keep) + b.filter(keep),
    decreases b.len(),
{
    if b.len() > 0 {
        let init = b.drop_last();
        lemma_filter_sum(a, init, keep);
        assert(a + b =~= (a + init).push(b.last()));
        assert(b =~= init.push(b.last()));
        lemma_filter_push(a + init, b.last(), keep);
        lemma_filter_push(init, b.last(), keep);
        assert((a + b).filter(keep) =~= a.filter(keep) + b.filter(keep));
    } else {
        assert(a + b =~= a);
        assert(b.filter(keep) =~= Seq::empty()) by {
            reveal(Seq::filter);
        }
        assert((a + b).filter(keep) =~= a.filter(keep) + b.filter(keep));
    }
}

/// An update at one place changes the count by what changes there.
pub proof fn lemma_count_update<A>(s: Seq<A>, i: int, a: A, pred: spec_fn(A) -> bool)
    requires
        0 <= i < s.len(),
    ensures
        count(s.update(i, a), pred) - count(s, pred) == (if pred(a) { 1int } else { 0 }) - (if pred(s[i]) {
            1int
        } else {
            0
        }),
    decreases s.len(),
{
    let init = s.drop_last();
    assert(s =~= init.push(s.last()));
    lemma_filter_push(init, s.last(), pred);
    if i == s.len() - 1 {
        assert(s.update(i, a) =~= init.push(a));
        lemma_filter_push(init, a, pred);
    } else {
        assert(s.update(i, a) =~= init.update(i, a).push(s.last()));
        lemma_filter_push(init.update(i, a), s.last(), pred);
        lemma_count_update(init, i, a, pred);
    }
}

/// Taking one element out lowers the count by what it counted.
pub proof fn lemma_count_remove<A>(s: Seq<A>, i: int, pred: spec_fn(A) -> bool)
    requires
        0 <= i < s.len(),
    ensures
        count(s, pred) == count(s.remove(i), pred) + (if pred(s[i]) { 1int } else { 0 }),
    decreases s.len(),
{
    let init = s.drop_last();
    assert(s =~= init.push(s.last()));
    lemma_filter_push(init, s.last(), pred);
    if i == s.len() - 1 {
        assert(s.remove(i) =~= init);
    } else {
        assert(s.remove(i) =~= init.remove(i).push(s.last()));
        lemma_filter_push(init.remove(i), s.last(), pred);
        lemma_count_remove(init, i, pred);
    }
}

/// Two sequences that agree on `pred` place by place have the same count.
pub proof fn lemma_count_same<A>(s: Seq<A>, t: Seq<A>, pred: spec_fn(A) -> bool)
    requires
        s.len() == t.len(),
        forall|i: int| 0 <= i < s.len() ==> pred(#[trigger] s[i]) == pred(t[i]),
    ensures
        count(s, pred) == count(t, pred),
    decreases s.len(),
{
    if s.len() > 0 {
        assert(s =~= s.drop_last().push(s.last()));
        assert(t =~= t.drop_last().push(t.last()));
        lemma_filter_push(s.drop_last(), s.last(), pred);
        lemma_filter_push(t.drop_last(), t.last(), pred);
        assert(pred(s[s.len() - 1]) == pred(t[s.len() - 1]));
        assert forall|i: int| 0 <= i < s.drop_last().len() implies pred(#[trigger] s.drop_last()[i]) == pred(
            t.drop_last()[i],
        ) by {
            assert(pred(s[i]) == pred(t[i]));
        }
        lemma_count_same(s.drop_last(), t.drop_last(), pred);
    } else {
        assert(s =~= t);
    }
}

/// `s` without what equals its left neighbour.
pub open spec fn deduped<A>(s: Seq<A>) -> Seq<A>
    decreases s.len(),
{
    if s.len() == 0 {
        s
    } else {
        let before = deduped(s.drop_last());
        if before.len() > 0 && before.last() == s.last() {
            before
        } else {
            before.push(s.last())
        }
    }
}

} // verus!
