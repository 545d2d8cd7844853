//! Texts in order.
use vstd::multiset::*;
use vstd::prelude::*;
use vstd::seq_lib::*;
use vstd::string::*;

use crate::seqs;
use crate::text;

verus! {

/// Puts `x` behind the texts that come before it.
pub open spec fn insert_text(s: Seq<Seq<char>>, x: Seq<char>) -> Seq<Seq<char>>
    decreases s.len(),
{
    if s.len() == 0 || text::text_le(s.last(), x) {
        s.push(x)
    } else {
        insert_text(s.drop_last(), x).push(s.last())
    }
}

/// The texts in order.
pub open spec fn sorted(s: Seq<Seq<char>>) -> Seq<Seq<char>>
    decreases s.len(),
{
    if s.len() == 0 {
        s
    } else {
        insert_text(sorted(s.drop_last()), s.last())
    }
}

/// Whether the texts are in order.
pub open spec fn in_order(s: Seq<Seq<char>>) -> bool {
    forall|i: int, j: int| 0 <= i <= j < s.len() ==> text::text_le(#[trigger] s[i], #[trigger] s[j])
}

/// Puts a text where it belongs in a list that is in order.
pub fn insert_in_order(list: &mut Vec<String>, entry: String)
    ensures
        final(list).deep_view() == insert_text(old(list).deep_view(), entry@),
{
    let ghost all = list.deep_view();
    let ghost x = entry@;
    let mut at: usize = list.len();
    assert(all.take(at as int) =~= all);
    assert(all.skip(at as int) =~= Seq::empty());
    assert(insert_text(all, x) =~= insert_text(all.take(at as int), x) + all.skip(at as int));
    while at > 0 && !text::is_text_le(list[at - 1].as_str(), entry.as_str())
        invariant
            x == entry@,
            all == list.deep_view(),
            at <= all.len(),
            insert_text(all, x) == insert_text(all.take(at as int), x) + all.skip(at as int),
        decreases at,
    {
        proof {
            let front = all.take(at as int);
            assert(front.last() == all[at - 1]);
            assert(front.drop_last() =~= all.take(at - 1));
            let placed = insert_text(all.take(at - 1), x);
            assert(placed.push(all[at - 1]) + all.skip(at as int) =~= placed + all.skip(at - 1));
        }
        at -= 1;
    }
    proof {
        let front = all.take(at as int);
        if at > 0 {
            assert(front.last() == all[at - 1]);
        }
        assert(insert_text(front, x) == front.push(x));
        assert(all.insert(at as int, x) =~= front.push(x) + all.skip(at as int));
    }
    list.insert(at, entry);
    assert(list.deep_view() =~= all.insert(at as int, x));
}

/// The texts in order.
pub fn sort_texts(texts: &Vec<String>) -> (r: Vec<String>)
    ensures
        r.deep_view() == sorted(texts.deep_view()),
{
    let mut r: Vec<String> = Vec::new();
    assert(r.deep_view() =~= sorted(texts.deep_view().take(0)));
    for i in 0..texts.len()
        invariant
            r.deep_view() == sorted(texts.deep_view().take(i as int)),
    {
        proof {
            let next = texts.deep_view().take(i + 1);
            assert(next.drop_last() =~= texts.deep_view().take(i as int));
            assert(next.last() == texts.deep_view()[i as int]);
        }
        insert_in_order(&mut r, texts[i].clone());
    }
    assert(texts.deep_view().take(texts@.len() as int) =~= texts.deep_view());
    r
}

proof fn lemma_insert_text(s: Seq<Seq<char>>, x: Seq<char>)
    requires
        in_order(s),
    ensures
        insert_text(s, x).to_multiset() == s.to_multiset().insert(x),
        insert_text(s, x).len() == s.len() + 1,
        in_order(insert_text(s, x)),
        forall|i: int|
            0 <= i < insert_text(s, x).len() ==> #[trigger] insert_text(s, x)[i] == x || s.contains(
                insert_text(s, x)[i],
            ),
    decreases s.len(),
{
    broadcast use group_to_multiset_ensures;

    let r = insert_text(s, x);
    text::lemma_text_le_total(x, x);
    if s.len() == 0 || text::text_le(s.last(), x) {
        assert forall|i: int, j: int| 0 <= i <= j < r.len() implies text::text_le(
            #[trigger] r[i],
            #[trigger] r[j],
        ) by {
            if j == s.len() && i < j {
                assert(text::text_le(s[i], s[s.len() - 1]));
                text::lemma_text_le_transitive(s[i], s.last(), x);
            }
        }
    } else {
        let init = s.drop_last();
        assert(in_order(init)) by {
            assert forall|i: int, j: int| 0 <= i <= j < init.len() implies text::text_le(
                #[trigger] init[i],
                #[trigger] init[j],
            ) by {
                assert(text::text_le(s[i], s[j]));
            }
        }
        lemma_insert_text(init, x);
        let front = insert_text(init, x);
        assert(s =~= init.push(s.last()));
        text::lemma_text_le_total(s.last(), x);
        text::lemma_text_le_total(s.last(), s.last());
        assert forall|i: int| 0 <= i < r.len() implies #[trigger] r[i] == x || s.contains(r[i]) by {
            if i < front.len() {
                assert(r[i] == front[i]);
                if front[i] != x {
                    let k = choose|k: int| 0 <= k < init.len() && init[k] == front[i];
                    assert(s[k] == r[i]);
                }
            } else {
                assert(s[s.len() - 1] == r[i]);
            }
        }
        assert forall|i: int, j: int| 0 <= i <= j < r.len() implies text::text_le(
            #[trigger] r[i],
            #[trigger] r[j],
        ) by {
            if j == front.len() && i < j {
                assert(r[i] == front[i]);
                if front[i] != x {
                    let k = choose|k: int| 0 <= k < init.len() && init[k] == front[i];
                    assert(text::text_le(s[k], s[s.len() - 1]));
                }
            } else if j < front.len() {
                assert(r[i] == front[i] && r[j] == front[j]);
            }
        }
        assert(r.to_multiset() =~= s.to_multiset().insert(x));
    }
}

/// Sorting puts the texts in order, and keeps every one of them.
pub proof fn law_sorting_keeps_and_orders(s: Seq<Seq<char>>)
    ensures
        in_order(sorted(s)),
        sorted(s).to_multiset() == s.to_multiset(),
        sorted(s).len() == s.len(),
        forall|x: Seq<char>| #[trigger] sorted(s).contains(x) <==> s.contains(x),
    decreases s.len(),
{
    broadcast use group_to_multiset_ensures;

    if s.len() > 0 {
        law_sorting_keeps_and_orders(s.drop_last());
        lemma_insert_text(sorted(s.drop_last()), s.last());
        assert(s =~= s.drop_last().push(s.last()));
    }
    assert forall|x: Seq<char>| #[trigger] sorted(s).contains(x) <==> s.contains(x) by {
        assert(sorted(s).to_multiset().count(x) == s.to_multiset().count(x));
    }
}

/// The texts without those that equal their left neighbour.
pub fn dedup_texts(texts: &Vec<String>) -> (r: Vec<String>)
    ensures
        r.deep_view() == seqs::deduped(texts.deep_view()),
{
    let mut r: Vec<String> = Vec::new();
    let ghost all = texts.deep_view();
    assert(r.deep_view() =~= seqs::deduped(all.take(0)));
    for i in 0..texts.len()
        invariant
            all == texts.deep_view(),
            r.deep_view() == seqs::deduped(all.take(i as int)),
    {
        let ghost before = r.deep_view();
        proof {
            let next = all.take(i + 1);
            assert(next.drop_last() =~= all.take(i as int));
            assert(next.last() == all[i as int]);
        }
        if r.len() == 0 || !text::same(r[r.len() - 1].as_str(), texts[i].as_str()) {
            r.push(texts[i].clone());
            assert(r.deep_view() =~= before.push(all[i as int]));
        }
    }
    assert(all.take(all.len() as int) =~= all);
    r
}

} // verus!
