//! A set of texts that remembers the order in which they were added.
use vstd::prelude::*;
use vstd::string::*;

use crate::seqs;
use crate::text;

verus! {

/// Distinct texts, oldest first.
#[derive(Debug)]
pub struct TextSet {
    items: Vec<String>,
}

impl View for TextSet {
    type V = Seq<Seq<char>>;

    closed spec fn view(&self) -> Seq<Seq<char>> {
        self.items.deep_view()
    }
}

/// `s` with `t` added at the end, unless it is there already.
pub open spec fn with<A>(s: Seq<A>, t: A) -> Seq<A> {
    if s.contains(t) {
        s
    } else {
        s.push(t)
    }
}

/// `s` without `t`.
pub open spec fn without<A>(s: Seq<A>, t: A) -> Seq<A> {
    s.filter(|x: A| x != t)
}

/// All the given texts, each once, in the order of their first occurrence.
pub open spec fn distinct<A>(s: Seq<A>) -> Seq<A>
    decreases s.len(),
{
    if s.len() == 0 {
        Seq::empty()
    } else {
        with(distinct(s.drop_last()), s.last())
    }
}

/// All of `more` after `s`, each once.
pub open spec fn with_all<A>(s: Seq<A>, more: Seq<A>) -> Seq<A>
    decreases more.len(),
{
    if more.len() == 0 {
        s
    } else {
        with(with_all(s, more.drop_last()), more.last())
    }
}

impl TextSet {
    pub fn new() -> (r: Self)
        ensures
            r@ == Seq::<Seq<char>>::empty(),
    {
        let r = TextSet { items: Vec::new() };
        assert(r@ =~= Seq::<Seq<char>>::empty());
        r
    }

    /// The set of the given texts.
    pub fn of(texts: &Vec<String>) -> (r: Self)
        ensures
            r@ == distinct(texts.deep_view()),
    {
        let mut r = TextSet::new();
        for i in 0..texts.len()
            invariant
                r@ == distinct(texts.deep_view().take(i as int)),
        {
            proof {
                let next = texts.deep_view().take(i + 1);
                assert(next.drop_last() =~= texts.deep_view().take(i as int));
                assert(next.last() == texts.deep_view()[i as int]);
            }
            r.insert(texts[i].clone());
        }
        assert(texts.deep_view().take(texts@.len() as int) =~= texts.deep_view());
        r
    }

    pub fn contains(&self, t: &str) -> (r: bool)
        ensures
            r == self@.contains(t@),
    {
        for i in 0..self.items.len()
            invariant
                forall|j: int| 0 <= j < i ==> self@[j] != t@,
        {
            if text::same(self.items[i].as_str(), t) {
                assert(self@[i as int] == t@);
                return true;
            }
        }
        false
    }

    /// Adds a text; whether it was new.
    pub fn insert(&mut self, t: String) -> (added: bool)
        ensures
            added == !old(self)@.contains(t@),
            final(self)@ == with(old(self)@, t@),
    {
        if self.contains(t.as_str()) {
            false
        } else {
            self.items.push(t);
            assert(self@ =~= old(self)@.push(t@));
            true
        }
    }

    /// Adds a text that is not there yet.
    pub fn append(&mut self, t: String)
        ensures
            final(self)@ == old(self)@.push(t@),
    {
        self.items.push(t);
        assert(self@ =~= old(self)@.push(t@));
    }

    /// Adds all the texts of another set.
    pub fn extend(&mut self, more: &TextSet)
        ensures
            final(self)@ == with_all(old(self)@, more@),
    {
        let ghost start = self@;
        for i in 0..more.items.len()
            invariant
                self@ == with_all(start, more@.take(i as int)),
        {
            proof {
                let next = more@.take(i + 1);
                assert(next.drop_last() =~= more@.take(i as int));
                assert(next.last() == more@[i as int]);
            }
            self.insert(more.items[i].clone());
        }
        assert(more@.take(more@.len() as int) =~= more@);
    }

    /// The texts, oldest first.
    pub fn to_vec(&self) -> (r: Vec<String>)
        ensures
            r.deep_view() == self@,
    {
        let r = self.items.clone();
        assert(r.deep_view() =~= self@);
        r
    }

    /// Takes a text out; whether it was there.
    pub fn remove(&mut self, t: &str) -> (removed: bool)
        ensures
            removed == old(self)@.contains(t@),
            final(self)@ == without(old(self)@, t@),
    {
        let removed = self.contains(t);
        let mut kept: Vec<String> = Vec::new();
        let ghost keep = |x: Seq<char>| x != t@;
        for i in 0..self.items.len()
            invariant
                kept.deep_view() == self@.take(i as int).filter(keep),
                keep == |x: Seq<char>| x != t@,
                *self == *old(self),
        {
            proof {
                assert(self@.take(i + 1) =~= self@.take(i as int).push(self@[i as int]));
                seqs::lemma_filter_push(self@.take(i as int), self@[i as int], keep);
            }
            if !text::same(self.items[i].as_str(), t) {
                let ghost before = kept.deep_view();
                kept.push(self.items[i].clone());
                assert(kept.deep_view() =~= before.push(self@[i as int]));
            }
        }
        assert(self@.take(self@.len() as int) =~= self@);
        self.items = kept;
        removed
    }

    pub fn clear(&mut self)
        ensures
            final(self)@ == Seq::<Seq<char>>::empty(),
    {
        self.items = Vec::new();
        assert(self@ =~= Seq::<Seq<char>>::empty());
    }

    pub fn len(&self) -> (n: usize)
        ensures
            n == self@.len(),
    {
        self.items.len()
    }

    /// The text that was added as number `i` of those that are left.
    pub fn get(&self, i: usize) -> (t: &String)
        requires
            i < self@.len(),
        ensures
            t@ == self@[i as int],
    {
        &self.items[i]
    }
}

impl Clone for TextSet {
    fn clone(&self) -> (r: Self)
        ensures
            r@ == self@,
    {
        let r = TextSet { items: self.items.clone() };
        assert(r@ =~= self@);
        r
    }
}

/// Adding keeps the texts distinct.
pub proof fn lemma_with_distinct<A>(s: Seq<A>, t: A)
    requires
        s.no_duplicates(),
    ensures
        with(s, t).no_duplicates(),
{
}

/// Taking out keeps the texts distinct, and takes out that one alone.
pub proof fn lemma_without<A>(s: Seq<A>, t: A)
    ensures
        forall|x: A| #[trigger] without(s, t).contains(x) <==> s.contains(x) && x != t,
        s.no_duplicates() ==> without(s, t).no_duplicates(),
    decreases s.len(),
{
    let keep = |x: A| x != t;
    if s.len() > 0 {
        let init = s.drop_last();
        lemma_without(init, t);
        assert(s =~= init.push(s.last()));
        seqs::lemma_filter_push(init, s.last(), keep);
        assert forall|x: A| #[trigger] without(s, t).contains(x) <==> s.contains(x) && x != t by {
            assert(without(init, t).contains(x) <==> init.contains(x) && x != t);
            if s.contains(x) && x != s.last() {
                let i = choose|i: int| 0 <= i < s.len() && s[i] == x;
                assert(init[i] == x);
            }
            if init.contains(x) {
                let i = choose|i: int| 0 <= i < init.len() && init[i] == x;
                assert(s[i] == x);
            }
            let out = without(s, t);
            let rest = without(init, t);
            if keep(s.last()) {
                assert(out == rest.push(s.last()));
                assert(out[rest.len() as int] == s.last());
                if rest.contains(x) {
                    let i = choose|i: int| 0 <= i < rest.len() && rest[i] == x;
                    assert(out[i] == x);
                }
                if out.contains(x) && x != s.last() {
                    let i = choose|i: int| 0 <= i < out.len() && out[i] == x;
                    assert(rest[i] == x);
                }
            }
            assert(s[s.len() - 1] == s.last());
        }
        if s.no_duplicates() {
            assert(init.no_duplicates());
            if keep(s.last()) {
                assert(!without(init, t).contains(s.last())) by {
                    if init.contains(s.last()) {
                        let i = choose|i: int| 0 <= i < init.len() && init[i] == s.last();
                        assert(s[i] == s[s.len() - 1]);
                    }
                }
            }
        }
    } else {
        assert(s.filter(keep) =~= s) by {
            reveal(Seq::filter);
        }
    }
}

/// What is left of several texts is each of them.
pub proof fn lemma_distinct_members<A>(s: Seq<A>)
    ensures
        distinct(s).no_duplicates(),
        forall|x: A| #[trigger] distinct(s).contains(x) <==> s.contains(x),
    decreases s.len(),
{
    if s.len() > 0 {
        let init = s.drop_last();
        lemma_distinct_members(init);
        lemma_with_distinct(distinct(init), s.last());
        assert forall|x: A| #[trigger] distinct(s).contains(x) <==> s.contains(x) by {
            let rest = distinct(init);
            assert(rest.contains(x) <==> init.contains(x));
            assert(distinct(s) == with(rest, s.last()));
            assert(s[s.len() - 1] == s.last());
            if s.contains(x) && x != s.last() {
                let i = choose|i: int| 0 <= i < s.len() && s[i] == x;
                assert(init[i] == x);
            }
            if init.contains(x) {
                let i = choose|i: int| 0 <= i < init.len() && init[i] == x;
                assert(s[i] == x);
            }
            if !rest.contains(s.last()) {
                assert(rest.push(s.last())[rest.len() as int] == s.last());
                if rest.contains(x) {
                    let i = choose|i: int| 0 <= i < rest.len() && rest[i] == x;
                    assert(rest.push(s.last())[i] == x);
                }
                if rest.push(s.last()).contains(x) && x != s.last() {
                    let i = choose|i: int|
                        0 <= i < rest.len() + 1 && rest.push(s.last())[i] == x;
                    assert(rest[i] == x);
                }
            }
        }
    }
}

} // verus!
