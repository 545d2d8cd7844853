//! Text as sequences of characters: the small vocabulary that the rest of the
//! library uses to state what a string holds.
use vstd::prelude::*;
use vstd::string::*;

use crate::seqs;

verus! {

/// `String::push` appends one character.
pub assume_specification[ String::push ](s: &mut String, c: char)
    ensures
        final(s)@ == old(s)@.push(c),
;

/// `String::push_str` appends the characters of a string slice.
pub assume_specification[ String::push_str ](s: &mut String, other: &str)
    ensures
        final(s)@ == old(s)@ + other@,
;

/// `==` on string slices: whether they hold the same characters.
pub assume_specification[ <str as PartialEq>::eq ](a: &str, b: &str) -> (r: bool)
    ensures
        r == (a@ == b@),
;

/// Whether two texts are the same.
pub fn same(a: &str, b: &str) -> (r: bool)
    ensures
        r == (a@ == b@),
{
    *a == *b
}

/// The character of one decimal digit.
pub open spec fn digit_char(d: int) -> char {
    if d == 0 { '0' } else if d == 1 { '1' } else if d == 2 { '2' } else if d == 3 { '3' }
    else if d == 4 { '4' } else if d == 5 { '5' } else if d == 6 { '6' } else if d == 7 { '7' }
    else if d == 8 { '8' } else { '9' }
}

/// A natural number in decimal, without leading zeros.
pub open spec fn decimal(n: nat) -> Seq<char>
    decreases n,
{
    if n < 10 {
        seq![digit_char(n as int)]
    } else {
        decimal(n / 10).push(digit_char((n % 10) as int))
    }
}

/// An integer in decimal, with a minus sign where it is negative.
pub open spec fn signed_decimal(n: int) -> Seq<char> {
    if n < 0 {
        seq!['-'] + decimal((-n) as nat)
    } else {
        decimal(n as nat)
    }
}

fn digit(d: u64) -> (c: char)
    requires
        d < 10,
    ensures
        c == digit_char(d as int),
{
    match d {
        0 => '0',
        1 => '1',
        2 => '2',
        3 => '3',
        4 => '4',
        5 => '5',
        6 => '6',
        7 => '7',
        8 => '8',
        _ => '9',
    }
}

/// `n` in decimal, however long.
pub fn long_decimal_text(n: u128) -> (r: String)
    ensures
        r@ == decimal(n as nat),
    decreases n,
{
    if n < 10 {
        let mut s = String::new();
        s.push(digit(n as u64));
        assert(s@ =~= decimal(n as nat));
        s
    } else {
        let mut s = long_decimal_text(n / 10);
        s.push(digit((n % 10) as u64));
        s
    }
}

/// `n` in decimal.
pub fn decimal_text(n: u64) -> (r: String)
    ensures
        r@ == decimal(n as nat),
{
    long_decimal_text(n as u128)
}

/// `n` in decimal, with a minus sign where it is negative.
pub fn signed_decimal_text(n: i64) -> (r: String)
    ensures
        r@ == signed_decimal(n as int),
{
    if n < 0 {
        let mut s = String::new();
        s.push('-');
        let magnitude: u64 = (-(n as i128)) as u64;
        let digits = decimal_text(magnitude);
        s.push_str(digits.as_str());
        assert(s@ =~= signed_decimal(n as int));
        s
    } else {
        decimal_text(n as u64)
    }
}

/// The characters of a string slice.
pub fn chars_of(s: &str) -> (v: Vec<char>)
    ensures
        v@ == s@,
{
    let mut v: Vec<char> = Vec::new();
    for c in it: s.chars()
        invariant
            v@ == it.seq().take(it.index() as int),
            it.seq() == s@,
    {
        v.push(c);
    }
    assert(v@ =~= s@);
    v
}

/// The string that holds the given characters.
pub fn text_of(v: &Vec<char>) -> (s: String)
    ensures
        s@ == v@,
{
    let mut s = String::new();
    for i in 0..v.len()
        invariant
            s@ == v@.take(i as int),
    {
        s.push(v[i]);
        assert(s@ =~= v@.take(i + 1));
    }
    assert(s@ =~= v@);
    s
}

/// The Unicode `White_Space` property.
pub open spec fn white(c: char) -> bool {
    ||| '\u{9}' <= c <= '\u{d}'
    ||| c == ' '
    ||| c == '\u{85}'
    ||| c == '\u{a0}'
    ||| c == '\u{1680}'
    ||| '\u{2000}' <= c <= '\u{200a}'
    ||| c == '\u{2028}'
    ||| c == '\u{2029}'
    ||| c == '\u{202f}'
    ||| c == '\u{205f}'
    ||| c == '\u{3000}'
}

/// The Unicode general category `Cc`: the control characters.
pub open spec fn control(c: char) -> bool {
    c <= '\u{1f}' || '\u{7f}' <= c <= '\u{9f}'
}

/// Whether `c` is white space.
pub fn is_white(c: char) -> (r: bool)
    ensures
        r == white(c),
{
    ('\u{9}' <= c && c <= '\u{d}') || c == ' ' || c == '\u{85}' || c == '\u{a0}' || c == '\u{1680}'
        || ('\u{2000}' <= c && c <= '\u{200a}') || c == '\u{2028}' || c == '\u{2029}'
        || c == '\u{202f}' || c == '\u{205f}' || c == '\u{3000}'
}

/// Whether `c` is a control character.
pub fn is_control(c: char) -> (r: bool)
    ensures
        r == control(c),
{
    c <= '\u{1f}' || ('\u{7f}' <= c && c <= '\u{9f}')
}

/// The maximal runs of characters that are not white space, in order.
pub open spec fn words(s: Seq<char>) -> Seq<Seq<char>>
    decreases s.len(),
{
    if s.len() == 0 {
        Seq::empty()
    } else {
        let before = words(s.drop_last());
        if white(s.last()) {
            before
        } else if s.len() == 1 || white(s[s.len() - 2]) {
            before.push(seq![s.last()])
        } else {
            before.update(before.len() - 1, before.last().push(s.last()))
        }
    }
}

/// The words of a text.
pub fn words_of(s: &str) -> (r: Vec<String>)
    ensures
        r.deep_view() == words(s@),
{
    let chars = chars_of(s);
    let mut r: Vec<String> = Vec::new();
    assert(r.deep_view() =~= words(chars@.take(0)));
    for i in 0..chars.len()
        invariant
            r.deep_view() == words(chars@.take(i as int)),
    {
        let ghost before = r.deep_view();
        let ghost next = chars@.take(i + 1);
        assert(next.drop_last() =~= chars@.take(i as int));
        assert(next.last() == chars@[i as int]);
        if !is_white(chars[i]) {
            if i == 0 || is_white(chars[i - 1]) {
                let mut word = String::new();
                word.push(chars[i]);
                assert(word@ =~= seq![chars@[i as int]]);
                r.push(word);
                assert(r.deep_view() =~= before.push(seq![chars@[i as int]]));
            } else {
                proof {
                    lemma_words_nonempty(chars@.take(i as int));
                }
                let last: usize = r.len() - 1;
                let mut word = r[last].clone();
                word.push(chars[i]);
                r[last] = word;
                assert(r.deep_view() =~= before.update(
                    before.len() - 1,
                    before.last().push(chars@[i as int]),
                ));
            }
        }
        assert(r.deep_view() == words(next));
    }
    assert(chars@.take(chars@.len() as int) =~= chars@);
    r
}

/// The pieces of `s` between the separators, in order.
pub open spec fn split(s: Seq<char>, separator: char) -> Seq<Seq<char>>
    decreases s.len(),
{
    if s.len() == 0 {
        seq![Seq::empty()]
    } else {
        let before = split(s.drop_last(), separator);
        if s.last() == separator {
            before.push(Seq::empty())
        } else {
            before.update(before.len() - 1, before.last().push(s.last()))
        }
    }
}

/// There is at least one piece.
pub proof fn lemma_split_nonempty(s: Seq<char>, separator: char)
    ensures
        split(s, separator).len() > 0,
    decreases s.len(),
{
    if s.len() > 0 {
        lemma_split_nonempty(s.drop_last(), separator);
    }
}

/// The pieces of a text between the separators.
pub fn split_at(s: &str, separator: char) -> (r: Vec<String>)
    ensures
        r.deep_view() == split(s@, separator),
{
    let chars = chars_of(s);
    let mut r: Vec<String> = Vec::new();
    r.push(String::new());
    assert(r.deep_view() =~= split(chars@.take(0), separator));
    for i in 0..chars.len()
        invariant
            r.deep_view() == split(chars@.take(i as int), separator),
    {
        let ghost before = r.deep_view();
        let ghost next = chars@.take(i + 1);
        assert(next.drop_last() =~= chars@.take(i as int));
        assert(next.last() == chars@[i as int]);
        if chars[i] == separator {
            r.push(String::new());
            assert(r.deep_view() =~= before.push(Seq::empty()));
        } else {
            proof {
                lemma_split_nonempty(chars@.take(i as int), separator);
            }
            let last: usize = r.len() - 1;
            let mut piece = r[last].clone();
            piece.push(chars[i]);
            r[last] = piece;
            assert(r.deep_view() =~= before.update(
                before.len() - 1,
                before.last().push(chars@[i as int]),
            ));
        }
        assert(r.deep_view() == split(next, separator));
    }
    assert(chars@.take(chars@.len() as int) =~= chars@);
    r
}

/// The words one after the other, with a single space between neighbours.
pub open spec fn spaced(ws: Seq<Seq<char>>) -> Seq<char>
    decreases ws.len(),
{
    if ws.len() == 0 {
        Seq::empty()
    } else if ws.len() == 1 {
        ws[0]
    } else {
        spaced(ws.drop_last()).push(' ') + ws.last()
    }
}

/// Words hold at least one character, and text that ends in one has some.
pub proof fn lemma_words_nonempty(s: Seq<char>)
    ensures
        forall|i: int| 0 <= i < words(s).len() ==> (#[trigger] words(s)[i]).len() > 0,
        s.len() > 0 && !white(s.last()) ==> words(s).len() > 0,
    decreases s.len(),
{
    if s.len() > 0 {
        lemma_words_nonempty(s.drop_last());
        if s.len() > 1 {
            assert(s.drop_last().last() == s[s.len() - 2]);
        }
        let before = words(s.drop_last());
        assert forall|i: int| 0 <= i < words(s).len() implies (#[trigger] words(s)[i]).len() > 0 by {
            if i < before.len() {
                assert(before[i].len() > 0);
            }
        }
    }
}

/// The words of an ASCII text are ASCII texts.
pub proof fn lemma_words_ascii(s: Seq<char>)
    requires
        vstd::utf8::is_ascii_chars(s),
    ensures
        forall|i: int|
            0 <= i < words(s).len() ==> vstd::utf8::is_ascii_chars(#[trigger] words(s)[i]),
    decreases s.len(),
{
    if s.len() > 0 {
        let init = s.drop_last();
        lemma_words_ascii(init);
        lemma_words_nonempty(init);
        assert('\0' <= s[s.len() - 1] <= '\u{7f}');
        assert forall|i: int| 0 <= i < words(s).len() implies vstd::utf8::is_ascii_chars(
            #[trigger] words(s)[i],
        ) by {
            if i < words(init).len() {
                assert(vstd::utf8::is_ascii_chars(words(init)[i]));
            }
        }
    }
}

proof fn lemma_spaced_nonempty(ws: Seq<Seq<char>>)
    requires
        forall|i: int| 0 <= i < ws.len() ==> (#[trigger] ws[i]).len() > 0,
    ensures
        spaced(ws).len() == 0 <==> ws.len() == 0,
{
}

pub proof fn lemma_spaced_push(ws: Seq<Seq<char>>, c: char)
    ensures
        spaced(ws.push(seq![c])) == if ws.len() == 0 {
            seq![c]
        } else {
            spaced(ws).push(' ').push(c)
        },
        ws.len() > 0 ==> spaced(ws.update(ws.len() - 1, ws.last().push(c))) == spaced(ws).push(c),
{
    let pushed = ws.push(seq![c]);
    assert(pushed.drop_last() =~= ws);
    if ws.len() > 0 {
        assert(spaced(pushed) =~= spaced(ws).push(' ').push(c));
        let grown = ws.update(ws.len() - 1, ws.last().push(c));
        if ws.len() > 1 {
            assert(grown.drop_last() =~= ws.drop_last());
        }
        assert(spaced(grown) =~= spaced(ws).push(c));
    }
}

/// The characters of `s` that are not control characters.
pub open spec fn printable(s: Seq<char>) -> Seq<char> {
    s.filter(|c: char| !control(c))
}

/// The words of `chars`, leaving out control characters, with single spaces
/// between them.
pub fn spaced_words(chars: &Vec<char>) -> (out: Vec<char>)
    ensures
        out@ == spaced(words(printable(chars@))),
{
    let mut out: Vec<char> = Vec::new();
    let mut gap: bool = true;
    let ghost keep = |c: char| !control(c);
    for i in 0..chars.len()
        invariant
            out@ == spaced(words(chars@.take(i as int).filter(keep))),
            gap == {
                let kept = chars@.take(i as int).filter(keep);
                kept.len() == 0 || white(kept.last())
            },
            keep == |c: char| !control(c),
    {
        let c = chars[i];
        proof {
            let before = chars@.take(i as int);
            assert(chars@.take(i + 1) =~= before.push(c));
            seqs::lemma_filter_push(before, c, keep);
            let kept = before.filter(keep);
            lemma_words_nonempty(kept);
            lemma_spaced_nonempty(words(kept));
            lemma_spaced_push(words(kept), c);
            assert(kept.push(c).drop_last() =~= kept);
            if kept.len() > 0 {
                assert(kept.push(c)[kept.push(c).len() - 2] == kept.last());
            }
        }
        if !is_control(c) {
            if is_white(c) {
                gap = true;
            } else {
                if gap && out.len() > 0 {
                    out.push(' ');
                }
                out.push(c);
                gap = false;
            }
        }
    }
    assert(chars@.take(chars@.len() as int) =~= chars@);
    out
}

/// `s` without the white space at its end.
pub open spec fn trim_end(s: Seq<char>) -> Seq<char>
    decreases s.len(),
{
    if s.len() > 0 && white(s.last()) {
        trim_end(s.drop_last())
    } else {
        s
    }
}

/// `s` without the white space at its start.
pub open spec fn trim_start(s: Seq<char>) -> Seq<char>
    decreases s.len(),
{
    if s.len() > 0 && white(s[0]) {
        trim_start(s.skip(1))
    } else {
        s
    }
}

/// Trimming an ASCII text leaves one.
pub proof fn lemma_trim_ascii(s: Seq<char>)
    requires
        vstd::utf8::is_ascii_chars(s),
    ensures
        vstd::utf8::is_ascii_chars(trim(s)),
{
    lemma_trim_start_ascii(s);
    lemma_trim_end_ascii(trim_start(s));
}

proof fn lemma_trim_start_ascii(s: Seq<char>)
    requires
        vstd::utf8::is_ascii_chars(s),
    ensures
        vstd::utf8::is_ascii_chars(trim_start(s)),
    decreases s.len(),
{
    if s.len() > 0 {
        lemma_trim_start_ascii(s.skip(1));
    }
}

proof fn lemma_trim_end_ascii(s: Seq<char>)
    requires
        vstd::utf8::is_ascii_chars(s),
    ensures
        vstd::utf8::is_ascii_chars(trim_end(s)),
    decreases s.len(),
{
    if s.len() > 0 {
        lemma_trim_end_ascii(s.drop_last());
    }
}

/// `s` without the white space at either end.
pub open spec fn trim(s: Seq<char>) -> Seq<char> {
    trim_end(trim_start(s))
}

/// The text without the white space at either end.
pub fn trimmed(text: &str) -> (r: String)
    ensures
        r@ == trim(text@),
{
    let chars = chars_of(text);
    let mut lo: usize = 0;
    assert(chars@.skip(0) =~= chars@);
    while lo < chars.len() && is_white(chars[lo])
        invariant
            lo <= chars.len(),
            trim_start(chars@) == trim_start(chars@.skip(lo as int)),
        decreases chars.len() - lo,
    {
        proof {
            let rest = chars@.skip(lo as int);
            assert(rest.skip(1) =~= chars@.skip(lo + 1));
            assert(rest[0] == chars@[lo as int]);
        }
        lo += 1;
    }
    assert(trim_start(chars@) == chars@.skip(lo as int)) by {
        let rest = chars@.skip(lo as int);
        if rest.len() > 0 {
            assert(rest[0] == chars@[lo as int]);
        }
    }
    let mut hi: usize = chars.len();
    while lo < hi && is_white(chars[hi - 1])
        invariant
            lo <= hi <= chars.len(),
            trim_end(chars@.skip(lo as int)) == trim_end(chars@.subrange(lo as int, hi as int)),
        decreases hi,
    {
        proof {
            let rest = chars@.subrange(lo as int, hi as int);
            assert(rest.drop_last() =~= chars@.subrange(lo as int, hi - 1));
            assert(rest.last() == chars@[hi - 1]);
        }
        hi -= 1;
    }
    let ghost kept = chars@.subrange(lo as int, hi as int);
    assert(trim_end(kept) == kept) by {
        if kept.len() > 0 {
            assert(kept.last() == chars@[hi - 1]);
        }
    }
    assert(chars@.subrange(lo as int, chars@.len() as int) =~= chars@.skip(lo as int));
    let mut r = String::new();
    let mut i: usize = lo;
    while i < hi
        invariant
            lo <= i <= hi <= chars.len(),
            r@ == chars@.subrange(lo as int, i as int),
        decreases hi - i,
    {
        r.push(chars[i]);
        i += 1;
        assert(r@ =~= chars@.subrange(lo as int, i as int));
    }
    r
}

/// Whether `needle` occurs in `hay`.
pub open spec fn occurs(needle: Seq<char>, hay: Seq<char>) -> bool {
    exists|i: int| 0 <= i <= hay.len() - needle.len() && #[trigger] hay.subrange(i, i + needle.len()) == needle
}

/// Whether `hay` has `needle` starting at `at`.
fn matches_at(hay: &Vec<char>, at: usize, needle: &Vec<char>) -> (r: bool)
    requires
        at + needle@.len() <= hay@.len(),
    ensures
        r == (hay@.subrange(at as int, at + needle@.len()) == needle@),
{
    let size: usize = hay.len();
    for k in 0..needle.len()
        invariant
            size == hay@.len(),
            at + needle@.len() <= hay@.len(),
            forall|m: int| 0 <= m < k ==> hay@[at + m] == needle@[m],
    {
        if hay[at + k] != needle[k] {
            assert(hay@.subrange(at as int, at + needle@.len())[k as int] == hay@[at + k]);
            return false;
        }
    }
    assert(hay@.subrange(at as int, at + needle@.len()) =~= needle@);
    true
}

/// Whether `needle` occurs in `hay`.
pub fn contains_text(hay: &Vec<char>, needle: &Vec<char>) -> (r: bool)
    ensures
        r == occurs(needle@, hay@),
{
    if needle.len() > hay.len() {
        return false;
    }
    let last: usize = hay.len() - needle.len();
    let mut i: usize = 0;
    while i <= last
        invariant
            i <= last + 1,
            last == hay@.len() - needle@.len(),
            hay@.len() <= usize::MAX,
            needle@.len() > 0 || i == 0,
            forall|m: int| 0 <= m < i ==> #[trigger] hay@.subrange(m, m + needle@.len()) != needle@,
        decreases last + 1 - i,
    {
        if matches_at(hay, i, needle) {
            return true;
        }
        if needle.len() == 0 {
            assert(hay@.subrange(0, 0) =~= needle@);
        }
        i += 1;
    }
    false
}

/// Whether `s` starts with `prefix`.
pub open spec fn has_prefix(s: Seq<char>, prefix: Seq<char>) -> bool {
    prefix.len() <= s.len() && s.take(prefix.len() as int) == prefix
}

/// What follows the prefix, where the text has it.
pub fn after_prefix(s: &str, prefix: &str) -> (r: Option<String>)
    ensures
        match r {
            Some(rest) => has_prefix(s@, prefix@) && rest@ == s@.skip(prefix@.len() as int),
            None => !has_prefix(s@, prefix@),
        },
{
    let chars = chars_of(s);
    let start = chars_of(prefix);
    if start.len() > chars.len() {
        return None;
    }
    for i in 0..start.len()
        invariant
            start@.len() <= chars@.len(),
            start@ == prefix@,
            chars@ == s@,
            forall|j: int| 0 <= j < i ==> chars@[j] == start@[j],
    {
        if chars[i] != start[i] {
            proof {
                if has_prefix(s@, prefix@) {
                    assert(s@.take(prefix@.len() as int)[i as int] == prefix@[i as int]);
                }
            }
            return None;
        }
    }
    assert(s@.take(prefix@.len() as int) =~= prefix@);
    let mut rest = String::new();
    let size: usize = start.len();
    assert(rest@ =~= chars@.subrange(size as int, size as int));
    for i in size..chars.len()
        invariant
            size <= i <= chars@.len(),
            rest@ == chars@.subrange(size as int, i as int),
    {
        rest.push(chars[i]);
        assert(rest@ =~= chars@.subrange(size as int, i + 1));
    }
    assert(rest@ =~= s@.skip(size as int));
    Some(rest)
}

/// Whether `a` comes before `b` or equals it, character by character.
pub open spec fn text_le(a: Seq<char>, b: Seq<char>) -> bool
    decreases a.len(),
{
    if a.len() == 0 {
        true
    } else if b.len() == 0 {
        false
    } else if a[0] != b[0] {
        a[0] < b[0]
    } else {
        text_le(a.skip(1), b.skip(1))
    }
}

/// The order on text is total.
pub proof fn lemma_text_le_total(a: Seq<char>, b: Seq<char>)
    ensures
        text_le(a, b) || text_le(b, a),
    decreases a.len(),
{
    if a.len() > 0 && b.len() > 0 && a[0] == b[0] {
        lemma_text_le_total(a.skip(1), b.skip(1));
    }
}

/// The order on text is transitive.
pub proof fn lemma_text_le_transitive(a: Seq<char>, b: Seq<char>, c: Seq<char>)
    requires
        text_le(a, b),
        text_le(b, c),
    ensures
        text_le(a, c),
    decreases a.len(),
{
    if a.len() > 0 && b.len() > 0 && c.len() > 0 && a[0] == b[0] && b[0] == c[0] {
        lemma_text_le_transitive(a.skip(1), b.skip(1), c.skip(1));
    }
}

/// Texts that come before one another are equal.
pub proof fn lemma_text_le_antisymmetric(a: Seq<char>, b: Seq<char>)
    requires
        text_le(a, b),
        text_le(b, a),
    ensures
        a == b,
    decreases a.len(),
{
    if a.len() > 0 && b.len() > 0 {
        lemma_text_le_antisymmetric(a.skip(1), b.skip(1));
        assert(a =~= seq![a[0]] + a.skip(1));
        assert(b =~= seq![b[0]] + b.skip(1));
    } else {
        assert(a =~= b);
    }
}

/// Whether `a` comes before `b` or equals it.
pub fn is_text_le(a: &str, b: &str) -> (r: bool)
    ensures
        r == text_le(a@, b@),
{
    let left = chars_of(a);
    let right = chars_of(b);
    let mut i: usize = 0;
    assert(left@.skip(0) =~= left@ && right@.skip(0) =~= right@);
    while i < left.len() && i < right.len() && left[i] == right[i]
        invariant
            i <= left.len(),
            i <= right.len(),
            text_le(left@, right@) == text_le(left@.skip(i as int), right@.skip(i as int)),
        decreases left.len() - i,
    {
        proof {
            let l = left@.skip(i as int);
            let r = right@.skip(i as int);
            assert(l[0] == left@[i as int] && r[0] == right@[i as int]);
            assert(l.skip(1) =~= left@.skip(i + 1));
            assert(r.skip(1) =~= right@.skip(i + 1));
        }
        i += 1;
    }
    proof {
        let l = left@.skip(i as int);
        let r = right@.skip(i as int);
        if l.len() > 0 {
            assert(l[0] == left@[i as int]);
        }
        if r.len() > 0 {
            assert(r[0] == right@[i as int]);
        }
    }
    if i >= left.len() {
        true
    } else if i >= right.len() {
        false
    } else {
        left[i] < right[i]
    }
}

/// The texts one after the other, with a separator between neighbours.
pub open spec fn joined(parts: Seq<Seq<char>>, separator: Seq<char>) -> Seq<char>
    decreases parts.len(),
{
    if parts.len() == 0 {
        Seq::empty()
    } else if parts.len() == 1 {
        parts[0]
    } else {
        joined(parts.drop_last(), separator) + separator + parts.last()
    }
}

/// The texts one after the other, with a separator between neighbours.
pub fn join(parts: &Vec<String>, separator: &str) -> (r: String)
    ensures
        r@ == joined(parts.deep_view(), separator@),
{
    let mut r = String::new();
    let ghost all = parts.deep_view();
    for i in 0..parts.len()
        invariant
            all == parts.deep_view(),
            r@ == joined(all.take(i as int), separator@),
    {
        proof {
            let next = all.take(i + 1);
            assert(next.drop_last() =~= all.take(i as int));
            assert(next.last() == all[i as int]);
        }
        if i > 0 {
            r.push_str(separator);
        }
        r.push_str(parts[i].as_str());
        assert(r@ =~= joined(all.take(i + 1), separator@));
    }
    assert(all.take(all.len() as int) =~= all);
    r
}

/// The number of a character, with ASCII capitals taken for small letters.
pub open spec fn ascii_folded(c: char) -> int {
    if 'A' <= c <= 'Z' {
        c as int + 32
    } else {
        c as int
    }
}

/// Whether two texts differ at most in the case of ASCII letters.
pub open spec fn same_ascii(a: Seq<char>, b: Seq<char>) -> bool {
    a.len() == b.len() && forall|i: int|
        0 <= i < a.len() ==> ascii_folded(#[trigger] a[i]) == ascii_folded(b[i])
}

fn ascii_fold(c: char) -> (r: u32)
    ensures
        r == ascii_folded(c),
{
    if 'A' <= c && c <= 'Z' {
        c as u32 + 32
    } else {
        c as u32
    }
}

/// Whether two texts differ at most in the case of ASCII letters.
pub fn is_same_ascii(a: &str, b: &str) -> (r: bool)
    ensures
        r == same_ascii(a@, b@),
{
    let left = chars_of(a);
    let right = chars_of(b);
    if left.len() != right.len() {
        return false;
    }
    for i in 0..left.len()
        invariant
            left@ == a@,
            right@ == b@,
            left@.len() == right@.len(),
            forall|j: int|
                0 <= j < i ==> ascii_folded(#[trigger] left@[j]) == ascii_folded(right@[j]),
    {
        if ascii_fold(left[i]) != ascii_fold(right[i]) {
            assert(ascii_folded(a@[i as int]) != ascii_folded(b@[i as int]));
            return false;
        }
    }
    true
}

/// The lower case of a text.
pub uninterp spec fn lowercase_of(s: Seq<char>) -> Seq<char>;

/// `str::to_lowercase`: a function of the text, by the tables of Unicode. In a
/// text of ASCII characters each letter `A` to `Z` becomes its `a` to `z`, and
/// nothing else changes.
#[verifier::external_body]
pub(crate) fn lowercase(s: &str) -> (r: String)
    ensures
        r@ == lowercase_of(s@),
        vstd::utf8::is_ascii_chars(s@) ==> r@ == ascii_lowered(s@),
{
    s.to_lowercase()
}

/// The upper case of a text.
pub uninterp spec fn uppercase_of(s: Seq<char>) -> Seq<char>;

/// `str::to_uppercase`: a function of the text, by the tables of Unicode. In a
/// text of ASCII characters each letter `a` to `z` becomes its `A` to `Z`, and
/// nothing else changes.
#[verifier::external_body]
pub(crate) fn uppercase(s: &str) -> (r: String)
    ensures
        r@ == uppercase_of(s@),
        vstd::utf8::is_ascii_chars(s@) ==> r@ == ascii_uppered(s@),
{
    s.to_uppercase()
}

/// A text between quotes, as it is shown in a log.
pub uninterp spec fn quoted_of(s: Seq<char>) -> Seq<char>;

/// The debug form of a `str`: a function of the text, with quotes around it and
/// escapes by the tables of Unicode.
#[verifier::external_body]
pub(crate) fn quoted(s: &str) -> (r: String)
    ensures
        r@ == quoted_of(s@),
{
    format!("{s:?}")
}

/// A list of texts, as it is shown in a log.
pub open spec fn quoted_list(list: Seq<Seq<char>>) -> Seq<char> {
    "["@ + joined(list.map_values(|s: Seq<char>| quoted_of(s)), ", "@) + "]"@
}

/// A list of texts, as it is shown in a log.
pub fn list_shown(list: &Vec<String>) -> (r: String)
    ensures
        r@ == quoted_list(list.deep_view()),
{
    let ghost all = list.deep_view().map_values(|s: Seq<char>| quoted_of(s));
    let mut shown: Vec<String> = Vec::new();
    assert(shown.deep_view() =~= all.take(0));
    for i in 0..list.len()
        invariant
            all == list.deep_view().map_values(|s: Seq<char>| quoted_of(s)),
            shown.deep_view() == all.take(i as int),
    {
        let ghost before = shown.deep_view();
        shown.push(quoted(list[i].as_str()));
        assert(shown.deep_view() =~= before.push(all[i as int]));
        assert(shown.deep_view() =~= all.take(i + 1));
    }
    assert(all.take(all.len() as int) =~= all);
    let mut r = "[".to_owned();
    r.push_str(join(&shown, ", ").as_str());
    r.push_str("]");
    r
}

/// An ASCII letter as a small one; any other character as it is.
pub open spec fn ascii_lower(c: char) -> char {
    if 'A' <= c <= 'Z' {
        (c as int + 32) as char
    } else {
        c
    }
}

/// The text with its ASCII letters as small ones.
pub open spec fn ascii_lowered(s: Seq<char>) -> Seq<char> {
    s.map_values(|c: char| ascii_lower(c))
}

/// An ASCII letter as a capital; any other character as it is.
pub open spec fn ascii_upper(c: char) -> char {
    if 'a' <= c <= 'z' {
        (c as int - 32) as char
    } else {
        c
    }
}

/// The text with its ASCII letters as capitals.
pub open spec fn ascii_uppered(s: Seq<char>) -> Seq<char> {
    s.map_values(|c: char| ascii_upper(c))
}

/// The text with its ASCII letters as small ones.
pub fn to_ascii_lowered(s: &str) -> (r: String)
    ensures
        r@ == ascii_lowered(s@),
{
    let chars = chars_of(s);
    let mut r = String::new();
    for i in 0..chars.len()
        invariant
            chars@ == s@,
            r@ == ascii_lowered(s@).take(i as int),
    {
        let c: char = chars[i];
        let lower: char = if 'A' <= c && c <= 'Z' {
            (c as u8 + 32) as char
        } else {
            c
        };
        r.push(lower);
        assert(r@ =~= ascii_lowered(s@).take(i + 1));
    }
    assert(r@ =~= ascii_lowered(s@));
    r
}

/// Whether a text holds nothing.
pub fn is_empty(s: &str) -> (r: bool)
    ensures
        r == (s@.len() == 0),
{
    proof {
        reveal_strlit("");
        if s@.len() == 0 {
            assert(s@ =~= ""@);
        }
    }
    same(s, "")
}

/// The maximal runs of characters that are no separators, in order.
pub open spec fn runs(s: Seq<char>, separators: Seq<char>) -> Seq<Seq<char>>
    decreases s.len(),
{
    if s.len() == 0 {
        Seq::empty()
    } else {
        let before = runs(s.drop_last(), separators);
        if separators.contains(s.last()) {
            before
        } else if s.len() == 1 || separators.contains(s[s.len() - 2]) {
            before.push(seq![s.last()])
        } else {
            before.update(before.len() - 1, before.last().push(s.last()))
        }
    }
}

proof fn lemma_runs_nonempty(s: Seq<char>, separators: Seq<char>)
    requires
        s.len() > 0,
        !separators.contains(s.last()),
    ensures
        runs(s, separators).len() > 0,
    decreases s.len(),
{
    if s.len() > 1 && !separators.contains(s[s.len() - 2]) {
        assert(s.drop_last().last() == s[s.len() - 2]);
        lemma_runs_nonempty(s.drop_last(), separators);
    }
}

fn is_one_of(c: char, separators: &Vec<char>) -> (r: bool)
    ensures
        r == separators@.contains(c),
{
    for i in 0..separators.len()
        invariant
            forall|j: int| 0 <= j < i ==> separators@[j] != c,
    {
        if separators[i] == c {
            return true;
        }
    }
    false
}

/// The maximal runs of characters that are no separators.
pub fn runs_of(s: &str, separators: &Vec<char>) -> (r: Vec<String>)
    ensures
        r.deep_view() == runs(s@, separators@),
{
    let chars = chars_of(s);
    let mut r: Vec<String> = Vec::new();
    assert(r.deep_view() =~= runs(chars@.take(0), separators@));
    for i in 0..chars.len()
        invariant
            r.deep_view() == runs(chars@.take(i as int), separators@),
    {
        let ghost before = r.deep_view();
        let ghost next = chars@.take(i + 1);
        assert(next.drop_last() =~= chars@.take(i as int));
        assert(next.last() == chars@[i as int]);
        if !is_one_of(chars[i], separators) {
            if i == 0 || is_one_of(chars[i - 1], separators) {
                let mut run = String::new();
                run.push(chars[i]);
                assert(run@ =~= seq![chars@[i as int]]);
                r.push(run);
                assert(r.deep_view() =~= before.push(seq![chars@[i as int]]));
            } else {
                proof {
                    lemma_runs_nonempty(chars@.take(i as int), separators@);
                }
                let last: usize = r.len() - 1;
                let mut run = r[last].clone();
                run.push(chars[i]);
                r[last] = run;
                assert(r.deep_view() =~= before.update(
                    before.len() - 1,
                    before.last().push(chars@[i as int]),
                ));
            }
        }
        assert(r.deep_view() == runs(next, separators@));
    }
    assert(chars@.take(chars@.len() as int) =~= chars@);
    r
}

/// The first characters of a text, at most so many.
pub open spec fn head(s: Seq<char>, n: nat) -> Seq<char> {
    if s.len() <= n {
        s
    } else {
        s.take(n as int)
    }
}

/// The first characters of a text, at most so many.
pub fn first_chars(s: &str, n: usize) -> (r: String)
    ensures
        r@ == head(s@, n as nat),
{
    let chars = chars_of(s);
    let mut r = String::new();
    let count: usize = if chars.len() <= n {
        chars.len()
    } else {
        n
    };
    for i in 0..count
        invariant
            count <= chars@.len(),
            r@ == chars@.take(i as int),
    {
        r.push(chars[i]);
        assert(r@ =~= chars@.take(i + 1));
    }
    assert(chars@.take(chars@.len() as int) =~= chars@);
    r
}

/// Whether the characters of `a` occur in `b` in their order.
pub open spec fn in_sequence(a: Seq<char>, b: Seq<char>) -> bool
    decreases b.len(),
{
    if a.len() == 0 {
        true
    } else if b.len() == 0 {
        false
    } else if a[0] == b[0] {
        in_sequence(a.skip(1), b.skip(1))
    } else {
        in_sequence(a, b.skip(1))
    }
}

/// Whether the characters of one list occur in another in their order.
pub fn is_in_sequence(a: &Vec<char>, b: &Vec<char>) -> (r: bool)
    ensures
        r == in_sequence(a@, b@),
{
    let mut i: usize = 0;
    let mut k: usize = 0;
    assert(a@.skip(0) =~= a@ && b@.skip(0) =~= b@);
    while i < a.len() && k < b.len()
        invariant
            i <= a@.len(),
            k <= b@.len(),
            in_sequence(a@, b@) == in_sequence(a@.skip(i as int), b@.skip(k as int)),
        decreases b@.len() - k,
    {
        proof {
            assert(a@.skip(i as int)[0] == a@[i as int]);
            assert(b@.skip(k as int)[0] == b@[k as int]);
            assert(a@.skip(i as int).skip(1) =~= a@.skip(i + 1));
            assert(b@.skip(k as int).skip(1) =~= b@.skip(k + 1));
        }
        if a[i] == b[k] {
            i += 1;
        }
        k += 1;
    }
    i == a.len()
}

/// Whether the characters of one text stand in another at these places, one
/// after another.
pub open spec fn embeds(a: Seq<char>, b: Seq<char>, at: Seq<int>) -> bool {
    &&& at.len() == a.len()
    &&& forall|i: int| 0 <= i < at.len() ==> 0 <= #[trigger] at[i] < b.len() && b[at[i]] == a[i]
    &&& forall|i: int, j: int| 0 <= i < j < at.len() ==> #[trigger] at[i] < #[trigger] at[j]
}

/// A text that stands in another occurs in it in order.
pub proof fn lemma_embedded(a: Seq<char>, b: Seq<char>, at: Seq<int>)
    requires
        embeds(a, b, at),
    ensures
        in_sequence(a, b),
    decreases b.len(),
{
    if a.len() > 0 {
        assert(0 <= at[0] < b.len() && b[at[0]] == a[0]);
        let rest = b.skip(1);
        if a[0] == b[0] {
            let places = Seq::new((at.len() - 1) as nat, |i: int| at[i + 1] - 1);
            assert forall|i: int| 0 <= i < places.len() implies 0 <= #[trigger] places[i]
                < rest.len() && rest[places[i]] == a.skip(1)[i] by {
                assert(at[0] < at[i + 1]);
                assert(b[at[i + 1]] == a[i + 1]);
            }
            assert forall|i: int, j: int| 0 <= i < j < places.len() implies #[trigger] places[i]
                < #[trigger] places[j] by {
                assert(at[i + 1] < at[j + 1]);
            }
            lemma_embedded(a.skip(1), rest, places);
        } else {
            let places = Seq::new(at.len(), |i: int| at[i] - 1);
            assert forall|i: int| 0 <= i < places.len() implies 0 <= #[trigger] places[i]
                < rest.len() && rest[places[i]] == a[i] by {
                assert(b[at[i]] == a[i]);
                if i > 0 {
                    assert(at[0] < at[i]);
                }
            }
            assert forall|i: int, j: int| 0 <= i < j < places.len() implies #[trigger] places[i]
                < #[trigger] places[j] by {
                assert(at[i] < at[j]);
            }
            lemma_embedded(a, rest, places);
        }
    }
}

/// A text that occurs in another in order stands in it.
pub proof fn lemma_embedding(a: Seq<char>, b: Seq<char>) -> (at: Seq<int>)
    requires
        in_sequence(a, b),
    ensures
        embeds(a, b, at),
    decreases b.len(),
{
    if a.len() == 0 {
        Seq::empty()
    } else {
        let rest = b.skip(1);
        if a[0] == b[0] {
            let places = lemma_embedding(a.skip(1), rest);
            let at = Seq::new(
                a.len(),
                |i: int|
                    if i == 0 {
                        0
                    } else {
                        places[i - 1] + 1
                    },
            );
            assert forall|i: int| 0 <= i < at.len() implies 0 <= #[trigger] at[i] < b.len()
                && b[at[i]] == a[i] by {
                if i > 0 {
                    assert(rest[places[i - 1]] == a.skip(1)[i - 1]);
                }
            }
            assert forall|i: int, j: int| 0 <= i < j < at.len() implies #[trigger] at[i]
                < #[trigger] at[j] by {
                assert(0 <= places[j - 1]);
                if i > 0 {
                    assert(places[i - 1] < places[j - 1]);
                }
            }
            at
        } else {
            let places = lemma_embedding(a, rest);
            let at = Seq::new(a.len(), |i: int| places[i] + 1);
            assert forall|i: int| 0 <= i < at.len() implies 0 <= #[trigger] at[i] < b.len()
                && b[at[i]] == a[i] by {
                assert(rest[places[i]] == a[i]);
            }
            assert forall|i: int, j: int| 0 <= i < j < at.len() implies #[trigger] at[i]
                < #[trigger] at[j] by {
                assert(places[i] < places[j]);
            }
            at
        }
    }
}

/// A number in decimal, with a zero before a single digit.
pub open spec fn two_digits(n: nat) -> Seq<char> {
    if n < 10 {
        "0"@ + decimal(n)
    } else {
        decimal(n)
    }
}

/// A number in decimal, with a zero before a single digit.
pub fn two_digit_text(n: u64) -> (r: String)
    ensures
        r@ == two_digits(n as nat),
{
    let digits = decimal_text(n);
    if n < 10 {
        let mut r = "0".to_owned();
        r.push_str(digits.as_str());
        r
    } else {
        digits
    }
}

} // verus!
