//! What holds of the small vocabulary of texts.
use vstd::prelude::*;

use crate::text;

verus! {

/// A text occurs in another exactly if the other is something, the text, and
/// something more.
pub proof fn law_occurring_is_standing_between(needle: Seq<char>, hay: Seq<char>)
    ensures
        text::occurs(needle, hay) <==> exists|before: Seq<char>, after: Seq<char>|
            hay == #[trigger] (before + needle + after),
{
    if text::occurs(needle, hay) {
        let i = choose|i: int|
            0 <= i <= hay.len() - needle.len() && #[trigger] hay.subrange(i, i + needle.len())
                == needle;
        assert(hay =~= hay.take(i) + hay.subrange(i, i + needle.len()) + hay.skip(
            i + needle.len(),
        ));
    }
    if exists|before: Seq<char>, after: Seq<char>| hay == #[trigger] (before + needle + after) {
        let (before, after) = choose|before: Seq<char>, after: Seq<char>|
            hay == #[trigger] (before + needle + after);
        let i = before.len() as int;
        assert(hay.subrange(i, i + needle.len()) =~= needle);
    }
}

/// Whether a text is all white space.
pub open spec fn blank(s: Seq<char>) -> bool {
    forall|i: int| 0 <= i < s.len() ==> text::white(#[trigger] s[i])
}

/// Among the ASCII characters the white ones are the space, the tab and the line
/// breaks.
pub proof fn law_ascii_white_space(c: char)
    requires
        c <= '\u{7f}',
    ensures
        text::white(c) <==> c == ' ' || c == '\t' || c == '\n' || c == '\u{b}' || c == '\u{c}' || c
            == '\r',
{
}

/// A text is its white start, itself without the white space around it, and its
/// white end; what is left begins and ends visibly.
pub proof fn law_trimming_takes_the_white_ends(s: Seq<char>)
    ensures
        exists|before: Seq<char>, after: Seq<char>|
            s == #[trigger] (before + text::trim(s) + after) && blank(before) && blank(after),
        text::trim(s).len() > 0 ==> !text::white(text::trim(s)[0]) && !text::white(
            text::trim(s).last(),
        ),
{
    let front = text::trim_start(s);
    lemma_trim_start(s);
    lemma_trim_end(front);
    let before = s.take(s.len() - front.len());
    let after = front.skip(text::trim(s).len() as int);
    assert(s =~= before + text::trim(s) + after);
    if text::trim(s).len() > 0 {
        assert(front[0] == text::trim(s)[0]);
    }
}

proof fn lemma_trim_start(s: Seq<char>)
    ensures
        ({
            let r = text::trim_start(s);
            &&& r.len() <= s.len()
            &&& r == s.skip(s.len() - r.len())
            &&& blank(s.take(s.len() - r.len()))
            &&& r.len() > 0 ==> !text::white(r[0])
        }),
    decreases s.len(),
{
    let r = text::trim_start(s);
    if s.len() > 0 && text::white(s[0]) {
        let rest = s.skip(1);
        lemma_trim_start(rest);
        assert(r =~= s.skip(s.len() - r.len()));
        assert forall|i: int| 0 <= i < s.len() - r.len() implies text::white(
            #[trigger] s.take(s.len() - r.len())[i],
        ) by {
            if i > 0 {
                assert(rest.take(rest.len() - r.len())[i - 1] == s[i]);
            }
        }
    } else {
        assert(s.skip(0) =~= s);
    }
}

proof fn lemma_trim_end(s: Seq<char>)
    ensures
        ({
            let r = text::trim_end(s);
            &&& r.len() <= s.len()
            &&& r == s.take(r.len() as int)
            &&& blank(s.skip(r.len() as int))
            &&& r.len() > 0 ==> !text::white(r.last())
        }),
    decreases s.len(),
{
    let r = text::trim_end(s);
    if s.len() > 0 && text::white(s.last()) {
        let rest = s.drop_last();
        lemma_trim_end(rest);
        assert(r =~= s.take(r.len() as int));
        assert forall|i: int| 0 <= i < s.len() - r.len() implies text::white(
            #[trigger] s.skip(r.len() as int)[i],
        ) by {
            if r.len() + i < rest.len() {
                assert(rest.skip(r.len() as int)[i] == s[r.len() + i]);
            }
        }
    } else {
        assert(s.take(s.len() as int) =~= s);
    }
}

/// White space separates words: a text with some in it has the words before it
/// and the words after it. A visible text is one word, and an empty one has
/// none.
pub proof fn law_white_space_separates_words(a: Seq<char>, gap: char, b: Seq<char>)
    requires
        text::white(gap),
    ensures
        text::words(a.push(gap) + b) == text::words(a) + text::words(b),
        text::words(Seq::<char>::empty()).len() == 0,
        a.len() > 0 && (forall|i: int| 0 <= i < a.len() ==> !text::white(#[trigger] a[i]))
            ==> text::words(a) == seq![a],
    decreases b.len(),
{
    let s = a.push(gap) + b;
    if b.len() == 0 {
        assert(s.drop_last() =~= a);
        assert(text::words(s) =~= text::words(a) + text::words(b));
    } else {
        let init = b.drop_last();
        law_white_space_separates_words(a, gap, init);
        assert(s.drop_last() =~= a.push(gap) + init);
        assert(s.last() == b.last());
        text::lemma_words_nonempty(init);
        if b.len() > 1 {
            assert(s[s.len() - 2] == b[b.len() - 2]);
            assert(init.last() == b[b.len() - 2]);
        } else {
            assert(s[s.len() - 2] == gap);
        }
        assert(text::words(s) =~= text::words(a) + text::words(b));
    }
    lemma_one_word(a);
}

proof fn lemma_one_word(a: Seq<char>)
    ensures
        a.len() > 0 && (forall|i: int| 0 <= i < a.len() ==> !text::white(#[trigger] a[i]))
            ==> text::words(a) == seq![a],
    decreases a.len(),
{
    if a.len() > 0 && forall|i: int| 0 <= i < a.len() ==> !text::white(#[trigger] a[i]) {
        let init = a.drop_last();
        assert forall|i: int| 0 <= i < init.len() implies !text::white(#[trigger] init[i]) by {
            assert(init[i] == a[i]);
        }
        lemma_one_word(init);
        assert(a =~= init.push(a.last()));
        assert(!text::white(a[a.len() - 1]));
        if a.len() == 1 {
            assert(text::words(init) =~= Seq::empty());
            assert(a =~= seq![a.last()]);
            assert(text::words(a) =~= seq![a]);
        } else {
            assert(!text::white(a[a.len() - 2]));
            assert(text::words(a) =~= seq![a]);
        }
    }
}

/// A separator separates: a text with one in it has the parts before it and the
/// parts after it. A text without one is the only part.
pub proof fn law_separators_split(a: Seq<char>, separator: char, b: Seq<char>)
    ensures
        text::split(a.push(separator) + b, separator) == text::split(a, separator) + text::split(
            b,
            separator,
        ),
        !a.contains(separator) ==> text::split(a, separator) == seq![a],
    decreases b.len(),
{
    let s = a.push(separator) + b;
    lemma_split_some(a, separator);
    if b.len() == 0 {
        assert(s.drop_last() =~= a);
        assert(text::split(s, separator) =~= text::split(a, separator) + text::split(b, separator));
    } else {
        let init = b.drop_last();
        law_separators_split(a, separator, init);
        lemma_split_some(init, separator);
        assert(s.drop_last() =~= a.push(separator) + init);
        assert(s.last() == b.last());
        assert(text::split(s, separator) =~= text::split(a, separator) + text::split(b, separator));
    }
}

proof fn lemma_split_some(a: Seq<char>, separator: char)
    ensures
        text::split(a, separator).len() > 0,
        !a.contains(separator) ==> text::split(a, separator) == seq![a],
    decreases a.len(),
{
    if a.len() > 0 {
        let init = a.drop_last();
        lemma_split_some(init, separator);
        if !a.contains(separator) {
            assert(a[a.len() - 1] != separator);
            assert(!init.contains(separator)) by {
                if init.contains(separator) {
                    let i = choose|i: int| 0 <= i < init.len() && init[i] == separator;
                    assert(a[i] == separator);
                }
            }
            assert(init.push(a.last()) =~= a);
            assert(text::split(a, separator) =~= seq![a]);
        }
    } else {
        assert(a =~= Seq::empty());
    }
}

/// Separators of several kinds separate runs in the same way, and runs hold at
/// least one character.
pub proof fn law_separators_end_runs(a: Seq<char>, separator: char, b: Seq<char>, all: Seq<char>)
    requires
        all.contains(separator),
    ensures
        text::runs(a.push(separator) + b, all) == text::runs(a, all) + text::runs(b, all),
        a.len() > 0 && (forall|i: int| 0 <= i < a.len() ==> !all.contains(#[trigger] a[i]))
            ==> text::runs(a, all) == seq![a],
        text::runs(Seq::<char>::empty(), all).len() == 0,
    decreases b.len(),
{
    let s = a.push(separator) + b;
    lemma_one_run(a, all);
    if b.len() == 0 {
        assert(s.drop_last() =~= a);
        assert(text::runs(s, all) =~= text::runs(a, all) + text::runs(b, all));
    } else {
        let init = b.drop_last();
        law_separators_end_runs(a, separator, init, all);
        assert(s.drop_last() =~= a.push(separator) + init);
        assert(s.last() == b.last());
        if b.len() > 1 {
            assert(s[s.len() - 2] == b[b.len() - 2]);
            assert(init.last() == b[b.len() - 2]);
            lemma_run_open(init, all);
        } else {
            assert(s[s.len() - 2] == separator);
        }
        assert(text::runs(s, all) =~= text::runs(a, all) + text::runs(b, all));
    }
}

proof fn lemma_run_open(s: Seq<char>, all: Seq<char>)
    ensures
        s.len() > 0 && !all.contains(s.last()) ==> text::runs(s, all).len() > 0,
    decreases s.len(),
{
    if s.len() > 1 {
        lemma_run_open(s.drop_last(), all);
        assert(s.drop_last().last() == s[s.len() - 2]);
    }
}

proof fn lemma_one_run(a: Seq<char>, all: Seq<char>)
    ensures
        a.len() > 0 && (forall|i: int| 0 <= i < a.len() ==> !all.contains(#[trigger] a[i]))
            ==> text::runs(a, all) == seq![a],
    decreases a.len(),
{
    if a.len() > 0 && forall|i: int| 0 <= i < a.len() ==> !all.contains(#[trigger] a[i]) {
        let init = a.drop_last();
        assert forall|i: int| 0 <= i < init.len() implies !all.contains(#[trigger] init[i]) by {
            assert(init[i] == a[i]);
        }
        lemma_one_run(init, all);
        assert(a =~= init.push(a.last()));
        assert(!all.contains(a[a.len() - 1]));
        if a.len() == 1 {
            assert(text::runs(init, all) =~= Seq::empty());
            assert(a =~= seq![a.last()]);
            assert(text::runs(a, all) =~= seq![a]);
        } else {
            assert(!all.contains(a[a.len() - 2]));
            assert(text::runs(a, all) =~= seq![a]);
        }
    }
}

/// What a row of digits amounts to.
pub open spec fn amount(digits: Seq<char>) -> int
    decreases digits.len(),
{
    if digits.len() == 0 {
        0
    } else {
        10 * amount(digits.drop_last()) + (digits.last() as int - '0' as int)
    }
}

/// A number in decimal is digits that amount to it, with no zero in front.
pub proof fn law_decimals_read_back(n: nat)
    ensures
        amount(text::decimal(n)) == n,
        text::decimal(n).len() > 0,
        forall|i: int|
            0 <= i < text::decimal(n).len() ==> '0' <= #[trigger] text::decimal(n)[i] <= '9',
        n > 0 ==> text::decimal(n)[0] != '0',
        n == 0 ==> text::decimal(n) == seq!['0'],
    decreases n,
{
    let all = text::decimal(n);
    assert(forall|d: int| 0 <= d < 10 ==> #[trigger] text::digit_char(d) as int - '0' as int == d);
    assert(amount(Seq::<char>::empty()) == 0);
    if n >= 10 {
        law_decimals_read_back(n / 10);
        assert(all.drop_last() =~= text::decimal(n / 10));
        assert(all[0] == text::decimal(n / 10)[0]);
        assert forall|i: int| 0 <= i < all.len() implies '0' <= #[trigger] all[i] <= '9' by {
            if i < all.len() - 1 {
                assert(all[i] == text::decimal(n / 10)[i]);
            }
        }
    } else {
        assert(all.drop_last() =~= Seq::empty());
        assert(all.last() == text::digit_char(n as int));
    }
}

/// A negative number has a minus sign in front of its size.
pub proof fn law_signs_stand_in_front(n: int)
    ensures
        n >= 0 ==> amount(text::signed_decimal(n)) == n && text::signed_decimal(n)[0] != '-',
        n < 0 ==> text::signed_decimal(n)[0] == '-' && amount(text::signed_decimal(n).skip(1))
            == -n,
{
    if n < 0 {
        law_decimals_read_back((-n) as nat);
        assert(text::signed_decimal(n).skip(1) =~= text::decimal((-n) as nat));
    } else {
        law_decimals_read_back(n as nat);
    }
}

/// Texts are in the order of their first difference; a text comes before all that
/// it begins.
pub proof fn law_texts_are_ordered_by_their_first_difference(
    common: Seq<char>,
    a: Seq<char>,
    b: Seq<char>,
)
    ensures
        text::text_le(common + a, common + b) == text::text_le(a, b),
        a.len() == 0 ==> text::text_le(a, b),
        a.len() > 0 && b.len() == 0 ==> !text::text_le(a, b),
        a.len() > 0 && b.len() > 0 && a[0] != b[0] ==> (text::text_le(a, b) <==> a[0] < b[0]),
    decreases common.len(),
{
    if common.len() == 0 {
        assert(common + a =~= a);
        assert(common + b =~= b);
    } else {
        let rest = common.skip(1);
        law_texts_are_ordered_by_their_first_difference(rest, a, b);
        assert((common + a).skip(1) =~= rest + a);
        assert((common + b).skip(1) =~= rest + b);
        assert((common + a)[0] == (common + b)[0]);
    }
}

/// A joined list splits into its parts again, where no part holds the separator.
pub proof fn law_joining_is_undone_by_splitting(parts: Seq<Seq<char>>, separator: char)
    requires
        parts.len() > 0,
        forall|i: int| 0 <= i < parts.len() ==> !(#[trigger] parts[i]).contains(separator),
    ensures
        text::split(text::joined(parts, seq![separator]), separator) == parts,
    decreases parts.len(),
{
    let init = parts.drop_last();
    let last = parts.last();
    assert(!parts[parts.len() - 1].contains(separator));
    law_separators_split(last, separator, Seq::empty());
    if parts.len() == 1 {
        assert(parts =~= seq![last]);
    } else {
        assert forall|i: int| 0 <= i < init.len() implies !(#[trigger] init[i]).contains(
            separator,
        ) by {
            assert(init[i] == parts[i]);
        }
        law_joining_is_undone_by_splitting(init, separator);
        let front = text::joined(init, seq![separator]);
        law_separators_split(front, separator, last);
        assert(front + seq![separator] + last =~= front.push(separator) + last);
        assert(init + seq![last] =~= parts);
    }
}

/// Joined lists are joined by the separator.
pub proof fn law_joining_goes_on(
    first: Seq<Seq<char>>,
    second: Seq<Seq<char>>,
    separator: Seq<char>,
)
    requires
        first.len() > 0,
        second.len() > 0,
    ensures
        text::joined(first + second, separator) == text::joined(first, separator) + separator
            + text::joined(second, separator),
        second.len() == 1 ==> text::joined(second, separator) == second[0],
        text::joined(Seq::<Seq<char>>::empty(), separator).len() == 0,
    decreases second.len(),
{
    let all = first + second;
    assert(all.last() == second.last());
    if second.len() == 1 {
        assert(all.drop_last() =~= first);
    } else {
        let init = second.drop_last();
        law_joining_goes_on(first, init, separator);
        assert(all.drop_last() =~= first + init);
        assert(text::joined(all, separator) =~= text::joined(first, separator) + separator
            + text::joined(second, separator));
    }
}

/// Words are put together with one space between neighbours.
pub proof fn law_spacing_is_undone_by_words(ws: Seq<Seq<char>>)
    requires
        forall|i: int| 0 <= i < ws.len() ==> (#[trigger] ws[i]).len() > 0,
        forall|i: int, j: int|
            0 <= i < ws.len() && 0 <= j < ws[i].len() ==> !text::white(#[trigger] ws[i][j]),
    ensures
        text::words(text::spaced(ws)) == ws,
    decreases ws.len(),
{
    if ws.len() > 0 {
        let last = ws.last();
        assert(last == ws[ws.len() - 1]);
        assert forall|j: int| 0 <= j < last.len() implies !text::white(#[trigger] last[j]) by {
            assert(!text::white(ws[ws.len() - 1][j]));
        }
        lemma_one_word(last);
        if ws.len() == 1 {
            assert(ws =~= seq![last]);
        } else {
            let init = ws.drop_last();
            assert forall|i: int| 0 <= i < init.len() implies (#[trigger] init[i]).len() > 0 by {
                assert(init[i] == ws[i]);
            }
            assert forall|i: int, j: int|
                0 <= i < init.len() && 0 <= j < init[i].len() implies !text::white(
                #[trigger] init[i][j],
            ) by {
                assert(init[i] == ws[i]);
                assert(!text::white(ws[i][j]));
            }
            law_spacing_is_undone_by_words(init);
            law_white_space_separates_words(text::spaced(init), ' ', last);
            assert(init + seq![last] =~= ws);
        }
    } else {
        assert(ws =~= Seq::empty());
    }
}

/// Two texts are alike but for the case of ASCII letters exactly if they are the
/// same in small letters; each letter has one small and one capital form.
pub proof fn law_case_is_ignored_letter_by_letter(a: Seq<char>, b: Seq<char>, c: char)
    ensures
        text::same_ascii(a, b) <==> text::ascii_lowered(a) == text::ascii_lowered(b),
        'A' <= c <= 'Z' ==> 'a' <= text::ascii_lower(c) <= 'z' && text::ascii_upper(
            text::ascii_lower(c),
        ) == c && text::ascii_lower(c) as int - 'a' as int == c as int - 'A' as int,
        'a' <= c <= 'z' ==> text::ascii_lower(c) == c && text::ascii_lower(text::ascii_upper(c))
            == c && 'A' <= text::ascii_upper(c) <= 'Z',
        !('A' <= c <= 'Z') && !('a' <= c <= 'z') ==> text::ascii_lower(c) == c && text::ascii_upper(
            c,
        ) == c,
        text::ascii_lowered(a).len() == a.len(),
        forall|i: int|
            0 <= i < a.len() ==> #[trigger] text::ascii_lowered(a)[i] == text::ascii_lower(a[i]),
{
    let small = text::ascii_lowered(a);
    let other = text::ascii_lowered(b);
    if text::same_ascii(a, b) {
        assert forall|i: int| 0 <= i < small.len() implies small[i] == other[i] by {
            assert(text::ascii_folded(a[i]) == text::ascii_folded(b[i]));
        }
        assert(small =~= other);
    }
    if small == other {
        assert(a.len() == small.len() && b.len() == other.len());
        assert forall|i: int| 0 <= i < a.len() implies text::ascii_folded(#[trigger] a[i])
            == text::ascii_folded(b[i]) by {
            assert(small[i] == other[i]);
        }
    }
}

/// The head of a text begins it, and is all of it or as long as asked for.
pub proof fn law_heads_begin(s: Seq<char>, n: nat)
    ensures
        exists|rest: Seq<char>| s == #[trigger] (text::head(s, n) + rest),
        text::head(s, n).len() <= n,
        text::head(s, n).len() == n || text::head(s, n) == s,
{
    let h = text::head(s, n);
    assert(s =~= h + s.skip(h.len() as int));
}

/// A number under a hundred takes two digits, the tens before the ones.
pub proof fn law_two_digits_are_tens_and_ones(tens: nat, ones: nat)
    requires
        tens < 10,
        ones < 10,
    ensures
        text::two_digits(10 * tens + ones).len() == 2,
        text::two_digits(10 * tens + ones)[0] as int == '0' as int + tens,
        text::two_digits(10 * tens + ones)[1] as int == '0' as int + ones,
{
    reveal_strlit("0");
    let n: nat = 10 * tens + ones;
    assert(n / 10 == tens && n % 10 == ones);
    if n >= 10 {
        assert(text::decimal(n / 10) =~= seq![text::digit_char(tens as int)]);
    }
}

} // verus!
