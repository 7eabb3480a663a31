//! What trimming, decimal numbers and lists of texts come to.
use crate::text::{
    decimal, has_suffix, is_blank, is_white_space, texts, trim_end, trim_start, trimmed,
};
use vstd::prelude::*;

verus! {

// ---------------------------------------------------------------------------
// White space
// ---------------------------------------------------------------------------

/// The white space of Unicode, character by character.
pub open spec fn white_characters() -> Seq<char> {
    seq![
        '\u{9}', '\u{a}', '\u{b}', '\u{c}', '\u{d}', '\u{20}', '\u{85}', '\u{a0}', '\u{1680}',
        '\u{2000}', '\u{2001}', '\u{2002}', '\u{2003}', '\u{2004}', '\u{2005}', '\u{2006}',
        '\u{2007}', '\u{2008}', '\u{2009}', '\u{200a}', '\u{2028}', '\u{2029}', '\u{202f}',
        '\u{205f}', '\u{3000}',
    ]
}

/// White space is the twenty-five characters of Unicode with that property.
pub proof fn law_white_space_is_that_of_unicode(c: char)
    ensures
        is_white_space(c) <==> white_characters().contains(c),
        white_characters().len() == 25,
{
    let all = white_characters();
    if is_white_space(c) {
        let n = c as int;
        let at: int = if n <= 13 {
            n - 9
        } else if n == 0x20 {
            5
        } else if n == 0x85 {
            6
        } else if n == 0xa0 {
            7
        } else if n == 0x1680 {
            8
        } else if n <= 0x200a {
            9 + n - 0x2000
        } else if n <= 0x2029 {
            20 + n - 0x2028
        } else if n == 0x202f {
            22
        } else if n == 0x205f {
            23
        } else {
            24
        };
        assert(all[at] == c);
    }
    if all.contains(c) {
        let k = choose|k: int| 0 <= k < all.len() && all[k] == c;
        assert(is_white_space(all[k]));
    }
}

proof fn lemma_trim_start(text: Seq<char>)
    ensures
        is_blank(text.take(text.len() - trim_start(text).len())),
        text == text.take(text.len() - trim_start(text).len()) + trim_start(text),
        trim_start(text).len() <= text.len(),
        trim_start(text).len() > 0 ==> !is_white_space(trim_start(text)[0]),
    decreases text.len(),
{
    if text.len() > 0 && is_white_space(text[0]) {
        let rest = text.skip(1);
        lemma_trim_start(rest);
        let inner = trim_start(text);
        let cut = text.take(text.len() - inner.len());
        let shorter = rest.take(rest.len() - inner.len());
        assert(cut =~= seq![text[0]] + shorter);
        assert forall|i: int| 0 <= i < cut.len() implies is_white_space(#[trigger] cut[i]) by {
            if i > 0 {
                assert(shorter[i - 1] == cut[i]);
            }
        }
        assert(seq![text[0]] + rest =~= text);
        assert(text =~= cut + inner);
    } else {
        assert(text.take(0) + text =~= text);
    }
}

proof fn lemma_trim_end(text: Seq<char>)
    ensures
        is_blank(text.skip(trim_end(text).len() as int)),
        text == trim_end(text) + text.skip(trim_end(text).len() as int),
        trim_end(text).len() <= text.len(),
        trim_end(text).len() > 0 ==> !is_white_space(trim_end(text).last()),
        trim_end(text).len() > 0 ==> trim_end(text)[0] == text[0],
    decreases text.len(),
{
    if text.len() > 0 && is_white_space(text.last()) {
        let rest = text.drop_last();
        lemma_trim_end(rest);
        let inner = trim_end(text);
        let cut = text.skip(inner.len() as int);
        let shorter = rest.skip(inner.len() as int);
        assert(cut =~= shorter.push(text.last()));
        assert forall|i: int| 0 <= i < cut.len() implies is_white_space(#[trigger] cut[i]) by {
            if i < shorter.len() {
                assert(shorter[i] == cut[i]);
            }
        }
        assert(text =~= rest.push(text.last()));
        assert(inner + cut =~= (inner + shorter).push(text.last()));
    } else {
        assert(text + text.skip(text.len() as int) =~= text);
    }
}

/// Trimming takes white space off both ends and nothing else: around what is left
/// there was only white space, and it neither starts nor ends with any.
pub proof fn law_trimming_takes_only_white_space(text: Seq<char>)
    ensures
        exists|before: Seq<char>, after: Seq<char>| #[trigger]
            is_around(text, before, trimmed(text), after),
        trimmed(text).len() > 0 ==> !is_white_space(trimmed(text)[0]) && !is_white_space(
            trimmed(text).last(),
        ),
{
    let start = trim_start(text);
    lemma_trim_start(text);
    lemma_trim_end(start);
    let before = text.take(text.len() - start.len());
    let after = start.skip(trim_end(start).len() as int);
    assert(before + trimmed(text) + after =~= before + (trimmed(text) + after));
    assert(is_around(text, before, trimmed(text), after));
}

/// A text is another one with white space before and after it.
pub open spec fn is_around(
    text: Seq<char>,
    before: Seq<char>,
    inner: Seq<char>,
    after: Seq<char>,
) -> bool {
    &&& text == before + inner + after
    &&& forall|i: int| 0 <= i < before.len() ==> is_white_space(#[trigger] before[i])
    &&& forall|i: int| 0 <= i < after.len() ==> is_white_space(#[trigger] after[i])
}

/// A text is blank exactly where every character of it is white space.
pub proof fn law_blank_texts_are_white_space(text: Seq<char>)
    ensures
        is_blank(text) <==> forall|c: char| #[trigger]
            text.contains(c) ==> white_characters().contains(c),
{
    if is_blank(text) {
        assert forall|c: char| #[trigger] text.contains(c) implies white_characters().contains(
            c,
        ) by {
            let k = choose|k: int| 0 <= k < text.len() && text[k] == c;
            assert(is_white_space(text[k]));
            law_white_space_is_that_of_unicode(c);
        }
    }
    if forall|c: char| #[trigger] text.contains(c) ==> white_characters().contains(c) {
        assert forall|i: int| 0 <= i < text.len() implies is_white_space(#[trigger] text[i]) by {
            assert(text.contains(text[i]));
            law_white_space_is_that_of_unicode(text[i]);
        }
    }
}

/// A text ends with a suffix exactly where it is something and then the suffix.
pub proof fn law_suffixes_end_the_text(text: Seq<char>, suffix: Seq<char>)
    ensures
        has_suffix(text, suffix) <==> exists|start: Seq<char>| text == #[trigger] (start + suffix),
{
    if has_suffix(text, suffix) {
        let start = text.take(text.len() - suffix.len());
        assert(text =~= start + suffix);
    }
    if exists|start: Seq<char>| text == #[trigger] (start + suffix) {
        let start = choose|start: Seq<char>| text == #[trigger] (start + suffix);
        assert(text.skip(text.len() - suffix.len()) =~= suffix);
    }
}

/// A list of strings holds the text of each of them, in order.
pub proof fn law_texts_are_those_of_the_list(list: Seq<String>)
    ensures
        texts(list).len() == list.len(),
        forall|i: int| 0 <= i < list.len() ==> #[trigger] texts(list)[i] == list[i]@,
{
}

// ---------------------------------------------------------------------------
// Decimal numbers
// ---------------------------------------------------------------------------

/// The number that decimal digits spell.
pub open spec fn spelled(digits: Seq<char>) -> nat
    decreases digits.len(),
{
    if digits.len() == 0 {
        0
    } else {
        (10 * spelled(digits.drop_last()) + (digits.last() as int - '0' as int)) as nat
    }
}

/// The text is a number in decimal: digits without a leading zero that spell it.
pub open spec fn is_number(digits: Seq<char>, n: nat) -> bool {
    &&& digits.len() > 0
    &&& forall|i: int| 0 <= i < digits.len() ==> '0' <= #[trigger] digits[i] <= '9'
    &&& digits.len() > 1 ==> digits[0] != '0'
    &&& spelled(digits) == n
}

/// A number is written with the digits that spell it, without a leading zero.
pub proof fn law_numbers_are_spelled(n: nat)
    ensures
        is_number(decimal(n), n),
        n > 0 ==> decimal(n)[0] != '0',
    decreases n,
{
    let digits = decimal(n);
    reveal_with_fuel(spelled, 2);
    if n < 10 {
        assert(digits.drop_last() =~= Seq::empty());
        assert(digits.last() as int == 48 + n);
    } else {
        law_numbers_are_spelled(n / 10);
        assert(digits.drop_last() =~= decimal(n / 10));
        assert(digits.last() as int == 48 + n % 10);
        assert forall|i: int| 0 <= i < digits.len() implies '0' <= #[trigger] digits[i] <= '9' by {
            if i < digits.len() - 1 {
                assert(digits[i] == decimal(n / 10)[i]);
            }
        }
        assert(digits[0] == decimal(n / 10)[0]);
    }
}

} // verus!
