//! What the encodings leave alone.
use crate::encoding::{encoded_byte, escaped, is_unreserved, percent_encoded, uri_encoded};
use vstd::prelude::*;
use vstd::utf8::*;

verus! {

/// A character that stands for itself in a URL: an ASCII letter or digit, or one of
/// `-`, `_`, `.` and `~`.
pub open spec fn is_url_char(c: char) -> bool {
    ||| 'A' <= c <= 'Z'
    ||| 'a' <= c <= 'z'
    ||| '0' <= c <= '9'
    ||| c == '-'
    ||| c == '_'
    ||| c == '.'
    ||| c == '~'
}

/// A value of characters that stand for themselves in a URL stays as it is.
pub proof fn law_plain_values_stay(text: Seq<char>)
    requires
        forall|i: int| 0 <= i < text.len() ==> is_url_char(#[trigger] text[i]),
    ensures
        uri_encoded(text) == text,
    decreases text.len(),
{
    reveal(uri_encoded);
    if text.len() == 0 {
        assert(text =~= Seq::empty());
    } else {
        let rest = text.drop_first();
        assert forall|i: int| 0 <= i < rest.len() implies is_url_char(#[trigger] rest[i]) by {
            assert(rest[i] == text[i + 1]);
        }
        law_plain_values_stay(rest);
        let c = text[0];
        let n = c as u32;
        char_u32_cast(c, n);
        assert(is_url_char(c));
        assert(n < 128);
        assert((n & 0x7F) as u8 == n as u8) by (bit_vector)
            requires
                n < 128,
        ;
        let b = n as u8;
        assert(encode_utf8(text) =~= seq![b] + encode_utf8(rest));
        assert(encode_utf8(text).skip(1) =~= encode_utf8(rest));
        assert(is_unreserved(b));
        assert(b as char == c);
        assert(seq![c] + rest =~= text);
    }
}

/// Values are encoded piece by piece: what a character becomes does not depend on
/// what stands around it.
pub proof fn law_values_are_encoded_piece_by_piece(a: Seq<char>, b: Seq<char>)
    ensures
        uri_encoded(a + b) == uri_encoded(a) + uri_encoded(b),
{
    reveal(uri_encoded);
    lemma_utf8_joins(a, b);
    lemma_percent_joins(encode_utf8(a), encode_utf8(b));
}

proof fn lemma_utf8_joins(a: Seq<char>, b: Seq<char>)
    ensures
        encode_utf8(a + b) == encode_utf8(a) + encode_utf8(b),
    decreases a.len(),
{
    if a.len() == 0 {
        assert(a + b =~= b);
        assert(encode_utf8(a) + encode_utf8(b) =~= encode_utf8(b));
    } else {
        assert((a + b).drop_first() =~= a.drop_first() + b);
        lemma_utf8_joins(a.drop_first(), b);
        assert(encode_utf8(a + b) =~= encode_utf8(a) + encode_utf8(b));
    }
}

proof fn lemma_percent_joins(a: Seq<u8>, b: Seq<u8>)
    ensures
        percent_encoded(a + b) == percent_encoded(a) + percent_encoded(b),
    decreases a.len(),
{
    if a.len() == 0 {
        assert(a + b =~= b);
        assert(percent_encoded(a) + percent_encoded(b) =~= percent_encoded(b));
    } else {
        assert((a + b).skip(1) =~= a.skip(1) + b);
        lemma_percent_joins(a.skip(1), b);
        assert(percent_encoded(a + b) =~= percent_encoded(a) + percent_encoded(b));
    }
}

/// Every byte that is not one of those characters is written as a percent sign and
/// its two hexadecimal digits, in upper case.
pub proof fn law_other_bytes_are_spelled(b: u8)
    requires
        !is_url_char(b as char),
    ensures
        encoded_byte(b).len() == 3,
        encoded_byte(b)[0] == '%',
        "0123456789ABCDEF"@[(b / 16) as int] == encoded_byte(b)[1],
        "0123456789ABCDEF"@[(b % 16) as int] == encoded_byte(b)[2],
{
    reveal_strlit("0123456789ABCDEF");
    assert(b / 16 < 16 && b % 16 < 16);
    assert(!is_unreserved(b));
}

/// A text without a backslash and without a quote is its own literal, and escaping
/// goes character by character.
pub proof fn law_plain_names_stay(a: Seq<char>, b: Seq<char>)
    ensures
        !a.contains('\\') && !a.contains('\'') ==> escaped(a) == a,
        escaped(a + b) == escaped(a) + escaped(b),
    decreases a.len(),
{
    if a.len() == 0 {
        assert(a + b =~= b);
        assert(a =~= Seq::empty());
        assert(escaped(a) + escaped(b) =~= escaped(b));
    } else {
        let rest = a.skip(1);
        law_plain_names_stay(rest, b);
        assert((a + b).skip(1) =~= rest + b);
        assert(escaped(a + b) =~= escaped(a) + escaped(b));
        if !a.contains('\\') && !a.contains('\'') {
            assert(a.contains(a[0]));
            if rest.contains('\\') {
                let k = choose|k: int| 0 <= k < rest.len() && rest[k] == '\\';
                assert(a[k + 1] == '\\');
            }
            if rest.contains('\'') {
                let k = choose|k: int| 0 <= k < rest.len() && rest[k] == '\'';
                assert(a[k + 1] == '\'');
            }
            assert(seq![a[0]] + rest =~= a);
        }
    }
}

} // verus!
