//! Encodings that keep arbitrary text inside a Drive search query or a URL.
use crate::text::characters;
use vstd::prelude::*;
use vstd::string::*;
use vstd::utf8::*;

verus! {

// ---------------------------------------------------------------------------
// Search queries
// ---------------------------------------------------------------------------

/// One character inside a quoted query literal: backslash and single quote get
/// a backslash before them.
pub open spec fn escaped_char(c: char) -> Seq<char> {
    if c == '\\' {
        seq!['\\', '\\']
    } else if c == '\'' {
        seq!['\\', '\'']
    } else {
        seq![c]
    }
}

/// A text escaped for a quoted query literal.
pub open spec fn escaped(text: Seq<char>) -> Seq<char>
    decreases text.len(),
{
    if text.len() == 0 {
        Seq::empty()
    } else {
        escaped_char(text[0]) + escaped(text.skip(1))
    }
}

/// Escape backslashes and single quotes in a Google Drive query string.
pub fn escape_query(s: &str) -> (literal: String)
    ensures
        literal@ == escaped(s@),
{
    let chars = characters(s);
    let mut literal = String::new();
    let mut i: usize = 0;
    assert(s@.skip(0) =~= s@);
    while i < chars.len()
        invariant
            chars@ == s@,
            i <= chars@.len(),
            escaped(s@) == literal@ + escaped(s@.skip(i as int)),
        decreases chars.len() - i,
    {
        let c: char = chars[i];
        let ghost before = literal@;
        if c == '\\' || c == '\'' {
            literal.push('\\');
        }
        literal.push(c);
        proof {
            let rest = s@.skip(i as int);
            assert(rest.skip(1) =~= s@.skip(i + 1));
            assert(literal@ =~= before + escaped_char(c));
            assert(before + (escaped_char(c) + escaped(rest.skip(1))) =~= literal@ + escaped(
                rest.skip(1),
            ));
        }
        i = i + 1;
    }
    assert(literal@ + escaped(s@.skip(i as int)) =~= literal@);
    literal
}

/// How a quoted query literal is read, its opening quote already behind: a
/// backslash stands for the character after it, and a quote ends the literal.
/// The result is the text of the literal and what follows its closing quote.
pub open spec fn read_literal(input: Seq<char>) -> Option<(Seq<char>, Seq<char>)>
    decreases input.len(),
{
    if input.len() == 0 {
        None
    } else if input[0] == '\'' {
        Some((Seq::empty(), input.skip(1)))
    } else if input[0] == '\\' {
        if input.len() == 1 {
            None
        } else {
            match read_literal(input.skip(2)) {
                Some((text, rest)) => Some((seq![input[1]] + text, rest)),
                None => None,
            }
        }
    } else {
        match read_literal(input.skip(1)) {
            Some((text, rest)) => Some((seq![input[0]] + text, rest)),
            None => None,
        }
    }
}

/// An escaped text between quotes reads back as the text, whatever follows the
/// closing quote: no name can end its literal early or swallow the rest of the
/// query.
pub proof fn law_escaped_literal_reads_back(text: Seq<char>, rest: Seq<char>)
    ensures
        read_literal(escaped(text) + seq!['\''] + rest) == Some((text, rest)),
    decreases text.len(),
{
    let input = escaped(text) + seq!['\''] + rest;
    if text.len() == 0 {
        assert(input.skip(1) =~= rest);
        assert(text =~= Seq::empty());
    } else {
        law_escaped_literal_reads_back(text.skip(1), rest);
        let inner = escaped(text.skip(1)) + seq!['\''] + rest;
        let head = escaped_char(text[0]);
        assert(input =~= head + inner);
        assert(input.skip(head.len() as int) =~= inner);
        assert(seq![text[0]] + text.skip(1) =~= text);
    }
}

// ---------------------------------------------------------------------------
// Percent encoding
// ---------------------------------------------------------------------------

/// The bytes that stand for themselves in a URL component: ASCII letters and
/// digits, `-`, `_`, `.` and `~`.
pub open spec fn is_unreserved(b: u8) -> bool {
    ||| 65 <= b <= 90
    ||| 97 <= b <= 122
    ||| 48 <= b <= 57
    ||| b == 45
    ||| b == 95
    ||| b == 46
    ||| b == 126
}

/// The upper-case hexadecimal digit of a number below sixteen.
pub open spec fn hex_digit(n: u8) -> char {
    if n < 10 {
        (48 + n) as char
    } else {
        (55 + n) as char
    }
}

/// One byte of a URL component: itself, or `%` and its two hexadecimal digits.
pub open spec fn encoded_byte(b: u8) -> Seq<char> {
    if is_unreserved(b) {
        seq![b as char]
    } else {
        seq!['%', hex_digit(b / 16), hex_digit(b % 16)]
    }
}

/// Bytes, percent-encoded.
pub open spec fn percent_encoded(bytes: Seq<u8>) -> Seq<char>
    decreases bytes.len(),
{
    if bytes.len() == 0 {
        Seq::empty()
    } else {
        encoded_byte(bytes[0]) + percent_encoded(bytes.skip(1))
    }
}

/// A text as a URL component: its UTF-8 bytes, percent-encoded. Proofs that look
/// into it reveal it.
#[verifier::opaque]
pub open spec fn uri_encoded(text: Seq<char>) -> Seq<char> {
    percent_encoded(encode_utf8(text))
}

fn hex_char(n: u8) -> (c: char)
    requires
        n < 16,
    ensures
        c == hex_digit(n),
{
    if n < 10 {
        (48 + n) as char
    } else {
        (55 + n) as char
    }
}

/// URI-encode a string.
pub fn uri_encode(s: &str) -> (encoded: String)
    ensures
        encoded@ == uri_encoded(s@),
{
    reveal(uri_encoded);
    let bytes = s.as_bytes();
    let ghost all = encode_utf8(s@);
    let mut encoded = String::new();
    let mut i: usize = 0;
    assert(all.skip(0) =~= all);
    while i < bytes.len()
        invariant
            bytes@ == all,
            i <= bytes@.len(),
            percent_encoded(all) == encoded@ + percent_encoded(all.skip(i as int)),
        decreases bytes.len() - i,
    {
        let b: u8 = bytes[i];
        let ghost before = encoded@;
        if (65 <= b && b <= 90) || (97 <= b && b <= 122) || (48 <= b && b <= 57) || b == 45 || b
            == 95 || b == 46 || b == 126 {
            encoded.push(b as char);
        } else {
            encoded.push('%');
            encoded.push(hex_char(b / 16));
            encoded.push(hex_char(b % 16));
        }
        proof {
            let rest = all.skip(i as int);
            assert(rest.skip(1) =~= all.skip(i + 1));
            assert(encoded@ =~= before + encoded_byte(b));
            assert(before + (encoded_byte(b) + percent_encoded(rest.skip(1))) =~= encoded@
                + percent_encoded(rest.skip(1)));
        }
        i = i + 1;
    }
    assert(encoded@ + percent_encoded(all.skip(i as int)) =~= encoded@);
    encoded
}

/// The number that an upper-case hexadecimal digit denotes.
pub open spec fn hex_value(c: char) -> int {
    if c <= '9' {
        c as int - 48
    } else {
        c as int - 55
    }
}

/// The bytes that a percent-encoded text stands for.
pub open spec fn percent_decoded(text: Seq<char>) -> Seq<u8>
    decreases text.len(),
{
    if text.len() == 0 {
        Seq::empty()
    } else if text[0] == '%' && text.len() >= 3 {
        seq![(hex_value(text[1]) * 16 + hex_value(text[2])) as u8] + percent_decoded(text.skip(3))
    } else {
        seq![text[0] as u8] + percent_decoded(text.skip(1))
    }
}

/// Decoding a percent-encoded text gives its bytes back.
pub proof fn law_percent_encoding_decodes(bytes: Seq<u8>)
    ensures
        percent_decoded(percent_encoded(bytes)) == bytes,
    decreases bytes.len(),
{
    if bytes.len() > 0 {
        law_percent_encoding_decodes(bytes.skip(1));
        let b = bytes[0];
        let head = encoded_byte(b);
        let tail = percent_encoded(bytes.skip(1));
        let text = percent_encoded(bytes);
        assert(text =~= head + tail);
        assert(text.skip(head.len() as int) =~= tail);
        assert(seq![b] + bytes.skip(1) =~= bytes);
        if !is_unreserved(b) {
            assert(hex_value(hex_digit(b / 16)) == b / 16);
            assert(hex_value(hex_digit(b % 16)) == b % 16);
            assert((b / 16) * 16 + b % 16 == b);
        }
    } else {
        assert(bytes =~= Seq::empty());
    }
}

/// Two texts with the same URL component are the same text.
pub proof fn law_uri_encoding_is_injective(a: Seq<char>, b: Seq<char>)
    requires
        uri_encoded(a) == uri_encoded(b),
    ensures
        a == b,
{
    reveal(uri_encoded);
    law_percent_encoding_decodes(encode_utf8(a));
    law_percent_encoding_decodes(encode_utf8(b));
    encode_utf8_decode_utf8(a);
    encode_utf8_decode_utf8(b);
}

/// A character that a URL component may hold: an unreserved one, or `%`.
pub open spec fn is_component_char(c: char) -> bool {
    c == '%' || ((c as int) < 128 && is_unreserved(c as u8))
}

/// An encoded text holds unreserved characters and `%` only, so none that
/// separates or ends a URL component.
pub proof fn law_uri_encoding_is_closed(text: Seq<char>)
    ensures
        forall|i: int|
            0 <= i < uri_encoded(text).len() ==> is_component_char(#[trigger] uri_encoded(text)[i]),
{
    reveal(uri_encoded);
    lemma_percent_encoding_is_closed(encode_utf8(text));
}

proof fn lemma_percent_encoding_is_closed(bytes: Seq<u8>)
    ensures
        forall|i: int|
            0 <= i < percent_encoded(bytes).len() ==> is_component_char(
                #[trigger] percent_encoded(bytes)[i],
            ),
    decreases bytes.len(),
{
    if bytes.len() > 0 {
        let rest = bytes.skip(1);
        lemma_percent_encoding_is_closed(rest);
        let head = encoded_byte(bytes[0]);
        assert forall|i: int| 0 <= i < percent_encoded(bytes).len() implies is_component_char(
            #[trigger] percent_encoded(bytes)[i],
        ) by {
            if i >= head.len() {
                assert(percent_encoded(bytes)[i] == percent_encoded(rest)[i - head.len()]);
            }
        }
    }
}

} // verus!
