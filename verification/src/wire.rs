//! How a server reads the URL, the query and the form of a request.
use crate::encoding::{
    is_component_char, law_percent_encoding_decodes, law_uri_encoding_is_closed, percent_decoded,
    read_literal, uri_encoded,
};
use vstd::prelude::*;
use vstd::string::*;
use vstd::utf8::*;

verus! {

// ---------------------------------------------------------------------------
// Cutting
// ---------------------------------------------------------------------------

/// What stands before the first of some character, and what after it, if it occurs.
pub open spec fn cut(text: Seq<char>, mark: char) -> (Seq<char>, Option<Seq<char>>)
    decreases text.len(),
{
    if text.len() == 0 {
        (Seq::empty(), None)
    } else if text[0] == mark {
        (Seq::empty(), Some(text.skip(1)))
    } else {
        let (before, after) = cut(text.skip(1), mark);
        (seq![text[0]] + before, after)
    }
}

/// A text that holds the character nowhere is not cut, and one that holds it is
/// cut at the first place.
pub proof fn law_cut_is_at_the_first_mark(before: Seq<char>, mark: char, after: Seq<char>)
    requires
        !before.contains(mark),
    ensures
        cut(before, mark) == (before, None::<Seq<char>>),
        cut(before + seq![mark] + after, mark) == (before, Some(after)),
    decreases before.len(),
{
    let whole = before + seq![mark] + after;
    if before.len() == 0 {
        assert(whole.skip(1) =~= after);
        assert(before =~= Seq::empty());
    } else {
        let rest = before.skip(1);
        assert(!rest.contains(mark)) by {
            if rest.contains(mark) {
                let k = choose|k: int| 0 <= k < rest.len() && rest[k] == mark;
                assert(before[k + 1] == mark);
            }
        }
        assert(before.contains(before[0]));
        law_cut_is_at_the_first_mark(rest, mark, after);
        assert(whole.skip(1) =~= rest + seq![mark] + after);
        assert(seq![before[0]] + rest =~= before);
    }
}

/// A text opens with another one; what follows it.
pub open spec fn behind(text: Seq<char>, start: Seq<char>) -> Option<Seq<char>> {
    if start.len() <= text.len() && text.take(start.len() as int) == start {
        Some(text.skip(start.len() as int))
    } else {
        None
    }
}

/// A text closes with another one; what precedes it.
pub open spec fn ahead(text: Seq<char>, end: Seq<char>) -> Option<Seq<char>> {
    if end.len() <= text.len() && text.skip(text.len() - end.len()) == end {
        Some(text.take(text.len() - end.len()))
    } else {
        None
    }
}

pub proof fn lemma_behind(start: Seq<char>, rest: Seq<char>)
    ensures
        behind(start + rest, start) == Some(rest),
{
    assert((start + rest).take(start.len() as int) =~= start);
    assert((start + rest).skip(start.len() as int) =~= rest);
}

pub proof fn lemma_ahead(rest: Seq<char>, end: Seq<char>)
    ensures
        ahead(rest + end, end) == Some(rest),
{
    assert((rest + end).skip(rest.len() as int) =~= end);
    assert((rest + end).take(rest.len() as int) =~= rest);
}

// ---------------------------------------------------------------------------
// Parameters
// ---------------------------------------------------------------------------

/// A parameter: what stands before its first `=`, and what after it.
pub open spec fn pair(text: Seq<char>) -> (Seq<char>, Seq<char>) {
    match cut(text, '=') {
        (key, Some(value)) => (key, value),
        (key, None) => (key, Seq::empty()),
    }
}

/// The parameters in a text, between its ampersands.
pub open spec fn pairs(text: Seq<char>) -> Seq<(Seq<char>, Seq<char>)>
    decreases text.len(),
{
    match cut(text, '&') {
        (first, Some(rest)) => if rest.len() < text.len() {
            seq![pair(first)] + pairs(rest)
        } else {
            seq![pair(first)]
        },
        (first, None) => seq![pair(first)],
    }
}

/// A key without a mark of its own.
pub open spec fn is_key(key: Seq<char>) -> bool {
    !key.contains('=') && !key.contains('&')
}

proof fn lemma_parameter(key: Seq<char>, value: Seq<char>)
    requires
        is_key(key),
        !value.contains('&'),
    ensures
        pair(key + seq!['='] + value) == (key, value),
        !(key + seq!['='] + value).contains('&'),
{
    law_cut_is_at_the_first_mark(key, '=', value);
    let whole = key + seq!['='] + value;
    if whole.contains('&') {
        let k = choose|k: int| 0 <= k < whole.len() && whole[k] == '&';
        if k < key.len() {
            assert(key[k] == '&');
        } else if k > key.len() {
            assert(value[k - key.len() - 1] == '&');
        }
    }
}

/// The parameters are read one by one, in order.
pub proof fn law_parameters_are_read_in_order(key: Seq<char>, value: Seq<char>, rest: Seq<char>)
    requires
        is_key(key),
        !value.contains('&'),
    ensures
        pairs(key + seq!['='] + value) == seq![(key, value)],
        pairs(key + seq!['='] + value + seq!['&'] + rest) == seq![(key, value)] + pairs(rest),
{
    lemma_parameter(key, value);
    law_cut_is_at_the_first_mark(key + seq!['='] + value, '&', rest);
}

/// Where a request goes, and its parameters.
pub struct TargetModel {
    pub place: Seq<char>,
    pub parameters: Seq<(Seq<char>, Seq<char>)>,
}

/// Reads a URL.
pub open spec fn read_target(url: Seq<char>) -> TargetModel {
    match cut(url, '?') {
        (place, Some(rest)) => TargetModel { place, parameters: pairs(rest) },
        (place, None) => TargetModel { place, parameters: Seq::empty() },
    }
}

/// The text that a percent-encoded value stands for.
pub open spec fn plain_text(value: Seq<char>) -> Seq<char> {
    decode_utf8(percent_decoded(value))
}

/// An encoded text is read back, and holds no mark of a URL or a form.
pub proof fn law_encoded_values_are_read_back(text: Seq<char>)
    ensures
        plain_text(uri_encoded(text)) == text,
        !uri_encoded(text).contains('&'),
        !uri_encoded(text).contains('='),
        !uri_encoded(text).contains('?'),
        !uri_encoded(text).contains('#'),
        !uri_encoded(text).contains('+'),
        !uri_encoded(text).contains(' '),
{
    law_uri_encoding_is_closed(text);
    reveal(uri_encoded);
    law_percent_encoding_decodes(encode_utf8(text));
    encode_utf8_decode_utf8(text);
    let encoded = uri_encoded(text);
    assert forall|c: char| #[trigger] encoded.contains(c) implies is_component_char(c) by {
        let k = choose|k: int| 0 <= k < encoded.len() && encoded[k] == c;
        assert(is_component_char(encoded[k]));
    }
    assert(!is_component_char('&'));
    assert(!is_component_char('='));
    assert(!is_component_char('?'));
    assert(!is_component_char('#'));
    assert(!is_component_char('+'));
    assert(!is_component_char(' '));
}

// ---------------------------------------------------------------------------
// Searches
// ---------------------------------------------------------------------------

/// What a search asks for: what stands in a folder and not in the trash, of some
/// name or of any, and folders only or files too.
pub struct SearchModel {
    pub parent: Seq<char>,
    pub name: Option<Seq<char>>,
    pub folders_only: bool,
}

/// Reads the end of a query, behind the opening quote of a folder.
pub open spec fn read_scope(text: Seq<char>) -> Option<(Seq<char>, bool)> {
    match ahead(text, "' in parents and trashed = false"@) {
        Some(parent) => Some((parent, false)),
        None => match ahead(
            text,
            "' in parents and mimeType = 'application/vnd.google-apps.folder' and trashed = false"@,
        ) {
            Some(parent) => Some((parent, true)),
            None => None,
        },
    }
}

/// Reads a query.
pub open spec fn read_query(query: Seq<char>) -> Option<SearchModel> {
    match behind(query, "name = '"@) {
        Some(rest) => match read_literal(rest) {
            Some((name, after)) => match behind(after, " and '"@) {
                Some(scope) => match read_scope(scope) {
                    Some((parent, folders_only)) => Some(
                        SearchModel { parent, name: Some(name), folders_only },
                    ),
                    None => None,
                },
                None => None,
            },
            None => None,
        },
        None => match behind(query, "'"@) {
            Some(scope) => match read_scope(scope) {
                Some((parent, folders_only)) => Some(
                    SearchModel { parent, name: None, folders_only },
                ),
                None => None,
            },
            None => None,
        },
    }
}

// ---------------------------------------------------------------------------
// Headers
// ---------------------------------------------------------------------------

/// A header has some value, and occurs once.
pub open spec fn has_header(
    headers: Seq<(Seq<char>, Seq<char>)>,
    name: Seq<char>,
    value: Seq<char>,
) -> bool {
    exists|i: int|
        #![trigger headers[i]]
        0 <= i < headers.len() && headers[i] == (name, value) && forall|j: int|
            0 <= j < headers.len() && (#[trigger] headers[j]).0 == name ==> i == j
}

} // verus!
