//! Manual multipart/related encoding for Google Drive file uploads.
use vstd::prelude::*;
use vstd::string::*;
use vstd::utf8::*;

verus! {

/// The boundary between the parts.
pub open spec fn boundary() -> Seq<char> {
    "diaryx_boundary_0123456789"@
}

/// The content type of an upload, which names the boundary.
pub open spec fn upload_type() -> Seq<char> {
    "multipart/related; boundary="@ + boundary()
}

/// Everything before the content of an upload: the metadata part, and the
/// opening of the content part.
pub open spec fn upload_head(metadata: Seq<char>, content_type: Seq<char>) -> Seq<char> {
    "--"@ + boundary() + "\r\n"@ + "Content-Type: application/json; charset=UTF-8\r\n\r\n"@
        + metadata + "\r\n"@ + "--"@ + boundary() + "\r\n"@ + "Content-Type: "@ + content_type
        + "\r\n\r\n"@
}

/// Everything after the content of an upload: the closing boundary.
pub open spec fn upload_tail() -> Seq<char> {
    "\r\n"@ + "--"@ + boundary() + "--\r\n"@
}

/// The body of an upload.
pub open spec fn upload_body(
    metadata: Seq<char>,
    content: Seq<u8>,
    content_type: Seq<char>,
) -> Seq<u8> {
    encode_utf8(upload_head(metadata, content_type)) + content + encode_utf8(upload_tail())
}

/// Build a multipart/related body for Google Drive file uploads.
///
/// Returns (content_type, body_bytes) where content_type includes the boundary.
pub fn build_multipart_upload(metadata_json: &str, content: &[u8], content_type: &str) -> (upload: (
    String,
    Vec<u8>,
))
    ensures
        upload.0@ == upload_type(),
        upload.1@ == upload_body(metadata_json@, content@, content_type@),
{
    let boundary = "diaryx_boundary_0123456789";
    let head = "--".to_string().concat(boundary).concat("\r\n").concat(
        "Content-Type: application/json; charset=UTF-8\r\n\r\n",
    ).concat(metadata_json).concat("\r\n").concat("--").concat(boundary).concat("\r\n").concat(
        "Content-Type: ",
    ).concat(content_type).concat("\r\n\r\n");
    let tail = "\r\n".to_string().concat("--").concat(boundary).concat("--\r\n");
    let mut body = head.as_str().as_bytes_vec();
    body.extend_from_slice(content);
    body.extend_from_slice(tail.as_str().as_bytes());
    assert(body@ =~= upload_body(metadata_json@, content@, content_type@));
    ("multipart/related; boundary=".to_string().concat(boundary), body)
}

// ---------------------------------------------------------------------------
// Reading an upload
// ---------------------------------------------------------------------------

/// The mark is found at a position.
pub open spec fn is_at(bytes: Seq<u8>, mark: Seq<u8>, i: int) -> bool {
    &&& 0 <= i <= bytes.len() - mark.len()
    &&& bytes.subrange(i, i + mark.len()) == mark
}

/// What stands before the first occurrence of a mark, and what after it.
pub open spec fn split_once(bytes: Seq<u8>, mark: Seq<u8>) -> Option<(Seq<u8>, Seq<u8>)>
    decreases bytes.len(),
{
    if is_at(bytes, mark, 0) {
        Some((Seq::empty(), bytes.skip(mark.len() as int)))
    } else if bytes.len() == 0 {
        None
    } else {
        match split_once(bytes.skip(1), mark) {
            Some((before, after)) => Some((seq![bytes[0]] + before, after)),
            None => None,
        }
    }
}

/// The end of a line.
pub open spec fn line_end() -> Seq<u8> {
    seq![13u8, 10u8]
}

/// The end of the headers of a part.
pub open spec fn headers_end() -> Seq<u8> {
    seq![13u8, 10u8, 13u8, 10u8]
}

/// What ends the content of a part: a line that starts with the boundary.
pub open spec fn delimiter(boundary: Seq<char>) -> Seq<u8> {
    encode_utf8("\r\n"@ + "--"@ + boundary)
}

/// What follows the boundary behind the last part.
pub open spec fn closing() -> Seq<u8> {
    encode_utf8("--\r\n"@)
}

/// A part of an upload: its headers, and its content.
pub struct PartModel {
    pub headers: Seq<u8>,
    pub content: Seq<u8>,
}

/// Reads the parts that follow a boundary, up to the end: nothing may follow the
/// last of them but the closing of its boundary.
pub open spec fn read_parts(bytes: Seq<u8>, boundary: Seq<char>) -> Option<Seq<PartModel>>
    decreases bytes.len(),
{
    if bytes == closing() {
        Some(Seq::empty())
    } else if !is_at(bytes, line_end(), 0) {
        None
    } else {
        match split_once(bytes.skip(2), headers_end()) {
            Some((headers, rest)) => match split_once(rest, delimiter(boundary)) {
                Some((content, after)) => if after.len() >= bytes.len() {
                    None
                } else {
                    match read_parts(after, boundary) {
                        Some(others) => Some(seq![PartModel { headers, content }] + others),
                        None => None,
                    }
                },
                None => None,
            },
            None => None,
        }
    }
}

/// Reads all the parts of an upload, which opens with its boundary.
pub open spec fn read_upload(bytes: Seq<u8>, boundary: Seq<char>) -> Option<Seq<PartModel>> {
    let opening = encode_utf8("--"@ + boundary);
    if is_at(bytes, opening, 0) {
        read_parts(bytes.skip(opening.len() as int), boundary)
    } else {
        None
    }
}

/// The boundary that a content type names.
pub open spec fn named_boundary(content_type: Seq<char>) -> Option<Seq<char>> {
    let start = "multipart/related; boundary="@;
    if start.is_prefix_of(content_type) {
        Some(content_type.skip(start.len() as int))
    } else {
        None
    }
}

/// Nothing in the bytes can be taken for the end of a part.
pub open spec fn is_free_of_delimiters(bytes: Seq<u8>) -> bool {
    forall|i: int| !(#[trigger] is_at(bytes, delimiter(boundary()), i))
}

/// The first occurrence of a mark is the one after `before` where it does not
/// occur earlier.
proof fn lemma_split_once(before: Seq<u8>, mark: Seq<u8>, after: Seq<u8>)
    requires
        forall|i: int|
            0 <= i < before.len() ==> !(#[trigger] is_at(before + mark + after, mark, i)),
    ensures
        split_once(before + mark + after, mark) == Some((before, after)),
    decreases before.len(),
{
    let all = before + mark + after;
    if before.len() == 0 {
        assert(all.subrange(0, mark.len() as int) =~= mark);
        assert(is_at(all, mark, 0));
        assert(all.skip(mark.len() as int) =~= after);
    } else {
        let rest = before.skip(1);
        assert(all.skip(1) =~= rest + mark + after);
        assert(!is_at(all, mark, 0));
        assert forall|i: int| 0 <= i < rest.len() implies !(#[trigger] is_at(
            rest + mark + after,
            mark,
            i,
        )) by {
            assert(!is_at(all, mark, i + 1));
            assert(all.skip(1).subrange(i, i + mark.len()) =~= all.subrange(
                i + 1,
                i + 1 + mark.len(),
            ));
        }
        lemma_split_once(rest, mark, after);
        assert(seq![all[0]] + rest =~= before);
    }
}

/// A mark does not occur before its place where its first byte does not.
proof fn lemma_split_plain(before: Seq<u8>, mark: Seq<u8>, after: Seq<u8>)
    requires
        mark.len() > 0,
        forall|i: int| 0 <= i < before.len() ==> before[i] != mark[0],
    ensures
        split_once(before + mark + after, mark) == Some((before, after)),
{
    let all = before + mark + after;
    assert forall|i: int| 0 <= i < before.len() implies !(#[trigger] is_at(all, mark, i)) by {
        assert(all[i] == before[i]);
        if is_at(all, mark, i) {
            assert(all.subrange(i, i + mark.len())[0] == all[i]);
        }
    }
    lemma_split_once(before, mark, after);
}

/// The same for a mark whose first byte occurs in it once, so that it cannot
/// overlap itself.
proof fn lemma_split_distinct(before: Seq<u8>, mark: Seq<u8>, after: Seq<u8>)
    requires
        mark.len() > 0,
        forall|i: int| 0 < i < mark.len() ==> #[trigger] mark[i] != mark[0],
        forall|i: int| !(#[trigger] is_at(before, mark, i)),
    ensures
        split_once(before + mark + after, mark) == Some((before, after)),
{
    let all = before + mark + after;
    assert forall|i: int| 0 <= i < before.len() implies !(#[trigger] is_at(all, mark, i)) by {
        if is_at(all, mark, i) {
            let here = all.subrange(i, i + mark.len());
            if i + mark.len() <= before.len() {
                assert(here =~= before.subrange(i, i + mark.len()));
                assert(is_at(before, mark, i));
            } else {
                let k = before.len() - i;
                assert(here[k] == all[before.len() as int]);
                assert(all[before.len() as int] == mark[0]);
                assert(mark[k] != mark[0]);
            }
        }
    }
    lemma_split_once(before, mark, after);
}

proof fn lemma_encoding_joins(a: Seq<char>, b: Seq<char>)
    ensures
        encode_utf8(a + b) == encode_utf8(a) + encode_utf8(b),
    decreases a.len(),
{
    if a.len() == 0 {
        assert(a + b =~= b);
        assert(encode_utf8(a) + encode_utf8(b) =~= encode_utf8(b));
    } else {
        assert((a + b).drop_first() =~= a.drop_first() + b);
        lemma_encoding_joins(a.drop_first(), b);
        assert(encode_utf8(a + b) =~= encode_utf8(a) + encode_utf8(b));
    }
}

/// A text without a carriage return is encoded without one.
proof fn lemma_no_return(text: Seq<char>)
    requires
        !text.contains('\r'),
    ensures
        forall|i: int| 0 <= i < encode_utf8(text).len() ==> #[trigger] encode_utf8(text)[i] != 13,
    decreases text.len(),
{
    if text.len() > 0 {
        let c = text[0];
        let n = c as u32;
        let rest = text.drop_first();
        assert(text.contains(c));
        assert(!rest.contains('\r')) by {
            if rest.contains('\r') {
                let k = choose|k: int| 0 <= k < rest.len() && rest[k] == '\r';
                assert(text[k + 1] == '\r');
            }
        }
        lemma_no_return(rest);
        char_u32_cast(c, n);
        char_is_scalar(c);
        assert(13u32 as char == '\r');
        assert(n != 13);
        assert(n < 128 ==> (n & 0x7F) as u8 == n as u8) by (bit_vector);
        assert(forall|b: u8| #[trigger] (0xC0u8 | b) >= 0x80) by (bit_vector);
        assert(forall|b: u8| #[trigger] (0xE0u8 | b) >= 0x80) by (bit_vector);
        assert(forall|b: u8| #[trigger] (0xF0u8 | b) >= 0x80) by (bit_vector);
        assert(forall|b: u8| #[trigger] (0x80u8 | b) >= 0x80) by (bit_vector);
        let head = encode_scalar(n);
        assert forall|i: int| 0 <= i < encode_utf8(text).len() implies #[trigger] encode_utf8(
            text,
        )[i] != 13 by {
            if i >= head.len() {
                assert(encode_utf8(text)[i] == encode_utf8(rest)[i - head.len()]);
            }
        }
    }
}

proof fn lemma_marks()
    ensures
        encode_utf8("\r\n"@) == line_end(),
        encode_utf8("\r\n\r\n"@) == headers_end(),
        closing().len() > 0,
        closing()[0] == 45,
        delimiter(boundary()).len() > 0,
        delimiter(boundary())[0] == 13,
        forall|i: int|
            0 < i < delimiter(boundary()).len() ==> #[trigger] delimiter(boundary())[i] != 13,
{
    reveal_strlit("\r\n");
    reveal_strlit("\r\n\r\n");
    reveal_strlit("--");
    reveal_strlit("diaryx_boundary_0123456789");
    let text = "\r\n"@ + "--"@ + boundary();
    assert(is_ascii_chars("\r\n"@));
    assert(is_ascii_chars("\r\n\r\n"@));
    reveal_strlit("--\r\n");
    assert(is_ascii_chars(text));
    assert(is_ascii_chars("--\r\n"@));
    is_ascii_chars_encode_utf8("--\r\n"@);
    assert("--\r\n"@[0] as u8 == closing()[0]);
    is_ascii_chars_encode_utf8("\r\n"@);
    is_ascii_chars_encode_utf8("\r\n\r\n"@);
    is_ascii_chars_encode_utf8(text);
    assert(encode_utf8("\r\n"@) =~= line_end());
    assert(encode_utf8("\r\n\r\n"@) =~= headers_end());
    assert forall|i: int| 0 < i < delimiter(boundary()).len() implies #[trigger] delimiter(
        boundary(),
    )[i] != 13 by {
        assert(text[i] != '\r');
        assert(text[i] as u8 == delimiter(boundary())[i]);
    }
}

/// A part as it is written is read back: headers without a carriage return, and
/// content without a delimiter.
proof fn lemma_part_reads_back(headers: Seq<u8>, content: Seq<u8>, after: Seq<u8>)
    requires
        forall|i: int| 0 <= i < headers.len() ==> headers[i] != 13,
        is_free_of_delimiters(content),
    ensures
        read_parts(
            line_end() + headers + headers_end() + content + delimiter(boundary()) + after,
            boundary(),
        ) == match read_parts(after, boundary()) {
            Some(others) => Some(seq![PartModel { headers, content }] + others),
            None => None,
        },
{
    let mark = delimiter(boundary());
    let second = content + mark + after;
    let first = headers + headers_end() + second;
    let all = line_end() + headers + headers_end() + content + mark + after;
    lemma_marks();
    lemma_split_plain(headers, headers_end(), second);
    lemma_split_distinct(content, mark, after);
    assert(all =~= line_end() + first);
    assert(all.subrange(0, 2) =~= line_end());
    assert(is_at(all, line_end(), 0));
    assert(all.skip(2) =~= first);
    assert(all[0] == 13);
}

/// The bytes of everything before the content of an upload, piece by piece.
proof fn lemma_head_pieces(metadata: Seq<char>, content_type: Seq<char>)
    ensures
        encode_utf8(upload_head(metadata, content_type)) == encode_utf8("--"@ + boundary())
            + line_end() + encode_utf8("Content-Type: application/json; charset=UTF-8"@)
            + headers_end() + encode_utf8(metadata) + delimiter(boundary()) + line_end()
            + encode_utf8(
            "Content-Type: "@ + content_type,
        ) + headers_end(),
{
    let json = "Content-Type: application/json; charset=UTF-8"@;
    let typed = "Content-Type: "@ + content_type;
    let ending = "\r\n"@ + "--"@ + boundary();
    let one = "--"@ + boundary() + "\r\n"@;
    let two = one + json;
    let three = two + "\r\n\r\n"@;
    let four = three + metadata;
    let five = four + ending;
    let six = five + "\r\n"@;
    let seven = six + typed;
    assert(upload_head(metadata, content_type) =~= seven + "\r\n\r\n"@) by {
        reveal_strlit("Content-Type: application/json; charset=UTF-8\r\n\r\n");
        reveal_strlit("Content-Type: application/json; charset=UTF-8");
        reveal_strlit("\r\n\r\n");
        assert("Content-Type: application/json; charset=UTF-8\r\n\r\n"@ =~= json
            + "\r\n\r\n"@);
        lemma_regroup(
            one,
            json,
            "\r\n\r\n"@,
            metadata,
            "\r\n"@,
            "--"@,
            boundary(),
            "Content-Type: "@,
            content_type,
        );
    }
    lemma_marks();
    lemma_encoding_joins("--"@ + boundary(), "\r\n"@);
    lemma_encoding_joins(one, json);
    lemma_encoding_joins(two, "\r\n\r\n"@);
    lemma_encoding_joins(three, metadata);
    lemma_encoding_joins(four, ending);
    lemma_encoding_joins(five, "\r\n"@);
    lemma_encoding_joins(six, typed);
    lemma_encoding_joins(seven, "\r\n\r\n"@);
}

proof fn lemma_regroup(
    start: Seq<char>,
    json: Seq<char>,
    gap: Seq<char>,
    metadata: Seq<char>,
    end: Seq<char>,
    dashes: Seq<char>,
    name: Seq<char>,
    label: Seq<char>,
    value: Seq<char>,
)
    ensures
        start + (json + gap) + metadata + end + dashes + name + end + label + value + gap
            == start + json + gap + metadata + (end + dashes + name) + end + (label + value) + gap,
{
    assert(start + (json + gap) =~= start + json + gap);
    let four = start + json + gap + metadata;
    assert(four + end + dashes + name =~= four + (end + dashes + name));
    let six = four + (end + dashes + name) + end;
    assert(six + label + value =~= six + (label + value));
}

proof fn lemma_body_pieces(
    first: Seq<u8>,
    line: Seq<u8>,
    headers: Seq<u8>,
    gap: Seq<u8>,
    content: Seq<u8>,
    mark: Seq<u8>,
    closing: Seq<u8>,
)
    ensures
        (first + line + headers + gap) + content + (mark + closing) == first + (line + headers + gap
            + content + mark + closing),
{
    assert((first + line + headers + gap) + content + (mark + closing) =~= first + (line + headers
        + gap + content + mark + closing));
}

/// An upload is read back with the boundary that its content type names: there are
/// two parts and nothing else, the metadata as JSON and the content with its type,
/// byte for byte. Neither may hold a delimiter, and the content type is a single
/// line.
pub proof fn law_upload_reads_back(metadata: Seq<char>, content: Seq<u8>, content_type: Seq<char>)
    requires
        is_free_of_delimiters(encode_utf8(metadata)),
        is_free_of_delimiters(content),
        !content_type.contains('\r'),
    ensures
        named_boundary(upload_type()) == Some(boundary()),
        read_upload(upload_body(metadata, content, content_type), boundary()) == Some(
            seq![
                PartModel {
                    headers: encode_utf8("Content-Type: application/json; charset=UTF-8"@),
                    content: encode_utf8(metadata),
                },
                PartModel {
                    headers: encode_utf8("Content-Type: "@ + content_type),
                    content,
                },
            ],
        ),
{
    let opening = encode_utf8("--"@ + boundary());
    let json = "Content-Type: application/json; charset=UTF-8"@;
    let typed = "Content-Type: "@ + content_type;
    let mark = delimiter(boundary());
    let rest = line_end() + encode_utf8(typed) + headers_end() + content + mark + closing();
    let parts = line_end() + encode_utf8(json) + headers_end() + encode_utf8(metadata) + mark
        + rest;
    let body = upload_body(metadata, content, content_type);
    let start = "multipart/related; boundary="@;
    assert(start =~= upload_type().subrange(0, start.len() as int));
    assert(upload_type().skip(start.len() as int) =~= boundary());
    assert(!json.contains('\r')) by {
        reveal_strlit("Content-Type: application/json; charset=UTF-8");
    }
    assert(!typed.contains('\r')) by {
        reveal_strlit("Content-Type: ");
        if typed.contains('\r') {
            let k = choose|k: int| 0 <= k < typed.len() && typed[k] == '\r';
            assert(k >= 14);
            assert(content_type[k - 14] == '\r');
        }
    }
    lemma_no_return(json);
    lemma_no_return(typed);
    lemma_head_pieces(metadata, content_type);
    lemma_encoding_joins("\r\n"@ + "--"@ + boundary(), "--\r\n"@);
    lemma_body_pieces(
        opening + line_end() + encode_utf8(json) + headers_end() + encode_utf8(metadata) + mark,
        line_end(),
        encode_utf8(typed),
        headers_end(),
        content,
        mark,
        closing(),
    );
    lemma_opening(
        opening,
        line_end(),
        encode_utf8(json),
        headers_end(),
        encode_utf8(metadata),
        mark,
        rest,
    );
    assert(body == opening + parts);
    assert(body.subrange(0, opening.len() as int) =~= opening);
    assert(body.skip(opening.len() as int) =~= parts);
    lemma_part_reads_back(encode_utf8(json), encode_utf8(metadata), rest);
    lemma_part_reads_back(encode_utf8(typed), content, closing());
    let second = PartModel { headers: encode_utf8(typed), content };
    assert(seq![second] + Seq::<PartModel>::empty() =~= seq![second]);
}

proof fn lemma_opening(
    opening: Seq<u8>,
    line: Seq<u8>,
    headers: Seq<u8>,
    gap: Seq<u8>,
    content: Seq<u8>,
    mark: Seq<u8>,
    rest: Seq<u8>,
)
    ensures
        opening + line + headers + gap + content + mark + rest == opening + (line + headers + gap
            + content + mark + rest),
{
    assert(opening + line + headers + gap + content + mark + rest =~= opening + (line + headers
        + gap + content + mark + rest));
}

/// Reads an upload of two parts, the second of which runs up to the closing boundary
/// at the very end, whatever it holds.
pub open spec fn read_related(bytes: Seq<u8>, boundary: Seq<char>) -> Option<
    (PartModel, PartModel),
> {
    let opening = encode_utf8("--"@ + boundary);
    let end = delimiter(boundary) + closing();
    if opening.len() + end.len() <= bytes.len() && is_at(bytes, opening, 0) && is_at(
        bytes,
        end,
        bytes.len() - end.len(),
    ) {
        let inner = bytes.subrange(opening.len() as int, bytes.len() - end.len());
        match read_part(inner) {
            Some((headers, rest)) => match split_once(rest, delimiter(boundary)) {
                Some((content, after)) => match read_part(after) {
                    Some(second) => Some(
                        (
                            PartModel { headers, content },
                            PartModel { headers: second.0, content: second.1 },
                        ),
                    ),
                    None => None,
                },
                None => None,
            },
            None => None,
        }
    } else {
        None
    }
}

/// The headers of a part, and what follows them.
pub open spec fn read_part(bytes: Seq<u8>) -> Option<(Seq<u8>, Seq<u8>)> {
    if is_at(bytes, line_end(), 0) {
        split_once(bytes.skip(2), headers_end())
    } else {
        None
    }
}

proof fn lemma_read_part(headers: Seq<u8>, rest: Seq<u8>)
    requires
        forall|i: int| 0 <= i < headers.len() ==> headers[i] != 13,
    ensures
        read_part(line_end() + headers + headers_end() + rest) == Some((headers, rest)),
{
    let all = line_end() + headers + headers_end() + rest;
    assert(all.subrange(0, 2) =~= line_end());
    assert(all.skip(2) =~= headers + headers_end() + rest);
    lemma_split_plain(headers, headers_end(), rest);
}

/// An upload holds its content from the first byte to the last, whatever the bytes
/// are: read up to the boundary at its very end, the second part is the content,
/// with its type, and the first part is the metadata. The metadata and the content
/// type are single lines.
pub proof fn law_upload_holds_the_whole_content(
    metadata: Seq<char>,
    content: Seq<u8>,
    content_type: Seq<char>,
)
    requires
        !metadata.contains('\r'),
        !content_type.contains('\r'),
    ensures
        read_related(upload_body(metadata, content, content_type), boundary()) == Some(
            (
                PartModel {
                    headers: encode_utf8("Content-Type: application/json; charset=UTF-8"@),
                    content: encode_utf8(metadata),
                },
                PartModel { headers: encode_utf8("Content-Type: "@ + content_type), content },
            ),
        ),
{
    let opening = encode_utf8("--"@ + boundary());
    let json = encode_utf8("Content-Type: application/json; charset=UTF-8"@);
    let typed = encode_utf8("Content-Type: "@ + content_type);
    let told = encode_utf8(metadata);
    let mark = delimiter(boundary());
    let end = mark + closing();
    let after = line_end() + typed + headers_end() + content;
    let inner = line_end() + json + headers_end() + (told + mark + after);
    let body = upload_body(metadata, content, content_type);
    assert(!"Content-Type: application/json; charset=UTF-8"@.contains('\r')) by {
        reveal_strlit("Content-Type: application/json; charset=UTF-8");
    }
    assert(!("Content-Type: "@ + content_type).contains('\r')) by {
        reveal_strlit("Content-Type: ");
        let line = "Content-Type: "@ + content_type;
        if line.contains('\r') {
            let k = choose|k: int| 0 <= k < line.len() && line[k] == '\r';
            assert(k >= 14);
            assert(content_type[k - 14] == '\r');
        }
    }
    lemma_marks();
    lemma_no_return("Content-Type: application/json; charset=UTF-8"@);
    lemma_no_return("Content-Type: "@ + content_type);
    lemma_no_return(metadata);
    lemma_head_pieces(metadata, content_type);
    lemma_encoding_joins("\r\n"@ + "--"@ + boundary(), "--\r\n"@);
    assert(encode_utf8(upload_tail()) == end);
    let head = opening + line_end() + json + headers_end() + told + mark + line_end() + typed
        + headers_end();
    assert(head + content =~= opening + inner);
    assert(body == opening + inner + end);
    assert(body.subrange(0, opening.len() as int) =~= opening);
    assert(body.subrange(body.len() - end.len(), body.len() as int) =~= end);
    assert(body.subrange(opening.len() as int, body.len() - end.len()) =~= inner);
    lemma_read_part(json, told + mark + after);
    lemma_split_plain(told, mark, after);
    lemma_read_part(typed, content);
}

} // verus!
