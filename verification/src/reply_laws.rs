//! What the replies of Google are taken to say.
use crate::base64_text::base64_decoded;
use crate::drive_replies::{
    accepted, created_folder, deleted, described_file, described_files, exchanged_tokens,
    found_file, found_folder, is_markdown, listed_names, listed_page, markdown_names, media_bytes,
    media_text, refreshed_token, status_message, told_parent, told_time, DriveFileModel,
    FileRefModel, ListPageModel,
};
use crate::http::HttpReplyModel;
use crate::json::{json_parsed, list_member, text_member, Json};
use crate::json_laws::{is_under, law_members_are_read};
use crate::text::{decimal, has_suffix};
use crate::text_laws::{is_number, law_numbers_are_spelled, law_suffixes_end_the_text};
use crate::timestamp::rfc3339_millis;
use vstd::prelude::*;
use vstd::string::*;
use vstd::utf8::encode_utf8;

verus! {

// ---------------------------------------------------------------------------
// Refusals
// ---------------------------------------------------------------------------

/// The message tells what failed, the status in decimal, and the body of the reply.
pub open spec fn tells_refusal(message: Seq<char>, what: Seq<char>, reply: HttpReplyModel) -> bool {
    exists|digits: Seq<char>|
        is_number(digits, reply.status as nat) && message == #[trigger] (what + " ("@ + digits
            + "): "@ + reply.body)
}

proof fn lemma_refusal(what: Seq<char>, reply: HttpReplyModel)
    ensures
        tells_refusal(status_message(what, reply), what, reply),
{
    let digits = decimal(reply.status as nat);
    law_numbers_are_spelled(reply.status as nat);
    assert(status_message(what, reply) == what + " ("@ + digits + "): "@ + reply.body);
}

/// A request that Google refuses is answered with a message of what failed, the
/// status and the body. Four requests take a refusal otherwise: a folder that cannot
/// be searched for counts as not there, a file that cannot be found counts as
/// deleted, and of a file that nothing is told of neither the folder nor the time is
/// known.
pub proof fn law_refusals_are_told(reply: HttpReplyModel, what: Seq<char>)
    requires
        reply.status != 200,
    ensures
        found_file(reply) matches Err(message) && tells_refusal(
            message,
            "GDrive search failed"@,
            reply,
        ),
        listed_page(reply) matches Err(message) && tells_refusal(
            message,
            "GDrive list failed"@,
            reply,
        ),
        created_folder(reply) matches Err(message) && tells_refusal(
            message,
            "Create folder failed"@,
            reply,
        ),
        media_text(reply) matches Err(message) && tells_refusal(
            message,
            "GDrive read failed"@,
            reply,
        ),
        media_bytes(reply) matches Err(message) && tells_refusal(
            message,
            "GDrive read failed"@,
            reply,
        ),
        accepted(what, reply) matches Err(message) && tells_refusal(message, what, reply),
        refreshed_token(reply) matches Err(message) && tells_refusal(
            message,
            "Token refresh failed"@,
            reply,
        ),
        exchanged_tokens(reply) matches Err(message) && tells_refusal(
            message,
            "Token exchange failed"@,
            reply,
        ),
        match deleted(reply) {
            Ok(_) => reply.status == 204 || reply.status == 404,
            Err(message) => reply.status != 204 && reply.status != 404 && tells_refusal(
                message,
                "GDrive delete failed"@,
                reply,
            ),
        },
        found_folder(reply) == Ok::<Option<Seq<char>>, Seq<char>>(None),
        told_parent(reply) == Seq::<char>::empty(),
        told_time(reply) is None,
{
    lemma_refusal("GDrive search failed"@, reply);
    lemma_refusal("GDrive list failed"@, reply);
    lemma_refusal("Create folder failed"@, reply);
    lemma_refusal("GDrive read failed"@, reply);
    lemma_refusal(what, reply);
    lemma_refusal("Token refresh failed"@, reply);
    lemma_refusal("Token exchange failed"@, reply);
    lemma_refusal("GDrive delete failed"@, reply);
}

/// A reply that grants what was asked, and whose body is not looked at, is a
/// success, whatever the body is; so is a deletion.
pub proof fn law_granted_requests_succeed(reply: HttpReplyModel, what: Seq<char>)
    requires
        reply.status == 200,
    ensures
        accepted(what, reply) is Ok,
        deleted(reply) is Ok,
{
}

/// A reply that grants what was asked and whose body is no JSON is answered with
/// the parser's message, or tells nothing.
pub proof fn law_bodies_that_cannot_be_parsed(reply: HttpReplyModel, problem: Seq<char>)
    requires
        reply.status == 200,
        cannot_be_parsed(reply, problem),
    ensures
        found_file(reply) == Err::<Option<FileRefModel>, Seq<char>>(
            "Failed to parse search response: "@ + problem,
        ),
        found_folder(reply) == Err::<Option<Seq<char>>, Seq<char>>("parse: "@ + problem),
        listed_page(reply) == Err::<ListPageModel, Seq<char>>("parse: "@ + problem),
        created_folder(reply) == Err::<Seq<char>, Seq<char>>("parse: "@ + problem),
        refreshed_token(reply) == Err::<Seq<char>, Seq<char>>(
            "Failed to parse token response: "@ + problem,
        ),
        exchanged_tokens(reply) == Err::<(Seq<char>, Seq<char>), Seq<char>>(
            "Failed to parse token response: "@ + problem,
        ),
        told_parent(reply) == Seq::<char>::empty(),
        told_time(reply) is None,
{
}

/// The body of the reply is no JSON, and the parser says why.
pub open spec fn cannot_be_parsed(reply: HttpReplyModel, problem: Seq<char>) -> bool {
    json_parsed(reply.body) == Err::<Json, Seq<char>>(problem)
}

// ---------------------------------------------------------------------------
// Documents
// ---------------------------------------------------------------------------

/// The reply grants what was asked, with a document.
pub open spec fn grants(reply: HttpReplyModel, document: Json) -> bool {
    reply.status == 200 && json_parsed(reply.body) == Ok::<Json, Seq<char>>(document)
}

/// The files of a document are these.
pub open spec fn lists_files(document: Json, items: Seq<Json>) -> bool {
    is_under(document, "files"@, Json::List(items))
}

/// There is a text under the key.
pub open spec fn has_text(document: Json, key: Seq<char>) -> bool {
    exists|text: Seq<char>| #[trigger] is_under(document, key, Json::Text(text))
}

proof fn lemma_no_text(document: Json, key: Seq<char>)
    ensures
        text_member(document, key) is Some <==> has_text(document, key),
{
    law_members_are_read(document, key);
    if let Some(text) = text_member(document, key) {
        assert(is_under(document, key, Json::Text(text)));
    }
}

proof fn lemma_described(document: Json, items: Seq<Json>)
    requires
        lists_files(document, items),
    ensures
        described_files(document) matches Some(files) && files.len() == items.len() && forall|i: int|
            0 <= i < items.len() ==> #[trigger] files[i] == described_file(items[i]),
{
    law_members_are_read(document, "files"@);
}

/// A search finds the first of the files that the reply lists, by its id, and it is
/// a folder exactly where its type says so. It finds nothing where none is listed.
pub proof fn law_the_first_file_is_found(
    reply: HttpReplyModel,
    document: Json,
    items: Seq<Json>,
    id: Seq<char>,
)
    requires
        grants(reply, document),
        lists_files(document, items),
    ensures
        items.len() == 0 ==> found_file(reply) == Ok::<Option<FileRefModel>, Seq<char>>(None)
            && found_folder(reply) == Ok::<Option<Seq<char>>, Seq<char>>(None),
        items.len() > 0 && is_under(items[0], "id"@, Json::Text(id)) ==> {
            &&& found_file(reply) == Ok::<Option<FileRefModel>, Seq<char>>(
                Some(
                    FileRefModel {
                        id,
                        is_folder: is_under(
                            items[0],
                            "mimeType"@,
                            Json::Text("application/vnd.google-apps.folder"@),
                        ),
                    },
                ),
            )
            &&& found_folder(reply) == Ok::<Option<Seq<char>>, Seq<char>>(Some(id))
        },
        items.len() > 0 && !has_text(items[0], "id"@) ==> found_file(reply) == Err::<
            Option<FileRefModel>,
            Seq<char>,
        >("No file ID"@) && found_folder(reply) == Ok::<Option<Seq<char>>, Seq<char>>(None),
{
    lemma_described(document, items);
    if items.len() > 0 {
        law_members_are_read(items[0], "id"@);
        law_members_are_read(items[0], "mimeType"@);
        lemma_no_text(items[0], "id"@);
        let files = described_files(document)->Some_0;
        assert(files[0] == described_file(items[0]));
    }
}

/// A reply without a list of files is told so; a folder that is searched for counts
/// as not there.
pub proof fn law_replies_without_files(reply: HttpReplyModel, document: Json)
    requires
        grants(reply, document),
        forall|items: Seq<Json>| !(#[trigger] lists_files(document, items)),
    ensures
        found_file(reply) == Err::<Option<FileRefModel>, Seq<char>>("No files array in response"@),
        found_folder(reply) == Ok::<Option<Seq<char>>, Seq<char>>(None),
        listed_page(reply) == Err::<ListPageModel, Seq<char>>("No files array"@),
{
    law_members_are_read(document, "files"@);
    if let Some(items) = list_member(document, "files"@) {
        assert(lists_files(document, items));
    }
}

/// The names are those of the items that have one, in order: each of them stands
/// under `name` of an item, the items follow each other, and no item with a name is
/// left out.
pub open spec fn are_names_of(names: Seq<Seq<char>>, items: Seq<Json>, at: Seq<int>) -> bool {
    &&& at.len() == names.len()
    &&& forall|k: int|
        0 <= k < at.len() ==> 0 <= #[trigger] at[k] < items.len() && is_under(
            items[at[k]],
            "name"@,
            Json::Text(names[k]),
        )
    &&& forall|k: int, l: int| 0 <= k < l < at.len() ==> #[trigger] at[k] < #[trigger] at[l]
    &&& forall|i: int|
        0 <= i < items.len() && has_text(#[trigger] items[i], "name"@) ==> at.contains(i)
}

spec fn listed_at(items: Seq<Json>) -> Seq<int>
    decreases items.len(),
{
    if items.len() == 0 {
        Seq::empty()
    } else {
        let before = listed_at(items.drop_last());
        if has_text(items.last(), "name"@) {
            before.push(items.len() - 1)
        } else {
            before
        }
    }
}

proof fn lemma_listed(items: Seq<Json>, files: Seq<DriveFileModel>)
    requires
        files.len() == items.len(),
        forall|i: int| 0 <= i < items.len() ==> #[trigger] files[i] == described_file(items[i]),
    ensures
        are_names_of(listed_names(files), items, listed_at(items)),
    decreases items.len(),
{
    if items.len() > 0 {
        let fewer = items.drop_last();
        let rest = files.drop_last();
        assert forall|i: int| 0 <= i < fewer.len() implies #[trigger] rest[i] == described_file(
            fewer[i],
        ) by {
            assert(files[i] == described_file(items[i]));
        }
        lemma_listed(fewer, rest);
        let last = items.last();
        law_members_are_read(last, "name"@);
        lemma_no_text(last, "name"@);
        assert(files[files.len() - 1] == described_file(last));
        let before = listed_at(fewer);
        let at = listed_at(items);
        let names = listed_names(files);
        assert forall|k: int| 0 <= k < at.len() implies 0 <= #[trigger] at[k] < items.len()
            && is_under(items[at[k]], "name"@, Json::Text(names[k])) by {
            if k < before.len() {
                assert(0 <= before[k] < fewer.len());
                assert(items[before[k]] == fewer[before[k]]);
            }
        }
        assert forall|k: int, l: int| 0 <= k < l < at.len() implies #[trigger] at[k]
            < #[trigger] at[l] by {
            assert(0 <= before[k] < fewer.len());
        }
        assert forall|i: int| 0 <= i < items.len() && has_text(
            #[trigger] items[i],
            "name"@,
        ) implies at.contains(i) by {
            if i < fewer.len() {
                assert(has_text(fewer[i], "name"@));
                assert(before.contains(i));
                let k = choose|k: int| 0 <= k < before.len() && before[k] == i;
                assert(at[k] == i);
            } else {
                assert(at[at.len() - 1] == i);
            }
        }
    }
}

/// A page of a listing holds the name of every item that has one, in order, whatever
/// the names are, and the token of the next page where the document tells one.
pub proof fn law_pages_hold_every_name(reply: HttpReplyModel, document: Json, items: Seq<Json>)
    requires
        grants(reply, document),
        lists_files(document, items),
    ensures
        listed_page(reply) matches Ok(page) && {
            &&& exists|at: Seq<int>| are_names_of(page.names, items, at)
            &&& forall|token: Seq<char>|
                page.token == Some(token) <==> #[trigger] is_under(
                    document,
                    "nextPageToken"@,
                    Json::Text(token),
                )
        },
{
    lemma_described(document, items);
    let files = described_files(document)->Some_0;
    lemma_listed(items, files);
    law_members_are_read(document, "nextPageToken"@);
    let page = listed_page(reply)->Ok_0;
    assert(are_names_of(page.names, items, listed_at(items)));
}

/// A page of items that all have a name holds as many names, each that of its item.
pub proof fn law_pages_of_named_items(
    reply: HttpReplyModel,
    document: Json,
    items: Seq<Json>,
    names: Seq<Seq<char>>,
)
    requires
        grants(reply, document),
        lists_files(document, items),
        items.len() == names.len(),
        forall|i: int|
            0 <= i < items.len() ==> is_under(#[trigger] items[i], "name"@, Json::Text(names[i])),
    ensures
        listed_page(reply) matches Ok(page) && page.names == names,
{
    lemma_described(document, items);
    let files = described_files(document)->Some_0;
    lemma_all_named(items, files, names);
}

proof fn lemma_all_named(items: Seq<Json>, files: Seq<DriveFileModel>, names: Seq<Seq<char>>)
    requires
        files.len() == items.len() == names.len(),
        forall|i: int| 0 <= i < items.len() ==> #[trigger] files[i] == described_file(items[i]),
        forall|i: int|
            0 <= i < items.len() ==> is_under(#[trigger] items[i], "name"@, Json::Text(names[i])),
    ensures
        listed_names(files) == names,
    decreases items.len(),
{
    if items.len() > 0 {
        let fewer = items.drop_last();
        let rest = files.drop_last();
        let others = names.drop_last();
        assert forall|i: int| 0 <= i < fewer.len() implies #[trigger] rest[i] == described_file(
            fewer[i],
        ) by {
            assert(files[i] == described_file(items[i]));
        }
        assert forall|i: int| 0 <= i < fewer.len() implies is_under(
            #[trigger] fewer[i],
            "name"@,
            Json::Text(others[i]),
        ) by {
            assert(is_under(items[i], "name"@, Json::Text(names[i])));
        }
        lemma_all_named(fewer, rest, others);
        let last = items.len() - 1;
        law_members_are_read(items[last], "name"@);
        assert(is_under(items[last], "name"@, Json::Text(names[last])));
        assert(files[last] == described_file(items[last]));
        assert(names =~= others.push(names[last]));
    } else {
        assert(names =~= Seq::empty());
    }
}

/// Of the names those are kept that end in `.md`, all of them and in order: it is
/// decided name by name.
pub proof fn law_markdown_is_decided_name_by_name(
    one: Seq<Seq<char>>,
    two: Seq<Seq<char>>,
    name: Seq<char>,
    start: Seq<char>,
)
    ensures
        markdown_names(one + two) == markdown_names(one) + markdown_names(two),
        markdown_names(Seq::empty()) == Seq::<Seq<char>>::empty(),
        markdown_names(seq![start + ".md"@]) == seq![start + ".md"@],
        (name.len() < 3 || name[name.len() - 3] != '.' || name[name.len() - 2] != 'm'
            || name[name.len() - 1] != 'd') ==> markdown_names(seq![name]) == Seq::<
            Seq<char>,
        >::empty(),
{
    Seq::filter_distributes_over_add(one, two, is_markdown());
    reveal(Seq::filter);
    reveal_strlit(".md");
    let none = Seq::<Seq<char>>::empty();
    assert(none.filter(is_markdown()) =~= none);
    let kept = start + ".md"@;
    law_suffixes_end_the_text(kept, ".md"@);
    assert(seq![kept].drop_last() =~= none);
    assert(is_markdown()(kept));
    assert(seq![kept].filter(is_markdown()) =~= seq![kept]);
    assert(seq![name].drop_last() =~= none);
    if has_suffix(name, ".md"@) {
        let end = name.skip(name.len() - 3);
        assert(end[0] == name[name.len() - 3]);
        assert(end[1] == name[name.len() - 2]);
        assert(end[2] == name[name.len() - 1]);
    }
}

/// A folder that was created is known by the id that the reply tells, and a reply
/// that tells none is told so.
pub proof fn law_created_folders_are_known_by_their_ids(
    reply: HttpReplyModel,
    document: Json,
    id: Seq<char>,
)
    requires
        grants(reply, document),
    ensures
        created_folder(reply) == Ok::<Seq<char>, Seq<char>>(id) <==> is_under(
            document,
            "id"@,
            Json::Text(id),
        ),
        !has_text(document, "id"@) ==> created_folder(reply) == Err::<Seq<char>, Seq<char>>(
            "No id in create folder response"@,
        ),
{
    law_members_are_read(document, "id"@);
    lemma_no_text(document, "id"@);
}

/// A file is in the first of the folders that the reply lists, and in none that is
/// known where it lists none.
pub proof fn law_the_first_parent_is_told(
    reply: HttpReplyModel,
    document: Json,
    parents: Seq<Json>,
    parent: Seq<char>,
)
    requires
        grants(reply, document),
    ensures
        is_under(document, "parents"@, Json::List(parents)) && parents.len() > 0 && parents[0]
            == Json::Text(parent) ==> told_parent(reply) == parent,
        is_under(document, "parents"@, Json::List(parents)) && (parents.len() == 0 || !(parents[0]
            is Text)) ==> told_parent(reply).len() == 0,
        (forall|items: Seq<Json>|
            !(#[trigger] is_under(document, "parents"@, Json::List(items)))) ==> told_parent(
            reply,
        ).len() == 0,
{
    law_members_are_read(document, "parents"@);
    if let Some(items) = list_member(document, "parents"@) {
        assert(is_under(document, "parents"@, Json::List(items)));
    }
}

/// The time of the last change is the one that the reply tells; none where it tells
/// no text.
pub proof fn law_the_time_is_the_one_told(reply: HttpReplyModel, document: Json, text: Seq<char>)
    requires
        grants(reply, document),
    ensures
        is_under(document, "modifiedTime"@, Json::Text(text)) ==> told_time(reply)
            == rfc3339_millis(text),
        !has_text(document, "modifiedTime"@) ==> told_time(reply) is None,
{
    law_members_are_read(document, "modifiedTime"@);
    lemma_no_text(document, "modifiedTime"@);
}

/// The content of a file is the body of the reply: as text the text, as bytes what
/// the base64 stands for where there is any, and otherwise the text in UTF-8.
pub proof fn law_content_is_the_body(reply: HttpReplyModel, encoded: Seq<char>)
    requires
        reply.status == 200,
    ensures
        media_text(reply) == Ok::<Seq<char>, Seq<char>>(reply.body),
        reply.body_base64 is None ==> media_bytes(reply) == Ok::<Seq<u8>, Seq<char>>(
            encode_utf8(reply.body),
        ),
        reply.body_base64 == Some(encoded) ==> match base64_decoded(encoded) {
            Ok(inner) => media_bytes(reply) == Ok::<Seq<u8>, Seq<char>>(inner),
            Err(problem) => media_bytes(reply) == Err::<Seq<u8>, Seq<char>>(
                "Failed to decode response body: "@ + problem,
            ),
        },
{
}

/// The tokens are those that the reply tells, the access token alone when it is
/// refreshed and both when a code is exchanged; a token that is missing is told so,
/// the access token first.
pub proof fn law_tokens_are_the_ones_told(
    reply: HttpReplyModel,
    document: Json,
    access: Seq<char>,
    refresh: Seq<char>,
)
    requires
        grants(reply, document),
    ensures
        is_under(document, "access_token"@, Json::Text(access)) ==> {
            &&& refreshed_token(reply) == Ok::<Seq<char>, Seq<char>>(access)
            &&& is_under(document, "refresh_token"@, Json::Text(refresh)) ==> exchanged_tokens(
                reply,
            ) == Ok::<(Seq<char>, Seq<char>), Seq<char>>((access, refresh))
            &&& !has_text(document, "refresh_token"@) ==> exchanged_tokens(reply) == Err::<
                (Seq<char>, Seq<char>),
                Seq<char>,
            >("No refresh_token in response"@)
        },
        !has_text(document, "access_token"@) ==> {
            &&& refreshed_token(reply) == Err::<Seq<char>, Seq<char>>(
                "No access_token in response"@,
            )
            &&& exchanged_tokens(reply) == Err::<(Seq<char>, Seq<char>), Seq<char>>(
                "No access_token in response"@,
            )
        },
{
    law_members_are_read(document, "access_token"@);
    law_members_are_read(document, "refresh_token"@);
    lemma_no_text(document, "access_token"@);
    lemma_no_text(document, "refresh_token"@);
}

} // verus!
