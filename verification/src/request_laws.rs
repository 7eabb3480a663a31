//! What the requests to Google say to the server that reads them.
use crate::config::ConfigModel;
use crate::drive_requests::{
    children_query, create_file_model, create_folder_model, delete_model, exchange_form,
    file_metadata, find_file_model, find_folder_model, folder_metadata, folder_query, list_model,
    list_options, media_model, modified_model, move_model, name_query, parents_model, refresh_form,
    search_url, token_model, update_model, verified_exchange_form, API_BASE, FOLDER_MIME,
    UPLOAD_BASE,
};
use crate::encoding::{escaped, law_escaped_literal_reads_back, uri_encoded};
use crate::encoding_laws::law_plain_values_stay;
use crate::http::{BodyModel, HttpRequestModel, Method};
use crate::json::{json_text, record, Json};
use crate::json_laws::{lemma_one_entry, lemma_three_entries, lemma_two_entries};
use crate::multipart::{
    boundary, law_upload_holds_the_whole_content, named_boundary, read_related, upload_type,
};
use crate::wire::{
    behind, law_cut_is_at_the_first_mark, law_encoded_values_are_read_back,
    law_parameters_are_read_in_order, lemma_ahead, lemma_behind, pairs, plain_text, read_query,
    read_scope, read_target, SearchModel, TargetModel,
};
use vstd::prelude::*;
use vstd::string::*;
use vstd::utf8::*;

verus! {

// ---------------------------------------------------------------------------
// Who asks
// ---------------------------------------------------------------------------

/// The request carries the access token, the type of its content where it has one,
/// and no other header.
pub open spec fn is_signed(
    request: HttpRequestModel,
    token: Seq<char>,
    content_type: Option<Seq<char>>,
) -> bool {
    &&& request.headers.len() == if content_type is Some {
        2nat
    } else {
        1
    }
    &&& request.headers[0].0 == "Authorization"@
    &&& behind(request.headers[0].1, "Bearer "@) == Some(token)
    &&& content_type matches Some(inner) ==> request.headers[1] == ("Content-Type"@, inner)
}

proof fn lemma_bearer(token: Seq<char>)
    ensures
        behind("Bearer "@ + token, "Bearer "@) == Some(token),
{
    lemma_behind("Bearer "@, token);
}

// ---------------------------------------------------------------------------
// Searches
// ---------------------------------------------------------------------------

proof fn lemma_scope(parent: Seq<char>)
    ensures
        read_scope(parent + "' in parents and trashed = false"@) == Some((parent, false)),
        read_scope(
            parent
                + "' in parents and mimeType = 'application/vnd.google-apps.folder' and trashed = false"@,
        ) == Some((parent, true)),
{
    let any = "' in parents and trashed = false"@;
    let folders =
        "' in parents and mimeType = 'application/vnd.google-apps.folder' and trashed = false"@;
    lemma_ahead(parent, any);
    lemma_ahead(parent, folders);
    reveal_strlit("' in parents and trashed = false");
    reveal_strlit(
        "' in parents and mimeType = 'application/vnd.google-apps.folder' and trashed = false",
    );
    let text = parent + folders;
    let end = text.skip(text.len() - any.len());
    assert(end[0] == folders[folders.len() - any.len()]);
    assert(end[0] != any[0]);
}

/// The query that is sent to find a file reads as the search for that name in that
/// folder, whatever the name is, and the one for a folder as that for folders only.
/// The query that is sent to list a folder reads as the search for anything in it.
pub proof fn law_queries_are_understood(parent: Seq<char>, name: Seq<char>)
    ensures
        read_query(name_query(parent, name)) == Some(
            SearchModel { parent, name: Some(name), folders_only: false },
        ),
        read_query(folder_query(parent, name)) == Some(
            SearchModel { parent, name: Some(name), folders_only: true },
        ),
        read_query(children_query(parent)) == Some(
            SearchModel { parent, name: None, folders_only: false },
        ),
{
    let opening = "name = '"@;
    let between = " and '"@;
    let any = "' in parents and trashed = false"@;
    let folders =
        "' in parents and mimeType = 'application/vnd.google-apps.folder' and trashed = false"@;
    lemma_scope(parent);
    reveal_strlit("name = '");
    reveal_strlit(" and '");
    reveal_strlit("' and '");
    reveal_strlit("'");
    assert("' and '"@ =~= seq!['\''] + between);
    assert(folders =~= "' in parents and mimeType = '"@ + FOLDER_MIME@ + "' and trashed = false"@)
        by {
        reveal_strlit(
            "' in parents and mimeType = 'application/vnd.google-apps.folder' and trashed = false",
        );
        reveal_strlit("' in parents and mimeType = '");
        reveal_strlit("application/vnd.google-apps.folder");
        reveal_strlit("' and trashed = false");
    }
    let first = escaped(name) + seq!['\''] + (between + (parent + any));
    assert(name_query(parent, name) =~= opening + first);
    lemma_behind(opening, first);
    law_escaped_literal_reads_back(name, between + (parent + any));
    lemma_behind(between, parent + any);
    let second = escaped(name) + seq!['\''] + (between + (parent + folders));
    assert(folder_query(parent, name) =~= opening + second);
    lemma_behind(opening, second);
    law_escaped_literal_reads_back(name, between + (parent + folders));
    lemma_behind(between, parent + folders);
    let third = parent + any;
    assert("'"@ =~= seq!['\'']);
    assert(children_query(parent) =~= "'"@ + third);
    lemma_behind("'"@, third);
    assert(children_query(parent)[0] == '\'');
    if opening.len() <= children_query(parent).len() {
        assert(children_query(parent).take(opening.len() as int)[0] == '\'');
    }
}

/// The URL of a search goes to the files of Google Drive, with the query first and
/// the options after it.
proof fn lemma_search_target(query: Seq<char>, options: Seq<char>)
    ensures
        read_target(search_url(query, seq!['&'] + options)) == (TargetModel {
            place: "https://www.googleapis.com/drive/v3/files"@,
            parameters: seq![("q"@, uri_encoded(query))] + pairs(options),
        }),
        read_target(search_url(query, seq!['&'] + options)).parameters.len() > 0,
{
    let place = "https://www.googleapis.com/drive/v3/files"@;
    let rest = "q"@ + seq!['='] + uri_encoded(query) + seq!['&'] + options;
    reveal_strlit("https://www.googleapis.com/drive/v3/files");
    reveal_strlit("https://www.googleapis.com/drive/v3");
    reveal_strlit("/files?q=");
    reveal_strlit("q");
    assert(API_BASE@ + "/files?q="@ =~= place + seq!['?'] + "q"@ + seq!['=']);
    assert(search_url(query, seq!['&'] + options) =~= place + seq!['?'] + rest);
    assert(!place.contains('?'));
    law_cut_is_at_the_first_mark(place, '?', rest);
    law_encoded_values_are_read_back(query);
    law_parameters_are_read_in_order("q"@, uri_encoded(query), options);
}

/// A request for what stands in a folder: a GET on the files of Google Drive with
/// a query that reads as the search, and with the other parameters.
pub open spec fn is_search(
    request: HttpRequestModel,
    search: SearchModel,
    others: Seq<(Seq<char>, Seq<char>)>,
) -> bool {
    let target = read_target(request.url);
    &&& request.method == Method::Get
    &&& request.body == BodyModel::Empty
    &&& target.place == "https://www.googleapis.com/drive/v3/files"@
    &&& target.parameters.len() > 0
    &&& target.parameters[0].0 == "q"@
    &&& read_query(plain_text(target.parameters[0].1)) == Some(search)
    &&& target.parameters.skip(1) == others
}

proof fn lemma_is_search(
    request: HttpRequestModel,
    search: SearchModel,
    query: Seq<char>,
    options: Seq<char>,
)
    requires
        request.method == Method::Get,
        request.body == BodyModel::Empty,
        request.url == search_url(query, seq!['&'] + options),
        read_query(query) == Some(search),
    ensures
        is_search(request, search, pairs(options)),
{
    lemma_search_target(query, options);
    law_encoded_values_are_read_back(query);
    let found = read_target(request.url).parameters;
    assert(found.skip(1) =~= pairs(options));
}

/// One file is asked for by its name and its folder, and its id and its type are to
/// be told; one folder by its name and its folder, and its id is to be told.
pub proof fn law_searches_ask_for_the_name_in_the_folder(
    config: ConfigModel,
    parent: Seq<char>,
    name: Seq<char>,
)
    ensures
        is_search(
            find_file_model(config, parent, name),
            SearchModel { parent, name: Some(name), folders_only: false },
            seq![("fields"@, "files(id,mimeType)"@), ("pageSize"@, "1"@)],
        ),
        is_search(
            find_folder_model(config, parent, name),
            SearchModel { parent, name: Some(name), folders_only: true },
            seq![("fields"@, "files(id)"@), ("pageSize"@, "1"@)],
        ),
        is_signed(find_file_model(config, parent, name), config.access_token, None),
        is_signed(find_folder_model(config, parent, name), config.access_token, None),
{
    law_queries_are_understood(parent, name);
    lemma_bearer(config.access_token);
    reveal_strlit("fields");
    reveal_strlit("pageSize");
    reveal_strlit("1");
    let last = "pageSize"@ + seq!['='] + "1"@;
    law_parameters_are_read_in_order("pageSize"@, "1"@, Seq::empty());
    let files = "fields"@ + seq!['='] + "files(id,mimeType)"@ + seq!['&'] + last;
    reveal_strlit("files(id,mimeType)");
    reveal_strlit("&fields=files(id,mimeType)&pageSize=1");
    assert("&fields=files(id,mimeType)&pageSize=1"@ =~= seq!['&'] + files);
    law_parameters_are_read_in_order("fields"@, "files(id,mimeType)"@, last);
    assert(pairs(files) =~= seq![("fields"@, "files(id,mimeType)"@), ("pageSize"@, "1"@)]);
    lemma_is_search(
        find_file_model(config, parent, name),
        SearchModel { parent, name: Some(name), folders_only: false },
        name_query(parent, name),
        files,
    );
    let folders = "fields"@ + seq!['='] + "files(id)"@ + seq!['&'] + last;
    reveal_strlit("files(id)");
    reveal_strlit("&fields=files(id)&pageSize=1");
    assert("&fields=files(id)&pageSize=1"@ =~= seq!['&'] + folders);
    law_parameters_are_read_in_order("fields"@, "files(id)"@, last);
    assert(pairs(folders) =~= seq![("fields"@, "files(id)"@), ("pageSize"@, "1"@)]);
    lemma_is_search(
        find_folder_model(config, parent, name),
        SearchModel { parent, name: Some(name), folders_only: true },
        folder_query(parent, name),
        folders,
    );
}

/// The names in a folder are asked for a thousand at a time, with the token of the
/// next page; a later page by the token that was told.
pub proof fn law_listings_ask_for_the_page(
    config: ConfigModel,
    parent: Seq<char>,
    token: Option<Seq<char>>,
)
    ensures
        is_signed(list_model(config, parent, token), config.access_token, None),
        ({
            let others = read_target(list_model(config, parent, token).url).parameters.skip(1);
            &&& is_search(
                list_model(config, parent, token),
                SearchModel { parent, name: None, folders_only: false },
                others,
            )
            &&& others.take(2) == seq![
                ("fields"@, "nextPageToken,files(name)"@),
                ("pageSize"@, "1000"@),
            ]
            &&& match token {
                None => others.len() == 2,
                Some(page) => others.len() == 3 && others[2].0 == "pageToken"@ && plain_text(
                    others[2].1,
                ) == page,
            }
        }),
{
    law_queries_are_understood(parent, Seq::empty());
    lemma_bearer(config.access_token);
    reveal_strlit("fields");
    reveal_strlit("pageSize");
    reveal_strlit("1000");
    reveal_strlit("nextPageToken,files(name)");
    reveal_strlit("&fields=nextPageToken,files(name)&pageSize=1000");
    let start = "fields"@ + seq!['='] + "nextPageToken,files(name)"@;
    let size = "pageSize"@ + seq!['='] + "1000"@;
    assert("&fields=nextPageToken,files(name)&pageSize=1000"@ =~= seq!['&'] + (start + seq!['&']
        + size));
    let search = SearchModel { parent, name: None::<Seq<char>>, folders_only: false };
    let request = list_model(config, parent, token);
    match token {
        None => {
            law_parameters_are_read_in_order("pageSize"@, "1000"@, Seq::empty());
            law_parameters_are_read_in_order("fields"@, "nextPageToken,files(name)"@, size);
            lemma_is_search(request, search, children_query(parent), start + seq!['&'] + size);
            assert(pairs(start + seq!['&'] + size).take(2) =~= seq![
                ("fields"@, "nextPageToken,files(name)"@),
                ("pageSize"@, "1000"@),
            ]);
        },
        Some(page) => {
            reveal_strlit("pageToken");
            reveal_strlit("&pageToken=");
            assert("&pageToken="@ =~= seq!['&'] + "pageToken"@ + seq!['=']);
            let value = uri_encoded(page);
            let last = "pageToken"@ + seq!['='] + value;
            let tail = size + seq!['&'] + last;
            let options = start + seq!['&'] + tail;
            law_encoded_values_are_read_back(page);
            law_parameters_are_read_in_order("pageToken"@, value, Seq::empty());
            law_parameters_are_read_in_order("pageSize"@, "1000"@, last);
            law_parameters_are_read_in_order("fields"@, "nextPageToken,files(name)"@, tail);
            assert(list_options(token) =~= seq!['&'] + options);
            lemma_is_search(request, search, children_query(parent), options);
            assert(pairs(options) =~= seq![
                ("fields"@, "nextPageToken,files(name)"@),
                ("pageSize"@, "1000"@),
                ("pageToken"@, value),
            ]);
            assert(pairs(options).take(2) =~= seq![
                ("fields"@, "nextPageToken,files(name)"@),
                ("pageSize"@, "1000"@),
            ]);
        },
    }
}

// ---------------------------------------------------------------------------
// Files
// ---------------------------------------------------------------------------

/// A request on the file with an id: the URL holds the id as it is, behind the files
/// of Google Drive, and then the rest.
pub open spec fn is_on_file(
    request: HttpRequestModel,
    method: Method,
    id: Seq<char>,
    rest: Seq<char>,
) -> bool {
    &&& request.method == method
    &&& behind(request.url, "https://www.googleapis.com/drive/v3/files/"@) == Some(id + rest)
}

proof fn lemma_file_url(id: Seq<char>, rest: Seq<char>)
    ensures
        behind(
            API_BASE@ + "/files/"@ + id + rest,
            "https://www.googleapis.com/drive/v3/files/"@,
        ) == Some(id + rest),
{
    let start = "https://www.googleapis.com/drive/v3/files/"@;
    reveal_strlit("https://www.googleapis.com/drive/v3/files/");
    reveal_strlit("https://www.googleapis.com/drive/v3");
    reveal_strlit("/files/");
    assert(API_BASE@ + "/files/"@ =~= start);
    assert(API_BASE@ + "/files/"@ + id + rest =~= start + (id + rest));
    lemma_behind(start, id + rest);
}

/// The content of a file, its folders and the time of its last change are asked for
/// by its id, and a file is deleted by its id. None of these requests has a body.
pub proof fn law_files_are_asked_for_by_id(config: ConfigModel, id: Seq<char>)
    ensures
        is_on_file(media_model(config, id), Method::Get, id, "?alt=media"@),
        is_on_file(parents_model(config, id), Method::Get, id, "?fields=parents"@),
        is_on_file(modified_model(config, id), Method::Get, id, "?fields=modifiedTime"@),
        is_on_file(delete_model(config, id), Method::Delete, id, Seq::empty()),
        media_model(config, id).body == BodyModel::Empty,
        parents_model(config, id).body == BodyModel::Empty,
        modified_model(config, id).body == BodyModel::Empty,
        delete_model(config, id).body == BodyModel::Empty,
        is_signed(media_model(config, id), config.access_token, None),
        is_signed(parents_model(config, id), config.access_token, None),
        is_signed(modified_model(config, id), config.access_token, None),
        is_signed(delete_model(config, id), config.access_token, None),
{
    lemma_bearer(config.access_token);
    lemma_file_url(id, "?alt=media"@);
    lemma_file_url(id, "?fields=parents"@);
    lemma_file_url(id, "?fields=modifiedTime"@);
    lemma_file_url(id, Seq::empty());
    assert(API_BASE@ + "/files/"@ + id + Seq::<char>::empty() =~= API_BASE@ + "/files/"@ + id);
}

/// The content of a file is replaced by its id, and what is sent is the content,
/// byte for byte and of whatever length, with its type. So requests that set
/// different contents differ.
pub proof fn law_updates_send_the_whole_content(
    config: ConfigModel,
    id: Seq<char>,
    content: Seq<u8>,
    content_type: Seq<char>,
)
    ensures
        ({
            let request = update_model(config, id, content, content_type);
            &&& request.method == Method::Patch
            &&& behind(request.url, "https://www.googleapis.com/upload/drive/v3/files/"@) == Some(
                id + "?uploadType=media"@,
            )
            &&& request.body matches BodyModel::Bytes(sent) && sent.len() == content.len()
                && forall|i: int| 0 <= i < sent.len() ==> sent[i] == content[i]
            &&& is_signed(request, config.access_token, Some(content_type))
        }),
        forall|other: Seq<u8>|
            other != content ==> #[trigger] update_model(config, id, other, content_type)
                != update_model(config, id, content, content_type),
{
    lemma_bearer(config.access_token);
    let start = "https://www.googleapis.com/upload/drive/v3/files/"@;
    let rest = id + "?uploadType=media"@;
    reveal_strlit("https://www.googleapis.com/upload/drive/v3/files/");
    reveal_strlit("https://www.googleapis.com/upload/drive/v3");
    reveal_strlit("/files/");
    assert(UPLOAD_BASE@ + "/files/"@ =~= start);
    assert(UPLOAD_BASE@ + "/files/"@ + id + "?uploadType=media"@ =~= start + rest);
    lemma_behind(start, rest);
    assert forall|other: Seq<u8>| other != content implies #[trigger] update_model(
        config,
        id,
        other,
        content_type,
    ) != update_model(config, id, content, content_type) by {
        let one = update_model(config, id, other, content_type);
        let two = update_model(config, id, content, content_type);
        assert(one.body->Bytes_0 == other);
        assert(two.body->Bytes_0 == content);
    }
}

// ---------------------------------------------------------------------------
// Documents in a body
// ---------------------------------------------------------------------------

/// A document of texts, and of lists and records of them, so deep.
pub open spec fn is_worded(document: Json, depth: nat) -> bool
    decreases depth,
{
    match document {
        Json::Text(_) => true,
        Json::List(items) => depth > 0 && forall|i: int|
            0 <= i < items.len() ==> is_worded(#[trigger] items[i], (depth - 1) as nat),
        Json::Record(held) => depth > 0 && held.dom().finite() && forall|key: Seq<char>|
            held.contains_key(key) ==> is_worded(#[trigger] held[key], (depth - 1) as nat),
        _ => false,
    }
}

/// A reader of JSON that gives the documents of texts back that were written, from
/// texts without a line break.
pub open spec fn reads_json(read: spec_fn(Seq<char>) -> Option<Json>) -> bool {
    forall|document: Json|
        is_worded(document, 4) ==> read(#[trigger] json_text(document)) == Some(document)
            && !json_text(document).contains('\r')
}

/// The text reads as a record with these members, and no others.
pub open spec fn tells(
    read: spec_fn(Seq<char>) -> Option<Json>,
    text: Seq<char>,
    told: Map<Seq<char>, Json>,
) -> bool {
    read(text) matches Some(Json::Record(held)) && held =~= told
}

/// The members that tell of something new in a folder: its name and its folder.
pub open spec fn naming(parent: Seq<char>, name: Seq<char>) -> Map<Seq<char>, Json> {
    map!["name"@ => Json::Text(name), "parents"@ => Json::List(seq![Json::Text(parent)])]
}

proof fn lemma_naming(parent: Seq<char>, name: Seq<char>)
    ensures
        file_metadata(parent, name) == Json::Record(naming(parent, name)),
        is_worded(file_metadata(parent, name), 4),
        folder_metadata(parent, name) == Json::Record(
            naming(parent, name).insert("mimeType"@, Json::Text(FOLDER_MIME@)),
        ),
        is_worded(folder_metadata(parent, name), 4),
        "name"@ != "parents"@,
        "name"@ != "mimeType"@,
        "parents"@ != "mimeType"@,
{
    reveal_strlit("name");
    reveal_strlit("parents");
    reveal_strlit("mimeType");
    assert("name"@.len() == 4 && "parents"@.len() == 7 && "mimeType"@.len() == 8);
    let named = ("name"@, Json::Text(name));
    let placed = ("parents"@, Json::List(seq![Json::Text(parent)]));
    let typed = ("mimeType"@, Json::Text(FOLDER_MIME@));
    lemma_two_entries(named, placed);
    lemma_three_entries(named, typed, placed);
    assert(Map::empty().insert(named.0, named.1).insert(placed.0, placed.1) =~= naming(
        parent,
        name,
    ));
    assert(Map::empty().insert(named.0, named.1).insert(typed.0, typed.1).insert(
        placed.0,
        placed.1,
    ) =~= naming(parent, name).insert(typed.0, typed.1));
    reveal_with_fuel(is_worded, 4);
}

/// A folder is created by a document that tells its name, its folder, and that it
/// is one, and nothing else.
pub proof fn law_new_folders_are_told_of(
    config: ConfigModel,
    parent: Seq<char>,
    name: Seq<char>,
    read: spec_fn(Seq<char>) -> Option<Json>,
)
    requires
        reads_json(read),
    ensures
        ({
            let request = create_folder_model(config, parent, name);
            &&& request.method == Method::Post
            &&& request.url == "https://www.googleapis.com/drive/v3/files"@
            &&& request.body matches BodyModel::Text(text) && tells(
                read,
                text,
                naming(parent, name).insert(
                    "mimeType"@,
                    Json::Text("application/vnd.google-apps.folder"@),
                ),
            )
            &&& is_signed(request, config.access_token, Some("application/json"@))
        }),
{
    lemma_bearer(config.access_token);
    lemma_naming(parent, name);
    reveal_strlit("https://www.googleapis.com/drive/v3/files");
    reveal_strlit("https://www.googleapis.com/drive/v3");
    reveal_strlit("/files");
    assert(API_BASE@ + "/files"@ =~= "https://www.googleapis.com/drive/v3/files"@);
}

/// A file is moved by its id: out of the one folder, into the other, which may be
/// the same, and under the name that the document in the body tells, which it does
/// for every name and every folder.
pub proof fn law_moves_tell_the_folders_and_the_name(
    config: ConfigModel,
    id: Seq<char>,
    new_parent: Seq<char>,
    old_parent: Seq<char>,
    name: Seq<char>,
    read: spec_fn(Seq<char>) -> Option<Json>,
)
    requires
        reads_json(read),
    ensures
        ({
            let request = move_model(config, id, new_parent, old_parent, name);
            &&& is_on_file(
                request,
                Method::Patch,
                id,
                "?addParents="@ + new_parent + "&removeParents="@ + old_parent,
            )
            &&& request.body matches BodyModel::Text(text) && tells(
                read,
                text,
                map!["name"@ => Json::Text(name)],
            )
            &&& is_signed(request, config.access_token, Some("application/json"@))
        }),
{
    lemma_bearer(config.access_token);
    let rest = "?addParents="@ + new_parent + "&removeParents="@ + old_parent;
    lemma_file_url(id, rest);
    assert(API_BASE@ + "/files/"@ + id + "?addParents="@ + new_parent + "&removeParents="@
        + old_parent =~= API_BASE@ + "/files/"@ + id + rest);
    lemma_one_entry("name"@, Json::Text(name));
    reveal_with_fuel(is_worded, 4);
    assert(Map::empty().insert("name"@, Json::Text(name)) =~= map!["name"@ => Json::Text(name)]);
    assert(is_worded(record(seq![("name"@, Json::Text(name))]), 4));
}

/// Two moves of a file to different names are different requests, whatever folders
/// they lead out of and into.
pub proof fn law_moves_to_different_names_differ(
    config: ConfigModel,
    id: Seq<char>,
    from: (Seq<char>, Seq<char>),
    to: (Seq<char>, Seq<char>),
    one: Seq<char>,
    two: Seq<char>,
    read: spec_fn(Seq<char>) -> Option<Json>,
)
    requires
        reads_json(read),
        one != two,
    ensures
        move_model(config, id, from.0, from.1, one) != move_model(config, id, to.0, to.1, two),
{
    law_moves_tell_the_folders_and_the_name(config, id, from.0, from.1, one, read);
    law_moves_tell_the_folders_and_the_name(config, id, to.0, to.1, two, read);
    let first = move_model(config, id, from.0, from.1, one);
    let second = move_model(config, id, to.0, to.1, two);
    if first == second {
        let text = first.body->Text_0;
        let held = read(text)->Some_0->Record_0;
        assert(held["name"@] == Json::Text(one));
        assert(held["name"@] == Json::Text(two));
    }
}

/// Where the ids hold none of the marks of a URL, a move reads as the file, the
/// folder to add and the folder to remove.
pub proof fn law_moves_read_as_their_folders(
    config: ConfigModel,
    id: Seq<char>,
    new_parent: Seq<char>,
    old_parent: Seq<char>,
    name: Seq<char>,
)
    requires
        !id.contains('?'),
        !new_parent.contains('&'),
        !old_parent.contains('&'),
    ensures
        read_target(move_model(config, id, new_parent, old_parent, name).url) == (TargetModel {
            place: "https://www.googleapis.com/drive/v3/files/"@ + id,
            parameters: seq![("addParents"@, new_parent), ("removeParents"@, old_parent)],
        }),
{
    let start = "https://www.googleapis.com/drive/v3/files/"@;
    reveal_strlit("https://www.googleapis.com/drive/v3/files/");
    reveal_strlit("https://www.googleapis.com/drive/v3");
    reveal_strlit("/files/");
    reveal_strlit("?addParents=");
    reveal_strlit("&removeParents=");
    reveal_strlit("addParents");
    reveal_strlit("removeParents");
    let place = start + id;
    let last = "removeParents"@ + seq!['='] + old_parent;
    let rest = "addParents"@ + seq!['='] + new_parent + seq!['&'] + last;
    assert(API_BASE@ + "/files/"@ =~= start);
    assert("?addParents="@ =~= seq!['?'] + "addParents"@ + seq!['=']);
    assert("&removeParents="@ =~= seq!['&'] + "removeParents"@ + seq!['=']);
    assert(move_model(config, id, new_parent, old_parent, name).url =~= place + seq!['?'] + rest);
    assert(!place.contains('?')) by {
        if place.contains('?') {
            let k = choose|k: int| 0 <= k < place.len() && place[k] == '?';
            if k < start.len() {
                assert(start[k] == '?');
            } else {
                assert(id[k - start.len()] == '?');
            }
        }
    }
    law_cut_is_at_the_first_mark(place, '?', rest);
    law_parameters_are_read_in_order("removeParents"@, old_parent, Seq::empty());
    law_parameters_are_read_in_order("addParents"@, new_parent, last);
    assert(pairs(rest) =~= seq![("addParents"@, new_parent), ("removeParents"@, old_parent)]);
}

/// A file is created in one upload, whatever its content: the first part tells the
/// name and the folder of the file, and nothing else, and the second part is the
/// content, byte for byte, with its type, which is a single line.
pub proof fn law_new_files_are_told_of(
    config: ConfigModel,
    parent: Seq<char>,
    name: Seq<char>,
    content: Seq<u8>,
    content_type: Seq<char>,
    read: spec_fn(Seq<char>) -> Option<Json>,
)
    requires
        reads_json(read),
        !content_type.contains('\r'),
    ensures
        ({
            let request = create_file_model(config, parent, name, content, content_type);
            &&& request.method == Method::Post
            &&& request.url
                == "https://www.googleapis.com/upload/drive/v3/files?uploadType=multipart"@
            &&& is_signed(request, config.access_token, Some(request.headers[1].1))
            &&& named_boundary(request.headers[1].1) matches Some(boundary) && request.body matches
                BodyModel::Bytes(sent) && read_related(sent, boundary) matches Some((one, two)) && {
                &&& one.headers == encode_utf8("Content-Type: application/json; charset=UTF-8"@)
                &&& tells(read, decode_utf8(one.content), naming(parent, name))
                &&& two.headers == encode_utf8("Content-Type: "@ + content_type)
                &&& two.content == content
            }
        }),
{
    lemma_bearer(config.access_token);
    lemma_naming(parent, name);
    let text = json_text(file_metadata(parent, name));
    law_upload_holds_the_whole_content(text, content, content_type);
    encode_utf8_decode_utf8(text);
    reveal_strlit("https://www.googleapis.com/upload/drive/v3/files?uploadType=multipart");
    reveal_strlit("https://www.googleapis.com/upload/drive/v3");
    reveal_strlit("/files?uploadType=multipart");
    assert(UPLOAD_BASE@ + "/files?uploadType=multipart"@
        =~= "https://www.googleapis.com/upload/drive/v3/files?uploadType=multipart"@);
    let start = "multipart/related; boundary="@;
    assert(start =~= upload_type().subrange(0, start.len() as int));
    assert(upload_type().skip(start.len() as int) =~= boundary());
}

// ---------------------------------------------------------------------------
// Tokens
// ---------------------------------------------------------------------------

/// The fields of a form, with what their values stand for.
pub open spec fn form_fields(form: Seq<char>) -> Seq<(Seq<char>, Seq<char>)> {
    pairs(form).map_values(|entry: (Seq<char>, Seq<char>)| (entry.0, plain_text(entry.1)))
}

/// A form is sent to Google's token endpoint, without any token in the headers.
pub proof fn law_forms_go_to_the_token_endpoint(form: Seq<char>)
    ensures
        token_model(form).method == Method::Post,
        token_model(form).url == "https://oauth2.googleapis.com/token"@,
        token_model(form).headers == seq![
            ("Content-Type"@, "application/x-www-form-urlencoded"@),
        ],
        token_model(form).body == BodyModel::Text(form),
{
}

proof fn lemma_fields_step(
    key: Seq<char>,
    value: Seq<char>,
    rest: Seq<char>,
    others: Seq<(Seq<char>, Seq<char>)>,
)
    requires
        !key.contains('='),
        !key.contains('&'),
        form_fields(rest) == others,
    ensures
        form_fields(key + seq!['='] + uri_encoded(value) + seq!['&'] + rest) == seq![(key, value)]
            + others,
        form_fields(key + seq!['='] + uri_encoded(value)) == seq![(key, value)],
{
    law_encoded_values_are_read_back(value);
    law_parameters_are_read_in_order(key, uri_encoded(value), rest);
    let whole = key + seq!['='] + uri_encoded(value) + seq!['&'] + rest;
    let one = key + seq!['='] + uri_encoded(value);
    assert(form_fields(whole) =~= seq![(key, value)] + form_fields(rest));
    assert(form_fields(one) =~= seq![(key, value)]);
}

proof fn lemma_grant(kind: Seq<char>)
    requires
        kind == "refresh_token"@ || kind == "authorization_code"@,
    ensures
        uri_encoded(kind) == kind,
{
    reveal_strlit("refresh_token");
    reveal_strlit("authorization_code");
    law_plain_values_stay(kind);
}

/// A new access token is asked for with the client, its secret and the refresh
/// token, whatever characters they hold.
pub proof fn law_refreshing_tells_the_client_and_the_token(config: ConfigModel)
    ensures
        form_fields(refresh_form(config)) == seq![
            ("client_id"@, config.client_id),
            ("client_secret"@, config.client_secret),
            ("refresh_token"@, config.refresh_token),
            ("grant_type"@, "refresh_token"@),
        ],
{
    reveal_strlit("client_id");
    reveal_strlit("client_secret");
    reveal_strlit("refresh_token");
    reveal_strlit("grant_type");
    reveal_strlit("client_id=");
    reveal_strlit("&client_secret=");
    reveal_strlit("&refresh_token=");
    reveal_strlit("&grant_type=refresh_token");
    let kind = "refresh_token"@;
    lemma_grant(kind);
    let four = "grant_type"@ + seq!['='] + uri_encoded(kind);
    let three = "refresh_token"@ + seq!['='] + uri_encoded(config.refresh_token) + seq!['&']
        + four;
    let two = "client_secret"@ + seq!['='] + uri_encoded(config.client_secret) + seq!['&'] + three;
    let one = "client_id"@ + seq!['='] + uri_encoded(config.client_id) + seq!['&'] + two;
    assert("client_id="@ =~= "client_id"@ + seq!['=']);
    assert("&client_secret="@ =~= seq!['&'] + "client_secret"@ + seq!['=']);
    assert("&refresh_token="@ =~= seq!['&'] + "refresh_token"@ + seq!['=']);
    assert("&grant_type=refresh_token"@ =~= seq!['&'] + "grant_type"@ + seq!['='] + kind);
    assert(refresh_form(config) =~= one);
    lemma_fields_step("grant_type"@, kind, Seq::empty(), form_fields(Seq::empty()));
    lemma_fields_step("refresh_token"@, config.refresh_token, four, form_fields(four));
    lemma_fields_step("client_secret"@, config.client_secret, three, form_fields(three));
    lemma_fields_step("client_id"@, config.client_id, two, form_fields(two));
    assert(form_fields(one) =~= seq![
        ("client_id"@, config.client_id),
        ("client_secret"@, config.client_secret),
        ("refresh_token"@, config.refresh_token),
        ("grant_type"@, kind),
    ]);
}

/// A code is exchanged with the client, its secret and the redirect URI, and with
/// the verifier of the code where there is one, whatever characters they hold.
pub proof fn law_exchanges_tell_the_code_and_the_verifier(
    config: ConfigModel,
    code: Seq<char>,
    redirect_uri: Seq<char>,
    code_verifier: Seq<char>,
)
    ensures
        ({
            let told = seq![
                ("client_id"@, config.client_id),
                ("client_secret"@, config.client_secret),
                ("code"@, code),
                ("redirect_uri"@, redirect_uri),
                ("grant_type"@, "authorization_code"@),
            ];
            &&& form_fields(exchange_form(config, code, redirect_uri)) == told
            &&& form_fields(verified_exchange_form(config, code, redirect_uri, code_verifier))
                == told.push(("code_verifier"@, code_verifier))
        }),
{
    reveal_strlit("client_id");
    reveal_strlit("client_secret");
    reveal_strlit("code");
    reveal_strlit("redirect_uri");
    reveal_strlit("grant_type");
    reveal_strlit("code_verifier");
    reveal_strlit("authorization_code");
    reveal_strlit("client_id=");
    reveal_strlit("&client_secret=");
    reveal_strlit("&code=");
    reveal_strlit("&redirect_uri=");
    reveal_strlit("&grant_type=authorization_code");
    reveal_strlit("&code_verifier=");
    let kind = "authorization_code"@;
    lemma_grant(kind);
    assert("client_id="@ =~= "client_id"@ + seq!['=']);
    assert("&client_secret="@ =~= seq!['&'] + "client_secret"@ + seq!['=']);
    assert("&code="@ =~= seq!['&'] + "code"@ + seq!['=']);
    assert("&redirect_uri="@ =~= seq!['&'] + "redirect_uri"@ + seq!['=']);
    assert("&grant_type=authorization_code"@ =~= seq!['&'] + "grant_type"@ + seq!['='] + kind);
    assert("&code_verifier="@ =~= seq!['&'] + "code_verifier"@ + seq!['=']);
    let told = seq![
        ("client_id"@, config.client_id),
        ("client_secret"@, config.client_secret),
        ("code"@, code),
        ("redirect_uri"@, redirect_uri),
        ("grant_type"@, kind),
    ];
    let plain = "grant_type"@ + seq!['='] + uri_encoded(kind);
    lemma_fields_step("grant_type"@, kind, Seq::empty(), form_fields(Seq::empty()));
    lemma_exchange_start(config, code, redirect_uri, plain);
    assert(exchange_form(config, code, redirect_uri) =~= exchange_start(
        config,
        code,
        redirect_uri,
        plain,
    ));
    assert(form_fields(exchange_form(config, code, redirect_uri)) =~= told);
    let last = "code_verifier"@ + seq!['='] + uri_encoded(code_verifier);
    let verified = "grant_type"@ + seq!['='] + uri_encoded(kind) + seq!['&'] + last;
    lemma_fields_step("code_verifier"@, code_verifier, Seq::empty(), form_fields(Seq::empty()));
    lemma_fields_step("grant_type"@, kind, last, form_fields(last));
    lemma_exchange_start(config, code, redirect_uri, verified);
    assert(verified_exchange_form(config, code, redirect_uri, code_verifier) =~= exchange_start(
        config,
        code,
        redirect_uri,
        verified,
    ));
    assert(form_fields(verified_exchange_form(config, code, redirect_uri, code_verifier)) =~= told.push(
        ("code_verifier"@, code_verifier),
    ));
}

spec fn exchange_start(
    config: ConfigModel,
    code: Seq<char>,
    redirect_uri: Seq<char>,
    rest: Seq<char>,
) -> Seq<char> {
    let four = "redirect_uri"@ + seq!['='] + uri_encoded(redirect_uri) + seq!['&'] + rest;
    let three = "code"@ + seq!['='] + uri_encoded(code) + seq!['&'] + four;
    let two = "client_secret"@ + seq!['='] + uri_encoded(config.client_secret) + seq!['&'] + three;
    "client_id"@ + seq!['='] + uri_encoded(config.client_id) + seq!['&'] + two
}

proof fn lemma_exchange_start(
    config: ConfigModel,
    code: Seq<char>,
    redirect_uri: Seq<char>,
    rest: Seq<char>,
)
    ensures
        form_fields(exchange_start(config, code, redirect_uri, rest)) == seq![
            ("client_id"@, config.client_id),
            ("client_secret"@, config.client_secret),
            ("code"@, code),
            ("redirect_uri"@, redirect_uri),
        ] + form_fields(rest),
{
    reveal_strlit("client_id");
    reveal_strlit("client_secret");
    reveal_strlit("code");
    reveal_strlit("redirect_uri");
    let four = "redirect_uri"@ + seq!['='] + uri_encoded(redirect_uri) + seq!['&'] + rest;
    let three = "code"@ + seq!['='] + uri_encoded(code) + seq!['&'] + four;
    let two = "client_secret"@ + seq!['='] + uri_encoded(config.client_secret) + seq!['&'] + three;
    lemma_fields_step("redirect_uri"@, redirect_uri, rest, form_fields(rest));
    lemma_fields_step("code"@, code, four, form_fields(four));
    lemma_fields_step("client_secret"@, config.client_secret, three, form_fields(three));
    lemma_fields_step("client_id"@, config.client_id, two, form_fields(two));
    assert(form_fields(exchange_start(config, code, redirect_uri, rest)) =~= seq![
        ("client_id"@, config.client_id),
        ("client_secret"@, config.client_secret),
        ("code"@, code),
        ("redirect_uri"@, redirect_uri),
    ] + form_fields(rest));
}

} // verus!
