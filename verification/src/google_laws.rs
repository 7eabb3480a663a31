//! A server that reads the requests as Google Drive does, from their URLs, headers
//! and bodies, and that does what they say: it finds, creates, keeps, lists and moves
//! files as the laws on the storage ask for.
use crate::base64_text::base64_decoded;
use crate::config::ConfigModel;
use crate::drive_plans::Answer;
use crate::drive_replies::{
    created_folder, found_file, found_folder, listed_page, told_parent, FileRefModel, ListPageModel,
};
use crate::drive_requests::{
    create_file_model, create_folder_model, delete_model, find_file_model, find_folder_model,
    list_model, media_model, move_model, parents_model, update_model,
};
use crate::filesystem_laws::{
    creates, finds, is_content_type, is_listed, is_listing_of, is_plain, keeps_files, lists, moves,
    serves_pages, Drive, Host,
};
use crate::http::{reply_bytes, BodyModel, HttpReplyModel, HttpRequestModel, Method};
use crate::json::{json_parsed, Json};
use crate::json_laws::is_under;
use crate::multipart::{named_boundary, read_related};
use crate::plan::joined;
use crate::reply_laws::{
    grants, law_created_folders_are_known_by_their_ids, law_pages_hold_every_name,
    law_pages_of_named_items, law_the_first_file_is_found, law_the_first_parent_is_told,
    lists_files,
};
use crate::request_laws::{
    is_signed, is_worded, law_files_are_asked_for_by_id, law_listings_ask_for_the_page,
    law_moves_tell_the_folders_and_the_name, law_new_files_are_told_of, law_new_folders_are_told_of,
    law_searches_ask_for_the_name_in_the_folder, law_updates_send_the_whole_content, naming,
    reads_json, tells,
};
use crate::wire::{
    ahead, behind, cut, law_cut_is_at_the_first_mark, lemma_ahead, lemma_behind, plain_text,
    read_query, read_target, SearchModel,
};
use vstd::prelude::*;
use vstd::string::*;
use vstd::utf8::*;

verus! {

/// What a Google Drive goes by.
pub struct Google {
    /// The access token that it accepts.
    pub token: Seq<char>,
    /// How it reads the JSON that it is sent.
    pub read: spec_fn(Seq<char>) -> Option<Json>,
    /// How it writes JSON.
    pub write: spec_fn(Json) -> Seq<char>,
    /// How the bytes of a file are handed over.
    pub write_bytes: spec_fn(Seq<u8>) -> Seq<char>,
    /// The id that it gives to something new in a folder.
    pub fresh: spec_fn(Drive, Seq<char>) -> Seq<char>,
    /// The pages on which it lists a folder.
    pub pages: spec_fn(Drive, Seq<char>) -> Seq<Seq<Seq<char>>>,
    /// The token of each page but the first.
    pub page_token: spec_fn(int) -> Seq<char>,
}

/// Documents of texts are parsed as they were written.
pub open spec fn writes_json(write: spec_fn(Json) -> Seq<char>) -> bool {
    forall|document: Json|
        is_worded(document, 4) ==> json_parsed(#[trigger] write(document)) == Ok::<Json, Seq<char>>(
            document,
        )
}

/// Bytes are decoded as they were written.
pub open spec fn writes_base64(write_bytes: spec_fn(Seq<u8>) -> Seq<char>) -> bool {
    forall|bytes: Seq<u8>|
        base64_decoded(#[trigger] write_bytes(bytes)) == Ok::<Seq<u8>, Seq<char>>(bytes)
}

/// The value of the first header of some name.
pub open spec fn header(headers: Seq<(Seq<char>, Seq<char>)>, name: Seq<char>) -> Option<Seq<char>>
    decreases headers.len(),
{
    if headers.len() == 0 {
        None
    } else if headers[0].0 == name {
        Some(headers[0].1)
    } else {
        header(headers.skip(1), name)
    }
}

/// A reply that refuses.
pub open spec fn refusal(status: u16) -> Answer {
    Ok(HttpReplyModel { status, body: Seq::empty(), body_base64: None })
}

impl Google {
    /// It gives new ids to new things, lists every folder whole, and tells the pages
    /// apart; what it writes can be read, and it can read what it is sent.
    pub open spec fn is_sound(self) -> bool {
        &&& reads_json(self.read)
        &&& writes_json(self.write)
        &&& writes_base64(self.write_bytes)
        &&& forall|drive: Drive, folder: Seq<char>|
            drive.is_proper() ==> drive.is_new(#[trigger] (self.fresh)(drive, folder), folder)
        &&& forall|drive: Drive, folder: Seq<char>|
            drive.is_proper() ==> (#[trigger] (self.pages)(drive, folder)).len() > 0
                && is_listing_of(joined((self.pages)(drive, folder)), drive, folder)
        &&& forall|i: int, j: int|
            #[trigger] (self.page_token)(i) == #[trigger] (self.page_token)(j) ==> i == j
    }

    /// A reply that grants, with a document.
    pub open spec fn told(self, document: Json) -> Answer {
        Ok(HttpReplyModel { status: 200, body: (self.write)(document), body_base64: None })
    }

    /// What is told of a file that was found.
    pub open spec fn description(self, file: FileRefModel, fields: Seq<char>) -> Json {
        if fields == "files(id,mimeType)"@ {
            Json::Record(
                map![
                    "id"@ => Json::Text(file.id),
                    "mimeType"@ => Json::Text(
                        if file.is_folder {
                            "application/vnd.google-apps.folder"@
                        } else {
                            "text/plain"@
                        },
                    ),
                ],
            )
        } else {
            Json::Record(map!["id"@ => Json::Text(file.id)])
        }
    }

    /// The answer to a search by name.
    pub open spec fn search(
        self,
        drive: Drive,
        parent: Seq<char>,
        name: Seq<char>,
        folders_only: bool,
        fields: Seq<char>,
    ) -> Answer {
        self.told(
            Json::Record(
                map![
                    "files"@ => Json::List(
                        match drive.entry(parent, name) {
                            Some(file) => if folders_only && !file.is_folder {
                                Seq::empty()
                            } else {
                                seq![self.description(file, fields)]
                            },
                            None => Seq::empty(),
                        },
                    ),
                ],
            ),
        )
    }

    /// The page that a listing asks for.
    pub open spec fn page_of(self, options: Seq<(Seq<char>, Seq<char>)>) -> int {
        if options.len() == 3 && options[2].0 == "pageToken"@ {
            choose|i: int| #[trigger] (self.page_token)(i) == plain_text(options[2].1)
        } else {
            0
        }
    }

    /// The names on a page, as items of a document.
    pub open spec fn items(self, names: Seq<Seq<char>>) -> Seq<Json> {
        names.map_values(|name: Seq<char>| Json::Record(map!["name"@ => Json::Text(name)]))
    }

    /// The document of a page.
    pub open spec fn page_document(self, pages: Seq<Seq<Seq<char>>>, i: int) -> Json {
        let files = map!["files"@ => Json::List(self.items(pages[i]))];
        Json::Record(
            if i + 1 < pages.len() {
                files.insert("nextPageToken"@, Json::Text((self.page_token)(i + 1)))
            } else {
                files
            },
        )
    }

    /// The answer to a listing.
    pub open spec fn list(
        self,
        drive: Drive,
        parent: Seq<char>,
        options: Seq<(Seq<char>, Seq<char>)>,
    ) -> Answer {
        let pages = (self.pages)(drive, parent);
        let i = self.page_of(options);
        if 0 <= i < pages.len() {
            self.told(self.page_document(pages, i))
        } else {
            refusal(400)
        }
    }

    /// Where something with an id stands.
    pub open spec fn place(self, drive: Drive, id: Seq<char>) -> Option<(Seq<char>, Seq<char>)> {
        if drive.has_id(id) {
            let (folder, name) = choose|folder: Seq<char>, name: Seq<char>|
                (#[trigger] drive.entry(folder, name)) matches Some(file) && file.id == id;
            Some((folder, name))
        } else {
            None
        }
    }

    /// The answer to a GET.
    pub open spec fn get(self, drive: Drive, url: Seq<char>) -> Answer {
        let target = read_target(url);
        if target.place == "https://www.googleapis.com/drive/v3/files"@ {
            if target.parameters.len() > 1 && target.parameters[0].0 == "q"@
                && target.parameters[1].0 == "fields"@ {
                let options = target.parameters.skip(1);
                match read_query(plain_text(target.parameters[0].1)) {
                    Some(SearchModel { parent, name: Some(name), folders_only }) => self.search(
                        drive,
                        parent,
                        name,
                        folders_only,
                        options[0].1,
                    ),
                    Some(SearchModel { parent, name: None, folders_only }) => self.list(
                        drive,
                        parent,
                        options,
                    ),
                    None => refusal(400),
                }
            } else {
                refusal(400)
            }
        } else {
            match behind(url, "https://www.googleapis.com/drive/v3/files/"@) {
                Some(rest) => match (ahead(rest, "?alt=media"@), ahead(rest, "?fields=parents"@)) {
                    (Some(id), _) => if drive.contents.contains_key(id) {
                        Ok(
                            HttpReplyModel {
                                status: 200,
                                body: decode_utf8(drive.contents[id]),
                                body_base64: Some((self.write_bytes)(drive.contents[id])),
                            },
                        )
                    } else {
                        refusal(404)
                    },
                    (None, Some(id)) => match self.place(drive, id) {
                        Some((folder, _)) => self.told(
                            Json::Record(
                                map!["parents"@ => Json::List(seq![Json::Text(folder)])],
                            ),
                        ),
                        None => refusal(404),
                    },
                    _ => refusal(404),
                },
                None => refusal(404),
            }
        }
    }

    /// Creates what a document tells of, with some content if it is a file.
    pub open spec fn create(
        self,
        drive: Drive,
        told: Option<Json>,
        content: Option<Seq<u8>>,
    ) -> (Drive, Answer) {
        match told {
            Some(Json::Record(held)) => if held.contains_key("name"@) && held["name"@] is Text
                && held.contains_key("parents"@) && held["parents"@] is List
                && held["parents"@]->List_0.len() == 1 && held["parents"@]->List_0[0] is Text {
                let name = held["name"@]->Text_0;
                let parent = held["parents"@]->List_0[0]->Text_0;
                let id = (self.fresh)(drive, parent);
                let is_folder = held.contains_key("mimeType"@) && held["mimeType"@] == Json::Text(
                    "application/vnd.google-apps.folder"@,
                );
                let with_it = drive.with_entry(parent, name, FileRefModel { id, is_folder });
                (
                    match content {
                        Some(bytes) => with_it.with_content(id, bytes),
                        None => with_it,
                    },
                    self.told(Json::Record(map!["id"@ => Json::Text(id)])),
                )
            } else {
                (drive, refusal(400))
            },
            _ => (drive, refusal(400)),
        }
    }

    /// Serves a POST.
    pub open spec fn post(self, drive: Drive, request: HttpRequestModel) -> (Drive, Answer) {
        let content_type = header(request.headers, "Content-Type"@);
        match request.body {
            BodyModel::Text(text) => if request.url == "https://www.googleapis.com/drive/v3/files"@
                && content_type == Some("application/json"@) {
                self.create(drive, (self.read)(text), None)
            } else {
                (drive, refusal(400))
            },
            BodyModel::Bytes(bytes) => if request.url
                == "https://www.googleapis.com/upload/drive/v3/files?uploadType=multipart"@
                && content_type is Some && named_boundary(content_type->Some_0) is Some {
                match read_related(bytes, named_boundary(content_type->Some_0)->Some_0) {
                    Some((one, two)) => self.create(
                        drive,
                        (self.read)(decode_utf8(one.content)),
                        Some(two.content),
                    ),
                    None => (drive, refusal(400)),
                }
            } else {
                (drive, refusal(400))
            },
            BodyModel::Empty => (drive, refusal(400)),
        }
    }

    /// Takes what stands in a folder with an id into another folder, under the name
    /// that the document tells, or under its own where it tells none.
    pub open spec fn relocate(
        self,
        drive: Drive,
        id: Seq<char>,
        into: Seq<char>,
        out_of: Seq<char>,
        told: Option<Json>,
    ) -> (Drive, Answer) {
        match (self.place(drive, id), told) {
            (Some((folder, name)), Some(Json::Record(held))) => if folder == out_of {
                let new_name = if held.contains_key("name"@) && held["name"@] is Text {
                    held["name"@]->Text_0
                } else {
                    name
                };
                (
                    drive.moved((folder, name), (into, new_name)),
                    Ok(HttpReplyModel { status: 200, body: Seq::empty(), body_base64: None }),
                )
            } else {
                (drive, refusal(400))
            },
            _ => (drive, refusal(404)),
        }
    }

    /// Serves a PATCH.
    pub open spec fn patch(self, drive: Drive, request: HttpRequestModel) -> (Drive, Answer) {
        match behind(request.url, "https://www.googleapis.com/upload/drive/v3/files/"@) {
            Some(rest) => match (ahead(rest, "?uploadType=media"@), request.body) {
                (Some(id), BodyModel::Bytes(bytes)) => (
                    drive.with_content(id, bytes),
                    Ok(HttpReplyModel { status: 200, body: Seq::empty(), body_base64: None }),
                ),
                _ => (drive, refusal(400)),
            },
            None => match (
                behind(request.url, "https://www.googleapis.com/drive/v3/files/"@),
                request.body,
            ) {
                (Some(rest), BodyModel::Text(text)) => match cut(rest, '?') {
                    (id, Some(options)) => match cut(options, '&') {
                        (first, Some(second)) => match (
                            behind(first, "addParents="@),
                            behind(second, "removeParents="@),
                        ) {
                            (Some(into), Some(out_of)) => self.relocate(
                                drive,
                                id,
                                into,
                                out_of,
                                (self.read)(text),
                            ),
                            _ => (drive, refusal(400)),
                        },
                        _ => (drive, refusal(400)),
                    },
                    _ => (drive, refusal(400)),
                },
                _ => (drive, refusal(400)),
            },
        }
    }

    /// Serves a request.
    pub open spec fn serve(self, drive: Drive, request: HttpRequestModel) -> (Drive, Answer) {
        match header(request.headers, "Authorization"@) {
            Some(value) => if behind(value, "Bearer "@) == Some(self.token) {
                match request.method {
                    Method::Get => (drive, self.get(drive, request.url)),
                    Method::Post => self.post(drive, request),
                    Method::Patch => self.patch(drive, request),
                    Method::Delete => match behind(
                        request.url,
                        "https://www.googleapis.com/drive/v3/files/"@,
                    ) {
                        Some(id) => (drive.without(id), refusal(204)),
                        None => (drive, refusal(404)),
                    },
                }
            } else {
                (drive, refusal(401))
            },
            None => (drive, refusal(401)),
        }
    }

    /// The server.
    pub open spec fn host(self) -> Host {
        |drive: Drive, request: HttpRequestModel| self.serve(drive, request)
    }
}

// ---------------------------------------------------------------------------
// Reading requests
// ---------------------------------------------------------------------------

proof fn lemma_headers(
    request: HttpRequestModel,
    token: Seq<char>,
    content_type: Option<Seq<char>>,
)
    requires
        is_signed(request, token, content_type),
    ensures
        header(request.headers, "Authorization"@) matches Some(value) && behind(value, "Bearer "@)
            == Some(token),
        content_type is Some ==> header(request.headers, "Content-Type"@) == content_type,
{
    reveal_with_fuel(header, 3);
    reveal_strlit("Authorization");
    reveal_strlit("Content-Type");
    assert("Authorization"@.len() != "Content-Type"@.len());
    if content_type is Some {
        assert(request.headers.skip(1)[0] == request.headers[1]);
    }
}

/// What stands before a mark opens the text, and the mark follows it.
proof fn lemma_cut(text: Seq<char>, mark: char)
    ensures
        ({
            let (before, after) = cut(text, mark);
            &&& before.len() <= text.len()
            &&& text.take(before.len() as int) == before
            &&& after is None ==> before == text
            &&& after is Some ==> before.len() < text.len() && text[before.len() as int] == mark
        }),
    decreases text.len(),
{
    if text.len() > 0 && text[0] != mark {
        let rest = text.skip(1);
        lemma_cut(rest, mark);
        let (before, after) = cut(rest, mark);
        let whole = seq![text[0]] + before;
        assert(cut(text, mark) == (whole, after));
        assert(text.take(whole.len() as int) =~= seq![text[0]] + rest.take(before.len() as int));
        if after is None {
            assert(seq![text[0]] + rest =~= text);
        } else {
            assert(rest[before.len() as int] == text[before.len() as int + 1]);
        }
    } else if text.len() > 0 {
        assert(text.take(0) =~= Seq::empty());
    } else {
        assert(text.take(0) =~= Seq::empty());
        assert(text =~= Seq::empty());
    }
}

/// A request on a file does not go to the files as a whole.
proof fn lemma_not_the_files(url: Seq<char>)
    requires
        behind(url, "https://www.googleapis.com/drive/v3/files/"@) is Some,
    ensures
        read_target(url).place != "https://www.googleapis.com/drive/v3/files"@,
        behind(url, "https://www.googleapis.com/upload/drive/v3/files/"@) is None,
{
    let files = "https://www.googleapis.com/drive/v3/files"@;
    let start = "https://www.googleapis.com/drive/v3/files/"@;
    let upload = "https://www.googleapis.com/upload/drive/v3/files/"@;
    reveal_strlit("https://www.googleapis.com/drive/v3/files");
    reveal_strlit("https://www.googleapis.com/drive/v3/files/");
    reveal_strlit("https://www.googleapis.com/upload/drive/v3/files/");
    lemma_cut(url, '?');
    let n = files.len() as int;
    assert(url.take(start.len() as int)[n] == start[n]);
    assert(start[n] == '/');
    if behind(url, upload) is Some {
        assert(url.take(start.len() as int)[27] == url[27]);
        assert(url.take(upload.len() as int)[27] == url[27]);
        assert(start[27] != upload[27]);
    }
}

// ---------------------------------------------------------------------------
// The laws
// ---------------------------------------------------------------------------

proof fn lemma_finds(
    google: Google,
    config: ConfigModel,
    drive: Drive,
    folder: Seq<char>,
    name: Seq<char>,
)
    requires
        google.is_sound(),
        config.access_token == google.token,
    ensures
        ({
            let (after, answer) = google.serve(drive, find_file_model(config, folder, name));
            &&& after == drive
            &&& answer matches Ok(reply)
            &&& found_file(reply) == Ok::<Option<FileRefModel>, Seq<char>>(
                drive.entry(folder, name),
            )
        }),
        ({
            let (after, answer) = google.serve(drive, find_folder_model(config, folder, name));
            &&& after == drive
            &&& answer matches Ok(reply)
            &&& found_folder(reply) == Ok::<Option<Seq<char>>, Seq<char>>(
                match drive.entry(folder, name) {
                    Some(file) => if file.is_folder {
                        Some(file.id)
                    } else {
                        None
                    },
                    None => None,
                },
            )
        }),
{
    law_searches_ask_for_the_name_in_the_folder(config, folder, name);
    let one = find_file_model(config, folder, name);
    let two = find_folder_model(config, folder, name);
    lemma_headers(one, google.token, None);
    lemma_headers(two, google.token, None);
    lemma_options(one.url, seq![("fields"@, "files(id,mimeType)"@), ("pageSize"@, "1"@)]);
    lemma_options(two.url, seq![("fields"@, "files(id)"@), ("pageSize"@, "1"@)]);
    lemma_search(google, drive, folder, name, false, "files(id,mimeType)"@);
    lemma_search(google, drive, folder, name, true, "files(id)"@);
}

proof fn lemma_options(url: Seq<char>, options: Seq<(Seq<char>, Seq<char>)>)
    requires
        read_target(url).parameters.len() > 0,
        read_target(url).parameters.skip(1) == options,
        options.len() > 0,
    ensures
        read_target(url).parameters.len() == options.len() + 1,
        read_target(url).parameters[1] == options[0],
{
    let all = read_target(url).parameters;
    assert(all.skip(1)[0] == all[1]);
}

proof fn lemma_search(
    google: Google,
    drive: Drive,
    parent: Seq<char>,
    name: Seq<char>,
    folders_only: bool,
    fields: Seq<char>,
)
    requires
        google.is_sound(),
    ensures
        google.search(drive, parent, name, folders_only, fields) matches Ok(reply) && {
            &&& !folders_only && fields == "files(id,mimeType)"@ ==> found_file(reply) == Ok::<
                Option<FileRefModel>,
                Seq<char>,
            >(drive.entry(parent, name))
            &&& folders_only ==> found_folder(reply) == Ok::<Option<Seq<char>>, Seq<char>>(
                match drive.entry(parent, name) {
                    Some(file) => if file.is_folder {
                        Some(file.id)
                    } else {
                        None
                    },
                    None => None,
                },
            )
        },
{
    let items = match drive.entry(parent, name) {
        Some(file) => if folders_only && !file.is_folder {
            Seq::empty()
        } else {
            seq![google.description(file, fields)]
        },
        None => Seq::empty(),
    };
    let held = map!["files"@ => Json::List(items)];
    let document = Json::Record(held);
    let reply = google.told(document)->Ok_0;
    reveal_strlit("id");
    reveal_strlit("mimeType");
    reveal_strlit("text/plain");
    reveal_strlit("application/vnd.google-apps.folder");
    assert("id"@.len() != "mimeType"@.len());
    assert("text/plain"@.len() != "application/vnd.google-apps.folder"@.len());
    reveal_with_fuel(is_worded, 5);
    assert(is_worded(document, 4)) by {
        if let Some(file) = drive.entry(parent, name) {
            assert(is_worded(google.description(file, fields), 2));
        }
        assert(is_worded(Json::List(items), 3));
    }
    assert(grants(reply, document));
    assert(lists_files(document, items));
    let id = if let Some(file) = drive.entry(parent, name) {
        file.id
    } else {
        Seq::empty()
    };
    law_the_first_file_is_found(reply, document, items, id);
    if items.len() > 0 {
        let file = drive.entry(parent, name)->Some_0;
        assert(items[0] == google.description(file, fields));
        assert(is_under(items[0], "id"@, Json::Text(id)));
    }
}

proof fn lemma_creates_folder(
    google: Google,
    config: ConfigModel,
    drive: Drive,
    folder: Seq<char>,
    name: Seq<char>,
)
    requires
        google.is_sound(),
        config.access_token == google.token,
        drive.is_proper(),
    ensures
        ({
            let (after, answer) = google.serve(drive, create_folder_model(config, folder, name));
            &&& answer matches Ok(reply)
            &&& created_folder(reply) matches Ok(id)
            &&& drive.is_new(id, folder)
            &&& after == drive.with_entry(folder, name, FileRefModel { id, is_folder: true })
        }),
{
    let request = create_folder_model(config, folder, name);
    law_new_folders_are_told_of(config, folder, name, google.read);
    lemma_headers(request, google.token, Some("application/json"@));
    let text = request.body->Text_0;
    let told = (google.read)(text);
    lemma_creation(google, drive, told, None, folder, name, true);
}

proof fn lemma_creates_file(
    google: Google,
    config: ConfigModel,
    drive: Drive,
    folder: Seq<char>,
    name: Seq<char>,
    content: Seq<u8>,
    content_type: Seq<char>,
)
    requires
        google.is_sound(),
        config.access_token == google.token,
        drive.is_proper(),
        is_content_type(content_type),
    ensures
        ({
            let (after, answer) = google.serve(
                drive,
                create_file_model(config, folder, name, content, content_type),
            );
            &&& answer matches Ok(reply)
            &&& reply.status == 200
            &&& after.entry(folder, name) matches Some(file)
            &&& drive.is_new(file.id, folder)
            &&& after == drive.with_entry(folder, name, file).with_content(file.id, content)
        }),
{
    let request = create_file_model(config, folder, name, content, content_type);
    assert(!content_type.contains('\r')) by {
        reveal_strlit("text/plain; charset=utf-8");
        reveal_strlit("application/octet-stream");
    }
    law_new_files_are_told_of(config, folder, name, content, content_type, google.read);
    lemma_headers(request, google.token, Some(request.headers[1].1));
    let bytes = request.body->Bytes_0;
    let (one, two) = read_related(bytes, named_boundary(request.headers[1].1)->Some_0)->Some_0;
    let told = (google.read)(decode_utf8(one.content));
    lemma_creation(google, drive, told, Some(content), folder, name, false);
}

proof fn lemma_creation(
    google: Google,
    drive: Drive,
    told: Option<Json>,
    content: Option<Seq<u8>>,
    folder: Seq<char>,
    name: Seq<char>,
    is_folder: bool,
)
    requires
        google.is_sound(),
        drive.is_proper(),
        told matches Some(Json::Record(held)) && held =~= (if is_folder {
            naming(folder, name).insert(
                "mimeType"@,
                Json::Text("application/vnd.google-apps.folder"@),
            )
        } else {
            naming(folder, name)
        }),
    ensures
        ({
            let id = (google.fresh)(drive, folder);
            let file = FileRefModel { id, is_folder };
            let (after, answer) = google.create(drive, told, content);
            &&& answer matches Ok(reply)
            &&& reply.status == 200
            &&& created_folder(reply) == Ok::<Seq<char>, Seq<char>>(id)
            &&& drive.is_new(id, folder)
            &&& content is None ==> after == drive.with_entry(folder, name, file)
            &&& content matches Some(bytes) ==> after == drive.with_entry(
                folder,
                name,
                file,
            ).with_content(id, bytes) && after.entry(folder, name) == Some(file)
        }),
{
    reveal_strlit("name");
    reveal_strlit("parents");
    reveal_strlit("mimeType");
    assert("name"@.len() == 4 && "parents"@.len() == 7 && "mimeType"@.len() == 8);
    let id = (google.fresh)(drive, folder);
    let held = told->Some_0->Record_0;
    assert(held["name"@] == Json::Text(name));
    assert(held["parents"@] == Json::List(seq![Json::Text(folder)]));
    let document = Json::Record(map!["id"@ => Json::Text(id)]);
    reveal_with_fuel(is_worded, 5);
    assert(is_worded(document, 4));
    let reply = google.told(document)->Ok_0;
    law_created_folders_are_known_by_their_ids(reply, document, id);
    assert(is_under(document, "id"@, Json::Text(id)));
}

proof fn lemma_keeps(google: Google, config: ConfigModel, drive: Drive, id: Seq<char>)
    requires
        google.is_sound(),
        config.access_token == google.token,
    ensures
        drive.contents.contains_key(id) ==> {
            let (after, answer) = google.serve(drive, media_model(config, id));
            &&& after == drive
            &&& answer matches Ok(reply)
            &&& reply.status == 200
            &&& reply_bytes(reply) == Ok::<Seq<u8>, Seq<char>>(drive.contents[id])
            &&& forall|text: Seq<char>|
                drive.contents[id] == #[trigger] encode_utf8(text) ==> reply.body == text
        },
        ({
            let (after, answer) = google.serve(drive, delete_model(config, id));
            &&& answer matches Ok(reply)
            &&& reply.status == 204
            &&& after == drive.without(id)
        }),
{
    law_files_are_asked_for_by_id(config, id);
    let media = media_model(config, id);
    let deletion = delete_model(config, id);
    lemma_headers(media, google.token, None);
    lemma_headers(deletion, google.token, None);
    lemma_not_the_files(media.url);
    lemma_ahead(id, "?alt=media"@);
    assert(id + Seq::<char>::empty() =~= id);
    assert forall|text: Seq<char>| drive.contents[id] == #[trigger] encode_utf8(
        text,
    ) implies decode_utf8(drive.contents[id]) == text by {
        encode_utf8_decode_utf8(text);
    }
}

proof fn lemma_updates(
    google: Google,
    config: ConfigModel,
    drive: Drive,
    id: Seq<char>,
    content: Seq<u8>,
    content_type: Seq<char>,
)
    requires
        google.is_sound(),
        config.access_token == google.token,
    ensures
        ({
            let (after, answer) = google.serve(
                drive,
                update_model(config, id, content, content_type),
            );
            &&& answer matches Ok(reply)
            &&& reply.status == 200
            &&& after == drive.with_content(id, content)
        }),
{
    let request = update_model(config, id, content, content_type);
    law_updates_send_the_whole_content(config, id, content, content_type);
    lemma_headers(request, google.token, Some(content_type));
    lemma_ahead(id, "?uploadType=media"@);
    assert(request.body->Bytes_0 =~= content);
}

proof fn lemma_lists(google: Google, config: ConfigModel, drive: Drive, folder: Seq<char>)
    requires
        google.is_sound(),
        config.access_token == google.token,
        drive.is_proper(),
    ensures
        is_listed(google.host(), config, drive, folder),
{
    let host = google.host();
    let pages = (google.pages)(drive, folder);
    let tokens = Seq::new((pages.len() - 1) as nat, |i: int| (google.page_token)(i + 1));
    assert forall|i: int| 0 <= i < pages.len() implies {
        let token = if i == 0 {
            None
        } else {
            Some(tokens[i - 1])
        };
        let (after, answer) = host(drive, list_model(config, folder, token));
        &&& after == drive
        &&& answer matches Ok(reply)
        &&& listed_page(reply) == Ok::<ListPageModel, Seq<char>>(
            ListPageModel {
                names: #[trigger] pages[i],
                token: if i < tokens.len() {
                    Some(tokens[i])
                } else {
                    None
                },
            },
        )
    } by {
        let token = if i == 0 {
            None
        } else {
            Some(tokens[i - 1])
        };
        let request = list_model(config, folder, token);
        law_listings_ask_for_the_page(config, folder, token);
        lemma_headers(request, google.token, None);
        let target = read_target(request.url);
        let options = target.parameters.skip(1);
        lemma_options(request.url, options);
        assert(options.take(2)[0] == options[0]);
        if i > 0 {
            assert(plain_text(options[2].1) == (google.page_token)(i));
            let k = choose|k: int| #[trigger] (google.page_token)(k) == plain_text(options[2].1);
            assert((google.page_token)(k) == (google.page_token)(i));
        }
        assert(google.page_of(options) == i);
        lemma_page(google, pages, i);
        assert(host(drive, request) == (drive, google.told(google.page_document(pages, i))));
    }
    assert(serves_pages(host, config, drive, folder, pages, tokens));
}

proof fn lemma_page(google: Google, pages: Seq<Seq<Seq<char>>>, i: int)
    requires
        google.is_sound(),
        0 <= i < pages.len(),
    ensures
        google.told(google.page_document(pages, i)) matches Ok(reply) && listed_page(reply) == Ok::<
            ListPageModel,
            Seq<char>,
        >(
            ListPageModel {
                names: pages[i],
                token: if i + 1 < pages.len() {
                    Some((google.page_token)(i + 1))
                } else {
                    None
                },
            },
        ),
{
    let names = pages[i];
    let items = google.items(names);
    let document = google.page_document(pages, i);
    let reply = google.told(document)->Ok_0;
    reveal_strlit("files");
    reveal_strlit("nextPageToken");
    assert("files"@.len() != "nextPageToken"@.len());
    reveal_with_fuel(is_worded, 5);
    assert(is_worded(Json::List(items), 3)) by {
        assert forall|k: int| 0 <= k < items.len() implies is_worded(#[trigger] items[k], 2) by {
            assert(items[k] == Json::Record(map!["name"@ => Json::Text(names[k])]));
        }
    }
    assert(is_worded(document, 4));
    assert(grants(reply, document));
    assert(lists_files(document, items));
    assert forall|k: int| 0 <= k < items.len() implies is_under(
        #[trigger] items[k],
        "name"@,
        Json::Text(names[k]),
    ) by {
        assert(items[k] == Json::Record(map!["name"@ => Json::Text(names[k])]));
    }
    law_pages_of_named_items(reply, document, items, names);
    law_pages_hold_every_name(reply, document, items);
    let page = listed_page(reply)->Ok_0;
    if i + 1 < pages.len() {
        assert(is_under(document, "nextPageToken"@, Json::Text((google.page_token)(i + 1))));
    } else if let Some(token) = page.token {
        assert(is_under(document, "nextPageToken"@, Json::Text(token)));
    }
}

proof fn lemma_place(google: Google, drive: Drive, folder: Seq<char>, name: Seq<char>)
    requires
        drive.entry(folder, name) is Some,
        drive.stands_alone(folder, name),
    ensures
        google.place(drive, drive.entry(folder, name)->Some_0.id) == Some((folder, name)),
{
    let id = drive.entry(folder, name)->Some_0.id;
    assert(drive.has_id(id));
    let (other, alias) = choose|other: Seq<char>, alias: Seq<char>|
        (#[trigger] drive.entry(other, alias)) matches Some(file) && file.id == id;
    assert(drive.entry(other, alias)->Some_0.id == id);
}

proof fn lemma_tells_parent(
    google: Google,
    config: ConfigModel,
    drive: Drive,
    folder: Seq<char>,
    name: Seq<char>,
)
    requires
        google.is_sound(),
        config.access_token == google.token,
        drive.entry(folder, name) is Some,
        drive.stands_alone(folder, name),
    ensures
        ({
            let id = drive.entry(folder, name)->Some_0.id;
            let (after, answer) = google.serve(drive, parents_model(config, id));
            &&& after == drive
            &&& answer matches Ok(reply)
            &&& told_parent(reply) == folder
        }),
{
    let id = drive.entry(folder, name)->Some_0.id;
    let request = parents_model(config, id);
    law_files_are_asked_for_by_id(config, id);
    lemma_headers(request, google.token, None);
    lemma_not_the_files(request.url);
    let rest = id + "?fields=parents"@;
    lemma_ahead(id, "?fields=parents"@);
    assert(ahead(rest, "?alt=media"@) is None) by {
        reveal_strlit("?fields=parents");
        reveal_strlit("?alt=media");
        let end = rest.skip(rest.len() - 10);
        assert(end[9] == 's');
        assert("?alt=media"@[9] == 'a');
    }
    lemma_place(google, drive, folder, name);
    let parents = seq![Json::Text(folder)];
    let document = Json::Record(map!["parents"@ => Json::List(parents)]);
    reveal_with_fuel(is_worded, 5);
    assert(is_worded(document, 4));
    let reply = google.told(document)->Ok_0;
    assert(is_under(document, "parents"@, Json::List(parents)));
    law_the_first_parent_is_told(reply, document, parents, folder);
}

proof fn lemma_moves(
    google: Google,
    config: ConfigModel,
    drive: Drive,
    folder: Seq<char>,
    name: Seq<char>,
    into: Seq<char>,
    new_name: Seq<char>,
)
    requires
        google.is_sound(),
        config.access_token == google.token,
        drive.entry(folder, name) is Some,
        drive.stands_alone(folder, name),
        is_plain(drive.entry(folder, name)->Some_0.id),
        is_plain(into),
    ensures
        ({
            let id = drive.entry(folder, name)->Some_0.id;
            let (after, answer) = google.serve(
                drive,
                move_model(config, id, into, folder, new_name),
            );
            &&& answer matches Ok(reply)
            &&& reply.status == 200
            &&& after == drive.moved((folder, name), (into, new_name))
        }),
{
    let id = drive.entry(folder, name)->Some_0.id;
    let request = move_model(config, id, into, folder, new_name);
    law_moves_tell_the_folders_and_the_name(config, id, into, folder, new_name, google.read);
    lemma_headers(request, google.token, Some("application/json"@));
    lemma_not_the_files(request.url);
    let rest = id + ("?addParents="@ + into + "&removeParents="@ + folder);
    let first = "addParents="@ + into;
    let second = "removeParents="@ + folder;
    let options = first + seq!['&'] + second;
    reveal_strlit("?addParents=");
    reveal_strlit("addParents=");
    reveal_strlit("&removeParents=");
    reveal_strlit("removeParents=");
    assert("?addParents="@ =~= seq!['?'] + "addParents="@);
    assert("&removeParents="@ =~= seq!['&'] + "removeParents="@);
    assert(rest =~= id + seq!['?'] + options);
    law_cut_is_at_the_first_mark(id, '?', options);
    assert(!first.contains('&')) by {
        if first.contains('&') {
            let k = choose|k: int| 0 <= k < first.len() && first[k] == '&';
            if k >= 11 {
                assert(into[k - 11] == '&');
            }
        }
    }
    law_cut_is_at_the_first_mark(first, '&', second);
    lemma_behind("addParents="@, into);
    lemma_behind("removeParents="@, folder);
    lemma_place(google, drive, folder, name);
    let text = request.body->Text_0;
    let held = (google.read)(text)->Some_0->Record_0;
    assert(held["name"@] == Json::Text(new_name));
}

/// Against a server that reads the requests and does what they say, the storage is
/// what the laws on it ask for: searches find what stands in the folder, what is
/// created stands there with its content, contents are kept, read back and deleted,
/// folders are listed whole, and files are moved to the folder and the name.
pub proof fn law_google_serves_the_requests(google: Google, config: ConfigModel)
    requires
        google.is_sound(),
        config.access_token == google.token,
    ensures
        finds(google.host(), config),
        creates(google.host(), config),
        keeps_files(google.host(), config),
        lists(google.host(), config),
        moves(google.host(), config),
{
    let host = google.host();
    assert forall|drive: Drive, folder: Seq<char>, name: Seq<char>| true implies {
        let (after, answer) = #[trigger] host(drive, find_file_model(config, folder, name));
        &&& after == drive
        &&& answer matches Ok(reply)
        &&& found_file(reply) == Ok::<Option<FileRefModel>, Seq<char>>(drive.entry(folder, name))
    } by {
        lemma_finds(google, config, drive, folder, name);
    }
    assert forall|drive: Drive, folder: Seq<char>, name: Seq<char>| true implies {
        let (after, answer) = #[trigger] host(drive, find_folder_model(config, folder, name));
        &&& after == drive
        &&& answer matches Ok(reply)
        &&& found_folder(reply) == Ok::<Option<Seq<char>>, Seq<char>>(
            match drive.entry(folder, name) {
                Some(file) => if file.is_folder {
                    Some(file.id)
                } else {
                    None
                },
                None => None,
            },
        )
    } by {
        lemma_finds(google, config, drive, folder, name);
    }
    assert(finds(host, config));
    assert forall|drive: Drive, folder: Seq<char>, name: Seq<char>|
        drive.is_proper() && drive.entry(folder, name) is None implies {
        let (after, answer) = #[trigger] host(drive, create_folder_model(config, folder, name));
        &&& answer matches Ok(reply)
        &&& created_folder(reply) matches Ok(id)
        &&& drive.is_new(id, folder)
        &&& after == drive.with_entry(folder, name, FileRefModel { id, is_folder: true })
    } by {
        lemma_creates_folder(google, config, drive, folder, name);
    }
    assert forall|
        drive: Drive,
        folder: Seq<char>,
        name: Seq<char>,
        content: Seq<u8>,
        content_type: Seq<char>,
    |
        drive.is_proper() && drive.entry(folder, name) is None && is_content_type(
            content_type,
        ) implies {
        let (after, answer) = #[trigger] host(
            drive,
            create_file_model(config, folder, name, content, content_type),
        );
        &&& answer matches Ok(reply)
        &&& reply.status == 200
        &&& after.entry(folder, name) matches Some(file)
        &&& drive.is_new(file.id, folder)
        &&& after == drive.with_entry(folder, name, file).with_content(file.id, content)
    } by {
        lemma_creates_file(google, config, drive, folder, name, content, content_type);
    }
    assert(creates(host, config));
    assert forall|drive: Drive, id: Seq<char>, content: Seq<u8>, content_type: Seq<char>|
        true implies {
        let (after, answer) = #[trigger] host(
            drive,
            update_model(config, id, content, content_type),
        );
        &&& answer matches Ok(reply)
        &&& reply.status == 200
        &&& after == drive.with_content(id, content)
    } by {
        lemma_updates(google, config, drive, id, content, content_type);
    }
    assert forall|drive: Drive, id: Seq<char>| drive.contents.contains_key(id) implies {
        let (after, answer) = #[trigger] host(drive, media_model(config, id));
        &&& after == drive
        &&& answer matches Ok(reply)
        &&& reply.status == 200
        &&& reply_bytes(reply) == Ok::<Seq<u8>, Seq<char>>(drive.contents[id])
        &&& forall|text: Seq<char>|
            drive.contents[id] == #[trigger] encode_utf8(text) ==> reply.body == text
    } by {
        lemma_keeps(google, config, drive, id);
    }
    assert forall|drive: Drive, id: Seq<char>| true implies {
        let (after, answer) = #[trigger] host(drive, delete_model(config, id));
        &&& answer matches Ok(reply)
        &&& reply.status == 204
        &&& after == drive.without(id)
    } by {
        lemma_keeps(google, config, drive, id);
    }
    assert(keeps_files(host, config));
    assert forall|drive: Drive, folder: Seq<char>| drive.is_proper() implies #[trigger] is_listed(
        host,
        config,
        drive,
        folder,
    ) by {
        lemma_lists(google, config, drive, folder);
    }
    assert(lists(host, config));
    assert forall|drive: Drive, folder: Seq<char>, name: Seq<char>, id: Seq<char>|
        (drive.entry(folder, name) matches Some(file) && file.id == id && drive.stands_alone(
            folder,
            name,
        )) implies {
        let (after, answer) = #[trigger] host(drive, parents_model(config, id));
        &&& after == drive
        &&& answer matches Ok(reply)
        &&& (#[trigger] drive.entry(folder, name)) is Some
        &&& told_parent(reply) == folder
    } by {
        lemma_tells_parent(google, config, drive, folder, name);
    }
    assert forall|
        drive: Drive,
        folder: Seq<char>,
        name: Seq<char>,
        id: Seq<char>,
        into: Seq<char>,
        new_name: Seq<char>,
    |
        (drive.entry(folder, name) matches Some(file) && file.id == id && drive.stands_alone(
            folder,
            name,
        ) && drive.entry(into, new_name) is None && is_plain(id) && is_plain(into)) implies {
        let (after, answer) = #[trigger] host(
            drive,
            move_model(config, id, into, folder, new_name),
        );
        &&& answer matches Ok(reply)
        &&& reply.status == 200
        &&& (#[trigger] drive.entry(folder, name)) is Some
        &&& after == drive.moved((folder, name), (into, new_name))
    } by {
        lemma_moves(google, config, drive, folder, name, into, new_name);
    }
    assert(moves(host, config));
}

} // verus!
