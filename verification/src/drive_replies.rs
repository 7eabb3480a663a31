//! What the replies of the Google Drive REST API and of the token endpoint mean.
use crate::base64_text::base64_length;
use crate::drive_requests::FOLDER_MIME;
use crate::http::{body_bytes, is_encodable, reply_bytes, HttpReply, HttpReplyModel};
use crate::json::{
    as_text, json_model, json_parsed, list_member, models, optional_text, parse_value, read_list,
    read_text, text_member, text_of, Json,
};
use crate::text::{decimal, decimal_text, ends_with, has_suffix, same_text, texts};
use crate::timestamp::{parse_rfc3339, rfc3339_millis};
use serde_json::Value;
use vstd::prelude::*;
use vstd::string::*;

verus! {

// ---------------------------------------------------------------------------
// Results
// ---------------------------------------------------------------------------

/// What a result without a value says.
pub open spec fn unit_result(result: Result<(), String>) -> Result<(), Seq<char>> {
    match result {
        Ok(_) => Ok(()),
        Err(message) => Err(message@),
    }
}

/// What a result with a text says.
pub open spec fn text_result(result: Result<String, String>) -> Result<Seq<char>, Seq<char>> {
    match result {
        Ok(text) => Ok(text@),
        Err(message) => Err(message@),
    }
}

/// What a result with bytes says.
pub open spec fn bytes_result(result: Result<Vec<u8>, String>) -> Result<Seq<u8>, Seq<char>> {
    match result {
        Ok(bytes) => Ok(bytes@),
        Err(message) => Err(message@),
    }
}

/// The message for a reply with the wrong status.
pub open spec fn status_message(what: Seq<char>, reply: HttpReplyModel) -> Seq<char> {
    what + " ("@ + decimal(reply.status as nat) + "): "@ + reply.body
}

fn message_of_status(what: &str, reply: &HttpReply) -> (message: String)
    ensures
        message@ == status_message(what@, reply@),
{
    let status = decimal_text(reply.status);
    what.to_owned().concat(" (").concat(status.as_str()).concat("): ").concat(reply.body.as_str())
}

/// Success on status 200; on any other a message.
pub open spec fn accepted(what: Seq<char>, reply: HttpReplyModel) -> Result<(), Seq<char>> {
    if reply.status == 200 {
        Ok(())
    } else {
        Err(status_message(what, reply))
    }
}

/// Accepts a reply with status 200.
pub fn accept(what: &str, reply: &HttpReply) -> (result: Result<(), String>)
    ensures
        unit_result(result) == accepted(what@, reply@),
{
    if reply.status == 200 {
        Ok(())
    } else {
        Err(message_of_status(what, reply))
    }
}

/// The document of a reply, or a message that opens with `problem`.
pub open spec fn parsed_body(problem: Seq<char>, reply: HttpReplyModel) -> Result<Json, Seq<char>> {
    match json_parsed(reply.body) {
        Ok(document) => Ok(document),
        Err(message) => Err(problem + message),
    }
}

/// What a result with a document says.
pub open spec fn document_result(result: Result<Value, String>) -> Result<Json, Seq<char>> {
    match result {
        Ok(value) => Ok(json_model(value)),
        Err(message) => Err(message@),
    }
}

/// Parses the body of a reply.
pub fn parse_body(problem: &str, reply: &HttpReply) -> (result: Result<Value, String>)
    ensures
        document_result(result) == parsed_body(problem@, reply@),
{
    match parse_value(reply.body.as_str()) {
        Ok(value) => Ok(value),
        Err(message) => Err(problem.to_owned().concat(message.as_str())),
    }
}

// ---------------------------------------------------------------------------
// Listed files
// ---------------------------------------------------------------------------

/// A file in a listing, as far as it is described there.
#[derive(Debug, PartialEq, Eq)]
pub struct DriveFile {
    pub id: Option<String>,
    pub mime_type: Option<String>,
    pub name: Option<String>,
}

/// What is said of a file in a listing.
pub struct DriveFileModel {
    pub id: Option<Seq<char>>,
    pub mime_type: Option<Seq<char>>,
    pub name: Option<Seq<char>>,
}

impl View for DriveFile {
    type V = DriveFileModel;

    open spec fn view(&self) -> DriveFileModel {
        DriveFileModel {
            id: optional_text(self.id),
            mime_type: optional_text(self.mime_type),
            name: optional_text(self.name),
        }
    }
}

/// The file that an item of a listing describes.
pub open spec fn described_file(item: Json) -> DriveFileModel {
    DriveFileModel {
        id: text_member(item, "id"@),
        mime_type: text_member(item, "mimeType"@),
        name: text_member(item, "name"@),
    }
}

/// The files that a listing describes; none where there is no list of files.
pub open spec fn described_files(listing: Json) -> Option<Seq<DriveFileModel>> {
    match list_member(listing, "files"@) {
        Some(items) => Some(items.map_values(|item: Json| described_file(item))),
        None => None,
    }
}

/// What a list of files says.
pub open spec fn file_models(files: Seq<DriveFile>) -> Seq<DriveFileModel> {
    files.map_values(|file: DriveFile| file@)
}

/// What an optional list of files says.
pub open spec fn optional_files(files: Option<Vec<DriveFile>>) -> Option<Seq<DriveFileModel>> {
    match files {
        Some(inner) => Some(file_models(inner@)),
        None => None,
    }
}

/// Reads the files out of a listing.
pub fn read_files(listing: &Value) -> (files: Option<Vec<DriveFile>>)
    ensures
        optional_files(files) == described_files(json_model(*listing)),
{
    match read_list(listing, "files") {
        Some(items) => {
            let ghost all = models(items@).map_values(|item: Json| described_file(item));
            let mut files: Vec<DriveFile> = Vec::new();
            let mut i: usize = 0;
            while i < items.len()
                invariant
                    i <= items@.len(),
                    all == models(items@).map_values(|item: Json| described_file(item)),
                    file_models(files@) == all.take(i as int),
                decreases items.len() - i,
            {
                let ghost before = files@;
                let item = &items[i];
                files.push(
                    DriveFile {
                        id: read_text(item, "id"),
                        mime_type: read_text(item, "mimeType"),
                        name: read_text(item, "name"),
                    },
                );
                assert(file_models(files@) =~= file_models(before).push(all[i as int]));
                i = i + 1;
                assert(all.take(i as int) =~= all.take(i - 1).push(all[i - 1]));
            }
            assert(all.take(i as int) =~= all);
            Some(files)
        },
        None => None,
    }
}

/// A file that a path leads to.
#[derive(Debug, PartialEq, Eq)]
pub struct FileRef {
    pub id: String,
    pub is_folder: bool,
}

/// What is known of a file that a path leads to.
pub struct FileRefModel {
    pub id: Seq<char>,
    pub is_folder: bool,
}

impl View for FileRef {
    type V = FileRefModel;

    open spec fn view(&self) -> FileRefModel {
        FileRefModel { id: self.id@, is_folder: self.is_folder }
    }
}

/// What a result with an optional file says.
pub open spec fn file_result(result: Result<Option<FileRef>, String>) -> Result<
    Option<FileRefModel>,
    Seq<char>,
> {
    match result {
        Ok(Some(file)) => Ok(Some(file@)),
        Ok(None) => Ok(None),
        Err(message) => Err(message@),
    }
}

/// The file that a search found: the first of the listing. A file without a
/// MIME type counts as no folder.
pub open spec fn first_file(files: Option<Seq<DriveFileModel>>) -> Result<
    Option<FileRefModel>,
    Seq<char>,
> {
    match files {
        None => Err("No files array in response"@),
        Some(listed) => if listed.len() == 0 {
            Ok(None)
        } else {
            match listed[0].id {
                None => Err("No file ID"@),
                Some(id) => Ok(
                    Some(
                        FileRefModel {
                            id,
                            is_folder: listed[0].mime_type == Some(FOLDER_MIME@),
                        },
                    ),
                ),
            }
        },
    }
}

/// Takes the file that a search found.
pub fn pick_file(files: &Option<Vec<DriveFile>>) -> (result: Result<Option<FileRef>, String>)
    ensures
        file_result(result) == first_file(optional_files(*files)),
{
    match files {
        None => Err("No files array in response".to_string()),
        Some(listed) => {
            if listed.len() == 0 {
                return Ok(None);
            }
            let file = &listed[0];
            assert(file_models(listed@)[0] == file@);
            match &file.id {
                None => Err("No file ID".to_string()),
                Some(id) => {
                    let is_folder = match &file.mime_type {
                        Some(mime_type) => same_text(mime_type.as_str(), FOLDER_MIME),
                        None => false,
                    };
                    Ok(Some(FileRef { id: id.clone(), is_folder }))
                },
            }
        },
    }
}

/// What the reply to a search for a file means.
pub open spec fn found_file(reply: HttpReplyModel) -> Result<Option<FileRefModel>, Seq<char>> {
    if reply.status != 200 {
        Err(status_message("GDrive search failed"@, reply))
    } else {
        match parsed_body("Failed to parse search response: "@, reply) {
            Ok(listing) => first_file(described_files(listing)),
            Err(message) => Err(message),
        }
    }
}

/// Reads the reply to a search for a file.
pub fn read_found_file(reply: &HttpReply) -> (result: Result<Option<FileRef>, String>)
    ensures
        file_result(result) == found_file(reply@),
{
    if reply.status != 200 {
        return Err(message_of_status("GDrive search failed", reply));
    }
    match parse_body("Failed to parse search response: ", reply) {
        Ok(listing) => pick_file(&read_files(&listing)),
        Err(message) => Err(message),
    }
}

/// The id of the first file of a listing, where there is one.
pub open spec fn first_id(files: Option<Seq<DriveFileModel>>) -> Option<Seq<char>> {
    match files {
        Some(listed) => if listed.len() == 0 {
            None
        } else {
            listed[0].id
        },
        None => None,
    }
}

/// Takes the id of the first file of a listing.
pub fn pick_id(files: &Option<Vec<DriveFile>>) -> (id: Option<String>)
    ensures
        optional_text(id) == first_id(optional_files(*files)),
{
    match files {
        Some(listed) => {
            if listed.len() == 0 {
                return None;
            }
            let file = &listed[0];
            assert(file_models(listed@)[0] == file@);
            match &file.id {
                Some(id) => Some(id.clone()),
                None => None,
            }
        },
        None => None,
    }
}

/// What the reply to a search for a folder means: the id of the folder, or none
/// where it has to be created. A refused search counts as one that found none.
pub open spec fn found_folder(reply: HttpReplyModel) -> Result<Option<Seq<char>>, Seq<char>> {
    if reply.status != 200 {
        Ok(None)
    } else {
        match parsed_body("parse: "@, reply) {
            Ok(listing) => Ok(first_id(described_files(listing))),
            Err(message) => Err(message),
        }
    }
}

/// What a result with an optional text says.
pub open spec fn optional_text_result(result: Result<Option<String>, String>) -> Result<
    Option<Seq<char>>,
    Seq<char>,
> {
    match result {
        Ok(text) => Ok(optional_text(text)),
        Err(message) => Err(message@),
    }
}

/// Reads the reply to a search for a folder.
pub fn read_found_folder(reply: &HttpReply) -> (result: Result<Option<String>, String>)
    ensures
        optional_text_result(result) == found_folder(reply@),
{
    if reply.status != 200 {
        return Ok(None);
    }
    match parse_body("parse: ", reply) {
        Ok(listing) => Ok(pick_id(&read_files(&listing))),
        Err(message) => Err(message),
    }
}

/// The names in a listing. A file without a name is left out.
pub open spec fn listed_names(files: Seq<DriveFileModel>) -> Seq<Seq<char>>
    decreases files.len(),
{
    if files.len() == 0 {
        Seq::empty()
    } else {
        let before = listed_names(files.drop_last());
        match files.last().name {
            Some(name) => before.push(name),
            None => before,
        }
    }
}

/// Takes the names in a listing.
pub fn pick_names(files: &Vec<DriveFile>) -> (names: Vec<String>)
    ensures
        texts(names@) == listed_names(file_models(files@)),
{
    let ghost all = file_models(files@);
    let mut names: Vec<String> = Vec::new();
    let mut i: usize = 0;
    assert(texts(names@) =~= Seq::empty());
    while i < files.len()
        invariant
            all == file_models(files@),
            i <= files@.len(),
            texts(names@) == listed_names(all.take(i as int)),
        decreases files.len() - i,
    {
        let ghost before = names@;
        assert(all[i as int] == files@[i as int]@);
        assert(all.take(i + 1).drop_last() =~= all.take(i as int));
        assert(all.take(i + 1).last() == all[i as int]);
        match &files[i].name {
            Some(name) => {
                names.push(name.clone());
                assert(texts(names@) =~= texts(before).push(name@));
            },
            None => {},
        }
        i = i + 1;
    }
    assert(all.take(i as int) =~= all);
    names
}

/// A page of a listing: names, and the token of the next page, if there is one.
#[derive(Debug, PartialEq, Eq)]
pub struct ListPage {
    pub names: Vec<String>,
    pub token: Option<String>,
}

/// What a page of a listing says.
pub struct ListPageModel {
    pub names: Seq<Seq<char>>,
    pub token: Option<Seq<char>>,
}

impl View for ListPage {
    type V = ListPageModel;

    open spec fn view(&self) -> ListPageModel {
        ListPageModel { names: texts(self.names@), token: optional_text(self.token) }
    }
}

/// What a result with a page says.
pub open spec fn page_result(result: Result<ListPage, String>) -> Result<
    ListPageModel,
    Seq<char>,
> {
    match result {
        Ok(page) => Ok(page@),
        Err(message) => Err(message@),
    }
}

/// What the reply to a request for a page of a listing means.
pub open spec fn listed_page(reply: HttpReplyModel) -> Result<ListPageModel, Seq<char>> {
    if reply.status != 200 {
        Err(status_message("GDrive list failed"@, reply))
    } else {
        match parsed_body("parse: "@, reply) {
            Ok(document) => match described_files(document) {
                Some(files) => Ok(
                    ListPageModel {
                        names: listed_names(files),
                        token: text_member(document, "nextPageToken"@),
                    },
                ),
                None => Err("No files array"@),
            },
            Err(message) => Err(message),
        }
    }
}

/// Reads the reply to a request for a page of a listing.
pub fn read_page(reply: &HttpReply) -> (result: Result<ListPage, String>)
    ensures
        page_result(result) == listed_page(reply@),
{
    if reply.status != 200 {
        return Err(message_of_status("GDrive list failed", reply));
    }
    match parse_body("parse: ", reply) {
        Ok(document) => match read_files(&document) {
            Some(files) => Ok(
                ListPage {
                    names: pick_names(&files),
                    token: read_text(&document, "nextPageToken"),
                },
            ),
            None => Err("No files array".to_string()),
        },
        Err(message) => Err(message),
    }
}

/// The predicate that keeps the names of Markdown files.
pub open spec fn is_markdown() -> spec_fn(Seq<char>) -> bool {
    |name: Seq<char>| has_suffix(name, ".md"@)
}

/// The names that end in `.md`, in order.
pub open spec fn markdown_names(names: Seq<Seq<char>>) -> Seq<Seq<char>> {
    names.filter(is_markdown())
}

/// Keeps the names that end in `.md`.
pub fn keep_markdown(names: Vec<String>) -> (kept: Vec<String>)
    ensures
        texts(kept@) == markdown_names(texts(names@)),
{
    let ghost all = texts(names@);
    let mut kept: Vec<String> = Vec::new();
    let mut i: usize = 0;
    proof {
        reveal(Seq::filter);
        assert(all.take(0).filter(is_markdown()) =~= Seq::empty());
        assert(texts(kept@) =~= Seq::empty());
    }
    while i < names.len()
        invariant
            all == texts(names@),
            i <= names@.len(),
            texts(kept@) == all.take(i as int).filter(is_markdown()),
        decreases names.len() - i,
    {
        let ghost before = kept@;
        proof {
            reveal(Seq::filter);
            assert(all[i as int] == names@[i as int]@);
            assert(all.take(i + 1).drop_last() =~= all.take(i as int));
        }
        if ends_with(names[i].as_str(), ".md") {
            kept.push(names[i].clone());
            assert(texts(kept@) =~= texts(before).push(all[i as int]));
        }
        i = i + 1;
    }
    assert(all.take(i as int) =~= all);
    kept
}

// ---------------------------------------------------------------------------
// Other replies
// ---------------------------------------------------------------------------

/// What a document that describes a created folder says.
pub open spec fn created_id(document: Json) -> Result<Seq<char>, Seq<char>> {
    match text_member(document, "id"@) {
        Some(id) => Ok(id),
        None => Err("No id in create folder response"@),
    }
}

/// What the reply to the creation of a folder means.
pub open spec fn created_folder(reply: HttpReplyModel) -> Result<Seq<char>, Seq<char>> {
    if reply.status != 200 {
        Err(status_message("Create folder failed"@, reply))
    } else {
        match parsed_body("parse: "@, reply) {
            Ok(document) => created_id(document),
            Err(message) => Err(message),
        }
    }
}

/// Reads the reply to the creation of a folder.
pub fn read_created_folder(reply: &HttpReply) -> (result: Result<String, String>)
    ensures
        text_result(result) == created_folder(reply@),
{
    if reply.status != 200 {
        return Err(message_of_status("Create folder failed", reply));
    }
    match parse_body("parse: ", reply) {
        Ok(document) => match read_text(&document, "id") {
            Some(id) => Ok(id),
            None => Err("No id in create folder response".to_string()),
        },
        Err(message) => Err(message),
    }
}

/// What the reply to a request for text content means.
pub open spec fn media_text(reply: HttpReplyModel) -> Result<Seq<char>, Seq<char>> {
    if reply.status == 200 {
        Ok(reply.body)
    } else {
        Err(status_message("GDrive read failed"@, reply))
    }
}

/// Reads the reply to a request for text content.
pub fn read_media_text(reply: &HttpReply) -> (result: Result<String, String>)
    ensures
        text_result(result) == media_text(reply@),
{
    if reply.status == 200 {
        Ok(reply.body.clone())
    } else {
        Err(message_of_status("GDrive read failed", reply))
    }
}

/// What the reply to a request for binary content means.
pub open spec fn media_bytes(reply: HttpReplyModel) -> Result<Seq<u8>, Seq<char>> {
    if reply.status == 200 {
        reply_bytes(reply)
    } else {
        Err(status_message("GDrive read failed"@, reply))
    }
}

/// Reads the reply to a request for binary content.
pub fn read_media_bytes(reply: &HttpReply) -> (result: Result<Vec<u8>, String>)
    ensures
        bytes_result(result) == media_bytes(reply@),
        result matches Ok(bytes) ==> is_encodable(reply@) ==> base64_length(bytes@.len())
            <= isize::MAX,
{
    if reply.status == 200 {
        body_bytes(reply)
    } else {
        Err(message_of_status("GDrive read failed", reply))
    }
}

/// What the reply to a deletion means. A file that is not there any more counts
/// as deleted.
pub open spec fn deleted(reply: HttpReplyModel) -> Result<(), Seq<char>> {
    if reply.status == 204 || reply.status == 200 || reply.status == 404 {
        Ok(())
    } else {
        Err(status_message("GDrive delete failed"@, reply))
    }
}

/// Reads the reply to a deletion.
pub fn read_deleted(reply: &HttpReply) -> (result: Result<(), String>)
    ensures
        unit_result(result) == deleted(reply@),
{
    if reply.status == 204 || reply.status == 200 || reply.status == 404 {
        Ok(())
    } else {
        Err(message_of_status("GDrive delete failed", reply))
    }
}

/// The time when a file was last modified, in milliseconds since the epoch, as the
/// reply tells it; none where it does not.
pub open spec fn told_time(reply: HttpReplyModel) -> Option<i64> {
    if reply.status == 200 {
        match json_parsed(reply.body) {
            Ok(document) => match text_member(document, "modifiedTime"@) {
                Some(text) => rfc3339_millis(text),
                None => None,
            },
            Err(_) => None,
        }
    } else {
        None
    }
}

/// Reads when a file was last modified.
pub fn read_time(reply: &HttpReply) -> (time: Option<i64>)
    ensures
        time == told_time(reply@),
{
    if reply.status != 200 {
        return None;
    }
    match parse_value(reply.body.as_str()) {
        Ok(document) => match read_text(&document, "modifiedTime") {
            Some(text) => parse_rfc3339(text.as_str()),
            None => None,
        },
        Err(_) => None,
    }
}

/// The first folder in a document that lists the folders of a file; empty where
/// there is none.
pub open spec fn first_parent(document: Json) -> Seq<char> {
    match list_member(document, "parents"@) {
        Some(parents) => if parents.len() == 0 {
            Seq::empty()
        } else {
            match as_text(parents[0]) {
                Some(parent) => parent,
                None => Seq::empty(),
            }
        },
        None => Seq::empty(),
    }
}

/// Takes the first folder out of a document that lists the folders of a file.
pub fn pick_parent(document: &Value) -> (parent: String)
    ensures
        parent@ == first_parent(json_model(*document)),
{
    match read_list(document, "parents") {
        Some(parents) => {
            if parents.len() == 0 {
                return String::new();
            }
            assert(models(parents@)[0] == json_model(parents@[0]));
            match text_of(&parents[0]) {
                Some(parent) => parent.to_owned(),
                None => String::new(),
            }
        },
        None => String::new(),
    }
}

/// The folder that a file is in, as the reply tells it; empty where it does not.
pub open spec fn told_parent(reply: HttpReplyModel) -> Seq<char> {
    if reply.status == 200 {
        match json_parsed(reply.body) {
            Ok(document) => first_parent(document),
            Err(_) => Seq::empty(),
        }
    } else {
        Seq::empty()
    }
}

/// Reads which folder a file is in.
pub fn read_parent(reply: &HttpReply) -> (parent: String)
    ensures
        parent@ == told_parent(reply@),
{
    if reply.status == 200 {
        match parse_value(reply.body.as_str()) {
            Ok(document) => pick_parent(&document),
            Err(_) => String::new(),
        }
    } else {
        String::new()
    }
}

// ---------------------------------------------------------------------------
// Tokens
// ---------------------------------------------------------------------------

/// The access token in a document.
pub open spec fn access_token(document: Json) -> Result<Seq<char>, Seq<char>> {
    match text_member(document, "access_token"@) {
        Some(token) => Ok(token),
        None => Err("No access_token in response"@),
    }
}

/// Takes the access token out of a document.
pub fn pick_access_token(document: &Value) -> (result: Result<String, String>)
    ensures
        text_result(result) == access_token(json_model(*document)),
{
    match read_text(document, "access_token") {
        Some(token) => Ok(token),
        None => Err("No access_token in response".to_string()),
    }
}

/// What the reply to a refresh means: the new access token.
pub open spec fn refreshed_token(reply: HttpReplyModel) -> Result<Seq<char>, Seq<char>> {
    if reply.status != 200 {
        Err(status_message("Token refresh failed"@, reply))
    } else {
        match parsed_body("Failed to parse token response: "@, reply) {
            Ok(document) => access_token(document),
            Err(message) => Err(message),
        }
    }
}

/// Reads the reply to a refresh.
pub fn read_refreshed_token(reply: &HttpReply) -> (result: Result<String, String>)
    ensures
        text_result(result) == refreshed_token(reply@),
{
    if reply.status != 200 {
        return Err(message_of_status("Token refresh failed", reply));
    }
    match parse_body("Failed to parse token response: ", reply) {
        Ok(document) => pick_access_token(&document),
        Err(message) => Err(message),
    }
}

/// The access token and the refresh token in a document.
pub open spec fn both_tokens(document: Json) -> Result<(Seq<char>, Seq<char>), Seq<char>> {
    match access_token(document) {
        Ok(access) => match text_member(document, "refresh_token"@) {
            Some(refresh) => Ok((access, refresh)),
            None => Err("No refresh_token in response"@),
        },
        Err(message) => Err(message),
    }
}

/// What a result with two tokens says.
pub open spec fn tokens_result(result: Result<(String, String), String>) -> Result<
    (Seq<char>, Seq<char>),
    Seq<char>,
> {
    match result {
        Ok(tokens) => Ok((tokens.0@, tokens.1@)),
        Err(message) => Err(message@),
    }
}

/// Takes the access token and the refresh token out of a document.
pub fn pick_tokens(document: &Value) -> (result: Result<(String, String), String>)
    ensures
        tokens_result(result) == both_tokens(json_model(*document)),
{
    match pick_access_token(document) {
        Ok(access) => match read_text(document, "refresh_token") {
            Some(refresh) => Ok((access, refresh)),
            None => Err("No refresh_token in response".to_string()),
        },
        Err(message) => Err(message),
    }
}

/// What the reply to an exchange means: the access token and the refresh token.
pub open spec fn exchanged_tokens(reply: HttpReplyModel) -> Result<
    (Seq<char>, Seq<char>),
    Seq<char>,
> {
    if reply.status != 200 {
        Err(status_message("Token exchange failed"@, reply))
    } else {
        match parsed_body("Failed to parse token response: "@, reply) {
            Ok(document) => both_tokens(document),
            Err(message) => Err(message),
        }
    }
}

/// Reads the reply to an exchange.
pub fn read_exchanged_tokens(reply: &HttpReply) -> (result: Result<(String, String), String>)
    ensures
        tokens_result(result) == exchanged_tokens(reply@),
{
    if reply.status != 200 {
        return Err(message_of_status("Token exchange failed", reply));
    }
    match parse_body("Failed to parse token response: ", reply) {
        Ok(document) => pick_tokens(&document),
        Err(message) => Err(message),
    }
}

} // verus!
