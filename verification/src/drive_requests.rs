//! The requests of the Google Drive REST API and of Google's token endpoint.
use crate::config::{bearer_headers, ConfigModel, GDriveConfig};
use crate::encoding::{escape_query, escaped, uri_encode, uri_encoded};
use crate::http::{header_models, Body, BodyModel, HttpRequest, HttpRequestModel, Method};
use crate::json::{
    entry_models, json_model, json_text, list_value, models, object_value, optional_text, record,
    render_value, text_value, Json,
};
use crate::multipart::{build_multipart_upload, upload_body, upload_type};
use serde_json::Value;
use vstd::prelude::*;
use vstd::string::*;

verus! {

/// Where the Drive API lives.
pub const API_BASE: &'static str = "https://www.googleapis.com/drive/v3";

/// Where content is uploaded to.
pub const UPLOAD_BASE: &'static str = "https://www.googleapis.com/upload/drive/v3";

/// The endpoint that hands out tokens.
pub const TOKEN_URL: &'static str = "https://oauth2.googleapis.com/token";

/// The MIME type of a folder.
pub const FOLDER_MIME: &'static str = "application/vnd.google-apps.folder";

// ---------------------------------------------------------------------------
// Shapes
// ---------------------------------------------------------------------------

/// A request without a body that carries the access token.
pub open spec fn bare_request(
    config: ConfigModel,
    method: Method,
    url: Seq<char>,
) -> HttpRequestModel {
    HttpRequestModel { method, url, headers: bearer_headers(config), body: BodyModel::Empty }
}

/// A request with a body of some type that carries the access token.
pub open spec fn loaded_request(
    config: ConfigModel,
    method: Method,
    url: Seq<char>,
    content_type: Seq<char>,
    body: BodyModel,
) -> HttpRequestModel {
    HttpRequestModel {
        method,
        url,
        headers: bearer_headers(config).push(("Content-Type"@, content_type)),
        body,
    }
}

fn bare(config: &GDriveConfig, method: Method, url: String) -> (request: HttpRequest)
    ensures
        request@ == bare_request(config@, method, url@),
{
    HttpRequest { method, url, headers: config.auth_headers(), body: Body::Empty }
}

fn loaded(
    config: &GDriveConfig,
    method: Method,
    url: String,
    content_type: &str,
    body: Body,
) -> (request: HttpRequest)
    ensures
        request@ == loaded_request(config@, method, url@, content_type@, body@),
{
    let mut headers = config.auth_headers();
    let ghost before = headers@;
    headers.push(("Content-Type".to_string(), content_type.to_owned()));
    assert(header_models(headers@) =~= header_models(before).push(
        ("Content-Type"@, content_type@),
    ));
    HttpRequest { method, url, headers, body }
}

/// The URL of a file.
pub open spec fn file_url(id: Seq<char>) -> Seq<char> {
    API_BASE@ + "/files/"@ + id
}

fn url_of_file(id: &str) -> (url: String)
    ensures
        url@ == file_url(id@),
{
    API_BASE.to_string().concat("/files/").concat(id)
}

// ---------------------------------------------------------------------------
// Searches
// ---------------------------------------------------------------------------

/// The query for a file of some name in a folder.
pub open spec fn name_query(parent: Seq<char>, name: Seq<char>) -> Seq<char> {
    "name = '"@ + escaped(name) + "' and '"@ + parent + "' in parents and trashed = false"@
}

/// The query for a folder of some name in a folder.
pub open spec fn folder_query(parent: Seq<char>, name: Seq<char>) -> Seq<char> {
    "name = '"@ + escaped(name) + "' and '"@ + parent + "' in parents and mimeType = '"@
        + FOLDER_MIME@ + "' and trashed = false"@
}

/// The query for everything in a folder.
pub open spec fn children_query(parent: Seq<char>) -> Seq<char> {
    "'"@ + parent + "' in parents and trashed = false"@
}

/// The URL of a search.
pub open spec fn search_url(query: Seq<char>, options: Seq<char>) -> Seq<char> {
    API_BASE@ + "/files?q="@ + uri_encoded(query) + options
}

fn url_of_search(query: &str, options: &str) -> (url: String)
    ensures
        url@ == search_url(query@, options@),
{
    let encoded = uri_encode(query);
    API_BASE.to_string().concat("/files?q=").concat(encoded.as_str()).concat(options)
}

/// Asks for one file of some name in a folder.
pub open spec fn find_file_model(
    config: ConfigModel,
    parent: Seq<char>,
    name: Seq<char>,
) -> HttpRequestModel {
    bare_request(
        config,
        Method::Get,
        search_url(name_query(parent, name), "&fields=files(id,mimeType)&pageSize=1"@),
    )
}

/// Asks for one file of some name in a folder.
pub fn find_file_request(config: &GDriveConfig, parent: &str, name: &str) -> (request: HttpRequest)
    ensures
        request@ == find_file_model(config@, parent@, name@),
{
    let literal = escape_query(name);
    let query = "name = '".to_string().concat(literal.as_str()).concat("' and '").concat(
        parent,
    ).concat("' in parents and trashed = false");
    bare(
        config,
        Method::Get,
        url_of_search(query.as_str(), "&fields=files(id,mimeType)&pageSize=1"),
    )
}

/// Asks for one folder of some name in a folder.
pub open spec fn find_folder_model(
    config: ConfigModel,
    parent: Seq<char>,
    name: Seq<char>,
) -> HttpRequestModel {
    bare_request(
        config,
        Method::Get,
        search_url(folder_query(parent, name), "&fields=files(id)&pageSize=1"@),
    )
}

/// Asks for one folder of some name in a folder.
pub fn find_folder_request(config: &GDriveConfig, parent: &str, name: &str) -> (request:
    HttpRequest)
    ensures
        request@ == find_folder_model(config@, parent@, name@),
{
    let literal = escape_query(name);
    let query = "name = '".to_string().concat(literal.as_str()).concat("' and '").concat(
        parent,
    ).concat("' in parents and mimeType = '").concat(FOLDER_MIME).concat("' and trashed = false");
    bare(config, Method::Get, url_of_search(query.as_str(), "&fields=files(id)&pageSize=1"))
}

/// What is asked of a listing: the names and the token of the next page, and the
/// page with some token, or the first one.
pub open spec fn list_options(token: Option<Seq<char>>) -> Seq<char> {
    match token {
        Some(page) => "&fields=nextPageToken,files(name)&pageSize=1000"@ + "&pageToken="@
            + uri_encoded(page),
        None => "&fields=nextPageToken,files(name)&pageSize=1000"@,
    }
}

/// Asks for a page of the names of everything in a folder.
pub open spec fn list_model(
    config: ConfigModel,
    parent: Seq<char>,
    token: Option<Seq<char>>,
) -> HttpRequestModel {
    bare_request(
        config,
        Method::Get,
        search_url(children_query(parent), list_options(token)),
    )
}

/// Asks for a page of the names of everything in a folder.
pub fn list_request(config: &GDriveConfig, parent: &str, token: &Option<String>) -> (request:
    HttpRequest)
    ensures
        request@ == list_model(config@, parent@, optional_text(*token)),
{
    let query = "'".to_string().concat(parent).concat("' in parents and trashed = false");
    let options = match token {
        Some(page) => {
            let encoded = uri_encode(page.as_str());
            "&fields=nextPageToken,files(name)&pageSize=1000".to_string().concat(
                "&pageToken=",
            ).concat(encoded.as_str())
        },
        None => "&fields=nextPageToken,files(name)&pageSize=1000".to_string(),
    };
    bare(config, Method::Get, url_of_search(query.as_str(), options.as_str()))
}

// ---------------------------------------------------------------------------
// Files
// ---------------------------------------------------------------------------

/// Asks for the content of a file.
pub open spec fn media_model(config: ConfigModel, id: Seq<char>) -> HttpRequestModel {
    bare_request(config, Method::Get, file_url(id) + "?alt=media"@)
}

/// Asks for the content of a file.
pub fn media_request(config: &GDriveConfig, id: &str) -> (request: HttpRequest)
    ensures
        request@ == media_model(config@, id@),
{
    bare(config, Method::Get, url_of_file(id).concat("?alt=media"))
}

/// Asks for the folders that a file is in.
pub open spec fn parents_model(config: ConfigModel, id: Seq<char>) -> HttpRequestModel {
    bare_request(config, Method::Get, file_url(id) + "?fields=parents"@)
}

/// Asks for the folders that a file is in.
pub fn parents_request(config: &GDriveConfig, id: &str) -> (request: HttpRequest)
    ensures
        request@ == parents_model(config@, id@),
{
    bare(config, Method::Get, url_of_file(id).concat("?fields=parents"))
}

/// Asks for the time when a file was last modified.
pub open spec fn modified_model(config: ConfigModel, id: Seq<char>) -> HttpRequestModel {
    bare_request(config, Method::Get, file_url(id) + "?fields=modifiedTime"@)
}

/// Asks for the time when a file was last modified.
pub fn modified_request(config: &GDriveConfig, id: &str) -> (request: HttpRequest)
    ensures
        request@ == modified_model(config@, id@),
{
    bare(config, Method::Get, url_of_file(id).concat("?fields=modifiedTime"))
}

/// Deletes a file.
pub open spec fn delete_model(config: ConfigModel, id: Seq<char>) -> HttpRequestModel {
    bare_request(config, Method::Delete, file_url(id))
}

/// Deletes a file.
pub fn delete_request(config: &GDriveConfig, id: &str) -> (request: HttpRequest)
    ensures
        request@ == delete_model(config@, id@),
{
    bare(config, Method::Delete, url_of_file(id))
}

/// Replaces the content of a file.
pub open spec fn update_model(
    config: ConfigModel,
    id: Seq<char>,
    content: Seq<u8>,
    content_type: Seq<char>,
) -> HttpRequestModel {
    loaded_request(
        config,
        Method::Patch,
        UPLOAD_BASE@ + "/files/"@ + id + "?uploadType=media"@,
        content_type,
        BodyModel::Bytes(content),
    )
}

/// Replaces the content of a file.
pub fn update_request(
    config: &GDriveConfig,
    id: &str,
    content: Vec<u8>,
    content_type: &str,
) -> (request: HttpRequest)
    ensures
        request@ == update_model(config@, id@, content@, content_type@),
{
    let url = UPLOAD_BASE.to_string().concat("/files/").concat(id).concat("?uploadType=media");
    loaded(config, Method::Patch, url, content_type, Body::Bytes(content))
}

/// What is said of a new file: its name and its folder.
pub open spec fn file_metadata(parent: Seq<char>, name: Seq<char>) -> Json {
    record(
        seq![("name"@, Json::Text(name)), ("parents"@, Json::List(seq![Json::Text(parent)]))],
    )
}

fn parents_value(parent: &str) -> (value: Value)
    ensures
        json_model(value) == Json::List(seq![Json::Text(parent@)]),
{
    let items: Vec<Value> = vec![text_value(parent)];
    assert(models(items@) =~= seq![Json::Text(parent@)]);
    list_value(items)
}

/// Creates a file with its content.
pub open spec fn create_file_model(
    config: ConfigModel,
    parent: Seq<char>,
    name: Seq<char>,
    content: Seq<u8>,
    content_type: Seq<char>,
) -> HttpRequestModel {
    loaded_request(
        config,
        Method::Post,
        UPLOAD_BASE@ + "/files?uploadType=multipart"@,
        upload_type(),
        BodyModel::Bytes(
            upload_body(json_text(file_metadata(parent, name)), content, content_type),
        ),
    )
}

/// Creates a file with its content.
pub fn create_file_request(
    config: &GDriveConfig,
    parent: &str,
    name: &str,
    content: &Vec<u8>,
    content_type: &str,
) -> (request: HttpRequest)
    ensures
        request@ == create_file_model(config@, parent@, name@, content@, content_type@),
{
    let entries: Vec<(&'static str, Value)> = vec![
        ("name", text_value(name)),
        ("parents", parents_value(parent)),
    ];
    assert(entry_models(entries@) =~= seq![
        ("name"@, Json::Text(name@)),
        ("parents"@, Json::List(seq![Json::Text(parent@)])),
    ]);
    let metadata = render_value(&object_value(entries));
    let (upload, body) = build_multipart_upload(
        metadata.as_str(),
        content.as_slice(),
        content_type,
    );
    let url = UPLOAD_BASE.to_string().concat("/files?uploadType=multipart");
    loaded(config, Method::Post, url, upload.as_str(), Body::Bytes(body))
}

/// What is said of a new folder: its name, that it is one, and its folder.
pub open spec fn folder_metadata(parent: Seq<char>, name: Seq<char>) -> Json {
    record(
        seq![
            ("name"@, Json::Text(name)),
            ("mimeType"@, Json::Text(FOLDER_MIME@)),
            ("parents"@, Json::List(seq![Json::Text(parent)])),
        ],
    )
}

/// Creates a folder.
pub open spec fn create_folder_model(
    config: ConfigModel,
    parent: Seq<char>,
    name: Seq<char>,
) -> HttpRequestModel {
    loaded_request(
        config,
        Method::Post,
        API_BASE@ + "/files"@,
        "application/json"@,
        BodyModel::Text(json_text(folder_metadata(parent, name))),
    )
}

/// Creates a folder.
pub fn create_folder_request(config: &GDriveConfig, parent: &str, name: &str) -> (request:
    HttpRequest)
    ensures
        request@ == create_folder_model(config@, parent@, name@),
{
    let entries: Vec<(&'static str, Value)> = vec![
        ("name", text_value(name)),
        ("mimeType", text_value(FOLDER_MIME)),
        ("parents", parents_value(parent)),
    ];
    assert(entry_models(entries@) =~= seq![
        ("name"@, Json::Text(name@)),
        ("mimeType"@, Json::Text(FOLDER_MIME@)),
        ("parents"@, Json::List(seq![Json::Text(parent@)])),
    ]);
    let metadata = render_value(&object_value(entries));
    let url = API_BASE.to_string().concat("/files");
    loaded(config, Method::Post, url, "application/json", Body::Text(metadata))
}

/// Moves a file from one folder to another and names it.
pub open spec fn move_model(
    config: ConfigModel,
    id: Seq<char>,
    new_parent: Seq<char>,
    old_parent: Seq<char>,
    name: Seq<char>,
) -> HttpRequestModel {
    loaded_request(
        config,
        Method::Patch,
        file_url(id) + "?addParents="@ + new_parent + "&removeParents="@ + old_parent,
        "application/json"@,
        BodyModel::Text(json_text(record(seq![("name"@, Json::Text(name))]))),
    )
}

/// Moves a file from one folder to another and names it.
pub fn move_request(
    config: &GDriveConfig,
    id: &str,
    new_parent: &str,
    old_parent: &str,
    name: &str,
) -> (request: HttpRequest)
    ensures
        request@ == move_model(config@, id@, new_parent@, old_parent@, name@),
{
    let entries: Vec<(&'static str, Value)> = vec![("name", text_value(name))];
    assert(entry_models(entries@) =~= seq![("name"@, Json::Text(name@))]);
    let metadata = render_value(&object_value(entries));
    let url = url_of_file(id).concat("?addParents=").concat(new_parent).concat(
        "&removeParents=",
    ).concat(old_parent);
    loaded(config, Method::Patch, url, "application/json", Body::Text(metadata))
}

// ---------------------------------------------------------------------------
// Tokens
// ---------------------------------------------------------------------------

/// A form sent to the token endpoint.
pub open spec fn token_model(form: Seq<char>) -> HttpRequestModel {
    HttpRequestModel {
        method: Method::Post,
        url: TOKEN_URL@,
        headers: seq![("Content-Type"@, "application/x-www-form-urlencoded"@)],
        body: BodyModel::Text(form),
    }
}

fn token_request(form: String) -> (request: HttpRequest)
    ensures
        request@ == token_model(form@),
{
    let mut headers: Vec<(String, String)> = Vec::new();
    headers.push(("Content-Type".to_string(), "application/x-www-form-urlencoded".to_string()));
    assert(header_models(headers@) =~= seq![
        ("Content-Type"@, "application/x-www-form-urlencoded"@),
    ]);
    HttpRequest {
        method: Method::Post,
        url: TOKEN_URL.to_string(),
        headers,
        body: Body::Text(form),
    }
}

/// The form that asks for a new access token.
pub open spec fn refresh_form(config: ConfigModel) -> Seq<char> {
    "client_id="@ + uri_encoded(config.client_id) + "&client_secret="@ + uri_encoded(
        config.client_secret,
    ) + "&refresh_token="@ + uri_encoded(config.refresh_token) + "&grant_type=refresh_token"@
}

/// Asks for a new access token.
pub fn refresh_request(config: &GDriveConfig) -> (request: HttpRequest)
    ensures
        request@ == token_model(refresh_form(config@)),
{
    let id = uri_encode(config.client_id.as_str());
    let secret = uri_encode(config.client_secret.as_str());
    let token = uri_encode(config.refresh_token.as_str());
    token_request(
        "client_id=".to_string().concat(id.as_str()).concat("&client_secret=").concat(
            secret.as_str(),
        ).concat("&refresh_token=").concat(token.as_str()).concat("&grant_type=refresh_token"),
    )
}

/// The form that exchanges an authorization code for tokens.
pub open spec fn exchange_form(
    config: ConfigModel,
    code: Seq<char>,
    redirect_uri: Seq<char>,
) -> Seq<char> {
    "client_id="@ + uri_encoded(config.client_id) + "&client_secret="@ + uri_encoded(
        config.client_secret,
    ) + "&code="@ + uri_encoded(code) + "&redirect_uri="@ + uri_encoded(redirect_uri)
        + "&grant_type=authorization_code"@
}

/// The form that exchanges an authorization code for tokens, with the verifier
/// of the code challenge that the code was granted for.
pub open spec fn verified_exchange_form(
    config: ConfigModel,
    code: Seq<char>,
    redirect_uri: Seq<char>,
    code_verifier: Seq<char>,
) -> Seq<char> {
    exchange_form(config, code, redirect_uri) + "&code_verifier="@ + uri_encoded(code_verifier)
}

fn form_of_exchange(config: &GDriveConfig, code: &str, redirect_uri: &str) -> (form: String)
    ensures
        form@ == exchange_form(config@, code@, redirect_uri@),
{
    let id = uri_encode(config.client_id.as_str());
    let secret = uri_encode(config.client_secret.as_str());
    let code = uri_encode(code);
    let redirect = uri_encode(redirect_uri);
    "client_id=".to_string().concat(id.as_str()).concat("&client_secret=").concat(
        secret.as_str(),
    ).concat("&code=").concat(code.as_str()).concat("&redirect_uri=").concat(
        redirect.as_str(),
    ).concat("&grant_type=authorization_code")
}

/// Exchanges an authorization code for tokens.
pub fn exchange_request(config: &GDriveConfig, code: &str, redirect_uri: &str) -> (request:
    HttpRequest)
    ensures
        request@ == token_model(exchange_form(config@, code@, redirect_uri@)),
{
    token_request(form_of_exchange(config, code, redirect_uri))
}

/// Exchanges an authorization code for tokens, with the code verifier.
pub fn verified_exchange_request(
    config: &GDriveConfig,
    code: &str,
    redirect_uri: &str,
    code_verifier: &str,
) -> (request: HttpRequest)
    ensures
        request@ == token_model(
            verified_exchange_form(config@, code@, redirect_uri@, code_verifier@),
        ),
{
    let verifier = uri_encode(code_verifier);
    token_request(
        form_of_exchange(config, code, redirect_uri).concat("&code_verifier=").concat(
            verifier.as_str(),
        ),
    )
}

} // verus!
