//! The start of the OAuth sign-in, which takes place in the browser.
use crate::commands::{
    error_response, missing, missing_message, ok_response, CommandResponse, OAuthModel, OAuthParams,
    ResponseModel,
};
use crate::config::{ConfigModel, GDriveConfig};
use crate::encoding::{uri_encode, uri_encoded};
use crate::json::{
    copy_value, entry_models, json_model, object_value, optional_text, record, text_value, Json,
};
use crate::text::{blank, is_blank, trim, trimmed};
use serde_json::Value;
use vstd::prelude::*;
use vstd::string::*;

verus! {

/// The permission that is asked for: files that the application created.
pub const SCOPE: &'static str = "https://www.googleapis.com/auth/drive.file";

/// The page where the user grants access, for an authorization code with an
/// S256 code challenge.
pub open spec fn consent_url(
    client_id: Seq<char>,
    redirect_uri: Seq<char>,
    code_challenge: Seq<char>,
) -> Seq<char> {
    "https://accounts.google.com/o/oauth2/v2/auth?client_id="@ + uri_encoded(client_id)
        + "&redirect_uri="@ + uri_encoded(redirect_uri) + "&response_type=code&scope="@
        + uri_encoded(SCOPE@) + "&access_type=offline&prompt=consent&code_challenge="@
        + uri_encoded(code_challenge) + "&code_challenge_method=S256"@
}

fn url_of_consent(client_id: &str, redirect_uri: &str, code_challenge: &str) -> (url: String)
    ensures
        url@ == consent_url(client_id@, redirect_uri@, code_challenge@),
{
    let client = uri_encode(client_id);
    let redirect = uri_encode(redirect_uri);
    let scope = uri_encode(SCOPE);
    let challenge = uri_encode(code_challenge);
    "https://accounts.google.com/o/oauth2/v2/auth?client_id=".to_string().concat(
        client.as_str(),
    ).concat("&redirect_uri=").concat(redirect.as_str()).concat(
        "&response_type=code&scope=",
    ).concat(scope.as_str()).concat(
        "&access_type=offline&prompt=consent&code_challenge=",
    ).concat(challenge.as_str()).concat("&code_challenge_method=S256")
}

/// An optional text, where it is not blank.
pub open spec fn filled(text: Option<Seq<char>>) -> Option<Seq<char>> {
    match text {
        Some(inner) => if is_blank(inner) {
            None
        } else {
            Some(inner)
        },
        None => None,
    }
}

fn keep_filled(text: &Option<String>) -> (kept: Option<String>)
    ensures
        optional_text(kept) == filled(optional_text(*text)),
{
    match text {
        Some(inner) => if blank(inner.as_str()) {
            None
        } else {
            Some(inner.clone())
        },
        None => None,
    }
}

/// The client to sign in with: the one given, white space around it removed, or
/// the configured one. None where both are blank.
pub open spec fn chosen_client(given: Option<Seq<char>>, configured: Seq<char>) -> Option<
    Seq<char>,
> {
    match filled(given) {
        Some(client) => Some(trimmed(client)),
        None => filled(Some(configured)),
    }
}

fn choose_client(given: &Option<String>, configured: &String) -> (client: Option<String>)
    ensures
        optional_text(client) == chosen_client(optional_text(*given), configured@),
{
    match keep_filled(given) {
        Some(client) => Some(trim(client.as_str())),
        None => if blank(configured.as_str()) {
            None
        } else {
            Some(configured.clone())
        },
    }
}

/// What the host is told: to open the page, and which command is to follow.
pub open spec fn sign_in(
    url: Seq<char>,
    redirect_uri_prefix: Seq<char>,
    code_verifier: Json,
) -> Json {
    record(
        seq![
            (
                "host_action"@,
                record(
                    seq![
                        ("type"@, Json::Text("open-oauth"@)),
                        (
                            "payload"@,
                            record(
                                seq![
                                    ("url"@, Json::Text(url)),
                                    ("redirect_uri_prefix"@, Json::Text(redirect_uri_prefix)),
                                ],
                            ),
                        ),
                    ],
                ),
            ),
            (
                "follow_up"@,
                record(
                    seq![
                        ("command"@, Json::Text("CompleteOAuth"@)),
                        ("params"@, record(seq![("code_verifier"@, code_verifier)])),
                    ],
                ),
            ),
        ],
    )
}

fn tell_sign_in(url: &str, redirect_uri_prefix: &str, code_verifier: &Value) -> (told: Value)
    ensures
        json_model(told) == sign_in(url@, redirect_uri_prefix@, json_model(*code_verifier)),
{
    let payload: Vec<(&'static str, Value)> = vec![
        ("url", text_value(url)),
        ("redirect_uri_prefix", text_value(redirect_uri_prefix)),
    ];
    assert(entry_models(payload@) =~= seq![
        ("url"@, Json::Text(url@)),
        ("redirect_uri_prefix"@, Json::Text(redirect_uri_prefix@)),
    ]);
    let action: Vec<(&'static str, Value)> = vec![
        ("type", text_value("open-oauth")),
        ("payload", object_value(payload)),
    ];
    assert(entry_models(action@) =~= seq![
        ("type"@, Json::Text("open-oauth"@)),
        ("payload"@, record(entry_models(payload@))),
    ]);
    let params: Vec<(&'static str, Value)> = vec![("code_verifier", copy_value(code_verifier))];
    assert(entry_models(params@) =~= seq![("code_verifier"@, json_model(*code_verifier))]);
    let follow_up: Vec<(&'static str, Value)> = vec![
        ("command", text_value("CompleteOAuth")),
        ("params", object_value(params)),
    ];
    assert(entry_models(follow_up@) =~= seq![
        ("command"@, Json::Text("CompleteOAuth"@)),
        ("params"@, record(entry_models(params@))),
    ]);
    let told: Vec<(&'static str, Value)> = vec![
        ("host_action", object_value(action)),
        ("follow_up", object_value(follow_up)),
    ];
    assert(entry_models(told@) =~= seq![
        ("host_action"@, record(entry_models(action@))),
        ("follow_up"@, record(entry_models(follow_up@))),
    ]);
    object_value(told)
}

/// The response to the start of a sign-in. The client, the redirect URI and the
/// code challenge are looked at in this order; none of them may be blank.
pub open spec fn begin_oauth_response(config: ConfigModel, params: OAuthModel) -> ResponseModel {
    match chosen_client(params.client_id, config.client_id) {
        None => error_response(
            "Google Drive OAuth is not configured for this build. Set a host-managed client ID."@,
        ),
        Some(client) => match filled(params.redirect_uri) {
            None => error_response(missing("redirect_uri"@)),
            Some(redirect_uri) => match filled(params.code_challenge) {
                None => error_response(missing("code_challenge"@)),
                Some(code_challenge) => ok_response(
                    sign_in(
                        consent_url(client, redirect_uri, code_challenge),
                        match filled(params.redirect_uri_prefix) {
                            Some(prefix) => prefix,
                            None => redirect_uri,
                        },
                        params.code_verifier,
                    ),
                ),
            },
        },
    }
}

/// Starts a sign-in.
pub fn begin_oauth(config: &GDriveConfig, params: &OAuthParams) -> (response: CommandResponse)
    ensures
        response@ == begin_oauth_response(config@, params@),
{
    let client = match choose_client(&params.client_id, &config.client_id) {
        Some(client) => client,
        None => return CommandResponse::err(
            "Google Drive OAuth is not configured for this build. Set a host-managed client ID.".to_string(),
        ),
    };
    let redirect_uri = match keep_filled(&params.redirect_uri) {
        Some(redirect_uri) => redirect_uri,
        None => return CommandResponse::err(missing_message("redirect_uri")),
    };
    let code_challenge = match keep_filled(&params.code_challenge) {
        Some(code_challenge) => code_challenge,
        None => return CommandResponse::err(missing_message("code_challenge")),
    };
    let prefix = match keep_filled(&params.redirect_uri_prefix) {
        Some(prefix) => prefix,
        None => redirect_uri.clone(),
    };
    let url = url_of_consent(client.as_str(), redirect_uri.as_str(), code_challenge.as_str());
    CommandResponse::ok(tell_sign_in(url.as_str(), prefix.as_str(), &params.code_verifier))
}

} // verus!
