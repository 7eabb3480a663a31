//! The texts that the host and the plugin exchange about the plugin and its
//! commands, read and written through `diaryx_plugin_sdk` and `serde_json`.
use crate::commands::CommandResponse;
use crate::config::{optional_config, GDriveConfig};
use crate::dispatch::{dispatch_command, dispatch_plan, CommandStep};
use crate::json::{json_model, json_text, Json};
use crate::manifest::{manifest, manifest_model, Manifest, ManifestModel};
use diaryx_plugin_sdk::protocol::{
    GuestManifest, GuestRequestedPermissions, CURRENT_PROTOCOL_VERSION,
};
use serde_json::Value;
use vstd::prelude::*;
use vstd::string::*;

verus! {

// ---------------------------------------------------------------------------
// Outside calls
// ---------------------------------------------------------------------------

/// What `serde_json::from_str` makes of a text as a
/// `diaryx_plugin_sdk::protocol::CommandRequest`: the name of the command and its
/// parameters, or the message of its error.
pub uninterp spec fn command_parsed(text: Seq<char>) -> Result<(Seq<char>, Json), Seq<char>>;

/// `serde_json::from_str` on `diaryx_plugin_sdk::protocol::CommandRequest`: the
/// command's name and its parameters, or the error's message. Either depends on
/// the text alone.
#[verifier::external_body]
pub(crate) fn parse_command(input: &str) -> (parsed: Result<(String, Value), String>)
    ensures
        match parsed {
            Ok(command) => command_parsed(input@) == Ok::<(Seq<char>, Json), Seq<char>>(
                (command.0@, json_model(command.1)),
            ),
            Err(message) => command_parsed(input@) == Err::<(Seq<char>, Json), Seq<char>>(
                message@,
            ),
        },
{
    match serde_json::from_str::<diaryx_plugin_sdk::protocol::CommandRequest>(input) {
        Ok(request) => Ok((request.command, request.params)),
        Err(error) => Err(error.to_string()),
    }
}

/// The text of a document, or of `null` where there is none.
pub open spec fn text_or_null(document: Option<Json>) -> Seq<char> {
    match document {
        Some(inner) => json_text(inner),
        None => json_text(Json::Null),
    }
}

/// The text of a response: an object with the members `success`, `data` and
/// `error`, in this order and without white space.
pub open spec fn response_text(success: bool, data: Option<Json>, error: Option<Seq<char>>) -> Seq<
    char,
> {
    "{\"success\":"@ + json_text(Json::Bool(success)) + ",\"data\":"@ + text_or_null(data)
        + ",\"error\":"@ + text_or_null(
        match error {
            Some(message) => Some(Json::Text(message)),
            None => None,
        },
    ) + "}"@
}

/// The text was written.
pub open spec fn is_written(written: Result<String, String>, text: Seq<char>) -> bool {
    match written {
        Ok(inner) => inner@ == text,
        Err(_) => false,
    }
}

/// `serde_json::to_string` on `diaryx_plugin_sdk::protocol::CommandResponse`
/// without an error code. The struct is written member by member, in the order of
/// its declaration, and the error code is left out. Writing a response to memory
/// does not fail: its members are a flag, a JSON document and a text.
#[verifier::external_body]
pub(crate) fn write_response(response: &CommandResponse) -> (written: Result<String, String>)
    ensures
        is_written(written, response_text(response@.success, response@.data, response@.error)),
{
    let told = diaryx_plugin_sdk::protocol::CommandResponse {
        success: response.success,
        data: response.data.clone(),
        error: response.error.clone(),
        error_code: None,
    };
    serde_json::to_string(&told).map_err(|error| error.to_string())
}

/// The text of an object whose members are texts, without its braces.
pub open spec fn members_text(members: Seq<(Seq<char>, Seq<char>)>) -> Seq<char>
    decreases members.len(),
{
    if members.len() == 0 {
        Seq::empty()
    } else {
        let (key, text) = members.last();
        let last = json_text(Json::Text(key)) + ":"@ + json_text(Json::Text(text));
        if members.len() == 1 {
            last
        } else {
            members_text(members.drop_last()) + ","@ + last
        }
    }
}

/// A list of texts, as a document.
pub open spec fn text_list(items: Seq<Seq<char>>) -> Json {
    Json::List(items.map_values(|item: Seq<char>| Json::Text(item)))
}

/// The text of a manifest, with the reasons in some order. There are neither
/// subcommands nor conversions in it.
pub open spec fn manifest_text(
    told: ManifestModel,
    reasons: Seq<(Seq<char>, Seq<char>)>,
) -> Seq<char> {
    "{\"protocol_version\":"@ + json_text(Json::Integer(1)) + ",\"id\":"@ + json_text(
        Json::Text(told.id),
    ) + ",\"name\":"@ + json_text(Json::Text(told.name)) + ",\"version\":"@ + json_text(
        Json::Text(told.version),
    ) + ",\"description\":"@ + json_text(Json::Text(told.description)) + ",\"capabilities\":"@
        + json_text(text_list(told.capabilities)) + ",\"ui\":"@ + json_text(Json::List(told.ui))
        + ",\"commands\":"@ + json_text(text_list(told.commands)) + ",\"cli\":"@ + json_text(
        Json::List(Seq::empty()),
    ) + ",\"requested_permissions\":{\"defaults\":"@ + json_text(told.permissions)
        + ",\"reasons\":{"@ + members_text(reasons) + "}},\"conversions\":"@ + json_text(
        Json::List(Seq::empty()),
    ) + "}"@
}

/// The text of a manifest was written, with the reasons in whatever order.
pub open spec fn is_told(written: Result<String, String>, told: ManifestModel) -> bool {
    exists|reasons: Seq<(Seq<char>, Seq<char>)>|
        reasons.to_multiset() == told.reasons.to_multiset() && is_written(
            written,
            #[trigger] manifest_text(told, reasons),
        )
}

/// `serde_json::to_string` on `diaryx_plugin_sdk::protocol::GuestManifest` without
/// subcommands and conversions, of protocol version 1. The struct is written
/// member by member, in the order of its declaration. It keeps the reasons in a
/// `HashMap`, so which of them comes first is left open. Writing a manifest to
/// memory does not fail: it holds texts, JSON documents and a number.
#[verifier::external_body]
pub(crate) fn write_manifest(told: Manifest) -> (written: Result<String, String>)
    requires
        forall|i: int, j: int|
            0 <= i < j < told@.reasons.len() ==> (#[trigger] told@.reasons[i]).0 != (
            #[trigger] told@.reasons[j]).0,
    ensures
        is_told(written, told@),
{
    let (defaults, reasons) = (told.permissions, told.reasons.into_iter().collect());
    let manifest = GuestManifest {
        protocol_version: CURRENT_PROTOCOL_VERSION,
        id: told.id,
        name: told.name,
        version: told.version,
        description: told.description,
        capabilities: told.capabilities,
        ui: told.ui,
        commands: told.commands,
        cli: vec![],
        requested_permissions: Some(GuestRequestedPermissions { defaults, reasons }),
        conversions: vec![],
    };
    serde_json::to_string(&manifest).map_err(|error| error.to_string())
}

// ---------------------------------------------------------------------------
// Commands
// ---------------------------------------------------------------------------

/// Handles a command as the host sends it: a text with the command's name and its
/// parameters. The message of a text that is no such command is handed back.
pub fn handle_command(current: Option<GDriveConfig>, input: &str) -> (result: Result<
    CommandStep,
    String,
>)
    ensures
        match command_parsed(input@) {
            Ok((command, params)) => result matches Ok(step) && step.follows(
                dispatch_plan(optional_config(current), command, params),
            ),
            Err(message) => result matches Err(told) && told@ == message,
        },
{
    match parse_command(input) {
        Ok((command, params)) => Ok(dispatch_command(current, command.as_str(), &params)),
        Err(message) => Err(message),
    }
}

/// Writes the response to a command as the host reads it.
pub fn answer_command(response: &CommandResponse) -> (result: Result<String, String>)
    ensures
        is_written(result, response_text(response@.success, response@.data, response@.error)),
{
    write_response(response)
}

// ---------------------------------------------------------------------------
// The manifest
// ---------------------------------------------------------------------------

/// Writes what the plugin tells of itself, in some version, as the host reads it.
pub fn answer_manifest(version: &str) -> (result: Result<String, String>)
    ensures
        is_told(result, manifest_model(version@)),
{
    let told = manifest(version);
    proof {
        reveal_strlit("http_requests");
        reveal_strlit("plugin_storage");
        assert("http_requests"@.len() != "plugin_storage"@.len());
    }
    write_manifest(told)
}

} // verus!
