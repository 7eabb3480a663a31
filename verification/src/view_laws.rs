//! What the values of the library say is what they hold.
use crate::config::{optional_config, GDriveConfig};
use crate::dispatch::CommandEnd;
use crate::drive_plans::OpModel;
use crate::drive_replies::{
    bytes_result, document_result, file_models, file_result, optional_text_result, page_result,
    text_result, tokens_result, unit_result, DriveFile, FileRef, ListPage,
};
use crate::gdrive_ops::{outcome_model, OpValue};
use crate::http::{http_outcome, Body, BodyModel, HttpReply, HttpRequest, Method};
use crate::json::{entry_models, json_model, models, optional_text};
use crate::manifest::{manifest_model, ManifestModel};
use crate::persistence::loaded_model;
use serde_json::Value;
use vstd::prelude::*;
use vstd::string::*;

verus! {

/// The methods have the names of HTTP.
pub proof fn law_methods_have_their_names()
    ensures
        Method::Get.model() == "GET"@,
        Method::Post.model() == "POST"@,
        Method::Patch.model() == "PATCH"@,
        Method::Delete.model() == "DELETE"@,
{
}

/// A request says its method, its URL, every header in order, and its body.
pub proof fn law_requests_say_what_they_hold(request: HttpRequest)
    ensures
        request@.method == request.method,
        request@.url == request.url@,
        request@.headers.len() == request.headers@.len(),
        forall|i: int|
            0 <= i < request.headers@.len() ==> (#[trigger] request@.headers[i]).0
                == request.headers@[i].0@ && request@.headers[i].1 == request.headers@[i].1@,
        match request.body {
            Body::Empty => request@.body == BodyModel::Empty,
            Body::Text(text) => request@.body == BodyModel::Text(text@),
            Body::Bytes(bytes) => request@.body == BodyModel::Bytes(bytes@),
        },
{
}

/// A reply says its status and its body, and what came of a request is the reply or
/// the fault.
pub proof fn law_replies_say_what_they_hold(reply: HttpReply, fault: String)
    ensures
        reply@.status == reply.status,
        reply@.body == reply.body@,
        reply.body_base64 is None <==> reply@.body_base64 is None,
        reply.body_base64 matches Some(text) ==> reply@.body_base64 == Some(text@),
        http_outcome(Ok(reply)) == Ok::<_, Seq<char>>(reply@),
        http_outcome(Err(fault)) matches Err(told) && told == fault@,
{
}

/// Texts, files and documents in a list are said one by one, in order.
pub proof fn law_lists_say_what_they_hold(
    files: Seq<DriveFile>,
    values: Seq<Value>,
    entries: Seq<(&'static str, Value)>,
    text: String,
)
    ensures
        file_models(files).len() == files.len(),
        forall|i: int| 0 <= i < files.len() ==> #[trigger] file_models(files)[i] == files[i]@,
        models(values).len() == values.len(),
        forall|i: int|
            0 <= i < values.len() ==> #[trigger] models(values)[i] == json_model(values[i]),
        entry_models(entries).len() == entries.len(),
        forall|i: int|
            0 <= i < entries.len() ==> (#[trigger] entry_models(entries)[i]).0 == entries[i].0@
                && entry_models(entries)[i].1 == json_model(entries[i].1),
        optional_text(Some(text)) == Some(text@),
        optional_text(None) is None,
{
}

/// A result is the value or the message it holds.
pub proof fn law_results_say_what_they_hold(
    text: String,
    other: String,
    bytes: Vec<u8>,
    value: Value,
    file: FileRef,
    page: ListPage,
    message: String,
)
    ensures
        unit_result(Ok(())) is Ok,
        unit_result(Err(message)) == Err::<(), Seq<char>>(message@),
        text_result(Ok(text)) == Ok::<Seq<char>, Seq<char>>(text@),
        text_result(Err(message)) == Err::<Seq<char>, Seq<char>>(message@),
        bytes_result(Ok(bytes)) == Ok::<Seq<u8>, Seq<char>>(bytes@),
        bytes_result(Err(message)) == Err::<Seq<u8>, Seq<char>>(message@),
        document_result(Ok(value)) matches Ok(told) && told == json_model(value),
        document_result(Err(message)) matches Err(told) && told == message@,
        file_result(Ok(Some(file))) matches Ok(Some(told)) && told.id == file.id@ && told.is_folder
            == file.is_folder,
        file_result(Ok(None)) matches Ok(None),
        file_result(Err(message)) matches Err(told) && told == message@,
        optional_text_result(Ok(Some(text))) == Ok::<Option<Seq<char>>, Seq<char>>(Some(text@)),
        optional_text_result(Ok(None)) == Ok::<Option<Seq<char>>, Seq<char>>(None),
        optional_text_result(Err(message)) == Err::<Option<Seq<char>>, Seq<char>>(message@),
        page_result(Ok(page)) matches Ok(told) && told.token == optional_text(page.token)
            && told.names.len() == page.names@.len() && forall|i: int|
            0 <= i < page.names@.len() ==> #[trigger] told.names[i] == page.names@[i]@,
        page_result(Err(message)) matches Err(told) && told == message@,
        tokens_result(Ok((text, other))) == Ok::<(Seq<char>, Seq<char>), Seq<char>>(
            (text@, other@),
        ),
        tokens_result(Err(message)) == Err::<(Seq<char>, Seq<char>), Seq<char>>(message@),
{
}

/// What comes of an operation is the value or the message it holds.
pub proof fn law_outcomes_say_what_they_hold(
    text: String,
    other: String,
    bytes: Vec<u8>,
    flag: bool,
    names: Vec<String>,
    time: Option<i64>,
    message: String,
)
    ensures
        outcome_model(Ok(OpValue::Nothing)) == Ok::<OpModel, Seq<char>>(OpModel::Nothing),
        outcome_model(Ok(OpValue::Text(text))) == Ok::<OpModel, Seq<char>>(OpModel::Text(text@)),
        outcome_model(Ok(OpValue::Bytes(bytes))) == Ok::<OpModel, Seq<char>>(
            OpModel::Bytes(bytes@),
        ),
        outcome_model(Ok(OpValue::Exists(flag))) == Ok::<OpModel, Seq<char>>(
            OpModel::Exists(flag),
        ),
        outcome_model(Ok(OpValue::IsDir(flag))) == Ok::<OpModel, Seq<char>>(OpModel::IsDir(flag)),
        outcome_model(Ok(OpValue::Names(names))) matches Ok(OpModel::Names(told)) && told.len()
            == names@.len() && forall|i: int|
            0 <= i < names@.len() ==> #[trigger] told[i] == names@[i]@,
        outcome_model(Ok(OpValue::Time(time))) == Ok::<OpModel, Seq<char>>(OpModel::Time(time)),
        outcome_model(Ok(OpValue::Token(text))) == Ok::<OpModel, Seq<char>>(OpModel::Token(text@)),
        outcome_model(Ok(OpValue::Tokens(text, other))) == Ok::<OpModel, Seq<char>>(
            OpModel::Tokens(text@, other@),
        ),
        outcome_model(Err(message)) == Err::<OpModel, Seq<char>>(message@),
{
}

/// A response says whether it is a success, its data and its error; a command that
/// has ended says the configuration from then on and its response.
pub proof fn law_ends_say_what_they_hold(end: CommandEnd, config: GDriveConfig, message: String)
    ensures
        end@.config == optional_config(end.config),
        end@.response == end.response@,
        end@.response.success == end.response.success,
        end.response.data is None <==> end@.response.data is None,
        end.response.data matches Some(data) ==> end@.response.data == Some(json_model(data)),
        end@.response.error == optional_text(end.response.error),
        loaded_model(Ok(Some(config))) matches Ok(Some(told)) && told == config@,
        loaded_model(Ok(None)) matches Ok(None),
        loaded_model(Err(message)) matches Err(told) && told == message@,
{
}

/// The manifests of two versions differ in nothing but the version.
pub proof fn law_manifests_differ_in_their_version(one: Seq<char>, two: Seq<char>)
    ensures
        manifest_model(one).version == one,
        manifest_model(two) == (ManifestModel { version: two, ..manifest_model(one) }),
{
}

} // verus!
