//! What the commands ask for, and what they are answered.
use crate::base64_text::{base64_decoded, base64_encoded};
use crate::commands::{
    all_commands, law_commands_are_found_by_their_names, law_listed_names_are_commands, Command,
    OperationModel,
};
use crate::config::{config_view, merged, model_or_default, ConfigModel};
use crate::dispatch::{
    dispatch_plan, operation_plan, operation_rest, set_config_plan, text_list, EndModel,
};
use crate::drive_plans::{
    create_dir_all_plan, delete_file_plan, exists_plan, is_dir_plan, list_files_plan,
    list_md_files_plan, modified_time_plan, move_file_plan, read_binary_plan, read_file_plan,
    refresh_token_plan, verified_exchange_plan, write_bytes_plan, OpModel,
};
use crate::json::{text_member, Json};
use crate::json_laws::{is_under, law_members_are_read, lemma_one_entry, lemma_two_entries};
use crate::persistence::load_plan;
use crate::plan::{bind, Plan};
use crate::reply_laws::has_text;
use crate::settings_laws::{is_given, is_missing, is_refused};
use crate::store_laws::{answered, law_loading_gives_back_what_was_saved, Store};
use vstd::prelude::*;
use vstd::string::*;
use vstd::utf8::encode_utf8;

verus! {

// ---------------------------------------------------------------------------
// What is asked for
// ---------------------------------------------------------------------------

/// The text that the command gives under a key.
pub open spec fn gives(params: Json, key: Seq<char>, text: Seq<char>) -> bool {
    is_under(params, key, Json::Text(text))
}

/// The command runs an operation on the storage, and goes on with what comes of it.
pub open spec fn runs(
    config: ConfigModel,
    command: Seq<char>,
    params: Json,
    operation: OperationModel,
) -> bool {
    dispatch_plan(Some(config), command, params) == bind(
        operation_plan(config, operation),
        operation_rest(config),
    )
}

/// The commands on one path run their operation on the path that is given.
pub proof fn law_commands_act_on_their_path(config: ConfigModel, params: Json, path: Seq<char>)
    requires
        gives(params, "path"@, path),
    ensures
        runs(config, "ReadFile"@, params, OperationModel::ReadFile { path }),
        runs(config, "DeleteFile"@, params, OperationModel::DeleteFile { path }),
        runs(config, "Exists"@, params, OperationModel::Exists { path }),
        runs(config, "CreateDirAll"@, params, OperationModel::CreateDirAll { path }),
        runs(config, "IsDir"@, params, OperationModel::IsDir { path }),
        runs(config, "ReadBinary"@, params, OperationModel::ReadBinary { path }),
        runs(config, "GetModifiedTime"@, params, OperationModel::GetModifiedTime { path }),
        forall|content: Seq<char>|
            #[trigger] gives(params, "content"@, content) ==> runs(
                config,
                "WriteFile"@,
                params,
                OperationModel::WriteFile { path, content },
            ),
        forall|text: Seq<char>, data: Seq<u8>|
            #[trigger] gives_bytes(params, text, data) ==> runs(
                config,
                "WriteBinary"@,
                params,
                OperationModel::WriteBinary { path, data },
            ),
{
    law_members_are_read(params, "path"@);
    law_members_are_read(params, "content"@);
    law_members_are_read(params, "data"@);
    law_commands_are_found_by_their_names(Command::ReadFile);
    law_commands_are_found_by_their_names(Command::DeleteFile);
    law_commands_are_found_by_their_names(Command::Exists);
    law_commands_are_found_by_their_names(Command::CreateDirAll);
    law_commands_are_found_by_their_names(Command::IsDir);
    law_commands_are_found_by_their_names(Command::ReadBinary);
    law_commands_are_found_by_their_names(Command::GetModifiedTime);
    law_commands_are_found_by_their_names(Command::WriteFile);
    law_commands_are_found_by_their_names(Command::WriteBinary);
}

/// The data is given in base64, and stands for these bytes.
pub open spec fn gives_bytes(params: Json, text: Seq<char>, data: Seq<u8>) -> bool {
    gives(params, "data"@, text) && base64_decoded(text) == Ok::<Seq<u8>, Seq<char>>(data)
}

/// The other commands on the storage run their operation: a listing of the folder
/// that is given, or of the root folder, a move from the one path to the other, a
/// new access token, and the exchange of a code.
pub proof fn law_other_commands_run_their_operation(config: ConfigModel, params: Json)
    ensures
        forall|dir: Seq<char>|
            #[trigger] gives(params, "dir"@, dir) ==> runs(
                config,
                "ListFiles"@,
                params,
                OperationModel::ListFiles { dir },
            ) && runs(config, "ListMdFiles"@, params, OperationModel::ListMdFiles { dir }),
        !has_text(params, "dir"@) ==> runs(
            config,
            "ListFiles"@,
            params,
            OperationModel::ListFiles { dir: Seq::empty() },
        ) && runs(
            config,
            "ListMdFiles"@,
            params,
            OperationModel::ListMdFiles { dir: Seq::empty() },
        ),
        forall|from: Seq<char>, to: Seq<char>|
            #[trigger] gives(params, "from"@, from) && #[trigger] gives(params, "to"@, to) ==> runs(
                config,
                "MoveFile"@,
                params,
                OperationModel::MoveFile { from, to },
            ),
        runs(config, "RefreshToken"@, params, OperationModel::RefreshToken),
        forall|code: Seq<char>, redirect_uri: Seq<char>, code_verifier: Seq<char>|
            (#[trigger] gives(params, "code"@, code) && #[trigger] gives(
                params,
                "redirect_uri"@,
                redirect_uri,
            ) && #[trigger] is_given(params, "code_verifier"@, code_verifier)) ==> {
                let exchange = OperationModel::ExchangeToken { code, redirect_uri, code_verifier };
                runs(config, "CompleteOAuth"@, params, exchange) && runs(
                    config,
                    "ExchangeToken"@,
                    params,
                    exchange,
                )
            },
{
    law_members_are_read(params, "dir"@);
    law_members_are_read(params, "from"@);
    law_members_are_read(params, "to"@);
    law_members_are_read(params, "code"@);
    law_members_are_read(params, "redirect_uri"@);
    law_members_are_read(params, "code_verifier"@);
    law_commands_are_found_by_their_names(Command::ListFiles);
    law_commands_are_found_by_their_names(Command::ListMdFiles);
    law_commands_are_found_by_their_names(Command::MoveFile);
    law_commands_are_found_by_their_names(Command::RefreshToken);
    law_commands_are_found_by_their_names(Command::CompleteOAuth);
    law_commands_are_found_by_their_names(Command::ExchangeToken);
    if let Some(dir) = text_member(params, "dir"@) {
        assert(is_under(params, "dir"@, Json::Text(dir)));
    }
}

/// A text is written in UTF-8, as plain text, and bytes as they are, as bytes; every
/// other operation on a path is on that path.
pub proof fn law_operations_are_on_their_path(
    config: ConfigModel,
    path: Seq<char>,
    other: Seq<char>,
    content: Seq<char>,
    data: Seq<u8>,
)
    ensures
        operation_plan(config, OperationModel::WriteFile { path, content }) == write_bytes_plan(
            config,
            path,
            encode_utf8(content),
            "text/plain; charset=utf-8"@,
        ),
        operation_plan(config, OperationModel::WriteBinary { path, data }) == write_bytes_plan(
            config,
            path,
            data,
            "application/octet-stream"@,
        ),
        operation_plan(config, OperationModel::ReadFile { path }) == read_file_plan(config, path),
        operation_plan(config, OperationModel::ReadBinary { path }) == read_binary_plan(
            config,
            path,
        ),
        operation_plan(config, OperationModel::DeleteFile { path }) == delete_file_plan(
            config,
            path,
        ),
        operation_plan(config, OperationModel::Exists { path }) == exists_plan(config, path),
        operation_plan(config, OperationModel::IsDir { path }) == is_dir_plan(config, path),
        operation_plan(config, OperationModel::CreateDirAll { path }) == create_dir_all_plan(
            config,
            path,
        ),
        operation_plan(config, OperationModel::GetModifiedTime { path }) == modified_time_plan(
            config,
            path,
        ),
        operation_plan(config, OperationModel::ListFiles { dir: path }) == list_files_plan(
            config,
            path,
        ),
        operation_plan(config, OperationModel::ListMdFiles { dir: path }) == list_md_files_plan(
            config,
            path,
        ),
        operation_plan(config, OperationModel::MoveFile { from: path, to: other })
            == move_file_plan(config, path, other),
        operation_plan(config, OperationModel::RefreshToken) == refresh_token_plan(config),
        operation_plan(
            config,
            OperationModel::ExchangeToken {
                code: path,
                redirect_uri: other,
                code_verifier: content,
            },
        ) == verified_exchange_plan(config, path, other, content),
{
}

/// A command ends at once, without a question, and the configuration stays.
pub open spec fn refuses(
    current: Option<ConfigModel>,
    command: Seq<char>,
    params: Json,
    message: Seq<char>,
) -> bool {
    dispatch_plan(current, command, params) matches Plan::Return(end) && end.config == current
        && is_refused(end, message)
}

proof fn lemma_missing_messages()
    ensures
        "Missing '"@ + "path"@ + "' parameter"@ == "Missing 'path' parameter"@,
        "Missing '"@ + "content"@ + "' parameter"@ == "Missing 'content' parameter"@,
        "Missing '"@ + "from"@ + "' parameter"@ == "Missing 'from' parameter"@,
        "Missing '"@ + "to"@ + "' parameter"@ == "Missing 'to' parameter"@,
        "Missing '"@ + "code"@ + "' parameter"@ == "Missing 'code' parameter"@,
        "Missing '"@ + "redirect_uri"@ + "' parameter"@ == "Missing 'redirect_uri' parameter"@,
        "Missing '"@ + "code_verifier"@ + "' parameter"@ == "Missing 'code_verifier' parameter"@,
{
    reveal_strlit("Missing '");
    reveal_strlit("' parameter");
    reveal_strlit("path");
    reveal_strlit("content");
    reveal_strlit("from");
    reveal_strlit("to");
    reveal_strlit("code");
    reveal_strlit("redirect_uri");
    reveal_strlit("code_verifier");
    reveal_strlit("Missing 'path' parameter");
    reveal_strlit("Missing 'content' parameter");
    reveal_strlit("Missing 'from' parameter");
    reveal_strlit("Missing 'to' parameter");
    reveal_strlit("Missing 'code' parameter");
    reveal_strlit("Missing 'redirect_uri' parameter");
    reveal_strlit("Missing 'code_verifier' parameter");
    assert("Missing '"@ + "path"@ + "' parameter"@ =~= "Missing 'path' parameter"@);
    assert("Missing '"@ + "content"@ + "' parameter"@ =~= "Missing 'content' parameter"@);
    assert("Missing '"@ + "from"@ + "' parameter"@ =~= "Missing 'from' parameter"@);
    assert("Missing '"@ + "to"@ + "' parameter"@ =~= "Missing 'to' parameter"@);
    assert("Missing '"@ + "code"@ + "' parameter"@ =~= "Missing 'code' parameter"@);
    assert("Missing '"@ + "redirect_uri"@ + "' parameter"@ =~= "Missing 'redirect_uri' parameter"@);
    assert("Missing '"@ + "code_verifier"@ + "' parameter"@
        =~= "Missing 'code_verifier' parameter"@);
}

proof fn lemma_has_text(params: Json, key: Seq<char>)
    ensures
        has_text(params, key) <==> text_member(params, key) is Some,
        forall|text: Seq<char>| #[trigger]
            gives(params, key, text) <==> text_member(params, key) == Some(text),
{
    law_members_are_read(params, key);
    if let Some(text) = text_member(params, key) {
        assert(is_under(params, key, Json::Text(text)));
    }
}

/// A command whose path, content or data is missing, or no text, is refused with the
/// first of them that is, and does nothing, whether there is a configuration or not.
/// So is one whose data is no base64.
pub proof fn law_missing_paths_are_told(current: Option<ConfigModel>, params: Json)
    ensures
        !has_text(params, "path"@) ==> {
            &&& refuses(current, "ReadFile"@, params, "Missing 'path' parameter"@)
            &&& refuses(current, "WriteFile"@, params, "Missing 'path' parameter"@)
            &&& refuses(current, "DeleteFile"@, params, "Missing 'path' parameter"@)
            &&& refuses(current, "Exists"@, params, "Missing 'path' parameter"@)
            &&& refuses(current, "CreateDirAll"@, params, "Missing 'path' parameter"@)
            &&& refuses(current, "IsDir"@, params, "Missing 'path' parameter"@)
            &&& refuses(current, "ReadBinary"@, params, "Missing 'path' parameter"@)
            &&& refuses(current, "WriteBinary"@, params, "Missing 'path' parameter"@)
            &&& refuses(current, "GetModifiedTime"@, params, "Missing 'path' parameter"@)
        },
        has_text(params, "path"@) && !has_text(params, "content"@) ==> refuses(
            current,
            "WriteFile"@,
            params,
            "Missing 'content' parameter"@,
        ),
        has_text(params, "path"@) && !has_text(params, "data"@) ==> refuses(
            current,
            "WriteBinary"@,
            params,
            "Missing 'data' parameter (base64)"@,
        ),
        has_text(params, "path"@) ==> forall|text: Seq<char>, problem: Seq<char>|
            #[trigger] gives_no_bytes(params, text, problem) ==> refuses(
                current,
                "WriteBinary"@,
                params,
                "Invalid base64: "@ + problem,
            ),
{
    lemma_missing_messages();
    lemma_has_text(params, "path"@);
    lemma_has_text(params, "content"@);
    lemma_has_text(params, "data"@);
    law_commands_are_found_by_their_names(Command::ReadFile);
    law_commands_are_found_by_their_names(Command::DeleteFile);
    law_commands_are_found_by_their_names(Command::Exists);
    law_commands_are_found_by_their_names(Command::CreateDirAll);
    law_commands_are_found_by_their_names(Command::IsDir);
    law_commands_are_found_by_their_names(Command::ReadBinary);
    law_commands_are_found_by_their_names(Command::GetModifiedTime);
    law_commands_are_found_by_their_names(Command::WriteFile);
    law_commands_are_found_by_their_names(Command::WriteBinary);
}

/// The data is given, and is no base64, for some reason.
pub open spec fn gives_no_bytes(params: Json, text: Seq<char>, problem: Seq<char>) -> bool {
    gives(params, "data"@, text) && base64_decoded(text) == Err::<Seq<u8>, Seq<char>>(problem)
}

/// A move or an exchange with a parameter missing is refused with the first one that
/// is, and does nothing. A verifier that is blank counts as missing.
pub proof fn law_other_missing_parameters_are_told(current: Option<ConfigModel>, params: Json)
    ensures
        !has_text(params, "from"@) ==> refuses(
            current,
            "MoveFile"@,
            params,
            "Missing 'from' parameter"@,
        ),
        has_text(params, "from"@) && !has_text(params, "to"@) ==> refuses(
            current,
            "MoveFile"@,
            params,
            "Missing 'to' parameter"@,
        ),
        !has_text(params, "code"@) ==> refuses(
            current,
            "CompleteOAuth"@,
            params,
            "Missing 'code' parameter"@,
        ) && refuses(current, "ExchangeToken"@, params, "Missing 'code' parameter"@),
        has_text(params, "code"@) && !has_text(params, "redirect_uri"@) ==> refuses(
            current,
            "CompleteOAuth"@,
            params,
            "Missing 'redirect_uri' parameter"@,
        ) && refuses(current, "ExchangeToken"@, params, "Missing 'redirect_uri' parameter"@),
        has_text(params, "code"@) && has_text(params, "redirect_uri"@) && is_missing(
            params,
            "code_verifier"@,
        ) ==> refuses(
            current,
            "CompleteOAuth"@,
            params,
            "Missing 'code_verifier' parameter"@,
        ) && refuses(current, "ExchangeToken"@, params, "Missing 'code_verifier' parameter"@),
{
    lemma_missing_messages();
    lemma_has_text(params, "from"@);
    lemma_has_text(params, "to"@);
    lemma_has_text(params, "code"@);
    lemma_has_text(params, "redirect_uri"@);
    lemma_has_text(params, "code_verifier"@);
    law_commands_are_found_by_their_names(Command::MoveFile);
    law_commands_are_found_by_their_names(Command::CompleteOAuth);
    law_commands_are_found_by_their_names(Command::ExchangeToken);
    if let Some(verifier) = text_member(params, "code_verifier"@) {
        assert(gives(params, "code_verifier"@, verifier));
        if !crate::text::is_blank(verifier) {
            assert(is_given(params, "code_verifier"@, verifier));
        }
    }
}

/// The name is one that the plugin lists.
pub open spec fn is_listed_name(name: Seq<char>) -> bool {
    ||| name == "ReadFile"@
    ||| name == "WriteFile"@
    ||| name == "DeleteFile"@
    ||| name == "Exists"@
    ||| name == "ListFiles"@
    ||| name == "ListMdFiles"@
    ||| name == "CreateDirAll"@
    ||| name == "IsDir"@
    ||| name == "MoveFile"@
    ||| name == "ReadBinary"@
    ||| name == "WriteBinary"@
    ||| name == "GetModifiedTime"@
    ||| name == "BeginOAuth"@
    ||| name == "CompleteOAuth"@
    ||| name == "RefreshToken"@
    ||| name == "Disconnect"@
    ||| name == "ExchangeToken"@
    ||| name == "GetConfig"@
    ||| name == "SetConfig"@
}

/// A command of any other name is refused, and does nothing, whatever its parameters
/// are.
pub proof fn law_unknown_commands_are_refused(
    current: Option<ConfigModel>,
    command: Seq<char>,
    params: Json,
)
    requires
        !is_listed_name(command),
    ensures
        refuses(current, command, params, "Unknown command: "@ + command),
{
    law_listed_names_are_commands(all_commands(), command);
}

// ---------------------------------------------------------------------------
// What is answered
// ---------------------------------------------------------------------------

/// The command has succeeded, with these data and nothing else.
pub open spec fn is_answered(end: EndModel, data: Option<Json>) -> bool {
    end.response.success && end.response.error is None && end.response.data == data
}

/// A command on the storage ends with the configuration it had, and with an answer.
pub open spec fn answers(config: ConfigModel, outcome: OpModel, data: Option<Json>) -> bool {
    operation_rest(config)(Ok(outcome)) matches Plan::Return(end) && end.config == Some(config)
        && is_answered(end, data)
}

/// What comes of an operation is answered under its key, and alone: the content as a
/// text, bytes in base64, what is there and what is a folder as a flag, names as a
/// list of texts, a time as a number or as null; nothing where there is nothing to
/// tell. A problem is answered with its message. The configuration stays.
pub proof fn law_outcomes_are_answered(
    config: ConfigModel,
    text: Seq<char>,
    bytes: Seq<u8>,
    flag: bool,
    names: Seq<Seq<char>>,
    time: i64,
)
    ensures
        answers(config, OpModel::Nothing, None),
        answers(
            config,
            OpModel::Text(text),
            Some(Json::Record(map!["content"@ => Json::Text(text)])),
        ),
        answers(
            config,
            OpModel::Bytes(bytes),
            Some(Json::Record(map!["data"@ => Json::Text(base64_encoded(bytes))])),
        ),
        answers(
            config,
            OpModel::Exists(flag),
            Some(Json::Record(map!["exists"@ => Json::Bool(flag)])),
        ),
        answers(
            config,
            OpModel::IsDir(flag),
            Some(Json::Record(map!["isDir"@ => Json::Bool(flag)])),
        ),
        answers(
            config,
            OpModel::Time(Some(time)),
            Some(Json::Record(map!["time"@ => Json::Integer(time as int)])),
        ),
        answers(config, OpModel::Time(None), Some(Json::Record(map!["time"@ => Json::Null]))),
        exists|items: Seq<Json>|
            {
                &&& #[trigger] answers(
                    config,
                    OpModel::Names(names),
                    Some(Json::Record(map!["files"@ => Json::List(items)])),
                )
                &&& items.len() == names.len()
                &&& forall|i: int| 0 <= i < items.len() ==> items[i] == Json::Text(names[i])
            },
        operation_rest(config)(Err(text)) matches Plan::Return(end) && end.config == Some(config)
            && is_refused(end, text),
{
    lemma_one_entry("content"@, Json::Text(text));
    lemma_one_entry("data"@, Json::Text(base64_encoded(bytes)));
    lemma_one_entry("exists"@, Json::Bool(flag));
    lemma_one_entry("isDir"@, Json::Bool(flag));
    lemma_one_entry("time"@, Json::Integer(time as int));
    lemma_one_entry("time"@, Json::Null);
    lemma_one_entry("files"@, text_list(names));
    assert(Map::empty().insert("content"@, Json::Text(text)) =~= map![
        "content"@ => Json::Text(text)
    ]);
    assert(Map::empty().insert("data"@, Json::Text(base64_encoded(bytes))) =~= map![
        "data"@ => Json::Text(base64_encoded(bytes))
    ]);
    assert(Map::empty().insert("exists"@, Json::Bool(flag)) =~= map!["exists"@ => Json::Bool(flag)]);
    assert(Map::empty().insert("isDir"@, Json::Bool(flag)) =~= map!["isDir"@ => Json::Bool(flag)]);
    assert(Map::empty().insert("time"@, Json::Integer(time as int)) =~= map![
        "time"@ => Json::Integer(time as int)
    ]);
    assert(Map::empty().insert("time"@, Json::Null) =~= map!["time"@ => Json::Null]);
    let items = names.map_values(|name: Seq<char>| Json::Text(name));
    assert(Map::empty().insert("files"@, text_list(names)) =~= map!["files"@ => Json::List(items)]);
    assert(answers(
        config,
        OpModel::Names(names),
        Some(Json::Record(map!["files"@ => Json::List(items)])),
    ));
}

/// A new access token is the one in use from then on and is kept, the rest of the
/// configuration stays, and it is answered, with a message.
pub proof fn law_refreshed_tokens_are_kept(config: ConfigModel, token: Seq<char>, store: Store)
    ensures
        answered(operation_rest(config)(Ok(OpModel::Token(token))), store) matches Some(
            (after, end),
        ) && {
            let renewed = ConfigModel { access_token: token, ..config };
            &&& end.config == Some(renewed)
            &&& is_answered(
                end,
                Some(
                    Json::Record(
                        map![
                            "access_token"@ => Json::Text(token),
                            "message"@ => Json::Text("Access token refreshed."@),
                        ],
                    ),
                ),
            )
            &&& answered(load_plan(), after) == Some(
                (after, Ok::<Option<ConfigModel>, Seq<char>>(Some(renewed))),
            )
        },
{
    let renewed = ConfigModel { access_token: token, ..config };
    crate::store_laws::lemma_adopting(
        renewed,
        crate::dispatch::token_response(token),
        store,
    );
    law_loading_gives_back_what_was_saved(renewed, store);
    lemma_two_entries(
        ("access_token"@, Json::Text(token)),
        ("message"@, Json::Text("Access token refreshed."@)),
    );
    assert(Map::empty().insert("access_token"@, Json::Text(token)).insert(
        "message"@,
        Json::Text("Access token refreshed."@),
    ) =~= map![
        "access_token"@ => Json::Text(token),
        "message"@ => Json::Text("Access token refreshed."@),
    ]);
}

/// The tokens of an exchange are the ones in use from then on and are kept, and the
/// rest of the configuration stays. They are not answered, only a message is.
pub proof fn law_exchanged_tokens_are_kept(
    config: ConfigModel,
    access: Seq<char>,
    refresh: Seq<char>,
    store: Store,
)
    ensures
        answered(operation_rest(config)(Ok(OpModel::Tokens(access, refresh))), store) matches Some(
            (after, end),
        ) && {
            let connected = ConfigModel { access_token: access, refresh_token: refresh, ..config };
            &&& end.config == Some(connected)
            &&& is_answered(
                end,
                Some(
                    Json::Record(
                        map!["message"@ => Json::Text("Connected to Google Drive."@)],
                    ),
                ),
            )
            &&& answered(load_plan(), after) == Some(
                (after, Ok::<Option<ConfigModel>, Seq<char>>(Some(connected))),
            )
        },
{
    let connected = ConfigModel { access_token: access, refresh_token: refresh, ..config };
    crate::store_laws::lemma_adopting(
        connected,
        crate::dispatch::message_response("Connected to Google Drive."@),
        store,
    );
    law_loading_gives_back_what_was_saved(connected, store);
    lemma_one_entry("message"@, Json::Text("Connected to Google Drive."@));
    assert(Map::empty().insert("message"@, Json::Text("Connected to Google Drive."@)) =~= map![
        "message"@ => Json::Text("Connected to Google Drive."@)
    ]);
}

/// The settings are shown as they are in use, and the configuration stays.
pub proof fn law_settings_are_shown(current: Option<ConfigModel>, params: Json)
    ensures
        dispatch_plan(current, "GetConfig"@, params) matches Plan::Return(end) && end.config
            == current && is_answered(end, Some(config_view(model_or_default(current)))),
{
    law_commands_are_found_by_their_names(Command::GetConfig);
}

/// New settings are read out of the parameters as they are given. What is read is
/// merged and kept; parameters that are no settings are refused, with the reason, and
/// nothing changes.
pub proof fn law_settings_are_set_as_given(
    current: Option<ConfigModel>,
    params: Json,
    incoming: ConfigModel,
    problem: Seq<char>,
)
    ensures
        dispatch_plan(current, "SetConfig"@, params) matches Plan::DecodeConfig(document, next) && {
            &&& document == params
            &&& next(Ok(incoming)) == set_config_plan(current, incoming)
            &&& next(Err(problem)) matches Plan::Return(end) && end.config == current && is_refused(
                end,
                "Invalid GDrive config: "@ + problem,
            )
        },
{
    law_commands_are_found_by_their_names(Command::SetConfig);
}

} // verus!
