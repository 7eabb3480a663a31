//! Command dispatch.
//!
//! A command starts with [`dispatch_command`] and is a [`CommandStep`]: it is
//! done, with a response and the configuration from then on, or it waits for
//! the host.
use crate::base64_text::{base64_encoded, base64_length, decodes_to, encode_base64};
use crate::commands::{
    all_commands, command_request, empty_response, error_response, find_command, named_command,
    ok_response, read_request, CommandResponse, Operation, OperationModel, Request, RequestModel,
    ResponseModel,
};
use crate::config::{
    config_or_default, config_view, default_config, default_model, merge_with_current_config,
    merged, model_or_default, optional_config, view_config, without_tokens, ConfigModel,
    GDriveConfig,
};
use crate::drive_plans::{
    create_dir_all_plan, delete_file_plan, exists_plan, is_dir_plan, list_files_plan,
    list_md_files_plan, modified_time_plan, move_file_plan, path_plan, read_binary_plan,
    read_file_plan, refresh_token_plan, verified_exchange_plan, write_bytes_plan, Answer, OpModel,
    Outcome,
};
use crate::drive_replies::unit_result;
use crate::drive_requests::list_model;
use crate::gdrive_ops::{
    create_dir_all, delete_file, exchange_token_with_verifier, file_exists, get_modified_time,
    is_dir, list_files, list_md_files, move_file, outcome_model, read_binary, read_file,
    refresh_token, write_binary, write_file, HttpTask, OpStep, OpValue,
};
use crate::http::{http_outcome, is_encodable, HttpReply, HttpRequest};
use crate::json::{
    bool_value, entry_models, integer_value, json_model, list_value, models, null_value,
    object_value, optional_text, record, text_value, Json,
};
use crate::oauth::{begin_oauth, begin_oauth_response};
use crate::persistence::{persist_config, persist_plan, SaveStep, SaveTask, WriteTask, Written};
use crate::plan::{after_page, bind, bound, law_pages_in_sequence, Plan};
use crate::text::texts;
use serde_json::Value;
use vstd::prelude::*;
use vstd::string::*;
use vstd::utf8::encode_utf8;

verus! {

// ---------------------------------------------------------------------------
// What the commands do
// ---------------------------------------------------------------------------

/// How a command ends: the configuration from then on, and the response.
pub struct EndModel {
    pub config: Option<ConfigModel>,
    pub response: ResponseModel,
}

/// A command that ends right away.
pub open spec fn ended(config: Option<ConfigModel>, response: ResponseModel) -> Plan<EndModel> {
    Plan::Return(EndModel { config, response })
}

/// What an operation on the storage does.
pub open spec fn operation_plan(config: ConfigModel, operation: OperationModel) -> Plan<Outcome> {
    match operation {
        OperationModel::ReadFile { path } => read_file_plan(config, path),
        OperationModel::WriteFile { path, content } => write_bytes_plan(
            config,
            path,
            encode_utf8(content),
            "text/plain; charset=utf-8"@,
        ),
        OperationModel::DeleteFile { path } => delete_file_plan(config, path),
        OperationModel::Exists { path } => exists_plan(config, path),
        OperationModel::ListFiles { dir } => list_files_plan(config, dir),
        OperationModel::ListMdFiles { dir } => list_md_files_plan(config, dir),
        OperationModel::CreateDirAll { path } => create_dir_all_plan(config, path),
        OperationModel::IsDir { path } => is_dir_plan(config, path),
        OperationModel::MoveFile { from, to } => move_file_plan(config, from, to),
        OperationModel::ReadBinary { path } => read_binary_plan(config, path),
        OperationModel::WriteBinary { path, data } => write_bytes_plan(
            config,
            path,
            data,
            "application/octet-stream"@,
        ),
        OperationModel::GetModifiedTime { path } => modified_time_plan(config, path),
        OperationModel::RefreshToken => refresh_token_plan(config),
        OperationModel::ExchangeToken { code, redirect_uri, code_verifier } =>
            verified_exchange_plan(config, code, redirect_uri, code_verifier),
    }
}

/// A list of texts as a JSON document.
pub open spec fn text_list(names: Seq<Seq<char>>) -> Json {
    Json::List(names.map_values(|name: Seq<char>| Json::Text(name)))
}

/// A response with a message and nothing else.
pub open spec fn message_response(message: Seq<char>) -> ResponseModel {
    ok_response(record(seq![("message"@, Json::Text(message))]))
}

/// A response with a new access token.
pub open spec fn token_response(token: Seq<char>) -> ResponseModel {
    ok_response(
        record(
            seq![
                ("access_token"@, Json::Text(token)),
                ("message"@, Json::Text("Access token refreshed."@)),
            ],
        ),
    )
}

/// How the saving of a configuration ends a command.
pub struct ClosingModel {
    /// The configuration from then on, where it was saved.
    pub saved: Option<ConfigModel>,
    /// The configuration from then on, where it was not.
    pub unsaved: Option<ConfigModel>,
    /// The response where it was saved.
    pub response: ResponseModel,
}

/// Ends a command once the configuration was saved, or not.
pub open spec fn after_saving(closing: ClosingModel, done: Written) -> EndModel {
    match done {
        Ok(_) => EndModel { config: closing.saved, response: closing.response },
        Err(message) => EndModel { config: closing.unsaved, response: error_response(message) },
    }
}

/// The continuation of a command once the configuration was saved, or not.
pub open spec fn closing_rest(closing: ClosingModel) -> spec_fn(Written) -> Plan<EndModel> {
    |done: Written| Plan::Return(after_saving(closing, done))
}

/// Saves a configuration and then ends the command.
pub open spec fn saving_plan(config: ConfigModel, closing: ClosingModel) -> Plan<EndModel> {
    bind(persist_plan(config), closing_rest(closing))
}

/// Makes a configuration the current one, whether or not it can be saved.
pub open spec fn adopting_plan(config: ConfigModel, response: ResponseModel) -> Plan<EndModel> {
    saving_plan(
        config,
        ClosingModel { saved: Some(config), unsaved: Some(config), response },
    )
}

/// Goes on once an operation has ended.
pub open spec fn after_operation(config: ConfigModel, outcome: Outcome) -> Plan<EndModel> {
    match outcome {
        Err(message) => ended(Some(config), error_response(message)),
        Ok(value) => match value {
            OpModel::Nothing => ended(Some(config), empty_response()),
            OpModel::Text(content) => ended(
                Some(config),
                ok_response(record(seq![("content"@, Json::Text(content))])),
            ),
            OpModel::Bytes(bytes) => ended(
                Some(config),
                ok_response(record(seq![("data"@, Json::Text(base64_encoded(bytes)))])),
            ),
            OpModel::Exists(found) => ended(
                Some(config),
                ok_response(record(seq![("exists"@, Json::Bool(found))])),
            ),
            OpModel::IsDir(folder) => ended(
                Some(config),
                ok_response(record(seq![("isDir"@, Json::Bool(folder))])),
            ),
            OpModel::Names(names) => ended(
                Some(config),
                ok_response(record(seq![("files"@, text_list(names))])),
            ),
            OpModel::Time(time) => ended(
                Some(config),
                ok_response(
                    record(
                        seq![
                            (
                                "time"@,
                                match time {
                                    Some(stamp) => Json::Integer(stamp as int),
                                    None => Json::Null,
                                },
                            ),
                        ],
                    ),
                ),
            ),
            OpModel::Token(token) => adopting_plan(
                ConfigModel { access_token: token, ..config },
                token_response(token),
            ),
            OpModel::Tokens(access, refresh) => adopting_plan(
                ConfigModel { access_token: access, refresh_token: refresh, ..config },
                message_response("Connected to Google Drive."@),
            ),
        },
    }
}

/// The continuation of a command once its operation has ended.
pub open spec fn operation_rest(config: ConfigModel) -> spec_fn(Outcome) -> Plan<EndModel> {
    |outcome: Outcome| after_operation(config, outcome)
}

/// Sets the configuration: completed from the current one, and current itself
/// once it was saved.
pub open spec fn set_config_plan(current: Option<ConfigModel>, incoming: ConfigModel) -> Plan<
    EndModel,
> {
    let config = merged(incoming, model_or_default(current));
    saving_plan(
        config,
        ClosingModel { saved: Some(config), unsaved: current, response: empty_response() },
    )
}

/// What came of reading a configuration out of a JSON document.
pub type Decoded = Result<ConfigModel, Seq<char>>;

/// Goes on with the configuration that was read out of the parameters.
pub open spec fn after_decoding(current: Option<ConfigModel>, decoded: Decoded) -> Plan<EndModel> {
    match decoded {
        Ok(incoming) => set_config_plan(current, incoming),
        Err(message) => ended(current, error_response("Invalid GDrive config: "@ + message)),
    }
}

/// Clears the tokens. A configuration that is there is cleared even where that
/// cannot be saved; without one, the default one is saved and then current.
pub open spec fn disconnect_plan(current: Option<ConfigModel>) -> Plan<EndModel> {
    let response = message_response("Disconnected from Google Drive."@);
    match current {
        Some(config) => adopting_plan(without_tokens(config), response),
        None => saving_plan(
            without_tokens(default_model()),
            ClosingModel {
                saved: Some(without_tokens(default_model())),
                unsaved: None,
                response,
            },
        ),
    }
}

/// What a request does. Operations on the storage need a configuration.
pub open spec fn request_plan(current: Option<ConfigModel>, request: RequestModel) -> Plan<
    EndModel,
> {
    match request {
        RequestModel::Operation(operation) => match current {
            Some(config) => bind(operation_plan(config, operation), operation_rest(config)),
            None => ended(None, error_response("Google Drive plugin not configured"@)),
        },
        RequestModel::BeginOAuth(params) => ended(
            current,
            begin_oauth_response(model_or_default(current), params),
        ),
        RequestModel::GetConfig => ended(
            current,
            ok_response(config_view(model_or_default(current))),
        ),
        RequestModel::SetConfig(document) => Plan::DecodeConfig(
            document,
            |decoded: Decoded| after_decoding(current, decoded),
        ),
        RequestModel::Disconnect => disconnect_plan(current),
    }
}

/// What a command does, given by its name and its parameters.
pub open spec fn dispatch_plan(
    current: Option<ConfigModel>,
    command: Seq<char>,
    params: Json,
) -> Plan<EndModel> {
    match named_command(all_commands(), command) {
        None => ended(current, error_response("Unknown command: "@ + command)),
        Some(known) => match command_request(known, params) {
            Ok(request) => request_plan(current, request),
            Err(message) => ended(current, error_response(message)),
        },
    }
}

// ---------------------------------------------------------------------------
// Steps
// ---------------------------------------------------------------------------

/// How a command has ended.
pub struct CommandEnd {
    /// The configuration from now on.
    pub config: Option<GDriveConfig>,
    pub response: CommandResponse,
}

impl View for CommandEnd {
    type V = EndModel;

    open spec fn view(&self) -> EndModel {
        EndModel { config: optional_config(self.config), response: self.response@ }
    }
}

/// How the saving of a configuration ends a command.
pub struct Closing {
    pub saved: Option<GDriveConfig>,
    pub unsaved: Option<GDriveConfig>,
    pub response: CommandResponse,
}

impl View for Closing {
    type V = ClosingModel;

    open spec fn view(&self) -> ClosingModel {
        ClosingModel {
            saved: optional_config(self.saved),
            unsaved: optional_config(self.unsaved),
            response: self.response@,
        }
    }
}

/// A command that waits for the reply to an HTTP request.
pub struct CommandHttpTask {
    pub config: GDriveConfig,
    pub task: HttpTask,
}

impl CommandHttpTask {
    /// What is left to do, given what came of the request.
    pub open spec fn after(self, answer: Answer) -> Plan<EndModel> {
        bind(self.task.after(answer), operation_rest(self.config@))
    }
}

/// A command that waits for a secret to be written.
pub struct CommandWriteTask {
    pub closing: Closing,
    pub task: WriteTask,
}

impl CommandWriteTask {
    /// What is left to do, given what came of writing the secret.
    pub open spec fn after(self, done: Written) -> Plan<EndModel> {
        bind(self.task.after(done), closing_rest(self.closing@))
    }
}

/// A command that waits for a configuration to be saved.
pub struct CommandSaveTask {
    pub closing: Closing,
    pub task: SaveTask,
}

impl CommandSaveTask {
    /// What is left to do, given what came of saving the configuration.
    pub open spec fn after(self, done: Written) -> Plan<EndModel> {
        bind(self.task.after(done), closing_rest(self.closing@))
    }
}

/// A command that waits for a configuration to be read out of its parameters.
pub struct CommandDecodeTask {
    pub current: Option<GDriveConfig>,
}

impl CommandDecodeTask {
    /// What is left to do, given the configuration.
    pub open spec fn after(self, decoded: Decoded) -> Plan<EndModel> {
        after_decoding(optional_config(self.current), decoded)
    }
}

/// A step of a command.
pub enum CommandStep {
    /// An HTTP request is to be performed.
    Http(HttpRequest, CommandHttpTask),
    /// A secret is to be written, or deleted where there is no value.
    WriteSecret(&'static str, Option<String>, CommandWriteTask),
    /// A configuration is to be saved in the plugin storage, under a key.
    SaveConfig(&'static str, GDriveConfig, CommandSaveTask),
    /// A configuration is to be read out of a JSON document.
    DecodeConfig(Value, CommandDecodeTask),
    /// The command has ended.
    Done(CommandEnd),
}

impl CommandStep {
    /// The step does what the plan says: it asks the same of the host, goes on
    /// for every answer as the plan does, and ends in the same way.
    pub open spec fn follows(self, plan: Plan<EndModel>) -> bool {
        match (self, plan) {
            (CommandStep::Http(request, task), Plan::Http(asked, next)) => {
                &&& request@ == asked
                &&& forall|answer: Answer| #[trigger] task.after(answer) == next(answer)
            },
            (CommandStep::Http(request, task), Plan::Listing(listing, next)) => {
                &&& request@ == list_model(listing.config, listing.folder, listing.token)
                &&& forall|answer: Answer| #[trigger]
                    task.after(answer) == after_page(listing, next, answer)
            },
            (CommandStep::WriteSecret(key, value, task), Plan::WriteSecret(asked, kept, next)) => {
                &&& key@ == asked
                &&& optional_text(value) == kept
                &&& forall|done: Written| #[trigger] task.after(done) == next(done)
            },
            (CommandStep::SaveConfig(key, config, task), Plan::SaveConfig(asked, saved, next)) => {
                &&& key@ == asked
                &&& config@ == saved
                &&& forall|done: Written| #[trigger] task.after(done) == next(done)
            },
            (CommandStep::DecodeConfig(document, task), Plan::DecodeConfig(asked, next)) => {
                &&& json_model(document) == asked
                &&& forall|decoded: Decoded| #[trigger] task.after(decoded) == next(decoded)
            },
            (CommandStep::Done(end), Plan::Return(result)) => end@ == result,
            _ => false,
        }
    }
}

// ---------------------------------------------------------------------------
// Responses to operations
// ---------------------------------------------------------------------------

fn single(key: &'static str, value: Value) -> (response: CommandResponse)
    ensures
        response@ == ok_response(record(seq![(key@, json_model(value))])),
{
    let entries: Vec<(&'static str, Value)> = vec![(key, value)];
    assert(entry_models(entries@) =~= seq![(key@, json_model(value))]);
    CommandResponse::ok(object_value(entries))
}

/// Answers with bytes, as base64 that decodes to them.
pub fn respond_with_bytes(bytes: &Vec<u8>) -> (response: CommandResponse)
    requires
        base64_length(bytes@.len()) <= isize::MAX,
    ensures
        response@ == ok_response(record(seq![("data"@, Json::Text(base64_encoded(bytes@)))])),
        decodes_to(base64_encoded(bytes@), bytes@),
{
    let text = encode_base64(bytes);
    single("data", text_value(text.as_str()))
}

/// Answers with a list of names.
pub fn respond_with_names(names: &Vec<String>) -> (response: CommandResponse)
    ensures
        response@ == ok_response(record(seq![("files"@, text_list(texts(names@)))])),
{
    let mut items: Vec<Value> = Vec::new();
    let mut i: usize = 0;
    while i < names.len()
        invariant
            i <= names@.len(),
            items@.len() == i,
            forall|k: int| 0 <= k < i ==> json_model(#[trigger] items@[k]) == Json::Text(
                names@[k]@,
            ),
        decreases names.len() - i,
    {
        items.push(text_value(names[i].as_str()));
        i = i + 1;
    }
    assert(models(items@) =~= texts(names@).map_values(|name: Seq<char>| Json::Text(name)));
    single("files", list_value(items))
}

/// Answers with a message.
pub fn respond_with_message(message: &str) -> (response: CommandResponse)
    ensures
        response@ == message_response(message@),
{
    single("message", text_value(message))
}

/// Answers with a new access token.
pub fn respond_with_token(token: &str) -> (response: CommandResponse)
    ensures
        response@ == token_response(token@),
{
    let entries: Vec<(&'static str, Value)> = vec![
        ("access_token", text_value(token)),
        ("message", text_value("Access token refreshed.")),
    ];
    assert(entry_models(entries@) =~= seq![
        ("access_token"@, Json::Text(token@)),
        ("message"@, Json::Text("Access token refreshed."@)),
    ]);
    CommandResponse::ok(object_value(entries))
}

// ---------------------------------------------------------------------------
// The pieces of a command
// ---------------------------------------------------------------------------

fn end(config: Option<GDriveConfig>, response: CommandResponse) -> (step: CommandStep)
    ensures
        step.follows(ended(optional_config(config), response@)),
{
    CommandStep::Done(CommandEnd { config, response })
}

/// Embeds the saving of a configuration in a command.
fn embed_saving(closing: Closing, step: SaveStep) -> (outer: CommandStep)
    ensures
        forall|plan: Plan<Written>| #[trigger]
            step.follows(plan) ==> outer.follows(bind(plan, closing_rest(closing@))),
{
    match step {
        SaveStep::WriteSecret(key, value, task) => CommandStep::WriteSecret(
            key,
            value,
            CommandWriteTask { closing, task },
        ),
        SaveStep::SaveConfig(key, config, task) => CommandStep::SaveConfig(
            key,
            config,
            CommandSaveTask { closing, task },
        ),
        SaveStep::Done(Ok(_)) => CommandStep::Done(
            CommandEnd { config: closing.saved, response: closing.response },
        ),
        SaveStep::Done(Err(message)) => CommandStep::Done(
            CommandEnd { config: closing.unsaved, response: CommandResponse::err(message) },
        ),
    }
}

/// Makes a configuration the current one, and saves it.
fn adopt(config: GDriveConfig, response: CommandResponse) -> (step: CommandStep)
    ensures
        step.follows(adopting_plan(config@, response@)),
{
    let step = persist_config(&config);
    let closing = Closing { saved: Some(config.clone()), unsaved: Some(config), response };
    embed_saving(closing, step)
}

/// Ends a command with what its operation came to, or goes on to save new
/// tokens.
fn finish(config: GDriveConfig, outcome: Result<OpValue, String>) -> (step: CommandStep)
    requires
        OpStep::Done(outcome).is_encodable(),
    ensures
        step.follows(after_operation(config@, outcome_model(outcome))),
{
    let value = match outcome {
        Ok(value) => value,
        Err(message) => return end(Some(config), CommandResponse::err(message)),
    };
    match value {
        OpValue::Nothing => end(Some(config), CommandResponse::ok_empty()),
        OpValue::Text(content) => end(
            Some(config),
            single("content", text_value(content.as_str())),
        ),
        OpValue::Bytes(bytes) => end(Some(config), respond_with_bytes(&bytes)),
        OpValue::Exists(found) => end(Some(config), single("exists", bool_value(found))),
        OpValue::IsDir(folder) => end(Some(config), single("isDir", bool_value(folder))),
        OpValue::Names(names) => end(Some(config), respond_with_names(&names)),
        OpValue::Time(time) => {
            let stamp = match time {
                Some(stamp) => integer_value(stamp),
                None => null_value(),
            };
            end(Some(config), single("time", stamp))
        },
        OpValue::Token(token) => {
            let response = respond_with_token(token.as_str());
            adopt(GDriveConfig { access_token: token, ..config }, response)
        },
        OpValue::Tokens(access, refresh) => adopt(
            GDriveConfig { access_token: access, refresh_token: refresh, ..config },
            respond_with_message("Connected to Google Drive."),
        ),
    }
}

/// Embeds an operation in a command.
fn embed_operation(config: GDriveConfig, step: OpStep) -> (outer: CommandStep)
    requires
        step.is_encodable(),
    ensures
        forall|plan: Plan<Outcome>| #[trigger]
            step.follows(plan) ==> outer.follows(bind(plan, operation_rest(config@))),
{
    match step {
        OpStep::Http(request, task) => {
            let outer = CommandHttpTask { config, task };
            proof {
                let rest = operation_rest(config@);
                assert forall|plan: Plan<Outcome>| #[trigger]
                    step.follows(plan) && plan is Listing implies CommandStep::Http(
                    request,
                    outer,
                ).follows(bind(plan, rest)) by {
                    let listing = plan->Listing_0;
                    let next = plan->Listing_1;
                    assert forall|answer: Answer| #[trigger]
                        outer.after(answer) == after_page(listing, bound(next, rest), answer) by {
                        assert(task.after(answer) == after_page(listing, next, answer));
                        law_pages_in_sequence(listing, next, rest, answer);
                    }
                    law_pages_in_sequence(listing, next, rest, Err(Seq::empty()));
                }
            }
            CommandStep::Http(request, outer)
        },
        OpStep::Done(outcome) => finish(config, outcome),
    }
}

impl CommandHttpTask {
    /// Goes on with what came of the HTTP request.
    pub fn resume(self, answer: Result<HttpReply, String>) -> (step: CommandStep)
        requires
            self.task.accepts(http_outcome(answer)),
        ensures
            step.follows(self.after(http_outcome(answer))),
    {
        embed_operation(self.config, self.task.resume(answer))
    }
}

impl CommandWriteTask {
    /// Goes on with what came of writing the secret.
    pub fn resume(self, done: Result<(), String>) -> (step: CommandStep)
        ensures
            step.follows(self.after(unit_result(done))),
    {
        embed_saving(self.closing, self.task.resume(done))
    }
}

impl CommandSaveTask {
    /// Goes on with what came of saving the configuration.
    pub fn resume(self, done: Result<(), String>) -> (step: CommandStep)
        ensures
            step.follows(self.after(unit_result(done))),
    {
        embed_saving(self.closing, self.task.resume(done))
    }
}

/// What came of reading a configuration out of a JSON document.
pub open spec fn decoded_model(decoded: Result<GDriveConfig, String>) -> Decoded {
    match decoded {
        Ok(config) => Ok(config@),
        Err(message) => Err(message@),
    }
}

impl CommandDecodeTask {
    /// Goes on with the configuration that was read out of the parameters.
    pub fn resume(self, decoded: Result<GDriveConfig, String>) -> (step: CommandStep)
        ensures
            step.follows(self.after(decoded_model(decoded))),
    {
        match decoded {
            Ok(incoming) => set_config(self.current, incoming),
            Err(message) => end(
                self.current,
                CommandResponse::err(
                    "Invalid GDrive config: ".to_string().concat(message.as_str()),
                ),
            ),
        }
    }
}

// ---------------------------------------------------------------------------
// Commands
// ---------------------------------------------------------------------------

/// Sets the configuration.
pub fn set_config(current: Option<GDriveConfig>, incoming: GDriveConfig) -> (step: CommandStep)
    ensures
        step.follows(set_config_plan(optional_config(current), incoming@)),
{
    let config = merge_with_current_config(incoming, &current);
    let step = persist_config(&config);
    embed_saving(
        Closing { saved: Some(config), unsaved: current, response: CommandResponse::ok_empty() },
        step,
    )
}

/// Clears the tokens.
pub fn disconnect(current: Option<GDriveConfig>) -> (step: CommandStep)
    ensures
        step.follows(disconnect_plan(optional_config(current))),
{
    let response = respond_with_message("Disconnected from Google Drive.");
    match current {
        Some(config) => adopt(config.without_tokens(), response),
        None => {
            let config = default_config().without_tokens();
            let step = persist_config(&config);
            embed_saving(Closing { saved: Some(config), unsaved: None, response }, step)
        },
    }
}

/// Starts an operation on the storage.
pub fn start_operation(config: &GDriveConfig, operation: Operation) -> (step: OpStep)
    ensures
        step.follows(operation_plan(config@, operation@)),
        step.is_encodable(),
{
    reveal(path_plan);
    match operation {
        Operation::ReadFile { path } => read_file(config, path.as_str()),
        Operation::WriteFile { path, content } => write_file(
            config,
            path.as_str(),
            content.as_str(),
        ),
        Operation::DeleteFile { path } => delete_file(config, path.as_str()),
        Operation::Exists { path } => file_exists(config, path.as_str()),
        Operation::ListFiles { dir } => list_files(config, dir.as_str()),
        Operation::ListMdFiles { dir } => list_md_files(config, dir.as_str()),
        Operation::CreateDirAll { path } => create_dir_all(config, path.as_str()),
        Operation::IsDir { path } => is_dir(config, path.as_str()),
        Operation::MoveFile { from, to } => move_file(config, from.as_str(), to.as_str()),
        Operation::ReadBinary { path } => read_binary(config, path.as_str()),
        Operation::WriteBinary { path, data } => write_binary(config, path.as_str(), data),
        Operation::GetModifiedTime { path } => get_modified_time(config, path.as_str()),
        Operation::RefreshToken => refresh_token(config),
        Operation::ExchangeToken { code, redirect_uri, code_verifier } =>
            exchange_token_with_verifier(
            config,
            code.as_str(),
            redirect_uri.as_str(),
            code_verifier.as_str(),
        ),
    }
}

/// Does what a request asks for.
pub fn run_request(current: Option<GDriveConfig>, request: Request) -> (step: CommandStep)
    ensures
        step.follows(request_plan(optional_config(current), request@)),
{
    match request {
        Request::Operation(operation) => match current {
            Some(config) => {
                let step = start_operation(&config, operation);
                embed_operation(config, step)
            },
            None => end(
                None,
                CommandResponse::err("Google Drive plugin not configured".to_string()),
            ),
        },
        Request::BeginOAuth(params) => {
            let response = begin_oauth(&config_or_default(&current), &params);
            end(current, response)
        },
        Request::GetConfig => {
            let shown = view_config(&config_or_default(&current));
            end(current, CommandResponse::ok(shown))
        },
        Request::SetConfig(document) => CommandStep::DecodeConfig(
            document,
            CommandDecodeTask { current },
        ),
        Request::Disconnect => disconnect(current),
    }
}

/// Does what a command asks for.
pub fn dispatch_command(current: Option<GDriveConfig>, command: &str, params: &Value) -> (step:
    CommandStep)
    ensures
        step.follows(dispatch_plan(optional_config(current), command@, json_model(*params))),
{
    match find_command(command) {
        None => end(
            current,
            CommandResponse::err("Unknown command: ".to_string().concat(command)),
        ),
        Some(known) => match read_request(known, params) {
            Ok(request) => run_request(current, request),
            Err(message) => end(current, CommandResponse::err(message)),
        },
    }
}

} // verus!
