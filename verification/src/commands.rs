//! The commands of the plugin, their parameters and their responses.
use crate::base64_text::{base64_decoded, decode_base64};
use crate::drive_replies::{bytes_result, text_result};
use crate::json::{
    copy_value, get_member, json_model, member, null_value, optional_text, read_text, text_member,
    Json,
};
use crate::text::{blank, is_blank, same_text};
use serde_json::Value;
use vstd::prelude::*;
use vstd::string::*;

verus! {

// ---------------------------------------------------------------------------
// Names
// ---------------------------------------------------------------------------

/// The commands.
#[derive(Clone, Copy, PartialEq, Eq, Structural, Debug)]
pub enum Command {
    ReadFile,
    WriteFile,
    DeleteFile,
    Exists,
    ListFiles,
    ListMdFiles,
    CreateDirAll,
    IsDir,
    MoveFile,
    ReadBinary,
    WriteBinary,
    GetModifiedTime,
    BeginOAuth,
    CompleteOAuth,
    RefreshToken,
    Disconnect,
    ExchangeToken,
    GetConfig,
    SetConfig,
}

impl Command {
    /// The name of the command.
    pub open spec fn model(self) -> Seq<char> {
        match self {
            Command::ReadFile => "ReadFile"@,
            Command::WriteFile => "WriteFile"@,
            Command::DeleteFile => "DeleteFile"@,
            Command::Exists => "Exists"@,
            Command::ListFiles => "ListFiles"@,
            Command::ListMdFiles => "ListMdFiles"@,
            Command::CreateDirAll => "CreateDirAll"@,
            Command::IsDir => "IsDir"@,
            Command::MoveFile => "MoveFile"@,
            Command::ReadBinary => "ReadBinary"@,
            Command::WriteBinary => "WriteBinary"@,
            Command::GetModifiedTime => "GetModifiedTime"@,
            Command::BeginOAuth => "BeginOAuth"@,
            Command::CompleteOAuth => "CompleteOAuth"@,
            Command::RefreshToken => "RefreshToken"@,
            Command::Disconnect => "Disconnect"@,
            Command::ExchangeToken => "ExchangeToken"@,
            Command::GetConfig => "GetConfig"@,
            Command::SetConfig => "SetConfig"@,
        }
    }

    /// The name of the command.
    pub fn name(self) -> (name: &'static str)
        ensures
            name@ == self.model(),
    {
        match self {
            Command::ReadFile => "ReadFile",
            Command::WriteFile => "WriteFile",
            Command::DeleteFile => "DeleteFile",
            Command::Exists => "Exists",
            Command::ListFiles => "ListFiles",
            Command::ListMdFiles => "ListMdFiles",
            Command::CreateDirAll => "CreateDirAll",
            Command::IsDir => "IsDir",
            Command::MoveFile => "MoveFile",
            Command::ReadBinary => "ReadBinary",
            Command::WriteBinary => "WriteBinary",
            Command::GetModifiedTime => "GetModifiedTime",
            Command::BeginOAuth => "BeginOAuth",
            Command::CompleteOAuth => "CompleteOAuth",
            Command::RefreshToken => "RefreshToken",
            Command::Disconnect => "Disconnect",
            Command::ExchangeToken => "ExchangeToken",
            Command::GetConfig => "GetConfig",
            Command::SetConfig => "SetConfig",
        }
    }
}

/// All the commands.
pub open spec fn all_commands() -> Seq<Command> {
    seq![
        Command::ReadFile,
        Command::WriteFile,
        Command::DeleteFile,
        Command::Exists,
        Command::ListFiles,
        Command::ListMdFiles,
        Command::CreateDirAll,
        Command::IsDir,
        Command::MoveFile,
        Command::ReadBinary,
        Command::WriteBinary,
        Command::GetModifiedTime,
        Command::BeginOAuth,
        Command::CompleteOAuth,
        Command::RefreshToken,
        Command::Disconnect,
        Command::ExchangeToken,
        Command::GetConfig,
        Command::SetConfig,
    ]
}

/// All the commands, in the order in which the manifest lists them.
pub fn command_list() -> (commands: Vec<Command>)
    ensures
        commands@ == all_commands(),
{
    let commands: Vec<Command> = vec![
        Command::ReadFile,
        Command::WriteFile,
        Command::DeleteFile,
        Command::Exists,
        Command::ListFiles,
        Command::ListMdFiles,
        Command::CreateDirAll,
        Command::IsDir,
        Command::MoveFile,
        Command::ReadBinary,
        Command::WriteBinary,
        Command::GetModifiedTime,
        Command::BeginOAuth,
        Command::CompleteOAuth,
        Command::RefreshToken,
        Command::Disconnect,
        Command::ExchangeToken,
        Command::GetConfig,
        Command::SetConfig,
    ];
    assert(commands@ =~= all_commands());
    commands
}

/// The names of some commands.
pub open spec fn command_names(commands: Seq<Command>) -> Seq<Seq<char>> {
    commands.map_values(|command: Command| command.model())
}

/// The command of a name, among some commands; none where none has the name.
pub open spec fn named_command(commands: Seq<Command>, name: Seq<char>) -> Option<Command>
    decreases commands.len(),
{
    if commands.len() == 0 {
        None
    } else if commands[0].model() == name {
        Some(commands[0])
    } else {
        named_command(commands.skip(1), name)
    }
}

/// Looks a command up by its name.
pub fn find_command(name: &str) -> (command: Option<Command>)
    ensures
        command == named_command(all_commands(), name@),
{
    let commands = command_list();
    let mut i: usize = 0;
    assert(all_commands().skip(0) =~= all_commands());
    while i < commands.len()
        invariant
            commands@ == all_commands(),
            i <= commands@.len(),
            named_command(all_commands(), name@) == named_command(
                all_commands().skip(i as int),
                name@,
            ),
        decreases commands.len() - i,
    {
        let command: Command = commands[i];
        if same_text(command.name(), name) {
            return Some(command);
        }
        assert(all_commands().skip(i as int).skip(1) =~= all_commands().skip(i + 1));
        i = i + 1;
    }
    None
}

// ---------------------------------------------------------------------------
// Requests
// ---------------------------------------------------------------------------

/// An operation on the storage, with its parameters.
pub enum Operation {
    ReadFile { path: String },
    WriteFile { path: String, content: String },
    DeleteFile { path: String },
    Exists { path: String },
    ListFiles { dir: String },
    ListMdFiles { dir: String },
    CreateDirAll { path: String },
    IsDir { path: String },
    MoveFile { from: String, to: String },
    ReadBinary { path: String },
    WriteBinary { path: String, data: Vec<u8> },
    GetModifiedTime { path: String },
    RefreshToken,
    ExchangeToken { code: String, redirect_uri: String, code_verifier: String },
}

/// What an operation on the storage asks for.
pub enum OperationModel {
    ReadFile { path: Seq<char> },
    WriteFile { path: Seq<char>, content: Seq<char> },
    DeleteFile { path: Seq<char> },
    Exists { path: Seq<char> },
    ListFiles { dir: Seq<char> },
    ListMdFiles { dir: Seq<char> },
    CreateDirAll { path: Seq<char> },
    IsDir { path: Seq<char> },
    MoveFile { from: Seq<char>, to: Seq<char> },
    ReadBinary { path: Seq<char> },
    WriteBinary { path: Seq<char>, data: Seq<u8> },
    GetModifiedTime { path: Seq<char> },
    RefreshToken,
    ExchangeToken { code: Seq<char>, redirect_uri: Seq<char>, code_verifier: Seq<char> },
}

impl View for Operation {
    type V = OperationModel;

    open spec fn view(&self) -> OperationModel {
        match self {
            Operation::ReadFile { path } => OperationModel::ReadFile { path: path@ },
            Operation::WriteFile { path, content } => OperationModel::WriteFile {
                path: path@,
                content: content@,
            },
            Operation::DeleteFile { path } => OperationModel::DeleteFile { path: path@ },
            Operation::Exists { path } => OperationModel::Exists { path: path@ },
            Operation::ListFiles { dir } => OperationModel::ListFiles { dir: dir@ },
            Operation::ListMdFiles { dir } => OperationModel::ListMdFiles { dir: dir@ },
            Operation::CreateDirAll { path } => OperationModel::CreateDirAll { path: path@ },
            Operation::IsDir { path } => OperationModel::IsDir { path: path@ },
            Operation::MoveFile { from, to } => OperationModel::MoveFile { from: from@, to: to@ },
            Operation::ReadBinary { path } => OperationModel::ReadBinary { path: path@ },
            Operation::WriteBinary { path, data } => OperationModel::WriteBinary {
                path: path@,
                data: data@,
            },
            Operation::GetModifiedTime { path } => OperationModel::GetModifiedTime { path: path@ },
            Operation::RefreshToken => OperationModel::RefreshToken,
            Operation::ExchangeToken { code, redirect_uri, code_verifier } =>
                OperationModel::ExchangeToken {
                code: code@,
                redirect_uri: redirect_uri@,
                code_verifier: code_verifier@,
            },
        }
    }
}

/// The parameters of the start of an OAuth sign-in, as far as they are given.
pub struct OAuthParams {
    pub client_id: Option<String>,
    pub redirect_uri: Option<String>,
    pub redirect_uri_prefix: Option<String>,
    pub code_challenge: Option<String>,
    /// Handed on to the follow-up command as it is; `null` where it is missing.
    pub code_verifier: Value,
}

/// What the parameters of the start of an OAuth sign-in say.
pub struct OAuthModel {
    pub client_id: Option<Seq<char>>,
    pub redirect_uri: Option<Seq<char>>,
    pub redirect_uri_prefix: Option<Seq<char>>,
    pub code_challenge: Option<Seq<char>>,
    pub code_verifier: Json,
}

impl View for OAuthParams {
    type V = OAuthModel;

    open spec fn view(&self) -> OAuthModel {
        OAuthModel {
            client_id: optional_text(self.client_id),
            redirect_uri: optional_text(self.redirect_uri),
            redirect_uri_prefix: optional_text(self.redirect_uri_prefix),
            code_challenge: optional_text(self.code_challenge),
            code_verifier: json_model(self.code_verifier),
        }
    }
}

/// A command with its parameters.
pub enum Request {
    Operation(Operation),
    BeginOAuth(OAuthParams),
    GetConfig,
    SetConfig(Value),
    Disconnect,
}

/// What a command with its parameters asks for.
pub enum RequestModel {
    Operation(OperationModel),
    BeginOAuth(OAuthModel),
    GetConfig,
    SetConfig(Json),
    Disconnect,
}

impl View for Request {
    type V = RequestModel;

    open spec fn view(&self) -> RequestModel {
        match self {
            Request::Operation(operation) => RequestModel::Operation(operation@),
            Request::BeginOAuth(params) => RequestModel::BeginOAuth(params@),
            Request::GetConfig => RequestModel::GetConfig,
            Request::SetConfig(document) => RequestModel::SetConfig(json_model(*document)),
            Request::Disconnect => RequestModel::Disconnect,
        }
    }
}

/// A request, or the message that a parameter is missing or wrong.
pub open spec fn request_result(result: Result<Request, String>) -> Result<
    RequestModel,
    Seq<char>,
> {
    match result {
        Ok(request) => Ok(request@),
        Err(message) => Err(message@),
    }
}

/// The message for a missing parameter.
pub open spec fn missing(key: Seq<char>) -> Seq<char> {
    "Missing '"@ + key + "' parameter"@
}

pub(crate) fn missing_message(key: &str) -> (message: String)
    ensures
        message@ == missing(key@),
{
    "Missing '".to_string().concat(key).concat("' parameter")
}

/// A text parameter that has to be there.
pub open spec fn required_text(params: Json, key: Seq<char>) -> Result<Seq<char>, Seq<char>> {
    match text_member(params, key) {
        Some(text) => Ok(text),
        None => Err(missing(key)),
    }
}

/// Reads a text parameter that has to be there.
pub fn require_text(params: &Value, key: &str) -> (result: Result<String, String>)
    ensures
        text_result(result) == required_text(json_model(*params), key@),
{
    match read_text(params, key) {
        Some(text) => Ok(text),
        None => Err(missing_message(key)),
    }
}

/// The folder to list: the root folder where none is given.
pub open spec fn listed_dir(params: Json) -> Seq<char> {
    match text_member(params, "dir"@) {
        Some(dir) => dir,
        None => Seq::empty(),
    }
}

fn read_dir(params: &Value) -> (dir: String)
    ensures
        dir@ == listed_dir(json_model(*params)),
{
    match read_text(params, "dir") {
        Some(dir) => dir,
        None => String::new(),
    }
}

/// The content of a binary file, given in base64.
pub open spec fn binary_data(params: Json) -> Result<Seq<u8>, Seq<char>> {
    match text_member(params, "data"@) {
        None => Err("Missing 'data' parameter (base64)"@),
        Some(text) => match base64_decoded(text) {
            Ok(bytes) => Ok(bytes),
            Err(message) => Err("Invalid base64: "@ + message),
        },
    }
}

fn read_data(params: &Value) -> (result: Result<Vec<u8>, String>)
    ensures
        bytes_result(result) == binary_data(json_model(*params)),
{
    match read_text(params, "data") {
        None => Err("Missing 'data' parameter (base64)".to_string()),
        Some(text) => match decode_base64(text.as_str()) {
            Ok(bytes) => Ok(bytes),
            Err(message) => Err("Invalid base64: ".to_string().concat(message.as_str())),
        },
    }
}

/// The parameters of the exchange of an authorization code. The code verifier
/// must not be blank.
pub open spec fn exchange_params(params: Json) -> Result<OperationModel, Seq<char>> {
    match required_text(params, "code"@) {
        Err(message) => Err(message),
        Ok(code) => match required_text(params, "redirect_uri"@) {
            Err(message) => Err(message),
            Ok(redirect_uri) => match text_member(params, "code_verifier"@) {
                Some(code_verifier) => if is_blank(code_verifier) {
                    Err(missing("code_verifier"@))
                } else {
                    Ok(OperationModel::ExchangeToken { code, redirect_uri, code_verifier })
                },
                None => Err(missing("code_verifier"@)),
            },
        },
    }
}

/// An operation, or the message that a parameter is missing or wrong.
pub open spec fn operation_result(result: Result<Operation, String>) -> Result<
    OperationModel,
    Seq<char>,
> {
    match result {
        Ok(operation) => Ok(operation@),
        Err(message) => Err(message@),
    }
}

fn read_exchange(params: &Value) -> (result: Result<Operation, String>)
    ensures
        operation_result(result) == exchange_params(json_model(*params)),
{
    let code = match require_text(params, "code") {
        Ok(code) => code,
        Err(message) => return Err(message),
    };
    let redirect_uri = match require_text(params, "redirect_uri") {
        Ok(redirect_uri) => redirect_uri,
        Err(message) => return Err(message),
    };
    match read_text(params, "code_verifier") {
        Some(code_verifier) => if blank(code_verifier.as_str()) {
            Err(missing_message("code_verifier"))
        } else {
            Ok(Operation::ExchangeToken { code, redirect_uri, code_verifier })
        },
        None => Err(missing_message("code_verifier")),
    }
}

/// The parameters of the start of an OAuth sign-in.
pub open spec fn oauth_params(params: Json) -> OAuthModel {
    OAuthModel {
        client_id: text_member(params, "client_id"@),
        redirect_uri: text_member(params, "redirect_uri"@),
        redirect_uri_prefix: text_member(params, "redirect_uri_prefix"@),
        code_challenge: text_member(params, "code_challenge"@),
        code_verifier: match member(params, "code_verifier"@) {
            Some(value) => value,
            None => Json::Null,
        },
    }
}

fn read_oauth(params: &Value) -> (oauth: OAuthParams)
    ensures
        oauth@ == oauth_params(json_model(*params)),
{
    OAuthParams {
        client_id: read_text(params, "client_id"),
        redirect_uri: read_text(params, "redirect_uri"),
        redirect_uri_prefix: read_text(params, "redirect_uri_prefix"),
        code_challenge: read_text(params, "code_challenge"),
        code_verifier: match get_member(params, "code_verifier") {
            Some(value) => copy_value(value),
            None => null_value(),
        },
    }
}

/// The operation that a command asks for on the file at a path.
pub open spec fn path_operation(command: Command, path: Seq<char>) -> OperationModel {
    match command {
        Command::ReadFile => OperationModel::ReadFile { path },
        Command::DeleteFile => OperationModel::DeleteFile { path },
        Command::Exists => OperationModel::Exists { path },
        Command::CreateDirAll => OperationModel::CreateDirAll { path },
        Command::IsDir => OperationModel::IsDir { path },
        Command::ReadBinary => OperationModel::ReadBinary { path },
        _ => OperationModel::GetModifiedTime { path },
    }
}

/// What a command asks for, or the message that a parameter is missing or wrong.
/// Parameters are looked at in the order of this definition.
pub open spec fn command_request(command: Command, params: Json) -> Result<
    RequestModel,
    Seq<char>,
> {
    match command {
        Command::ReadFile
        | Command::DeleteFile
        | Command::Exists
        | Command::CreateDirAll
        | Command::IsDir
        | Command::ReadBinary
        | Command::GetModifiedTime => match required_text(params, "path"@) {
            Ok(path) => Ok(RequestModel::Operation(path_operation(command, path))),
            Err(message) => Err(message),
        },
        Command::WriteFile => match required_text(params, "path"@) {
            Ok(path) => match required_text(params, "content"@) {
                Ok(content) => Ok(
                    RequestModel::Operation(OperationModel::WriteFile { path, content }),
                ),
                Err(message) => Err(message),
            },
            Err(message) => Err(message),
        },
        Command::WriteBinary => match required_text(params, "path"@) {
            Ok(path) => match binary_data(params) {
                Ok(data) => Ok(RequestModel::Operation(OperationModel::WriteBinary { path, data })),
                Err(message) => Err(message),
            },
            Err(message) => Err(message),
        },
        Command::ListFiles => Ok(
            RequestModel::Operation(OperationModel::ListFiles { dir: listed_dir(params) }),
        ),
        Command::ListMdFiles => Ok(
            RequestModel::Operation(OperationModel::ListMdFiles { dir: listed_dir(params) }),
        ),
        Command::MoveFile => match required_text(params, "from"@) {
            Ok(from) => match required_text(params, "to"@) {
                Ok(to) => Ok(RequestModel::Operation(OperationModel::MoveFile { from, to })),
                Err(message) => Err(message),
            },
            Err(message) => Err(message),
        },
        Command::BeginOAuth => Ok(RequestModel::BeginOAuth(oauth_params(params))),
        Command::CompleteOAuth | Command::ExchangeToken => match exchange_params(params) {
            Ok(operation) => Ok(RequestModel::Operation(operation)),
            Err(message) => Err(message),
        },
        Command::RefreshToken => Ok(RequestModel::Operation(OperationModel::RefreshToken)),
        Command::Disconnect => Ok(RequestModel::Disconnect),
        Command::GetConfig => Ok(RequestModel::GetConfig),
        Command::SetConfig => Ok(RequestModel::SetConfig(params)),
    }
}

/// Reads the parameters of a command.
pub fn read_request(command: Command, params: &Value) -> (result: Result<Request, String>)
    ensures
        request_result(result) == command_request(command, json_model(*params)),
{
    match command {
        Command::ReadFile
        | Command::DeleteFile
        | Command::Exists
        | Command::CreateDirAll
        | Command::IsDir
        | Command::ReadBinary
        | Command::GetModifiedTime => match require_text(params, "path") {
            Ok(path) => Ok(
                Request::Operation(
                    match command {
                        Command::ReadFile => Operation::ReadFile { path },
                        Command::DeleteFile => Operation::DeleteFile { path },
                        Command::Exists => Operation::Exists { path },
                        Command::CreateDirAll => Operation::CreateDirAll { path },
                        Command::IsDir => Operation::IsDir { path },
                        Command::ReadBinary => Operation::ReadBinary { path },
                        _ => Operation::GetModifiedTime { path },
                    },
                ),
            ),
            Err(message) => Err(message),
        },
        Command::WriteFile => match require_text(params, "path") {
            Ok(path) => match require_text(params, "content") {
                Ok(content) => Ok(Request::Operation(Operation::WriteFile { path, content })),
                Err(message) => Err(message),
            },
            Err(message) => Err(message),
        },
        Command::WriteBinary => match require_text(params, "path") {
            Ok(path) => match read_data(params) {
                Ok(data) => Ok(Request::Operation(Operation::WriteBinary { path, data })),
                Err(message) => Err(message),
            },
            Err(message) => Err(message),
        },
        Command::ListFiles => Ok(
            Request::Operation(Operation::ListFiles { dir: read_dir(params) }),
        ),
        Command::ListMdFiles => Ok(
            Request::Operation(Operation::ListMdFiles { dir: read_dir(params) }),
        ),
        Command::MoveFile => match require_text(params, "from") {
            Ok(from) => match require_text(params, "to") {
                Ok(to) => Ok(Request::Operation(Operation::MoveFile { from, to })),
                Err(message) => Err(message),
            },
            Err(message) => Err(message),
        },
        Command::BeginOAuth => Ok(Request::BeginOAuth(read_oauth(params))),
        Command::CompleteOAuth | Command::ExchangeToken => match read_exchange(params) {
            Ok(operation) => Ok(Request::Operation(operation)),
            Err(message) => Err(message),
        },
        Command::RefreshToken => Ok(Request::Operation(Operation::RefreshToken)),
        Command::Disconnect => Ok(Request::Disconnect),
        Command::GetConfig => Ok(Request::GetConfig),
        Command::SetConfig => Ok(Request::SetConfig(copy_value(params))),
    }
}

// ---------------------------------------------------------------------------
// Responses
// ---------------------------------------------------------------------------

/// The response to a command.
#[derive(Debug, PartialEq)]
pub struct CommandResponse {
    pub success: bool,
    pub data: Option<Value>,
    pub error: Option<String>,
}

/// What the response to a command says.
pub struct ResponseModel {
    pub success: bool,
    pub data: Option<Json>,
    pub error: Option<Seq<char>>,
}

impl View for CommandResponse {
    type V = ResponseModel;

    open spec fn view(&self) -> ResponseModel {
        ResponseModel {
            success: self.success,
            data: match self.data {
                Some(data) => Some(json_model(data)),
                None => None,
            },
            error: optional_text(self.error),
        }
    }
}

/// A success with data.
pub open spec fn ok_response(data: Json) -> ResponseModel {
    ResponseModel { success: true, data: Some(data), error: None }
}

/// A success without data.
pub open spec fn empty_response() -> ResponseModel {
    ResponseModel { success: true, data: None, error: None }
}

/// A failure with its message.
pub open spec fn error_response(message: Seq<char>) -> ResponseModel {
    ResponseModel { success: false, data: None, error: Some(message) }
}

impl CommandResponse {
    /// A success with data.
    pub fn ok(data: Value) -> (response: CommandResponse)
        ensures
            response@ == ok_response(json_model(data)),
    {
        CommandResponse { success: true, data: Some(data), error: None }
    }

    /// A success without data.
    pub fn ok_empty() -> (response: CommandResponse)
        ensures
            response@ == empty_response(),
    {
        CommandResponse { success: true, data: None, error: None }
    }

    /// A failure with its message.
    pub fn err(message: String) -> (response: CommandResponse)
        ensures
            response@ == error_response(message@),
    {
        CommandResponse { success: false, data: None, error: Some(message) }
    }
}

// ---------------------------------------------------------------------------
// Laws
// ---------------------------------------------------------------------------

/// A name belongs to a command exactly when it is in the list of names.
pub proof fn law_listed_names_are_commands(commands: Seq<Command>, name: Seq<char>)
    ensures
        named_command(commands, name) is Some <==> command_names(commands).contains(name),
        named_command(commands, name) matches Some(command) ==> command.model() == name
            && commands.contains(command),
    decreases commands.len(),
{
    let names = command_names(commands);
    if commands.len() > 0 {
        let rest = commands.skip(1);
        law_listed_names_are_commands(rest, name);
        assert(names[0] == commands[0].model());
        assert forall|i: int| 1 <= i < names.len() implies names[i] == #[trigger] command_names(
            rest,
        )[i - 1] by {
            assert(rest[i - 1] == commands[i]);
        }
        if command_names(rest).contains(name) {
            let k = choose|k: int|
                0 <= k < command_names(rest).len() && command_names(rest)[k] == name;
            assert(names[k + 1] == command_names(rest)[k + 1 - 1]);
            assert(names[k + 1] == name);
        }
        if names.contains(name) && names[0] != name {
            let k = choose|k: int| 0 <= k < names.len() && names[k] == name;
            assert(names[k] == command_names(rest)[k - 1]);
        }
        if named_command(rest, name) is Some {
            let found = named_command(rest, name)->Some_0;
            let k = choose|k: int| 0 <= k < rest.len() && rest[k] == found;
            assert(commands[k + 1] == found);
        }
        assert(commands[0] == commands[0int]);
    }
}

/// What tells the names of the commands apart: their length and their first two
/// letters.
spec fn mark_of(command: Command) -> (nat, char, char) {
    match command {
        Command::ReadFile => (8, 'R', 'e'),
        Command::WriteFile => (9, 'W', 'r'),
        Command::DeleteFile => (10, 'D', 'e'),
        Command::Exists => (6, 'E', 'x'),
        Command::ListFiles => (9, 'L', 'i'),
        Command::ListMdFiles => (11, 'L', 'i'),
        Command::CreateDirAll => (12, 'C', 'r'),
        Command::IsDir => (5, 'I', 's'),
        Command::MoveFile => (8, 'M', 'o'),
        Command::ReadBinary => (10, 'R', 'e'),
        Command::WriteBinary => (11, 'W', 'r'),
        Command::GetModifiedTime => (15, 'G', 'e'),
        Command::BeginOAuth => (10, 'B', 'e'),
        Command::CompleteOAuth => (13, 'C', 'o'),
        Command::RefreshToken => (12, 'R', 'e'),
        Command::Disconnect => (10, 'D', 'i'),
        Command::ExchangeToken => (13, 'E', 'x'),
        Command::GetConfig => (9, 'G', 'e'),
        Command::SetConfig => (9, 'S', 'e'),
    }
}

proof fn lemma_marks(command: Command)
    ensures
        command.model().len() >= 2,
        mark_of(command) == (
            command.model().len(),
            command.model()[0],
            command.model()[1],
        ),
{
    reveal_strlit("ReadFile");
    reveal_strlit("WriteFile");
    reveal_strlit("DeleteFile");
    reveal_strlit("Exists");
    reveal_strlit("ListFiles");
    reveal_strlit("ListMdFiles");
    reveal_strlit("CreateDirAll");
    reveal_strlit("IsDir");
    reveal_strlit("MoveFile");
    reveal_strlit("ReadBinary");
    reveal_strlit("WriteBinary");
    reveal_strlit("GetModifiedTime");
    reveal_strlit("BeginOAuth");
    reveal_strlit("CompleteOAuth");
    reveal_strlit("RefreshToken");
    reveal_strlit("Disconnect");
    reveal_strlit("ExchangeToken");
    reveal_strlit("GetConfig");
    reveal_strlit("SetConfig");
}

proof fn lemma_found_from(command: Command, from: int)
    requires
        0 <= from <= all_commands().len(),
        all_commands().skip(from).contains(command),
    ensures
        named_command(all_commands().skip(from), command.model()) == Some(command),
    decreases all_commands().len() - from,
{
    let left = all_commands().skip(from);
    let k = choose|k: int| 0 <= k < left.len() && left[k] == command;
    lemma_marks(left[0]);
    lemma_marks(command);
    if left[0] != command {
        assert(left.skip(1) =~= all_commands().skip(from + 1));
        assert(all_commands().skip(from + 1)[k - 1] == command);
        lemma_found_from(command, from + 1);
    }
}

/// Every command is found by its name, so no two commands share one.
pub proof fn law_commands_are_found_by_their_names(command: Command)
    ensures
        named_command(all_commands(), command.model()) == Some(command),
{
    let all = all_commands();
    assert(all.skip(0) =~= all);
    let i: int = match command {
        Command::ReadFile => 0,
        Command::WriteFile => 1,
        Command::DeleteFile => 2,
        Command::Exists => 3,
        Command::ListFiles => 4,
        Command::ListMdFiles => 5,
        Command::CreateDirAll => 6,
        Command::IsDir => 7,
        Command::MoveFile => 8,
        Command::ReadBinary => 9,
        Command::WriteBinary => 10,
        Command::GetModifiedTime => 11,
        Command::BeginOAuth => 12,
        Command::CompleteOAuth => 13,
        Command::RefreshToken => 14,
        Command::Disconnect => 15,
        Command::ExchangeToken => 16,
        Command::GetConfig => 17,
        Command::SetConfig => 18,
    };
    assert(all[i] == command);
    lemma_found_from(command, 0);
}

} // verus!
