//! What the storage operations do: each is a plan of requests to Google Drive.
use crate::config::ConfigModel;
use crate::drive_replies::{
    accepted, created_folder, deleted, exchanged_tokens, found_file, found_folder, markdown_names,
    media_bytes, media_text, refreshed_token, told_parent, told_time, FileRefModel,
};
use crate::drive_requests::{
    create_file_model, create_folder_model, delete_model, exchange_form, find_file_model,
    find_folder_model, media_model, modified_model, move_model, parents_model, refresh_form,
    token_model, update_model, verified_exchange_form,
};
use crate::http::{HttpReplyModel, HttpRequestModel};
use crate::path::{last_name, path_parts};
use crate::plan::{bind, Listed, ListingModel, Plan};
use vstd::prelude::*;
use vstd::string::*;

verus! {

/// What came of an HTTP request.
pub type Answer = Result<HttpReplyModel, Seq<char>>;

/// What an operation hands back.
pub enum OpModel {
    Nothing,
    Text(Seq<char>),
    Bytes(Seq<u8>),
    Exists(bool),
    IsDir(bool),
    Names(Seq<Seq<char>>),
    Time(Option<i64>),
    Token(Seq<char>),
    Tokens(Seq<char>, Seq<char>),
}

/// How an operation ends: with a value, or with a message of what went wrong.
pub type Outcome = Result<OpModel, Seq<char>>;

/// What a path leads to: a file, nothing, or a message of what went wrong.
pub type Found = Result<Option<FileRefModel>, Seq<char>>;

// ---------------------------------------------------------------------------
// Resolving a path
// ---------------------------------------------------------------------------

/// Follows the components of a path down from a folder. Without components it
/// leads to the folder itself.
pub open spec fn resolve_parts(
    config: ConfigModel,
    parent: Seq<char>,
    parts: Seq<Seq<char>>,
) -> Plan<Found>
    decreases parts.len(), 1int,
{
    if parts.len() == 0 {
        Plan::Return(Ok(Some(FileRefModel { id: parent, is_folder: true })))
    } else {
        Plan::Http(
            find_file_model(config, parent, parts[0]),
            |answer: Answer| after_search(config, parts, answer),
        )
    }
}

/// Goes on after the search for the first of the components.
pub open spec fn after_search(config: ConfigModel, parts: Seq<Seq<char>>, answer: Answer) -> Plan<
    Found,
>
    decreases parts.len(), 0int,
{
    match answer {
        Err(message) => Plan::Return(Err(message)),
        Ok(reply) => match found_file(reply) {
            Err(message) => Plan::Return(Err(message)),
            Ok(None) => Plan::Return(Ok(None)),
            Ok(Some(file)) => if parts.len() <= 1 {
                Plan::Return(Ok(Some(file)))
            } else if !file.is_folder {
                Plan::Return(Err("Path component '"@ + parts[0] + "' is not a folder"@))
            } else {
                resolve_parts(config, file.id, parts.skip(1))
            },
        },
    }
}

/// Resolves a path like "dir/subdir/file.md", from the root folder.
pub open spec fn resolve_path_plan(config: ConfigModel, path: Seq<char>) -> Plan<Found> {
    resolve_parts(config, config.root_folder_id, path_parts(path))
}

// ---------------------------------------------------------------------------
// Making folders
// ---------------------------------------------------------------------------

/// The id of a folder, or a message of what went wrong.
pub type Folder = Result<Seq<char>, Seq<char>>;

/// Finds a folder within a folder, or creates it.
pub open spec fn get_or_create_folder_plan(
    config: ConfigModel,
    parent: Seq<char>,
    name: Seq<char>,
) -> Plan<Folder> {
    Plan::Http(
        find_folder_model(config, parent, name),
        |answer: Answer| after_folder_search(config, parent, name, answer),
    )
}

/// Goes on after the search for a folder.
pub open spec fn after_folder_search(
    config: ConfigModel,
    parent: Seq<char>,
    name: Seq<char>,
    answer: Answer,
) -> Plan<Folder> {
    match answer {
        Err(message) => Plan::Return(Err(message)),
        Ok(reply) => match found_folder(reply) {
            Err(message) => Plan::Return(Err(message)),
            Ok(Some(id)) => Plan::Return(Ok(id)),
            Ok(None) => Plan::Http(
                create_folder_model(config, parent, name),
                |answer: Answer| Plan::Return(after_folder_creation(answer)),
            ),
        },
    }
}

/// What came of the creation of a folder.
pub open spec fn after_folder_creation(answer: Answer) -> Folder {
    match answer {
        Err(message) => Err(message),
        Ok(reply) => created_folder(reply),
    }
}

/// Finds or creates folders, each within the one before it.
pub open spec fn make_folders(
    config: ConfigModel,
    parent: Seq<char>,
    names: Seq<Seq<char>>,
) -> Plan<Folder>
    decreases names.len(), 2int,
{
    if names.len() == 0 {
        Plan::Return(Ok(parent))
    } else {
        bind(get_or_create_folder_plan(config, parent, names[0]), folder_rest(config, names))
    }
}

/// The continuation once the first of the folders is there.
pub open spec fn folder_rest(config: ConfigModel, names: Seq<Seq<char>>) -> spec_fn(Folder) -> Plan<
    Folder,
>
    decreases names.len(), 1int,
{
    |folder: Folder| after_folder(config, names, folder)
}

/// Goes on once the first of the folders is there.
pub open spec fn after_folder(config: ConfigModel, names: Seq<Seq<char>>, folder: Folder) -> Plan<
    Folder,
>
    decreases names.len(), 0int,
{
    match folder {
        Err(message) => Plan::Return(Err(message)),
        Ok(id) => if names.len() <= 1 {
            Plan::Return(Ok(id))
        } else {
            make_folders(config, id, names.skip(1))
        },
    }
}

/// The components of a path but for the last.
pub open spec fn folder_names(path: Seq<char>) -> Seq<Seq<char>> {
    if path_parts(path).len() == 0 {
        Seq::empty()
    } else {
        path_parts(path).drop_last()
    }
}

/// Finds or creates the folders that lead to the last component of a path.
pub open spec fn get_or_create_parent_plan(config: ConfigModel, path: Seq<char>) -> Plan<Folder> {
    make_folders(config, config.root_folder_id, folder_names(path))
}

// ---------------------------------------------------------------------------
// Operations on a path
// ---------------------------------------------------------------------------

/// What is wanted of the file that a path leads to.
pub enum GoalModel {
    ReadText { path: Seq<char> },
    ReadBytes { path: Seq<char> },
    Write { path: Seq<char>, content: Seq<u8>, content_type: Seq<char> },
    Delete,
    Exists,
    IsDir,
    List { dir: Seq<char> },
    ListMarkdown { dir: Seq<char> },
    Move { from: Seq<char>, to: Seq<char> },
    ModifiedTime,
}

/// What the folders are wanted for.
pub enum ErrandModel {
    /// To be there.
    Nothing,
    /// To hold a new file.
    CreateFile { name: Seq<char>, content: Seq<u8>, content_type: Seq<char> },
    /// To take a file in.
    MoveFile { id: Seq<char>, name: Seq<char> },
}

/// Which request came last, where its reply ends the operation.
#[derive(Clone, Copy, PartialEq, Eq, Structural)]
pub enum Ending {
    ReadText,
    ReadBytes,
    Update,
    Create,
    Delete,
    Move,
    ModifiedTime,
    Refresh,
    Exchange,
}

/// The outcome of an operation without a value.
pub open spec fn nothing(result: Result<(), Seq<char>>) -> Outcome {
    match result {
        Ok(_) => Ok(OpModel::Nothing),
        Err(message) => Err(message),
    }
}

/// How an operation ends with the reply to its last request.
pub open spec fn concluded(ending: Ending, reply: HttpReplyModel) -> Outcome {
    match ending {
        Ending::ReadText => match media_text(reply) {
            Ok(text) => Ok(OpModel::Text(text)),
            Err(message) => Err(message),
        },
        Ending::ReadBytes => match media_bytes(reply) {
            Ok(bytes) => Ok(OpModel::Bytes(bytes)),
            Err(message) => Err(message),
        },
        Ending::Update => nothing(accepted("GDrive update failed"@, reply)),
        Ending::Create => nothing(accepted("GDrive create failed"@, reply)),
        Ending::Delete => nothing(deleted(reply)),
        Ending::Move => nothing(accepted("GDrive move failed"@, reply)),
        Ending::ModifiedTime => Ok(OpModel::Time(told_time(reply))),
        Ending::Refresh => match refreshed_token(reply) {
            Ok(token) => Ok(OpModel::Token(token)),
            Err(message) => Err(message),
        },
        Ending::Exchange => match exchanged_tokens(reply) {
            Ok(tokens) => Ok(OpModel::Tokens(tokens.0, tokens.1)),
            Err(message) => Err(message),
        },
    }
}

/// How an operation ends with what came of its last request.
pub open spec fn conclusion(ending: Ending, answer: Answer) -> Outcome {
    match answer {
        Ok(reply) => concluded(ending, reply),
        Err(message) => Err(message),
    }
}

/// The last request of an operation, whose reply ends it.
pub open spec fn last_request(
    request: HttpRequestModel,
    ending: Ending,
) -> Plan<Outcome> {
    Plan::Http(request, |answer: Answer| Plan::Return(conclusion(ending, answer)))
}

/// How a listing ends an operation: with all the names, or with those of Markdown
/// files.
pub open spec fn listing_outcome(markdown: bool, listed: Listed) -> Outcome {
    match listed {
        Ok(names) => Ok(
            OpModel::Names(
                if markdown {
                    markdown_names(names)
                } else {
                    names
                },
            ),
        ),
        Err(message) => Err(message),
    }
}

/// The continuation of an operation after a listing.
pub open spec fn listing_rest(markdown: bool) -> spec_fn(Listed) -> Plan<Outcome> {
    |listed: Listed| Plan::Return(listing_outcome(markdown, listed))
}

/// Lists a folder from its first page on, and ends the operation.
pub open spec fn listing_plan(config: ConfigModel, folder: Seq<char>, markdown: bool) -> Plan<
    Outcome,
> {
    Plan::Listing(
        ListingModel { config, folder, names: Seq::empty(), token: None },
        listing_rest(markdown),
    )
}

/// The message for a path that leads to nothing.
pub open spec fn not_found(path: Seq<char>) -> Seq<char> {
    "NotFound: "@ + path
}

/// Goes on after the path of an operation was resolved.
pub open spec fn after_resolve(config: ConfigModel, goal: GoalModel, found: Found) -> Plan<
    Outcome,
> {
    match found {
        Err(message) => Plan::Return(Err(message)),
        Ok(file) => match goal {
            GoalModel::ReadText { path } => match file {
                Some(file) => last_request(media_model(config, file.id), Ending::ReadText),
                None => Plan::Return(Err(not_found(path))),
            },
            GoalModel::ReadBytes { path } => match file {
                Some(file) => last_request(media_model(config, file.id), Ending::ReadBytes),
                None => Plan::Return(Err(not_found(path))),
            },
            GoalModel::Write { path, content, content_type } => match file {
                Some(file) => last_request(
                    update_model(config, file.id, content, content_type),
                    Ending::Update,
                ),
                None => bind(
                    get_or_create_parent_plan(config, path),
                    errand_rest(
                        config,
                        ErrandModel::CreateFile { name: last_name(path), content, content_type },
                    ),
                ),
            },
            GoalModel::Delete => match file {
                Some(file) => last_request(delete_model(config, file.id), Ending::Delete),
                None => Plan::Return(Ok(OpModel::Nothing)),
            },
            GoalModel::Exists => Plan::Return(Ok(OpModel::Exists(file is Some))),
            GoalModel::IsDir => Plan::Return(
                Ok(OpModel::IsDir(file is Some && file->Some_0.is_folder)),
            ),
            GoalModel::List { dir } => match file {
                Some(file) => if file.is_folder {
                    listing_plan(config, file.id, false)
                } else {
                    Plan::Return(Err("Not a directory: "@ + dir))
                },
                None => Plan::Return(Ok(OpModel::Names(Seq::empty()))),
            },
            GoalModel::ListMarkdown { dir } => match file {
                Some(file) => if file.is_folder {
                    listing_plan(config, file.id, true)
                } else {
                    Plan::Return(Err("Not a directory: "@ + dir))
                },
                None => Plan::Return(Ok(OpModel::Names(Seq::empty()))),
            },
            GoalModel::Move { from, to } => match file {
                Some(file) => bind(
                    get_or_create_parent_plan(config, to),
                    errand_rest(
                        config,
                        ErrandModel::MoveFile { id: file.id, name: last_name(to) },
                    ),
                ),
                None => Plan::Return(Err(not_found(from))),
            },
            GoalModel::ModifiedTime => match file {
                Some(file) => last_request(modified_model(config, file.id), Ending::ModifiedTime),
                None => Plan::Return(Ok(OpModel::Time(None))),
            },
        },
    }
}

/// The continuation of an operation after its path was resolved.
pub open spec fn goal_rest(config: ConfigModel, goal: GoalModel) -> spec_fn(Found) -> Plan<
    Outcome,
> {
    |found: Found| after_resolve(config, goal, found)
}

/// Goes on once the folders are there.
pub open spec fn after_folders(config: ConfigModel, errand: ErrandModel, folder: Folder) -> Plan<
    Outcome,
> {
    match folder {
        Err(message) => Plan::Return(Err(message)),
        Ok(parent) => match errand {
            ErrandModel::Nothing => Plan::Return(Ok(OpModel::Nothing)),
            ErrandModel::CreateFile { name, content, content_type } => last_request(
                create_file_model(config, parent, name, content, content_type),
                Ending::Create,
            ),
            ErrandModel::MoveFile { id, name } => Plan::Http(
                parents_model(config, id),
                |answer: Answer| after_parents(config, id, parent, name, answer),
            ),
        },
    }
}

/// The continuation of an operation after its folders are there.
pub open spec fn errand_rest(config: ConfigModel, errand: ErrandModel) -> spec_fn(Folder) -> Plan<
    Outcome,
> {
    |folder: Folder| after_folders(config, errand, folder)
}

/// Goes on with a move once it was asked which folder the file is in.
pub open spec fn after_parents(
    config: ConfigModel,
    id: Seq<char>,
    new_parent: Seq<char>,
    name: Seq<char>,
    answer: Answer,
) -> Plan<Outcome> {
    match answer {
        Err(message) => Plan::Return(Err(message)),
        Ok(reply) => last_request(
            move_model(config, id, new_parent, told_parent(reply), name),
            Ending::Move,
        ),
    }
}

/// An operation on the file that a path leads to. Proofs that look into it reveal
/// it.
#[verifier::opaque]
pub open spec fn path_plan(config: ConfigModel, path: Seq<char>, goal: GoalModel) -> Plan<
    Outcome,
> {
    bind(resolve_path_plan(config, path), goal_rest(config, goal))
}

/// Reads a file's content as text.
pub open spec fn read_file_plan(config: ConfigModel, path: Seq<char>) -> Plan<Outcome> {
    path_plan(config, path, GoalModel::ReadText { path })
}

/// Reads a file's content as bytes.
pub open spec fn read_binary_plan(config: ConfigModel, path: Seq<char>) -> Plan<Outcome> {
    path_plan(config, path, GoalModel::ReadBytes { path })
}

/// Writes a file, created with its folders where it is not there yet.
pub open spec fn write_bytes_plan(
    config: ConfigModel,
    path: Seq<char>,
    content: Seq<u8>,
    content_type: Seq<char>,
) -> Plan<Outcome> {
    path_plan(config, path, GoalModel::Write { path, content, content_type })
}

/// Deletes a file. Nothing is done where there is none.
pub open spec fn delete_file_plan(config: ConfigModel, path: Seq<char>) -> Plan<Outcome> {
    path_plan(config, path, GoalModel::Delete)
}

/// Tells whether a path leads to a file.
pub open spec fn exists_plan(config: ConfigModel, path: Seq<char>) -> Plan<Outcome> {
    path_plan(config, path, GoalModel::Exists)
}

/// Tells whether a path leads to a folder.
pub open spec fn is_dir_plan(config: ConfigModel, path: Seq<char>) -> Plan<Outcome> {
    path_plan(config, path, GoalModel::IsDir)
}

/// Lists the names in a folder.
pub open spec fn list_files_plan(config: ConfigModel, dir: Seq<char>) -> Plan<Outcome> {
    path_plan(config, dir, GoalModel::List { dir })
}

/// Lists the names in a folder that end in `.md`.
pub open spec fn list_md_files_plan(config: ConfigModel, dir: Seq<char>) -> Plan<Outcome> {
    path_plan(config, dir, GoalModel::ListMarkdown { dir })
}

/// Moves a file to another path, its folders created where they are not there.
pub open spec fn move_file_plan(config: ConfigModel, from: Seq<char>, to: Seq<char>) -> Plan<
    Outcome,
> {
    path_plan(config, from, GoalModel::Move { from, to })
}

/// Asks for the modification time of a file.
pub open spec fn modified_time_plan(config: ConfigModel, path: Seq<char>) -> Plan<Outcome> {
    path_plan(config, path, GoalModel::ModifiedTime)
}

/// Finds or creates all the folders of a path.
pub open spec fn create_dir_all_plan(config: ConfigModel, path: Seq<char>) -> Plan<Outcome> {
    bind(
        make_folders(config, config.root_folder_id, path_parts(path)),
        errand_rest(config, ErrandModel::Nothing),
    )
}

/// Asks for a new access token.
pub open spec fn refresh_token_plan(config: ConfigModel) -> Plan<Outcome> {
    last_request(token_model(refresh_form(config)), Ending::Refresh)
}

/// Exchanges an authorization code for tokens.
pub open spec fn exchange_token_plan(
    config: ConfigModel,
    code: Seq<char>,
    redirect_uri: Seq<char>,
) -> Plan<Outcome> {
    last_request(token_model(exchange_form(config, code, redirect_uri)), Ending::Exchange)
}

/// Exchanges an authorization code for tokens, with the code verifier.
pub open spec fn verified_exchange_plan(
    config: ConfigModel,
    code: Seq<char>,
    redirect_uri: Seq<char>,
    code_verifier: Seq<char>,
) -> Plan<Outcome> {
    last_request(
        token_model(verified_exchange_form(config, code, redirect_uri, code_verifier)),
        Ending::Exchange,
    )
}

} // verus!
