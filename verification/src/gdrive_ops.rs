//! Google Drive storage operations, one step at a time.
//!
//! An operation starts with one of the functions below and is an [`OpStep`]: it
//! is done, or it waits for the host. The host performs what is asked for and
//! hands the outcome to `resume`, which gives the next step.
use crate::base64_text::base64_length;
use crate::config::GDriveConfig;
use crate::drive_plans::{
    after_folder, after_folder_creation, after_folder_search, after_folders, after_parents,
    after_resolve, after_search, concluded, conclusion, create_dir_all_plan, delete_file_plan,
    errand_rest, exchange_token_plan, exists_plan, folder_names, folder_rest,
    get_or_create_parent_plan, goal_rest, is_dir_plan, last_request, list_files_plan,
    list_md_files_plan, listing_outcome, listing_plan, listing_rest, make_folders,
    modified_time_plan, move_file_plan, nothing, path_plan, read_binary_plan, read_file_plan,
    refresh_token_plan, resolve_parts, verified_exchange_plan, write_bytes_plan, Answer, Ending,
    ErrandModel, GoalModel, OpModel, Outcome,
};
use crate::drive_replies::{
    accept, file_result, keep_markdown, page_result, read_created_folder, read_deleted,
    read_exchanged_tokens, read_found_file, read_found_folder, read_media_bytes, read_media_text,
    read_page, read_parent, read_refreshed_token, read_time, text_result, unit_result, FileRef,
    ListPage,
};
use crate::drive_requests::{
    create_file_request, create_folder_request, delete_request, exchange_request, find_file_request,
    find_folder_request, list_model, list_request, media_request, modified_request, move_request,
    parents_request, refresh_request, update_request, verified_exchange_request,
};
use crate::http::{fits_base64, http_outcome, is_encodable, HttpReply, HttpRequest};
use crate::path::{file_name, path_parts, split_path};
use crate::plan::{after_page, bind, ListingModel, Plan};
use crate::text::texts;
use crate::trail::Trail;
use vstd::prelude::*;
use vstd::string::*;
use vstd::utf8::encode_utf8;

verus! {

// ---------------------------------------------------------------------------
// Steps
// ---------------------------------------------------------------------------

/// What an operation hands back.
#[derive(Debug, PartialEq, Eq)]
pub enum OpValue {
    Nothing,
    Text(String),
    Bytes(Vec<u8>),
    Exists(bool),
    IsDir(bool),
    Names(Vec<String>),
    Time(Option<i64>),
    Token(String),
    Tokens(String, String),
}

impl View for OpValue {
    type V = OpModel;

    open spec fn view(&self) -> OpModel {
        match self {
            OpValue::Nothing => OpModel::Nothing,
            OpValue::Text(text) => OpModel::Text(text@),
            OpValue::Bytes(bytes) => OpModel::Bytes(bytes@),
            OpValue::Exists(found) => OpModel::Exists(*found),
            OpValue::IsDir(folder) => OpModel::IsDir(*folder),
            OpValue::Names(names) => OpModel::Names(texts(names@)),
            OpValue::Time(time) => OpModel::Time(*time),
            OpValue::Token(token) => OpModel::Token(token@),
            OpValue::Tokens(access, refresh) => OpModel::Tokens(access@, refresh@),
        }
    }
}

/// How an operation ended.
pub open spec fn outcome_model(outcome: Result<OpValue, String>) -> Outcome {
    match outcome {
        Ok(value) => Ok(value@),
        Err(message) => Err(message@),
    }
}

/// What is wanted of the file that a path leads to.
pub enum Goal {
    ReadText { path: String },
    ReadBytes { path: String },
    Write { path: String, content: Vec<u8>, content_type: String },
    Delete,
    Exists,
    IsDir,
    List { dir: String },
    ListMarkdown { dir: String },
    Move { from: String, to: String },
    ModifiedTime,
}

impl View for Goal {
    type V = GoalModel;

    open spec fn view(&self) -> GoalModel {
        match self {
            Goal::ReadText { path } => GoalModel::ReadText { path: path@ },
            Goal::ReadBytes { path } => GoalModel::ReadBytes { path: path@ },
            Goal::Write { path, content, content_type } => GoalModel::Write {
                path: path@,
                content: content@,
                content_type: content_type@,
            },
            Goal::Delete => GoalModel::Delete,
            Goal::Exists => GoalModel::Exists,
            Goal::IsDir => GoalModel::IsDir,
            Goal::List { dir } => GoalModel::List { dir: dir@ },
            Goal::ListMarkdown { dir } => GoalModel::ListMarkdown { dir: dir@ },
            Goal::Move { from, to } => GoalModel::Move { from: from@, to: to@ },
            Goal::ModifiedTime => GoalModel::ModifiedTime,
        }
    }
}

/// What the folders are wanted for.
pub enum Errand {
    Nothing,
    CreateFile { name: String, content: Vec<u8>, content_type: String },
    MoveFile { id: String, name: String },
}

impl View for Errand {
    type V = ErrandModel;

    open spec fn view(&self) -> ErrandModel {
        match self {
            Errand::Nothing => ErrandModel::Nothing,
            Errand::CreateFile { name, content, content_type } => ErrandModel::CreateFile {
                name: name@,
                content: content@,
                content_type: content_type@,
            },
            Errand::MoveFile { id, name } => ErrandModel::MoveFile { id: id@, name: name@ },
        }
    }
}

/// An operation that waits for the reply to an HTTP request.
pub enum HttpTask {
    /// The next component of a path is searched for.
    FindFile { config: GDriveConfig, goal: Goal, trail: Trail },
    /// The next folder is searched for.
    FindFolder { config: GDriveConfig, errand: Errand, trail: Trail, parent: String },
    /// The next folder is created.
    CreateFolder { config: GDriveConfig, errand: Errand, trail: Trail },
    /// The folder of a file that is moved is asked for.
    FindParent { config: GDriveConfig, id: String, new_parent: String, name: String },
    /// A page of a listing is asked for. The names are those of the pages before it.
    ListPage { config: GDriveConfig, folder: String, names: Vec<String>, markdown: bool },
    /// The reply ends the operation.
    End(Ending),
}

impl HttpTask {
    /// What is left to do, given what came of the request.
    pub open spec fn after(self, answer: Answer) -> Plan<Outcome> {
        match self {
            HttpTask::FindFile { config, goal, trail } => bind(
                after_search(config@, trail@, answer),
                goal_rest(config@, goal@),
            ),
            HttpTask::FindFolder { config, errand, trail, parent } => bind(
                bind(
                    after_folder_search(config@, parent@, trail@[0], answer),
                    folder_rest(config@, trail@),
                ),
                errand_rest(config@, errand@),
            ),
            HttpTask::CreateFolder { config, errand, trail } => bind(
                after_folder(config@, trail@, after_folder_creation(answer)),
                errand_rest(config@, errand@),
            ),
            HttpTask::FindParent { config, id, new_parent, name } => after_parents(
                config@,
                id@,
                new_parent@,
                name@,
                answer,
            ),
            HttpTask::ListPage { config, folder, names, markdown } => after_page(
                ListingModel {
                    config: config@,
                    folder: folder@,
                    names: texts(names@),
                    token: None,
                },
                listing_rest(markdown),
                answer,
            ),
            HttpTask::End(ending) => Plan::Return(conclusion(ending, answer)),
        }
    }
}

impl HttpTask {
    /// Bytes that the answer ends the operation with can be written in base64.
    pub open spec fn accepts(self, answer: Answer) -> bool {
        match (self, answer) {
            (HttpTask::End(ending), Ok(reply)) => ending == Ending::ReadBytes && reply.status == 200
                ==> is_encodable(reply),
            _ => true,
        }
    }

    /// Tells whether bytes that the answer ends the operation with can be written
    /// in base64.
    pub fn can_take(&self, answer: &Result<HttpReply, String>) -> (b: bool)
        ensures
            b == self.accepts(http_outcome(*answer)),
    {
        match (self, answer) {
            (HttpTask::End(Ending::ReadBytes), Ok(reply)) => reply.status != 200 || fits_base64(
                reply,
            ),
            _ => true,
        }
    }
}

/// A step of an operation.
pub enum OpStep {
    /// An HTTP request is to be performed, and its outcome handed to the task.
    Http(HttpRequest, HttpTask),
    /// The operation has ended.
    Done(Result<OpValue, String>),
}

impl OpStep {
    /// The step does what the plan says: it asks the same of the host, goes on
    /// for every answer as the plan does, and ends with the same result.
    pub open spec fn follows(self, plan: Plan<Outcome>) -> bool {
        match (self, plan) {
            (OpStep::Http(request, task), Plan::Http(asked, next)) => {
                &&& request@ == asked
                &&& forall|answer: Answer| #[trigger] task.after(answer) == next(answer)
            },
            (OpStep::Http(request, task), Plan::Listing(listing, next)) => {
                &&& request@ == list_model(listing.config, listing.folder, listing.token)
                &&& forall|answer: Answer| #[trigger]
                    task.after(answer) == after_page(listing, next, answer)
            },
            (OpStep::Done(outcome), Plan::Return(result)) => outcome_model(outcome) == result,
            _ => false,
        }
    }

    /// Bytes that the operation ended with can be written in base64.
    pub open spec fn is_encodable(self) -> bool {
        match self {
            OpStep::Done(Ok(OpValue::Bytes(bytes))) => base64_length(bytes@.len()) <= isize::MAX,
            _ => true,
        }
    }
}

// ---------------------------------------------------------------------------
// The pieces of an operation
// ---------------------------------------------------------------------------

/// The last request of an operation.
fn send_last(request: HttpRequest, ending: Ending) -> (step: OpStep)
    ensures
        step.is_encodable(),
        step.follows(last_request(request@, ending)),
{
    OpStep::Http(request, HttpTask::End(ending))
}

fn nothing_of(result: Result<(), String>) -> (outcome: Result<OpValue, String>)
    ensures
        outcome_model(outcome) == nothing(
            unit_result(result),
        ),
{
    match result {
        Ok(_) => Ok(OpValue::Nothing),
        Err(message) => Err(message),
    }
}

/// Ends an operation with the reply to its last request.
fn conclude(ending: Ending, reply: &HttpReply) -> (outcome: Result<OpValue, String>)
    ensures
        outcome_model(outcome) == concluded(ending, reply@),
        outcome matches Ok(OpValue::Bytes(bytes)) ==> ending == Ending::ReadBytes && reply.status
            == 200,
        outcome matches Ok(OpValue::Bytes(bytes)) ==> is_encodable(reply@) ==> base64_length(
            bytes@.len(),
        ) <= isize::MAX,
{
    match ending {
        Ending::ReadText => match read_media_text(reply) {
            Ok(text) => Ok(OpValue::Text(text)),
            Err(message) => Err(message),
        },
        Ending::ReadBytes => match read_media_bytes(reply) {
            Ok(bytes) => Ok(OpValue::Bytes(bytes)),
            Err(message) => Err(message),
        },
        Ending::Update => nothing_of(accept("GDrive update failed", reply)),
        Ending::Create => nothing_of(accept("GDrive create failed", reply)),
        Ending::Delete => nothing_of(read_deleted(reply)),
        Ending::Move => nothing_of(accept("GDrive move failed", reply)),
        Ending::ModifiedTime => Ok(OpValue::Time(read_time(reply))),
        Ending::Refresh => match read_refreshed_token(reply) {
            Ok(token) => Ok(OpValue::Token(token)),
            Err(message) => Err(message),
        },
        Ending::Exchange => match read_exchanged_tokens(reply) {
            Ok(tokens) => Ok(OpValue::Tokens(tokens.0, tokens.1)),
            Err(message) => Err(message),
        },
    }
}

/// Searches for the next component of a path within a folder.
fn search(config: GDriveConfig, goal: Goal, parent: &str, trail: Trail) -> (step: OpStep)
    requires
        trail@.len() > 0,
    ensures
        step.is_encodable(),
        step.follows(bind(
            resolve_parts(config@, parent@, trail@),
            goal_rest(config@, goal@),
        )),
{
    let request = find_file_request(&config, parent, trail.first());
    OpStep::Http(request, HttpTask::FindFile { config, goal, trail })
}

/// Resolves a path and then goes for the goal.
fn resolve_path(config: &GDriveConfig, goal: Goal, path: &str) -> (step: OpStep)
    ensures
        step.follows(path_plan(config@, path@, goal@)),
{
    reveal(path_plan);
    let config = config.clone();
    match Trail::start(split_path(path)) {
        Some(trail) => {
            let root = config.root_folder_id.clone();
            search(config, goal, root.as_str(), trail)
        },
        None => {
            assert(path_parts(path@).len() == 0);
            let root = FileRef { id: config.root_folder_id.clone(), is_folder: true };
            reach(config, goal, Ok(Some(root)))
        },
    }
}

/// Finds or creates folders, one in the other from the root folder on, and then
/// does the errand.
fn settle(config: GDriveConfig, errand: Errand, names: Vec<String>) -> (step: OpStep)
    ensures
        step.is_encodable(),
        step.follows(bind(
            make_folders(config@, config@.root_folder_id, texts(names@)),
            errand_rest(config@, errand@),
        )),
{
    let root = config.root_folder_id.clone();
    match Trail::start(names) {
        Some(trail) => get_or_create_folder(config, errand, root, trail),
        None => {
            assert(texts(names@).len() == 0);
            arrive(config, errand, Ok(root))
        },
    }
}

/// Finds the next folder within a folder, or creates it, and so on down the
/// trail.
fn get_or_create_folder(
    config: GDriveConfig,
    errand: Errand,
    parent: String,
    trail: Trail,
) -> (step: OpStep)
    requires
        trail@.len() > 0,
    ensures
        step.is_encodable(),
        step.follows(bind(
            make_folders(config@, parent@, trail@),
            errand_rest(config@, errand@),
        )),
{
    let request = find_folder_request(&config, parent.as_str(), trail.first());
    let step = OpStep::Http(request, HttpTask::FindFolder { config, errand, trail, parent });
    proof {
        reveal_with_fuel(bind, 3);
    }
    step
}

/// Goes on once the folders are there.
fn arrive(config: GDriveConfig, errand: Errand, folder: Result<String, String>) -> (step: OpStep)
    ensures
        step.is_encodable(),
        step.follows(after_folders(config@, errand@, text_result(folder))),
{
    let parent = match folder {
        Ok(parent) => parent,
        Err(message) => return OpStep::Done(Err(message)),
    };
    match errand {
        Errand::Nothing => OpStep::Done(Ok(OpValue::Nothing)),
        Errand::CreateFile { name, content, content_type } => send_last(
            create_file_request(
                &config,
                parent.as_str(),
                name.as_str(),
                &content,
                content_type.as_str(),
            ),
            Ending::Create,
        ),
        Errand::MoveFile { id, name } => {
            let request = parents_request(&config, id.as_str());
            OpStep::Http(
                request,
                HttpTask::FindParent { config, id, new_parent: parent, name },
            )
        },
    }
}

/// The components of a path but for the last.
fn leading_names(path: &str) -> (names: Vec<String>)
    ensures
        texts(names@) == folder_names(path@),
{
    let mut names = split_path(path);
    let ghost all = names@;
    if names.len() > 0 {
        names.truncate(names.len() - 1);
    }
    assert(texts(names@) =~= folder_names(path@)) by {
        if all.len() > 0 {
            assert(texts(names@) =~= texts(all).drop_last());
        }
    }
    names
}

/// Finds or creates the folders that lead to the last component of a path, and
/// then does the errand.
fn get_or_create_parent(config: GDriveConfig, errand: Errand, path: &str) -> (step: OpStep)
    ensures
        step.is_encodable(),
        step.follows(
            bind(get_or_create_parent_plan(config@, path@), errand_rest(config@, errand@)),
        ),
{
    settle(config, errand, leading_names(path))
}

/// Lists a folder, from its first page on.
fn list_folder(config: GDriveConfig, folder: String, markdown: bool) -> (step: OpStep)
    ensures
        step.is_encodable(),
        step.follows(listing_plan(config@, folder@, markdown)),
{
    let request = list_request(&config, folder.as_str(), &None);
    let names: Vec<String> = Vec::new();
    assert(texts(names@) =~= Seq::empty());
    OpStep::Http(request, HttpTask::ListPage { config, folder, names, markdown })
}

/// Ends an operation with the names of a complete listing.
fn end_listing(names: Vec<String>, markdown: bool) -> (step: OpStep)
    ensures
        step.is_encodable(),
        step.follows(
            Plan::Return(
                listing_outcome(markdown, Ok::<Seq<Seq<char>>, Seq<char>>(texts(names@))),
            ),
        ),
{
    if markdown {
        OpStep::Done(Ok(OpValue::Names(keep_markdown(names))))
    } else {
        OpStep::Done(Ok(OpValue::Names(names)))
    }
}

/// Goes on with a page of a listing: with the next page, or to the end.
fn turn_page(
    config: GDriveConfig,
    folder: String,
    names: Vec<String>,
    markdown: bool,
    page: Result<ListPage, String>,
) -> (step: OpStep)
    ensures
        step.is_encodable(),
        match page_result(page) {
            Ok(told) => match told.token {
                Some(token) => step.follows(
                    Plan::Listing(
                        ListingModel {
                            config: config@,
                            folder: folder@,
                            names: texts(names@) + told.names,
                            token: Some(token),
                        },
                        listing_rest(markdown),
                    ),
                ),
                None => step.follows(
                    Plan::Return(
                        listing_outcome(
                            markdown,
                            Ok::<Seq<Seq<char>>, Seq<char>>(texts(names@) + told.names),
                        ),
                    ),
                ),
            },
            Err(message) => step.follows(Plan::Return(Err(message))),
        },
{
    let page = match page {
        Ok(page) => page,
        Err(message) => return OpStep::Done(Err(message)),
    };
    let mut names = names;
    let mut more = page.names;
    let ghost before = names@;
    let ghost told = more@;
    names.append(&mut more);
    assert(texts(names@) =~= texts(before) + texts(told));
    match page.token {
        Some(token) => {
            let token = Some(token);
            let request = list_request(&config, folder.as_str(), &token);
            OpStep::Http(request, HttpTask::ListPage { config, folder, names, markdown })
        },
        None => end_listing(names, markdown),
    }
}

/// Goes for the goal once the path was resolved.
fn reach(config: GDriveConfig, goal: Goal, found: Result<Option<FileRef>, String>) -> (step: OpStep)
    ensures
        step.is_encodable(),
        step.follows(after_resolve(config@, goal@, file_result(found))),
{
    let file = match found {
        Ok(file) => file,
        Err(message) => return OpStep::Done(Err(message)),
    };
    match goal {
        Goal::ReadText { path } => match file {
            Some(file) => send_last(media_request(&config, file.id.as_str()), Ending::ReadText),
            None => OpStep::Done(Err("NotFound: ".to_string().concat(path.as_str()))),
        },
        Goal::ReadBytes { path } => match file {
            Some(file) => send_last(media_request(&config, file.id.as_str()), Ending::ReadBytes),
            None => OpStep::Done(Err("NotFound: ".to_string().concat(path.as_str()))),
        },
        Goal::Write { path, content, content_type } => match file {
            Some(file) => send_last(
                update_request(&config, file.id.as_str(), content, content_type.as_str()),
                Ending::Update,
            ),
            None => get_or_create_parent(
                config,
                Errand::CreateFile { name: file_name(path.as_str()), content, content_type },
                path.as_str(),
            ),
        },
        Goal::Delete => match file {
            Some(file) => send_last(delete_request(&config, file.id.as_str()), Ending::Delete),
            None => OpStep::Done(Ok(OpValue::Nothing)),
        },
        Goal::Exists => OpStep::Done(Ok(OpValue::Exists(file.is_some()))),
        Goal::IsDir => OpStep::Done(
            Ok(
                OpValue::IsDir(
                    match file {
                        Some(file) => file.is_folder,
                        None => false,
                    },
                ),
            ),
        ),
        Goal::List { dir } => match file {
            Some(file) => if file.is_folder {
                list_folder(config, file.id, false)
            } else {
                OpStep::Done(Err("Not a directory: ".to_string().concat(dir.as_str())))
            },
            None => {
                let names: Vec<String> = Vec::new();
                assert(texts(names@) =~= Seq::empty());
                OpStep::Done(Ok(OpValue::Names(names)))
            },
        },
        Goal::ListMarkdown { dir } => match file {
            Some(file) => if file.is_folder {
                list_folder(config, file.id, true)
            } else {
                OpStep::Done(Err("Not a directory: ".to_string().concat(dir.as_str())))
            },
            None => {
                let names: Vec<String> = Vec::new();
                assert(texts(names@) =~= Seq::empty());
                OpStep::Done(Ok(OpValue::Names(names)))
            },
        },
        Goal::Move { from, to } => match file {
            Some(file) => get_or_create_parent(
                config,
                Errand::MoveFile { id: file.id, name: file_name(to.as_str()) },
                to.as_str(),
            ),
            None => OpStep::Done(Err("NotFound: ".to_string().concat(from.as_str()))),
        },
        Goal::ModifiedTime => match file {
            Some(file) => send_last(
                modified_request(&config, file.id.as_str()),
                Ending::ModifiedTime,
            ),
            None => OpStep::Done(Ok(OpValue::Time(None))),
        },
    }
}

impl HttpTask {
    /// Goes on with what came of the HTTP request.
    pub fn resume(self, answer: Result<HttpReply, String>) -> (step: OpStep)
        ensures
            step.follows(self.after(http_outcome(answer))),
            self.accepts(http_outcome(answer)) ==> step.is_encodable(),
    {
        match self {
            HttpTask::FindFile { config, goal, trail } => {
                let found = match answer {
                    Ok(reply) => read_found_file(&reply),
                    Err(message) => Err(message),
                };
                match found {
                    Ok(Some(file)) => {
                        let name = trail.first().to_owned();
                        match trail.advance() {
                            None => reach(config, goal, Ok(Some(file))),
                            Some(rest) => if file.is_folder {
                                search(config, goal, file.id.as_str(), rest)
                            } else {
                                OpStep::Done(
                                    Err(
                                        "Path component '".to_string().concat(
                                            name.as_str(),
                                        ).concat("' is not a folder"),
                                    ),
                                )
                            },
                        }
                    },
                    other => reach(config, goal, other),
                }
            },
            HttpTask::FindFolder { config, errand, trail, parent } => {
                proof {
                    reveal_with_fuel(bind, 3);
                }
                let found = match answer {
                    Ok(reply) => read_found_folder(&reply),
                    Err(message) => Err(message),
                };
                match found {
                    Ok(Some(id)) => proceed(config, errand, trail, Ok(id)),
                    Ok(None) => {
                        let request = create_folder_request(
                            &config,
                            parent.as_str(),
                            trail.first(),
                        );
                        OpStep::Http(
                            request,
                            HttpTask::CreateFolder { config, errand, trail },
                        )
                    },
                    Err(message) => proceed(config, errand, trail, Err(message)),
                }
            },
            HttpTask::CreateFolder { config, errand, trail } => {
                let folder = match answer {
                    Ok(reply) => read_created_folder(&reply),
                    Err(message) => Err(message),
                };
                proceed(config, errand, trail, folder)
            },
            HttpTask::FindParent { config, id, new_parent, name } => match answer {
                Ok(reply) => {
                    let old_parent = read_parent(&reply);
                    send_last(
                        move_request(
                            &config,
                            id.as_str(),
                            new_parent.as_str(),
                            old_parent.as_str(),
                            name.as_str(),
                        ),
                        Ending::Move,
                    )
                },
                Err(message) => OpStep::Done(Err(message)),
            },
            HttpTask::ListPage { config, folder, names, markdown } => {
                let page = match answer {
                    Ok(reply) => read_page(&reply),
                    Err(message) => Err(message),
                };
                turn_page(config, folder, names, markdown, page)
            },
            HttpTask::End(ending) => match answer {
                Ok(reply) => OpStep::Done(conclude(ending, &reply)),
                Err(message) => OpStep::Done(Err(message)),
            },
        }
    }
}

/// Goes on once the next folder is there.
fn proceed(
    config: GDriveConfig,
    errand: Errand,
    trail: Trail,
    folder: Result<String, String>,
) -> (step: OpStep)
    ensures
        step.follows(bind(
            after_folder(config@, trail@, text_result(folder)),
            errand_rest(config@, errand@),
        )),
        step.is_encodable(),
{
    match folder {
        Ok(id) => match trail.advance() {
            Some(rest) => get_or_create_folder(config, errand, id, rest),
            None => arrive(config, errand, Ok(id)),
        },
        Err(message) => arrive(config, errand, Err(message)),
    }
}

// ---------------------------------------------------------------------------
// Operations
// ---------------------------------------------------------------------------

/// Refresh the OAuth access token. Ends with the new access token.
pub fn refresh_token(config: &GDriveConfig) -> (step: OpStep)
    ensures
        step.follows(refresh_token_plan(config@)),
{
    send_last(refresh_request(config), Ending::Refresh)
}

/// Exchange an authorization code for access and refresh tokens.
/// Ends with both.
pub fn exchange_token(config: &GDriveConfig, code: &str, redirect_uri: &str) -> (step: OpStep)
    ensures
        step.follows(exchange_token_plan(config@, code@, redirect_uri@)),
{
    send_last(exchange_request(config, code, redirect_uri), Ending::Exchange)
}

/// Exchange an authorization code that was granted for a code challenge.
/// Ends with the access and the refresh token.
pub fn exchange_token_with_verifier(
    config: &GDriveConfig,
    code: &str,
    redirect_uri: &str,
    code_verifier: &str,
) -> (step: OpStep)
    ensures
        step.follows(verified_exchange_plan(config@, code@, redirect_uri@, code_verifier@)),
{
    send_last(
        verified_exchange_request(config, code, redirect_uri, code_verifier),
        Ending::Exchange,
    )
}

/// Read a file's content as string.
pub fn read_file(config: &GDriveConfig, path: &str) -> (step: OpStep)
    ensures
        step.follows(read_file_plan(config@, path@)),
{
    resolve_path(config, Goal::ReadText { path: path.to_owned() }, path)
}

/// Read a file's content as binary.
pub fn read_binary(config: &GDriveConfig, path: &str) -> (step: OpStep)
    ensures
        step.follows(read_binary_plan(config@, path@)),
{
    resolve_path(config, Goal::ReadBytes { path: path.to_owned() }, path)
}

/// Write a file (create or update).
pub fn write_file(config: &GDriveConfig, path: &str, content: &str) -> (step: OpStep)
    ensures
        step.follows(write_bytes_plan(
            config@,
            path@,
            encode_utf8(content@),
            "text/plain; charset=utf-8"@,
        )),
{
    write_bytes(config, path, content.as_bytes_vec(), "text/plain; charset=utf-8")
}

/// Write binary content (create or update).
pub fn write_binary(config: &GDriveConfig, path: &str, content: Vec<u8>) -> (step: OpStep)
    ensures
        step.follows(write_bytes_plan(config@, path@, content@, "application/octet-stream"@)),
{
    write_bytes(config, path, content, "application/octet-stream")
}

fn write_bytes(config: &GDriveConfig, path: &str, content: Vec<u8>, content_type: &str) -> (step:
    OpStep)
    ensures
        step.follows(write_bytes_plan(config@, path@, content@, content_type@)),
{
    resolve_path(
        config,
        Goal::Write { path: path.to_owned(), content, content_type: content_type.to_owned() },
        path,
    )
}

/// Delete a file.
pub fn delete_file(config: &GDriveConfig, path: &str) -> (step: OpStep)
    ensures
        step.follows(delete_file_plan(config@, path@)),
{
    resolve_path(config, Goal::Delete, path)
}

/// Check if a file exists.
pub fn file_exists(config: &GDriveConfig, path: &str) -> (step: OpStep)
    ensures
        step.follows(exists_plan(config@, path@)),
{
    resolve_path(config, Goal::Exists, path)
}

/// Check if a path is a directory (folder).
pub fn is_dir(config: &GDriveConfig, path: &str) -> (step: OpStep)
    ensures
        step.follows(is_dir_plan(config@, path@)),
{
    resolve_path(config, Goal::IsDir, path)
}

/// List files in a directory.
pub fn list_files(config: &GDriveConfig, dir: &str) -> (step: OpStep)
    ensures
        step.follows(list_files_plan(config@, dir@)),
{
    resolve_path(config, Goal::List { dir: dir.to_owned() }, dir)
}

/// List .md files in a directory.
pub fn list_md_files(config: &GDriveConfig, dir: &str) -> (step: OpStep)
    ensures
        step.follows(list_md_files_plan(config@, dir@)),
{
    resolve_path(config, Goal::ListMarkdown { dir: dir.to_owned() }, dir)
}

/// Create directory hierarchy (all intermediate folders).
pub fn create_dir_all(config: &GDriveConfig, path: &str) -> (step: OpStep)
    ensures
        step.follows(create_dir_all_plan(config@, path@)),
{
    settle(config.clone(), Errand::Nothing, split_path(path))
}

/// Move a file from one path to another.
pub fn move_file(config: &GDriveConfig, from: &str, to: &str) -> (step: OpStep)
    ensures
        step.follows(move_file_plan(config@, from@, to@)),
{
    resolve_path(config, Goal::Move { from: from.to_owned(), to: to.to_owned() }, from)
}

/// Get modified time for a file (ms since epoch).
pub fn get_modified_time(config: &GDriveConfig, path: &str) -> (step: OpStep)
    ensures
        step.follows(modified_time_plan(config@, path@)),
{
    resolve_path(config, Goal::ModifiedTime, path)
}

} // verus!
