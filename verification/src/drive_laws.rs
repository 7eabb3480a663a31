//! What always holds of the storage operations, whatever Google Drive answers.
use crate::always::{always, asks_at_most, law_always_in_sequence, law_always_is_monotone, Question};
use crate::commands::OperationModel;
use crate::config::{bearer_headers, ConfigModel};
use crate::dispatch::operation_plan;
use crate::drive_plans::{
    after_folder, after_folder_search, after_folders, after_parents, after_resolve, after_search,
    conclusion, create_dir_all_plan, delete_file_plan, errand_rest, exists_plan, folder_names,
    folder_rest, get_or_create_folder_plan, get_or_create_parent_plan, goal_rest, is_dir_plan,
    last_request, list_files_plan, list_md_files_plan, listing_outcome, listing_plan, make_folders,
    modified_time_plan, path_plan, resolve_parts, resolve_path_plan, Answer, Ending, ErrandModel,
    Folder, Found, GoalModel, OpModel, Outcome,
};
use crate::drive_replies::{found_file, markdown_names, told_parent};
use crate::drive_requests::{
    create_file_model, create_folder_model, delete_model, file_url, find_file_model,
    find_folder_model, list_model, media_model, modified_model, move_model, parents_model,
    refresh_form, search_url, token_model, update_model, verified_exchange_form, API_BASE,
    TOKEN_URL, UPLOAD_BASE,
};
use crate::encoding::uri_encoded;
use crate::http::{HttpRequestModel, Method};
use crate::path::{last_name, path_parts};
use crate::plan::{
    bind, chained, law_returning_changes_nothing, law_sequence_is_associative, Listed, Plan,
};
use vstd::prelude::*;
use vstd::string::*;
use vstd::utf8::encode_utf8;

verus! {

// ---------------------------------------------------------------------------
// What may be asked, and what comes out
// ---------------------------------------------------------------------------

/// A request to the Drive API that carries the access token.
pub open spec fn is_drive_request(request: HttpRequestModel, config: ConfigModel) -> bool {
    &&& "https://www.googleapis.com/"@.is_prefix_of(request.url)
    &&& request.headers.len() > 0
    &&& request.headers[0] == bearer_headers(config)[0]
}

/// A request to the token endpoint, which carries no access token.
pub open spec fn is_token_request(request: HttpRequestModel) -> bool {
    &&& request.method == Method::Post
    &&& request.url == TOKEN_URL@
    &&& request.headers == seq![("Content-Type"@, "application/x-www-form-urlencoded"@)]
}

/// What an operation on files may ask: requests to the Drive API.
pub open spec fn drive_asks(config: ConfigModel) -> spec_fn(Question) -> bool {
    |question: Question|
        match question {
            Question::Http(request) => is_drive_request(request, config),
            _ => false,
        }
}

/// What an operation that only reads may ask.
pub open spec fn reading_asks(config: ConfigModel) -> spec_fn(Question) -> bool {
    |question: Question|
        match question {
            Question::Http(request) => is_drive_request(request, config) && request.method
                == Method::Get,
            _ => false,
        }
}

/// What an operation on tokens may ask.
pub open spec fn token_asks() -> spec_fn(Question) -> bool {
    |question: Question|
        match question {
            Question::Http(request) => is_token_request(request),
            _ => false,
        }
}

/// Any result at all.
pub open spec fn anything<R>() -> spec_fn(R) -> bool {
    |result: R| true
}

/// The operation asks for a token.
pub open spec fn is_token_operation(operation: OperationModel) -> bool {
    operation is RefreshToken || operation is ExchangeToken
}

/// The operation changes nothing in Google Drive.
pub open spec fn is_reading(operation: OperationModel) -> bool {
    match operation {
        OperationModel::ReadFile { .. } => true,
        OperationModel::ReadBinary { .. } => true,
        OperationModel::Exists { .. } => true,
        OperationModel::IsDir { .. } => true,
        OperationModel::ListFiles { .. } => true,
        OperationModel::ListMdFiles { .. } => true,
        OperationModel::GetModifiedTime { .. } => true,
        _ => false,
    }
}

/// A value of the kind that the operation hands back.
pub open spec fn is_value_of(operation: OperationModel, value: OpModel) -> bool {
    match operation {
        OperationModel::ReadFile { .. } => value is Text,
        OperationModel::ReadBinary { .. } => value is Bytes,
        OperationModel::Exists { .. } => value is Exists,
        OperationModel::IsDir { .. } => value is IsDir,
        OperationModel::ListFiles { .. } => value is Names,
        OperationModel::ListMdFiles { .. } => value is Names,
        OperationModel::GetModifiedTime { .. } => value is Time,
        OperationModel::RefreshToken => value is Token,
        OperationModel::ExchangeToken { .. } => value is Tokens,
        _ => value is Nothing,
    }
}

/// Outcomes of an operation: a message, or a value of the operation's kind.
pub open spec fn fitting(operation: OperationModel) -> spec_fn(Outcome) -> bool {
    |outcome: Outcome|
        match outcome {
            Ok(value) => is_value_of(operation, value),
            Err(_) => true,
        }
}

// ---------------------------------------------------------------------------
// Where requests go
// ---------------------------------------------------------------------------

proof fn lemma_prefix_stays(prefix: Seq<char>, text: Seq<char>, more: Seq<char>)
    requires
        prefix.is_prefix_of(text),
    ensures
        prefix.is_prefix_of(text + more),
{
    assert((text + more).subrange(0, prefix.len() as int) =~= text.subrange(
        0,
        prefix.len() as int,
    ));
}

proof fn lemma_bases()
    ensures
        "https://www.googleapis.com/"@.is_prefix_of(API_BASE@),
        "https://www.googleapis.com/"@.is_prefix_of(UPLOAD_BASE@),
{
    reveal_strlit("https://www.googleapis.com/");
    reveal_strlit("https://www.googleapis.com/drive/v3");
    reveal_strlit("https://www.googleapis.com/upload/drive/v3");
    let site = "https://www.googleapis.com/"@;
    assert(site =~= API_BASE@.subrange(0, site.len() as int));
    assert(site =~= UPLOAD_BASE@.subrange(0, site.len() as int));
}

proof fn lemma_file_url(id: Seq<char>)
    ensures
        "https://www.googleapis.com/"@.is_prefix_of(file_url(id)),
{
    let site = "https://www.googleapis.com/"@;
    lemma_bases();
    lemma_prefix_stays(site, API_BASE@, "/files/"@);
    lemma_prefix_stays(site, API_BASE@ + "/files/"@, id);
}

proof fn lemma_search_url(query: Seq<char>, options: Seq<char>)
    ensures
        "https://www.googleapis.com/"@.is_prefix_of(search_url(query, options)),
{
    let site = "https://www.googleapis.com/"@;
    let encoded = uri_encoded(query);
    lemma_bases();
    lemma_prefix_stays(site, API_BASE@, "/files?q="@);
    lemma_prefix_stays(site, API_BASE@ + "/files?q="@, encoded);
    lemma_prefix_stays(site, API_BASE@ + "/files?q="@ + encoded, options);
}

/// The requests that ask for something go to the Drive API.
proof fn lemma_readings(config: ConfigModel)
    ensures
        forall|parent: Seq<char>, name: Seq<char>|
            reading_asks(config)(
                Question::Http(#[trigger] find_file_model(config, parent, name)),
            ),
        forall|parent: Seq<char>, name: Seq<char>|
            reading_asks(config)(
                Question::Http(#[trigger] find_folder_model(config, parent, name)),
            ),
        forall|parent: Seq<char>, token: Option<Seq<char>>|
            reading_asks(config)(Question::Http(#[trigger] list_model(config, parent, token))),
        forall|id: Seq<char>|
            reading_asks(config)(Question::Http(#[trigger] media_model(config, id))),
        forall|id: Seq<char>|
            reading_asks(config)(Question::Http(#[trigger] parents_model(config, id))),
        forall|id: Seq<char>|
            reading_asks(config)(Question::Http(#[trigger] modified_model(config, id))),
{
    let site = "https://www.googleapis.com/"@;
    assert forall|query: Seq<char>, options: Seq<char>|
        site.is_prefix_of(#[trigger] search_url(query, options)) by {
        lemma_search_url(query, options);
    }
    assert forall|id: Seq<char>, more: Seq<char>|
        site.is_prefix_of(#[trigger] (file_url(id) + more)) by {
        lemma_file_url(id);
        lemma_prefix_stays(site, file_url(id), more);
    }
}

/// The requests that change something go to the Drive API.
proof fn lemma_writings(config: ConfigModel)
    ensures
        forall|id: Seq<char>|
            drive_asks(config)(Question::Http(#[trigger] delete_model(config, id))),
        forall|id: Seq<char>, content: Seq<u8>, content_type: Seq<char>|
            drive_asks(config)(
                Question::Http(#[trigger] update_model(config, id, content, content_type)),
            ),
        forall|parent: Seq<char>, name: Seq<char>, content: Seq<u8>, content_type: Seq<char>|
            drive_asks(config)(
                Question::Http(
                    #[trigger] create_file_model(config, parent, name, content, content_type),
                ),
            ),
        forall|parent: Seq<char>, name: Seq<char>|
            drive_asks(config)(
                Question::Http(#[trigger] create_folder_model(config, parent, name)),
            ),
        forall|id: Seq<char>, into: Seq<char>, from: Seq<char>, name: Seq<char>|
            drive_asks(config)(
                Question::Http(#[trigger] move_model(config, id, into, from, name)),
            ),
{
    let site = "https://www.googleapis.com/"@;
    lemma_bases();
    assert forall|id: Seq<char>| site.is_prefix_of(#[trigger] file_url(id)) by {
        lemma_file_url(id);
    }
    assert forall|more: Seq<char>| site.is_prefix_of(#[trigger] (UPLOAD_BASE@ + more)) by {
        lemma_prefix_stays(site, UPLOAD_BASE@, more);
    }
    assert forall|more: Seq<char>| site.is_prefix_of(#[trigger] (API_BASE@ + more)) by {
        lemma_prefix_stays(site, API_BASE@, more);
    }
    assert forall|id: Seq<char>, content: Seq<u8>, content_type: Seq<char>|
        drive_asks(config)(
            Question::Http(#[trigger] update_model(config, id, content, content_type)),
        ) by {
        let start = UPLOAD_BASE@ + "/files/"@;
        lemma_prefix_stays(site, start, id);
        lemma_prefix_stays(site, start + id, "?uploadType=media"@);
    }
    assert forall|id: Seq<char>, into: Seq<char>, from: Seq<char>, name: Seq<char>|
        drive_asks(config)(
            Question::Http(#[trigger] move_model(config, id, into, from, name)),
        ) by {
        let url = file_url(id);
        lemma_prefix_stays(site, url, "?addParents="@);
        lemma_prefix_stays(site, url + "?addParents="@, into);
        lemma_prefix_stays(site, url + "?addParents="@ + into, "&removeParents="@);
        lemma_prefix_stays(site, url + "?addParents="@ + into + "&removeParents="@, from);
    }
}

// ---------------------------------------------------------------------------
// The parts of the operations
// ---------------------------------------------------------------------------

proof fn lemma_resolve_parts(
    config: ConfigModel,
    parent: Seq<char>,
    parts: Seq<Seq<char>>,
    asks: spec_fn(Question) -> bool,
)
    requires
        forall|parent: Seq<char>, name: Seq<char>|
            asks(Question::Http(#[trigger] find_file_model(config, parent, name))),
    ensures
        always(resolve_parts(config, parent, parts), asks, anything()),
    decreases parts.len(),
{
    let plan = resolve_parts(config, parent, parts);
    if parts.len() > 0 {
        assert forall|answer: Answer|
            always(#[trigger] plan->Http_1(answer), asks, anything::<Found>()) by {
            assert(plan->Http_1(answer) == after_search(config, parts, answer));
            if let Ok(reply) = answer {
                if let Ok(Some(file)) = found_file(reply) {
                    if parts.len() > 1 {
                        lemma_resolve_parts(config, file.id, parts.skip(1), asks);
                    }
                }
            }
        }
    }
}

proof fn lemma_get_or_create_folder(
    config: ConfigModel,
    parent: Seq<char>,
    name: Seq<char>,
    asks: spec_fn(Question) -> bool,
)
    requires
        asks(Question::Http(find_folder_model(config, parent, name))),
        asks(Question::Http(create_folder_model(config, parent, name))),
    ensures
        always(get_or_create_folder_plan(config, parent, name), asks, anything()),
{
    reveal_with_fuel(always, 3);
    let plan = get_or_create_folder_plan(config, parent, name);
    assert forall|answer: Answer|
        always(#[trigger] plan->Http_1(answer), asks, anything::<Folder>()) by {
        assert(plan->Http_1(answer) == after_folder_search(config, parent, name, answer));
    }
}

proof fn lemma_make_folders(
    config: ConfigModel,
    parent: Seq<char>,
    names: Seq<Seq<char>>,
    asks: spec_fn(Question) -> bool,
)
    requires
        forall|parent: Seq<char>, name: Seq<char>|
            asks(Question::Http(#[trigger] find_folder_model(config, parent, name))),
        forall|parent: Seq<char>, name: Seq<char>|
            asks(Question::Http(#[trigger] create_folder_model(config, parent, name))),
    ensures
        always(make_folders(config, parent, names), asks, anything()),
    decreases names.len(),
{
    if names.len() > 0 {
        let first = get_or_create_folder_plan(config, parent, names[0]);
        let rest = folder_rest(config, names);
        assert(asks(Question::Http(find_folder_model(config, parent, names[0]))));
        lemma_get_or_create_folder(config, parent, names[0], asks);
        assert forall|folder: Folder|
            always(#[trigger] rest(folder), asks, anything::<Folder>()) by {
            assert(rest(folder) == after_folder(config, names, folder));
            if let Ok(id) = folder {
                if names.len() > 1 {
                    lemma_make_folders(config, id, names.skip(1), asks);
                }
            }
        }
        law_always_in_sequence(first, rest, asks, anything(), anything());
    }
}

proof fn lemma_last_request(
    request: HttpRequestModel,
    ending: Ending,
    asks: spec_fn(Question) -> bool,
    ends: spec_fn(Outcome) -> bool,
)
    requires
        asks(Question::Http(request)),
        forall|answer: Answer| ends(#[trigger] conclusion(ending, answer)),
    ensures
        always(last_request(request, ending), asks, ends),
{
    let plan = last_request(request, ending);
    assert forall|answer: Answer| always(#[trigger] plan->Http_1(answer), asks, ends) by {
        assert(ends(conclusion(ending, answer)));
    }
}

/// An operation on a path keeps to what is allowed where it does so once the
/// path was resolved.
proof fn lemma_path_plan(
    config: ConfigModel,
    path: Seq<char>,
    goal: GoalModel,
    asks: spec_fn(Question) -> bool,
    ends: spec_fn(Outcome) -> bool,
)
    requires
        forall|parent: Seq<char>, name: Seq<char>|
            asks(Question::Http(#[trigger] find_file_model(config, parent, name))),
        forall|found: Found| always(#[trigger] after_resolve(config, goal, found), asks, ends),
    ensures
        always(path_plan(config, path, goal), asks, ends),
{
    reveal(path_plan);
    let rest = goal_rest(config, goal);
    lemma_resolve_parts(config, config.root_folder_id, path_parts(path), asks);
    assert forall|found: Found| always(#[trigger] rest(found), asks, ends) by {
        assert(rest(found) == after_resolve(config, goal, found));
    }
    law_always_in_sequence(resolve_path_plan(config, path), rest, asks, anything(), ends);
}

proof fn lemma_listing(
    config: ConfigModel,
    folder: Seq<char>,
    markdown: bool,
    asks: spec_fn(Question) -> bool,
    ends: spec_fn(Outcome) -> bool,
)
    requires
        forall|parent: Seq<char>, token: Option<Seq<char>>|
            asks(Question::Http(#[trigger] list_model(config, parent, token))),
        forall|listed: Listed| ends(#[trigger] listing_outcome(markdown, listed)),
    ensures
        always(listing_plan(config, folder, markdown), asks, ends),
{
    let plan = listing_plan(config, folder, markdown);
    assert forall|listed: Listed| always(#[trigger] plan->Listing_1(listed), asks, ends) by {
        assert(ends(listing_outcome(markdown, listed)));
    }
}

/// The goal of an operation that only reads, once its path was resolved.
proof fn lemma_reading_goal(
    config: ConfigModel,
    operation: OperationModel,
    goal: GoalModel,
    found: Found,
)
    requires
        match operation {
            OperationModel::ReadFile { path } => goal == (GoalModel::ReadText { path }),
            OperationModel::ReadBinary { path } => goal == (GoalModel::ReadBytes { path }),
            OperationModel::Exists { .. } => goal == GoalModel::Exists,
            OperationModel::IsDir { .. } => goal == GoalModel::IsDir,
            OperationModel::ListFiles { dir } => goal == (GoalModel::List { dir }),
            OperationModel::ListMdFiles { dir } => goal == (GoalModel::ListMarkdown { dir }),
            OperationModel::GetModifiedTime { .. } => goal == GoalModel::ModifiedTime,
            _ => false,
        },
    ensures
        always(after_resolve(config, goal, found), reading_asks(config), fitting(operation)),
{
    lemma_readings(config);
    if let Ok(Some(file)) = found {
        match goal {
            GoalModel::ReadText { .. } => lemma_last_request(
                media_model(config, file.id),
                Ending::ReadText,
                reading_asks(config),
                fitting(operation),
            ),
            GoalModel::ReadBytes { .. } => lemma_last_request(
                media_model(config, file.id),
                Ending::ReadBytes,
                reading_asks(config),
                fitting(operation),
            ),
            GoalModel::List { .. } => lemma_listing(
                config,
                file.id,
                false,
                reading_asks(config),
                fitting(operation),
            ),
            GoalModel::ListMarkdown { .. } => lemma_listing(
                config,
                file.id,
                true,
                reading_asks(config),
                fitting(operation),
            ),
            GoalModel::ModifiedTime => lemma_last_request(
                modified_model(config, file.id),
                Ending::ModifiedTime,
                reading_asks(config),
                fitting(operation),
            ),
            _ => {},
        }
    }
}

/// An errand keeps to the Drive API and ends without a value.
proof fn lemma_errand(
    config: ConfigModel,
    operation: OperationModel,
    errand: ErrandModel,
    parent: Seq<char>,
    names: Seq<Seq<char>>,
)
    requires
        forall|value: OpModel| #[trigger]
            is_value_of(operation, value) <==> value == OpModel::Nothing,
    ensures
        always(
            bind(make_folders(config, parent, names), errand_rest(config, errand)),
            drive_asks(config),
            fitting(operation),
        ),
{
    let asks = drive_asks(config);
    let ends = fitting(operation);
    let rest = errand_rest(config, errand);
    lemma_readings(config);
    lemma_writings(config);
    assert(is_value_of(operation, OpModel::Nothing));
    assert forall|parent: Seq<char>, name: Seq<char>|
        asks(Question::Http(#[trigger] find_folder_model(config, parent, name))) by {
        assert(reading_asks(config)(Question::Http(find_folder_model(config, parent, name))));
    }
    lemma_make_folders(config, parent, names, asks);
    assert forall|folder: Folder| always(#[trigger] rest(folder), asks, ends) by {
        let plan = after_folders(config, errand, folder);
        assert(rest(folder) == plan);
        if let Ok(into) = folder {
            match errand {
                ErrandModel::Nothing => {},
                ErrandModel::CreateFile { name, content, content_type } => lemma_last_request(
                    create_file_model(config, into, name, content, content_type),
                    Ending::Create,
                    asks,
                    ends,
                ),
                ErrandModel::MoveFile { id, name } => {
                    assert(reading_asks(config)(Question::Http(parents_model(config, id))));
                    assert forall|answer: Answer|
                        always(#[trigger] plan->Http_1(answer), asks, ends) by {
                        assert(plan->Http_1(answer) == after_parents(
                            config,
                            id,
                            into,
                            name,
                            answer,
                        ));
                        if let Ok(reply) = answer {
                            lemma_last_request(
                                move_model(config, id, into, told_parent(reply), name),
                                Ending::Move,
                                asks,
                                ends,
                            );
                        }
                    }
                },
            }
        }
    }
    law_always_in_sequence(make_folders(config, parent, names), rest, asks, anything(), ends);
}

/// The goal of an operation that changes something, once its path was resolved.
proof fn lemma_writing_goal(
    config: ConfigModel,
    operation: OperationModel,
    goal: GoalModel,
    found: Found,
)
    requires
        goal is Write || goal is Delete || goal is Move,
        forall|value: OpModel| #[trigger]
            is_value_of(operation, value) <==> value == OpModel::Nothing,
    ensures
        always(after_resolve(config, goal, found), drive_asks(config), fitting(operation)),
{
    let asks = drive_asks(config);
    let ends = fitting(operation);
    let root = config.root_folder_id;
    lemma_writings(config);
    assert(is_value_of(operation, OpModel::Nothing));
    match goal {
        GoalModel::Write { path, content, content_type } => match found {
            Ok(Some(file)) => lemma_last_request(
                update_model(config, file.id, content, content_type),
                Ending::Update,
                asks,
                ends,
            ),
            Ok(None) => {
                let name = last_name(path);
                let errand = ErrandModel::CreateFile { name, content, content_type };
                lemma_errand(config, operation, errand, root, folder_names(path));
            },
            Err(_) => {},
        },
        GoalModel::Delete => if let Ok(Some(file)) = found {
            lemma_last_request(delete_model(config, file.id), Ending::Delete, asks, ends);
        },
        GoalModel::Move { from, to } => if let Ok(Some(file)) = found {
            let errand = ErrandModel::MoveFile { id: file.id, name: last_name(to) };
            lemma_errand(config, operation, errand, root, folder_names(to));
        },
        _ => {},
    }
}

// ---------------------------------------------------------------------------
// Laws
// ---------------------------------------------------------------------------

/// The goal of an operation on the file that a path leads to, and that path.
spec fn goal_of(operation: OperationModel) -> Option<(Seq<char>, GoalModel)> {
    match operation {
        OperationModel::ReadFile { path } => Some((path, GoalModel::ReadText { path })),
        OperationModel::ReadBinary { path } => Some((path, GoalModel::ReadBytes { path })),
        OperationModel::Exists { path } => Some((path, GoalModel::Exists)),
        OperationModel::IsDir { path } => Some((path, GoalModel::IsDir)),
        OperationModel::ListFiles { dir } => Some((dir, GoalModel::List { dir })),
        OperationModel::ListMdFiles { dir } => Some((dir, GoalModel::ListMarkdown { dir })),
        OperationModel::GetModifiedTime { path } => Some((path, GoalModel::ModifiedTime)),
        OperationModel::WriteFile { path, content } => Some(
            (
                path,
                GoalModel::Write {
                    path,
                    content: encode_utf8(content),
                    content_type: "text/plain; charset=utf-8"@,
                },
            ),
        ),
        OperationModel::WriteBinary { path, data } => Some(
            (
                path,
                GoalModel::Write { path, content: data, content_type: "application/octet-stream"@ },
            ),
        ),
        OperationModel::DeleteFile { path } => Some((path, GoalModel::Delete)),
        OperationModel::MoveFile { from, to } => Some((from, GoalModel::Move { from, to })),
        _ => None,
    }
}

/// An operation that only reads sends nothing but GET requests to the Drive API,
/// each with the access token, and ends with a value of its kind or a message.
pub proof fn law_reading_changes_nothing(config: ConfigModel, operation: OperationModel)
    requires
        is_reading(operation),
    ensures
        always(operation_plan(config, operation), reading_asks(config), fitting(operation)),
{
    let (path, goal) = goal_of(operation)->Some_0;
    lemma_readings(config);
    assert forall|found: Found|
        always(
            #[trigger] after_resolve(config, goal, found),
            reading_asks(config),
            fitting(operation),
        ) by {
        lemma_reading_goal(config, operation, goal, found);
    }
    lemma_path_plan(config, path, goal, reading_asks(config), fitting(operation));
}

/// Every operation on files sends requests to the Drive API only, each with the
/// access token, and ends with a value of its kind or a message.
pub proof fn law_operations_keep_to_drive(config: ConfigModel, operation: OperationModel)
    requires
        !is_token_operation(operation),
    ensures
        always(operation_plan(config, operation), drive_asks(config), fitting(operation)),
{
    let asks = drive_asks(config);
    let ends = fitting(operation);
    if is_reading(operation) {
        law_reading_changes_nothing(config, operation);
        law_always_is_monotone(
            operation_plan(config, operation),
            reading_asks(config),
            ends,
            asks,
            ends,
        );
    } else if let OperationModel::CreateDirAll { path } = operation {
        lemma_errand(
            config,
            operation,
            ErrandModel::Nothing,
            config.root_folder_id,
            path_parts(path),
        );
    } else {
        let (path, goal) = goal_of(operation)->Some_0;
        lemma_readings(config);
        assert forall|parent: Seq<char>, name: Seq<char>|
            asks(Question::Http(#[trigger] find_file_model(config, parent, name))) by {
            assert(reading_asks(config)(Question::Http(find_file_model(config, parent, name))));
        }
        assert forall|found: Found|
            always(#[trigger] after_resolve(config, goal, found), asks, ends) by {
            lemma_writing_goal(config, operation, goal, found);
        }
        lemma_path_plan(config, path, goal, asks, ends);
    }
}

/// An operation on tokens sends requests to the token endpoint only, without an
/// access token, and ends with a value of its kind or a message.
pub proof fn law_token_operations_keep_to_the_token_endpoint(
    config: ConfigModel,
    operation: OperationModel,
)
    requires
        is_token_operation(operation),
    ensures
        always(operation_plan(config, operation), token_asks(), fitting(operation)),
{
    match operation {
        OperationModel::RefreshToken => lemma_last_request(
            token_model(refresh_form(config)),
            Ending::Refresh,
            token_asks(),
            fitting(operation),
        ),
        OperationModel::ExchangeToken { code, redirect_uri, code_verifier } => lemma_last_request(
            token_model(verified_exchange_form(config, code, redirect_uri, code_verifier)),
            Ending::Exchange,
            token_asks(),
            fitting(operation),
        ),
        _ => {},
    }
}

/// What is left of an outcome when only the names of Markdown files are kept.
pub open spec fn only_markdown(outcome: Outcome) -> Outcome {
    match outcome {
        Ok(OpModel::Names(names)) => Ok(OpModel::Names(markdown_names(names))),
        other => other,
    }
}

/// Listing the Markdown files is listing the files and keeping the names that end
/// in `.md`.
pub proof fn law_markdown_listing_is_a_filtered_listing(config: ConfigModel, dir: Seq<char>)
    ensures
        list_md_files_plan(config, dir) == bind(
            list_files_plan(config, dir),
            |outcome: Outcome| Plan::Return(only_markdown(outcome)),
        ),
{
    reveal(path_plan);
    let keep = |outcome: Outcome| Plan::<Outcome>::Return(only_markdown(outcome));
    let all = goal_rest(config, GoalModel::List { dir });
    let some = goal_rest(config, GoalModel::ListMarkdown { dir });
    assert(markdown_names(Seq::empty()) =~= Seq::empty());
    law_sequence_is_associative(resolve_path_plan(config, dir), all, keep);
    assert forall|found: Found| #[trigger] chained(all, keep)(found) == some(found) by {
        let left = chained(all, keep)(found);
        let right = some(found);
        if right is Listing {
            reveal_with_fuel(bind, 2);
            assert forall|listed: Listed| #[trigger]
                left->Listing_1(listed) == right->Listing_1(listed) by {
                assert(left->Listing_1(listed) == keep(listing_outcome(false, listed)));
            }
            assert(left->Listing_1 =~= right->Listing_1);
        }
    }
    assert(chained(all, keep) =~= some);
}

proof fn lemma_lookup_length(config: ConfigModel, parent: Seq<char>, parts: Seq<Seq<char>>)
    ensures
        asks_at_most(resolve_parts(config, parent, parts), parts.len()),
    decreases parts.len(),
{
    let plan = resolve_parts(config, parent, parts);
    if parts.len() > 0 {
        let left = (parts.len() - 1) as nat;
        assert forall|answer: Answer| asks_at_most(#[trigger] plan->Http_1(answer), left) by {
            assert(plan->Http_1(answer) == after_search(config, parts, answer));
            if let Ok(reply) = answer {
                if let Ok(Some(file)) = found_file(reply) {
                    if parts.len() > 1 && file.is_folder {
                        lemma_lookup_length(config, file.id, parts.skip(1));
                    }
                }
            }
        }
    }
}

/// Looking a path up changes nothing: it sends GET requests to the Drive API only,
/// at most one for each component of the path.
pub proof fn law_lookup_only_reads(config: ConfigModel, path: Seq<char>)
    ensures
        always(resolve_path_plan(config, path), reading_asks(config), anything()),
        asks_at_most(resolve_path_plan(config, path), path_parts(path).len()),
{
    lemma_readings(config);
    lemma_resolve_parts(config, config.root_folder_id, path_parts(path), reading_asks(config));
    lemma_lookup_length(config, config.root_folder_id, path_parts(path));
}

/// The continuation that finds or creates one more folder in a folder.
pub open spec fn one_more_folder(config: ConfigModel, name: Seq<char>) -> spec_fn(Folder) -> Plan<
    Folder,
> {
    |folder: Folder|
        match folder {
            Ok(id) => get_or_create_folder_plan(config, id, name),
            Err(message) => Plan::Return(Err(message)),
        }
}

proof fn lemma_folders_from_the_end(
    config: ConfigModel,
    parent: Seq<char>,
    names: Seq<Seq<char>>,
    last: Seq<char>,
)
    ensures
        make_folders(config, parent, names.push(last)) == bind(
            make_folders(config, parent, names),
            one_more_folder(config, last),
        ),
    decreases names.len(),
{
    let all = names.push(last);
    let more = one_more_folder(config, last);
    let rest = folder_rest(config, all);
    let first = get_or_create_folder_plan(config, parent, all[0]);
    if names.len() == 0 {
        assert forall|folder: Folder| #[trigger] rest(folder) == Plan::Return(folder) by {
            assert(rest(folder) == after_folder(config, all, folder));
        }
        law_returning_changes_nothing(first, rest);
        assert(bind(make_folders(config, parent, names), more) == first);
    } else {
        let shorter = folder_rest(config, names);
        assert(all[0] == names[0]);
        assert(all.skip(1) =~= names.skip(1).push(last));
        law_sequence_is_associative(first, shorter, more);
        assert forall|folder: Folder| #[trigger] rest(folder) == chained(shorter, more)(folder) by {
            assert(rest(folder) == after_folder(config, all, folder));
            assert(shorter(folder) == after_folder(config, names, folder));
            if let Ok(id) = folder {
                lemma_folders_from_the_end(config, id, names.skip(1), last);
                if names.len() == 1 {
                    assert(names.skip(1) =~= Seq::empty());
                }
            }
        }
        assert(rest =~= chained(shorter, more));
    }
}

/// Of a path, only the components before the last decide which folders are found
/// or created: the last one is neither looked up nor created. Without such
/// components the folder is the root folder, and nobody is asked; with them, it is
/// the folder of the last of them, found or created in the folder of those before
/// it.
pub proof fn law_leading_components_decide_the_parent(
    config: ConfigModel,
    a: Seq<char>,
    b: Seq<char>,
)
    requires
        folder_names(a) == folder_names(b),
    ensures
        get_or_create_parent_plan(config, a) == get_or_create_parent_plan(config, b),
        path_parts(a).len() <= 1 ==> get_or_create_parent_plan(config, a) == Plan::Return(
            Ok::<Seq<char>, Seq<char>>(config.root_folder_id),
        ),
        path_parts(a).len() > 1 ==> get_or_create_parent_plan(config, a) == bind(
            make_folders(config, config.root_folder_id, folder_names(a).drop_last()),
            one_more_folder(config, path_parts(a)[path_parts(a).len() - 2]),
        ),
{
    let names = folder_names(a);
    if path_parts(a).len() > 1 {
        lemma_folders_from_the_end(
            config,
            config.root_folder_id,
            names.drop_last(),
            names.last(),
        );
        assert(names.drop_last().push(names.last()) =~= names);
    }
}

/// A path without components leads to the root folder: it exists and is a folder,
/// and nobody is asked.
pub proof fn law_root_is_a_folder(config: ConfigModel, path: Seq<char>)
    requires
        path_parts(path).len() == 0,
    ensures
        is_dir_plan(config, path) == Plan::Return(Ok::<OpModel, Seq<char>>(OpModel::IsDir(true))),
        exists_plan(config, path) == Plan::Return(Ok::<OpModel, Seq<char>>(OpModel::Exists(true))),
{
    reveal(path_plan);
}

/// What a path leads to depends on its components alone: slashes around it, or
/// more than one between two components, do not matter.
pub proof fn law_components_decide(config: ConfigModel, a: Seq<char>, b: Seq<char>)
    requires
        path_parts(a) == path_parts(b),
    ensures
        resolve_path_plan(config, a) == resolve_path_plan(config, b),
        get_or_create_parent_plan(config, a) == get_or_create_parent_plan(config, b),
        exists_plan(config, a) == exists_plan(config, b),
        is_dir_plan(config, a) == is_dir_plan(config, b),
        delete_file_plan(config, a) == delete_file_plan(config, b),
        modified_time_plan(config, a) == modified_time_plan(config, b),
        create_dir_all_plan(config, a) == create_dir_all_plan(config, b),
{
    reveal(path_plan);
}

} // verus!
