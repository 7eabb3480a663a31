//! What the operations make of faults and of refusals.
use crate::commands::OperationModel;
use crate::config::ConfigModel;
use crate::dispatch::operation_plan;
use crate::drive_plans::{
    after_folder, after_folder_creation, after_folder_search, after_folders, after_parents,
    after_resolve, after_search, conclusion, create_dir_all_plan, delete_file_plan, errand_rest,
    exchange_token_plan, exists_plan, folder_names, folder_rest, get_or_create_folder_plan,
    get_or_create_parent_plan, goal_rest, is_dir_plan, last_request, list_files_plan,
    list_md_files_plan, listing_outcome, listing_rest, make_folders, modified_time_plan,
    move_file_plan, path_plan, read_binary_plan, read_file_plan, refresh_token_plan, resolve_parts,
    resolve_path_plan, verified_exchange_plan, write_bytes_plan, Answer, Ending, ErrandModel,
    Folder, Found, GoalModel, OpModel, Outcome,
};
use crate::drive_replies::{
    created_folder, exchanged_tokens, found_file, found_folder, listed_page, media_bytes,
    refreshed_token, told_parent, told_time, FileRefModel,
};
use crate::drive_requests::{
    create_file_model, create_folder_model, delete_model, exchange_form, find_file_model,
    find_folder_model, media_model, modified_model, move_model, parents_model, refresh_form,
    update_model, verified_exchange_form,
};
use crate::http::{BodyModel, HttpReplyModel, HttpRequestModel, Method};
use crate::path::{last_name, law_last_name_is_last_part, path_parts};
use crate::persistence::{
    after_access_secret, after_access_token, after_loading, after_refresh_secret,
    after_refresh_token, load_plan, migration_rest, persist_plan, with_secrets, Loaded, Secret,
    Written,
};
use crate::plan::{after_page, bind, Listed, ListingModel, Plan};
use crate::reply_laws::{law_granted_requests_succeed, law_refusals_are_told, tells_refusal};
use crate::request_laws::{
    form_fields, law_exchanges_tell_the_code_and_the_verifier, law_forms_go_to_the_token_endpoint,
    law_refreshing_tells_the_client_and_the_token,
};
use vstd::prelude::*;
use vstd::string::*;
use vstd::utf8::encode_utf8;

verus! {

// ---------------------------------------------------------------------------
// Faults of the host
// ---------------------------------------------------------------------------

/// Whatever the plan asks of the host, and whenever: if the host answers with a
/// fault, the plan ends with the message of that fault.
pub open spec fn reports_faults<T>(plan: Plan<Result<T, Seq<char>>>) -> bool
    decreases plan,
{
    match plan {
        Plan::Return(_) => true,
        Plan::Http(_, next) => {
            &&& forall|fault: Seq<char>| #[trigger] next(Err(fault)) == Plan::Return(
                Err::<T, Seq<char>>(fault),
            )
            &&& forall|answer: Result<HttpReplyModel, Seq<char>>|
                reports_faults(#[trigger] next(answer))
        },
        Plan::Listing(_, next) => {
            &&& forall|fault: Seq<char>| #[trigger] next(Err(fault)) == Plan::Return(
                Err::<T, Seq<char>>(fault),
            )
            &&& forall|listed: Listed| reports_faults(#[trigger] next(listed))
        },
        Plan::ReadSecret(_, next) => {
            &&& forall|fault: Seq<char>| #[trigger] next(Err(fault)) == Plan::Return(
                Err::<T, Seq<char>>(fault),
            )
            &&& forall|answer: Result<Option<Seq<char>>, Seq<char>>|
                reports_faults(#[trigger] next(answer))
        },
        Plan::WriteSecret(_, _, next) => {
            &&& forall|fault: Seq<char>| #[trigger] next(Err(fault)) == Plan::Return(
                Err::<T, Seq<char>>(fault),
            )
            &&& forall|answer: Result<(), Seq<char>>| reports_faults(#[trigger] next(answer))
        },
        Plan::LoadConfig(_, next) => {
            &&& forall|fault: Seq<char>| #[trigger] next(Err(fault)) == Plan::Return(
                Err::<T, Seq<char>>(fault),
            )
            &&& forall|answer: Result<Option<ConfigModel>, Seq<char>>|
                reports_faults(#[trigger] next(answer))
        },
        Plan::SaveConfig(_, _, next) => {
            &&& forall|fault: Seq<char>| #[trigger] next(Err(fault)) == Plan::Return(
                Err::<T, Seq<char>>(fault),
            )
            &&& forall|answer: Result<(), Seq<char>>| reports_faults(#[trigger] next(answer))
        },
        Plan::DecodeConfig(_, next) => {
            &&& forall|fault: Seq<char>| #[trigger] next(Err(fault)) == Plan::Return(
                Err::<T, Seq<char>>(fault),
            )
            &&& forall|answer: Result<ConfigModel, Seq<char>>|
                reports_faults(#[trigger] next(answer))
        },
    }
}

/// A continuation that hands a problem on as it is.
pub open spec fn hands_on<A, B>(
    rest: spec_fn(Result<A, Seq<char>>) -> Plan<Result<B, Seq<char>>>,
) -> bool {
    forall|problem: Seq<char>| #[trigger] rest(Err(problem)) == Plan::Return(
        Err::<B, Seq<char>>(problem),
    )
}

/// One plan after another reports faults where both do, and where a problem of the
/// first is handed on.
pub proof fn law_faults_are_reported_in_sequence<A, B>(
    plan: Plan<Result<A, Seq<char>>>,
    rest: spec_fn(Result<A, Seq<char>>) -> Plan<Result<B, Seq<char>>>,
)
    requires
        reports_faults(plan),
        hands_on(rest),
        forall|result: Result<A, Seq<char>>| reports_faults(#[trigger] rest(result)),
    ensures
        reports_faults(bind(plan, rest)),
    decreases plan,
{
    let whole = bind(plan, rest);
    match plan {
        Plan::Return(result) => {
            assert(reports_faults(rest(result)));
        },
        Plan::Http(_, next) => {
            assert forall|fault: Seq<char>| #[trigger] whole->Http_1(Err(fault)) == Plan::Return(
                Err::<B, Seq<char>>(fault),
            ) by {
                let ended = Plan::Return(Err::<A, Seq<char>>(fault));
                assert(next(Err(fault)) == ended);
                assert(bind(ended, rest) == rest(Err(fault)));
                assert(rest(Err(fault)) == Plan::Return(Err::<B, Seq<char>>(fault)));
            }
            assert forall|answer: Result<HttpReplyModel, Seq<char>>|
                reports_faults(#[trigger] whole->Http_1(answer)) by {
                law_faults_are_reported_in_sequence(next(answer), rest);
            }
        },
        Plan::Listing(_, next) => {
            assert forall|fault: Seq<char>| #[trigger]
                whole->Listing_1(Err(fault)) == Plan::Return(Err::<B, Seq<char>>(fault)) by {
                let ended = Plan::Return(Err::<A, Seq<char>>(fault));
                assert(next(Err(fault)) == ended);
                assert(bind(ended, rest) == rest(Err(fault)));
                assert(rest(Err(fault)) == Plan::Return(Err::<B, Seq<char>>(fault)));
            }
            assert forall|answer: Listed|
                reports_faults(#[trigger] whole->Listing_1(answer)) by {
                law_faults_are_reported_in_sequence(next(answer), rest);
            }
        },
        Plan::ReadSecret(_, next) => {
            assert forall|fault: Seq<char>| #[trigger]
                whole->ReadSecret_1(Err(fault)) == Plan::Return(Err::<B, Seq<char>>(fault)) by {
                let ended = Plan::Return(Err::<A, Seq<char>>(fault));
                assert(next(Err(fault)) == ended);
                assert(bind(ended, rest) == rest(Err(fault)));
                assert(rest(Err(fault)) == Plan::Return(Err::<B, Seq<char>>(fault)));
            }
            assert forall|answer: Result<Option<Seq<char>>, Seq<char>>|
                reports_faults(#[trigger] whole->ReadSecret_1(answer)) by {
                law_faults_are_reported_in_sequence(next(answer), rest);
            }
        },
        Plan::WriteSecret(_, _, next) => {
            assert forall|fault: Seq<char>| #[trigger]
                whole->WriteSecret_2(Err(fault)) == Plan::Return(Err::<B, Seq<char>>(fault)) by {
                let ended = Plan::Return(Err::<A, Seq<char>>(fault));
                assert(next(Err(fault)) == ended);
                assert(bind(ended, rest) == rest(Err(fault)));
                assert(rest(Err(fault)) == Plan::Return(Err::<B, Seq<char>>(fault)));
            }
            assert forall|answer: Result<(), Seq<char>>|
                reports_faults(#[trigger] whole->WriteSecret_2(answer)) by {
                law_faults_are_reported_in_sequence(next(answer), rest);
            }
        },
        Plan::LoadConfig(_, next) => {
            assert forall|fault: Seq<char>| #[trigger]
                whole->LoadConfig_1(Err(fault)) == Plan::Return(Err::<B, Seq<char>>(fault)) by {
                let ended = Plan::Return(Err::<A, Seq<char>>(fault));
                assert(next(Err(fault)) == ended);
                assert(bind(ended, rest) == rest(Err(fault)));
                assert(rest(Err(fault)) == Plan::Return(Err::<B, Seq<char>>(fault)));
            }
            assert forall|answer: Result<Option<ConfigModel>, Seq<char>>|
                reports_faults(#[trigger] whole->LoadConfig_1(answer)) by {
                law_faults_are_reported_in_sequence(next(answer), rest);
            }
        },
        Plan::SaveConfig(_, _, next) => {
            assert forall|fault: Seq<char>| #[trigger]
                whole->SaveConfig_2(Err(fault)) == Plan::Return(Err::<B, Seq<char>>(fault)) by {
                let ended = Plan::Return(Err::<A, Seq<char>>(fault));
                assert(next(Err(fault)) == ended);
                assert(bind(ended, rest) == rest(Err(fault)));
                assert(rest(Err(fault)) == Plan::Return(Err::<B, Seq<char>>(fault)));
            }
            assert forall|answer: Result<(), Seq<char>>|
                reports_faults(#[trigger] whole->SaveConfig_2(answer)) by {
                law_faults_are_reported_in_sequence(next(answer), rest);
            }
        },
        Plan::DecodeConfig(_, next) => {
            assert forall|fault: Seq<char>| #[trigger]
                whole->DecodeConfig_1(Err(fault)) == Plan::Return(Err::<B, Seq<char>>(fault)) by {
                let ended = Plan::Return(Err::<A, Seq<char>>(fault));
                assert(next(Err(fault)) == ended);
                assert(bind(ended, rest) == rest(Err(fault)));
                assert(rest(Err(fault)) == Plan::Return(Err::<B, Seq<char>>(fault)));
            }
            assert forall|answer: Result<ConfigModel, Seq<char>>|
                reports_faults(#[trigger] whole->DecodeConfig_1(answer)) by {
                law_faults_are_reported_in_sequence(next(answer), rest);
            }
        },
    }
}

proof fn lemma_lookup_faults(config: ConfigModel, parent: Seq<char>, parts: Seq<Seq<char>>)
    ensures
        reports_faults(resolve_parts(config, parent, parts)),
    decreases parts.len(),
{
    let plan = resolve_parts(config, parent, parts);
    if parts.len() > 0 {
        assert forall|fault: Seq<char>| #[trigger] plan->Http_1(Err(fault)) == Plan::Return(
            Err::<Option<FileRefModel>, Seq<char>>(fault),
        ) by {
            assert(plan->Http_1(Err(fault)) == after_search(config, parts, Err(fault)));
        }
        assert forall|answer: Answer| reports_faults(#[trigger] plan->Http_1(answer)) by {
            assert(plan->Http_1(answer) == after_search(config, parts, answer));
            if let Ok(reply) = answer {
                if let Ok(Some(file)) = found_file(reply) {
                    if parts.len() > 1 && file.is_folder {
                        lemma_lookup_faults(config, file.id, parts.skip(1));
                    }
                }
            }
        }
    }
}

proof fn lemma_folder_faults(config: ConfigModel, parent: Seq<char>, name: Seq<char>)
    ensures
        reports_faults(get_or_create_folder_plan(config, parent, name)),
{
    let plan = get_or_create_folder_plan(config, parent, name);
    reveal_with_fuel(reports_faults, 3);
    assert forall|answer: Answer| reports_faults(#[trigger] plan->Http_1(answer)) by {
        let left = after_folder_search(config, parent, name, answer);
        assert(plan->Http_1(answer) == left);
        if left is Http {
            assert forall|again: Answer| #[trigger] left->Http_1(again) == Plan::Return(
                after_folder_creation(again),
            ) by {}
        }
    }
}

proof fn lemma_folders_faults(config: ConfigModel, parent: Seq<char>, names: Seq<Seq<char>>)
    ensures
        reports_faults(make_folders(config, parent, names)),
    decreases names.len(),
{
    if names.len() > 0 {
        let first = get_or_create_folder_plan(config, parent, names[0]);
        let rest = folder_rest(config, names);
        lemma_folder_faults(config, parent, names[0]);
        assert forall|folder: Folder| reports_faults(#[trigger] rest(folder)) by {
            assert(rest(folder) == after_folder(config, names, folder));
            if let Ok(id) = folder {
                if names.len() > 1 {
                    lemma_folders_faults(config, id, names.skip(1));
                }
            }
        }
        law_faults_are_reported_in_sequence(first, rest);
    }
}

proof fn lemma_last_faults(request: HttpRequestModel, ending: Ending)
    ensures
        reports_faults(last_request(request, ending)),
{
    let plan = last_request(request, ending);
    reveal_with_fuel(reports_faults, 2);
    assert forall|answer: Answer| #[trigger] plan->Http_1(answer) == Plan::Return(
        conclusion(ending, answer),
    ) by {}
}

proof fn lemma_errand_faults(config: ConfigModel, errand: ErrandModel)
    ensures
        hands_on(errand_rest(config, errand)),
        forall|folder: Folder| reports_faults(#[trigger] errand_rest(config, errand)(folder)),
{
    let rest = errand_rest(config, errand);
    assert forall|folder: Folder| reports_faults(#[trigger] rest(folder)) by {
        let left = after_folders(config, errand, folder);
        assert(rest(folder) == left);
        if let Ok(parent) = folder {
            match errand {
                ErrandModel::Nothing => {},
                ErrandModel::CreateFile { name, content, content_type } => {
                    lemma_last_faults(
                        create_file_model(config, parent, name, content, content_type),
                        Ending::Create,
                    );
                },
                ErrandModel::MoveFile { id, name } => {
                    assert forall|answer: Answer| reports_faults(
                        #[trigger] left->Http_1(answer),
                    ) by {
                        assert(left->Http_1(answer) == after_parents(
                            config,
                            id,
                            parent,
                            name,
                            answer,
                        ));
                        if let Ok(reply) = answer {
                            lemma_last_faults(
                                move_model(
                                    config,
                                    id,
                                    parent,
                                    told_parent(reply),
                                    name,
                                ),
                                Ending::Move,
                            );
                        }
                    }
                    assert forall|fault: Seq<char>| #[trigger]
                        left->Http_1(Err(fault)) == Plan::Return(
                            Err::<OpModel, Seq<char>>(fault),
                        ) by {
                        assert(left->Http_1(Err(fault)) == after_parents(
                            config,
                            id,
                            parent,
                            name,
                            Err(fault),
                        ));
                    }
                },
            }
        }
    }
}

proof fn lemma_goal_faults(config: ConfigModel, goal: GoalModel)
    ensures
        hands_on(goal_rest(config, goal)),
        forall|found: Found| reports_faults(#[trigger] goal_rest(config, goal)(found)),
{
    let rest = goal_rest(config, goal);
    reveal_with_fuel(reports_faults, 2);
    assert forall|found: Found| reports_faults(#[trigger] rest(found)) by {
        let left = after_resolve(config, goal, found);
        assert(rest(found) == left);
        if let Ok(Some(file)) = found {
            match goal {
                GoalModel::List { .. } | GoalModel::ListMarkdown { .. } => {
                    if left is Listing {
                        let next = left->Listing_1;
                        let markdown = goal is ListMarkdown;
                        assert(next == listing_rest(markdown));
                        assert forall|listed: Listed| #[trigger] next(listed) == Plan::Return(
                            listing_outcome(markdown, listed),
                        ) by {}
                    }
                },
                GoalModel::Move { from, to } => {
                    let errand = ErrandModel::MoveFile {
                        id: file.id,
                        name: last_name(to),
                    };
                    lemma_folders_faults(config, config.root_folder_id, folder_names(to));
                    lemma_errand_faults(config, errand);
                    law_faults_are_reported_in_sequence(
                        get_or_create_parent_plan(config, to),
                        errand_rest(config, errand),
                    );
                },
                _ => {
                    if left is Http {
                        let (request, ending) = match goal {
                            GoalModel::ReadText { .. } => (left->Http_0, Ending::ReadText),
                            GoalModel::ReadBytes { .. } => (left->Http_0, Ending::ReadBytes),
                            GoalModel::Write { .. } => (left->Http_0, Ending::Update),
                            GoalModel::Delete => (left->Http_0, Ending::Delete),
                            _ => (left->Http_0, Ending::ModifiedTime),
                        };
                        assert(left == last_request(request, ending));
                        lemma_last_faults(request, ending);
                    }
                },
            }
        }
        if let Ok(None) = found {
            if let GoalModel::Write { path, content, content_type } = goal {
                let errand = ErrandModel::CreateFile {
                    name: last_name(path),
                    content,
                    content_type,
                };
                lemma_folders_faults(config, config.root_folder_id, folder_names(path));
                lemma_errand_faults(config, errand);
                law_faults_are_reported_in_sequence(
                    get_or_create_parent_plan(config, path),
                    errand_rest(config, errand),
                );
            }
        }
    }
}

proof fn lemma_path_faults(config: ConfigModel, path: Seq<char>, goal: GoalModel)
    ensures
        reports_faults(path_plan(config, path, goal)),
{
    reveal(path_plan);
    lemma_lookup_faults(config, config.root_folder_id, path_parts(path));
    lemma_goal_faults(config, goal);
    law_faults_are_reported_in_sequence(
        resolve_path_plan(config, path),
        goal_rest(config, goal),
    );
}

/// Whenever a request of an operation does not get through, the operation ends there,
/// with the message of the host.
pub proof fn law_operations_report_faults(config: ConfigModel, operation: OperationModel)
    ensures
        reports_faults(operation_plan(config, operation)),
{
    match operation {
        OperationModel::ReadFile { path } => lemma_path_faults(
            config,
            path,
            GoalModel::ReadText { path },
        ),
        OperationModel::WriteFile { path, content } => lemma_path_faults(
            config,
            path,
            GoalModel::Write {
                path,
                content: encode_utf8(content),
                content_type: "text/plain; charset=utf-8"@,
            },
        ),
        OperationModel::DeleteFile { path } => lemma_path_faults(config, path, GoalModel::Delete),
        OperationModel::Exists { path } => lemma_path_faults(config, path, GoalModel::Exists),
        OperationModel::ListFiles { dir } => lemma_path_faults(
            config,
            dir,
            GoalModel::List { dir },
        ),
        OperationModel::ListMdFiles { dir } => lemma_path_faults(
            config,
            dir,
            GoalModel::ListMarkdown { dir },
        ),
        OperationModel::CreateDirAll { path } => {
            lemma_folders_faults(config, config.root_folder_id, path_parts(path));
            lemma_errand_faults(config, ErrandModel::Nothing);
            law_faults_are_reported_in_sequence(
                make_folders(config, config.root_folder_id, path_parts(path)),
                errand_rest(config, ErrandModel::Nothing),
            );
        },
        OperationModel::IsDir { path } => lemma_path_faults(config, path, GoalModel::IsDir),
        OperationModel::MoveFile { from, to } => lemma_path_faults(
            config,
            from,
            GoalModel::Move { from, to },
        ),
        OperationModel::ReadBinary { path } => lemma_path_faults(
            config,
            path,
            GoalModel::ReadBytes { path },
        ),
        OperationModel::WriteBinary { path, data } => lemma_path_faults(
            config,
            path,
            GoalModel::Write {
                path,
                content: data,
                content_type: "application/octet-stream"@,
            },
        ),
        OperationModel::GetModifiedTime { path } => lemma_path_faults(
            config,
            path,
            GoalModel::ModifiedTime,
        ),
        OperationModel::RefreshToken => {
            let plan = operation_plan(config, operation);
            lemma_last_faults(plan->Http_0, Ending::Refresh);
            assert(plan == last_request(plan->Http_0, Ending::Refresh));
        },
        OperationModel::ExchangeToken { .. } => {
            let plan = operation_plan(config, operation);
            lemma_last_faults(plan->Http_0, Ending::Exchange);
            assert(plan == last_request(plan->Http_0, Ending::Exchange));
        },
    }
}

/// Whenever a secret or the configuration cannot be written, or not be read, the
/// saving or the loading ends there, with the message of the host.
pub proof fn law_saving_and_loading_report_faults(config: ConfigModel)
    ensures
        reports_faults(persist_plan(config)),
        reports_faults(load_plan()),
{
    lemma_saving_faults(config);
    let plan = load_plan();
    assert forall|loaded: Loaded| reports_faults(#[trigger] plan->LoadConfig_1(loaded)) by {
        let one = after_loading(loaded);
        assert(plan->LoadConfig_1(loaded) == one);
        if let Ok(Some(saved)) = loaded {
            assert forall|access: Secret| reports_faults(#[trigger] one->ReadSecret_1(access)) by {
                let two = after_access_secret(saved, access);
                assert(one->ReadSecret_1(access) == two);
                if let Ok(first) = access {
                    assert forall|refresh: Secret| reports_faults(
                        #[trigger] two->ReadSecret_1(refresh),
                    ) by {
                        assert(two->ReadSecret_1(refresh) == after_refresh_secret(
                            saved,
                            first,
                            refresh,
                        ));
                        if let Ok(second) = refresh {
                            let config = with_secrets(saved, first, second);
                            lemma_saving_faults(config);
                            law_faults_are_reported_in_sequence(
                                persist_plan(config),
                                migration_rest(config),
                            );
                        }
                    }
                    assert forall|fault: Seq<char>| #[trigger]
                        two->ReadSecret_1(Err(fault)) == Plan::Return(
                            Err::<Option<ConfigModel>, Seq<char>>(fault),
                        ) by {
                        assert(two->ReadSecret_1(Err(fault)) == after_refresh_secret(
                            saved,
                            first,
                            Err(fault),
                        ));
                    }
                }
            }
            assert forall|fault: Seq<char>| #[trigger]
                one->ReadSecret_1(Err(fault)) == Plan::Return(
                    Err::<Option<ConfigModel>, Seq<char>>(fault),
                ) by {
                assert(one->ReadSecret_1(Err(fault)) == after_access_secret(saved, Err(fault)));
            }
        }
    }
    assert forall|fault: Seq<char>| #[trigger] plan->LoadConfig_1(Err(fault)) == Plan::Return(
        Err::<Option<ConfigModel>, Seq<char>>(fault),
    ) by {
        assert(plan->LoadConfig_1(Err(fault)) == after_loading(Err(fault)));
    }
}

proof fn lemma_saving_faults(config: ConfigModel)
    ensures
        reports_faults(persist_plan(config)),
{
    let plan = persist_plan(config);
    reveal_with_fuel(reports_faults, 4);
    assert forall|done: Written| reports_faults(#[trigger] plan->WriteSecret_2(done)) by {
        let one = after_access_token(config, done);
        assert(plan->WriteSecret_2(done) == one);
        if done is Ok {
            assert forall|again: Written| reports_faults(#[trigger] one->WriteSecret_2(again)) by {
                let two = after_refresh_token(config, again);
                assert(one->WriteSecret_2(again) == two);
                if again is Ok {
                    assert forall|last: Written| #[trigger] two->SaveConfig_2(last) == Plan::Return(
                        last,
                    ) by {}
                }
            }
            assert forall|fault: Seq<char>| #[trigger]
                one->WriteSecret_2(Err(fault)) == Plan::Return(Err::<(), Seq<char>>(fault)) by {
                assert(one->WriteSecret_2(Err(fault)) == after_refresh_token(config, Err(fault)));
            }
        }
    }
    assert forall|fault: Seq<char>| #[trigger] plan->WriteSecret_2(Err(fault)) == Plan::Return(
        Err::<(), Seq<char>>(fault),
    ) by {
        assert(plan->WriteSecret_2(Err(fault)) == after_access_token(config, Err(fault)));
    }
}

// ---------------------------------------------------------------------------
// Steps
// ---------------------------------------------------------------------------

/// A lookup asks for its components one by one, each in the folder that the one
/// before it led to, and ends where it cannot go on: with the problem that the reply
/// tells, with nothing where the component is not there, with a message where it is a
/// file and not the last one, and with the file where it is the last one.
pub proof fn law_lookups_go_component_by_component(
    config: ConfigModel,
    parent: Seq<char>,
    parts: Seq<Seq<char>>,
    reply: HttpReplyModel,
)
    requires
        parts.len() > 0,
    ensures
        resolve_parts(config, parent, parts) matches Plan::Http(request, next) && {
            &&& request == find_file_model(config, parent, parts[0])
            &&& match found_file(reply) {
                Err(problem) => next(Ok(reply)) == Plan::Return(
                    Err::<Option<FileRefModel>, Seq<char>>(problem),
                ),
                Ok(None) => next(Ok(reply)) == Plan::Return(
                    Ok::<Option<FileRefModel>, Seq<char>>(None),
                ),
                Ok(Some(file)) => next(Ok(reply)) == (if parts.len() == 1 {
                    Plan::Return(Ok::<Option<FileRefModel>, Seq<char>>(Some(file)))
                } else if file.is_folder {
                    resolve_parts(config, file.id, parts.skip(1))
                } else {
                    Plan::Return(Err("Path component '"@ + parts[0] + "' is not a folder"@))
                }),
            }
        },
        resolve_parts(config, parent, Seq::empty()) == Plan::Return(
            Ok::<Option<FileRefModel>, Seq<char>>(
                Some(FileRefModel { id: parent, is_folder: true }),
            ),
        ),
{
    let plan = resolve_parts(config, parent, parts);
    assert(plan->Http_1(Ok(reply)) == after_search(config, parts, Ok(reply)));
}

/// A folder is searched for in the folder before it, and created there only where it
/// was not found. A reply that tells a problem ends it.
pub proof fn law_folders_are_created_only_where_missing(
    config: ConfigModel,
    parent: Seq<char>,
    name: Seq<char>,
    reply: HttpReplyModel,
    second: HttpReplyModel,
)
    ensures
        get_or_create_folder_plan(config, parent, name) matches Plan::Http(request, next) && {
            &&& request == find_folder_model(config, parent, name)
            &&& match found_folder(reply) {
                Err(problem) => next(Ok(reply)) == Plan::Return(Err::<Seq<char>, Seq<char>>(problem)),
                Ok(Some(id)) => next(Ok(reply)) == Plan::Return(Ok::<Seq<char>, Seq<char>>(id)),
                Ok(None) => next(Ok(reply)) matches Plan::Http(creation, rest) && creation
                    == create_folder_model(config, parent, name) && rest(Ok(second))
                    == Plan::Return(created_folder(second)),
            }
        },
{
    let plan = get_or_create_folder_plan(config, parent, name);
    assert(plan->Http_1(Ok(reply)) == after_folder_search(config, parent, name, Ok(reply)));
}

/// A page that tells a problem ends the listing with it.
pub proof fn law_pages_that_fail_end_the_listing<R>(
    listing: ListingModel,
    next: spec_fn(Listed) -> Plan<R>,
    reply: HttpReplyModel,
    problem: Seq<char>,
)
    ensures
        after_page(listing, next, Err(problem)) == next(Err(problem)),
        listed_page(reply) is Err ==> after_page(listing, next, Ok(reply)) == next(
            Err(listed_page(reply)->Err_0),
        ),
{
}

/// The reply to the last request ends the operation. Where it is refused, that is
/// told, with what failed; where it is granted, the operation has succeeded, with the
/// content, the time or the tokens that the reply tells.
pub proof fn law_the_last_reply_ends_the_operation(
    request: HttpRequestModel,
    reply: HttpReplyModel,
    ending: Ending,
)
    ensures
        last_request(request, ending) matches Plan::Http(asked, next) && asked == request && next(
            Ok(reply),
        ) == Plan::Return(conclusion(ending, Ok(reply))),
        reply.status == 200 ==> {
            &&& conclusion(Ending::Update, Ok(reply)) == Ok::<OpModel, Seq<char>>(OpModel::Nothing)
            &&& conclusion(Ending::Create, Ok(reply)) == Ok::<OpModel, Seq<char>>(OpModel::Nothing)
            &&& conclusion(Ending::Move, Ok(reply)) == Ok::<OpModel, Seq<char>>(OpModel::Nothing)
            &&& conclusion(Ending::ReadText, Ok(reply)) == Ok::<OpModel, Seq<char>>(
                OpModel::Text(reply.body),
            )
        },
        reply.status != 200 ==> {
            &&& conclusion(Ending::Update, Ok(reply)) matches Err(message) && tells_refusal(
                message,
                "GDrive update failed"@,
                reply,
            )
            &&& conclusion(Ending::Create, Ok(reply)) matches Err(message) && tells_refusal(
                message,
                "GDrive create failed"@,
                reply,
            )
            &&& conclusion(Ending::Move, Ok(reply)) matches Err(message) && tells_refusal(
                message,
                "GDrive move failed"@,
                reply,
            )
            &&& conclusion(Ending::ReadText, Ok(reply)) matches Err(message) && tells_refusal(
                message,
                "GDrive read failed"@,
                reply,
            )
            &&& conclusion(Ending::ReadBytes, Ok(reply)) matches Err(message) && tells_refusal(
                message,
                "GDrive read failed"@,
                reply,
            )
            &&& conclusion(Ending::Refresh, Ok(reply)) matches Err(message) && tells_refusal(
                message,
                "Token refresh failed"@,
                reply,
            )
            &&& conclusion(Ending::Exchange, Ok(reply)) matches Err(message) && tells_refusal(
                message,
                "Token exchange failed"@,
                reply,
            )
        },
        reply.status == 200 || reply.status == 204 || reply.status == 404 ==> conclusion(
            Ending::Delete,
            Ok(reply),
        ) == Ok::<OpModel, Seq<char>>(OpModel::Nothing),
        reply.status != 200 && reply.status != 204 && reply.status != 404 ==> (conclusion(
            Ending::Delete,
            Ok(reply),
        ) matches Err(message) && tells_refusal(message, "GDrive delete failed"@, reply)),
        conclusion(Ending::ModifiedTime, Ok(reply)) == Ok::<OpModel, Seq<char>>(
            OpModel::Time(told_time(reply)),
        ),
        media_bytes(reply) matches Ok(bytes) ==> conclusion(Ending::ReadBytes, Ok(reply)) == Ok::<
            OpModel,
            Seq<char>,
        >(OpModel::Bytes(bytes)),
        refreshed_token(reply) matches Ok(token) ==> conclusion(Ending::Refresh, Ok(reply)) == Ok::<
            OpModel,
            Seq<char>,
        >(OpModel::Token(token)),
        exchanged_tokens(reply) matches Ok(tokens) ==> conclusion(Ending::Exchange, Ok(reply))
            == Ok::<OpModel, Seq<char>>(OpModel::Tokens(tokens.0, tokens.1)),
        media_bytes(reply) matches Err(problem) ==> conclusion(Ending::ReadBytes, Ok(reply))
            == Err::<OpModel, Seq<char>>(problem),
        refreshed_token(reply) matches Err(problem) ==> conclusion(Ending::Refresh, Ok(reply))
            == Err::<OpModel, Seq<char>>(problem),
        exchanged_tokens(reply) matches Err(problem) ==> conclusion(Ending::Exchange, Ok(reply))
            == Err::<OpModel, Seq<char>>(problem),
{
    if reply.status != 200 {
        law_refusals_are_told(reply, "GDrive update failed"@);
        law_refusals_are_told(reply, "GDrive create failed"@);
        law_refusals_are_told(reply, "GDrive move failed"@);
    } else {
        law_granted_requests_succeed(reply, "GDrive update failed"@);
        law_granted_requests_succeed(reply, "GDrive create failed"@);
        law_granted_requests_succeed(reply, "GDrive move failed"@);
    }
}

/// A move asks which folder the file is in, and then moves it out of the folder that
/// the reply tells, into the new one and to the new name.
pub proof fn law_moves_leave_the_folder_that_is_told(
    config: ConfigModel,
    id: Seq<char>,
    name: Seq<char>,
    parent: Seq<char>,
    reply: HttpReplyModel,
)
    ensures
        errand_rest(config, ErrandModel::MoveFile { id, name })(Ok(parent)) matches Plan::Http(
            request,
            next,
        ) && request == parents_model(config, id) && next(Ok(reply)) == last_request(
            move_model(config, id, parent, told_parent(reply), name),
            Ending::Move,
        ),
{
    let plan = errand_rest(config, ErrandModel::MoveFile { id, name })(Ok(parent));
    assert(plan->Http_1(Ok(reply)) == after_parents(config, id, parent, name, Ok(reply)));
}

/// Folders are made one in the other: the first in the folder that is there, the
/// next in the first, and so on; a problem with one ends it. Without any the folder
/// that is there is the one.
pub proof fn law_folders_are_made_one_in_the_other(
    config: ConfigModel,
    parent: Seq<char>,
    names: Seq<Seq<char>>,
    id: Seq<char>,
    problem: Seq<char>,
)
    ensures
        make_folders(config, parent, Seq::empty()) == Plan::Return(
            Ok::<Seq<char>, Seq<char>>(parent),
        ),
        names.len() > 0 ==> {
            &&& make_folders(config, parent, names) == bind(
                get_or_create_folder_plan(config, parent, names[0]),
                folder_rest(config, names),
            )
            &&& folder_rest(config, names)(Ok(id)) == make_folders(config, id, names.skip(1))
            &&& folder_rest(config, names)(Err(problem)) == Plan::Return(
                Err::<Seq<char>, Seq<char>>(problem),
            )
        },
{
    if names.len() > 0 {
        let rest = folder_rest(config, names);
        assert(rest(Ok(id)) == after_folder(config, names, Ok(id)));
        if names.len() == 1 {
            assert(names.skip(1) =~= Seq::empty());
        }
    }
}

/// Every operation on a path first looks the path up, from the root folder on, and
/// goes on with what it leads to.
pub proof fn law_operations_look_their_path_up(
    config: ConfigModel,
    path: Seq<char>,
    to: Seq<char>,
    content: Seq<u8>,
    content_type: Seq<char>,
)
    ensures
        ({
            let found = resolve_parts(config, config.root_folder_id, path_parts(path));
            &&& read_file_plan(config, path) == bind(
                found,
                goal_rest(config, GoalModel::ReadText { path }),
            )
            &&& read_binary_plan(config, path) == bind(
                found,
                goal_rest(config, GoalModel::ReadBytes { path }),
            )
            &&& write_bytes_plan(config, path, content, content_type) == bind(
                found,
                goal_rest(config, GoalModel::Write { path, content, content_type }),
            )
            &&& delete_file_plan(config, path) == bind(found, goal_rest(config, GoalModel::Delete))
            &&& exists_plan(config, path) == bind(found, goal_rest(config, GoalModel::Exists))
            &&& is_dir_plan(config, path) == bind(found, goal_rest(config, GoalModel::IsDir))
            &&& list_files_plan(config, path) == bind(
                found,
                goal_rest(config, GoalModel::List { dir: path }),
            )
            &&& list_md_files_plan(config, path) == bind(
                found,
                goal_rest(config, GoalModel::ListMarkdown { dir: path }),
            )
            &&& move_file_plan(config, path, to) == bind(
                found,
                goal_rest(config, GoalModel::Move { from: path, to }),
            )
            &&& modified_time_plan(config, path) == bind(
                found,
                goal_rest(config, GoalModel::ModifiedTime),
            )
            &&& create_dir_all_plan(config, path) == bind(
                make_folders(config, config.root_folder_id, path_parts(path)),
                errand_rest(config, ErrandModel::Nothing),
            )
        }),
{
    reveal(path_plan);
}

/// The plan sends one request, and where that is refused it ends with a message of
/// what failed.
pub open spec fn ends_with(
    plan: Plan<Outcome>,
    request: HttpRequestModel,
    reply: HttpReplyModel,
    what: Seq<char>,
) -> bool {
    plan matches Plan::Http(asked, next) && asked == request && (next(Ok(reply)) matches
        Plan::Return(Err(message)) && tells_refusal(message, what, reply))
}

/// Once the path was looked up, an operation on what it leads to sends one request
/// more, and a refusal of it is told as that of a read, an update, a creation or a
/// deletion. A time that is refused is none.
pub proof fn law_refused_last_requests_are_told(
    config: ConfigModel,
    file: FileRefModel,
    path: Seq<char>,
    name: Seq<char>,
    content: Seq<u8>,
    content_type: Seq<char>,
    reply: HttpReplyModel,
)
    requires
        reply.status != 200,
        reply.status != 204,
        reply.status != 404,
    ensures
        ends_with(
            goal_rest(config, GoalModel::ReadText { path })(Ok(Some(file))),
            media_model(config, file.id),
            reply,
            "GDrive read failed"@,
        ),
        ends_with(
            goal_rest(config, GoalModel::ReadBytes { path })(Ok(Some(file))),
            media_model(config, file.id),
            reply,
            "GDrive read failed"@,
        ),
        ends_with(
            goal_rest(config, GoalModel::Write { path, content, content_type })(Ok(Some(file))),
            update_model(config, file.id, content, content_type),
            reply,
            "GDrive update failed"@,
        ),
        ends_with(
            goal_rest(config, GoalModel::Delete)(Ok(Some(file))),
            delete_model(config, file.id),
            reply,
            "GDrive delete failed"@,
        ),
        ends_with(
            errand_rest(config, ErrandModel::CreateFile { name, content, content_type })(Ok(file.id)),
            create_file_model(config, file.id, name, content, content_type),
            reply,
            "GDrive create failed"@,
        ),
        goal_rest(config, GoalModel::ModifiedTime)(Ok(Some(file))) matches Plan::Http(asked, next)
            && asked == modified_model(config, file.id) && next(Ok(reply)) == Plan::Return(
            Ok::<OpModel, Seq<char>>(OpModel::Time(None)),
        ),
        goal_rest(config, GoalModel::Write { path, content, content_type })(Ok(None)) == bind(
            make_folders(config, config.root_folder_id, folder_names(path)),
            errand_rest(
                config,
                ErrandModel::CreateFile { name: last_name(path), content, content_type },
            ),
        ),
        goal_rest(config, GoalModel::Move { from: name, to: path })(Ok(Some(file))) == bind(
            make_folders(config, config.root_folder_id, folder_names(path)),
            errand_rest(config, ErrandModel::MoveFile { id: file.id, name: last_name(path) }),
        ),
{
    law_the_last_reply_ends_the_operation(media_model(config, file.id), reply, Ending::ReadText);
    law_the_last_reply_ends_the_operation(media_model(config, file.id), reply, Ending::ReadBytes);
    law_the_last_reply_ends_the_operation(
        update_model(config, file.id, content, content_type),
        reply,
        Ending::Update,
    );
    law_the_last_reply_ends_the_operation(delete_model(config, file.id), reply, Ending::Delete);
    law_the_last_reply_ends_the_operation(
        create_file_model(config, file.id, name, content, content_type),
        reply,
        Ending::Create,
    );
    law_the_last_reply_ends_the_operation(
        modified_model(config, file.id),
        reply,
        Ending::ModifiedTime,
    );
    law_refusals_are_told(reply, "GDrive update failed"@);
}

/// The folders of a path are its components but for the last, and its name is the
/// last of them; of a path of slashes there is neither.
pub proof fn law_a_path_is_its_folders_and_its_name(path: Seq<char>)
    ensures
        path_parts(path).len() > 0 ==> path_parts(path) == folder_names(path).push(last_name(path)),
        path_parts(path).len() == 0 ==> folder_names(path).len() == 0 && last_name(path).len() == 0,
{
    law_last_name_is_last_part(path);
    if path_parts(path).len() > 0 {
        assert(path_parts(path) =~= folder_names(path).push(last_name(path)));
    }
}

/// A form is sent, and the operation ends with what the reply tells.
pub open spec fn sends_form(
    plan: Plan<Outcome>,
    told: Seq<(Seq<char>, Seq<char>)>,
    ending: Ending,
) -> bool {
    plan matches Plan::Http(request, next) && {
        &&& request.method == Method::Post
        &&& request.url == "https://oauth2.googleapis.com/token"@
        &&& request.headers == seq![("Content-Type"@, "application/x-www-form-urlencoded"@)]
        &&& request.body matches BodyModel::Text(form) && form_fields(form) == told
        &&& forall|answer: Answer| #[trigger] next(answer) == Plan::Return(
            conclusion(ending, answer),
        )
    }
}

/// A refresh tells Google the client, its secret and the refresh token, and an
/// exchange the client, its secret, the code and the redirect URI, and the verifier
/// where there is one; nothing else.
pub proof fn law_tokens_are_asked_for(
    config: ConfigModel,
    code: Seq<char>,
    redirect_uri: Seq<char>,
    code_verifier: Seq<char>,
)
    ensures
        sends_form(
            refresh_token_plan(config),
            seq![
                ("client_id"@, config.client_id),
                ("client_secret"@, config.client_secret),
                ("refresh_token"@, config.refresh_token),
                ("grant_type"@, "refresh_token"@),
            ],
            Ending::Refresh,
        ),
        sends_form(
            exchange_token_plan(config, code, redirect_uri),
            seq![
                ("client_id"@, config.client_id),
                ("client_secret"@, config.client_secret),
                ("code"@, code),
                ("redirect_uri"@, redirect_uri),
                ("grant_type"@, "authorization_code"@),
            ],
            Ending::Exchange,
        ),
        sends_form(
            verified_exchange_plan(config, code, redirect_uri, code_verifier),
            seq![
                ("client_id"@, config.client_id),
                ("client_secret"@, config.client_secret),
                ("code"@, code),
                ("redirect_uri"@, redirect_uri),
                ("grant_type"@, "authorization_code"@),
                ("code_verifier"@, code_verifier),
            ],
            Ending::Exchange,
        ),
{
    law_refreshing_tells_the_client_and_the_token(config);
    law_exchanges_tell_the_code_and_the_verifier(config, code, redirect_uri, code_verifier);
    law_forms_go_to_the_token_endpoint(refresh_form(config));
    law_forms_go_to_the_token_endpoint(exchange_form(config, code, redirect_uri));
    let form = verified_exchange_form(config, code, redirect_uri, code_verifier);
    law_forms_go_to_the_token_endpoint(form);
    assert(form_fields(form) =~= seq![
        ("client_id"@, config.client_id),
        ("client_secret"@, config.client_secret),
        ("code"@, code),
        ("redirect_uri"@, redirect_uri),
        ("grant_type"@, "authorization_code"@),
        ("code_verifier"@, code_verifier),
    ]);
}

} // verus!
