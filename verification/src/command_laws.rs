//! What always holds of the commands, whatever the host answers.
use crate::always::{always, law_always_in_sequence, law_always_is_monotone, Question};
use crate::commands::{
    all_commands, command_names, command_request, empty_response, error_response,
    law_commands_are_found_by_their_names, law_listed_names_are_commands, named_command, Command,
    OperationModel, RequestModel, ResponseModel,
};
use crate::config::{
    config_view, law_merged_root_is_not_blank, merged, model_or_default, without_tokens,
    ConfigModel,
};
use crate::dispatch::{
    adopting_plan, after_decoding, after_operation, after_saving, closing_rest, dispatch_plan,
    ended, message_response, operation_plan, operation_rest, request_plan, saving_plan,
    token_response, ClosingModel, CommandStep, Decoded, EndModel,
};
use crate::drive_laws::{
    anything, drive_asks, fitting, is_drive_request, is_token_operation, is_token_request,
    law_operations_keep_to_drive, law_token_operations_keep_to_the_token_endpoint, token_asks,
};
use crate::drive_plans::{path_plan, Answer, OpModel, Outcome};
use crate::drive_requests::TOKEN_URL;
use crate::json::{json_model, member, members, optional_text, Json};
use crate::manifest::manifest_model;
use crate::oauth::begin_oauth_response;
use crate::persistence::{
    after_access_secret, after_access_token, after_loading, after_refresh_secret,
    after_refresh_token, load_plan, migration_rest, persist_plan, with_secrets, Loaded, Secret,
    Written, ACCESS_TOKEN_SECRET_KEY, CONFIG_STORAGE_KEY, REFRESH_TOKEN_SECRET_KEY,
};
use crate::plan::{after_page, bind, Listed, ListingModel, Plan};
use crate::text::is_blank;
use vstd::prelude::*;
use vstd::string::*;

verus! {

// ---------------------------------------------------------------------------
// Saving
// ---------------------------------------------------------------------------

/// The secrets of the plugin.
pub open spec fn is_token_key(key: Seq<char>) -> bool {
    key == ACCESS_TOKEN_SECRET_KEY@ || key == REFRESH_TOKEN_SECRET_KEY@
}

/// A configuration that holds no token.
pub open spec fn is_bare(config: ConfigModel) -> bool {
    config.access_token.len() == 0 && config.refresh_token.len() == 0
}

/// What saving a configuration may ask: to write the secrets of the tokens, and
/// to save a configuration that holds none.
pub open spec fn saving_asks() -> spec_fn(Question) -> bool {
    |question: Question|
        match question {
            Question::WriteSecret(key, value) => is_token_key(key) && (value matches Some(token)
                ==> token.len() > 0),
            Question::SaveConfig(key, saved) => key == CONFIG_STORAGE_KEY@ && is_bare(saved),
            _ => false,
        }
}

/// Tokens are kept as secrets: what is saved in the plugin storage holds none.
pub proof fn law_saved_configurations_hold_no_token(config: ConfigModel)
    ensures
        always(persist_plan(config), saving_asks(), anything()),
{
    let asks = saving_asks();
    let plan = persist_plan(config);
    assert forall|done: Written| always(#[trigger] plan->WriteSecret_2(done), asks, anything()) by {
        let second = after_access_token(config, done);
        assert(plan->WriteSecret_2(done) == second);
        if second is WriteSecret {
            assert forall|done: Written|
                always(#[trigger] second->WriteSecret_2(done), asks, anything()) by {
                let third = after_refresh_token(config, done);
                assert(second->WriteSecret_2(done) == third);
                if third is SaveConfig {
                    assert forall|done: Written|
                        always(#[trigger] third->SaveConfig_2(done), asks, anything()) by {
                        assert(third->SaveConfig_2(done) == Plan::Return(done));
                    }
                }
            }
        }
    }
}

/// What loading the configuration may ask.
pub open spec fn loading_asks() -> spec_fn(Question) -> bool {
    |question: Question|
        match question {
            Question::LoadConfig(key) => key == CONFIG_STORAGE_KEY@,
            Question::ReadSecret(key) => is_token_key(key),
            _ => saving_asks()(question),
        }
}

/// Loading a configuration saves none that holds a token, either.
pub proof fn law_loading_saves_no_token()
    ensures
        always(load_plan(), loading_asks(), anything()),
{
    let asks = loading_asks();
    let plan = load_plan();
    assert forall|loaded: Loaded|
        always(#[trigger] plan->LoadConfig_1(loaded), asks, anything()) by {
        let second = after_loading(loaded);
        assert(plan->LoadConfig_1(loaded) == second);
        if let Ok(Some(saved)) = loaded {
            assert forall|access: Secret|
                always(#[trigger] second->ReadSecret_1(access), asks, anything()) by {
                let third = after_access_secret(saved, access);
                assert(second->ReadSecret_1(access) == third);
                if let Ok(first) = access {
                    assert forall|refresh: Secret|
                        always(#[trigger] third->ReadSecret_1(refresh), asks, anything()) by {
                        assert(third->ReadSecret_1(refresh) == after_refresh_secret(
                            saved,
                            first,
                            refresh,
                        ));
                        if let Ok(token) = refresh {
                            let config = with_secrets(saved, first, token);
                            law_saved_configurations_hold_no_token(config);
                            law_always_is_monotone(
                                persist_plan(config),
                                saving_asks(),
                                anything(),
                                asks,
                                anything(),
                            );
                            law_always_in_sequence(
                                persist_plan(config),
                                migration_rest(config),
                                asks,
                                anything(),
                                anything(),
                            );
                        }
                    }
                }
            }
        }
    }
}

// ---------------------------------------------------------------------------
// Commands
// ---------------------------------------------------------------------------

/// A URL of Google's API, for which the manifest asks the permission.
pub open spec fn is_google_url(url: Seq<char>) -> bool {
    "https://www.googleapis.com/"@.is_prefix_of(url)
        || "https://oauth2.googleapis.com/"@.is_prefix_of(url)
}

/// What a command may ask: requests to Google's API with the current
/// configuration, and to save the configuration with its tokens
/// kept apart.
pub open spec fn command_asks(current: Option<ConfigModel>) -> spec_fn(Question) -> bool {
    |question: Question|
        match question {
            Question::Http(request) => match current {
                Some(config) => is_google_url(request.url) && (is_drive_request(request, config)
                    || is_token_request(request)),
                None => false,
            },
            Question::DecodeConfig(_) => true,
            _ => saving_asks()(question),
        }
}

/// A response that is a success without an error, or a failure with one and
/// without data.
pub open spec fn is_consistent(response: ResponseModel) -> bool {
    &&& response.success == (response.error is None)
    &&& !response.success ==> response.data is None
}

/// How a request may end, given the configuration before it: with a consistent
/// response, and with a configuration that differs from the one before it only
/// where the request is meant to change it.
pub open spec fn is_end_of(
    current: Option<ConfigModel>,
    request: RequestModel,
    end: EndModel,
) -> bool {
    &&& is_consistent(end.response)
    &&& match request {
        RequestModel::Operation(operation) => if is_token_operation(operation) {
            match current {
                Some(config) => {
                    &&& end.config matches Some(after)
                    &&& without_tokens(after) == without_tokens(config)
                },
                None => end.config is None,
            }
        } else {
            end.config == current
        },
        RequestModel::BeginOAuth(_) => end.config == current,
        RequestModel::GetConfig => end.config == current,
        RequestModel::SetConfig(_) => if end.response.success {
            &&& end.config matches Some(after)
            &&& !is_blank(after.root_folder_id)
        } else {
            end.config == current
        },
        RequestModel::Disconnect => {
            &&& end.config is None ==> current is None && !end.response.success
            &&& end.config matches Some(after) ==> after == without_tokens(
                model_or_default(current),
            )
        },
    }
}

/// The ways in which a request may end.
pub open spec fn ends_of(current: Option<ConfigModel>, request: RequestModel) -> spec_fn(
    EndModel,
) -> bool {
    |end: EndModel| is_end_of(current, request, end)
}

proof fn lemma_saving(
    config: ConfigModel,
    closing: ClosingModel,
    asks: spec_fn(Question) -> bool,
    ends: spec_fn(EndModel) -> bool,
)
    requires
        forall|question: Question| #[trigger] saving_asks()(question) ==> asks(question),
        forall|done: Written| ends(#[trigger] after_saving(closing, done)),
    ensures
        always(saving_plan(config, closing), asks, ends),
{
    let rest = closing_rest(closing);
    law_saved_configurations_hold_no_token(config);
    law_always_is_monotone(persist_plan(config), saving_asks(), anything(), asks, anything());
    assert forall|done: Written| always(#[trigger] rest(done), asks, ends) by {
        assert(rest(done) == Plan::Return(after_saving(closing, done)));
    }
    law_always_in_sequence(persist_plan(config), rest, asks, anything(), ends);
}

proof fn lemma_adopting(
    config: ConfigModel,
    operation: OperationModel,
    new: ConfigModel,
    response: ResponseModel,
)
    requires
        is_token_operation(operation),
        without_tokens(new) == without_tokens(config),
        is_consistent(response),
    ensures
        always(
            adopting_plan(new, response),
            command_asks(Some(config)),
            ends_of(Some(config), RequestModel::Operation(operation)),
        ),
{
    lemma_saving(
        new,
        ClosingModel { saved: Some(new), unsaved: Some(new), response },
        command_asks(Some(config)),
        ends_of(Some(config), RequestModel::Operation(operation)),
    );
}

proof fn lemma_operation(config: ConfigModel, operation: OperationModel)
    ensures
        always(
            bind(operation_plan(config, operation), operation_rest(config)),
            command_asks(Some(config)),
            ends_of(Some(config), RequestModel::Operation(operation)),
        ),
{
    let plan = operation_plan(config, operation);
    let rest = operation_rest(config);
    let asks = command_asks(Some(config));
    let between = fitting(operation);
    let ends = ends_of(Some(config), RequestModel::Operation(operation));
    reveal_strlit("https://oauth2.googleapis.com/");
    reveal_strlit("https://oauth2.googleapis.com/token");
    assert("https://oauth2.googleapis.com/"@.is_prefix_of(TOKEN_URL@));
    if is_token_operation(operation) {
        law_token_operations_keep_to_the_token_endpoint(config, operation);
        law_always_is_monotone(plan, token_asks(), between, asks, between);
    } else {
        law_operations_keep_to_drive(config, operation);
        law_always_is_monotone(plan, drive_asks(config), between, asks, between);
    }
    assert forall|outcome: Outcome| between(outcome) implies always(
        #[trigger] rest(outcome),
        asks,
        ends,
    ) by {
        assert(rest(outcome) == after_operation(config, outcome));
        match outcome {
            Ok(OpModel::Token(token)) => {
                lemma_adopting(
                    config,
                    operation,
                    ConfigModel { access_token: token, ..config },
                    token_response(token),
                );
            },
            Ok(OpModel::Tokens(access, refresh)) => {
                lemma_adopting(
                    config,
                    operation,
                    ConfigModel { access_token: access, refresh_token: refresh, ..config },
                    message_response("Connected to Google Drive."@),
                );
            },
            _ => {},
        }
    }
    law_always_in_sequence(plan, rest, asks, between, ends);
}

// ---------------------------------------------------------------------------
// Laws
// ---------------------------------------------------------------------------

/// Whatever a command asks for and whatever the host answers: requests go to
/// Google's API only and need a configuration, no token is saved in the plugin
/// storage, the response is consistent, and the configuration changes only where
/// the command is meant to change it.
pub proof fn law_requests_keep_to_their_permissions(
    current: Option<ConfigModel>,
    request: RequestModel,
)
    ensures
        always(request_plan(current, request), command_asks(current), ends_of(current, request)),
{
    let asks = command_asks(current);
    let ends = ends_of(current, request);
    match request {
        RequestModel::Operation(operation) => if let Some(config) = current {
            lemma_operation(config, operation);
        },
        RequestModel::BeginOAuth(params) => {},
        RequestModel::GetConfig => {},
        RequestModel::SetConfig(document) => {
            let plan = request_plan(current, request);
            assert forall|decoded: Decoded|
                always(#[trigger] plan->DecodeConfig_1(decoded), asks, ends) by {
                assert(plan->DecodeConfig_1(decoded) == after_decoding(current, decoded));
                if let Ok(incoming) = decoded {
                    let config = merged(incoming, model_or_default(current));
                    law_merged_root_is_not_blank(incoming, model_or_default(current));
                    lemma_saving(
                        config,
                        ClosingModel {
                            saved: Some(config),
                            unsaved: current,
                            response: empty_response(),
                        },
                        asks,
                        ends,
                    );
                }
            }
        },
        RequestModel::Disconnect => {
            let config = without_tokens(model_or_default(current));
            let unsaved = if current is Some {
                Some(config)
            } else {
                None
            };
            let response = message_response("Disconnected from Google Drive."@);
            lemma_saving(
                config,
                ClosingModel { saved: Some(config), unsaved, response },
                asks,
                ends,
            );
        },
    }
}

/// How a command may end, whichever it is.
pub open spec fn consistent_ends() -> spec_fn(EndModel) -> bool {
    |end: EndModel| is_consistent(end.response)
}

/// Every command, by whatever name and with whatever parameters, asks only what
/// it may ask, and ends with a consistent response.
pub proof fn law_commands_keep_to_their_permissions(
    current: Option<ConfigModel>,
    command: Seq<char>,
    params: Json,
)
    ensures
        always(
            dispatch_plan(current, command, params),
            command_asks(current),
            consistent_ends(),
        ),
{
    if let Some(known) = named_command(all_commands(), command) {
        if let Ok(request) = command_request(known, params) {
            law_requests_keep_to_their_permissions(current, request);
            law_always_is_monotone(
                request_plan(current, request),
                command_asks(current),
                ends_of(current, request),
                command_asks(current),
                consistent_ends(),
            );
        }
    }
}

/// What always holds of a listing holds of it after every page.
proof fn lemma_pages_keep(
    listing: ListingModel,
    next: spec_fn(Listed) -> Plan<EndModel>,
    answer: Answer,
    asks: spec_fn(Question) -> bool,
    ends: spec_fn(EndModel) -> bool,
)
    requires
        always(Plan::Listing(listing, next), asks, ends),
    ensures
        always(after_page(listing, next, answer), asks, ends),
{
    let plan = Plan::Listing(listing, next);
    assert(plan->Listing_1 == next);
    assert(forall|listed: Listed| always(#[trigger] next(listed), asks, ends));
}

/// A step that does what a plan says asks only what the plan may ask, whatever is
/// answered goes on so, and ends only as the plan may end.
pub proof fn law_steps_keep_to_their_plan(
    step: CommandStep,
    plan: Plan<EndModel>,
    asks: spec_fn(Question) -> bool,
    ends: spec_fn(EndModel) -> bool,
)
    requires
        step.follows(plan),
        always(plan, asks, ends),
    ensures
        match step {
            CommandStep::Http(request, task) => {
                &&& asks(Question::Http(request@))
                &&& forall|answer: Answer| always(#[trigger] task.after(answer), asks, ends)
            },
            CommandStep::WriteSecret(key, value, task) => {
                &&& asks(Question::WriteSecret(key@, optional_text(value)))
                &&& forall|done: Written| always(#[trigger] task.after(done), asks, ends)
            },
            CommandStep::SaveConfig(key, config, task) => {
                &&& asks(Question::SaveConfig(key@, config@))
                &&& forall|done: Written| always(#[trigger] task.after(done), asks, ends)
            },
            CommandStep::DecodeConfig(document, task) => {
                &&& asks(Question::DecodeConfig(json_model(document)))
                &&& forall|decoded: Decoded| always(#[trigger] task.after(decoded), asks, ends)
            },
            CommandStep::Done(end) => ends(end@),
        },
{
    match step {
        CommandStep::Http(_, task) => {
            assert forall|answer: Answer| always(#[trigger] task.after(answer), asks, ends) by {
                if let Plan::Listing(listing, next) = plan {
                    assert(task.after(answer) == after_page(listing, next, answer));
                    lemma_pages_keep(listing, next, answer, asks, ends);
                } else {
                    assert(task.after(answer) == plan->Http_1(answer));
                }
            }
        },
        CommandStep::WriteSecret(_, _, task) => {
            assert forall|done: Written| always(#[trigger] task.after(done), asks, ends) by {
                assert(task.after(done) == plan->WriteSecret_2(done));
            }
        },
        CommandStep::SaveConfig(_, _, task) => {
            assert forall|done: Written| always(#[trigger] task.after(done), asks, ends) by {
                assert(task.after(done) == plan->SaveConfig_2(done));
            }
        },
        CommandStep::DecodeConfig(_, task) => {
            assert forall|decoded: Decoded| always(#[trigger] task.after(decoded), asks, ends) by {
                assert(task.after(decoded) == plan->DecodeConfig_1(decoded));
            }
        },
        CommandStep::Done(_) => {},
    }
}

/// The message of a parameter that is missing or wrong is not that of an unknown
/// command.
proof fn lemma_parameter_messages(command: Command, params: Json, name: Seq<char>)
    ensures
        command_request(command, params) != Err::<RequestModel, Seq<char>>(
            "Unknown command: "@ + name,
        ),
{
    reveal_strlit("Unknown command: ");
    reveal_strlit("Missing '");
    reveal_strlit("Missing 'data' parameter (base64)");
    reveal_strlit("Invalid base64: ");
    let message = "Unknown command: "@ + name;
    assert(message[0] == 'U');
    if let Err(told) = command_request(command, params) {
        assert(told[0] != 'U');
    }
}

/// No operation fails before the host was asked.
proof fn lemma_operations_start(config: ConfigModel, operation: OperationModel)
    ensures
        operation_plan(config, operation) matches Plan::Return(outcome) ==> outcome is Ok,
{
    reveal(path_plan);
}

/// A known command is never answered at once as an unknown one.
proof fn lemma_known_commands(
    current: Option<ConfigModel>,
    request: RequestModel,
    name: Seq<char>,
)
    ensures
        request_plan(current, request) != ended(
            current,
            error_response("Unknown command: "@ + name),
        ),
{
    reveal_strlit("Unknown command: ");
    assert(("Unknown command: "@ + name)[0] == 'U');
    match request {
        RequestModel::Operation(operation) => match current {
            Some(config) => {
                let plan = operation_plan(config, operation);
                lemma_operations_start(config, operation);
                if let Plan::Return(outcome) = plan {
                    assert(bind(plan, operation_rest(config)) == after_operation(config, outcome));
                }
            },
            None => {
                reveal_strlit("Google Drive plugin not configured");
                assert("Google Drive plugin not configured"@[0] == 'G');
            },
        },
        RequestModel::BeginOAuth(params) => {
            reveal_strlit(
                "Google Drive OAuth is not configured for this build. Set a host-managed client ID.",
            );
            reveal_strlit("Missing '");
            let response = begin_oauth_response(model_or_default(current), params);
            if let Some(told) = response.error {
                assert(told[0] != 'U');
            }
        },
        _ => {},
    }
}

/// The manifest lists exactly the commands that are known, each of them once. A
/// name that it does not list is answered so, and nothing is done; one that it
/// lists is never answered at once in this way.
pub proof fn law_manifest_lists_the_known_commands(
    version: Seq<char>,
    current: Option<ConfigModel>,
    command: Seq<char>,
    params: Json,
)
    ensures
        manifest_model(version).commands.no_duplicates(),
        forall|known: Command| manifest_model(version).commands.contains(#[trigger] known.model()),
        manifest_model(version).commands.contains(command) <==> dispatch_plan(
            current,
            command,
            params,
        ) != ended(current, error_response("Unknown command: "@ + command)),
{
    let names = command_names(all_commands());
    assert forall|known: Command| names.contains(#[trigger] known.model()) by {
        law_commands_are_found_by_their_names(known);
        law_listed_names_are_commands(all_commands(), known.model());
    }
    assert forall|i: int, j: int| 0 <= i < j < names.len() implies names[i] != names[j] by {
        let one = all_commands()[i];
        let other = all_commands()[j];
        law_commands_are_found_by_their_names(one);
        law_commands_are_found_by_their_names(other);
        assert(all_commands().no_duplicates());
    }
    law_listed_names_are_commands(all_commands(), command);
    if let Some(known) = named_command(all_commands(), command) {
        lemma_parameter_messages(known, params, command);
        match command_request(known, params) {
            Ok(request) => lemma_known_commands(current, request, command),
            Err(message) => {
                assert(message != "Unknown command: "@ + command);
            },
        }
    }
}

/// An operation on the storage needs a configuration: without one it is refused,
/// and nothing is done.
pub proof fn law_storage_needs_a_configuration(operation: OperationModel)
    ensures
        request_plan(None, RequestModel::Operation(operation)) == ended(
            None,
            error_response("Google Drive plugin not configured"@),
        ),
{
}

/// After a disconnection the settings show that there is no connection, and the
/// same client and root folder as before.
pub proof fn law_disconnected_settings(config: ConfigModel)
    ensures
        member(config_view(without_tokens(config)), "connected"@) == Some(Json::Bool(false)),
        member(config_view(without_tokens(config)), "client_id"@) == member(
            config_view(config),
            "client_id"@,
        ),
        member(config_view(without_tokens(config)), "root_folder_id"@) == member(
            config_view(config),
            "root_folder_id"@,
        ),
{
    lemma_view_members(config);
    lemma_view_members(without_tokens(config));
}

proof fn lemma_view_members(config: ConfigModel)
    ensures
        member(config_view(config), "client_id"@) == Some(Json::Text(config.client_id)),
        member(config_view(config), "root_folder_id"@) == Some(
            Json::Text(
                if config.root_folder_id.len() == 0 {
                    "root"@
                } else {
                    config.root_folder_id
                },
            ),
        ),
        member(config_view(config), "connected"@) == Some(
            Json::Bool(config.refresh_token.len() > 0),
        ),
{
    reveal_strlit("client_id");
    reveal_strlit("root_folder_id");
    reveal_strlit("connected");
    reveal_with_fuel(members, 4);
    assert("client_id"@.len() != "root_folder_id"@.len());
    assert("client_id"@[1] == 'l' && "connected"@[1] == 'o');
}

} // verus!
