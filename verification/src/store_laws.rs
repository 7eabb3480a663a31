//! Saving and loading, against a host that keeps what it is given.
use crate::commands::{
    empty_response, law_commands_are_found_by_their_names, Command, ResponseModel,
};
use crate::config::{default_model, merged, model_or_default, without_tokens, ConfigModel};
use crate::dispatch::{
    adopting_plan, after_saving, closing_rest, disconnect_plan, dispatch_plan, message_response,
    saving_plan, set_config_plan, ClosingModel, EndModel,
};
use crate::json::Json;
use crate::json_laws::lemma_one_entry;
use crate::persistence::{
    after_access_secret, after_access_token, after_loading, after_refresh_secret,
    after_refresh_token, is_stray, kept_secret, load_plan, migration_rest, persist_plan,
    with_secrets, ACCESS_TOKEN_SECRET_KEY, CONFIG_STORAGE_KEY, REFRESH_TOKEN_SECRET_KEY,
};
use crate::plan::{bind, Plan};
use crate::plugin::started;
use crate::settings_laws::{is_refused, law_given_settings_are_taken};
use crate::text::is_blank;
use vstd::prelude::*;
use vstd::string::*;

verus! {

/// What the host keeps: secrets, and configurations in the plugin storage.
pub struct Store {
    pub secrets: Map<Seq<char>, Seq<char>>,
    pub saved: Map<Seq<char>, ConfigModel>,
}

impl Store {
    /// The secret under a key.
    pub open spec fn secret(self, key: Seq<char>) -> Option<Seq<char>> {
        if self.secrets.contains_key(key) {
            Some(self.secrets[key])
        } else {
            None
        }
    }

    /// The configuration saved under a key.
    pub open spec fn config(self, key: Seq<char>) -> Option<ConfigModel> {
        if self.saved.contains_key(key) {
            Some(self.saved[key])
        } else {
            None
        }
    }

    /// The store with a secret written, or deleted where there is no value.
    pub open spec fn with_secret(self, key: Seq<char>, value: Option<Seq<char>>) -> Store {
        Store {
            secrets: match value {
                Some(text) => self.secrets.insert(key, text),
                None => self.secrets.remove(key),
            },
            ..self
        }
    }

    /// The store with a configuration saved.
    pub open spec fn with_config(self, key: Seq<char>, config: ConfigModel) -> Store {
        Store { saved: self.saved.insert(key, config), ..self }
    }
}

/// What a plan does with a store that answers without a fault: the store after
/// it, and its result. None where the plan asks for anything else.
pub open spec fn answered<R>(plan: Plan<R>, store: Store) -> Option<(Store, R)>
    decreases plan,
{
    match plan {
        Plan::Return(result) => Some((store, result)),
        Plan::ReadSecret(key, next) => answered(next(Ok(store.secret(key))), store),
        Plan::WriteSecret(key, value, next) => answered(
            next(Ok(())),
            store.with_secret(key, value),
        ),
        Plan::LoadConfig(key, next) => answered(next(Ok(store.config(key))), store),
        Plan::SaveConfig(key, config, next) => answered(
            next(Ok(())),
            store.with_config(key, config),
        ),
        _ => None,
    }
}

/// The store once a configuration was saved.
pub open spec fn stored(config: ConfigModel, store: Store) -> Store {
    store.with_secret(ACCESS_TOKEN_SECRET_KEY@, kept_secret(config.access_token)).with_secret(
        REFRESH_TOKEN_SECRET_KEY@,
        kept_secret(config.refresh_token),
    ).with_config(CONFIG_STORAGE_KEY@, without_tokens(config))
}

/// What two plans do one after the other.
proof fn lemma_answered_in_sequence<A, B>(
    plan: Plan<A>,
    rest: spec_fn(A) -> Plan<B>,
    store: Store,
)
    ensures
        answered(bind(plan, rest), store) == match answered(plan, store) {
            Some((after, result)) => answered(rest(result), after),
            None => None,
        },
    decreases plan,
{
    match plan {
        Plan::Return(_) => {},
        Plan::ReadSecret(key, next) => lemma_answered_in_sequence(
            next(Ok(store.secret(key))),
            rest,
            store,
        ),
        Plan::WriteSecret(key, value, next) => lemma_answered_in_sequence(
            next(Ok(())),
            rest,
            store.with_secret(key, value),
        ),
        Plan::LoadConfig(key, next) => lemma_answered_in_sequence(
            next(Ok(store.config(key))),
            rest,
            store,
        ),
        Plan::SaveConfig(key, config, next) => lemma_answered_in_sequence(
            next(Ok(())),
            rest,
            store.with_config(key, config),
        ),
        _ => {},
    }
}

proof fn lemma_keys_differ()
    ensures
        ACCESS_TOKEN_SECRET_KEY@ != REFRESH_TOKEN_SECRET_KEY@,
{
    reveal_strlit("gdrive_access_token");
    reveal_strlit("gdrive_refresh_token");
    assert(ACCESS_TOKEN_SECRET_KEY@.len() != REFRESH_TOKEN_SECRET_KEY@.len());
}

/// Saving a configuration puts it into the store, its tokens among the secrets.
pub proof fn law_saving_stores(config: ConfigModel, store: Store)
    ensures
        answered(persist_plan(config), store) == Some(
            (stored(config, store), Ok::<(), Seq<char>>(())),
        ),
{
    reveal_with_fuel(answered, 4);
    let one = after_access_token(config, Ok(()));
    let two = after_refresh_token(config, Ok(()));
    assert(persist_plan(config)->WriteSecret_2(Ok(())) == one);
    assert(one->WriteSecret_2(Ok(())) == two);
}

/// A configuration that is adopted is in use and in the store.
pub proof fn lemma_adopting(config: ConfigModel, response: ResponseModel, store: Store)
    ensures
        answered(adopting_plan(config, response), store) == Some(
            (stored(config, store), EndModel { config: Some(config), response }),
        ),
{
    let closing = ClosingModel { saved: Some(config), unsaved: Some(config), response };
    law_saving_stores(config, store);
    lemma_answered_in_sequence(persist_plan(config), closing_rest(closing), store);
}

/// What loading does with a store: the configuration with the secrets, and saved
/// anew where a token was not kept as a secret.
proof fn lemma_loading(store: Store)
    ensures
        answered(load_plan(), store) == match store.config(CONFIG_STORAGE_KEY@) {
            None => Some((store, Ok::<Option<ConfigModel>, Seq<char>>(None))),
            Some(saved) => {
                let access = store.secret(ACCESS_TOKEN_SECRET_KEY@);
                let refresh = store.secret(REFRESH_TOKEN_SECRET_KEY@);
                let config = with_secrets(saved, access, refresh);
                if is_stray(access, saved.access_token) || is_stray(refresh, saved.refresh_token) {
                    Some((stored(config, store), Ok(Some(config))))
                } else {
                    Some((store, Ok(Some(config))))
                }
            },
        },
{
    let found = store.config(CONFIG_STORAGE_KEY@);
    let one = after_loading(Ok(found));
    assert(load_plan()->LoadConfig_1(Ok(found)) == one);
    assert(answered(load_plan(), store) == answered(one, store));
    if let Some(saved) = found {
        let access = store.secret(ACCESS_TOKEN_SECRET_KEY@);
        let refresh = store.secret(REFRESH_TOKEN_SECRET_KEY@);
        let config = with_secrets(saved, access, refresh);
        let two = after_access_secret(saved, Ok(access));
        let three = after_refresh_secret(saved, access, Ok(refresh));
        assert(one->ReadSecret_1(Ok(access)) == two);
        assert(answered(one, store) == answered(two, store));
        assert(two->ReadSecret_1(Ok(refresh)) == three);
        assert(answered(two, store) == answered(three, store));
        law_saving_stores(config, store);
        lemma_answered_in_sequence(persist_plan(config), migration_rest(config), store);
    }
}

/// What was saved is loaded again, tokens and all, and loading it changes
/// nothing.
pub proof fn law_loading_gives_back_what_was_saved(config: ConfigModel, store: Store)
    ensures
        answered(load_plan(), stored(config, store)) == Some(
            (stored(config, store), Ok::<Option<ConfigModel>, Seq<char>>(Some(config))),
        ),
{
    let after = stored(config, store);
    lemma_keys_differ();
    lemma_loading(after);
    let loaded = with_secrets(
        without_tokens(config),
        after.secret(ACCESS_TOKEN_SECRET_KEY@),
        after.secret(REFRESH_TOKEN_SECRET_KEY@),
    );
    assert(loaded.access_token =~= config.access_token);
    assert(loaded.refresh_token =~= config.refresh_token);
}

/// Loading twice is loading once: the second time gives the same configuration
/// and changes nothing.
pub proof fn law_loading_settles(store: Store)
    ensures
        answered(load_plan(), store) matches Some((after, loaded)) && answered(load_plan(), after)
            == Some((after, loaded)),
{
    lemma_loading(store);
    if let Some(saved) = store.config(CONFIG_STORAGE_KEY@) {
        let config = with_secrets(
            saved,
            store.secret(ACCESS_TOKEN_SECRET_KEY@),
            store.secret(REFRESH_TOKEN_SECRET_KEY@),
        );
        law_loading_gives_back_what_was_saved(config, store);
    }
}

/// A token that was saved with the configuration and not as a secret is kept as a
/// secret once the configuration was loaded, and is no longer saved with it.
pub proof fn law_loading_moves_stray_tokens(store: Store, saved: ConfigModel)
    requires
        store.config(CONFIG_STORAGE_KEY@) == Some(saved),
        is_stray(store.secret(ACCESS_TOKEN_SECRET_KEY@), saved.access_token) || is_stray(
            store.secret(REFRESH_TOKEN_SECRET_KEY@),
            saved.refresh_token,
        ),
    ensures
        answered(load_plan(), store) matches Some((after, Ok(Some(config)))) && {
            &&& after.config(CONFIG_STORAGE_KEY@) == Some(without_tokens(saved))
            &&& after.secret(ACCESS_TOKEN_SECRET_KEY@) == kept_secret(config.access_token)
            &&& after.secret(REFRESH_TOKEN_SECRET_KEY@) == kept_secret(config.refresh_token)
        },
{
    lemma_keys_differ();
    lemma_loading(store);
}

/// A configuration that was set is the current one, and a plugin that starts anew
/// starts with it.
pub proof fn law_set_configuration_is_kept(
    current: Option<ConfigModel>,
    incoming: ConfigModel,
    store: Store,
)
    ensures
        ({
            let config = merged(incoming, model_or_default(current));
            let after = stored(config, store);
            &&& answered(set_config_plan(current, incoming), store) == Some(
                (after, EndModel { config: Some(config), response: empty_response() }),
            )
            &&& answered(load_plan(), after) matches Some((_, loaded)) && started(None, loaded)
                == Some(config)
        }),
{
    let config = merged(incoming, model_or_default(current));
    let closing = ClosingModel {
        saved: Some(config),
        unsaved: current,
        response: empty_response(),
    };
    law_saving_stores(config, store);
    lemma_answered_in_sequence(persist_plan(config), closing_rest(closing), store);
    law_loading_gives_back_what_was_saved(config, store);
}

/// Once disconnected, no token is left anywhere: neither in the current
/// configuration, nor among the secrets, nor in the plugin storage.
pub proof fn law_disconnecting_leaves_no_token(current: Option<ConfigModel>, store: Store)
    ensures
        answered(disconnect_plan(current), store) matches Some((after, end)) && {
            &&& end.config == Some(without_tokens(model_or_default(current)))
            &&& end.response.success
            &&& after.secret(ACCESS_TOKEN_SECRET_KEY@) is None
            &&& after.secret(REFRESH_TOKEN_SECRET_KEY@) is None
            &&& after.config(CONFIG_STORAGE_KEY@) == Some(
                without_tokens(model_or_default(current)),
            )
        },
{
    let config = without_tokens(model_or_default(current));
    let closing = ClosingModel {
        saved: Some(config),
        unsaved: if current is Some {
            Some(config)
        } else {
            None
        },
        response: message_response("Disconnected from Google Drive."@),
    };
    lemma_keys_differ();
    law_saving_stores(config, store);
    lemma_answered_in_sequence(persist_plan(config), closing_rest(closing), store);
    assert(disconnect_plan(current) == saving_plan(config, closing));
    assert(without_tokens(config) == config);
}

// ---------------------------------------------------------------------------
// Loading
// ---------------------------------------------------------------------------

/// What is loaded is what was saved, with the tokens that are kept as secrets in
/// place of those that were saved with it. Where nothing was saved, nothing is loaded
/// and nothing changes.
pub proof fn law_loading_takes_the_secrets(store: Store, saved: ConfigModel)
    ensures
        store.config("gdrive_config"@) is None ==> answered(load_plan(), store) == Some(
            (store, Ok::<Option<ConfigModel>, Seq<char>>(None)),
        ),
        store.config("gdrive_config"@) == Some(saved) ==> (answered(load_plan(), store) matches Some(
            (after, Ok(Some(config))),
        ) && {
            &&& config.client_id == saved.client_id
            &&& config.client_secret == saved.client_secret
            &&& config.root_folder_id == saved.root_folder_id
            &&& store.secret("gdrive_access_token"@) matches Some(token) ==> config.access_token
                == token
            &&& store.secret("gdrive_access_token"@) is None ==> config.access_token
                == saved.access_token
            &&& store.secret("gdrive_refresh_token"@) matches Some(token) ==> config.refresh_token
                == token
            &&& store.secret("gdrive_refresh_token"@) is None ==> config.refresh_token
                == saved.refresh_token
            &&& (store.secret("gdrive_access_token"@) is Some || saved.access_token.len() == 0) && (
            store.secret("gdrive_refresh_token"@) is Some || saved.refresh_token.len() == 0)
                ==> after == store
        }),
{
    lemma_loading(store);
}

/// A token that was saved with the configuration, however short, and is not among the
/// secrets is moved there when the configuration is loaded, and neither token is saved
/// with it any more.
pub proof fn law_saved_tokens_become_secrets(store: Store, saved: ConfigModel)
    requires
        store.config("gdrive_config"@) == Some(saved),
        (store.secret("gdrive_access_token"@) is None && saved.access_token.len() > 0) || (
        store.secret("gdrive_refresh_token"@) is None && saved.refresh_token.len() > 0),
    ensures
        answered(load_plan(), store) matches Some((after, Ok(Some(config)))) && {
            &&& config.access_token.len() > 0 ==> after.secret("gdrive_access_token"@) == Some(
                config.access_token,
            )
            &&& config.refresh_token.len() > 0 ==> after.secret("gdrive_refresh_token"@) == Some(
                config.refresh_token,
            )
            &&& after.config("gdrive_config"@) matches Some(kept) && kept.access_token.len() == 0
                && kept.refresh_token.len() == 0 && kept.client_id == saved.client_id
                && kept.client_secret == saved.client_secret && kept.root_folder_id
                == saved.root_folder_id
        },
{
    lemma_keys_differ();
    lemma_loading(store);
}

/// The secrets are written first, the access token and then the refresh token, and
/// the configuration is saved last.
pub proof fn law_tokens_are_written_before_the_rest(config: ConfigModel)
    ensures
        persist_plan(config) matches Plan::WriteSecret(one, _, next) && one
            == "gdrive_access_token"@ && (next(Ok(())) matches Plan::WriteSecret(two, _, then) && two
            == "gdrive_refresh_token"@ && (then(Ok(())) matches Plan::SaveConfig(three, _, _)
            && three == "gdrive_config"@)),
{
    let plan = persist_plan(config);
    let one = after_access_token(config, Ok(()));
    assert(plan->WriteSecret_2(Ok(())) == one);
    assert(one->WriteSecret_2(Ok(())) == after_refresh_token(config, Ok(())));
}

/// The plugin starts with what was loaded; where nothing could be, it goes on with
/// what it had.
pub proof fn law_the_plugin_starts_with_what_was_loaded(
    current: Option<ConfigModel>,
    loaded: ConfigModel,
    problem: Seq<char>,
)
    ensures
        started(current, Ok(Some(loaded))) == Some(loaded),
        started(current, Ok(None)) == current,
        started(current, Err(problem)) == current,
{
}

// ---------------------------------------------------------------------------
// Saving
// ---------------------------------------------------------------------------

/// A saved configuration is in the store: each token as a secret where it is not
/// empty, and as none where it is, and the rest in the plugin storage. Nothing else
/// in the store changes.
pub proof fn law_saving_keeps_tokens_as_secrets(config: ConfigModel, store: Store)
    ensures
        answered(persist_plan(config), store) matches Some((after, done)) && {
            &&& done is Ok
            &&& config.access_token.len() > 0 ==> after.secret("gdrive_access_token"@) == Some(
                config.access_token,
            )
            &&& config.access_token.len() == 0 ==> after.secret("gdrive_access_token"@) is None
            &&& config.refresh_token.len() > 0 ==> after.secret("gdrive_refresh_token"@) == Some(
                config.refresh_token,
            )
            &&& config.refresh_token.len() == 0 ==> after.secret("gdrive_refresh_token"@) is None
            &&& after.config("gdrive_config"@) matches Some(saved) && saved.access_token.len() == 0
                && saved.refresh_token.len() == 0 && saved.client_id == config.client_id
                && saved.client_secret == config.client_secret && saved.root_folder_id
                == config.root_folder_id
            &&& forall|key: Seq<char>|
                key != "gdrive_access_token"@ && key != "gdrive_refresh_token"@
                    ==> #[trigger] after.secret(key) == store.secret(key)
            &&& forall|key: Seq<char>|
                key != "gdrive_config"@ ==> #[trigger] after.config(key) == store.config(key)
        },
{
    lemma_keys_differ();
    law_saving_stores(config, store);
}

/// New settings that are set are in use and are kept, each as it is given, whatever
/// else is given: a plugin that starts anew starts with them. What is not given stays.
pub proof fn law_given_settings_are_kept(
    current: Option<ConfigModel>,
    incoming: ConfigModel,
    store: Store,
)
    ensures
        answered(set_config_plan(current, incoming), store) matches Some((after, end)) && {
            &&& end.response.success
            &&& end.response.data is None
            &&& end.response.error is None
            &&& end.config matches Some(config) && {
                let before = model_or_default(current);
                &&& answered(load_plan(), after) == Some(
                    (after, Ok::<Option<ConfigModel>, Seq<char>>(Some(config))),
                )
                &&& incoming.access_token.len() > 0 ==> config.access_token
                    == incoming.access_token
                &&& incoming.access_token.len() == 0 ==> config.access_token == before.access_token
                &&& incoming.refresh_token.len() > 0 ==> config.refresh_token
                    == incoming.refresh_token
                &&& incoming.refresh_token.len() == 0 ==> config.refresh_token
                    == before.refresh_token
                &&& !is_blank(incoming.client_id) ==> config.client_id == incoming.client_id
                &&& is_blank(incoming.client_id) ==> config.client_id == before.client_id
                &&& config.client_secret == incoming.client_secret
                &&& !is_blank(incoming.root_folder_id) ==> config.root_folder_id
                    == incoming.root_folder_id
                &&& is_blank(incoming.root_folder_id) && !is_blank(before.root_folder_id)
                    ==> config.root_folder_id == before.root_folder_id
                &&& is_blank(incoming.root_folder_id) && is_blank(before.root_folder_id)
                    ==> config.root_folder_id == "root"@
            }
        },
{
    let config = merged(incoming, model_or_default(current));
    law_set_configuration_is_kept(current, incoming, store);
    law_loading_gives_back_what_was_saved(config, store);
    law_given_settings_are_taken(incoming, model_or_default(current));
}

/// What a plan does with a store that answers some questions and then fails once.
pub open spec fn faulted<R>(plan: Plan<R>, store: Store, n: nat, fault: Seq<char>) -> Option<
    (Store, R),
>
    decreases plan,
{
    match plan {
        Plan::WriteSecret(key, value, next) => if n == 0 {
            answered(next(Err(fault)), store)
        } else {
            faulted(next(Ok(())), store.with_secret(key, value), (n - 1) as nat, fault)
        },
        Plan::SaveConfig(key, config, next) => if n == 0 {
            answered(next(Err(fault)), store)
        } else {
            faulted(next(Ok(())), store.with_config(key, config), (n - 1) as nat, fault)
        },
        _ => None,
    }
}

proof fn lemma_faulted_saving<R>(
    config: ConfigModel,
    rest: spec_fn(Result<(), Seq<char>>) -> Plan<R>,
    store: Store,
    n: nat,
    fault: Seq<char>,
    result: R,
)
    requires
        n < 3,
        rest(Err(fault)) == Plan::Return(result),
    ensures
        faulted(bind(persist_plan(config), rest), store, n, fault) matches Some((_, end)) && end
            == result,
{
    reveal_with_fuel(faulted, 4);
    reveal_with_fuel(bind, 4);
    reveal_with_fuel(answered, 2);
    let saving = persist_plan(config);
    let one = after_access_token(config, Ok(()));
    let two = after_refresh_token(config, Ok(()));
    assert(saving->WriteSecret_2(Ok(())) == one);
    assert(saving->WriteSecret_2(Err(fault)) == after_access_token(config, Err(fault)));
    assert(one->WriteSecret_2(Ok(())) == two);
    assert(one->WriteSecret_2(Err(fault)) == after_refresh_token(config, Err(fault)));
    assert(two->SaveConfig_2(Err(fault)) == Plan::Return(Err::<(), Seq<char>>(fault)));
    let whole = bind(saving, rest);
    assert(whole->WriteSecret_2(Ok(())) == bind(one, rest));
    assert(whole->WriteSecret_2(Err(fault)) == bind(after_access_token(config, Err(fault)), rest));
    let left = bind(one, rest);
    assert(left->WriteSecret_2(Ok(())) == bind(two, rest));
    assert(left->WriteSecret_2(Err(fault)) == bind(after_refresh_token(config, Err(fault)), rest));
    let last = bind(two, rest);
    assert(last->SaveConfig_2(Err(fault)) == bind(Plan::Return(Err::<(), Seq<char>>(fault)), rest));
}

/// Whichever of its three questions fails, a saving that fails is told, with the
/// message of the host: settings that are set are not in use then, a new token and
/// cleared tokens are. Without a configuration there is none after a disconnect that
/// fails.
pub proof fn law_failed_saving_is_told(
    current: Option<ConfigModel>,
    incoming: ConfigModel,
    config: ConfigModel,
    response: ResponseModel,
    store: Store,
    n: nat,
    fault: Seq<char>,
)
    requires
        n < 3,
    ensures
        faulted(set_config_plan(current, incoming), store, n, fault) matches Some((_, end))
            && end.config == current && is_refused(end, fault),
        faulted(adopting_plan(config, response), store, n, fault) matches Some((_, end))
            && end.config == Some(config) && is_refused(end, fault),
        faulted(disconnect_plan(Some(config)), store, n, fault) matches Some((_, end))
            && end.config matches Some(left) && is_refused(end, fault) && left.access_token.len()
            == 0 && left.refresh_token.len() == 0 && left.client_id == config.client_id
            && left.client_secret == config.client_secret && left.root_folder_id
            == config.root_folder_id,
        faulted(disconnect_plan(None), store, n, fault) matches Some((_, end)) && end.config is None
            && is_refused(end, fault),
{
    let given = merged(incoming, model_or_default(current));
    let set = ClosingModel { saved: Some(given), unsaved: current, response: empty_response() };
    lemma_faulted_saving(given, closing_rest(set), store, n, fault, after_saving(set, Err(fault)));
    let kept = ClosingModel { saved: Some(config), unsaved: Some(config), response };
    lemma_faulted_saving(
        config,
        closing_rest(kept),
        store,
        n,
        fault,
        after_saving(kept, Err(fault)),
    );
    let told = message_response("Disconnected from Google Drive."@);
    let cleared = without_tokens(config);
    let gone = ClosingModel { saved: Some(cleared), unsaved: Some(cleared), response: told };
    lemma_faulted_saving(
        cleared,
        closing_rest(gone),
        store,
        n,
        fault,
        after_saving(gone, Err(fault)),
    );
    let fallback = without_tokens(default_model());
    let none = ClosingModel { saved: Some(fallback), unsaved: None, response: told };
    lemma_faulted_saving(
        fallback,
        closing_rest(none),
        store,
        n,
        fault,
        after_saving(none, Err(fault)),
    );
}

/// A disconnect clears both tokens, keeps everything else of the configuration, and
/// is answered with a message.
pub proof fn law_disconnecting_keeps_the_rest(
    current: Option<ConfigModel>,
    params: Json,
    store: Store,
)
    ensures
        dispatch_plan(current, "Disconnect"@, params) == disconnect_plan(current),
        answered(disconnect_plan(current), store) matches Some((after, end)) && {
            let before = model_or_default(current);
            &&& end.config matches Some(left) && left.access_token.len() == 0
                && left.refresh_token.len() == 0 && left.client_id == before.client_id
                && left.client_secret == before.client_secret && left.root_folder_id
                == before.root_folder_id && answered(load_plan(), after) == Some(
                (after, Ok::<Option<ConfigModel>, Seq<char>>(Some(left))),
            )
            &&& end.response.success
            &&& end.response.error is None
            &&& end.response.data == Some(
                Json::Record(
                    map!["message"@ => Json::Text("Disconnected from Google Drive."@)],
                ),
            )
        },
{
    law_commands_are_found_by_their_names(Command::Disconnect);
    let config = without_tokens(model_or_default(current));
    let closing = ClosingModel {
        saved: Some(config),
        unsaved: if current is Some {
            Some(config)
        } else {
            None
        },
        response: message_response("Disconnected from Google Drive."@),
    };
    law_saving_stores(config, store);
    lemma_answered_in_sequence(persist_plan(config), closing_rest(closing), store);
    assert(disconnect_plan(current) == saving_plan(config, closing));
    law_loading_gives_back_what_was_saved(config, store);
    lemma_one_entry("message"@, Json::Text("Disconnected from Google Drive."@));
    assert(Map::empty().insert("message"@, Json::Text("Disconnected from Google Drive."@)) =~= map![
        "message"@ => Json::Text("Disconnected from Google Drive."@)
    ]);
}

} // verus!
