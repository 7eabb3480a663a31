//! What becomes of the settings, and of a sign-in.
use crate::commands::{
    command_request, law_commands_are_found_by_their_names, oauth_params, Command, OperationModel,
    RequestModel,
};
use crate::config::{
    config_view, merged, model_or_default, optional_config, without_tokens, ConfigModel,
    GDriveConfig,
};
use crate::dispatch::{dispatch_plan, EndModel};
use crate::encoding::uri_encoded;
use crate::json::{member, record, text_member, Json};
use crate::json_laws::{
    is_under, law_members_are_read, lemma_one_entry, lemma_three_entries, lemma_two_entries,
    reached,
};
use crate::oauth::{chosen_client, consent_url, filled, sign_in, SCOPE};
use crate::plan::Plan;
use crate::text::{is_blank, trimmed};
use crate::wire::{
    law_cut_is_at_the_first_mark, law_encoded_values_are_read_back,
    law_parameters_are_read_in_order, pairs, plain_text, read_target,
};
use vstd::prelude::*;
use vstd::string::*;

verus! {

// ---------------------------------------------------------------------------
// Configurations
// ---------------------------------------------------------------------------

/// Every setting that is given is taken, whatever else is given or not: a token
/// that is not empty, a client and a root folder that are not blank, and the client
/// secret. A setting that is not given stays as it is; a root folder that is given
/// nowhere is "root".
pub proof fn law_given_settings_are_taken(incoming: ConfigModel, current: ConfigModel)
    ensures
        incoming.access_token.len() > 0 ==> merged(incoming, current).access_token
            == incoming.access_token,
        incoming.access_token.len() == 0 ==> merged(incoming, current).access_token
            == current.access_token,
        incoming.refresh_token.len() > 0 ==> merged(incoming, current).refresh_token
            == incoming.refresh_token,
        incoming.refresh_token.len() == 0 ==> merged(incoming, current).refresh_token
            == current.refresh_token,
        !is_blank(incoming.client_id) ==> merged(incoming, current).client_id
            == incoming.client_id,
        is_blank(incoming.client_id) ==> merged(incoming, current).client_id == current.client_id,
        merged(incoming, current).client_secret == incoming.client_secret,
        !is_blank(incoming.root_folder_id) ==> merged(incoming, current).root_folder_id
            == incoming.root_folder_id,
        is_blank(incoming.root_folder_id) && !is_blank(current.root_folder_id) ==> merged(
            incoming,
            current,
        ).root_folder_id == current.root_folder_id,
        is_blank(incoming.root_folder_id) && is_blank(current.root_folder_id) ==> merged(
            incoming,
            current,
        ).root_folder_id == "root"@,
{
}

/// A setting does not depend on the others: where two configurations that come in
/// agree in one setting, and the current ones do, so do the merged ones.
pub proof fn law_settings_are_independent(
    incoming: ConfigModel,
    current: ConfigModel,
    incoming_too: ConfigModel,
    current_too: ConfigModel,
)
    ensures
        incoming.access_token == incoming_too.access_token && current.access_token
            == current_too.access_token ==> merged(incoming, current).access_token == merged(
            incoming_too,
            current_too,
        ).access_token,
        incoming.refresh_token == incoming_too.refresh_token && current.refresh_token
            == current_too.refresh_token ==> merged(incoming, current).refresh_token == merged(
            incoming_too,
            current_too,
        ).refresh_token,
        incoming.client_id == incoming_too.client_id && current.client_id == current_too.client_id
            ==> merged(incoming, current).client_id == merged(incoming_too, current_too).client_id,
        incoming.client_secret == incoming_too.client_secret ==> merged(
            incoming,
            current,
        ).client_secret == merged(incoming_too, current_too).client_secret,
        incoming.root_folder_id == incoming_too.root_folder_id && current.root_folder_id
            == current_too.root_folder_id ==> merged(incoming, current).root_folder_id == merged(
            incoming_too,
            current_too,
        ).root_folder_id,
{
}

/// Without a configuration everything is empty but the root folder, which is "root";
/// a configuration that is there is used as it is.
pub proof fn law_the_configuration_in_use(config: ConfigModel)
    ensures
        model_or_default(Some(config)) == config,
        model_or_default(None).access_token.len() == 0,
        model_or_default(None).refresh_token.len() == 0,
        model_or_default(None).client_id.len() == 0,
        model_or_default(None).client_secret.len() == 0,
        model_or_default(None).root_folder_id == "root"@,
{
}

/// Clearing the tokens clears both of them and leaves everything else alone.
pub proof fn law_clearing_clears_only_the_tokens(config: ConfigModel)
    ensures
        without_tokens(config).access_token.len() == 0,
        without_tokens(config).refresh_token.len() == 0,
        without_tokens(config).client_id == config.client_id,
        without_tokens(config).client_secret == config.client_secret,
        without_tokens(config).root_folder_id == config.root_folder_id,
{
}

/// What a configuration says is what its fields hold.
pub proof fn law_configurations_say_what_they_hold(config: GDriveConfig)
    ensures
        config@.access_token == config.access_token@,
        config@.refresh_token == config.refresh_token@,
        config@.client_id == config.client_id@,
        config@.client_secret == config.client_secret@,
        config@.root_folder_id == config.root_folder_id@,
        optional_config(Some(config)) == Some(config@),
        optional_config(None) is None,
{
}

/// The settings are shown the client, the root folder, which is "root" where none is
/// set, and whether there is a refresh token, and nothing else.
pub proof fn law_settings_show_the_client_and_the_root(config: ConfigModel)
    ensures
        config_view(config) matches Json::Record(held) && {
            &&& is_under(config_view(config), "client_id"@, Json::Text(config.client_id))
            &&& config.root_folder_id.len() > 0 ==> is_under(
                config_view(config),
                "root_folder_id"@,
                Json::Text(config.root_folder_id),
            )
            &&& config.root_folder_id.len() == 0 ==> is_under(
                config_view(config),
                "root_folder_id"@,
                Json::Text("root"@),
            )
            &&& is_under(
                config_view(config),
                "connected"@,
                Json::Bool(config.refresh_token.len() > 0),
            )
            &&& forall|key: Seq<char>| #[trigger]
                held.contains_key(key) ==> key == "client_id"@ || key == "root_folder_id"@ || key
                    == "connected"@
        },
{
    reveal_strlit("client_id");
    reveal_strlit("root_folder_id");
    reveal_strlit("connected");
    assert("client_id"@.len() == 9 && "root_folder_id"@.len() == 14 && "connected"@.len() == 9);
    assert("client_id"@[1] != "connected"@[1]);
    lemma_three_entries(
        ("client_id"@, Json::Text(config.client_id)),
        (
            "root_folder_id"@,
            Json::Text(
                if config.root_folder_id.len() == 0 {
                    "root"@
                } else {
                    config.root_folder_id
                },
            ),
        ),
        ("connected"@, Json::Bool(config.refresh_token.len() > 0)),
    );
}

// ---------------------------------------------------------------------------
// Sign-in
// ---------------------------------------------------------------------------

/// The text is given, and not blank.
pub open spec fn is_given(params: Json, key: Seq<char>, text: Seq<char>) -> bool {
    is_under(params, key, Json::Text(text)) && !is_blank(text)
}

/// Nothing is given under the key, or a blank text, or no text.
pub open spec fn is_missing(params: Json, key: Seq<char>) -> bool {
    forall|text: Seq<char>| !(#[trigger] is_given(params, key, text))
}

proof fn lemma_given(params: Json, key: Seq<char>)
    ensures
        forall|text: Seq<char>| #[trigger]
            is_given(params, key, text) <==> filled(text_member(params, key)) == Some(
                text,
            ),
        is_missing(params, key) <==> filled(text_member(params, key)) is None,
{
    law_members_are_read(params, key);
    if let Some(text) = filled(text_member(params, key)) {
        assert(is_given(params, key, text));
    }
}

/// What the host is told at the start of a sign-in is to open a page, and to run
/// `CompleteOAuth` afterwards with the verifier that was given, whatever document
/// that is.
proof fn lemma_sign_in(url: Seq<char>, prefix: Seq<char>, verifier: Json)
    ensures
        ({
            let told = sign_in(url, prefix, verifier);
            &&& reached(told, seq!["host_action"@, "type"@]) == Some(Json::Text("open-oauth"@))
            &&& reached(told, seq!["host_action"@, "payload"@, "url"@]) == Some(Json::Text(url))
            &&& reached(told, seq!["host_action"@, "payload"@, "redirect_uri_prefix"@]) == Some(
                Json::Text(prefix),
            )
            &&& reached(told, seq!["follow_up"@, "command"@]) == Some(
                Json::Text("CompleteOAuth"@),
            )
            &&& reached(told, seq!["follow_up"@, "params"@]) == Some(
                Json::Record(map!["code_verifier"@ => verifier]),
            )
        }),
{
    reveal_strlit("host_action");
    reveal_strlit("follow_up");
    reveal_strlit("type");
    reveal_strlit("payload");
    reveal_strlit("url");
    reveal_strlit("redirect_uri_prefix");
    reveal_strlit("command");
    reveal_strlit("params");
    assert("host_action"@.len() != "follow_up"@.len());
    assert("type"@.len() != "payload"@.len());
    assert("url"@.len() != "redirect_uri_prefix"@.len());
    assert("command"@.len() != "params"@.len());
    let payload = record(
        seq![("url"@, Json::Text(url)), ("redirect_uri_prefix"@, Json::Text(prefix))],
    );
    let action = record(seq![("type"@, Json::Text("open-oauth"@)), ("payload"@, payload)]);
    let params = record(seq![("code_verifier"@, verifier)]);
    let follow = record(seq![("command"@, Json::Text("CompleteOAuth"@)), ("params"@, params)]);
    lemma_two_entries(("url"@, Json::Text(url)), ("redirect_uri_prefix"@, Json::Text(prefix)));
    lemma_two_entries(("type"@, Json::Text("open-oauth"@)), ("payload"@, payload));
    lemma_one_entry("code_verifier"@, verifier);
    lemma_two_entries(("command"@, Json::Text("CompleteOAuth"@)), ("params"@, params));
    lemma_two_entries(("host_action"@, action), ("follow_up"@, follow));
    assert(Map::empty().insert("code_verifier"@, verifier) =~= map!["code_verifier"@ => verifier]);
    reveal_with_fuel(reached, 4);
    let told = sign_in(url, prefix, verifier);
    assert(told == record(seq![("host_action"@, action), ("follow_up"@, follow)]));
    assert(seq!["host_action"@, "type"@].skip(1) =~= seq!["type"@]);
    assert(seq!["type"@].skip(1) =~= Seq::empty());
    assert(seq!["host_action"@, "payload"@, "url"@].skip(1) =~= seq!["payload"@, "url"@]);
    assert(seq!["payload"@, "url"@].skip(1) =~= seq!["url"@]);
    assert(seq!["url"@].skip(1) =~= Seq::empty());
    assert(seq!["host_action"@, "payload"@, "redirect_uri_prefix"@].skip(1) =~= seq![
        "payload"@,
        "redirect_uri_prefix"@,
    ]);
    assert(seq!["payload"@, "redirect_uri_prefix"@].skip(1) =~= seq!["redirect_uri_prefix"@]);
    assert(seq!["redirect_uri_prefix"@].skip(1) =~= Seq::empty());
    assert(seq!["follow_up"@, "command"@].skip(1) =~= seq!["command"@]);
    assert(seq!["command"@].skip(1) =~= Seq::empty());
    assert(seq!["follow_up"@, "params"@].skip(1) =~= seq!["params"@]);
    assert(seq!["params"@].skip(1) =~= Seq::empty());
}

/// The page where access is granted is Google's, and is asked for a code, with the
/// client, the redirect URI and the code challenge, whatever characters they hold.
pub proof fn law_consent_is_asked_for_the_client(
    client_id: Seq<char>,
    redirect_uri: Seq<char>,
    code_challenge: Seq<char>,
)
    ensures
        read_target(consent_url(client_id, redirect_uri, code_challenge)).place
            == "https://accounts.google.com/o/oauth2/v2/auth"@,
        ({
            let told = read_target(consent_url(client_id, redirect_uri, code_challenge)).parameters;
            &&& told.len() == 8
            &&& told[0].0 == "client_id"@ && plain_text(told[0].1) == client_id
            &&& told[1].0 == "redirect_uri"@ && plain_text(told[1].1) == redirect_uri
            &&& told[2] == ("response_type"@, "code"@)
            &&& told[3].0 == "scope"@ && plain_text(told[3].1)
                == "https://www.googleapis.com/auth/drive.file"@
            &&& told[4] == ("access_type"@, "offline"@)
            &&& told[5] == ("prompt"@, "consent"@)
            &&& told[6].0 == "code_challenge"@ && plain_text(told[6].1) == code_challenge
            &&& told[7] == ("code_challenge_method"@, "S256"@)
        }),
{
    let place = "https://accounts.google.com/o/oauth2/v2/auth"@;
    reveal_strlit("https://accounts.google.com/o/oauth2/v2/auth");
    reveal_strlit("https://accounts.google.com/o/oauth2/v2/auth?client_id=");
    reveal_strlit("client_id");
    reveal_strlit("&redirect_uri=");
    reveal_strlit("redirect_uri");
    reveal_strlit("&response_type=code&scope=");
    reveal_strlit("response_type");
    reveal_strlit("code");
    reveal_strlit("scope");
    reveal_strlit("&access_type=offline&prompt=consent&code_challenge=");
    reveal_strlit("access_type");
    reveal_strlit("offline");
    reveal_strlit("prompt");
    reveal_strlit("consent");
    reveal_strlit("code_challenge");
    reveal_strlit("&code_challenge_method=S256");
    reveal_strlit("code_challenge_method");
    reveal_strlit("S256");
    let client = uri_encoded(client_id);
    let redirect = uri_encoded(redirect_uri);
    let scope = uri_encoded(SCOPE@);
    let challenge = uri_encoded(code_challenge);
    law_encoded_values_are_read_back(client_id);
    law_encoded_values_are_read_back(redirect_uri);
    law_encoded_values_are_read_back(SCOPE@);
    law_encoded_values_are_read_back(code_challenge);
    let eight = "code_challenge_method"@ + seq!['='] + "S256"@;
    let seven = "code_challenge"@ + seq!['='] + challenge + seq!['&'] + eight;
    let six = "prompt"@ + seq!['='] + "consent"@ + seq!['&'] + seven;
    let five = "access_type"@ + seq!['='] + "offline"@ + seq!['&'] + six;
    let four = "scope"@ + seq!['='] + scope + seq!['&'] + five;
    let three = "response_type"@ + seq!['='] + "code"@ + seq!['&'] + four;
    let two = "redirect_uri"@ + seq!['='] + redirect + seq!['&'] + three;
    let one = "client_id"@ + seq!['='] + client + seq!['&'] + two;
    assert("https://accounts.google.com/o/oauth2/v2/auth?client_id="@ =~= place + seq!['?']
        + "client_id"@ + seq!['=']);
    assert("&redirect_uri="@ =~= seq!['&'] + "redirect_uri"@ + seq!['=']);
    assert("&response_type=code&scope="@ =~= seq!['&'] + "response_type"@ + seq!['='] + "code"@
        + seq!['&'] + "scope"@ + seq!['=']);
    assert("&access_type=offline&prompt=consent&code_challenge="@ =~= seq!['&'] + "access_type"@
        + seq!['='] + "offline"@ + seq!['&'] + "prompt"@ + seq!['='] + "consent"@ + seq!['&']
        + "code_challenge"@ + seq!['=']);
    assert("&code_challenge_method=S256"@ =~= seq!['&'] + eight);
    assert(consent_url(client_id, redirect_uri, code_challenge) =~= place + seq!['?'] + one);
    law_cut_is_at_the_first_mark(place, '?', one);
    law_parameters_are_read_in_order("code_challenge_method"@, "S256"@, Seq::empty());
    law_parameters_are_read_in_order("code_challenge"@, challenge, eight);
    law_parameters_are_read_in_order("prompt"@, "consent"@, seven);
    law_parameters_are_read_in_order("access_type"@, "offline"@, six);
    law_parameters_are_read_in_order("scope"@, scope, five);
    law_parameters_are_read_in_order("response_type"@, "code"@, four);
    law_parameters_are_read_in_order("redirect_uri"@, redirect, three);
    law_parameters_are_read_in_order("client_id"@, client, two);
    assert(pairs(one) =~= seq![
        ("client_id"@, client),
        ("redirect_uri"@, redirect),
        ("response_type"@, "code"@),
        ("scope"@, scope),
        ("access_type"@, "offline"@),
        ("prompt"@, "consent"@),
        ("code_challenge"@, challenge),
        ("code_challenge_method"@, "S256"@),
    ]);
}

/// The client to sign in with: the one given, trimmed, or else the configured one.
pub open spec fn is_client(params: Json, config: ConfigModel, client: Seq<char>) -> bool {
    ||| exists|given: Seq<char>|
        #[trigger] is_given(params, "client_id"@, given) && client == trimmed(given)
    ||| is_missing(params, "client_id"@) && !is_blank(config.client_id) && client
        == config.client_id
}

/// A sign-in begins where a client, a redirect URI and a code challenge are there,
/// and is then answered with the page to open, the prefix of the redirect to wait
/// for, and the command to follow, with the verifier as it was given: whatever
/// document it is, and null only where there is none. The configuration stays.
pub proof fn law_sign_in_begins(
    current: Option<ConfigModel>,
    params: Json,
    client: Seq<char>,
    redirect_uri: Seq<char>,
    code_challenge: Seq<char>,
)
    requires
        is_client(params, model_or_default(current), client),
        is_given(params, "redirect_uri"@, redirect_uri),
        is_given(params, "code_challenge"@, code_challenge),
    ensures
        dispatch_plan(current, "BeginOAuth"@, params) matches Plan::Return(end) && {
            &&& end.config == current
            &&& end.response.success
            &&& end.response.error is None
            &&& end.response.data matches Some(told) && {
                &&& reached(told, seq!["host_action"@, "type"@]) == Some(Json::Text("open-oauth"@))
                &&& reached(told, seq!["host_action"@, "payload"@, "url"@]) == Some(
                    Json::Text(consent_url(client, redirect_uri, code_challenge)),
                )
                &&& forall|prefix: Seq<char>|
                    #[trigger] is_given(params, "redirect_uri_prefix"@, prefix) ==> reached(
                        told,
                        seq!["host_action"@, "payload"@, "redirect_uri_prefix"@],
                    ) == Some(Json::Text(prefix))
                &&& is_missing(params, "redirect_uri_prefix"@) ==> reached(
                    told,
                    seq!["host_action"@, "payload"@, "redirect_uri_prefix"@],
                ) == Some(Json::Text(redirect_uri))
                &&& reached(told, seq!["follow_up"@, "command"@]) == Some(
                    Json::Text("CompleteOAuth"@),
                )
                &&& forall|verifier: Json|
                    #[trigger] is_under(params, "code_verifier"@, verifier) ==> reached(
                        told,
                        seq!["follow_up"@, "params"@],
                    ) == Some(Json::Record(map!["code_verifier"@ => verifier]))
                &&& (forall|verifier: Json|
                    !(#[trigger] is_under(params, "code_verifier"@, verifier))) ==> reached(
                    told,
                    seq!["follow_up"@, "params"@],
                ) == Some(Json::Record(map!["code_verifier"@ => Json::Null]))
            }
        },
{
    law_commands_are_found_by_their_names(Command::BeginOAuth);
    lemma_given(params, "client_id"@);
    lemma_given(params, "redirect_uri"@);
    lemma_given(params, "redirect_uri_prefix"@);
    lemma_given(params, "code_challenge"@);
    law_members_are_read(params, "code_verifier"@);
    let told = oauth_params(params);
    assert(filled(told.redirect_uri) == Some(redirect_uri));
    assert(filled(told.code_challenge) == Some(code_challenge));
    assert(chosen_client(told.client_id, model_or_default(current).client_id) == Some(client));
    let prefix = match filled(told.redirect_uri_prefix) {
        Some(prefix) => prefix,
        None => redirect_uri,
    };
    lemma_sign_in(consent_url(client, redirect_uri, code_challenge), prefix, told.code_verifier);
    if let Some(verifier) = member(params, "code_verifier"@) {
        assert(is_under(params, "code_verifier"@, verifier));
    }
}

/// A sign-in without a client, a redirect URI or a code challenge is refused, with
/// the first of them that is missing told.
pub proof fn law_sign_in_is_refused(current: Option<ConfigModel>, params: Json)
    ensures
        dispatch_plan(current, "BeginOAuth"@, params) matches Plan::Return(end) && end.config
            == current && {
            let no_client = is_missing(params, "client_id"@) && is_blank(
                model_or_default(current).client_id,
            );
            &&& no_client ==> is_refused(
                end,
                "Google Drive OAuth is not configured for this build. Set a host-managed client ID."@,
            )
            &&& !no_client && is_missing(params, "redirect_uri"@) ==> is_refused(
                end,
                "Missing 'redirect_uri' parameter"@,
            )
            &&& !no_client && !is_missing(params, "redirect_uri"@) && is_missing(
                params,
                "code_challenge"@,
            ) ==> is_refused(end, "Missing 'code_challenge' parameter"@)
        },
{
    law_commands_are_found_by_their_names(Command::BeginOAuth);
    lemma_given(params, "client_id"@);
    lemma_given(params, "redirect_uri"@);
    lemma_given(params, "code_challenge"@);
    reveal_strlit("Missing '");
    reveal_strlit("' parameter");
    reveal_strlit("redirect_uri");
    reveal_strlit("code_challenge");
    reveal_strlit("Missing 'redirect_uri' parameter");
    reveal_strlit("Missing 'code_challenge' parameter");
    assert("Missing '"@ + "redirect_uri"@ + "' parameter"@ =~= "Missing 'redirect_uri' parameter"@);
    assert("Missing '"@ + "code_challenge"@ + "' parameter"@
        =~= "Missing 'code_challenge' parameter"@);
}

/// The command has failed, with a message and nothing else.
pub open spec fn is_refused(end: EndModel, message: Seq<char>) -> bool {
    !end.response.success && end.response.data is None && end.response.error == Some(message)
}

/// The command that follows a sign-in is accepted: with the verifier that was handed
/// on to it, where that is a text that is not blank, with a code and a redirect URI,
/// it asks for the exchange of just these.
pub proof fn law_the_follow_up_is_accepted(
    follow_up: Command,
    params: Json,
    code: Seq<char>,
    redirect_uri: Seq<char>,
    code_verifier: Seq<char>,
)
    requires
        follow_up == Command::CompleteOAuth || follow_up == Command::ExchangeToken,
        is_under(params, "code"@, Json::Text(code)),
        is_under(params, "redirect_uri"@, Json::Text(redirect_uri)),
        is_given(params, "code_verifier"@, code_verifier),
    ensures
        command_request(follow_up, params) == Ok::<RequestModel, Seq<char>>(
            RequestModel::Operation(
                OperationModel::ExchangeToken { code, redirect_uri, code_verifier },
            ),
        ),
{
    law_members_are_read(params, "code"@);
    law_members_are_read(params, "redirect_uri"@);
    law_members_are_read(params, "code_verifier"@);
}

} // verus!
