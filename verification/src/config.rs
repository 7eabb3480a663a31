//! The plugin's configuration.
use crate::http::header_models;
use crate::json::{bool_value, entry_models, json_model, object_value, record, text_value, Json};
use crate::text::{blank, is_blank};
use serde_json::Value;
use vstd::prelude::*;
use vstd::string::*;

verus! {

/// Google Drive configuration.
#[derive(Debug, PartialEq, Eq)]
pub struct GDriveConfig {
    pub access_token: String,
    pub refresh_token: String,
    pub client_id: String,
    pub client_secret: String,
    /// Root folder ID in Google Drive (defaults to "root").
    pub root_folder_id: String,
}

/// What a configuration says.
pub struct ConfigModel {
    pub access_token: Seq<char>,
    pub refresh_token: Seq<char>,
    pub client_id: Seq<char>,
    pub client_secret: Seq<char>,
    pub root_folder_id: Seq<char>,
}

impl View for GDriveConfig {
    type V = ConfigModel;

    open spec fn view(&self) -> ConfigModel {
        ConfigModel {
            access_token: self.access_token@,
            refresh_token: self.refresh_token@,
            client_id: self.client_id@,
            client_secret: self.client_secret@,
            root_folder_id: self.root_folder_id@,
        }
    }
}

impl Clone for GDriveConfig {
    fn clone(&self) -> (copy: Self)
        ensures
            copy@ == self@,
    {
        GDriveConfig {
            access_token: self.access_token.clone(),
            refresh_token: self.refresh_token.clone(),
            client_id: self.client_id.clone(),
            client_secret: self.client_secret.clone(),
            root_folder_id: self.root_folder_id.clone(),
        }
    }
}

/// The configuration with nothing in it.
pub open spec fn empty_model() -> ConfigModel {
    ConfigModel {
        access_token: Seq::empty(),
        refresh_token: Seq::empty(),
        client_id: Seq::empty(),
        client_secret: Seq::empty(),
        root_folder_id: Seq::empty(),
    }
}

impl Default for GDriveConfig {
    fn default() -> (config: Self)
        ensures
            config@ == empty_model(),
    {
        GDriveConfig {
            access_token: String::new(),
            refresh_token: String::new(),
            client_id: String::new(),
            client_secret: String::new(),
            root_folder_id: String::new(),
        }
    }
}

/// The root folder of a configuration that names none.
pub fn default_root() -> (folder: String)
    ensures
        folder@ == "root"@,
{
    "root".to_string()
}

/// The configuration before one is set: everything empty, but the root folder.
pub open spec fn default_model() -> ConfigModel {
    ConfigModel { root_folder_id: "root"@, ..empty_model() }
}

/// The configuration before one is set.
pub fn default_config() -> (config: GDriveConfig)
    ensures
        config@ == default_model(),
{
    GDriveConfig { root_folder_id: default_root(), ..GDriveConfig::default() }
}

/// What an optional configuration says.
pub open spec fn optional_config(config: Option<GDriveConfig>) -> Option<ConfigModel> {
    match config {
        Some(inner) => Some(inner@),
        None => None,
    }
}

/// A configuration, or the default one where there is none.
pub open spec fn model_or_default(config: Option<ConfigModel>) -> ConfigModel {
    match config {
        Some(inner) => inner,
        None => default_model(),
    }
}

/// The current configuration, or the default one where there is none.
pub fn config_or_default(config: &Option<GDriveConfig>) -> (chosen: GDriveConfig)
    ensures
        chosen@ == model_or_default(optional_config(*config)),
{
    match config {
        Some(inner) => inner.clone(),
        None => default_config(),
    }
}

/// The headers that carry the access token.
pub open spec fn bearer_headers(config: ConfigModel) -> Seq<(Seq<char>, Seq<char>)> {
    seq![("Authorization"@, "Bearer "@ + config.access_token)]
}

impl GDriveConfig {
    /// The headers that carry the access token.
    pub fn auth_headers(&self) -> (headers: Vec<(String, String)>)
        ensures
            header_models(headers@) == bearer_headers(self@),
    {
        let mut headers: Vec<(String, String)> = Vec::new();
        headers.push(
            (
                "Authorization".to_string(),
                "Bearer ".to_string().concat(self.access_token.as_str()),
            ),
        );
        assert(header_models(headers@) =~= bearer_headers(self@));
        headers
    }

    /// A copy with both tokens cleared.
    pub fn without_tokens(&self) -> (bare: GDriveConfig)
        ensures
            bare@ == without_tokens(self@),
    {
        GDriveConfig {
            access_token: String::new(),
            refresh_token: String::new(),
            ..self.clone()
        }
    }
}

/// The configuration with both tokens cleared.
pub open spec fn without_tokens(config: ConfigModel) -> ConfigModel {
    ConfigModel { access_token: Seq::empty(), refresh_token: Seq::empty(), ..config }
}

/// An incoming configuration completed from the current one: tokens that are
/// empty, and a client and a root folder that are blank, are taken over. The
/// root folder is "root" where both are blank.
pub open spec fn merged(incoming: ConfigModel, current: ConfigModel) -> ConfigModel {
    ConfigModel {
        access_token: if incoming.access_token.len() == 0 {
            current.access_token
        } else {
            incoming.access_token
        },
        refresh_token: if incoming.refresh_token.len() == 0 {
            current.refresh_token
        } else {
            incoming.refresh_token
        },
        client_id: if is_blank(incoming.client_id) {
            current.client_id
        } else {
            incoming.client_id
        },
        client_secret: incoming.client_secret,
        root_folder_id: if !is_blank(incoming.root_folder_id) {
            incoming.root_folder_id
        } else if is_blank(current.root_folder_id) {
            "root"@
        } else {
            current.root_folder_id
        },
    }
}

/// Completes an incoming configuration from the current one.
pub fn merge_with_current_config(incoming: GDriveConfig, current: &Option<GDriveConfig>) -> (config:
    GDriveConfig)
    ensures
        config@ == merged(incoming@, model_or_default(optional_config(*current))),
{
    let mut config = incoming;
    let current = config_or_default(current);
    if config.access_token.as_str().is_empty() {
        config.access_token = current.access_token;
    }
    if config.refresh_token.as_str().is_empty() {
        config.refresh_token = current.refresh_token;
    }
    if blank(config.client_id.as_str()) {
        config.client_id = current.client_id;
    }
    if blank(config.root_folder_id.as_str()) {
        config.root_folder_id = if blank(current.root_folder_id.as_str()) {
            default_root()
        } else {
            current.root_folder_id
        };
    }
    config
}

/// What the settings show of a configuration: the client, the root folder, and
/// whether there is a refresh token.
pub open spec fn config_view(config: ConfigModel) -> Json {
    record(
        seq![
            ("client_id"@, Json::Text(config.client_id)),
            (
                "root_folder_id"@,
                Json::Text(
                    if config.root_folder_id.len() == 0 {
                        "root"@
                    } else {
                        config.root_folder_id
                    },
                ),
            ),
            ("connected"@, Json::Bool(config.refresh_token.len() > 0)),
        ],
    )
}

/// Shows what the settings may see of a configuration.
pub fn view_config(config: &GDriveConfig) -> (shown: Value)
    ensures
        json_model(shown) == config_view(config@),
{
    let root: &str = if config.root_folder_id.as_str().is_empty() {
        "root"
    } else {
        config.root_folder_id.as_str()
    };
    let entries: Vec<(&'static str, Value)> = vec![
        ("client_id", text_value(config.client_id.as_str())),
        ("root_folder_id", text_value(root)),
        ("connected", bool_value(!config.refresh_token.as_str().is_empty())),
    ];
    assert(config_view(config@) == record(entry_models(entries@))) by {
        assert(entry_models(entries@) =~= seq![
            ("client_id"@, Json::Text(config.client_id@)),
            ("root_folder_id"@, Json::Text(root@)),
            ("connected"@, Json::Bool(config.refresh_token@.len() > 0)),
        ]);
    }
    object_value(entries)
}

// ---------------------------------------------------------------------------
// Laws
// ---------------------------------------------------------------------------

/// A merged configuration names a root folder that is not blank.
pub proof fn law_merged_root_is_not_blank(incoming: ConfigModel, current: ConfigModel)
    ensures
        !is_blank(merged(incoming, current).root_folder_id),
{
    reveal_strlit("root");
    assert("root"@[0] == 'r');
}

/// Merging with the same configuration once more changes nothing.
pub proof fn law_merge_is_idempotent(incoming: ConfigModel, current: ConfigModel)
    ensures
        merged(merged(incoming, current), current) == merged(incoming, current),
{
    law_merged_root_is_not_blank(incoming, current);
}

/// The settings see nothing of a token, nor of the client secret: of two
/// configurations with the same client and root folder, both connected or both
/// not, they are shown the same.
pub proof fn law_view_hides_secrets(a: ConfigModel, b: ConfigModel)
    requires
        a.client_id == b.client_id,
        a.root_folder_id == b.root_folder_id,
        (a.refresh_token.len() == 0) == (b.refresh_token.len() == 0),
    ensures
        config_view(a) == config_view(b),
{
}

} // verus!
