//! The plugin's manifest: what it is, what it asks for and what it offers.
use crate::commands::{all_commands, command_list, command_names, Command};
use crate::json::{
    entry_models, json_model, list_value, models, object_value, record, text_value, Json,
};
use crate::text::texts;
use serde_json::Value;
use vstd::prelude::*;
use vstd::string::*;

verus! {

/// The plugin's id.
pub const PLUGIN_ID: &'static str = "diaryx.storage.gdrive";

/// What the plugin tells the host of itself.
pub struct Manifest {
    pub id: String,
    pub name: String,
    pub version: String,
    pub description: String,
    pub capabilities: Vec<String>,
    /// The permissions asked for.
    pub permissions: Value,
    /// Why each of the permissions is asked for.
    pub reasons: Vec<(String, String)>,
    /// What the plugin adds to the user interface.
    pub ui: Vec<Value>,
    /// The names of the commands.
    pub commands: Vec<String>,
}

/// What a manifest says.
pub struct ManifestModel {
    pub id: Seq<char>,
    pub name: Seq<char>,
    pub version: Seq<char>,
    pub description: Seq<char>,
    pub capabilities: Seq<Seq<char>>,
    pub permissions: Json,
    pub reasons: Seq<(Seq<char>, Seq<char>)>,
    pub ui: Seq<Json>,
    pub commands: Seq<Seq<char>>,
}

impl View for Manifest {
    type V = ManifestModel;

    open spec fn view(&self) -> ManifestModel {
        ManifestModel {
            id: self.id@,
            name: self.name@,
            version: self.version@,
            description: self.description@,
            capabilities: texts(self.capabilities@),
            permissions: json_model(self.permissions),
            reasons: self.reasons@.map_values(|reason: (String, String)| (reason.0@, reason.1@)),
            ui: models(self.ui@),
            commands: texts(self.commands@),
        }
    }
}

// ---------------------------------------------------------------------------
// Permissions
// ---------------------------------------------------------------------------

/// A permission for one scope, without exceptions.
pub open spec fn scoped(scope: Seq<char>) -> Json {
    record(
        seq![
            ("include"@, Json::List(seq![Json::Text(scope)])),
            ("exclude"@, Json::List(Seq::empty())),
        ],
    )
}

fn scoped_value(scope: &str) -> (value: Value)
    ensures
        json_model(value) == scoped(scope@),
{
    let included: Vec<Value> = vec![text_value(scope)];
    let excluded: Vec<Value> = Vec::new();
    assert(models(included@) =~= seq![Json::Text(scope@)]);
    assert(models(excluded@) =~= Seq::empty());
    let entries: Vec<(&'static str, Value)> = vec![
        ("include", list_value(included)),
        ("exclude", list_value(excluded)),
    ];
    assert(entry_models(entries@) =~= seq![
        ("include"@, Json::List(seq![Json::Text(scope@)])),
        ("exclude"@, Json::List(Seq::empty())),
    ]);
    object_value(entries)
}

/// The permissions asked for: requests to Google, and the plugin storage.
pub open spec fn permissions() -> Json {
    record(
        seq![
            ("http_requests"@, scoped("googleapis.com"@)),
            ("plugin_storage"@, scoped("all"@)),
        ],
    )
}

fn permissions_value() -> (value: Value)
    ensures
        json_model(value) == permissions(),
{
    let entries: Vec<(&'static str, Value)> = vec![
        ("http_requests", scoped_value("googleapis.com")),
        ("plugin_storage", scoped_value("all")),
    ];
    assert(entry_models(entries@) =~= seq![
        ("http_requests"@, scoped("googleapis.com"@)),
        ("plugin_storage"@, scoped("all"@)),
    ]);
    object_value(entries)
}

// ---------------------------------------------------------------------------
// User interface
// ---------------------------------------------------------------------------

/// The entry of the storage provider.
pub open spec fn provider() -> Json {
    record(
        seq![
            ("slot"@, Json::Text("StorageProvider"@)),
            ("id"@, Json::Text(PLUGIN_ID@)),
            ("label"@, Json::Text("Google Drive"@)),
            ("icon"@, Json::Text("cloud"@)),
            ("description"@, Json::Text("Store files in Google Drive"@)),
        ],
    )
}

fn provider_value() -> (value: Value)
    ensures
        json_model(value) == provider(),
{
    let entries: Vec<(&'static str, Value)> = vec![
        ("slot", text_value("StorageProvider")),
        ("id", text_value(PLUGIN_ID)),
        ("label", text_value("Google Drive")),
        ("icon", text_value("cloud")),
        ("description", text_value("Store files in Google Drive")),
    ];
    assert(entry_models(entries@) =~= seq![
        ("slot"@, Json::Text("StorageProvider"@)),
        ("id"@, Json::Text(PLUGIN_ID@)),
        ("label"@, Json::Text("Google Drive"@)),
        ("icon"@, Json::Text("cloud"@)),
        ("description"@, Json::Text("Store files in Google Drive"@)),
    ]);
    object_value(entries)
}

/// A section of the settings.
pub open spec fn section(label: Seq<char>, description: Seq<char>) -> Json {
    record(
        seq![
            ("type"@, Json::Text("Section"@)),
            ("label"@, Json::Text(label)),
            ("description"@, Json::Text(description)),
        ],
    )
}

fn section_value(label: &str, description: &str) -> (value: Value)
    ensures
        json_model(value) == section(label@, description@),
{
    let entries: Vec<(&'static str, Value)> = vec![
        ("type", text_value("Section")),
        ("label", text_value(label)),
        ("description", text_value(description)),
    ];
    assert(entry_models(entries@) =~= seq![
        ("type"@, Json::Text("Section"@)),
        ("label"@, Json::Text(label@)),
        ("description"@, Json::Text(description@)),
    ]);
    object_value(entries)
}

/// A button of the settings that runs a command.
pub open spec fn button(label: Seq<char>, command: Command) -> Json {
    record(
        seq![
            ("type"@, Json::Text("Button"@)),
            ("label"@, Json::Text(label)),
            ("command"@, Json::Text(command.model())),
        ],
    )
}

fn button_value(label: &str, command: Command) -> (value: Value)
    ensures
        json_model(value) == button(label@, command),
{
    let entries: Vec<(&'static str, Value)> = vec![
        ("type", text_value("Button")),
        ("label", text_value(label)),
        ("command", text_value(command.name())),
    ];
    assert(entry_models(entries@) =~= seq![
        ("type"@, Json::Text("Button"@)),
        ("label"@, Json::Text(label@)),
        ("command"@, Json::Text(command.model())),
    ]);
    object_value(entries)
}

/// A button of some look that runs a command.
pub open spec fn styled_button(label: Seq<char>, command: Command, variant: Seq<char>) -> Json {
    record(
        seq![
            ("type"@, Json::Text("Button"@)),
            ("label"@, Json::Text(label)),
            ("command"@, Json::Text(command.model())),
            ("variant"@, Json::Text(variant)),
        ],
    )
}

fn styled_button_value(label: &str, command: Command, variant: &str) -> (value: Value)
    ensures
        json_model(value) == styled_button(label@, command, variant@),
{
    let entries: Vec<(&'static str, Value)> = vec![
        ("type", text_value("Button")),
        ("label", text_value(label)),
        ("command", text_value(command.name())),
        ("variant", text_value(variant)),
    ];
    assert(entry_models(entries@) =~= seq![
        ("type"@, Json::Text("Button"@)),
        ("label"@, Json::Text(label@)),
        ("command"@, Json::Text(command.model())),
        ("variant"@, Json::Text(variant@)),
    ]);
    object_value(entries)
}

/// The field for the root folder.
pub open spec fn root_field() -> Json {
    record(
        seq![
            ("type"@, Json::Text("Text"@)),
            ("key"@, Json::Text("root_folder_id"@)),
            ("label"@, Json::Text("Root Folder ID"@)),
            ("placeholder"@, Json::Text("root"@)),
        ],
    )
}

fn root_field_value() -> (value: Value)
    ensures
        json_model(value) == root_field(),
{
    let entries: Vec<(&'static str, Value)> = vec![
        ("type", text_value("Text")),
        ("key", text_value("root_folder_id")),
        ("label", text_value("Root Folder ID")),
        ("placeholder", text_value("root")),
    ];
    assert(entry_models(entries@) =~= seq![
        ("type"@, Json::Text("Text"@)),
        ("key"@, Json::Text("root_folder_id"@)),
        ("label"@, Json::Text("Root Folder ID"@)),
        ("placeholder"@, Json::Text("root"@)),
    ]);
    object_value(entries)
}

/// What is said of the connection.
pub const CONNECTION_NOTE: &'static str =
    "Uses a host-managed Google OAuth client with PKCE. No client secret is required in plugin settings.";

/// What is said of the root folder.
pub const ROOT_NOTE: &'static str =
    "Google Drive folder ID to use as the workspace root. Use \"root\" for top-level Drive.";

/// The fields of the settings.
pub open spec fn fields() -> Seq<Json> {
    seq![
        section("Connection"@, CONNECTION_NOTE@),
        button("Connect Google Drive"@, Command::BeginOAuth),
        styled_button("Refresh Access Token"@, Command::RefreshToken, "outline"@),
        styled_button("Disconnect"@, Command::Disconnect, "destructive"@),
        section("Storage Root"@, ROOT_NOTE@),
        root_field(),
    ]
}

fn field_values() -> (values: Vec<Value>)
    ensures
        models(values@) == fields(),
{
    let values: Vec<Value> = vec![
        section_value("Connection", CONNECTION_NOTE),
        button_value("Connect Google Drive", Command::BeginOAuth),
        styled_button_value("Refresh Access Token", Command::RefreshToken, "outline"),
        styled_button_value("Disconnect", Command::Disconnect, "destructive"),
        section_value("Storage Root", ROOT_NOTE),
        root_field_value(),
    ];
    assert(models(values@) =~= fields());
    values
}

/// The tab of the settings.
pub open spec fn settings() -> Json {
    record(
        seq![
            ("slot"@, Json::Text("SettingsTab"@)),
            ("id"@, Json::Text("gdrive-storage-settings"@)),
            ("label"@, Json::Text("Google Drive"@)),
            ("icon"@, Json::Text("cloud"@)),
            ("fields"@, Json::List(fields())),
        ],
    )
}

fn settings_value() -> (value: Value)
    ensures
        json_model(value) == settings(),
{
    let entries: Vec<(&'static str, Value)> = vec![
        ("slot", text_value("SettingsTab")),
        ("id", text_value("gdrive-storage-settings")),
        ("label", text_value("Google Drive")),
        ("icon", text_value("cloud")),
        ("fields", list_value(field_values())),
    ];
    assert(entry_models(entries@) =~= seq![
        ("slot"@, Json::Text("SettingsTab"@)),
        ("id"@, Json::Text("gdrive-storage-settings"@)),
        ("label"@, Json::Text("Google Drive"@)),
        ("icon"@, Json::Text("cloud"@)),
        ("fields"@, Json::List(fields())),
    ]);
    object_value(entries)
}

// ---------------------------------------------------------------------------
// The manifest
// ---------------------------------------------------------------------------

/// Why requests are sent.
pub const HTTP_REASON: &'static str =
    "Communicate with Google Drive and Google OAuth API endpoints.";

/// Why the plugin storage is used.
pub const STORAGE_REASON: &'static str =
    "Persist Google Drive settings and cached workspace metadata.";

/// What the plugin tells the host of itself, in some version.
pub open spec fn manifest_model(version: Seq<char>) -> ManifestModel {
    ManifestModel {
        id: PLUGIN_ID@,
        name: "Google Drive Storage"@,
        version,
        description: "Google Drive as a filesystem backend"@,
        capabilities: seq!["custom_commands"@],
        permissions: permissions(),
        reasons: seq![("http_requests"@, HTTP_REASON@), ("plugin_storage"@, STORAGE_REASON@)],
        ui: seq![provider(), settings()],
        commands: command_names(all_commands()),
    }
}

fn names_of_commands() -> (names: Vec<String>)
    ensures
        texts(names@) == command_names(all_commands()),
{
    let commands = command_list();
    let mut names: Vec<String> = Vec::new();
    let mut i: usize = 0;
    while i < commands.len()
        invariant
            commands@ == all_commands(),
            i <= commands@.len(),
            names@.len() == i,
            forall|k: int| 0 <= k < i ==> (#[trigger] names@[k])@ == commands@[k].model(),
        decreases commands.len() - i,
    {
        let command: Command = commands[i];
        names.push(command.name().to_string());
        i = i + 1;
    }
    assert(texts(names@) =~= command_names(all_commands()));
    names
}

/// What the plugin tells the host of itself, in some version.
pub fn manifest(version: &str) -> (manifest: Manifest)
    ensures
        manifest@ == manifest_model(version@),
{
    let capabilities: Vec<String> = vec!["custom_commands".to_string()];
    let reasons: Vec<(String, String)> = vec![
        ("http_requests".to_string(), HTTP_REASON.to_string()),
        ("plugin_storage".to_string(), STORAGE_REASON.to_string()),
    ];
    let ui: Vec<Value> = vec![provider_value(), settings_value()];
    let manifest = Manifest {
        id: PLUGIN_ID.to_string(),
        name: "Google Drive Storage".to_string(),
        version: version.to_owned(),
        description: "Google Drive as a filesystem backend".to_string(),
        capabilities,
        permissions: permissions_value(),
        reasons,
        ui,
        commands: names_of_commands(),
    };
    proof {
        assert(manifest@.capabilities =~= manifest_model(version@).capabilities);
        assert(manifest@.reasons =~= manifest_model(version@).reasons);
        assert(manifest@.ui =~= manifest_model(version@).ui);
    }
    manifest
}

} // verus!
