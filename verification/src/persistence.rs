//! Saving the configuration and loading it again.
//!
//! The tokens are kept as secrets; everything else is saved in the plugin
//! storage, with the tokens cleared.
use crate::config::{optional_config, without_tokens, ConfigModel, GDriveConfig};
use crate::drive_replies::{optional_text_result, unit_result};
use crate::json::optional_text;
use crate::plan::{bind, Plan};
use vstd::prelude::*;
use vstd::string::*;

verus! {

/// The secret that holds the access token.
pub const ACCESS_TOKEN_SECRET_KEY: &'static str = "gdrive_access_token";

/// The secret that holds the refresh token.
pub const REFRESH_TOKEN_SECRET_KEY: &'static str = "gdrive_refresh_token";

/// The storage key of the saved configuration.
pub const CONFIG_STORAGE_KEY: &'static str = "gdrive_config";

// ---------------------------------------------------------------------------
// Saving
// ---------------------------------------------------------------------------

/// What came of writing something.
pub type Written = Result<(), Seq<char>>;

/// What becomes of the secret of a token: an empty token is not kept.
pub open spec fn kept_secret(token: Seq<char>) -> Option<Seq<char>> {
    if token.len() == 0 {
        None
    } else {
        Some(token)
    }
}

/// Saves a configuration.
pub open spec fn persist_plan(config: ConfigModel) -> Plan<Written> {
    Plan::WriteSecret(
        ACCESS_TOKEN_SECRET_KEY@,
        kept_secret(config.access_token),
        |done: Written| after_access_token(config, done),
    )
}

/// Goes on once the access token was written.
pub open spec fn after_access_token(config: ConfigModel, done: Written) -> Plan<Written> {
    match done {
        Err(message) => Plan::Return(Err(message)),
        Ok(_) => Plan::WriteSecret(
            REFRESH_TOKEN_SECRET_KEY@,
            kept_secret(config.refresh_token),
            |done: Written| after_refresh_token(config, done),
        ),
    }
}

/// Goes on once the refresh token was written.
pub open spec fn after_refresh_token(config: ConfigModel, done: Written) -> Plan<Written> {
    match done {
        Err(message) => Plan::Return(Err(message)),
        Ok(_) => Plan::SaveConfig(
            CONFIG_STORAGE_KEY@,
            without_tokens(config),
            |done: Written| Plan::Return(done),
        ),
    }
}

/// The saving of a configuration that waits for a secret to be written.
pub enum WriteTask {
    AccessToken(GDriveConfig),
    RefreshToken(GDriveConfig),
}

impl WriteTask {
    /// What is left to do, given what came of writing the secret.
    pub open spec fn after(self, done: Written) -> Plan<Written> {
        match self {
            WriteTask::AccessToken(config) => after_access_token(config@, done),
            WriteTask::RefreshToken(config) => after_refresh_token(config@, done),
        }
    }
}

/// The saving of a configuration that waits for the plugin storage.
pub struct SaveTask;

impl SaveTask {
    /// What is left to do, given what came of saving the configuration.
    pub open spec fn after(self, done: Written) -> Plan<Written> {
        Plan::Return(done)
    }
}

/// A step of saving a configuration.
pub enum SaveStep {
    /// A secret is to be written, or deleted where there is no value.
    WriteSecret(&'static str, Option<String>, WriteTask),
    /// A configuration is to be saved in the plugin storage, under a key.
    SaveConfig(&'static str, GDriveConfig, SaveTask),
    /// The saving has ended.
    Done(Result<(), String>),
}

impl SaveStep {
    /// The step does what the plan says.
    pub open spec fn follows(self, plan: Plan<Written>) -> bool {
        match (self, plan) {
            (SaveStep::WriteSecret(key, value, task), Plan::WriteSecret(asked, kept, next)) => {
                &&& key@ == asked
                &&& optional_text(value) == kept
                &&& forall|done: Written| #[trigger] task.after(done) == next(done)
            },
            (SaveStep::SaveConfig(key, config, task), Plan::SaveConfig(asked, saved, next)) => {
                &&& key@ == asked
                &&& config@ == saved
                &&& forall|done: Written| #[trigger] task.after(done) == next(done)
            },
            (SaveStep::Done(result), Plan::Return(done)) => unit_result(result) == done,
            _ => false,
        }
    }
}

fn secret_of(token: &String) -> (secret: Option<String>)
    ensures
        optional_text(secret) == kept_secret(token@),
{
    if token.as_str().is_empty() {
        None
    } else {
        Some(token.clone())
    }
}

/// Saves a configuration.
pub fn persist_config(config: &GDriveConfig) -> (step: SaveStep)
    ensures
        step.follows(persist_plan(config@)),
{
    SaveStep::WriteSecret(
        ACCESS_TOKEN_SECRET_KEY,
        secret_of(&config.access_token),
        WriteTask::AccessToken(config.clone()),
    )
}

impl WriteTask {
    /// Goes on with what came of writing the secret.
    pub fn resume(self, done: Result<(), String>) -> (step: SaveStep)
        ensures
            step.follows(self.after(unit_result(done))),
    {
        match done {
            Err(message) => SaveStep::Done(Err(message)),
            Ok(_) => match self {
                WriteTask::AccessToken(config) => SaveStep::WriteSecret(
                    REFRESH_TOKEN_SECRET_KEY,
                    secret_of(&config.refresh_token),
                    WriteTask::RefreshToken(config),
                ),
                WriteTask::RefreshToken(config) => SaveStep::SaveConfig(
                    CONFIG_STORAGE_KEY,
                    config.without_tokens(),
                    SaveTask,
                ),
            },
        }
    }
}

impl SaveTask {
    /// Goes on with what came of saving the configuration.
    pub fn resume(self, done: Result<(), String>) -> (step: SaveStep)
        ensures
            step.follows(self.after(unit_result(done))),
    {
        SaveStep::Done(done)
    }
}

// ---------------------------------------------------------------------------
// Loading
// ---------------------------------------------------------------------------

/// What came of reading a secret.
pub type Secret = Result<Option<Seq<char>>, Seq<char>>;

/// What came of reading the saved configuration.
pub type Loaded = Result<Option<ConfigModel>, Seq<char>>;

/// The token to use: the one kept as a secret, or the one that was saved.
pub open spec fn effective_token(secret: Option<Seq<char>>, saved: Seq<char>) -> Seq<char> {
    match secret {
        Some(token) => token,
        None => saved,
    }
}

/// A saved configuration with the tokens that are kept as secrets.
pub open spec fn with_secrets(
    saved: ConfigModel,
    access: Option<Seq<char>>,
    refresh: Option<Seq<char>>,
) -> ConfigModel {
    ConfigModel {
        access_token: effective_token(access, saved.access_token),
        refresh_token: effective_token(refresh, saved.refresh_token),
        ..saved
    }
}

/// A token was saved with the configuration and is not kept as a secret yet.
pub open spec fn is_stray(secret: Option<Seq<char>>, saved: Seq<char>) -> bool {
    secret is None && saved.len() > 0
}

/// Loads the saved configuration. One that holds a token that is not kept as a
/// secret yet is saved anew.
pub open spec fn load_plan() -> Plan<Loaded> {
    Plan::LoadConfig(CONFIG_STORAGE_KEY@, |loaded: Loaded| after_loading(loaded))
}

/// Goes on with the saved configuration.
pub open spec fn after_loading(loaded: Loaded) -> Plan<Loaded> {
    match loaded {
        Ok(Some(saved)) => Plan::ReadSecret(
            ACCESS_TOKEN_SECRET_KEY@,
            |access: Secret| after_access_secret(saved, access),
        ),
        other => Plan::Return(other),
    }
}

/// Goes on with the secret of the access token.
pub open spec fn after_access_secret(saved: ConfigModel, access: Secret) -> Plan<Loaded> {
    match access {
        Err(message) => Plan::Return(Err(message)),
        Ok(access) => Plan::ReadSecret(
            REFRESH_TOKEN_SECRET_KEY@,
            |refresh: Secret| after_refresh_secret(saved, access, refresh),
        ),
    }
}

/// Goes on with the secrets of both tokens.
pub open spec fn after_refresh_secret(
    saved: ConfigModel,
    access: Option<Seq<char>>,
    refresh: Secret,
) -> Plan<Loaded> {
    match refresh {
        Err(message) => Plan::Return(Err(message)),
        Ok(refresh) => {
            let config = with_secrets(saved, access, refresh);
            if is_stray(access, saved.access_token) || is_stray(refresh, saved.refresh_token) {
                bind(persist_plan(config), migration_rest(config))
            } else {
                Plan::Return(Ok(Some(config)))
            }
        },
    }
}

/// What the loading ends with once the configuration was saved anew.
pub open spec fn after_migration(config: ConfigModel, done: Written) -> Loaded {
    match done {
        Ok(_) => Ok(Some(config)),
        Err(message) => Err(message),
    }
}

/// The continuation of the loading once the configuration was saved anew.
pub open spec fn migration_rest(config: ConfigModel) -> spec_fn(Written) -> Plan<Loaded> {
    |done: Written| Plan::Return(after_migration(config, done))
}

/// What came of reading the saved configuration.
pub open spec fn loaded_model(loaded: Result<Option<GDriveConfig>, String>) -> Loaded {
    match loaded {
        Ok(config) => Ok(optional_config(config)),
        Err(message) => Err(message@),
    }
}

/// The loading that waits for the saved configuration.
pub struct LoadTask;

impl LoadTask {
    /// What is left to do, given the saved configuration.
    pub open spec fn after(self, loaded: Loaded) -> Plan<Loaded> {
        after_loading(loaded)
    }
}

/// The loading that waits for a secret.
pub enum ReadTask {
    AccessToken(GDriveConfig),
    RefreshToken(GDriveConfig, Option<String>),
}

impl ReadTask {
    /// What is left to do, given the secret.
    pub open spec fn after(self, secret: Secret) -> Plan<Loaded> {
        match self {
            ReadTask::AccessToken(saved) => after_access_secret(saved@, secret),
            ReadTask::RefreshToken(saved, access) => after_refresh_secret(
                saved@,
                optional_text(access),
                secret,
            ),
        }
    }
}

/// The loading that waits for a secret to be written.
pub struct MigrateWriteTask {
    pub config: GDriveConfig,
    pub task: WriteTask,
}

impl MigrateWriteTask {
    /// What is left to do, given what came of writing the secret.
    pub open spec fn after(self, done: Written) -> Plan<Loaded> {
        bind(self.task.after(done), migration_rest(self.config@))
    }
}

/// The loading that waits for the configuration to be saved anew.
pub struct MigrateSaveTask {
    pub config: GDriveConfig,
    pub task: SaveTask,
}

impl MigrateSaveTask {
    /// What is left to do, given what came of saving the configuration.
    pub open spec fn after(self, done: Written) -> Plan<Loaded> {
        bind(self.task.after(done), migration_rest(self.config@))
    }
}

/// A step of loading the configuration.
pub enum LoadStep {
    /// The configuration saved under a key is to be read.
    LoadConfig(&'static str, LoadTask),
    /// A secret is to be read.
    ReadSecret(&'static str, ReadTask),
    /// A secret is to be written, or deleted where there is no value.
    WriteSecret(&'static str, Option<String>, MigrateWriteTask),
    /// A configuration is to be saved in the plugin storage, under a key.
    SaveConfig(&'static str, GDriveConfig, MigrateSaveTask),
    /// The loading has ended.
    Done(Result<Option<GDriveConfig>, String>),
}

impl LoadStep {
    /// The step does what the plan says.
    pub open spec fn follows(self, plan: Plan<Loaded>) -> bool {
        match (self, plan) {
            (LoadStep::LoadConfig(key, task), Plan::LoadConfig(asked, next)) => {
                &&& key@ == asked
                &&& forall|loaded: Loaded| #[trigger] task.after(loaded) == next(loaded)
            },
            (LoadStep::ReadSecret(key, task), Plan::ReadSecret(asked, next)) => {
                &&& key@ == asked
                &&& forall|secret: Secret| #[trigger] task.after(secret) == next(secret)
            },
            (LoadStep::WriteSecret(key, value, task), Plan::WriteSecret(asked, kept, next)) => {
                &&& key@ == asked
                &&& optional_text(value) == kept
                &&& forall|done: Written| #[trigger] task.after(done) == next(done)
            },
            (LoadStep::SaveConfig(key, config, task), Plan::SaveConfig(asked, saved, next)) => {
                &&& key@ == asked
                &&& config@ == saved
                &&& forall|done: Written| #[trigger] task.after(done) == next(done)
            },
            (LoadStep::Done(result), Plan::Return(loaded)) => loaded_model(result) == loaded,
            _ => false,
        }
    }
}

/// Loads the saved configuration.
pub fn load_persisted_config() -> (step: LoadStep)
    ensures
        step.follows(load_plan()),
{
    LoadStep::LoadConfig(CONFIG_STORAGE_KEY, LoadTask)
}

impl LoadTask {
    /// Goes on with the saved configuration.
    pub fn resume(self, loaded: Result<Option<GDriveConfig>, String>) -> (step: LoadStep)
        ensures
            step.follows(self.after(loaded_model(loaded))),
    {
        match loaded {
            Ok(Some(saved)) => LoadStep::ReadSecret(
                ACCESS_TOKEN_SECRET_KEY,
                ReadTask::AccessToken(saved),
            ),
            other => LoadStep::Done(other),
        }
    }
}

impl ReadTask {
    /// Goes on with the secret.
    pub fn resume(self, secret: Result<Option<String>, String>) -> (step: LoadStep)
        ensures
            step.follows(self.after(optional_text_result(secret))),
    {
        let token = match secret {
            Ok(token) => token,
            Err(message) => return LoadStep::Done(Err(message)),
        };
        match self {
            ReadTask::AccessToken(saved) => LoadStep::ReadSecret(
                REFRESH_TOKEN_SECRET_KEY,
                ReadTask::RefreshToken(saved, token),
            ),
            ReadTask::RefreshToken(saved, access) => complete(saved, access, token),
        }
    }
}

/// Completes a saved configuration with the secrets.
fn complete(saved: GDriveConfig, access: Option<String>, refresh: Option<String>) -> (step:
    LoadStep)
    ensures
        step.follows(
            after_refresh_secret(
                saved@,
                optional_text(access),
                Ok::<Option<Seq<char>>, Seq<char>>(optional_text(refresh)),
            ),
        ),
{
    let mut config = saved;
    let mut migrated = false;
    match access {
        Some(token) => {
            config.access_token = token;
        },
        None => {
            if !config.access_token.as_str().is_empty() {
                migrated = true;
            }
        },
    }
    match refresh {
        Some(token) => {
            config.refresh_token = token;
        },
        None => {
            if !config.refresh_token.as_str().is_empty() {
                migrated = true;
            }
        },
    }
    if migrated {
        let step = persist_config(&config);
        migrate(config, step)
    } else {
        LoadStep::Done(Ok(Some(config)))
    }
}

/// Embeds the saving of a configuration in its loading.
fn migrate(config: GDriveConfig, step: SaveStep) -> (outer: LoadStep)
    ensures
        forall|plan: Plan<Written>| #[trigger]
            step.follows(plan) ==> outer.follows(bind(plan, migration_rest(config@))),
{
    match step {
        SaveStep::WriteSecret(key, value, task) => LoadStep::WriteSecret(
            key,
            value,
            MigrateWriteTask { config, task },
        ),
        SaveStep::SaveConfig(key, saved, task) => LoadStep::SaveConfig(
            key,
            saved,
            MigrateSaveTask { config, task },
        ),
        SaveStep::Done(Ok(_)) => LoadStep::Done(Ok(Some(config))),
        SaveStep::Done(Err(message)) => LoadStep::Done(Err(message)),
    }
}

impl MigrateWriteTask {
    /// Goes on with what came of writing the secret.
    pub fn resume(self, done: Result<(), String>) -> (step: LoadStep)
        ensures
            step.follows(self.after(unit_result(done))),
    {
        migrate(self.config, self.task.resume(done))
    }
}

impl MigrateSaveTask {
    /// Goes on with what came of saving the configuration.
    pub fn resume(self, done: Result<(), String>) -> (step: LoadStep)
        ensures
            step.follows(self.after(unit_result(done))),
    {
        migrate(self.config, self.task.resume(done))
    }
}

} // verus!
