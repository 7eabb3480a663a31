use diaryx_storage_gdrive::config::{
    config_or_default, default_config, default_root, merge_with_current_config, view_config,
    GDriveConfig,
};
use diaryx_storage_gdrive::dispatch::{disconnect, set_config, CommandEnd, CommandStep};
use diaryx_storage_gdrive::persistence::{
    load_persisted_config, persist_config, LoadStep, SaveStep, ACCESS_TOKEN_SECRET_KEY,
    CONFIG_STORAGE_KEY, REFRESH_TOKEN_SECRET_KEY,
};
use diaryx_storage_gdrive::plugin::{get_config, init, shutdown};
use std::collections::HashMap;

fn config(access: &str, refresh: &str, client: &str, secret: &str, root: &str) -> GDriveConfig {
    GDriveConfig {
        access_token: access.to_string(),
        refresh_token: refresh.to_string(),
        client_id: client.to_string(),
        client_secret: secret.to_string(),
        root_folder_id: root.to_string(),
    }
}

/// A host that keeps what it is given, or fails at the write of a chosen key.
struct Store {
    secrets: HashMap<String, String>,
    saved: Option<GDriveConfig>,
    failing: Option<String>,
    writes: usize,
}

impl Store {
    fn new() -> Store {
        Store { secrets: HashMap::new(), saved: None, failing: None, writes: 0 }
    }

    fn write(&mut self, key: &str, value: Option<String>) -> Result<(), String> {
        if self.failing.as_deref() == Some(key) {
            return Err(format!("cannot write {}", key));
        }
        self.writes += 1;
        match value {
            Some(text) => {
                self.secrets.insert(key.to_string(), text);
            }
            None => {
                self.secrets.remove(key);
            }
        }
        Ok(())
    }

    fn save(&mut self, key: &str, config: GDriveConfig) -> Result<(), String> {
        assert_eq!(key, CONFIG_STORAGE_KEY);
        if self.failing.as_deref() == Some(key) {
            return Err(format!("cannot write {}", key));
        }
        self.writes += 1;
        self.saved = Some(config);
        Ok(())
    }

    fn persist(&mut self, config: &GDriveConfig) -> Result<(), String> {
        let mut step = persist_config(config);
        loop {
            match step {
                SaveStep::WriteSecret(key, value, task) => step = task.resume(self.write(key, value)),
                SaveStep::SaveConfig(key, config, task) => step = task.resume(self.save(key, config)),
                SaveStep::Done(result) => return result,
            }
        }
    }

    fn load(&mut self) -> Result<Option<GDriveConfig>, String> {
        let mut step = load_persisted_config();
        loop {
            match step {
                LoadStep::LoadConfig(key, task) => {
                    assert_eq!(key, CONFIG_STORAGE_KEY);
                    step = task.resume(Ok(self.saved.clone()));
                }
                LoadStep::ReadSecret(key, task) => {
                    step = task.resume(Ok(self.secrets.get(key).cloned()))
                }
                LoadStep::WriteSecret(key, value, task) => step = task.resume(self.write(key, value)),
                LoadStep::SaveConfig(key, config, task) => step = task.resume(self.save(key, config)),
                LoadStep::Done(result) => return result,
            }
        }
    }

    fn run(&mut self, mut step: CommandStep) -> CommandEnd {
        loop {
            match step {
                CommandStep::WriteSecret(key, value, task) => {
                    step = task.resume(self.write(key, value))
                }
                CommandStep::SaveConfig(key, config, task) => {
                    step = task.resume(self.save(key, config))
                }
                CommandStep::Done(end) => return end,
                _ => panic!("something else was asked for"),
            }
        }
    }
}

#[test]
fn the_default_configuration_has_a_root() {
    assert_eq!(default_root(), "root");
    assert_eq!(default_config(), config("", "", "", "", "root"));
    assert_eq!(GDriveConfig::default(), config("", "", "", "", ""));
    assert_eq!(config_or_default(&None), default_config());
    let some = config("a", "r", "c", "s", "f");
    assert_eq!(config_or_default(&Some(some.clone())), some);
}

#[test]
fn requests_are_authorized_by_the_access_token() {
    assert_eq!(
        config("tok", "", "", "", "").auth_headers(),
        vec![("Authorization".to_string(), "Bearer tok".to_string())]
    );
}

#[test]
fn merging_takes_over_what_is_missing() {
    let current = Some(config("a", "r", "c", "s", "f"));
    assert_eq!(
        merge_with_current_config(config("", "", " ", "", "\t"), &current),
        config("a", "r", "c", "", "f")
    );
    assert_eq!(
        merge_with_current_config(config("A", "R", "C", "S", "F"), &current),
        config("A", "R", "C", "S", "F")
    );
    assert_eq!(
        merge_with_current_config(config(" ", "", "", "", ""), &Some(config("a", "", "", "", " "))),
        config(" ", "", "", "", "root")
    );
    assert_eq!(
        merge_with_current_config(config("", "", "", "", ""), &None),
        config("", "", "", "", "root")
    );
}

#[test]
fn merging_twice_is_merging_once() {
    let current = Some(config("a", "", "c", "s", ""));
    let once = merge_with_current_config(config("", "R", "", "S", " "), &current);
    assert_eq!(merge_with_current_config(once.clone(), &current), once);
}

#[test]
fn the_settings_show_no_secrets() {
    let shown = view_config(&config("tok", "ref", "c", "sec", "f")).to_string();
    assert_eq!(shown, "{\"client_id\":\"c\",\"connected\":true,\"root_folder_id\":\"f\"}");
    let shown = view_config(&config("tok", "", "", "sec", "")).to_string();
    assert_eq!(shown, "{\"client_id\":\"\",\"connected\":false,\"root_folder_id\":\"root\"}");
}

#[test]
fn tokens_are_kept_apart() {
    let mut store = Store::new();
    assert_eq!(store.persist(&config("a", "r", "c", "s", "f")), Ok(()));
    assert_eq!(store.secrets.get(ACCESS_TOKEN_SECRET_KEY), Some(&"a".to_string()));
    assert_eq!(store.secrets.get(REFRESH_TOKEN_SECRET_KEY), Some(&"r".to_string()));
    assert_eq!(store.saved, Some(config("", "", "c", "s", "f")));
    assert_eq!(ACCESS_TOKEN_SECRET_KEY, "gdrive_access_token");
    assert_eq!(REFRESH_TOKEN_SECRET_KEY, "gdrive_refresh_token");
    assert_eq!(CONFIG_STORAGE_KEY, "gdrive_config");
}

#[test]
fn empty_tokens_are_deleted() {
    let mut store = Store::new();
    store.persist(&config("a", "r", "c", "s", "f")).unwrap();
    store.persist(&config("", "", "c", "s", "f")).unwrap();
    assert!(store.secrets.is_empty());
}

#[test]
fn a_failed_write_ends_the_saving() {
    for (key, writes) in [
        (ACCESS_TOKEN_SECRET_KEY, 0),
        (REFRESH_TOKEN_SECRET_KEY, 1),
        (CONFIG_STORAGE_KEY, 2),
    ] {
        let mut store = Store::new();
        store.failing = Some(key.to_string());
        assert_eq!(
            store.persist(&config("a", "r", "c", "s", "f")),
            Err(format!("cannot write {}", key))
        );
        assert_eq!(store.writes, writes);
    }
}

#[test]
fn what_was_saved_is_loaded_again() {
    for saved in [config("a", "r", "c", "s", "f"), config("", "r", "", "", ""), config("", "", "c", "", "f")] {
        let mut store = Store::new();
        store.persist(&saved).unwrap();
        let writes = store.writes;
        assert_eq!(store.load(), Ok(Some(saved)));
        assert_eq!(store.writes, writes);
    }
}

#[test]
fn nothing_is_loaded_where_nothing_was_saved() {
    assert_eq!(Store::new().load(), Ok(None));
    let failed = match load_persisted_config() {
        LoadStep::LoadConfig(_, task) => task.resume(Err("broken".to_string())),
        _ => panic!("no load"),
    };
    assert!(matches!(failed, LoadStep::Done(Err(message)) if message == "broken"));
}

#[test]
fn tokens_saved_with_the_configuration_become_secrets() {
    let mut store = Store::new();
    store.saved = Some(config("a", "r", "c", "s", "f"));
    store.secrets.insert(REFRESH_TOKEN_SECRET_KEY.to_string(), "R".to_string());
    let loaded = store.load();
    assert_eq!(loaded, Ok(Some(config("a", "R", "c", "s", "f"))));
    assert_eq!(store.secrets.get(ACCESS_TOKEN_SECRET_KEY), Some(&"a".to_string()));
    assert_eq!(store.secrets.get(REFRESH_TOKEN_SECRET_KEY), Some(&"R".to_string()));
    assert_eq!(store.saved, Some(config("", "", "c", "s", "f")));
    let writes = store.writes;
    assert_eq!(store.load(), loaded);
    assert_eq!(store.writes, writes);
}

#[test]
fn a_configuration_that_cannot_be_saved_anew_is_not_loaded() {
    let mut store = Store::new();
    store.saved = Some(config("a", "", "c", "s", "f"));
    store.failing = Some(CONFIG_STORAGE_KEY.to_string());
    assert_eq!(store.load(), Err("cannot write gdrive_config".to_string()));
}

#[test]
fn the_plugin_starts_with_the_loaded_configuration() {
    let some = config("a", "r", "c", "s", "f");
    assert_eq!(init(None, Ok(Some(some.clone()))), Some(some.clone()));
    assert_eq!(init(Some(some.clone()), Ok(None)), Some(some.clone()));
    assert_eq!(init(Some(some.clone()), Err("x".to_string())), Some(some.clone()));
    assert_eq!(init(None, Err("x".to_string())), None);
    let mut current = Some(some);
    shutdown(&mut current);
    assert_eq!(current, None);
}

#[test]
fn the_plugin_shows_its_settings() {
    assert_eq!(
        get_config(&None),
        "{\"client_id\":\"\",\"connected\":false,\"root_folder_id\":\"root\"}"
    );
    assert_eq!(
        get_config(&Some(config("a", "r", "c", "s", "f"))),
        "{\"client_id\":\"c\",\"connected\":true,\"root_folder_id\":\"f\"}"
    );
}

#[test]
fn a_configuration_that_was_set_survives_a_restart() {
    let mut store = Store::new();
    let current = Some(config("a", "", "c", "s", "f"));
    let end = store.run(set_config(current, config("", "R", "", "", "")));
    let expected = config("a", "R", "c", "", "f");
    assert_eq!(end.config, Some(expected.clone()));
    assert!(end.response.success);
    assert_eq!(end.response.data, None);
    let mut now = end.config;
    shutdown(&mut now);
    assert_eq!(init(now, store.load()), Some(expected));
}

#[test]
fn a_configuration_that_cannot_be_saved_is_not_set() {
    let mut store = Store::new();
    store.failing = Some(CONFIG_STORAGE_KEY.to_string());
    let current = Some(config("a", "", "c", "s", "f"));
    let end = store.run(set_config(current.clone(), config("A", "R", "", "", "")));
    assert_eq!(end.config, current);
    assert!(!end.response.success);
    assert_eq!(end.response.error, Some("cannot write gdrive_config".to_string()));
}

#[test]
fn disconnecting_leaves_no_token() {
    let mut store = Store::new();
    let some = config("a", "r", "c", "s", "f");
    store.persist(&some).unwrap();
    let end = store.run(disconnect(Some(some)));
    assert_eq!(end.config, Some(config("", "", "c", "s", "f")));
    assert!(store.secrets.is_empty());
    assert_eq!(store.saved, Some(config("", "", "c", "s", "f")));
    assert_eq!(
        end.response.data.unwrap().to_string(),
        "{\"message\":\"Disconnected from Google Drive.\"}"
    );
    assert_eq!(
        get_config(&end.config),
        "{\"client_id\":\"c\",\"connected\":false,\"root_folder_id\":\"f\"}"
    );
}

#[test]
fn disconnecting_without_a_configuration_sets_the_default_one() {
    let mut store = Store::new();
    let end = store.run(disconnect(None));
    assert_eq!(end.config, Some(default_config()));
    assert!(end.response.success);
    store.failing = Some(REFRESH_TOKEN_SECRET_KEY.to_string());
    let end = store.run(disconnect(None));
    assert_eq!(end.config, None);
    assert_eq!(end.response.error, Some("cannot write gdrive_refresh_token".to_string()));
}

#[test]
fn tokens_are_cleared_even_where_that_cannot_be_saved() {
    let mut store = Store::new();
    store.failing = Some(ACCESS_TOKEN_SECRET_KEY.to_string());
    let end = store.run(disconnect(Some(config("a", "r", "c", "s", "f"))));
    assert_eq!(end.config, Some(config("", "", "c", "s", "f")));
    assert_eq!(end.response.error, Some("cannot write gdrive_access_token".to_string()));
}
