use diaryx_storage_gdrive::commands::{command_list, find_command, Command, CommandResponse};
use diaryx_storage_gdrive::config::GDriveConfig;
use diaryx_storage_gdrive::dispatch::{
    dispatch_command, respond_with_bytes, CommandEnd, CommandStep,
};
use diaryx_storage_gdrive::http::{Body, HttpReply};
use diaryx_storage_gdrive::manifest::manifest;
use serde_json::Value;

fn config() -> GDriveConfig {
    GDriveConfig {
        access_token: "tok".to_string(),
        refresh_token: "ref".to_string(),
        client_id: "id".to_string(),
        client_secret: "sec".to_string(),
        root_folder_id: "ROOT".to_string(),
    }
}

fn json(text: &str) -> Value {
    serde_json::from_str(text).unwrap()
}

fn reply(status: u16, body: &str) -> Result<HttpReply, String> {
    Ok(HttpReply { status, body: body.to_string(), body_base64: None })
}

fn found(id: &str) -> Result<HttpReply, String> {
    reply(200, format!("{{\"files\":[{{\"id\":\"{}\",\"mimeType\":\"text/plain\"}}]}}", id).as_str())
}

struct Run {
    asked: Vec<String>,
    end: CommandEnd,
}

/// Runs a command against the answers; writes succeed, unless `broken`.
fn run(
    current: Option<GDriveConfig>,
    command: &str,
    params: &str,
    answers: Vec<Result<HttpReply, String>>,
    broken: bool,
) -> Run {
    let write = || if broken { Err("broken".to_string()) } else { Ok(()) };
    let mut asked = Vec::new();
    let mut answers = answers.into_iter();
    let mut step = dispatch_command(current, command, &json(params));
    loop {
        match step {
            CommandStep::Http(request, task) => {
                let body = match &request.body {
                    Body::Text(text) => format!(" {}", text),
                    Body::Bytes(bytes) => format!(" {}", String::from_utf8_lossy(bytes)),
                    Body::Empty => String::new(),
                };
                asked.push(format!("{} {}{}", request.method.name(), request.url, body));
                step = task.resume(answers.next().expect("an answer"));
            }
            CommandStep::WriteSecret(key, value, task) => {
                asked.push(format!("secret {} {:?}", key, value));
                step = task.resume(write());
            }
            CommandStep::SaveConfig(key, config, task) => {
                asked.push(format!("save {} {:?}", key, config.access_token));
                step = task.resume(write());
            }
            CommandStep::DecodeConfig(document, task) => {
                asked.push(format!("decode {}", document));
                let field = |key: &str| document.get(key).and_then(|v| v.as_str()).map(|s| s.to_string());
                step = task.resume(match field("client_id") {
                    Some(client_id) => Ok(GDriveConfig {
                        access_token: field("access_token").unwrap_or_default(),
                        refresh_token: field("refresh_token").unwrap_or_default(),
                        client_id,
                        client_secret: field("client_secret").unwrap_or_default(),
                        root_folder_id: field("root_folder_id").unwrap_or_default(),
                    }),
                    None => Err("missing field `client_id`".to_string()),
                });
            }
            CommandStep::Done(end) => {
                assert!(answers.next().is_none(), "an answer is left");
                return Run { asked, end };
            }
        }
    }
}

fn response(command: &str, params: &str, answers: Vec<Result<HttpReply, String>>) -> CommandResponse {
    let run = run(Some(config()), command, params, answers, false);
    assert_eq!(run.end.config, Some(config()));
    run.end.response
}

fn data(response: CommandResponse) -> String {
    assert!(response.success);
    assert_eq!(response.error, None);
    response.data.unwrap().to_string()
}

fn error(response: CommandResponse) -> String {
    assert!(!response.success);
    assert_eq!(response.data, None);
    response.error.unwrap()
}

fn is_empty(response: CommandResponse) -> bool {
    response == CommandResponse { success: true, data: None, error: None }
}

#[test]
fn every_command_is_found_by_its_name() {
    let commands = command_list();
    assert_eq!(commands.len(), 19);
    for command in commands {
        assert_eq!(find_command(command.name()), Some(command));
    }
    assert_eq!(find_command("readFile"), None);
    assert_eq!(find_command(""), None);
    assert_eq!(find_command("CompleteOAuth"), Some(Command::CompleteOAuth));
}

#[test]
fn the_manifest_lists_the_commands() {
    let told = manifest("1.2.3");
    let names: Vec<String> = command_list().iter().map(|c| c.name().to_string()).collect();
    assert_eq!(told.commands, names);
    assert_eq!(told.commands[0], "ReadFile");
    assert_eq!(told.commands[18], "SetConfig");
    for name in names {
        let end = run(None, name.as_str(), "{}", vec![], false).end;
        assert!(!format!("{:?}", end.response.error).contains("Unknown command"));
    }
}

#[test]
fn the_manifest_tells_what_the_plugin_is() {
    let told = manifest("1.2.3");
    assert_eq!(told.id, "diaryx.storage.gdrive");
    assert_eq!(told.name, "Google Drive Storage");
    assert_eq!(told.version, "1.2.3");
    assert_eq!(told.description, "Google Drive as a filesystem backend");
    assert_eq!(told.capabilities, vec!["custom_commands"]);
    assert_eq!(
        told.permissions,
        json("{\"http_requests\":{\"include\":[\"googleapis.com\"],\"exclude\":[]},\"plugin_storage\":{\"include\":[\"all\"],\"exclude\":[]}}")
    );
    assert_eq!(
        told.reasons,
        vec![
            (
                "http_requests".to_string(),
                "Communicate with Google Drive and Google OAuth API endpoints.".to_string()
            ),
            (
                "plugin_storage".to_string(),
                "Persist Google Drive settings and cached workspace metadata.".to_string()
            ),
        ]
    );
}

#[test]
fn the_manifest_adds_a_provider_and_settings() {
    let told = manifest("1.2.3");
    assert_eq!(told.ui.len(), 2);
    assert_eq!(
        told.ui[0],
        json("{\"slot\":\"StorageProvider\",\"id\":\"diaryx.storage.gdrive\",\"label\":\"Google Drive\",\"icon\":\"cloud\",\"description\":\"Store files in Google Drive\"}")
    );
    assert_eq!(
        told.ui[1],
        json(
            r#"{"slot":"SettingsTab","id":"gdrive-storage-settings","label":"Google Drive","icon":"cloud","fields":[
            {"type":"Section","label":"Connection","description":"Uses a host-managed Google OAuth client with PKCE. No client secret is required in plugin settings."},
            {"type":"Button","label":"Connect Google Drive","command":"BeginOAuth"},
            {"type":"Button","label":"Refresh Access Token","command":"RefreshToken","variant":"outline"},
            {"type":"Button","label":"Disconnect","command":"Disconnect","variant":"destructive"},
            {"type":"Section","label":"Storage Root","description":"Google Drive folder ID to use as the workspace root. Use \"root\" for top-level Drive."},
            {"type":"Text","key":"root_folder_id","label":"Root Folder ID","placeholder":"root"}]}"#
        )
    );
}

#[test]
fn unknown_commands_do_nothing() {
    let run = run(Some(config()), "Format", "{\"path\":\"a\"}", vec![], false);
    assert!(run.asked.is_empty());
    assert_eq!(run.end.config, Some(config()));
    assert_eq!(error(run.end.response), "Unknown command: Format");
}

#[test]
fn storage_commands_need_a_configuration() {
    for (command, params) in [
        ("ReadFile", "{\"path\":\"a\"}"),
        ("ListFiles", "{}"),
        ("RefreshToken", "{}"),
        ("WriteBinary", "{\"path\":\"a\",\"data\":\"AA==\"}"),
    ] {
        let run = run(None, command, params, vec![], false);
        assert!(run.asked.is_empty());
        assert_eq!(run.end.config, None);
        assert_eq!(error(run.end.response), "Google Drive plugin not configured");
    }
}

#[test]
fn parameters_are_asked_for_in_order() {
    for command in
        ["ReadFile", "WriteFile", "DeleteFile", "Exists", "CreateDirAll", "IsDir", "ReadBinary", "WriteBinary", "GetModifiedTime"]
    {
        assert_eq!(
            error(response(command, "{\"path\":1}", vec![])),
            "Missing 'path' parameter",
            "{}",
            command
        );
    }
    assert_eq!(
        error(response("WriteFile", "{\"path\":\"a\"}", vec![])),
        "Missing 'content' parameter"
    );
    assert_eq!(
        error(response("WriteBinary", "{\"path\":\"a\"}", vec![])),
        "Missing 'data' parameter (base64)"
    );
    assert_eq!(error(response("MoveFile", "{\"to\":\"b\"}", vec![])), "Missing 'from' parameter");
    assert_eq!(error(response("MoveFile", "{\"from\":\"b\"}", vec![])), "Missing 'to' parameter");
    for command in ["CompleteOAuth", "ExchangeToken"] {
        assert_eq!(error(response(command, "null", vec![])), "Missing 'code' parameter");
        assert_eq!(
            error(response(command, "{\"code\":\"c\"}", vec![])),
            "Missing 'redirect_uri' parameter"
        );
        for verifier in ["", ",\"code_verifier\":\" \"", ",\"code_verifier\":7"] {
            let params = format!("{{\"code\":\"c\",\"redirect_uri\":\"u\"{}}}", verifier);
            assert_eq!(
                error(response(command, params.as_str(), vec![])),
                "Missing 'code_verifier' parameter"
            );
        }
    }
}

#[test]
fn binary_data_has_to_be_base64() {
    let message =
        error(response("WriteBinary", "{\"path\":\"a\",\"data\":\"A\"}", vec![]));
    assert!(message.starts_with("Invalid base64: "), "{}", message);
}

#[test]
fn contents_are_answered() {
    assert_eq!(
        data(response("ReadFile", "{\"path\":\"a\"}", vec![found("F"), reply(200, "hi \"you\"")])),
        "{\"content\":\"hi \\\"you\\\"\"}"
    );
    assert_eq!(
        error(response("ReadFile", "{\"path\":\"a\"}", vec![reply(200, "{\"files\":[]}")])),
        "NotFound: a"
    );
    assert_eq!(
        data(response("ReadBinary", "{\"path\":\"a\"}", vec![found("F"), reply(200, "hi")])),
        "{\"data\":\"aGk=\"}"
    );
}

#[test]
fn bytes_that_were_answered_are_written_as_they_were() {
    let bytes: Vec<u8> = (0..=255).collect();
    let answered = respond_with_bytes(&bytes).data.unwrap();
    let text = answered.get("data").unwrap().as_str().unwrap().to_string();
    let params = format!("{{\"path\":\"a\",\"data\":\"{}\"}}", text);
    let step = dispatch_command(Some(config()), "WriteBinary", &json(params.as_str()));
    let step = match step {
        CommandStep::Http(_, task) => task.resume(found("F")),
        _ => panic!("no search"),
    };
    match step {
        CommandStep::Http(request, _) => assert_eq!(request.body, Body::Bytes(bytes)),
        _ => panic!("no update"),
    }
}

#[test]
fn writes_answer_nothing() {
    let ok = || vec![found("F"), reply(200, "")];
    assert!(is_empty(response("WriteFile", "{\"path\":\"a\",\"content\":\"x\"}", ok())));
    assert!(is_empty(response("WriteBinary", "{\"path\":\"a\",\"data\":\"AA==\"}", ok())));
    assert!(is_empty(response("DeleteFile", "{\"path\":\"a\"}", ok())));
    assert!(is_empty(response("CreateDirAll", "{\"path\":\"a\"}", vec![found("F")])));
    assert!(is_empty(response(
        "MoveFile",
        "{\"from\":\"a\",\"to\":\"b\"}",
        vec![found("F"), reply(200, "{}"), reply(200, "")]
    )));
}

#[test]
fn text_is_written_as_utf8() {
    let run = run(
        Some(config()),
        "WriteFile",
        "{\"path\":\"a\",\"content\":\"h\u{e9}\"}",
        vec![found("F"), reply(200, "")],
        false,
    );
    assert_eq!(
        run.asked[1],
        "PATCH https://www.googleapis.com/upload/drive/v3/files/F?uploadType=media h\u{e9}"
    );
}

#[test]
fn questions_are_answered() {
    assert_eq!(data(response("Exists", "{\"path\":\"a\"}", vec![found("F")])), "{\"exists\":true}");
    assert_eq!(data(response("IsDir", "{\"path\":\"a\"}", vec![found("F")])), "{\"isDir\":false}");
    assert_eq!(
        data(response("GetModifiedTime", "{\"path\":\"a\"}", vec![found("F"), reply(200, "{\"modifiedTime\":\"1970-01-01T00:00:00.042Z\"}")])),
        "{\"time\":42}"
    );
    assert_eq!(
        data(response("GetModifiedTime", "{\"path\":\"a\"}", vec![found("F"), reply(404, "")])),
        "{\"time\":null}"
    );
}

#[test]
fn listings_are_answered() {
    let names = || vec![reply(200, "{\"files\":[{\"name\":\"b.md\"},{\"name\":\"a\"}]}")];
    assert_eq!(data(response("ListFiles", "{}", names())), "{\"files\":[\"b.md\",\"a\"]}");
    assert_eq!(data(response("ListFiles", "{\"dir\":5}", names())), "{\"files\":[\"b.md\",\"a\"]}");
    assert_eq!(data(response("ListMdFiles", "{\"dir\":\"/\"}", names())), "{\"files\":[\"b.md\"]}");
}

#[test]
fn a_refreshed_token_is_kept() {
    let answers = || vec![reply(200, "{\"access_token\":\"new\"}")];
    let done = run(Some(config()), "RefreshToken", "{}", answers(), false);
    let after = GDriveConfig { access_token: "new".to_string(), ..config() };
    assert_eq!(done.end.config, Some(after.clone()));
    assert_eq!(
        data(done.end.response),
        "{\"access_token\":\"new\",\"message\":\"Access token refreshed.\"}"
    );
    assert_eq!(
        done.asked[1..],
        [
            "secret gdrive_access_token Some(\"new\")".to_string(),
            "secret gdrive_refresh_token Some(\"ref\")".to_string(),
            "save gdrive_config \"\"".to_string(),
        ]
    );
    let done = run(Some(config()), "RefreshToken", "{}", answers(), true);
    assert_eq!(done.end.config, Some(after));
    assert_eq!(error(done.end.response), "broken");
    let done = run(Some(config()), "RefreshToken", "{}", vec![reply(400, "no")], false);
    assert_eq!(done.end.config, Some(config()));
    assert_eq!(error(done.end.response), "Token refresh failed (400): no");
}

#[test]
fn exchanged_tokens_connect() {
    let params = "{\"code\":\"c\",\"redirect_uri\":\"u\",\"code_verifier\":\"v\"}";
    let answers = || vec![reply(200, "{\"access_token\":\"A\",\"refresh_token\":\"R\"}")];
    for command in ["CompleteOAuth", "ExchangeToken"] {
        let done = run(Some(config()), command, params, answers(), false);
        assert_eq!(
            done.end.config,
            Some(GDriveConfig {
                access_token: "A".to_string(),
                refresh_token: "R".to_string(),
                ..config()
            })
        );
        assert_eq!(data(done.end.response), "{\"message\":\"Connected to Google Drive.\"}");
        assert_eq!(
            done.asked[0],
            "POST https://oauth2.googleapis.com/token client_id=id&client_secret=sec&code=c&redirect_uri=u&grant_type=authorization_code&code_verifier=v"
        );
    }
}

#[test]
fn settings_are_shown() {
    assert_eq!(
        data(response("GetConfig", "{}", vec![])),
        "{\"client_id\":\"id\",\"connected\":true,\"root_folder_id\":\"ROOT\"}"
    );
    let end = run(None, "GetConfig", "{}", vec![], false).end;
    assert_eq!(
        data(end.response),
        "{\"client_id\":\"\",\"connected\":false,\"root_folder_id\":\"root\"}"
    );
}

#[test]
fn settings_are_set() {
    let done =
        run(Some(config()), "SetConfig", "{\"client_id\":\"new\",\"access_token\":\"B\"}", vec![], false);
    assert_eq!(
        done.end.config,
        Some(GDriveConfig {
            access_token: "B".to_string(),
            client_id: "new".to_string(),
            client_secret: String::new(),
            ..config()
        })
    );
    assert!(is_empty(done.end.response));
    let done = run(Some(config()), "SetConfig", "{\"client_id\":\"new\"}", vec![], true);
    assert_eq!(done.end.config, Some(config()));
    assert_eq!(error(done.end.response), "broken");
    let done = run(Some(config()), "SetConfig", "{}", vec![], false);
    assert_eq!(error(done.end.response), "Invalid GDrive config: missing field `client_id`");
}

#[test]
fn a_sign_in_is_begun() {
    let params = "{\"client_id\":\" my id \",\"redirect_uri\":\"http://l/cb?x=1\",\"code_challenge\":\"ch+1\",\"code_verifier\":{\"v\":1}}";
    let text = data(response("BeginOAuth", params, vec![]));
    assert_eq!(
        json(text.as_str()),
        json(
            r#"{"host_action":{"type":"open-oauth","payload":{
            "url":"https://accounts.google.com/o/oauth2/v2/auth?client_id=my%20id&redirect_uri=http%3A%2F%2Fl%2Fcb%3Fx%3D1&response_type=code&scope=https%3A%2F%2Fwww.googleapis.com%2Fauth%2Fdrive.file&access_type=offline&prompt=consent&code_challenge=ch%2B1&code_challenge_method=S256",
            "redirect_uri_prefix":"http://l/cb?x=1"}},
            "follow_up":{"command":"CompleteOAuth","params":{"code_verifier":{"v":1}}}}"#
        )
    );
}

#[test]
fn a_sign_in_falls_back_on_the_configuration() {
    let params = "{\"client_id\":\" \",\"redirect_uri\":\"u\",\"redirect_uri_prefix\":\"p\",\"code_challenge\":\"c\"}";
    let told = json(data(response("BeginOAuth", params, vec![])).as_str());
    let payload = told.get("host_action").unwrap().get("payload").unwrap();
    assert!(payload.get("url").unwrap().as_str().unwrap().contains("?client_id=id&"));
    assert_eq!(payload.get("redirect_uri_prefix").unwrap().as_str(), Some("p"));
    let follow_up = told.get("follow_up").unwrap().get("params").unwrap();
    assert!(follow_up.get("code_verifier").unwrap().is_null());
}

#[test]
fn a_sign_in_that_cannot_be_begun() {
    let end = run(None, "BeginOAuth", "{\"redirect_uri\":\"u\",\"code_challenge\":\"c\"}", vec![], false).end;
    assert_eq!(end.config, None);
    assert_eq!(
        error(end.response),
        "Google Drive OAuth is not configured for this build. Set a host-managed client ID."
    );
    assert_eq!(
        error(response("BeginOAuth", "{\"redirect_uri\":\" \"}", vec![])),
        "Missing 'redirect_uri' parameter"
    );
    assert_eq!(
        error(response("BeginOAuth", "{\"redirect_uri\":\"u\",\"code_challenge\":\"\"}", vec![])),
        "Missing 'code_challenge' parameter"
    );
}

#[test]
fn disconnecting_is_a_command() {
    let done = run(Some(config()), "Disconnect", "{}", vec![], false);
    assert_eq!(
        done.asked,
        vec![
            "secret gdrive_access_token None",
            "secret gdrive_refresh_token None",
            "save gdrive_config \"\"",
        ]
    );
    assert_eq!(data(done.end.response), "{\"message\":\"Disconnected from Google Drive.\"}");
}
