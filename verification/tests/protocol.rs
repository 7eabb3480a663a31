use diaryx_storage_gdrive::commands::CommandResponse;
use diaryx_storage_gdrive::dispatch::CommandStep;
use diaryx_storage_gdrive::manifest::manifest;
use diaryx_storage_gdrive::protocol::{answer_command, answer_manifest, handle_command};
use serde_json::Value;

fn answer(input: &str) -> Result<String, String> {
    match handle_command(None, input)? {
        CommandStep::Done(end) => answer_command(&end.response),
        _ => panic!("the host is asked"),
    }
}

#[test]
fn a_command_is_read_out_of_its_text() {
    assert_eq!(
        answer("{\"command\":\"GetConfig\",\"params\":{},\"more\":1}"),
        Ok("{\"success\":true,\"data\":{\"client_id\":\"\",\"connected\":false,\"root_folder_id\":\"root\"},\"error\":null}".to_string())
    );
    assert_eq!(
        answer("{\"params\":null,\"command\":\"No \\\"such\\\"\"}"),
        Ok("{\"success\":false,\"data\":null,\"error\":\"Unknown command: No \\\"such\\\"\"}".to_string())
    );
}

#[test]
fn a_text_that_is_no_command_is_told_so() {
    assert_eq!(
        answer("{\"command\":\"GetConfig\"}"),
        Err("missing field `params` at line 1 column 23".to_string())
    );
    assert_eq!(
        answer("{\"params\":{}}"),
        Err("missing field `command` at line 1 column 13".to_string())
    );
    assert_eq!(
        answer("{\"command\":7,\"params\":{}}"),
        Err("invalid type: integer `7`, expected a string at line 1 column 12".to_string())
    );
    let message = serde_json::from_str::<Value>("").unwrap_err().to_string();
    assert_eq!(answer(""), Err(message));
}

#[test]
fn responses_are_written_member_by_member() {
    assert_eq!(
        answer_command(&CommandResponse::ok_empty()),
        Ok("{\"success\":true,\"data\":null,\"error\":null}".to_string())
    );
    assert_eq!(
        answer_command(&CommandResponse::ok(Value::from("a\n"))),
        Ok("{\"success\":true,\"data\":\"a\\n\",\"error\":null}".to_string())
    );
    assert_eq!(
        answer_command(&CommandResponse::err("no".to_string())),
        Ok("{\"success\":false,\"data\":null,\"error\":\"no\"}".to_string())
    );
}

#[test]
fn the_manifest_is_written_member_by_member() {
    let written = answer_manifest("1.2 \"3\"").unwrap();
    assert!(written.starts_with("{\"protocol_version\":1,\"id\":\"diaryx.storage.gdrive\",\"name\":\"Google Drive Storage\",\"version\":\"1.2 \\\"3\\\"\",\"description\":\"Google Drive as a filesystem backend\",\"capabilities\":[\"custom_commands\"],\"ui\":[{"));
    assert!(written.ends_with("}},\"conversions\":[]}"));
    let read: Value = serde_json::from_str(written.as_str()).unwrap();
    let told = manifest("1.2 \"3\"");
    assert_eq!(read["version"], Value::from("1.2 \"3\""));
    assert_eq!(read["ui"], Value::from(told.ui));
    assert_eq!(read["commands"], Value::from(told.commands));
    assert_eq!(read["cli"], Value::from(Vec::<Value>::new()));
    assert_eq!(read["requested_permissions"]["defaults"], told.permissions);
    let reasons = read["requested_permissions"]["reasons"].as_object().unwrap();
    assert_eq!(reasons.len(), 2);
    for (key, reason) in told.reasons {
        assert_eq!(reasons[key.as_str()], Value::from(reason));
    }
}
