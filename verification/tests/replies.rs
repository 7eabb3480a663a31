use diaryx_storage_gdrive::drive_replies::{
    accept, keep_markdown, parse_body, read_created_folder, read_deleted, read_exchanged_tokens,
    read_found_file, read_found_folder, read_media_bytes, read_media_text, read_page, read_parent,
    read_refreshed_token, read_time, FileRef, ListPage,
};
use diaryx_storage_gdrive::http::{body_bytes, HttpReply};
use diaryx_storage_gdrive::json::{object_value, read_list, read_text};
use serde_json::Value;

fn reply(status: u16, body: &str) -> HttpReply {
    HttpReply { status, body: body.to_string(), body_base64: None }
}

fn text(message: &str) -> Result<String, String> {
    Err(message.to_string())
}

fn file(id: &str, is_folder: bool) -> FileRef {
    FileRef { id: id.to_string(), is_folder }
}

fn parse_error(body: &str) -> String {
    serde_json::from_str::<Value>(body).unwrap_err().to_string()
}

#[test]
fn only_status_200_is_accepted() {
    assert_eq!(accept("GDrive update failed", &reply(200, "x")), Ok(()));
    assert_eq!(
        accept("GDrive update failed", &reply(403, "no")),
        Err("GDrive update failed (403): no".to_string())
    );
    assert_eq!(
        accept("GDrive move failed", &reply(201, "")),
        Err("GDrive move failed (201): ".to_string())
    );
}

#[test]
fn bodies_are_parsed() {
    let parsed = parse_body("parse: ", &reply(200, "{\"a\": [1, \"x\", null]}")).unwrap();
    assert_eq!(parsed.get("a").unwrap().as_array().unwrap().len(), 3);
    assert_eq!(
        parse_body("parse: ", &reply(200, "{")),
        Err(format!("parse: {}", parse_error("{")))
    );
}

#[test]
fn members_of_documents() {
    let value = parse_body("", &reply(200, "{\"t\": \"x\", \"l\": [1], \"n\": 3}")).unwrap();
    assert_eq!(read_text(&value, "t"), Some("x".to_string()));
    assert_eq!(read_text(&value, "n"), None);
    assert_eq!(read_text(&value, "u"), None);
    assert_eq!(read_list(&value, "l").unwrap().len(), 1);
    assert!(read_list(&value, "t").is_none());
    assert!(read_list(&Value::from("x"), "l").is_none());
}

#[test]
fn a_later_entry_takes_the_place_of_an_earlier_one() {
    let value = object_value(vec![("a", Value::from(1)), ("b", Value::Null), ("a", Value::from("z"))]);
    assert_eq!(value.to_string(), "{\"a\":\"z\",\"b\":null}");
}

#[test]
fn a_search_finds_a_file() {
    let body = "{\"files\":[{\"id\":\"F1\",\"mimeType\":\"text/markdown\"},{\"id\":\"F2\"}]}";
    assert_eq!(read_found_file(&reply(200, body)), Ok(Some(file("F1", false))));
    let body = "{\"files\":[{\"id\":\"D1\",\"mimeType\":\"application/vnd.google-apps.folder\"}]}";
    assert_eq!(read_found_file(&reply(200, body)), Ok(Some(file("D1", true))));
    let body = "{\"files\":[{\"id\":\"F1\",\"mimeType\":7}]}";
    assert_eq!(read_found_file(&reply(200, body)), Ok(Some(file("F1", false))));
}

#[test]
fn a_search_finds_nothing_or_fails() {
    assert_eq!(read_found_file(&reply(200, "{\"files\":[]}")), Ok(None));
    assert_eq!(
        read_found_file(&reply(401, "denied")),
        Err("GDrive search failed (401): denied".to_string())
    );
    assert_eq!(
        read_found_file(&reply(200, "oops")),
        Err(format!("Failed to parse search response: {}", parse_error("oops")))
    );
    assert_eq!(
        read_found_file(&reply(200, "{\"files\":{}}")),
        Err("No files array in response".to_string())
    );
    assert_eq!(
        read_found_file(&reply(200, "{\"files\":[{\"id\":5}]}")),
        Err("No file ID".to_string())
    );
}

#[test]
fn a_search_for_a_folder() {
    assert_eq!(
        read_found_folder(&reply(200, "{\"files\":[{\"id\":\"D1\"}]}")),
        Ok(Some("D1".to_string()))
    );
    assert_eq!(read_found_folder(&reply(200, "{\"files\":[]}")), Ok(None));
    assert_eq!(read_found_folder(&reply(200, "{\"files\":[{}]}")), Ok(None));
    assert_eq!(read_found_folder(&reply(200, "{}")), Ok(None));
    assert_eq!(read_found_folder(&reply(500, "not json")), Ok(None));
    assert_eq!(
        read_found_folder(&reply(200, "not json")),
        Err(format!("parse: {}", parse_error("not json")))
    );
}

#[test]
fn a_folder_was_created() {
    assert_eq!(read_created_folder(&reply(200, "{\"id\":\"D9\"}")), Ok("D9".to_string()));
    assert_eq!(
        read_created_folder(&reply(403, "quota")),
        text("Create folder failed (403): quota")
    );
    assert_eq!(
        read_created_folder(&reply(200, "")),
        text(format!("parse: {}", parse_error("")).as_str())
    );
    assert_eq!(read_created_folder(&reply(200, "[]")), text("No id in create folder response"));
}

fn page(names: &[&str], token: Option<&str>) -> Result<ListPage, String> {
    Ok(ListPage {
        names: names.iter().map(|s| s.to_string()).collect(),
        token: token.map(|s| s.to_string()),
    })
}

#[test]
fn pages_of_a_listing() {
    let body = "{\"files\":[{\"name\":\"a.md\"},{\"id\":\"x\"},{\"name\":\"b.txt\"},{\"name\":1}]}";
    assert_eq!(read_page(&reply(200, body)), page(&["a.md", "b.txt"], None));
    let body = "{\"nextPageToken\":\"t/1\",\"files\":[{\"name\":\"a\"}]}";
    assert_eq!(read_page(&reply(200, body)), page(&["a"], Some("t/1")));
    let body = "{\"nextPageToken\":7,\"files\":[]}";
    assert_eq!(read_page(&reply(200, body)), page(&[], None));
}

#[test]
fn pages_that_fail() {
    assert_eq!(
        read_page(&reply(404, "gone")),
        Err("GDrive list failed (404): gone".to_string())
    );
    assert_eq!(
        read_page(&reply(200, "{\"nextPageToken\":\"t\"}")),
        Err("No files array".to_string())
    );
    assert_eq!(
        read_page(&reply(200, "x")),
        Err(format!("parse: {}", parse_error("x")))
    );
}

#[test]
fn the_modified_time_of_a_file() {
    let time = |status: u16, body: &str| read_time(&reply(status, body));
    assert_eq!(time(200, "{\"modifiedTime\":\"1970-01-01T00:00:01.500Z\"}"), Some(1500));
    assert_eq!(time(404, "{\"modifiedTime\":\"1970-01-01T00:00:01.500Z\"}"), None);
    assert_eq!(time(200, "{\"modifiedTime\":1500}"), None);
    assert_eq!(time(200, "{\"modifiedTime\":\"yesterday\"}"), None);
    assert_eq!(time(200, "{}"), None);
    assert_eq!(time(200, "oops"), None);
}

#[test]
fn markdown_files_are_kept_in_order() {
    let names: Vec<String> =
        ["b.md", "a.txt", "a.md", "md", ".md", "c.MD"].iter().map(|s| s.to_string()).collect();
    assert_eq!(keep_markdown(names), vec!["b.md", "a.md", ".md"]);
}

#[test]
fn contents_as_text() {
    assert_eq!(read_media_text(&reply(200, "# Hi")), Ok("# Hi".to_string()));
    assert_eq!(read_media_text(&reply(404, "nope")), text("GDrive read failed (404): nope"));
}

#[test]
fn contents_as_bytes() {
    assert_eq!(read_media_bytes(&reply(200, "h\u{e9}")), Ok(vec![0x68, 0xc3, 0xa9]));
    let encoded = HttpReply {
        status: 200,
        body: "ignored".to_string(),
        body_base64: Some("AP8Q".to_string()),
    };
    assert_eq!(read_media_bytes(&encoded), Ok(vec![0x00, 0xff, 0x10]));
    assert_eq!(
        read_media_bytes(&reply(500, "down")),
        Err("GDrive read failed (500): down".to_string())
    );
}

#[test]
fn bodies_that_are_no_base64() {
    let broken = HttpReply {
        status: 200,
        body: String::new(),
        body_base64: Some("A*==".to_string()),
    };
    let message = body_bytes(&broken).unwrap_err();
    assert!(message.starts_with("Failed to decode response body: Invalid symbol"), "{}", message);
    assert_eq!(read_media_bytes(&broken), Err(message));
}

#[test]
fn deletions() {
    for status in [200, 204, 404] {
        assert_eq!(read_deleted(&reply(status, "")), Ok(()));
    }
    assert_eq!(
        read_deleted(&reply(403, "locked")),
        Err("GDrive delete failed (403): locked".to_string())
    );
}

#[test]
fn the_folder_of_a_file() {
    assert_eq!(read_parent(&reply(200, "{\"parents\":[\"P1\",\"P2\"]}")), "P1");
    for body in ["{\"parents\":[]}", "{\"parents\":[3]}", "{\"parents\":\"P1\"}", "{}", "oops"] {
        assert_eq!(read_parent(&reply(200, body)), "", "{}", body);
    }
    assert_eq!(read_parent(&reply(404, "{\"parents\":[\"P1\"]}")), "");
}

#[test]
fn refreshed_tokens() {
    assert_eq!(
        read_refreshed_token(&reply(200, "{\"access_token\":\"new\",\"expires_in\":3599}")),
        Ok("new".to_string())
    );
    assert_eq!(
        read_refreshed_token(&reply(400, "bad grant")),
        text("Token refresh failed (400): bad grant")
    );
    assert_eq!(
        read_refreshed_token(&reply(200, "<")),
        text(format!("Failed to parse token response: {}", parse_error("<")).as_str())
    );
    assert_eq!(
        read_refreshed_token(&reply(200, "{\"access_token\":1}")),
        text("No access_token in response")
    );
}

#[test]
fn exchanged_tokens() {
    let both = "{\"access_token\":\"a\",\"refresh_token\":\"r\"}";
    assert_eq!(
        read_exchanged_tokens(&reply(200, both)),
        Ok(("a".to_string(), "r".to_string()))
    );
    assert_eq!(
        read_exchanged_tokens(&reply(401, "who")),
        Err("Token exchange failed (401): who".to_string())
    );
    assert_eq!(
        read_exchanged_tokens(&reply(200, "")),
        Err(format!("Failed to parse token response: {}", parse_error("")))
    );
    assert_eq!(
        read_exchanged_tokens(&reply(200, "{\"refresh_token\":\"r\"}")),
        Err("No access_token in response".to_string())
    );
    assert_eq!(
        read_exchanged_tokens(&reply(200, "{\"access_token\":\"a\"}")),
        Err("No refresh_token in response".to_string())
    );
}
