use diaryx_storage_gdrive::config::GDriveConfig;
use diaryx_storage_gdrive::gdrive_ops::{
    create_dir_all, delete_file, exchange_token, exchange_token_with_verifier, file_exists,
    get_modified_time, is_dir, list_files, list_md_files, move_file, read_binary, read_file,
    refresh_token, write_binary, write_file, OpStep, OpValue,
};
use diaryx_storage_gdrive::http::{Body, HttpReply};

const FOLDER: &str = "application/vnd.google-apps.folder";

fn config() -> GDriveConfig {
    GDriveConfig {
        access_token: "tok".to_string(),
        refresh_token: "ref".to_string(),
        client_id: "id".to_string(),
        client_secret: "sec".to_string(),
        root_folder_id: "ROOT".to_string(),
    }
}

fn reply(status: u16, body: &str) -> Result<HttpReply, String> {
    Ok(HttpReply { status, body: body.to_string(), body_base64: None })
}

fn found(id: &str, mime: &str) -> Result<HttpReply, String> {
    reply(200, format!("{{\"files\":[{{\"id\":\"{}\",\"mimeType\":\"{}\"}}]}}", id, mime).as_str())
}

fn none() -> Result<HttpReply, String> {
    reply(200, "{\"files\":[]}")
}

type Answers = Vec<Result<HttpReply, String>>;
type Outcome = Result<OpValue, String>;

/// Runs an operation against the answers, which must all be used. Gives the
/// methods and URLs that were asked for, with text bodies, and the outcome.
fn run(mut step: OpStep, answers: Answers) -> (Vec<String>, Outcome) {
    let mut asked = Vec::new();
    let mut answers = answers.into_iter();
    loop {
        match step {
            OpStep::Http(request, task) => {
                let body = match &request.body {
                    Body::Text(text) => format!(" {}", text),
                    Body::Bytes(bytes) => format!(" {} bytes", bytes.len()),
                    Body::Empty => String::new(),
                };
                asked.push(format!("{} {}{}", request.method.name(), request.url, body));
                step = task.resume(answers.next().expect("an answer"));
            }
            OpStep::Done(outcome) => {
                assert!(answers.next().is_none(), "an answer is left");
                return (asked, outcome);
            }
        }
    }
}

fn outcome(step: OpStep, answers: Answers) -> Outcome {
    run(step, answers).1
}

fn err(message: &str) -> Outcome {
    Err(message.to_string())
}

fn strings(list: &[&str]) -> Vec<String> {
    list.iter().map(|s| s.to_string()).collect()
}

fn files_url(query: &str) -> String {
    format!("https://www.googleapis.com/drive/v3/files?q={}", query)
}

#[test]
fn reading_walks_down_the_path() {
    let (asked, outcome) = run(
        read_file(&config(), "/dir//notes.md"),
        vec![found("D1", FOLDER), found("F1", "text/plain"), reply(200, "# Notes")]);
    assert_eq!(outcome, Ok(OpValue::Text("# Notes".to_string())));
    assert_eq!(asked.len(), 3);
    assert_eq!(
        asked[0],
        format!("GET {}&fields=files(id,mimeType)&pageSize=1", files_url("name%20%3D%20%27dir%27%20and%20%27ROOT%27%20in%20parents%20and%20trashed%20%3D%20false"))
    );
    assert_eq!(
        asked[1],
        format!("GET {}&fields=files(id,mimeType)&pageSize=1", files_url("name%20%3D%20%27notes.md%27%20and%20%27D1%27%20in%20parents%20and%20trashed%20%3D%20false"))
    );
    assert_eq!(asked[2], "GET https://www.googleapis.com/drive/v3/files/F1?alt=media");
}

#[test]
fn reading_what_is_not_there() {
    assert_eq!(outcome(read_file(&config(), "a/b.md"), vec![none()]), err("NotFound: a/b.md"));
    assert_eq!(outcome(read_binary(&config(), "x"), vec![none()]), err("NotFound: x"));
    assert_eq!(
        outcome(read_file(&config(), "a/b.md"), vec![found("F", "text/plain")]),
        err("Path component 'a' is not a folder")
    );
}

#[test]
fn the_host_may_fail_at_every_request() {
    let offline = || Err("offline".to_string());
    assert_eq!(outcome(read_file(&config(), "a"), vec![offline()]), err("offline"));
    assert_eq!(
        outcome(read_file(&config(), "a"), vec![found("F", "x"), offline()]),
        err("offline")
    );
    assert_eq!(outcome(create_dir_all(&config(), "a"), vec![offline()]), err("offline"));
    assert_eq!(outcome(create_dir_all(&config(), "a"), vec![none(), offline()]), err("offline"));
    assert_eq!(
        outcome(move_file(&config(), "a", "b"), vec![found("F", "x"), offline()]),
        err("offline")
    );
    assert_eq!(
        outcome(get_modified_time(&config(), "a"), vec![found("F", "x"), offline()]),
        err("offline")
    );
    assert_eq!(outcome(refresh_token(&config()), vec![offline()]), err("offline"));
}

#[test]
fn reading_bytes() {
    let encoded = Ok(HttpReply {
        status: 200,
        body: String::new(),
        body_base64: Some("AP8=".to_string()),
    });
    assert_eq!(
        outcome(read_binary(&config(), "x"), vec![found("F", "image/png"), encoded]),
        Ok(OpValue::Bytes(vec![0, 255]))
    );
    assert_eq!(
        outcome(read_binary(&config(), "x"), vec![found("F", "image/png"), reply(403, "no")]),
        err("GDrive read failed (403): no")
    );
}

#[test]
fn a_file_that_is_there_is_updated() {
    let (asked, outcome) = run(
        write_file(&config(), "a.md", "h\u{e9}"),
        vec![found("F1", "text/plain"), reply(200, "{}")]);
    assert_eq!(outcome, Ok(OpValue::Nothing));
    assert_eq!(
        asked[1],
        "PATCH https://www.googleapis.com/upload/drive/v3/files/F1?uploadType=media 3 bytes"
    );
}

#[test]
fn a_failed_update_is_reported() {
    assert_eq!(
        outcome(write_file(&config(), "a.md", "x"), vec![found("F1", "x"), reply(507, "full")]),
        err("GDrive update failed (507): full")
    );
}

#[test]
fn a_new_file_is_created_with_its_folders() {
    let (asked, outcome) = run(
        write_binary(&config(), "a/b/c.bin", vec![7; 10]),
        vec![
            none(),
            reply(200, "{\"files\":[{\"id\":\"A\"}]}"),
            none(),
            reply(200, "{\"id\":\"B\"}"),
            reply(200, "{\"id\":\"C\"}"),
        ]);
    assert_eq!(outcome, Ok(OpValue::Nothing));
    assert_eq!(asked.len(), 5);
    assert!(asked[0].ends_with("&fields=files(id,mimeType)&pageSize=1"));
    assert!(asked[1].contains("%27a%27%20and%20%27ROOT%27"));
    assert!(asked[2].contains("%27b%27%20and%20%27A%27"));
    assert_eq!(
        asked[3],
        "POST https://www.googleapis.com/drive/v3/files {\"mimeType\":\"application/vnd.google-apps.folder\",\"name\":\"b\",\"parents\":[\"A\"]}"
    );
    assert!(asked[4]
        .starts_with("POST https://www.googleapis.com/upload/drive/v3/files?uploadType=multipart "));
}

#[test]
fn a_failed_creation_is_reported() {
    assert_eq!(
        outcome(write_file(&config(), "c", "x"), vec![none(), reply(400, "bad")]),
        err("GDrive create failed (400): bad")
    );
    assert_eq!(
        outcome(write_file(&config(), "a/c", "x"), vec![none(), none(), reply(403, "quota")]),
        err("Create folder failed (403): quota")
    );
}

#[test]
fn deleting() {
    let (asked, outcome) = run(
        delete_file(&config(), "a"),
        vec![found("F1", "x"), reply(204, "")]);
    assert_eq!(outcome, Ok(OpValue::Nothing));
    assert_eq!(asked[1], "DELETE https://www.googleapis.com/drive/v3/files/F1");
}

#[test]
fn deleting_what_is_not_there() {
    assert_eq!(outcome(delete_file(&config(), "a"), vec![none()]), Ok(OpValue::Nothing));
    assert_eq!(
        outcome(delete_file(&config(), "a"), vec![found("F1", "x"), reply(404, "")]),
        Ok(OpValue::Nothing)
    );
    assert_eq!(
        outcome(delete_file(&config(), "a"), vec![found("F1", "x"), reply(500, "oops")]),
        err("GDrive delete failed (500): oops")
    );
}

#[test]
fn existence_and_folders() {
    assert_eq!(outcome(file_exists(&config(), "a"), vec![none()]), Ok(OpValue::Exists(false)));
    assert_eq!(
        outcome(file_exists(&config(), "a"), vec![found("F", "x")]),
        Ok(OpValue::Exists(true))
    );
    assert_eq!(outcome(is_dir(&config(), "a"), vec![none()]), Ok(OpValue::IsDir(false)));
    assert_eq!(outcome(is_dir(&config(), "a"), vec![found("F", "x")]), Ok(OpValue::IsDir(false)));
    assert_eq!(
        outcome(is_dir(&config(), "a"), vec![found("F", FOLDER)]),
        Ok(OpValue::IsDir(true))
    );
}

#[test]
fn the_root_is_a_folder_and_nobody_is_asked() {
    for path in ["", "/", "//"] {
        assert_eq!(outcome(is_dir(&config(), path), vec![]), Ok(OpValue::IsDir(true)));
        assert_eq!(outcome(file_exists(&config(), path), vec![]), Ok(OpValue::Exists(true)));
        assert_eq!(outcome(create_dir_all(&config(), path), vec![]), Ok(OpValue::Nothing));
    }
}

#[test]
fn listing() {
    let names = "{\"files\":[{\"name\":\"b.md\"},{\"name\":\"a.txt\"}]}";
    let (asked, outcome) = run(list_files(&config(), ""), vec![reply(200, names)]);
    assert_eq!(outcome, Ok(OpValue::Names(strings(&["b.md", "a.txt"]))));
    assert!(asked[0].contains("q=%27ROOT%27%20in%20parents"));
    let (asked, outcome) =
        run(list_md_files(&config(), "d"), vec![found("D", FOLDER), reply(200, names)]);
    assert_eq!(outcome, Ok(OpValue::Names(strings(&["b.md"]))));
    assert!(asked[1].contains("q=%27D%27%20in%20parents"));
}

#[test]
fn listing_goes_on_to_the_last_page() {
    let pages = || {
        vec![
            reply(200, "{\"nextPageToken\":\"t 1\",\"files\":[{\"name\":\"a.md\"},{\"name\":\"b\"}]}"),
            reply(200, "{\"nextPageToken\":\"t2\",\"files\":[]}"),
            reply(200, "{\"files\":[{\"name\":\"c.md\"}]}"),
        ]
    };
    let (asked, outcome) = run(list_files(&config(), ""), pages());
    assert_eq!(outcome, Ok(OpValue::Names(strings(&["a.md", "b", "c.md"]))));
    assert_eq!(asked[0], format!("GET {}", files_url("%27ROOT%27%20in%20parents%20and%20trashed%20%3D%20false&fields=nextPageToken,files(name)&pageSize=1000")));
    assert_eq!(asked[1], format!("{}&pageToken=t%201", asked[0]));
    assert_eq!(asked[2], format!("{}&pageToken=t2", asked[0]));
    let (_, outcome) = run(list_md_files(&config(), ""), pages());
    assert_eq!(outcome, Ok(OpValue::Names(strings(&["a.md", "c.md"]))));
}

#[test]
fn a_page_that_fails_ends_the_listing() {
    let first = || reply(200, "{\"nextPageToken\":\"t\",\"files\":[{\"name\":\"a\"}]}");
    assert_eq!(
        outcome(list_files(&config(), ""), vec![first(), reply(500, "down")]),
        err("GDrive list failed (500): down")
    );
    assert_eq!(
        outcome(list_md_files(&config(), ""), vec![first(), Err("offline".to_string())]),
        err("offline")
    );
}

#[test]
fn listing_what_is_no_folder() {
    assert_eq!(outcome(list_files(&config(), "d"), vec![none()]), Ok(OpValue::Names(vec![])));
    assert_eq!(outcome(list_md_files(&config(), "d"), vec![none()]), Ok(OpValue::Names(vec![])));
    assert_eq!(
        outcome(list_files(&config(), "d/"), vec![found("F", "x")]),
        err("Not a directory: d/")
    );
    assert_eq!(
        outcome(list_md_files(&config(), "d"), vec![found("F", "x")]),
        err("Not a directory: d")
    );
}

#[test]
fn folders_are_found_or_created() {
    let (asked, outcome) = run(
        create_dir_all(&config(), "a/b"),
        vec![none(), reply(200, "{\"id\":\"A\"}"), reply(200, "{\"files\":[{\"id\":\"B\"}]}")]);
    assert_eq!(outcome, Ok(OpValue::Nothing));
    assert_eq!(asked.len(), 3);
    assert!(asked[2].contains("%27b%27%20and%20%27A%27"));
}

#[test]
fn moving() {
    let (asked, outcome) = run(
        move_file(&config(), "a.md", "/d/b.md"),
        vec![
            found("F1", "x"),
            reply(200, "{\"files\":[{\"id\":\"D\"}]}"),
            reply(200, "{\"parents\":[\"ROOT\"]}"),
            reply(200, "{}"),
        ]);
    assert_eq!(outcome, Ok(OpValue::Nothing));
    assert_eq!(asked[2], "GET https://www.googleapis.com/drive/v3/files/F1?fields=parents");
    assert_eq!(
        asked[3],
        "PATCH https://www.googleapis.com/drive/v3/files/F1?addParents=D&removeParents=ROOT {\"name\":\"b.md\"}"
    );
}

#[test]
fn moving_without_knowing_the_old_folder() {
    let (asked, outcome) = run(
        move_file(&config(), "a.md", "b.md"),
        vec![found("F1", "x"), reply(500, ""), reply(400, "bad")]);
    assert_eq!(outcome, err("GDrive move failed (400): bad"));
    assert_eq!(
        asked[2],
        "PATCH https://www.googleapis.com/drive/v3/files/F1?addParents=ROOT&removeParents= {\"name\":\"b.md\"}"
    );
    assert_eq!(
        run(move_file(&config(), "x", "y"), vec![none()]).1,
        err("NotFound: x")
    );
}

#[test]
fn the_time_is_the_modified_time_of_the_file() {
    let (asked, outcome) = run(
        get_modified_time(&config(), "a"),
        vec![found("F1", "x"), reply(200, "{\"modifiedTime\":\"2023-11-14T22:13:20.123Z\"}")],
    );
    assert_eq!(outcome, Ok(OpValue::Time(Some(1700000000123))));
    assert_eq!(asked.len(), 2);
    assert_eq!(asked[1], "GET https://www.googleapis.com/drive/v3/files/F1?fields=modifiedTime");
}

#[test]
fn the_time_of_the_root_folder() {
    let body = "{\"modifiedTime\":\"1970-01-01T00:00:01.500Z\"}";
    let (asked, outcome) = run(get_modified_time(&config(), ""), vec![reply(200, body)]);
    assert_eq!(outcome, Ok(OpValue::Time(Some(1500))));
    assert_eq!(asked[0], "GET https://www.googleapis.com/drive/v3/files/ROOT?fields=modifiedTime");
}

#[test]
fn a_time_that_cannot_be_read_is_none() {
    for body in ["{}", "{\"modifiedTime\":\"soon\"}", "no json"] {
        assert_eq!(
            outcome(get_modified_time(&config(), "a"), vec![found("F1", "x"), reply(200, body)]),
            Ok(OpValue::Time(None))
        );
    }
}

#[test]
fn the_time_of_what_is_not_there() {
    assert_eq!(
        outcome(get_modified_time(&config(), "a"), vec![none()]),
        Ok(OpValue::Time(None))
    );
    assert_eq!(
        outcome(get_modified_time(&config(), "a"), vec![found("F1", "x"), reply(404, "")]),
        Ok(OpValue::Time(None))
    );
}

#[test]
fn tokens() {
    assert_eq!(
        outcome(refresh_token(&config()), vec![reply(200, "{\"access_token\":\"new\"}")]),
        Ok(OpValue::Token("new".to_string()))
    );
    let both = "{\"access_token\":\"a\",\"refresh_token\":\"r\"}";
    let (asked, outcome) =
        run(exchange_token(&config(), "c", "u"), vec![reply(200, both)]);
    assert_eq!(outcome, Ok(OpValue::Tokens("a".to_string(), "r".to_string())));
    assert!(asked[0].ends_with("&code=c&redirect_uri=u&grant_type=authorization_code"));
    let (asked, outcome) = run(
        exchange_token_with_verifier(&config(), "c", "u", "v"),
        vec![reply(403, "no")]);
    assert_eq!(outcome, err("Token exchange failed (403): no"));
    assert!(asked[0].ends_with("&grant_type=authorization_code&code_verifier=v"));
}

#[test]
fn ordinary_answers_can_be_taken() {
    let answers = vec![reply(200, "text"), reply(404, ""), Err("offline".to_string())];
    let mut steps = vec![read_binary(&config(), ""), list_files(&config(), ""), file_exists(&config(), "a")];
    while let Some(step) = steps.pop() {
        if let OpStep::Http(_, task) = step {
            assert!(answers.iter().all(|answer| task.can_take(answer)));
        } else {
            panic!("nothing is asked");
        }
    }
}
