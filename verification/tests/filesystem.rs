use diaryx_storage_gdrive::config::GDriveConfig;
use diaryx_storage_gdrive::gdrive_ops::{
    create_dir_all, delete_file, file_exists, is_dir, list_files, list_md_files, move_file,
    read_binary, read_file, write_binary, write_file, OpStep, OpValue,
};
use diaryx_storage_gdrive::http::{Body, HttpReply, HttpRequest, Method};
use serde_json::Value;

fn config() -> GDriveConfig {
    GDriveConfig {
        access_token: "tok".to_string(),
        refresh_token: String::new(),
        client_id: String::new(),
        client_secret: String::new(),
        root_folder_id: "root".to_string(),
    }
}

struct Entry {
    id: String,
    parent: String,
    name: String,
    folder: bool,
    content: Vec<u8>,
}

/// A Google Drive in memory.
struct Drive {
    entries: Vec<Entry>,
    requests: Vec<HttpRequest>,
    /// How many names a page of a listing holds.
    page: usize,
}

const API: &str = "https://www.googleapis.com/drive/v3/files";
const UPLOAD: &str = "https://www.googleapis.com/upload/drive/v3/files";
const FOLDER: &str = "application/vnd.google-apps.folder";

fn decoded(text: &str) -> String {
    let bytes = text.as_bytes();
    let mut plain = Vec::new();
    let mut i = 0;
    while i < bytes.len() {
        if bytes[i] == b'%' {
            plain.push(u8::from_str_radix(&text[i + 1..i + 3], 16).unwrap());
            i += 3;
        } else {
            plain.push(bytes[i]);
            i += 1;
        }
    }
    String::from_utf8(plain).unwrap()
}

/// The name and the folder that a query asks for, and whether it asks for folders
/// only.
fn understood(query: &str) -> (Option<String>, String, bool) {
    let mut rest = query;
    let mut name = None;
    if let Some(after) = rest.strip_prefix("name = '") {
        let mut text = String::new();
        let mut chars = after.char_indices();
        let mut end = 0;
        while let Some((i, c)) = chars.next() {
            if c == '\'' {
                end = i;
                break;
            }
            text.push(if c == '\\' { chars.next().unwrap().1 } else { c });
        }
        name = Some(text);
        rest = &after[end + 1..];
        rest = rest.strip_prefix(" and ").unwrap();
    }
    let rest = rest.strip_prefix('\'').unwrap();
    let end = rest.find("' in parents").unwrap();
    (name, rest[..end].to_string(), rest.contains("mimeType"))
}

fn reply(status: u16, body: String) -> Result<HttpReply, String> {
    Ok(HttpReply { status, body, body_base64: None })
}

fn document(body: &Body) -> Value {
    match body {
        Body::Text(text) => serde_json::from_str(text).unwrap(),
        _ => panic!("no text"),
    }
}

fn text_of(value: &Value, key: &str) -> String {
    value.get(key).unwrap().as_str().unwrap().to_string()
}

fn parent_of(value: &Value) -> String {
    value.get("parents").unwrap().as_array().unwrap()[0].as_str().unwrap().to_string()
}

impl Drive {
    fn new() -> Drive {
        Drive { entries: Vec::new(), requests: Vec::new(), page: 1000 }
    }

    fn add(&mut self, parent: String, name: String, folder: bool, content: Vec<u8>) -> String {
        let id = format!("id{}", self.entries.len() + 1);
        self.entries.push(Entry { id: id.clone(), parent, name, folder, content });
        id
    }

    fn search(&self, query: &str, limit: usize, from: usize) -> String {
        let (name, parent, folders) = understood(query);
        let found: Vec<String> = self
            .entries
            .iter()
            .filter(|e| e.parent == parent && (!folders || e.folder))
            .filter(|e| name.as_ref().map_or(true, |n| *n == e.name))
            .skip(from)
            .map(|e| {
                let mime = if e.folder { FOLDER } else { "text/plain" };
                format!(
                    "{{\"id\":{},\"name\":{},\"mimeType\":\"{}\"}}",
                    Value::from(e.id.as_str()),
                    Value::from(e.name.as_str()),
                    mime
                )
            })
            .collect();
        let token = if found.len() > limit && limit > 1 {
            format!("\"nextPageToken\":\"{}\",", from + limit)
        } else {
            String::new()
        };
        let shown = found[..found.len().min(limit)].join(",");
        format!("{{{}\"files\":[{}]}}", token, shown)
    }

    fn serve(&mut self, request: &HttpRequest) -> Result<HttpReply, String> {
        assert_eq!(request.headers[0].1, "Bearer tok");
        let url = request.url.as_str();
        match request.method {
            Method::Get => {
                if let Some(rest) = url.strip_prefix(format!("{}?q=", API).as_str()) {
                    let end = rest.find('&').unwrap();
                    let limit = if rest.ends_with("pageSize=1") { 1 } else { self.page };
                    let from = match rest.find("&pageToken=") {
                        Some(at) => rest[at + "&pageToken=".len()..].parse().unwrap(),
                        None => 0,
                    };
                    return reply(200, self.search(decoded(&rest[..end]).as_str(), limit, from));
                }
                let rest = url.strip_prefix(format!("{}/", API).as_str()).unwrap();
                let end = rest.find('?').unwrap();
                let entry = match self.entries.iter().find(|e| e.id == rest[..end]) {
                    Some(entry) => entry,
                    None => return reply(404, "gone".to_string()),
                };
                match &rest[end + 1..] {
                    "alt=media" => match String::from_utf8(entry.content.clone()) {
                        Ok(text) => reply(200, text),
                        Err(_) => Ok(HttpReply {
                            status: 200,
                            body: String::new(),
                            body_base64: Some("AP8Q/w==".to_string()),
                        }),
                    },
                    "fields=parents" => reply(200, format!("{{\"parents\":[\"{}\"]}}", entry.parent)),
                    other => panic!("{}", other),
                }
            }
            Method::Post => {
                if url == API {
                    let metadata = document(&request.body);
                    assert_eq!(text_of(&metadata, "mimeType"), FOLDER);
                    let id = self.add(parent_of(&metadata), text_of(&metadata, "name"), true, vec![]);
                    return reply(200, format!("{{\"id\":\"{}\"}}", id));
                }
                assert_eq!(url, format!("{}?uploadType=multipart", UPLOAD));
                let bytes = match &request.body {
                    Body::Bytes(bytes) => bytes.clone(),
                    _ => panic!("no bytes"),
                };
                let (first, rest) = part(&bytes);
                let (content, _) = part(&rest);
                let metadata: Value = serde_json::from_slice(&first).unwrap();
                self.add(parent_of(&metadata), text_of(&metadata, "name"), false, content);
                reply(200, "{}".to_string())
            }
            Method::Patch => {
                if let Some(rest) = url.strip_prefix(format!("{}/", UPLOAD).as_str()) {
                    let id = rest.strip_suffix("?uploadType=media").unwrap();
                    let entry = self.entries.iter_mut().find(|e| e.id == id).unwrap();
                    entry.content = match &request.body {
                        Body::Bytes(bytes) => bytes.clone(),
                        _ => panic!("no bytes"),
                    };
                    return reply(200, "{}".to_string());
                }
                let rest = url.strip_prefix(format!("{}/", API).as_str()).unwrap();
                let id = rest.find("?addParents=").unwrap();
                let into = rest.find("&removeParents=").unwrap();
                let entry = self.entries.iter_mut().find(|e| e.id == rest[..id]).unwrap();
                if entry.parent == rest[into + "&removeParents=".len()..] {
                    entry.parent = rest[id + "?addParents=".len()..into].to_string();
                }
                entry.name = text_of(&document(&request.body), "name");
                reply(200, "{}".to_string())
            }
            Method::Delete => {
                let id = url.strip_prefix(format!("{}/", API).as_str()).unwrap();
                self.entries.retain(|e| e.id != id);
                reply(204, String::new())
            }
        }
    }

    fn run(&mut self, mut step: OpStep) -> Result<OpValue, String> {
        loop {
            match step {
                OpStep::Http(request, task) => {
                    let answer = self.serve(&request);
                    self.requests.push(request);
                    step = task.resume(answer);
                }
                OpStep::Done(outcome) => return outcome,
            }
        }
    }
}

fn part(bytes: &[u8]) -> (Vec<u8>, Vec<u8>) {
    let find = |bytes: &[u8], mark: &[u8]| bytes.windows(mark.len()).position(|w| w == mark).unwrap();
    let line = find(bytes, b"\r\n") + 2;
    let headers = line + find(&bytes[line..], b"\r\n\r\n") + 4;
    let delimiter = b"\r\n--diaryx_boundary_0123456789";
    let end = headers + find(&bytes[headers..], delimiter);
    (bytes[headers..end].to_vec(), bytes[end + delimiter.len()..].to_vec())
}

fn nothing() -> Result<OpValue, String> {
    Ok(OpValue::Nothing)
}

fn names(list: &[&str]) -> Result<OpValue, String> {
    Ok(OpValue::Names(list.iter().map(|s| s.to_string()).collect()))
}

#[test]
fn what_is_written_is_read_back() {
    let mut drive = Drive::new();
    let config = config();
    assert_eq!(drive.run(write_file(&config, "a/it's \\ here/n.md", "# \u{e9}")), nothing());
    assert_eq!(
        drive.run(read_file(&config, "/a/it's \\ here//n.md")),
        Ok(OpValue::Text("# \u{e9}".to_string()))
    );
    assert_eq!(
        drive.run(read_binary(&config, "a/it's \\ here/n.md")),
        Ok(OpValue::Bytes("# \u{e9}".as_bytes().to_vec()))
    );
    assert_eq!(drive.run(write_file(&config, "a/it's \\ here/n.md", "new")), nothing());
    assert_eq!(drive.entries.len(), 3);
    assert_eq!(
        drive.run(read_file(&config, "a/it's \\ here/n.md")),
        Ok(OpValue::Text("new".to_string()))
    );
}

#[test]
fn bytes_are_read_back() {
    let mut drive = Drive::new();
    let config = config();
    let bytes = vec![0x00, 0xff, 0x10, 0xff];
    assert_eq!(drive.run(write_binary(&config, "x.bin", bytes.clone())), nothing());
    assert_eq!(drive.run(read_binary(&config, "x.bin")), Ok(OpValue::Bytes(bytes)));
}

#[test]
fn a_file_in_place_of_a_folder_stops_a_write() {
    let mut drive = Drive::new();
    let config = config();
    drive.run(write_file(&config, "a", "x")).unwrap();
    assert_eq!(
        drive.run(write_file(&config, "a/b", "y")),
        Err("Path component 'a' is not a folder".to_string())
    );
    assert_eq!(drive.entries.len(), 1);
}

#[test]
fn folders_that_were_made_are_there() {
    let mut drive = Drive::new();
    let config = config();
    assert_eq!(drive.run(is_dir(&config, "a/b")), Ok(OpValue::IsDir(false)));
    assert_eq!(drive.run(create_dir_all(&config, "a/b/c")), nothing());
    assert_eq!(drive.run(create_dir_all(&config, "a/b/c")), nothing());
    assert_eq!(drive.entries.len(), 3);
    for path in ["a", "a/b", "a/b/c/"] {
        assert_eq!(drive.run(is_dir(&config, path)), Ok(OpValue::IsDir(true)));
    }
}

#[test]
fn what_was_deleted_is_gone() {
    let mut drive = Drive::new();
    let config = config();
    drive.run(write_file(&config, "d/a", "x")).unwrap();
    assert_eq!(drive.run(delete_file(&config, "d/a")), nothing());
    assert_eq!(drive.run(file_exists(&config, "d/a")), Ok(OpValue::Exists(false)));
    assert_eq!(drive.run(file_exists(&config, "d")), Ok(OpValue::Exists(true)));
    assert_eq!(drive.run(delete_file(&config, "d/a")), nothing());
}

#[test]
fn what_was_moved_is_at_its_new_path() {
    let mut drive = Drive::new();
    let config = config();
    drive.run(write_file(&config, "d/a.md", "x")).unwrap();
    assert_eq!(drive.run(move_file(&config, "d/a.md", "e/f/b.md")), nothing());
    assert_eq!(drive.run(file_exists(&config, "d/a.md")), Ok(OpValue::Exists(false)));
    assert_eq!(drive.run(read_file(&config, "e/f/b.md")), Ok(OpValue::Text("x".to_string())));
}

#[test]
fn listings_name_what_is_there() {
    let mut drive = Drive::new();
    let config = config();
    drive.run(write_file(&config, "d/a.md", "x")).unwrap();
    drive.run(write_file(&config, "d/b.txt", "x")).unwrap();
    drive.run(create_dir_all(&config, "d/sub")).unwrap();
    assert_eq!(drive.run(list_files(&config, "d")), names(&["a.md", "b.txt", "sub"]));
    assert_eq!(drive.run(list_md_files(&config, "d")), names(&["a.md"]));
    assert_eq!(drive.run(list_files(&config, "")), names(&["d"]));
    assert_eq!(drive.run(list_files(&config, "nowhere")), names(&[]));
}

#[test]
fn a_large_folder_is_listed_whole() {
    let mut drive = Drive::new();
    let config = config();
    let all: Vec<String> = (0..2500).map(|n| format!("n{}.md", n)).collect();
    for name in &all {
        drive.add("root".to_string(), name.clone(), false, vec![]);
    }
    assert_eq!(drive.run(list_files(&config, "")), Ok(OpValue::Names(all.clone())));
    assert_eq!(drive.requests.len(), 3);
    drive.page = 2;
    assert_eq!(drive.run(list_md_files(&config, "/")), Ok(OpValue::Names(all)));
    assert_eq!(drive.requests.len(), 3 + 1250);
}

#[test]
fn a_moved_folder_takes_along_what_is_in_it() {
    let mut drive = Drive::new();
    let config = config();
    drive.run(write_file(&config, "d/s/a.md", "x")).unwrap();
    assert_eq!(drive.run(move_file(&config, "d/s", "e/t")), nothing());
    assert_eq!(drive.run(file_exists(&config, "d/s")), Ok(OpValue::Exists(false)));
    assert_eq!(drive.run(is_dir(&config, "e/t")), Ok(OpValue::IsDir(true)));
    assert_eq!(drive.run(read_file(&config, "e/t/a.md")), Ok(OpValue::Text("x".to_string())));
}

#[test]
fn a_lookup_asks_at_most_once_for_each_component() {
    let mut drive = Drive::new();
    let config = config();
    drive.run(write_file(&config, "a/b/c", "x")).unwrap();
    for (path, asked) in [("a/b/c", 3), ("/a//b/", 2), ("a/x/y/z", 2), ("", 0)] {
        drive.requests.clear();
        drive.run(file_exists(&config, path)).unwrap();
        assert_eq!(drive.requests.len(), asked, "{}", path);
    }
}

#[test]
fn reading_operations_send_only_get_requests() {
    let mut drive = Drive::new();
    let config = config();
    drive.run(write_file(&config, "d/a.md", "x")).unwrap();
    drive.requests.clear();
    drive.run(read_file(&config, "d/a.md")).unwrap();
    drive.run(read_binary(&config, "d/a.md")).unwrap();
    drive.run(file_exists(&config, "d/x")).unwrap();
    drive.run(is_dir(&config, "d")).unwrap();
    drive.run(list_md_files(&config, "d")).unwrap();
    assert!(drive.requests.len() > 5);
    for request in drive.requests {
        assert_eq!(request.method, Method::Get);
        assert!(request.url.starts_with("https://www.googleapis.com/"));
    }
}
