use diaryx_storage_gdrive::config::GDriveConfig;
use diaryx_storage_gdrive::drive_requests::{
    create_file_request, create_folder_request, delete_request, exchange_request,
    find_file_request, find_folder_request, list_request, media_request, modified_request,
    move_request, parents_request, refresh_request, update_request, verified_exchange_request,
};
use diaryx_storage_gdrive::http::{Body, HttpRequest, Method};
use diaryx_storage_gdrive::multipart::build_multipart_upload;

fn config() -> GDriveConfig {
    GDriveConfig {
        access_token: "tok".to_string(),
        refresh_token: "ref/1".to_string(),
        client_id: "id 1".to_string(),
        client_secret: "s&t".to_string(),
        root_folder_id: "root".to_string(),
    }
}

fn pairs(list: &[(&str, &str)]) -> Vec<(String, String)> {
    list.iter().map(|(k, v)| (k.to_string(), v.to_string())).collect()
}

fn bearer() -> Vec<(String, String)> {
    pairs(&[("Authorization", "Bearer tok")])
}

fn get(url: &str) -> HttpRequest {
    HttpRequest { method: Method::Get, url: url.to_string(), headers: bearer(), body: Body::Empty }
}

#[test]
fn methods_have_names() {
    assert_eq!(Method::Get.name(), "GET");
    assert_eq!(Method::Post.name(), "POST");
    assert_eq!(Method::Patch.name(), "PATCH");
    assert_eq!(Method::Delete.name(), "DELETE");
}

#[test]
fn searching_for_a_file() {
    let request = find_file_request(&config(), "P1", "it's.md");
    assert_eq!(
        request,
        get("https://www.googleapis.com/drive/v3/files?q=name%20%3D%20%27it%5C%27s.md%27%20and%20%27P1%27%20in%20parents%20and%20trashed%20%3D%20false&fields=files(id,mimeType)&pageSize=1")
    );
}

#[test]
fn searching_for_a_folder() {
    let request = find_folder_request(&config(), "P1", "sub");
    assert_eq!(
        request,
        get("https://www.googleapis.com/drive/v3/files?q=name%20%3D%20%27sub%27%20and%20%27P1%27%20in%20parents%20and%20mimeType%20%3D%20%27application%2Fvnd.google-apps.folder%27%20and%20trashed%20%3D%20false&fields=files(id)&pageSize=1")
    );
}

#[test]
fn listing_a_folder() {
    let first = "https://www.googleapis.com/drive/v3/files?q=%27P1%27%20in%20parents%20and%20trashed%20%3D%20false&fields=nextPageToken,files(name)&pageSize=1000";
    assert_eq!(list_request(&config(), "P1", &None), get(first));
    assert_eq!(
        list_request(&config(), "P1", &Some("~!!~/+=".to_string())),
        get(format!("{}&pageToken=~%21%21~%2F%2B%3D", first).as_str())
    );
}

#[test]
fn asking_for_parts_of_a_file() {
    assert_eq!(
        media_request(&config(), "F1"),
        get("https://www.googleapis.com/drive/v3/files/F1?alt=media")
    );
    assert_eq!(
        parents_request(&config(), "F1"),
        get("https://www.googleapis.com/drive/v3/files/F1?fields=parents")
    );
    assert_eq!(
        modified_request(&config(), "F1"),
        get("https://www.googleapis.com/drive/v3/files/F1?fields=modifiedTime")
    );
}

#[test]
fn deleting_a_file() {
    let request = delete_request(&config(), "F1");
    assert_eq!(request.method, Method::Delete);
    assert_eq!(request.url, "https://www.googleapis.com/drive/v3/files/F1");
    assert_eq!(request.headers, bearer());
    assert_eq!(request.body, Body::Empty);
}

#[test]
fn updating_a_file() {
    let request = update_request(&config(), "F1", vec![1, 2, 3], "text/x");
    assert_eq!(request.method, Method::Patch);
    assert_eq!(
        request.url,
        "https://www.googleapis.com/upload/drive/v3/files/F1?uploadType=media"
    );
    assert_eq!(
        request.headers,
        pairs(&[("Authorization", "Bearer tok"), ("Content-Type", "text/x")])
    );
    assert_eq!(request.body, Body::Bytes(vec![1, 2, 3]));
}

#[test]
fn creating_a_file() {
    let request = create_file_request(&config(), "P1", "a\"b", &b"hello".to_vec(), "text/x");
    assert_eq!(request.method, Method::Post);
    assert_eq!(
        request.url,
        "https://www.googleapis.com/upload/drive/v3/files?uploadType=multipart"
    );
    assert_eq!(
        request.headers,
        pairs(&[
            ("Authorization", "Bearer tok"),
            ("Content-Type", "multipart/related; boundary=diaryx_boundary_0123456789"),
        ])
    );
    let expected = "--diaryx_boundary_0123456789\r\nContent-Type: application/json; charset=UTF-8\r\n\r\n{\"name\":\"a\\\"b\",\"parents\":[\"P1\"]}\r\n--diaryx_boundary_0123456789\r\nContent-Type: text/x\r\n\r\nhello\r\n--diaryx_boundary_0123456789--\r\n";
    assert_eq!(request.body, Body::Bytes(expected.as_bytes().to_vec()));
}

#[test]
fn creating_a_folder() {
    let request = create_folder_request(&config(), "P1", "sub");
    assert_eq!(request.method, Method::Post);
    assert_eq!(request.url, "https://www.googleapis.com/drive/v3/files");
    assert_eq!(
        request.headers,
        pairs(&[("Authorization", "Bearer tok"), ("Content-Type", "application/json")])
    );
    assert_eq!(
        request.body,
        Body::Text(
            "{\"mimeType\":\"application/vnd.google-apps.folder\",\"name\":\"sub\",\"parents\":[\"P1\"]}"
                .to_string()
        )
    );
}

#[test]
fn moving_a_file() {
    let request = move_request(&config(), "F1", "NEW", "OLD", "b.md");
    assert_eq!(request.method, Method::Patch);
    assert_eq!(
        request.url,
        "https://www.googleapis.com/drive/v3/files/F1?addParents=NEW&removeParents=OLD"
    );
    assert_eq!(
        request.headers,
        pairs(&[("Authorization", "Bearer tok"), ("Content-Type", "application/json")])
    );
    assert_eq!(request.body, Body::Text("{\"name\":\"b.md\"}".to_string()));
}

fn form(request: HttpRequest) -> String {
    assert_eq!(request.method, Method::Post);
    assert_eq!(request.url, "https://oauth2.googleapis.com/token");
    assert_eq!(
        request.headers,
        pairs(&[("Content-Type", "application/x-www-form-urlencoded")])
    );
    match request.body {
        Body::Text(text) => text,
        _ => panic!("no form"),
    }
}

#[test]
fn asking_for_a_new_token() {
    assert_eq!(
        form(refresh_request(&config())),
        "client_id=id%201&client_secret=s%26t&refresh_token=ref%2F1&grant_type=refresh_token"
    );
}

#[test]
fn exchanging_a_code() {
    assert_eq!(
        form(exchange_request(&config(), "4/x", "http://localhost:1/cb")),
        "client_id=id%201&client_secret=s%26t&code=4%2Fx&redirect_uri=http%3A%2F%2Flocalhost%3A1%2Fcb&grant_type=authorization_code"
    );
    assert_eq!(
        form(verified_exchange_request(&config(), "4/x", "http://localhost:1/cb", "v~1+")),
        "client_id=id%201&client_secret=s%26t&code=4%2Fx&redirect_uri=http%3A%2F%2Flocalhost%3A1%2Fcb&grant_type=authorization_code&code_verifier=v~1%2B"
    );
}

#[test]
fn an_upload_frames_its_parts() {
    let (content_type, body) =
        build_multipart_upload("{\"name\":\"x\"}", &[0, 255, 13, 10], "application/octet-stream");
    assert_eq!(content_type, "multipart/related; boundary=diaryx_boundary_0123456789");
    let mut expected: Vec<u8> = b"--diaryx_boundary_0123456789\r\nContent-Type: application/json; charset=UTF-8\r\n\r\n{\"name\":\"x\"}\r\n--diaryx_boundary_0123456789\r\nContent-Type: application/octet-stream\r\n\r\n".to_vec();
    expected.extend_from_slice(&[0, 255, 13, 10]);
    expected.extend_from_slice(b"\r\n--diaryx_boundary_0123456789--\r\n");
    assert_eq!(body, expected);
}

fn find(bytes: &[u8], mark: &[u8]) -> usize {
    bytes.windows(mark.len()).position(|window| window == mark).unwrap()
}

fn part(bytes: &[u8]) -> (Vec<u8>, Vec<u8>) {
    let line = find(bytes, b"\r\n") + 2;
    let headers = line + find(&bytes[line..], b"\r\n\r\n") + 4;
    let delimiter = b"\r\n--diaryx_boundary_0123456789";
    let end = headers + find(&bytes[headers..], delimiter);
    (bytes[headers..end].to_vec(), bytes[end + delimiter.len()..].to_vec())
}

#[test]
fn an_upload_is_read_back_part_by_part() {
    let content: Vec<u8> = b"\r\n--diaryx\r\n\r\n--".to_vec();
    let (_, body) = build_multipart_upload("{\"name\":\"\u{e9}\"}", &content, "text/plain");
    let (first, rest) = part(&body);
    let (second, _) = part(&rest);
    assert_eq!(first, "{\"name\":\"\u{e9}\"}".as_bytes().to_vec());
    assert_eq!(second, content);
}
