use diaryx_storage_gdrive::encoding::{escape_query, uri_encode};
use diaryx_storage_gdrive::path::{file_name, split_path};
use diaryx_storage_gdrive::text::{
    blank, characters, decimal_text, ends_with, same_text, slice_text, trim, white_space,
};

#[test]
fn texts_are_compared_by_their_characters() {
    assert!(same_text("abc", "abc"));
    assert!(!same_text("abc", "abd"));
    assert!(!same_text("abc", "ab"));
    assert!(same_text("", ""));
}

#[test]
fn characters_and_slices() {
    let chars = characters("a\u{e9}\u{1f600}b");
    assert_eq!(chars, vec!['a', '\u{e9}', '\u{1f600}', 'b']);
    assert_eq!(slice_text(&chars, 1, 3), "\u{e9}\u{1f600}");
    assert_eq!(slice_text(&chars, 2, 2), "");
}

#[test]
fn suffixes() {
    assert!(ends_with("notes.md", ".md"));
    assert!(ends_with(".md", ".md"));
    assert!(!ends_with("md", ".md"));
    assert!(!ends_with("notes.md.bak", ".md"));
    assert!(!ends_with("NOTES.MD", ".md"));
    assert!(ends_with("anything", ""));
}

#[test]
fn white_space_is_the_unicode_property() {
    for n in 0..=0x10FFFFu32 {
        if let Some(c) = char::from_u32(n) {
            assert_eq!(white_space(c), c.is_whitespace(), "{:x}", n);
        }
    }
}

#[test]
fn trimming() {
    assert_eq!(trim("  a b \t\n"), "a b");
    assert_eq!(trim("\u{a0}x\u{3000}"), "x");
    assert_eq!(trim(" \t "), "");
    assert_eq!(trim(""), "");
    assert_eq!(trim(trim("  a ").as_str()), "a");
}

#[test]
fn blank_texts() {
    assert!(blank(""));
    assert!(blank(" \t\r\n\u{2003}"));
    assert!(!blank(" x "));
}

#[test]
fn decimal_numbers() {
    assert_eq!(decimal_text(0), "0");
    assert_eq!(decimal_text(7), "7");
    assert_eq!(decimal_text(404), "404");
    assert_eq!(decimal_text(65535), "65535");
}

#[test]
fn paths_are_split_at_slashes() {
    assert_eq!(split_path("dir/subdir/file.md"), vec!["dir", "subdir", "file.md"]);
    assert_eq!(split_path("/dir//file.md/"), vec!["dir", "file.md"]);
    assert_eq!(split_path("file"), vec!["file"]);
    assert_eq!(split_path(""), Vec::<String>::new());
    assert_eq!(split_path("///"), Vec::<String>::new());
    assert_eq!(split_path("a b/\u{e9}"), vec!["a b", "\u{e9}"]);
}

#[test]
fn the_last_component_is_the_name() {
    assert_eq!(file_name("dir/subdir/file.md"), "file.md");
    assert_eq!(file_name("/dir/sub//"), "sub");
    assert_eq!(file_name("file"), "file");
    assert_eq!(file_name(""), "");
    assert_eq!(file_name("//"), "");
}

#[test]
fn query_literals_are_escaped() {
    assert_eq!(escape_query("plain"), "plain");
    assert_eq!(escape_query("it's"), "it\\'s");
    assert_eq!(escape_query("a\\b"), "a\\\\b");
    assert_eq!(escape_query("\\'"), "\\\\\\'");
    assert_eq!(escape_query(""), "");
}

#[test]
fn components_are_percent_encoded() {
    assert_eq!(uri_encode("AZaz09-_.~"), "AZaz09-_.~");
    assert_eq!(uri_encode("a b&c=d/e?"), "a%20b%26c%3Dd%2Fe%3F");
    assert_eq!(uri_encode("'\n%"), "%27%0A%25");
    assert_eq!(uri_encode("\u{e9}\u{20ac}"), "%C3%A9%E2%82%AC");
    assert_eq!(uri_encode(""), "");
}

#[test]
fn different_texts_are_encoded_differently() {
    assert_ne!(uri_encode("a b"), uri_encode("a%20b"));
    assert_ne!(uri_encode("a+b"), uri_encode("a b"));
}
