use rocket_slogger::path::{split_path, split_request};
use rocket_slogger::text::{decimal_text, holds_text, join, remove_repeats};

fn strings(texts: &[&str]) -> Vec<String> {
    texts.iter().map(|text| text.to_string()).collect()
}

#[test]
fn numbers_are_written_in_decimal() {
    for number in [0, 7, 10, 80, 8000, 65_535, u64::MAX] {
        assert_eq!(decimal_text(number), number.to_string());
    }
}

#[test]
fn texts_are_joined_with_a_separator_between() {
    assert_eq!(join(&strings(&[]), "; "), "");
    assert_eq!(join(&strings(&["a"]), "; "), "a");
    assert_eq!(join(&strings(&["a", "", "b"]), "; "), "a; ; b");
}

#[test]
fn repeats_are_removed_wherever_they_stand() {
    assert_eq!(
        remove_repeats(strings(&["b", "a", "b", "c", "a"])),
        strings(&["b", "a", "c"])
    );
    assert!(remove_repeats(vec![]).is_empty());
    assert!(holds_text(&strings(&["a", "b"]), &"b".to_string()));
    assert!(!holds_text(&strings(&["a", "b"]), &"c".to_string()));
}

#[test]
fn paths_are_split_into_their_segments() {
    assert_eq!(split_path("//a/b//c/"), strings(&["a", "b", "c"]));
    assert_eq!(split_path("gr\u{fc}n"), strings(&["gr\u{fc}n"]));
    assert!(split_path("").is_empty());
    assert!(split_path("///").is_empty());
}

#[test]
fn request_paths_are_split_without_their_query() {
    assert_eq!(split_request("/a/b?c/d"), strings(&["a", "b"]));
    assert_eq!(split_request("/a/b"), strings(&["a", "b"]));
    assert!(split_request("?/a").is_empty());
    assert!(split_request("").is_empty());
}
