use oto_core::codex::{extract_json_object, validate_codex_relative_path, PathPart};
use oto_core::models::prompt_or_default;

fn normal(name: &str) -> PathPart {
    PathPart::Normal(name.to_string())
}

#[test]
fn json_object_spans_first_to_last_brace() {
    assert_eq!(
        extract_json_object("Sure! {\"a\": {\"b\": 1}} done"),
        Some("{\"a\": {\"b\": 1}}".to_string())
    );
    assert_eq!(extract_json_object("{}"), Some("{}".to_string()));
    assert_eq!(extract_json_object("x{y}z}w"), Some("{y}z}".to_string()));
    assert_eq!(extract_json_object("é{日本}é"), Some("{日本}".to_string()));
}

#[test]
fn json_object_needs_both_braces_in_order() {
    assert_eq!(extract_json_object(""), None);
    assert_eq!(extract_json_object("no braces"), None);
    assert_eq!(extract_json_object("only { open"), None);
    assert_eq!(extract_json_object("only } close"), None);
    assert_eq!(extract_json_object("} before {"), None);
}

#[test]
fn relative_paths_keep_their_names() {
    let parts = vec![PathPart::CurDir, normal("src"), normal("main.rs")];
    assert_eq!(
        validate_codex_relative_path("./src/main.rs", false, &parts),
        Ok(vec!["src".to_string(), "main.rs".to_string()])
    );
    assert_eq!(
        validate_codex_relative_path("index.html", false, &vec![normal("index.html")]),
        Ok(vec!["index.html".to_string()])
    );
}

#[test]
fn absolute_paths_are_refused() {
    assert_eq!(
        validate_codex_relative_path("/etc/passwd", true, &vec![PathPart::RootDir, normal("etc")]),
        Err("Absolute paths are not allowed: /etc/passwd".to_string())
    );
}

#[test]
fn paths_that_leave_the_directory_are_refused() {
    let parts = vec![normal("a"), PathPart::ParentDir, normal("b")];
    assert_eq!(
        validate_codex_relative_path("a/../b", false, &parts),
        Err("Invalid path component in a/../b".to_string())
    );
    assert_eq!(
        validate_codex_relative_path("C:x", false, &vec![PathPart::Prefix, normal("x")]),
        Err("Invalid path component in C:x".to_string())
    );
    assert_eq!(
        validate_codex_relative_path("x", false, &vec![PathPart::RootDir, normal("x")]),
        Err("Invalid path component in x".to_string())
    );
}

#[test]
fn paths_without_a_name_are_refused() {
    assert_eq!(
        validate_codex_relative_path("", false, &Vec::new()),
        Err("Empty file path returned by model".to_string())
    );
    assert_eq!(
        validate_codex_relative_path(".", false, &vec![PathPart::CurDir]),
        Err("Empty file path returned by model".to_string())
    );
}

#[test]
fn prompts_fall_back_to_the_built_in_one() {
    assert_eq!(prompt_or_default(None, "built in"), "built in");
    assert_eq!(prompt_or_default(Some(""), "built in"), "built in");
    assert_eq!(prompt_or_default(Some(" \n\t"), "built in"), "built in");
    assert_eq!(prompt_or_default(Some("  mine \n"), "built in"), "mine");
    assert_eq!(prompt_or_default(Some("a b"), ""), "a b");
}
