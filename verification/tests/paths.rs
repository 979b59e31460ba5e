use promptflow::error::AppError;
use promptflow::export::{export_archive_name, archive_entry_name};
use promptflow::paths::{
    expand_tilde_with, resolve_storage_root, check_storage_root, collection_path, prompt_file_path,
    file_in_dir,
};

const HOME: &str = "/home/user";

#[test]
fn tilde_expansion_replaces_the_shorthand() {
    assert_eq!(expand_tilde_with("~/docs", Some(HOME)), "/home/user/docs");
    assert_eq!(expand_tilde_with("~/", Some(HOME)), "/home/user/");
    assert_eq!(expand_tilde_with("~docs", Some(HOME)), "~docs");
    assert_eq!(expand_tilde_with("/abs", Some(HOME)), "/abs");
    assert_eq!(expand_tilde_with("~/docs", None), "~/docs");
}

#[test]
fn expansion_leaves_other_paths_alone_whatever_the_environment() {
    // without the leading shorthand the result never depends on the home
    // directory the platform reports
    assert_eq!(promptflow::paths::expand_tilde("/abs/path"), "/abs/path");
    assert_eq!(promptflow::paths::expand_tilde("plain"), "plain");
}

#[test]
fn auto_resolution_of_an_empty_override_is_the_default() {
    assert_eq!(
        promptflow::paths::resolve_storage_root_auto("", "/default"),
        Ok("/default".to_string())
    );
}

#[test]
fn relative_override_is_rejected() {
    let r = resolve_storage_root("relative/path", Some(HOME), "/default");
    assert!(r.is_err());
    assert_eq!(r.unwrap_err().code, "VALIDATION_ERROR");
}

#[test]
fn empty_override_falls_back_to_default() {
    assert_eq!(resolve_storage_root("", Some(HOME), "/default"), Ok("/default".to_string()));
    assert_eq!(resolve_storage_root("   ", Some(HOME), "/default"), Ok("/default".to_string()));
}

#[test]
fn bare_tilde_resolves_to_home() {
    assert_eq!(resolve_storage_root("~", Some(HOME), "/default"), Ok(HOME.to_string()));
    // with no home directory the bare shorthand stays relative and is rejected
    assert!(resolve_storage_root("~", None, "/default").is_err());
}

#[test]
fn tilde_path_resolves_under_home() {
    assert_eq!(
        resolve_storage_root("~/store", Some(HOME), "/default"),
        Ok("/home/user/store".to_string())
    );
}

#[test]
fn trailing_separators_are_stripped() {
    assert_eq!(resolve_storage_root("/a/b///", Some(HOME), "/d"), Ok("/a/b".to_string()));
    assert_eq!(resolve_storage_root("/a/b", Some(HOME), "/d"), Ok("/a/b".to_string()));
}

#[test]
fn override_pointing_at_a_file_is_rejected() {
    let r = check_storage_root(true, false);
    assert!(r.is_err());
    assert_eq!(r.unwrap_err().code, "VALIDATION_ERROR");
    assert_eq!(check_storage_root(true, true), Ok(()));
    assert_eq!(check_storage_root(false, false), Ok(()));
}

#[test]
fn collection_and_document_paths() {
    assert_eq!(collection_path("/root", "favorites"), "/root/favorites");
    assert_eq!(prompt_file_path("/root", "templates", "x"), "/root/templates/x.md");
    assert_eq!(file_in_dir("/root/templates", "x"), "/root/templates/x.md");
}

#[test]
fn archive_name_substitutes_unsafe_characters() {
    assert_eq!(
        export_archive_name("2024-01-01T10:30:00Z"),
        "PromptFlow-Export-2024-01-01T10-30-00Z.zip"
    );
    assert_eq!(export_archive_name("a b:c"), "PromptFlow-Export-a_b-c.zip");
}

#[test]
fn archive_entries_are_relative_to_the_root() {
    assert_eq!(
        archive_entry_name("/root", "/root/favorites/a.md", false),
        Some("favorites/a.md".to_string())
    );
    assert_eq!(archive_entry_name("/root", "/root/favorites", true), Some("favorites/".to_string()));
    assert_eq!(archive_entry_name("/root", "/root", true), None);
    // a path outside the root keeps its full name, as the walker hands it over
    assert_eq!(archive_entry_name("/root", "/elsewhere/x", false), Some("/elsewhere/x".to_string()));
}

#[test]
fn error_constructors_carry_their_codes() {
    assert_eq!(AppError::io_error("boom").code, "IO_ERROR");
    assert_eq!(AppError::not_found("x").code, "NOT_FOUND");
    assert_eq!(AppError::parse_error("x").code, "PARSE_ERROR");
    assert_eq!(AppError::validation_error("x").code, "VALIDATION_ERROR");
    assert_eq!(AppError::new("m", "C").message, "m");
    assert_eq!(AppError::io_error("boom").describe(), "[IO_ERROR] boom");
}
