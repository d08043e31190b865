use rnpmrc::paths::{
    active_link_path, build_file_path, chars_of, file_name_under, is_profile_file_name, last_path_component,
    profile_file_name, profile_file_path, same_text, string_of,
};

#[test]
fn build_file_path_adds_separator() {
    assert_eq!(build_file_path("/home/u", ".npmrc"), "/home/u/.npmrc");
}

#[test]
fn build_file_path_keeps_trailing_separator() {
    assert_eq!(build_file_path("/home/u/", ".npmrc"), "/home/u/.npmrc");
}

#[test]
fn build_file_path_absolute_name_replaces_dir() {
    assert_eq!(build_file_path("/home/u", "/etc/npmrc"), "/etc/npmrc");
}

#[test]
fn build_file_path_empty_dir() {
    assert_eq!(build_file_path("", "a"), "a");
}

#[test]
fn build_file_path_empty_name() {
    assert_eq!(build_file_path("/x", ""), "/x/");
}

#[test]
fn profile_file_name_has_infix() {
    assert_eq!(profile_file_name("work"), ".npmrc.work");
}

#[test]
fn profile_file_path_under_root() {
    assert_eq!(
        profile_file_path("/home/u/.rnpmrc", "work"),
        "/home/u/.rnpmrc/.npmrc.work"
    );
}

#[test]
fn active_link_path_in_home() {
    assert_eq!(active_link_path("/home/u"), "/home/u/.npmrc");
}

#[test]
fn profile_names_are_recognised() {
    assert!(is_profile_file_name(".npmrc.alpha"));
    assert!(is_profile_file_name("x.npmrc.y"));
    assert!(is_profile_file_name(".npmrc."));
    assert!(!is_profile_file_name(".npmrc"));
    assert!(!is_profile_file_name("notes.txt"));
    assert!(!is_profile_file_name(""));
    assert!(!is_profile_file_name(".npmrcx"));
}

#[test]
fn file_name_under_direct_child() {
    assert_eq!(
        file_name_under("/home/u/.rnpmrc", "/home/u/.rnpmrc/.npmrc.work"),
        Some(".npmrc.work".to_string())
    );
}

#[test]
fn file_name_under_nested_file() {
    assert_eq!(file_name_under("/c", "/c/s/f"), Some("f".to_string()));
    assert_eq!(
        file_name_under("/home/u/.rnpmrc/", "/home/u/.rnpmrc/sub/x"),
        Some("x".to_string())
    );
}

#[test]
fn file_name_under_rejects_outside_and_bare_dir() {
    assert_eq!(file_name_under("/home/u/.rnpmrc", "/tmp/.npmrc.work"), None);
    assert_eq!(file_name_under("/home/u/.rnpmrc", "/home/u/.rnpmrc/"), None);
    assert_eq!(file_name_under("/home/u/.rnpmrc", "/home/u/.rnpmrc"), None);
    assert_eq!(file_name_under("/home/u/.rnpmrc", "/home/u/.rnpmrcx/y"), None);
    assert_eq!(file_name_under("/c", "/c/s/"), None);
}

#[test]
fn last_path_component_cases() {
    assert_eq!(last_path_component("/a/b/c"), "c");
    assert_eq!(last_path_component("c"), "c");
    assert_eq!(last_path_component("/a/b/"), "");
    assert_eq!(last_path_component(""), "");
}

#[test]
fn text_helpers_round_trip() {
    let cs = chars_of("héllo");
    assert_eq!(cs, vec!['h', 'é', 'l', 'l', 'o']);
    assert_eq!(string_of(&cs), "héllo");
    assert!(same_text("abc", "abc"));
    assert!(!same_text("abc", "abd"));
    assert!(!same_text("abc", "ab"));
}
