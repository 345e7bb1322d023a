use oxnotes::names::{is_valid_name, join_path, note_file, note_name_of_file, note_path_in};
use oxnotes::platform::{editor_command, get_save_path, Platform};

#[test]
fn valid_names() {
    assert!(is_valid_name("todo"));
    assert!(is_valid_name("..."));
    assert!(is_valid_name("a.b"));
    assert!(is_valid_name("é"));
    assert!(!is_valid_name(""));
    assert!(!is_valid_name("."));
    assert!(!is_valid_name(".."));
    assert!(!is_valid_name("../evil"));
    assert!(!is_valid_name("a\\b"));
}

#[test]
fn paths_are_joined() {
    assert_eq!(join_path("/r", "a"), "/r/a");
    assert_eq!(note_file("todo"), "todo.note");
    assert_eq!(note_path_in("/r", None, "todo"), "/r/todo.note");
    assert_eq!(note_path_in("/r", Some("cat"), "n"), "/r/cat/n.note");
}

#[test]
fn note_files_are_recognised() {
    assert_eq!(note_name_of_file("todo.note"), Some("todo".to_string()));
    assert_eq!(note_name_of_file("a.b.note"), Some("a.b".to_string()));
    assert_eq!(note_name_of_file("été.note"), Some("été".to_string()));
    assert_eq!(note_name_of_file(".note"), None);
    assert_eq!(note_name_of_file("todo.txt"), None);
    assert_eq!(note_name_of_file("note"), None);
    assert_eq!(note_name_of_file("todo.notes"), None);
}

#[test]
fn save_path_follows_platform_conventions() {
    assert_eq!(
        get_save_path(Platform::Linux, "/home/u", None),
        "/home/u/.local/share/oxnotes"
    );
    assert_eq!(
        get_save_path(Platform::Linux, "/home/u", Some("")),
        "/home/u/.local/share/oxnotes"
    );
    assert_eq!(get_save_path(Platform::Linux, "/home/u", Some("/xdg")), "/xdg/oxnotes");
    assert_eq!(
        get_save_path(Platform::Windows, "C:/Users/u", None),
        "C:/Users/u/AppData/Roaming/oxnotes"
    );
}

#[test]
fn editor_per_platform() {
    assert_eq!(editor_command(Platform::Linux), "nano");
    assert_eq!(editor_command(Platform::Windows), "notepad");
}
