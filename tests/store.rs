use oxnotes::model::StoreError;
use oxnotes::store::{
    create_categorized_note, create_category, create_uncategorized_note, delete_categorized_note,
    delete_category, delete_uncategorized_note, get_categories, get_categorized_notes,
    get_uncategorized_notes, open_categorized_note, open_uncategorized_note, Store,
};

fn root() -> Store {
    Store::new("/data/oxnotes")
}

#[test]
fn category_is_listed_once_and_cannot_be_created_twice() {
    let mut s = root();
    assert_eq!(create_category(&mut s, "work"), Ok("/data/oxnotes/work".to_string()));
    let listed = get_categories(&s);
    assert_eq!(listed.iter().filter(|c| c.as_str() == "work").count(), 1);
    assert_eq!(create_category(&mut s, "work"), Err(StoreError::AlreadyExists));
    assert_eq!(get_categories(&s), vec!["work".to_string()]);
}

#[test]
fn uncategorized_note_lifecycle() {
    let mut s = root();
    assert_eq!(
        create_uncategorized_note(&mut s, "todo"),
        Ok("/data/oxnotes/todo.note".to_string())
    );
    assert!(get_uncategorized_notes(&s).contains(&"todo".to_string()));
    assert_eq!(open_uncategorized_note(&s, "todo"), Ok("/data/oxnotes/todo.note".to_string()));
    assert_eq!(
        delete_uncategorized_note(&mut s, "todo"),
        Ok("/data/oxnotes/todo.note".to_string())
    );
    assert!(!get_uncategorized_notes(&s).contains(&"todo".to_string()));
    assert_eq!(open_uncategorized_note(&s, "todo"), Err(StoreError::NotFound));
}

#[test]
fn deleting_what_was_never_created_is_not_found() {
    let mut s = root();
    create_category(&mut s, "work").unwrap();
    create_uncategorized_note(&mut s, "todo").unwrap();
    let before_categories = get_categories(&s);
    let before_notes = get_uncategorized_notes(&s);
    assert_eq!(delete_category(&mut s, "ghost"), Err(StoreError::NotFound));
    assert_eq!(delete_uncategorized_note(&mut s, "ghost"), Err(StoreError::NotFound));
    assert_eq!(delete_categorized_note(&mut s, "work", "ghost"), Err(StoreError::NotFound));
    assert_eq!(delete_categorized_note(&mut s, "nowhere", "todo"), Err(StoreError::NotFound));
    assert_eq!(get_categories(&s), before_categories);
    assert_eq!(get_uncategorized_notes(&s), before_notes);
}

#[test]
fn listing_a_missing_category_fails() {
    let s = root();
    assert_eq!(
        get_categorized_notes(&s, "missing-category"),
        Err(StoreError::CategoryNotFound)
    );
}

#[test]
fn categorized_round_trip() {
    let mut s = root();
    create_category(&mut s, "cat").unwrap();
    let path = "/data/oxnotes/cat/n.note".to_string();
    assert_eq!(create_categorized_note(&mut s, "cat", "n"), Ok(path.clone()));
    assert_eq!(open_categorized_note(&s, "cat", "n"), Ok(path.clone()));
    assert_eq!(get_categorized_notes(&s, "cat"), Ok(vec!["n".to_string()]));
    assert_eq!(delete_categorized_note(&mut s, "cat", "n"), Ok(path));
    assert_eq!(open_categorized_note(&s, "cat", "n"), Err(StoreError::NotFound));
    assert_eq!(get_categorized_notes(&s, "cat"), Ok(vec![]));
}

#[test]
fn category_and_note_may_share_a_name() {
    let mut s = root();
    let dir = create_category(&mut s, "ideas").unwrap();
    let file = create_uncategorized_note(&mut s, "ideas").unwrap();
    assert_ne!(dir, file);
    assert_eq!(get_categories(&s), vec!["ideas".to_string()]);
    assert_eq!(get_uncategorized_notes(&s), vec!["ideas".to_string()]);
    assert_eq!(delete_category(&mut s, "ideas"), Ok("/data/oxnotes/ideas".to_string()));
    assert_eq!(get_uncategorized_notes(&s), vec!["ideas".to_string()]);
    assert_eq!(open_uncategorized_note(&s, "ideas"), Ok("/data/oxnotes/ideas.note".to_string()));
}

#[test]
fn escaping_names_are_rejected() {
    let mut s = root();
    create_category(&mut s, "cat").unwrap();
    assert_eq!(create_category(&mut s, "../evil"), Err(StoreError::InvalidName));
    assert_eq!(create_uncategorized_note(&mut s, "../evil"), Err(StoreError::InvalidName));
    assert_eq!(create_categorized_note(&mut s, "cat", "../evil"), Err(StoreError::InvalidName));
    assert_eq!(create_categorized_note(&mut s, "../evil", "n"), Err(StoreError::InvalidName));
    assert_eq!(get_categories(&s), vec!["cat".to_string()]);
    assert!(get_uncategorized_notes(&s).is_empty());
}

#[test]
fn other_invalid_names_are_rejected_everywhere() {
    let mut s = root();
    for bad in ["", ".", "..", "a/b", "a\\b", "nul\0"] {
        assert_eq!(create_category(&mut s, bad), Err(StoreError::InvalidName));
        assert_eq!(delete_category(&mut s, bad), Err(StoreError::InvalidName));
        assert_eq!(delete_uncategorized_note(&mut s, bad), Err(StoreError::InvalidName));
        assert_eq!(open_uncategorized_note(&s, bad), Err(StoreError::InvalidName));
        assert_eq!(open_categorized_note(&s, bad, "n"), Err(StoreError::InvalidName));
        assert_eq!(get_categorized_notes(&s, bad), Err(StoreError::InvalidName));
    }
    assert_eq!(create_category(&mut s, "..."), Ok("/data/oxnotes/...".to_string()));
    assert_eq!(create_uncategorized_note(&mut s, ".hidden"), Ok("/data/oxnotes/.hidden.note".to_string()));
}

#[test]
fn note_in_missing_category_is_category_not_found() {
    let mut s = root();
    assert_eq!(create_categorized_note(&mut s, "nowhere", "n"), Err(StoreError::CategoryNotFound));
}

#[test]
fn duplicate_notes_already_exist_per_scope() {
    let mut s = root();
    create_category(&mut s, "a").unwrap();
    create_category(&mut s, "b").unwrap();
    assert!(create_categorized_note(&mut s, "a", "n").is_ok());
    assert!(create_categorized_note(&mut s, "b", "n").is_ok());
    assert!(create_uncategorized_note(&mut s, "n").is_ok());
    assert_eq!(create_categorized_note(&mut s, "a", "n"), Err(StoreError::AlreadyExists));
    assert_eq!(create_uncategorized_note(&mut s, "n"), Err(StoreError::AlreadyExists));
}

#[test]
fn deleting_a_category_removes_its_notes_only() {
    let mut s = root();
    create_category(&mut s, "a").unwrap();
    create_category(&mut s, "b").unwrap();
    create_categorized_note(&mut s, "a", "x").unwrap();
    create_categorized_note(&mut s, "b", "y").unwrap();
    create_uncategorized_note(&mut s, "z").unwrap();
    delete_category(&mut s, "a").unwrap();
    assert_eq!(get_categories(&s), vec!["b".to_string()]);
    assert_eq!(get_categorized_notes(&s, "a"), Err(StoreError::CategoryNotFound));
    assert_eq!(get_categorized_notes(&s, "b"), Ok(vec!["y".to_string()]));
    assert_eq!(get_uncategorized_notes(&s), vec!["z".to_string()]);
    create_category(&mut s, "a").unwrap();
    assert_eq!(get_categorized_notes(&s, "a"), Ok(vec![]));
}

#[test]
fn listing_keeps_enumeration_order() {
    let mut s = root();
    for c in ["c", "a", "b"] {
        create_category(&mut s, c).unwrap();
    }
    for n in ["3", "1", "2"] {
        create_uncategorized_note(&mut s, n).unwrap();
    }
    assert_eq!(get_categories(&s), vec!["c".to_string(), "a".to_string(), "b".to_string()]);
    assert_eq!(
        get_uncategorized_notes(&s),
        vec!["3".to_string(), "1".to_string(), "2".to_string()]
    );
}

#[test]
fn recorded_scan_is_deduplicated() {
    let mut s = root();
    s.record_entry(None, "work", true, false);
    s.record_entry(None, "work", true, false);
    s.record_entry(None, "todo.note", false, true);
    s.record_entry(None, "todo.note", false, true);
    s.record_entry(Some("work"), "plan.note", false, true);
    s.record_entry(Some("unknown"), "lost.note", false, true);
    s.record_entry(None, "readme.txt", false, true);
    s.record_entry(Some("work"), "nested", true, false);
    assert_eq!(s.root(), "/data/oxnotes");
    assert_eq!(get_categories(&s), vec!["work".to_string()]);
    assert_eq!(get_uncategorized_notes(&s), vec!["todo".to_string()]);
    assert_eq!(get_categorized_notes(&s, "work"), Ok(vec!["plan".to_string()]));
    assert_eq!(create_categorized_note(&mut s, "work", "plan"), Err(StoreError::AlreadyExists));
    assert_eq!(get_categorized_notes(&s, "unknown"), Err(StoreError::CategoryNotFound));
}

#[test]
fn category_over_a_note_file_already_exists() {
    let mut s = root();
    create_uncategorized_note(&mut s, "x").unwrap();
    assert_eq!(create_category(&mut s, "x.note"), Err(StoreError::AlreadyExists));
    assert!(get_categories(&s).is_empty());
}

#[test]
fn note_over_a_directory_already_exists() {
    let mut s = root();
    s.record_entry(None, "n.note", true, false);
    assert_eq!(get_categories(&s), vec!["n.note".to_string()]);
    assert_eq!(create_uncategorized_note(&mut s, "n"), Err(StoreError::AlreadyExists));
    assert!(get_uncategorized_notes(&s).is_empty());
    create_category(&mut s, "m.note").unwrap();
    assert_eq!(create_uncategorized_note(&mut s, "m"), Err(StoreError::AlreadyExists));
}

#[test]
fn plain_files_and_nested_directories_are_taken() {
    let mut s = root();
    s.record_entry(None, "work", false, true);
    assert_eq!(create_category(&mut s, "work"), Err(StoreError::AlreadyExists));
    assert_eq!(delete_category(&mut s, "work"), Err(StoreError::NotFound));
    create_category(&mut s, "cat").unwrap();
    s.record_entry(Some("cat"), "n.note", true, false);
    assert_eq!(get_categorized_notes(&s, "cat"), Ok(vec![]));
    assert_eq!(create_categorized_note(&mut s, "cat", "n"), Err(StoreError::AlreadyExists));
    delete_category(&mut s, "cat").unwrap();
    create_category(&mut s, "cat").unwrap();
    assert_eq!(
        create_categorized_note(&mut s, "cat", "n"),
        Ok("/data/oxnotes/cat/n.note".to_string())
    );
}

#[test]
fn deleted_note_frees_its_file_name() {
    let mut s = root();
    create_uncategorized_note(&mut s, "x").unwrap();
    delete_uncategorized_note(&mut s, "x").unwrap();
    assert_eq!(create_category(&mut s, "x.note"), Ok("/data/oxnotes/x.note".to_string()));
}
