use text_editor::open_files_data::{FileError, OpenFilesData, PendingWrite, ReadOutcome};

fn text(s: &str) -> ReadOutcome {
    ReadOutcome::Text(s.to_string())
}

#[test]
fn open_selects_the_new_file() {
    let mut d = OpenFilesData::new();
    assert_eq!(d.open_file("/tmp/a.txt", text("one\ntwo\nthree")), Ok(()));
    assert_eq!(d.open_file("/tmp/b.txt", text("only")), Ok(()));
    assert_eq!(d.get_currently_selected_file_path(), "/tmp/b.txt");
    assert_eq!(d.get_currently_selected_file_content(), "only");
    assert_eq!(d.get_currently_selected_file_name(), "b.txt");
    assert_eq!(d.get_open_file_names(), vec!["a.txt".to_string(), "b.txt".to_string()]);
    assert_eq!(d.get_open_file_paths(), &vec!["/tmp/a.txt".to_string(), "/tmp/b.txt".to_string()]);
}

#[test]
fn open_errors_leave_the_files_unchanged() {
    let mut d = OpenFilesData::new();
    d.open_file("a", text("x")).unwrap();
    let e = d.open_file("a", text("y")).unwrap_err();
    assert_eq!(e, FileError::AlreadyOpen("a".to_string()));
    assert_eq!(e.message(), "File a already opened");
    let e = d.open_file("b", ReadOutcome::Missing).unwrap_err();
    assert_eq!(e, FileError::NotFound("b".to_string()));
    assert_eq!(e.message(), "File b does not exist");
    let e = d.open_file("c", ReadOutcome::Unreadable).unwrap_err();
    assert_eq!(e, FileError::ReadError("c".to_string()));
    assert_eq!(e.message(), "Error while reading file c");
    assert_eq!(d.get_open_file_contents(), &vec!["x".to_string()]);
    assert_eq!(d.get_currently_selected_file_content(), "x");
}

#[test]
fn closing_the_only_file_leaves_none() {
    let mut d = OpenFilesData::new();
    d.open_file("a", text("x")).unwrap();
    assert_eq!(d.close_file(), Ok(()));
    assert!(d.get_open_file_paths().is_empty());
    assert!(d.get_open_file_contents().is_empty());
    d.select_next_file();
    d.select_previous_file();
    assert_eq!(d.get_currently_selected_file_content(), "");
    assert_eq!(d.get_currently_selected_file_path(), "/(unsaved)");
    assert_eq!(d.get_currently_selected_file_name(), "(unsaved)");
    let e = d.close_file().unwrap_err();
    assert_eq!(e, FileError::NothingToClose);
    assert_eq!(e.message(), "No file to close");
}

#[test]
fn closing_selects_the_previous_file() {
    let mut d = OpenFilesData::new();
    d.open_file("a", text("1")).unwrap();
    d.open_file("b", text("2")).unwrap();
    d.open_file("c", text("3")).unwrap();
    d.close_file().unwrap();
    assert_eq!(d.get_currently_selected_file_path(), "b");
    d.select_previous_file();
    assert_eq!(d.get_currently_selected_file_path(), "a");
    d.close_file().unwrap();
    assert_eq!(d.get_currently_selected_file_path(), "b");
    assert_eq!(d.get_open_file_paths(), &vec!["b".to_string()]);
}

#[test]
fn selection_cycles_through_all_files() {
    let mut d = OpenFilesData::new();
    for (p, c) in [("a", "1"), ("b", "2"), ("c", "3")] {
        d.open_file(p, text(c)).unwrap();
    }
    d.select_next_file();
    assert_eq!(d.get_currently_selected_file_path(), "a");
    d.select_next_file();
    d.select_next_file();
    assert_eq!(d.get_currently_selected_file_path(), "c");
    for _ in 0..3 {
        d.select_previous_file();
    }
    assert_eq!(d.get_currently_selected_file_path(), "c");
    d.select_previous_file();
    assert_eq!(d.get_currently_selected_file_path(), "b");
    for _ in 0..3 {
        d.select_next_file();
    }
    assert_eq!(d.get_currently_selected_file_path(), "b");
}

#[test]
fn replaced_content_is_saved_to_the_opened_path() {
    let mut d = OpenFilesData::new();
    d.open_file("/home/me/notes.txt", text("before")).unwrap();
    d.replace_currently_selected_file_content("after");
    let w = d.save_file().unwrap();
    assert_eq!(
        w,
        PendingWrite { path: "/home/me/notes.txt".to_string(), content: "after".to_string() }
    );
    assert_eq!(d.get_open_file_paths(), &vec!["/home/me/notes.txt".to_string()]);
}

#[test]
fn unsaved_content_gets_a_generated_name() {
    let mut d = OpenFilesData::new();
    d.replace_currently_selected_file_content("draft");
    assert_eq!(d.get_currently_selected_file_path(), "/(unsaved)");
    let w = d.save_file().unwrap();
    assert!(!w.path.is_empty());
    assert!(w.path.contains('-'));
    assert_eq!(w.content, "draft");
    // Until the write is reported as done, the buffer has no path.
    assert!(d.get_open_file_paths().is_empty());
    d.record_saved(&w.path);
    assert_eq!(d.get_open_file_paths(), &vec![w.path.clone()]);
    assert_eq!(d.get_currently_selected_file_path(), w.path);
    let again = d.save_file().unwrap();
    assert_eq!(again.path, w.path);
    d.record_saved("elsewhere");
    assert_eq!(d.get_open_file_paths(), &vec![w.path.clone()]);
}

#[test]
fn unsaved_content_takes_the_given_name() {
    let mut d = OpenFilesData::new();
    d.replace_currently_selected_file_content("draft");
    let w = d.save_file_with_name("fresh-name".to_string()).unwrap();
    assert_eq!(w.path, "fresh-name");
    assert_eq!(w.content, "draft");
    assert_eq!(d.get_currently_selected_file_path(), "/(unsaved)");
    d.record_saved(&w.path);
    assert_eq!(d.get_currently_selected_file_path(), "fresh-name");
}

#[test]
fn opening_beside_unsaved_content_keeps_paths_in_place() {
    let mut d = OpenFilesData::new();
    d.replace_currently_selected_file_content("draft");
    d.open_file("a", text("x")).unwrap();
    assert_eq!(d.get_currently_selected_file_path(), "a");
    assert_eq!(d.get_currently_selected_file_content(), "x");
    d.select_next_file();
    assert_eq!(d.get_currently_selected_file_path(), "/(unsaved)");
    assert_eq!(d.get_currently_selected_file_content(), "draft");
    d.close_file().unwrap();
    assert_eq!(d.get_currently_selected_file_path(), "a");
}

#[test]
fn nothing_to_save_without_content() {
    let d = OpenFilesData::new();
    let e = d.save_file().unwrap_err();
    assert_eq!(e, FileError::NothingToSave);
    assert_eq!(e.message(), "No file to save");
    let e = FileError::WriteError("p".to_string(), "denied".to_string());
    assert_eq!(e.message(), "Error while writing file p: denied");
}
