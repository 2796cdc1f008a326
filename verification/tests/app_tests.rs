use checklist_manager::app::ChecklistApp;
use checklist_manager::checklist::{create_default_checklist, Checklist};
use checklist_manager::document::{timestamp_from_clock, Document, Timestamp};
use checklist_manager::pdf::PDFHandler;
use checklist_manager::store::DocumentStore;

fn doc(name: &str, seconds: i64) -> Document {
    Document {
        name: name.to_string(),
        checklist: create_default_checklist(),
        last_modified: Timestamp { seconds, nanos: 0 },
    }
}

fn store_of(names: &[&str]) -> DocumentStore {
    let mut s = DocumentStore::new();
    for (i, n) in names.iter().enumerate() {
        s.insert(n.to_string(), doc(n, i as i64));
    }
    s
}

fn names(s: &DocumentStore) -> Vec<String> {
    (0..s.len()).map(|i| s.get_index(i).unwrap().0.clone()).collect()
}

fn item_checked(c: &Checklist, section: &str, child: &str) -> bool {
    let si = c.get_index_of(&section.to_string()).unwrap();
    let sec = c.get_index(si).unwrap().1;
    let ci = sec.children.get_index_of(&child.to_string()).unwrap();
    sec.children.get_index(ci).unwrap().1.checked
}

fn with_new_checklist(name: &str) -> ChecklistApp {
    let mut app = ChecklistApp::new(Err("no saved state".to_string()));
    app.set_new_doc_name(name.to_string());
    assert!(app.create_checklist_at(Timestamp { seconds: 1_700_000_000, nanos: 5 }));
    app
}

#[test]
fn store_insert_get_remove() {
    let mut s = store_of(&["a", "b"]);
    assert_eq!(names(&s), vec!["a", "b"]);
    assert!(s.contains_key(&"a".to_string()));
    assert_eq!(s.get(&"b".to_string()).unwrap().last_modified.seconds, 1);
    let prev = s.insert("a".to_string(), doc("a", 9)).unwrap();
    assert_eq!(prev.last_modified.seconds, 0);
    assert_eq!(names(&s), vec!["a", "b"]);
    assert_eq!(s.get(&"a".to_string()).unwrap().last_modified.seconds, 9);
    let removed = s.remove(&"a".to_string()).unwrap();
    assert_eq!(removed.last_modified.seconds, 9);
    assert!(s.remove(&"a".to_string()).is_none());
    assert!(s.get(&"a".to_string()).is_none());
    assert_eq!(names(&s), vec!["b"]);
    assert!(s.get_index(1).is_none());
}

#[test]
fn store_toggle_in_named_document() {
    let mut s = store_of(&["a", "b"]);
    let a = "a".to_string();
    let t = Timestamp { seconds: 77, nanos: 3 };
    assert!(s.toggle_item(&a, &"Home Tab".to_string(), &"Update Status to Treating".to_string(), t));
    assert!(item_checked(&s.get(&a).unwrap().checklist, "Home Tab", "Update Status to Treating"));
    assert_eq!(s.get(&a).unwrap().last_modified, t);
    assert_eq!(s.get(&"b".to_string()).unwrap().last_modified.seconds, 1);
    assert!(!item_checked(&s.get(&"b".to_string()).unwrap().checklist, "Home Tab", "Update Status to Treating"));
    assert!(!s.toggle_item(&"c".to_string(), &"Home Tab".to_string(), &"DOB".to_string(), t));
    let later = Timestamp { seconds: 99, nanos: 0 };
    assert!(!s.toggle_item(&a, &"Home Tab".to_string(), &"DOB".to_string(), later));
    assert_eq!(s.get(&a).unwrap().last_modified, t);
}

#[test]
fn starts_from_saved_documents() {
    let app = ChecklistApp::new(Ok(store_of(&["first", "second"])));
    assert_eq!(app.current_document(), "first");
    assert_eq!(app.documents().len(), 2);
    assert!(app.pdf_handler().is_none());
    assert!(app.selected_section().is_none());
    assert!(app.new_doc_name().is_empty());
    assert!(app.rename_state().is_none());
    assert_eq!(app.current_doc().unwrap().name, "first");
}

#[test]
fn starts_empty_without_saved_documents() {
    let app = ChecklistApp::new(Err("missing".to_string()));
    assert_eq!(app.documents().len(), 0);
    assert_eq!(app.current_document(), "");
    assert!(app.current_doc().is_none());
    let app = ChecklistApp::new(Ok(DocumentStore::new()));
    assert_eq!(app.current_document(), "");
}

#[test]
fn new_checklist_with_empty_name_does_nothing() {
    let mut app = ChecklistApp::new(Ok(store_of(&["x"])));
    assert!(!app.create_checklist());
    assert_eq!(app.documents().len(), 1);
    assert_eq!(app.current_document(), "x");
}

#[test]
fn new_checklist_is_created_and_shown() {
    let app = with_new_checklist("Smith v. Jones");
    assert_eq!(app.current_document(), "Smith v. Jones");
    assert!(app.new_doc_name().is_empty());
    let d = app.current_doc().unwrap();
    assert_eq!(d.name, "Smith v. Jones");
    assert_eq!(d.last_modified, Timestamp { seconds: 1_700_000_000, nanos: 5 });
    assert_eq!(d.checklist.len(), 7);
    assert!(!item_checked(&d.checklist, "Client Tab", "Index Information"));
}

#[test]
fn new_checklist_uses_current_time() {
    let mut app = ChecklistApp::new(Err(String::new()));
    app.set_new_doc_name("Now".to_string());
    assert!(app.create_checklist());
    let d = app.current_doc().unwrap();
    assert!(d.last_modified.seconds > 1_600_000_000);
}

#[test]
fn new_checklist_replaces_same_name() {
    let mut app = ChecklistApp::new(Ok(store_of(&["a", "b"])));
    app.set_new_doc_name("a".to_string());
    assert!(app.create_checklist_at(Timestamp { seconds: 42, nanos: 0 }));
    assert_eq!(names(app.documents()), vec!["a", "b"]);
    assert_eq!(app.current_doc().unwrap().last_modified.seconds, 42);
}

#[test]
fn select_document_switches() {
    let mut app = ChecklistApp::new(Ok(store_of(&["a", "b"])));
    app.select_document(&"b".to_string());
    assert_eq!(app.current_document(), "b");
    assert_eq!(app.current_doc().unwrap().name, "b");
}

#[test]
fn rename_moves_document_and_current() {
    let mut app = ChecklistApp::new(Ok(store_of(&["a", "b"])));
    app.begin_rename(&"a".to_string());
    let (old, proposed) = app.rename_state().unwrap();
    assert_eq!((old.as_str(), proposed.as_str()), ("a", "a"));
    assert!(app.confirm_rename_at("c".to_string(), Timestamp { seconds: 500, nanos: 0 }));
    assert!(app.rename_state().is_none());
    assert_eq!(names(app.documents()), vec!["b", "c"]);
    assert_eq!(app.current_document(), "c");
    let d = app.current_doc().unwrap();
    assert_eq!(d.name, "c");
    assert_eq!(d.last_modified.seconds, 500);
    assert_eq!(d.checklist.len(), 7);
}

#[test]
fn rename_other_document_keeps_current() {
    let mut app = ChecklistApp::new(Ok(store_of(&["a", "b"])));
    app.begin_rename(&"b".to_string());
    assert!(app.confirm_rename("z".to_string()));
    assert_eq!(app.current_document(), "a");
    assert!(app.documents().contains_key(&"z".to_string()));
    assert!(!app.documents().contains_key(&"b".to_string()));
}

#[test]
fn rename_with_empty_name_or_without_window_does_nothing() {
    let mut app = ChecklistApp::new(Ok(store_of(&["a"])));
    assert!(!app.confirm_rename("c".to_string()));
    assert_eq!(names(app.documents()), vec!["a"]);
    app.begin_rename(&"a".to_string());
    assert!(!app.confirm_rename(String::new()));
    assert!(app.rename_state().is_some());
    app.cancel_rename();
    assert!(app.rename_state().is_none());
    assert_eq!(names(app.documents()), vec!["a"]);
}

#[test]
fn rename_of_missing_document_closes_window() {
    let mut app = ChecklistApp::new(Ok(store_of(&["a"])));
    app.begin_rename(&"ghost".to_string());
    assert!(!app.confirm_rename("c".to_string()));
    assert!(app.rename_state().is_none());
    assert_eq!(names(app.documents()), vec!["a"]);
}

#[test]
fn toggle_in_current_document_asks_for_saving() {
    let mut app = with_new_checklist("Case");
    let sec = "Home Tab".to_string();
    let kid = "DOB".to_string();
    assert!(!app.toggle_item(&sec, &kid));
    let kid = "Update Status to Treating".to_string();
    assert!(app.toggle_item(&sec, &kid));
    assert!(item_checked(&app.current_doc().unwrap().checklist, "Home Tab", "Update Status to Treating"));
    assert!(app.selected_section().is_none());
}

#[test]
fn toggle_selects_matching_pdf_section() {
    let mut app = with_new_checklist("Case");
    let mut h = PDFHandler::new().unwrap();
    h.attach_document(lopdf::Document::new());
    app.install_pdf_handler(h);
    assert!(app.selected_pdf_section().is_none());
    // No PDF section is titled "Client Tab": the selection stays.
    assert!(app.toggle_item(&"Client Tab".to_string(), &"Index Information".to_string()));
    assert!(app.selected_section().is_none());
    assert!(app.toggle_item(&"Home Tab".to_string(), &"Update Status to Treating".to_string()));
    assert_eq!(app.selected_section(), Some(0));
    let s = app.selected_pdf_section().unwrap();
    assert_eq!(s.title, "Home Tab");
    assert_eq!(s.page, 1);
}

#[test]
fn rename_to_same_name_keeps_document() {
    let mut app = ChecklistApp::new(Ok(store_of(&["a", "b"])));
    app.begin_rename(&"a".to_string());
    assert!(app.confirm_rename_at("a".to_string(), Timestamp { seconds: 8, nanos: 0 }));
    assert_eq!(names(app.documents()), vec!["b", "a"]);
    assert_eq!(app.current_document(), "a");
    assert_eq!(app.current_doc().unwrap().last_modified.seconds, 8);
}

#[test]
fn rename_onto_existing_name_replaces_it() {
    let mut app = ChecklistApp::new(Ok(store_of(&["a", "b"])));
    app.begin_rename(&"a".to_string());
    assert!(app.confirm_rename_at("b".to_string(), Timestamp { seconds: 9, nanos: 0 }));
    assert_eq!(names(app.documents()), vec!["b"]);
    assert_eq!(app.current_document(), "b");
    assert_eq!(app.current_doc().unwrap().last_modified.seconds, 9);
}

#[test]
fn rename_uses_current_time() {
    let mut app = ChecklistApp::new(Ok(store_of(&["a"])));
    app.begin_rename(&"a".to_string());
    assert!(app.confirm_rename("z".to_string()));
    assert!(app.current_doc().unwrap().last_modified.seconds > 1_600_000_000);
}

#[test]
fn toggle_stamps_the_shown_document() {
    let mut app = ChecklistApp::new(Ok(store_of(&["a", "b"])));
    let t = Timestamp { seconds: 1234, nanos: 56 };
    assert!(app.toggle_item_at(&"Home Tab".to_string(), &"Update Status to Treating".to_string(), t));
    assert_eq!(app.current_doc().unwrap().last_modified, t);
    assert_eq!(app.documents().get(&"b".to_string()).unwrap().last_modified.seconds, 1);
    assert!(app.toggle_item(&"Home Tab".to_string(), &"Update Status to Treating".to_string()));
    assert!(app.current_doc().unwrap().last_modified.seconds > 1_600_000_000);
    // A click on a missing item changes no time stamp.
    let before = app.current_doc().unwrap().last_modified;
    assert!(!app.toggle_item_at(&"Home Tab".to_string(), &"DOB".to_string(), t));
    assert_eq!(app.current_doc().unwrap().last_modified, before);
}

#[test]
fn failed_upload_keeps_the_loaded_pdf() {
    let mut app = with_new_checklist("Case");
    let mut h = PDFHandler::new().unwrap();
    h.attach_document(lopdf::Document::new());
    assert_eq!(app.finish_pdf_upload(h, Ok(())), Ok(()));
    assert!(app.pdf_handler().is_some());
    let mut other = PDFHandler::new().unwrap();
    let result = other.load_pdf(std::path::PathBuf::from("bad.pdf"), Ok(b"junk".to_vec()));
    assert!(result.is_err());
    assert_eq!(app.finish_pdf_upload(other, result.clone()), result);
    assert_eq!(app.pdf_handler().unwrap().get_sections().len(), 2);
}

#[test]
fn first_failed_upload_leaves_no_pdf() {
    let mut app = with_new_checklist("Case");
    let h = PDFHandler::new().unwrap();
    let e = Err("unreadable".to_string());
    assert_eq!(app.finish_pdf_upload(h, e.clone()), e);
    assert!(app.pdf_handler().is_none());
}

#[test]
fn clock_readings_become_time_stamps() {
    assert_eq!(timestamp_from_clock(Ok((5, 7))), Timestamp { seconds: 5, nanos: 7 });
    assert_eq!(timestamp_from_clock(Err((3, 0))), Timestamp { seconds: -3, nanos: 0 });
    assert_eq!(
        timestamp_from_clock(Err((0, 250_000_000))),
        Timestamp { seconds: -1, nanos: 750_000_000 }
    );
    assert_eq!(
        timestamp_from_clock(Ok((u64::MAX, 1))),
        Timestamp { seconds: i64::MAX, nanos: 1 }
    );
    assert_eq!(
        timestamp_from_clock(Err((u64::MAX, 1))),
        Timestamp { seconds: -i64::MAX, nanos: 999_999_999 }
    );
}
