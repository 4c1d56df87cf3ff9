use editcore::documents::{Document, DocumentManager, TextBufferState};
use editcore::helpers::Point;

#[test]
fn test_parse_last_numbers() {
    fn parse(s: &str) -> (&str, Option<Point>) {
        let (keep, goto) = DocumentManager::parse_filename_goto(s.as_bytes());
        (&s[..keep], goto)
    }

    assert_eq!(parse("123"), ("123", None));
    assert_eq!(parse("abc"), ("abc", None));
    assert_eq!(parse(":123"), (":123", None));
    assert_eq!(parse("abc:123"), ("abc", Some(Point { x: 0, y: 122 })));
    assert_eq!(parse("45:123"), ("45", Some(Point { x: 0, y: 122 })));
    assert_eq!(parse(":45:123"), (":45", Some(Point { x: 0, y: 122 })));
    assert_eq!(parse("abc:45:123"), ("abc", Some(Point { x: 122, y: 44 })));
    assert_eq!(parse("abc:def:123"), ("abc:def", Some(Point { x: 0, y: 122 })));
    assert_eq!(parse("1:2:3"), ("1", Some(Point { x: 2, y: 1 })));
    assert_eq!(parse("::3"), (":", Some(Point { x: 0, y: 2 })));
    assert_eq!(parse("1::3"), ("1:", Some(Point { x: 0, y: 2 })));
    assert_eq!(parse(""), ("", None));
    assert_eq!(parse(":"), (":", None));
    assert_eq!(parse("::"), ("::", None));
    assert_eq!(parse("a:1"), ("a", Some(Point { x: 0, y: 0 })));
    assert_eq!(parse("1:a"), ("1:a", None));
    assert_eq!(parse("file.txt:10"), ("file.txt", Some(Point { x: 0, y: 9 })));
    assert_eq!(parse("file.txt:10:5"), ("file.txt", Some(Point { x: 4, y: 9 })));
}

fn fresh_doc() -> Document {
    Document {
        buffer: DocumentManager::create_buffer(),
        path: None,
        dir: None,
        filename: String::new(),
        file_id: None,
        new_file_counter: 0,
    }
}

#[test]
fn untitled_names_count_up() {
    let mut mgr = DocumentManager::new();
    assert_eq!(mgr.len(), 0);
    mgr.add_untitled();
    mgr.add_untitled();
    assert_eq!(mgr.len(), 2);
    let active = mgr.active().unwrap();
    assert_eq!(active.filename, "Untitled-2.txt");
    assert_eq!(active.new_file_counter, 2);
    mgr.remove_active();
    assert_eq!(mgr.len(), 1);
    assert_eq!(mgr.active().unwrap().filename, "Untitled-1.txt");
    mgr.add_untitled();
    assert_eq!(mgr.active().unwrap().filename, "Untitled-2.txt");
}

#[test]
fn set_path_splits_dir_and_filename() {
    let mut doc = fresh_doc();
    doc.set_path(String::from("src/bin/editor.rs"));
    assert_eq!(doc.filename, "editor.rs");
    assert_eq!(doc.dir.as_deref(), Some("src/bin"));
    assert_eq!(doc.path.as_deref(), Some("src/bin/editor.rs"));
    assert_eq!(doc.buffer.ruler, 0);
}

#[test]
fn set_path_without_separator() {
    let mut doc = fresh_doc();
    doc.set_path(String::from("notes.txt"));
    assert_eq!(doc.filename, "notes.txt");
    assert_eq!(doc.dir.as_deref(), Some(""));
}

#[test]
fn commit_message_gets_a_ruler() {
    let mut doc = fresh_doc();
    doc.set_path(String::from(".git/COMMIT_EDITMSG"));
    assert_eq!(doc.filename, "COMMIT_EDITMSG");
    assert_eq!(doc.buffer.ruler, 72);
}

#[test]
fn create_buffer_defaults() {
    let b: TextBufferState = DocumentManager::create_buffer();
    assert!(!b.dirty);
    assert_eq!(b.ruler, 0);
    assert!(b.insert_final_newline);
    assert!(b.margin_enabled);
    assert!(b.line_highlight_enabled);
}

#[test]
fn active_mut_edits_the_last_document() {
    let mut mgr = DocumentManager::new();
    mgr.add_untitled();
    {
        let doc = mgr.active_mut();
        doc.buffer.cursor_move_to_logical(Point { x: 3, y: 7 });
    }
    assert_eq!(mgr.active().unwrap().buffer.cursor, Point { x: 3, y: 7 });
}

#[test]
fn reflow_all_leaves_documents_intact() {
    let mut mgr = DocumentManager::new();
    mgr.add_untitled();
    mgr.add_untitled();
    mgr.reflow_all();
    assert_eq!(mgr.len(), 2);
    assert_eq!(mgr.active().unwrap().filename, "Untitled-2.txt");
}

#[test]
fn goto_numbers_too_large_are_rejected() {
    let huge = format!("file:{}", u128::MAX);
    let (keep, goto) = DocumentManager::parse_filename_goto(huge.as_bytes());
    assert_eq!(keep, huge.len());
    assert_eq!(goto, None);
}
