use quench::db::{
    AlreadyOpenError, ContentChange, Database, EditError, LspMessage, MessageType,
    NotYetOpenedError, OpError, Uri,
};
use quench::position::{Position, Range};

fn chars(s: &str) -> Vec<char> {
    s.chars().collect()
}

fn uri(s: &str) -> Uri {
    Uri::from_bytes(s.bytes().collect())
}

fn foo_db(text: &str) -> (Database, Uri) {
    let mut db = Database::default();
    let u = uri("file:///tmp/foo.qn");
    db.open_document(u.duplicate(), chars(text)).unwrap();
    (db, u)
}

fn make_range(start_line: u32, start_character: u32, end_line: u32, end_character: u32) -> Range {
    Range::new(
        Position::new(start_line, start_character),
        Position::new(end_line, end_character),
    )
}

#[test]
fn test_already_open_error() {
    let (mut db, u) = foo_db("foo");
    assert_eq!(
        db.open_document(u.duplicate(), chars("bar")),
        Err(AlreadyOpenError { uri: u.duplicate() }),
    );
    assert_eq!(db.opened_files(), vec![u.duplicate()]);
    let new_contents = db.source_text(&u).unwrap();
    assert_eq!(new_contents, chars("bar"));
}

#[test]
fn test_edit_not_yet_opened_error() {
    let mut db = Database::default();
    let u = uri("file:///tmp/foo.qn");
    assert_eq!(
        db.edit_document(u.duplicate(), chars("bar")),
        Err(NotYetOpenedError { uri: u.duplicate() }),
    );
    assert_eq!(db.opened_files(), vec![u.duplicate()]);
    let new_contents = db.source_text(&u).unwrap();
    assert_eq!(new_contents, chars("bar"));
}

#[test]
fn test_close_not_yet_opened_error() {
    let mut db = Database::default();
    let u = uri("file:///tmp/foo.qn");
    assert_eq!(
        db.close_document(u.duplicate()),
        Err(NotYetOpenedError { uri: u.duplicate() }),
    );
    assert_eq!(db.opened_files(), Vec::<Uri>::new());
}

#[test]
fn test_incremental_sync() {
    let (mut db, u) = foo_db("foo");
    let changes = vec![ContentChange {
        range: Some(make_range(0, 0, 0, 3)),
        range_length: None,
        text: chars("bar"),
    }];
    assert_eq!(
        db.apply_edit(u.duplicate(), 2, changes),
        Err(EditError::IncrementalSync {
            uri: u.duplicate(),
            version: 2
        }),
    );
    let new_contents = db.source_text(&u).unwrap();
    assert_eq!(new_contents, chars("foo"));
}

#[test]
fn test_full_sync() {
    let (mut db, u) = foo_db("foo");
    let changes = vec![ContentChange {
        range: None,
        range_length: None,
        text: chars("bar"),
    }];
    db.apply_edit(u.duplicate(), 2, changes).unwrap();
    let new_contents = db.source_text(&u).unwrap();
    assert_eq!(new_contents, chars("bar"));
}

#[test]
fn test_open_then_read_back() {
    let mut db = Database::default();
    let u = uri("file:///tmp/a.qn");
    db.open_document(u.duplicate(), chars("print(\"hi\");")).unwrap();
    assert_eq!(db.source_text(&u).unwrap(), chars("print(\"hi\");"));
    assert!(db.is_open(&u));
}

#[test]
fn test_empty_batch_rejected() {
    let (mut db, u) = foo_db("foo");
    assert_eq!(
        db.apply_edit(u.duplicate(), 3, Vec::new()),
        Err(EditError::IncrementalSync {
            uri: u.duplicate(),
            version: 3
        }),
    );
    assert_eq!(db.source_text(&u).unwrap(), chars("foo"));
}

#[test]
fn test_two_changes_rejected() {
    let (mut db, u) = foo_db("foo");
    let changes = vec![
        ContentChange {
            range: None,
            range_length: None,
            text: chars("bar"),
        },
        ContentChange {
            range: None,
            range_length: None,
            text: chars("baz"),
        },
    ];
    assert_eq!(
        db.apply_edit(u.duplicate(), 4, changes),
        Err(EditError::IncrementalSync {
            uri: u.duplicate(),
            version: 4
        }),
    );
    assert_eq!(db.source_text(&u).unwrap(), chars("foo"));
}

#[test]
fn test_range_length_rejected() {
    let (mut db, u) = foo_db("foo");
    let changes = vec![ContentChange {
        range: None,
        range_length: Some(3),
        text: chars("bar"),
    }];
    assert!(db.apply_edit(u.duplicate(), 5, changes).is_err());
    assert_eq!(db.source_text(&u).unwrap(), chars("foo"));
}

#[test]
fn test_close_clears_text_and_open_set() {
    let (mut db, u) = foo_db("foo");
    db.close_document(u.duplicate()).unwrap();
    assert_eq!(db.opened_files(), Vec::<Uri>::new());
    assert_eq!(db.source_text(&u).unwrap(), Vec::<char>::new());
    assert!(!db.is_open(&u));
}

#[test]
fn test_closed_document_queries_are_empty() {
    let (mut db, u) = foo_db("print(\"Hello,\"\" world!\")");
    assert!(!db.diagnostics(&u).is_empty());
    db.close_document(u.duplicate()).unwrap();
    assert!(db.diagnostics(&u).is_empty());
    assert!(db.semantic_tokens(&u).is_empty());
    assert!(db.ast(&u).is_none());
    assert!(db.source_index(&u).is_none());
}

#[test]
fn test_second_document_untouched_by_writes() {
    let mut db = Database::default();
    let a = uri("file:///tmp/a.qn");
    let b = uri("file:///tmp/b.qn");
    db.open_document(a.duplicate(), chars("print(\"a\");")).unwrap();
    db.open_document(b.duplicate(), chars("print(\"b\"")).unwrap();
    let before = db.diagnostics(&b);
    db.edit_document(a.duplicate(), chars("oops(")).unwrap();
    assert_eq!(db.diagnostics(&b), before);
    assert_eq!(db.source_text(&b).unwrap(), chars("print(\"b\""));
}

#[test]
fn test_uri_round_trip() {
    let bytes: Vec<u8> = "file:///tmp/foo.qn".bytes().collect();
    let u = Uri::from_bytes(bytes.clone());
    assert_eq!(u.as_bytes(), &bytes);
    assert_eq!(u.duplicate(), u);
}

#[test]
fn test_message_severities() {
    let u = uri("file:///tmp/foo.qn");
    assert_eq!(
        AlreadyOpenError { uri: u.duplicate() }.message_type(),
        MessageType::Warning
    );
    assert_eq!(
        NotYetOpenedError { uri: u.duplicate() }.message_type(),
        MessageType::Warning
    );
    assert_eq!(
        EditError::IncrementalSync {
            uri: u.duplicate(),
            version: 1
        }
        .message_type(),
        MessageType::Error
    );
    assert_eq!(
        EditError::NotYetOpened(NotYetOpenedError { uri: u.duplicate() }).message_type(),
        MessageType::Warning
    );
    let op: OpError<AlreadyOpenError> = OpError::Op(AlreadyOpenError { uri: u.duplicate() });
    assert_eq!(op.message_type(), MessageType::Warning);
    let transport: OpError<AlreadyOpenError> =
        OpError::Async(quench::db::AsyncError::Send);
    assert_eq!(transport.message_type(), MessageType::Error);
}
