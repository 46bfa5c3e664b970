use ssh_bookmarker::bookmark::{
    bookmark_or_not_found, bookmark_params, require_affected, row_to_bookmark, update_target,
    AppError, Bookmark, BookmarkRow, LIST_SQL,
};

fn sample() -> Bookmark {
    Bookmark {
        id: None,
        name: "web".to_string(),
        host: "web.example.com".to_string(),
        user: "deploy".to_string(),
        port: 2222,
        auth_type: "key".to_string(),
        key_path: Some("~/.ssh/id".to_string()),
        extra_args: None,
        notes: Some("prod".to_string()),
        created_at: None,
        updated_at: None,
    }
}

fn row(port: i64) -> BookmarkRow {
    BookmarkRow {
        id: 5,
        name: "db".to_string(),
        host: "10.0.0.5".to_string(),
        user: "root".to_string(),
        port,
        auth_type: "password".to_string(),
        key_path: None,
        extra_args: Some("-A".to_string()),
        notes: None,
        created_at: Some("2024-01-01 00:00:00".to_string()),
        updated_at: Some("2024-01-02 00:00:00".to_string()),
    }
}

#[test]
fn rows_become_bookmarks() {
    let b = row_to_bookmark(row(22));
    assert_eq!(b.id, Some(5));
    assert_eq!(b.name, "db");
    assert_eq!(b.host, "10.0.0.5");
    assert_eq!(b.user, "root");
    assert_eq!(b.port, 22);
    assert_eq!(b.auth_type, "password");
    assert_eq!(b.key_path, None);
    assert_eq!(b.extra_args.as_deref(), Some("-A"));
    assert_eq!(b.updated_at.as_deref(), Some("2024-01-02 00:00:00"));
}

#[test]
fn stored_ports_are_cut_to_sixteen_bits() {
    assert_eq!(row_to_bookmark(row(65537)).port, 1);
    assert_eq!(row_to_bookmark(row(-1)).port, 65535);
}

#[test]
fn stored_bookmarks_read_back_with_their_fields() {
    let b = sample();
    let p = bookmark_params(&b);
    assert_eq!(p.port, 2222);
    let back = row_to_bookmark(BookmarkRow {
        id: 9,
        name: p.name,
        host: p.host,
        user: p.user,
        port: p.port,
        auth_type: p.auth_type,
        key_path: p.key_path,
        extra_args: p.extra_args,
        notes: p.notes,
        created_at: None,
        updated_at: None,
    });
    assert_eq!(back.id, Some(9));
    assert_eq!(back.name, b.name);
    assert_eq!(back.port, b.port);
    assert_eq!(back.key_path, b.key_path);
    assert_eq!(back.notes, b.notes);
}

#[test]
fn missing_rows_are_not_found() {
    assert!(matches!(bookmark_or_not_found(None), Err(AppError::NotFound)));
    assert!(matches!(bookmark_or_not_found(Some(row(22))), Ok(b) if b.id == Some(5)));
}

#[test]
fn updates_need_an_id() {
    let mut b = sample();
    assert!(matches!(update_target(&b), Err(AppError::Other(m)) if m == "missing id"));
    b.id = Some(3);
    assert!(matches!(update_target(&b), Ok(3)));
}

#[test]
fn changes_of_nothing_are_not_found() {
    assert!(matches!(require_affected(0), Err(AppError::NotFound)));
    assert!(require_affected(1).is_ok());
}

#[test]
fn the_list_is_alphabetised_without_regard_to_case() {
    assert!(LIST_SQL.ends_with("ORDER BY name COLLATE NOCASE ASC"));
}

#[test]
fn error_messages() {
    assert_eq!(AppError::NotFound.message(), "not found");
    assert_eq!(AppError::Io("denied".to_string()).message(), "io error: denied");
    assert_eq!(AppError::Database("locked".to_string()).message(), "database error: locked");
    assert_eq!(AppError::Other("missing id".to_string()).message(), "missing id");
}
