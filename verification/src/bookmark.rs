//! Bookmarks, the errors of the library, and the decisions around the
//! bookmark store: how a stored row becomes a bookmark, what an insert or an
//! update stores, and when a lookup or a change is answered with an error.
use vstd::prelude::*;

verus! {

/// A saved SSH connection.
#[derive(Debug, Clone)]
pub struct Bookmark {
    pub id: Option<i64>,
    pub name: String,
    pub host: String,
    pub user: String,
    pub port: u16,
    pub auth_type: String,
    pub key_path: Option<String>,
    pub extra_args: Option<String>,
    pub notes: Option<String>,
    pub created_at: Option<String>,
    pub updated_at: Option<String>,
}

/// The errors of the library.
#[derive(Debug, Clone)]
pub enum AppError {
    /// No bookmark has the requested id.
    NotFound,
    /// A file-system operation failed; the text says how.
    Io(String),
    /// The bookmark store failed; the text says how.
    Database(String),
    /// Anything else; the text says what.
    Other(String),
}

impl AppError {
    /// The text the frontend is shown for the error.
    pub open spec fn message_text(self) -> Seq<char> {
        match self {
            AppError::NotFound => "not found"@,
            AppError::Io(m) => "io error: "@ + m@,
            AppError::Database(m) => "database error: "@ + m@,
            AppError::Other(m) => m@,
        }
    }

    /// The text the frontend is shown for the error: `not found`, the cause
    /// of a file-system or store failure after `io error: ` or `database
    /// error: `, or the text of any other error.
    pub fn message(&self) -> (r: String)
        ensures
            r@ == self.message_text(),
    {
        match self {
            AppError::NotFound => String::from_str("not found"),
            AppError::Io(m) => {
                let mut r = String::from_str("io error: ");
                r.append(m.as_str());
                r
            },
            AppError::Database(m) => {
                let mut r = String::from_str("database error: ");
                r.append(m.as_str());
                r
            },
            AppError::Other(m) => m.clone(),
        }
    }
}

/// The result type of the library.
pub type AppResult<T> = Result<T, AppError>;

/// The columns of one stored bookmark, in the order of `SELECT_COLUMNS`.
#[derive(Debug, Clone)]
pub struct BookmarkRow {
    pub id: i64,
    pub name: String,
    pub host: String,
    pub user: String,
    pub port: i64,
    pub auth_type: String,
    pub key_path: Option<String>,
    pub extra_args: Option<String>,
    pub notes: Option<String>,
    pub created_at: Option<String>,
    pub updated_at: Option<String>,
}

/// The values that an insert or an update stores, in the order of the
/// statement's parameters.
#[derive(Debug, Clone)]
pub struct BookmarkParams {
    pub name: String,
    pub host: String,
    pub user: String,
    pub port: i64,
    pub auth_type: String,
    pub key_path: Option<String>,
    pub extra_args: Option<String>,
    pub notes: Option<String>,
}

/// The schema of the bookmark store.
pub const SCHEMA_SQL: &'static str = "CREATE TABLE IF NOT EXISTS bookmarks (
            id INTEGER PRIMARY KEY AUTOINCREMENT,
            name TEXT NOT NULL,
            host TEXT NOT NULL,
            user TEXT NOT NULL,
            port INTEGER NOT NULL DEFAULT 22,
            auth_type TEXT NOT NULL CHECK(auth_type IN ('password','key')),
            key_path TEXT,
            extra_args TEXT,
            notes TEXT,
            created_at TEXT NOT NULL DEFAULT (datetime('now')),
            updated_at TEXT NOT NULL DEFAULT (datetime('now'))
        );
        CREATE INDEX IF NOT EXISTS idx_bookmarks_name ON bookmarks(name);";

/// Every bookmark, alphabetised by name without regard to case.
pub const LIST_SQL: &'static str = "SELECT id, name, host, user, port, auth_type, key_path, extra_args, notes, created_at, updated_at FROM bookmarks ORDER BY name COLLATE NOCASE ASC";

/// The bookmark with the id `?1`.
pub const GET_SQL: &'static str = "SELECT id, name, host, user, port, auth_type, key_path, extra_args, notes, created_at, updated_at FROM bookmarks WHERE id = ?1";

/// Stores a new bookmark from the eight `BookmarkParams` values.
pub const INSERT_SQL: &'static str = "INSERT INTO bookmarks (name, host, user, port, auth_type, key_path, extra_args, notes) VALUES (?1, ?2, ?3, ?4, ?5, ?6, ?7, ?8)";

/// Overwrites the bookmark with the id `?9` with the eight `BookmarkParams`
/// values and stamps its update time.
pub const UPDATE_SQL: &'static str = "UPDATE bookmarks SET name = ?1, host = ?2, user = ?3, port = ?4, auth_type = ?5, key_path = ?6, extra_args = ?7, notes = ?8, updated_at = datetime('now') WHERE id = ?9";

/// Removes the bookmark with the id `?1`.
pub const DELETE_SQL: &'static str = "DELETE FROM bookmarks WHERE id = ?1";

/// The bookmark that a stored row holds: every column as it is, the id
/// present, and the port cut to its low sixteen bits as `as u16` does.
pub open spec fn row_bookmark(row: BookmarkRow) -> Bookmark {
    Bookmark {
        id: Some(row.id),
        name: row.name,
        host: row.host,
        user: row.user,
        port: row.port as u16,
        auth_type: row.auth_type,
        key_path: row.key_path,
        extra_args: row.extra_args,
        notes: row.notes,
        created_at: row.created_at,
        updated_at: row.updated_at,
    }
}

/// The values that storing `b` writes: its editable fields, the port widened
/// to an `i64`.
pub open spec fn params_of(b: Bookmark) -> BookmarkParams {
    BookmarkParams {
        name: b.name,
        host: b.host,
        user: b.user,
        port: b.port as i64,
        auth_type: b.auth_type,
        key_path: b.key_path,
        extra_args: b.extra_args,
        notes: b.notes,
    }
}

/// The row that a store holding `p` under `id` gives back.
pub open spec fn stored_row(p: BookmarkParams, id: i64, created_at: Option<String>, updated_at: Option<String>) -> BookmarkRow {
    BookmarkRow {
        id,
        name: p.name,
        host: p.host,
        user: p.user,
        port: p.port,
        auth_type: p.auth_type,
        key_path: p.key_path,
        extra_args: p.extra_args,
        notes: p.notes,
        created_at,
        updated_at,
    }
}

/// Turns a stored row into a bookmark.
pub fn row_to_bookmark(row: BookmarkRow) -> (b: Bookmark)
    ensures
        b == row_bookmark(row),
        b.id == Some(row.id),
        b.name == row.name,
        b.host == row.host,
        b.user == row.user,
        b.port == row.port as u16,
        b.auth_type == row.auth_type,
        b.key_path == row.key_path,
        b.extra_args == row.extra_args,
        b.notes == row.notes,
        b.created_at == row.created_at,
        b.updated_at == row.updated_at,
{
    Bookmark {
        id: Some(row.id),
        name: row.name,
        host: row.host,
        user: row.user,
        port: row.port as u16,
        auth_type: row.auth_type,
        key_path: row.key_path,
        extra_args: row.extra_args,
        notes: row.notes,
        created_at: row.created_at,
        updated_at: row.updated_at,
    }
}

/// The values that creating or updating `b` stores.
pub fn bookmark_params(b: &Bookmark) -> (p: BookmarkParams)
    ensures
        p == params_of(*b),
        p.name == b.name,
        p.host == b.host,
        p.user == b.user,
        p.port == b.port as i64,
        p.auth_type == b.auth_type,
        p.key_path == b.key_path,
        p.extra_args == b.extra_args,
        p.notes == b.notes,
{
    BookmarkParams {
        name: b.name.clone(),
        host: b.host.clone(),
        user: b.user.clone(),
        port: b.port as i64,
        auth_type: b.auth_type.clone(),
        key_path: match &b.key_path {
            Some(k) => Some(k.clone()),
            None => None,
        },
        extra_args: match &b.extra_args {
            Some(e) => Some(e.clone()),
            None => None,
        },
        notes: match &b.notes {
            Some(n) => Some(n.clone()),
            None => None,
        },
    }
}

/// The answer to a lookup by id: the bookmark of the first row found, or
/// `NotFound` when there is none.
pub fn bookmark_or_not_found(row: Option<BookmarkRow>) -> (r: AppResult<Bookmark>)
    ensures
        match row {
            Some(x) => r == Ok::<Bookmark, AppError>(row_bookmark(x)),
            None => r is Err && r->Err_0 is NotFound,
        },
{
    match row {
        Some(x) => Ok(row_to_bookmark(x)),
        None => Err(AppError::NotFound),
    }
}

/// The id that updating `b` targets; an update of a bookmark without an id
/// is refused with `Other("missing id")`.
pub fn update_target(b: &Bookmark) -> (r: AppResult<i64>)
    ensures
        match b.id {
            Some(id) => r == Ok::<i64, AppError>(id),
            None => r is Err && r->Err_0 is Other && r->Err_0->Other_0@ == "missing id"@,
        },
{
    match b.id {
        Some(id) => Ok(id),
        None => Err(AppError::Other(String::from_str("missing id"))),
    }
}

/// The answer to an update or a delete that changed `affected` rows: none
/// changed means no bookmark had the id.
pub fn require_affected(affected: u64) -> (r: AppResult<()>)
    ensures
        affected == 0 ==> r is Err && r->Err_0 is NotFound,
        affected != 0 ==> r is Ok,
{
    if affected == 0 {
        Err(AppError::NotFound)
    } else {
        Ok(())
    }
}

/// Each column of a stored row lands in the bookmark field of the same name
/// (the port cut to sixteen bits), and storing a bookmark writes each of its
/// editable fields to the column of the same name (the port widened).
pub proof fn lemma_columns_match_fields(row: BookmarkRow, b: Bookmark)
    ensures
        row_bookmark(row).id == Some(row.id),
        row_bookmark(row).name == row.name,
        row_bookmark(row).host == row.host,
        row_bookmark(row).user == row.user,
        row_bookmark(row).port == row.port as u16,
        row_bookmark(row).auth_type == row.auth_type,
        row_bookmark(row).key_path == row.key_path,
        row_bookmark(row).extra_args == row.extra_args,
        row_bookmark(row).notes == row.notes,
        row_bookmark(row).created_at == row.created_at,
        row_bookmark(row).updated_at == row.updated_at,
        params_of(b).name == b.name,
        params_of(b).host == b.host,
        params_of(b).user == b.user,
        params_of(b).port == b.port as i64,
        params_of(b).auth_type == b.auth_type,
        params_of(b).key_path == b.key_path,
        params_of(b).extra_args == b.extra_args,
        params_of(b).notes == b.notes,
{
}

/// A bookmark that is stored and read back comes back with the fields it
/// was stored with (its port included), under the id it was stored under.
pub proof fn lemma_store_read_round_trip(
    b: Bookmark,
    id: i64,
    created_at: Option<String>,
    updated_at: Option<String>,
)
    ensures
        ({
            let back = row_bookmark(stored_row(params_of(b), id, created_at, updated_at));
            &&& back.id == Some(id)
            &&& back.name == b.name
            &&& back.host == b.host
            &&& back.user == b.user
            &&& back.port == b.port
            &&& back.auth_type == b.auth_type
            &&& back.key_path == b.key_path
            &&& back.extra_args == b.extra_args
            &&& back.notes == b.notes
        }),
{
    let p = b.port;
    assert(((p as i64) as u16) == p) by (bit_vector);
}

} // verus!
