//! The user's preferences, where the settings file and the bookmark
//! database live, what the preferences dialog is shown, and what changing
//! the preferences does to the database and the Dock.
use vstd::prelude::*;
use crate::bookmark::{AppError, AppResult};
use crate::launcher::OPENCLAW_UPDATE_CMD;
use crate::paths::{data_dir, join_path, opt_view, path_join};
use crate::text::{is_blank, str_blank};

verus! {

/// The user's preferences.
#[derive(Debug, Clone)]
pub struct Settings {
    /// The terminal to launch in; the system default when unset.
    pub terminal: Option<String>,
    /// The directory of the bookmark database; the default one when unset
    /// or blank.
    pub db_dir: Option<String>,
    /// Run as a menu-bar utility without a Dock icon.
    pub hide_dock_icon: bool,
    /// Master switch for the OpenClaw actions of bookmark cards.
    pub openclaw_enabled: bool,
    /// Close the SSH session when the OpenClaw command finishes (`true`), or
    /// leave the user in a remote login shell (`false`).
    pub openclaw_exit_on_finish: bool,
}

/// What the preferences dialog is shown: the preferences and what they come
/// to on this machine.
#[derive(Debug, Clone)]
pub struct SettingsView {
    pub terminal: Option<String>,
    pub db_dir: Option<String>,
    pub hide_dock_icon: bool,
    /// The directory the database is in.
    pub effective_db_dir: String,
    /// The directory the database is in when none is chosen.
    pub default_db_dir: String,
    /// The terminal that opens when none is chosen.
    pub detected_terminal: String,
    pub is_macos: bool,
    /// The OpenClaw maintenance one-liner as it runs for `root`, for the
    /// hint in the preferences.
    pub openclaw_update_cmd: String,
}

/// What a change of preferences does to the bookmark database.
#[derive(Debug, Clone, Copy, PartialEq, Eq, Structural)]
pub enum DbSwitch {
    /// The database stays where it is.
    Keep,
    /// The database at the new place is opened.
    Open,
    /// The database is copied to the new place, which has none, then opened.
    CopyThenOpen,
}

/// What a change of preferences needs done.
#[derive(Debug, Clone, Copy, PartialEq, Eq, Structural)]
pub struct SettingsChange {
    pub db: DbSwitch,
    /// The Dock icon setting changed, so the activation policy is applied.
    pub apply_dock_mode: bool,
}

impl Default for Settings {
    /// No terminal or database directory chosen, the Dock icon shown,
    /// OpenClaw off, and the session closed when its command finishes.
    fn default() -> (r: Self)
        ensures
            r.terminal is None,
            r.db_dir is None,
            !r.hide_dock_icon,
            !r.openclaw_enabled,
            r.openclaw_exit_on_finish,
    {
        Settings {
            terminal: None,
            db_dir: None,
            hide_dock_icon: false,
            openclaw_enabled: false,
            openclaw_exit_on_finish: default_true(),
        }
    }
}

/// The value that a settings file without `openclaw_exit_on_finish` gives it.
pub fn default_true() -> (r: bool)
    ensures
        r,
{
    true
}

/// The application's directory under the data directory `base`.
pub open spec fn app_dir(base: Seq<char>) -> Seq<char> {
    path_join(base, "ssh-bookmarker"@)
}

/// The settings file under the data directory `base`.
pub open spec fn settings_file(base: Seq<char>) -> Seq<char> {
    path_join(app_dir(base), "settings.json"@)
}

/// The application's directory under the data directory, if it is known.
pub open spec fn opt_app_dir(base: Option<Seq<char>>) -> Option<Seq<char>> {
    match base {
        Some(b) => Some(app_dir(b)),
        None => None,
    }
}

/// The settings file under the data directory, if it is known.
pub open spec fn opt_settings_file(base: Option<Seq<char>>) -> Option<Seq<char>> {
    match base {
        Some(b) => Some(settings_file(b)),
        None => None,
    }
}

/// The application's directory under the data directory, empty when that
/// is unknown.
pub open spec fn app_dir_or_empty(base: Option<Seq<char>>) -> Seq<char> {
    match base {
        Some(b) => app_dir(b),
        None => Seq::<char>::empty(),
    }
}

/// The database directory that the preferences choose: the chosen one when
/// it is not blank.
pub open spec fn chosen_db_dir(s: Settings) -> Option<Seq<char>> {
    if s.db_dir is Some && !is_blank(s.db_dir->0@) {
        Some(s.db_dir->0@)
    } else {
        None
    }
}

/// The directory the database is in: the chosen one, else `default_dir`.
pub open spec fn effective_db_dir(s: Settings, default_dir: Seq<char>) -> Seq<char> {
    match chosen_db_dir(s) {
        Some(d) => d,
        None => default_dir,
    }
}

/// The database file for the preferences `s` and the data directory `base`:
/// `bookmarks.db` in the chosen directory, else in the application's
/// directory; none when neither is known.
pub open spec fn db_file(s: Settings, base: Option<Seq<char>>) -> Option<Seq<char>> {
    match chosen_db_dir(s) {
        Some(d) => Some(path_join(d, "bookmarks.db"@)),
        None => match base {
            Some(b) => Some(path_join(app_dir(b), "bookmarks.db"@)),
            None => None,
        },
    }
}

/// A path, or the error that says the data directory is unknown.
pub open spec fn path_or_no_data_dir(r: AppResult<String>, p: Option<Seq<char>>) -> bool {
    match p {
        Some(x) => r is Ok && r->Ok_0@ == x,
        None => r is Err && r->Err_0 is Other && r->Err_0->Other_0@ == "could not resolve data dir"@,
    }
}

/// The error for an unknown data directory.
fn no_data_dir() -> (e: AppError)
    ensures
        e is Other && e->Other_0@ == "could not resolve data dir"@,
{
    AppError::Other(String::from_str("could not resolve data dir"))
}

/// The application's directory under the data directory `base`, if known.
pub fn default_db_dir_in(base: Option<&str>) -> (r: AppResult<String>)
    ensures
        path_or_no_data_dir(r, opt_app_dir(match base { Some(b) => Some(b@), None => None })),
{
    match base {
        Some(b) => Ok(join_path(b, "ssh-bookmarker")),
        None => Err(no_data_dir()),
    }
}

/// The settings file under the data directory `base`, if known.
pub fn settings_path_in(base: Option<&str>) -> (r: AppResult<String>)
    ensures
        path_or_no_data_dir(r, opt_settings_file(match base { Some(b) => Some(b@), None => None })),
{
    match base {
        Some(b) => {
            let dir = join_path(b, "ssh-bookmarker");
            Ok(join_path(dir.as_str(), "settings.json"))
        },
        None => Err(no_data_dir()),
    }
}

/// The database file for the preferences `s` and the data directory `base`.
pub fn resolve_db_path_in(s: &Settings, base: Option<&str>) -> (r: AppResult<String>)
    ensures
        path_or_no_data_dir(r, db_file(*s, match base { Some(b) => Some(b@), None => None })),
{
    match &s.db_dir {
        Some(d) => {
            if !str_blank(d.as_str()) {
                return Ok(join_path(d.as_str(), "bookmarks.db"));
            }
        },
        None => {},
    }
    match base {
        Some(b) => {
            let dir = join_path(b, "ssh-bookmarker");
            Ok(join_path(dir.as_str(), "bookmarks.db"))
        },
        None => Err(no_data_dir()),
    }
}

/// The application's directory in the user's data directory (where the
/// database is by default), or an error when the environment gives no data
/// directory.
pub fn default_db_dir() -> (r: AppResult<String>)
    ensures
        exists|base: Option<Seq<char>>| #[trigger] path_or_no_data_dir(r, opt_app_dir(base)),
{
    let base = data_dir();
    let r = match &base {
        Some(b) => default_db_dir_in(Some(b.as_str())),
        None => default_db_dir_in(None),
    };
    assert(path_or_no_data_dir(r, opt_app_dir(opt_view(base))));
    r
}

/// The settings file, `settings.json` in the application's directory, or an
/// error when the environment gives no data directory. The preferences do
/// not move it.
pub fn settings_path() -> (r: AppResult<String>)
    ensures
        exists|base: Option<Seq<char>>| #[trigger] path_or_no_data_dir(r, opt_settings_file(base)),
{
    let base = data_dir();
    let r = match &base {
        Some(b) => settings_path_in(Some(b.as_str())),
        None => settings_path_in(None),
    };
    assert(path_or_no_data_dir(r, opt_settings_file(opt_view(base))));
    r
}

/// The bookmark database file: `bookmarks.db` in the chosen directory when
/// it is not blank, else in the application's directory; an error when that
/// is needed and the environment gives no data directory.
pub fn resolve_db_path(s: &Settings) -> (r: AppResult<String>)
    ensures
        exists|base: Option<Seq<char>>| #[trigger] path_or_no_data_dir(r, db_file(*s, base)),
        chosen_db_dir(*s) is Some ==> r is Ok && r->Ok_0@ == path_join(
            chosen_db_dir(*s)->0,
            "bookmarks.db"@,
        ),
{
    let base = data_dir();
    let r = match &base {
        Some(b) => resolve_db_path_in(s, Some(b.as_str())),
        None => resolve_db_path_in(s, None),
    };
    assert(path_or_no_data_dir(r, db_file(*s, opt_view(base))));
    r
}

/// The application's directory as text, empty when the environment gives no
/// data directory.
pub fn default_db_dir_text() -> (r: String)
    ensures
        exists|base: Option<Seq<char>>| r@ == #[trigger] app_dir_or_empty(base),
{
    let base = data_dir();
    let r = match &base {
        Some(b) => join_path(b.as_str(), "ssh-bookmarker"),
        None => String::new(),
    };
    assert(r@ == app_dir_or_empty(opt_view(base)));
    r
}

/// What the preferences dialog is shown for the preferences `s`, given the
/// default database directory, the detected terminal and the platform; the
/// view also carries the OpenClaw one-liner for its hint.
pub fn settings_view(s: Settings, default_dir: String, detected_terminal: String, is_macos: bool) -> (r:
    SettingsView)
    ensures
        r.terminal == s.terminal,
        r.db_dir == s.db_dir,
        r.hide_dock_icon == s.hide_dock_icon,
        r.effective_db_dir@ == effective_db_dir(s, default_dir@),
        r.default_db_dir == default_dir,
        r.detected_terminal == detected_terminal,
        r.is_macos == is_macos,
        r.openclaw_update_cmd@ == OPENCLAW_UPDATE_CMD@,
{
    let ghost s0 = s;
    let effective = match &s.db_dir {
        Some(d) => if !str_blank(d.as_str()) {
            d.clone()
        } else {
            default_dir.clone()
        },
        None => default_dir.clone(),
    };
    SettingsView {
        terminal: s.terminal,
        db_dir: s.db_dir,
        hide_dock_icon: s.hide_dock_icon,
        effective_db_dir: effective,
        default_db_dir: default_dir,
        detected_terminal,
        is_macos,
        openclaw_update_cmd: String::from_str(OPENCLAW_UPDATE_CMD),
    }
}

/// What changing the preferences needs done. The database moves only when
/// its path changed: it is copied along when the new place has none and the
/// old place has one, and opened at the new place either way. The Dock mode
/// is applied only when the Dock icon setting changed.
pub fn plan_settings_change(
    prev_hide: bool,
    next_hide: bool,
    path_changed: bool,
    next_exists: bool,
    prev_exists: bool,
) -> (r: SettingsChange)
    ensures
        r.db == (if !path_changed {
            DbSwitch::Keep
        } else if !next_exists && prev_exists {
            DbSwitch::CopyThenOpen
        } else {
            DbSwitch::Open
        }),
        r.apply_dock_mode == (prev_hide != next_hide),
{
    let db = if !path_changed {
        DbSwitch::Keep
    } else if !next_exists && prev_exists {
        DbSwitch::CopyThenOpen
    } else {
        DbSwitch::Open
    };
    SettingsChange { db, apply_dock_mode: prev_hide != next_hide }
}

/// The directory the preferences dialog shows as the database's is the
/// directory of the database file: with the data directory `base` known,
/// the database file is `bookmarks.db` in the effective directory.
pub proof fn lemma_view_matches_db_path(s: Settings, base: Seq<char>)
    ensures
        db_file(s, Some(base)) == Some(path_join(effective_db_dir(s, app_dir(base)), "bookmarks.db"@)),
{
}

/// With no database directory chosen, the database is `bookmarks.db` in the
/// `ssh-bookmarker` directory of the data directory `base`; for a data
/// directory such as `/Users/alice/Library/Application Support` (not empty,
/// no trailing `/`) that is `base` followed by `/ssh-bookmarker/bookmarks.db`.
/// A chosen directory that is not blank replaces it, whatever `base` is.
pub proof fn lemma_default_db_file(s: Settings, base: Seq<char>)
    ensures
        chosen_db_dir(s) is None ==> db_file(s, Some(base)) == Some(
            path_join(path_join(base, "ssh-bookmarker"@), "bookmarks.db"@),
        ),
        chosen_db_dir(s) is None && base.len() > 0 && base.last() != '/' ==> db_file(s, Some(base))
            == Some(base + "/ssh-bookmarker/bookmarks.db"@),
        chosen_db_dir(s) is Some ==> db_file(s, Some(base)) == db_file(s, None),
{
    reveal_strlit("ssh-bookmarker");
    reveal_strlit("bookmarks.db");
    reveal_strlit("/ssh-bookmarker/bookmarks.db");
    if chosen_db_dir(s) is None && base.len() > 0 && base.last() != '/' {
        let d = path_join(base, "ssh-bookmarker"@);
        assert(d == base + seq!['/'] + "ssh-bookmarker"@);
        assert(d.len() > 0 && d.last() != '/');
        assert(path_join(d, "bookmarks.db"@) =~= base + "/ssh-bookmarker/bookmarks.db"@);
    }
}

} // verus!
