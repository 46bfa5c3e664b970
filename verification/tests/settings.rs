use ssh_bookmarker::bookmark::AppError;
use ssh_bookmarker::settings::{
    default_db_dir_in, default_true, plan_settings_change, resolve_db_path, resolve_db_path_in,
    settings_path, settings_path_in, settings_view, DbSwitch, Settings,
};

fn with_dir(dir: Option<&str>) -> Settings {
    Settings { db_dir: dir.map(|d| d.to_string()), ..Settings::default() }
}

#[test]
fn defaults() {
    let s = Settings::default();
    assert_eq!(s.terminal, None);
    assert_eq!(s.db_dir, None);
    assert!(!s.hide_dock_icon);
    assert!(!s.openclaw_enabled);
    assert!(s.openclaw_exit_on_finish);
    assert!(default_true());
}

#[test]
fn files_live_in_the_application_directory() {
    let base = "/Users/a/Library/Application Support";
    assert_eq!(
        settings_path_in(Some(base)).ok().as_deref(),
        Some("/Users/a/Library/Application Support/ssh-bookmarker/settings.json")
    );
    assert_eq!(
        default_db_dir_in(Some(base)).ok().as_deref(),
        Some("/Users/a/Library/Application Support/ssh-bookmarker")
    );
    assert_eq!(
        resolve_db_path_in(&with_dir(None), Some(base)).ok().as_deref(),
        Some("/Users/a/Library/Application Support/ssh-bookmarker/bookmarks.db")
    );
}

#[test]
fn a_chosen_directory_moves_only_the_database() {
    let s = with_dir(Some("/Users/a/Dropbox/ssh"));
    assert_eq!(resolve_db_path_in(&s, None).ok().as_deref(), Some("/Users/a/Dropbox/ssh/bookmarks.db"));
    assert_eq!(resolve_db_path(&s).ok().as_deref(), Some("/Users/a/Dropbox/ssh/bookmarks.db"));
    let blank = with_dir(Some("   "));
    assert_eq!(resolve_db_path_in(&blank, Some("/d")).ok().as_deref(), Some("/d/ssh-bookmarker/bookmarks.db"));
}

#[test]
fn an_unknown_data_directory_is_an_error() {
    for r in [settings_path_in(None), default_db_dir_in(None), resolve_db_path_in(&with_dir(None), None)] {
        assert!(matches!(r, Err(AppError::Other(m)) if m == "could not resolve data dir"));
    }
}

#[test]
fn the_settings_file_from_the_environment_is_under_the_application_directory() {
    if let Ok(p) = settings_path() {
        assert!(p.ends_with("ssh-bookmarker/settings.json"));
    }
}

#[test]
fn the_view_shows_the_effective_database_directory() {
    let v = settings_view(with_dir(Some("/sync")), "/default".to_string(), "iTerm".to_string(), true);
    assert_eq!(v.effective_db_dir, "/sync");
    assert_eq!(v.default_db_dir, "/default");
    assert_eq!(v.detected_terminal, "iTerm");
    assert!(v.is_macos);
    assert_eq!(v.openclaw_update_cmd, ssh_bookmarker::launcher::OPENCLAW_UPDATE_CMD);
    let d = settings_view(with_dir(Some(" ")), "/default".to_string(), "Terminal".to_string(), false);
    assert_eq!(d.effective_db_dir, "/default");
    assert_eq!(d.db_dir.as_deref(), Some(" "));
}

#[test]
fn the_database_is_copied_only_to_a_new_place_without_one() {
    assert_eq!(plan_settings_change(false, false, false, true, true).db, DbSwitch::Keep);
    assert_eq!(plan_settings_change(false, false, true, false, true).db, DbSwitch::CopyThenOpen);
    assert_eq!(plan_settings_change(false, false, true, true, true).db, DbSwitch::Open);
    assert_eq!(plan_settings_change(false, false, true, false, false).db, DbSwitch::Open);
    assert!(plan_settings_change(false, true, false, false, false).apply_dock_mode);
    assert!(!plan_settings_change(true, true, false, false, false).apply_dock_mode);
}
