use ssh_bookmarker::bookmark::Bookmark;
use ssh_bookmarker::tray::{
    activation_policy, is_ssh_banner, probe_address, tray_action, tray_menu_entries,
    ActivationPolicy, TrayAction, TrayEntry,
};

fn bm(id: Option<i64>, name: &str) -> Bookmark {
    Bookmark {
        id,
        name: name.to_string(),
        host: "h.example".to_string(),
        user: "u".to_string(),
        port: 22,
        auth_type: "password".to_string(),
        key_path: None,
        extra_args: None,
        notes: None,
        created_at: None,
        updated_at: None,
    }
}

fn item(e: &TrayEntry) -> Option<(String, String, bool)> {
    match e {
        TrayEntry::Item { id, label, enabled } => Some((id.clone(), label.clone(), *enabled)),
        TrayEntry::Separator => None,
    }
}

#[test]
fn an_empty_list_shows_a_greyed_out_note() {
    let menu = tray_menu_entries(&vec![]);
    assert_eq!(menu.len(), 4);
    assert_eq!(item(&menu[0]), Some(("noop".to_string(), "No bookmarks yet".to_string(), false)));
    assert!(matches!(menu[1], TrayEntry::Separator));
    assert_eq!(item(&menu[2]), Some(("show".to_string(), "Show SSH Bookmarker".to_string(), true)));
    assert_eq!(item(&menu[3]), Some(("quit".to_string(), "Quit".to_string(), true)));
}

#[test]
fn bookmarks_with_ids_get_items() {
    let menu = tray_menu_entries(&vec![bm(Some(3), "alpha"), bm(None, "draft"), bm(Some(-12), "beta")]);
    assert_eq!(menu.len(), 5);
    assert_eq!(item(&menu[0]), Some(("bm:3".to_string(), "alpha  \u{2014}  u@h.example".to_string(), true)));
    assert_eq!(item(&menu[1]), Some(("bm:-12".to_string(), "beta  \u{2014}  u@h.example".to_string(), true)));
    assert!(matches!(menu[2], TrayEntry::Separator));
}

#[test]
fn clicks_ask_for_what_their_item_stands_for() {
    assert_eq!(tray_action("show"), TrayAction::Show);
    assert_eq!(tray_action("quit"), TrayAction::Quit);
    assert_eq!(tray_action("noop"), TrayAction::Ignore);
    assert_eq!(tray_action("bm:42"), TrayAction::Launch(42));
    assert_eq!(tray_action("bm:+42"), TrayAction::Launch(42));
    assert_eq!(tray_action("bm:"), TrayAction::Ignore);
    assert_eq!(tray_action("bm:4x"), TrayAction::Ignore);
    assert_eq!(tray_action("bm:99999999999999999999"), TrayAction::Ignore);
    assert_eq!(tray_action("Show"), TrayAction::Ignore);
}

#[test]
fn every_bookmark_item_launches_its_bookmark() {
    let items = vec![bm(Some(i64::MAX), "a"), bm(Some(0), "b"), bm(Some(i64::MIN), "c")];
    let menu = tray_menu_entries(&items);
    for (k, b) in items.iter().enumerate() {
        let (id, _, _) = item(&menu[k]).unwrap();
        assert_eq!(tray_action(&id), TrayAction::Launch(b.id.unwrap()));
    }
}

#[test]
fn dock_mode_follows_the_setting() {
    assert_eq!(activation_policy(true), ActivationPolicy::Accessory);
    assert_eq!(activation_policy(false), ActivationPolicy::Regular);
}

#[test]
fn reachability_probe() {
    assert_eq!(probe_address("10.0.0.1", 2222), "10.0.0.1:2222");
    assert!(is_ssh_banner(b"SSH-"));
    assert!(!is_ssh_banner(b"HTTP"));
}
