use ssh_bookmarker::terminals::{
    bundle_to_pretty_name, default_terminal_from_handlers, detect_default_terminal,
    known_terminal_probes_in, name_to_bundle, parse_shell_script_handler, terminal_info,
};

const DUMP: &str = r#"(
        {
        LSHandlerContentType = "public.html";
        LSHandlerRoleAll = "com.apple.safari";
    },
        {
        LSHandlerContentType = "com.apple.terminal.shell-script";
        LSHandlerRoleAll = "com.googlecode.iterm2";
    }
)"#;

#[test]
fn every_known_terminal_has_a_bundle_that_names_it_back() {
    for name in ["Terminal", "iTerm", "Ghostty", "Warp", "kitty", "Hyper"] {
        let bundle = name_to_bundle(name, true).expect("known terminal");
        assert_eq!(name_to_bundle(name, false), None);
        assert_eq!(bundle_to_pretty_name(bundle), name);
    }
    assert_eq!(name_to_bundle("Warp", true), Some("dev.warp.Warp-Stable"));
    assert_eq!(name_to_bundle("terminal", true), None);
    assert_eq!(name_to_bundle("Alacritty", true), None);
    assert_eq!(bundle_to_pretty_name("org.alacritty"), "org.alacritty");
}

#[test]
fn the_shell_script_handler_is_read_from_its_dictionary() {
    assert_eq!(parse_shell_script_handler(DUMP).as_deref(), Some("com.googlecode.iterm2"));
    let crlf = DUMP.replace('\n', "\r\n");
    assert_eq!(parse_shell_script_handler(&crlf).as_deref(), Some("com.googlecode.iterm2"));
}

#[test]
fn handlers_that_are_dashes_or_elsewhere_are_not_taken() {
    let dash = "{ LSHandlerContentType = \"com.apple.terminal.shell-script\";\n LSHandlerRoleAll = \"-\";\n}";
    assert_eq!(parse_shell_script_handler(dash), None);
    let other = "{ LSHandlerContentType = \"public.html\";\n LSHandlerRoleAll = \"com.apple.safari\";\n}";
    assert_eq!(parse_shell_script_handler(other), None);
    let bare = "{\ncom.apple.terminal.shell-script\nLSHandlerRoleAll = net.kovidgoyal.kitty;;\n}";
    assert_eq!(parse_shell_script_handler(bare).as_deref(), Some("net.kovidgoyal.kitty"));
}

#[test]
fn the_default_terminal_falls_back_to_terminal() {
    assert_eq!(default_terminal_from_handlers(Some(DUMP.as_bytes().to_vec())), "iTerm");
    assert_eq!(default_terminal_from_handlers(Some(vec![0xff, 0xfe, b'{'])), "Terminal");
    assert_eq!(default_terminal_from_handlers(Some(b"()".to_vec())), "Terminal");
    assert_eq!(default_terminal_from_handlers(None), "Terminal");
    assert_eq!(detect_default_terminal(false, Some(DUMP.as_bytes().to_vec())), "system terminal");
    assert_eq!(detect_default_terminal(true, Some(DUMP.as_bytes().to_vec())), "iTerm");
    assert_eq!(detect_default_terminal(true, None), "Terminal");
}

#[test]
fn known_terminals_are_probed_in_applications_folders() {
    let probes = known_terminal_probes_in(Some("/Users/a"));
    let names: Vec<&str> = probes.iter().map(|p| p.name.as_str()).collect();
    assert_eq!(names, vec!["Terminal", "iTerm", "Ghostty", "Warp", "kitty", "Hyper"]);
    assert_eq!(
        probes[0].paths,
        vec![
            "/System/Applications/Utilities/Terminal.app",
            "/Applications/Utilities/Terminal.app",
            "/Users/a/Applications/Terminal.app",
        ]
    );
    assert_eq!(probes[4].paths, vec!["/Applications/kitty.app", "/Users/a/Applications/kitty.app"]);
    let no_home = known_terminal_probes_in(None);
    assert_eq!(no_home[1].paths, vec!["/Applications/iTerm.app"]);
}

#[test]
fn a_terminal_is_installed_when_any_place_exists() {
    let probes = known_terminal_probes_in(None);
    assert!(terminal_info(&probes[0], &vec![false, true]).installed);
    assert!(!terminal_info(&probes[0], &vec![false, false]).installed);
    assert_eq!(terminal_info(&probes[3], &vec![]).name, "Warp");
}
