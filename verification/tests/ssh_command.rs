use ssh_bookmarker::bookmark::{AppError, Bookmark};
use ssh_bookmarker::launcher::{
    build_openclaw_cmd, build_ssh_command, build_ssh_command_in, command_script, launch_label_for,
    build_openclaw_session_cmd, build_ssh_session_command, launch_outcome, plan_launch,
    script_file_name_for, OpenOutcome, OPENCLAW_UPDATE_CMD,
};
use ssh_bookmarker::paths::{expand_tilde_in, join_path};

fn bookmark(user: &str, port: u16, auth: &str, key: Option<&str>, extra: Option<&str>) -> Bookmark {
    Bookmark {
        id: Some(1),
        name: "my host".to_string(),
        host: "example.com".to_string(),
        user: user.to_string(),
        port,
        auth_type: auth.to_string(),
        key_path: key.map(|s| s.to_string()),
        extra_args: extra.map(|s| s.to_string()),
        notes: None,
        created_at: None,
        updated_at: None,
    }
}

#[test]
fn openclaw_command_for_root_is_the_documented_one_liner() {
    assert_eq!(build_openclaw_cmd("root"), OPENCLAW_UPDATE_CMD);
    assert_eq!(build_openclaw_cmd("  root\t"), OPENCLAW_UPDATE_CMD);
    assert_eq!(
        OPENCLAW_UPDATE_CMD,
        "apt-get update && apt-get upgrade -y && openclaw update && openclaw doctor --fix"
    );
}

#[test]
fn openclaw_command_for_other_users_uses_sudo() {
    assert_eq!(
        build_openclaw_cmd("ubuntu"),
        "sudo apt-get update && sudo apt-get upgrade -y && sudo openclaw update && sudo openclaw doctor --fix"
    );
    assert!(build_openclaw_cmd("Root").starts_with("sudo "));
}

#[test]
fn default_port_and_password_auth_give_the_bare_command() {
    let b = bookmark("alice", 22, "password", Some("/k"), None);
    assert_eq!(build_ssh_command_in(&b, false, true, None), "ssh alice@example.com");
}

#[test]
fn other_ports_are_passed_with_p() {
    let b = bookmark("alice", 2222, "password", None, None);
    assert_eq!(build_ssh_command_in(&b, false, true, None), "ssh -p 2222 alice@example.com");
}

#[test]
fn key_files_are_expanded_and_quoted() {
    let b = bookmark("alice", 22, "key", Some("~/.ssh/my key"), None);
    assert_eq!(
        build_ssh_command_in(&b, false, true, Some("/Users/alice")),
        "ssh -i '/Users/alice/.ssh/my key' alice@example.com"
    );
    let plain = bookmark("alice", 22, "key", Some("/etc/keys/id_rsa"), None);
    assert_eq!(
        build_ssh_command_in(&plain, false, true, Some("/Users/alice")),
        "ssh -i /etc/keys/id_rsa alice@example.com"
    );
}

#[test]
fn blank_key_paths_and_extra_args_are_left_out() {
    let b = bookmark("alice", 22, "key", Some("   "), Some(" \t "));
    assert_eq!(build_ssh_command_in(&b, false, true, None), "ssh alice@example.com");
}

#[test]
fn extra_args_are_trimmed_and_passed_verbatim() {
    let b = bookmark("alice", 22, "password", None, Some("  -o ServerAliveInterval=30 -J jump@gw  "));
    assert_eq!(
        build_ssh_command_in(&b, false, true, None),
        "ssh -o ServerAliveInterval=30 -J jump@gw alice@example.com"
    );
}

#[test]
fn update_mode_forces_a_tty_and_quotes_the_remote_command() {
    let b = bookmark("root", 2200, "key", Some("/k/id"), Some("-A"));
    assert_eq!(
        build_ssh_command_in(&b, true, true, None),
        "ssh -t -p 2200 -i /k/id -A root@example.com 'apt-get update && apt-get upgrade -y && openclaw update && openclaw doctor --fix'"
    );
}

#[test]
fn commands_without_tilde_do_not_depend_on_home() {
    let b = bookmark("bob", 22, "key", Some("/k/id"), None);
    assert_eq!(build_ssh_command(&b, false), "ssh -i /k/id bob@example.com");
}

#[test]
fn tilde_expansion_follows_path_joining() {
    assert_eq!(expand_tilde_in("~/x", Some("/home/u")), "/home/u/x");
    assert_eq!(expand_tilde_in("~/x", Some("/home/u/")), "/home/u/x");
    assert_eq!(expand_tilde_in("~/x", None), "~/x");
    assert_eq!(expand_tilde_in("~x", Some("/home/u")), "~x");
    assert_eq!(expand_tilde_in("~//abs", Some("/home/u")), "/abs");
    assert_eq!(join_path("", "rel"), "rel");
    assert_eq!(join_path("/base", "/abs"), "/abs");
    assert_eq!(join_path("/base", ""), "/base/");
}

#[test]
fn the_script_echoes_then_runs_the_command() {
    let s = command_script("ssh a@b 'x'");
    assert_eq!(
        s,
        "#!/bin/bash\n# Auto-generated by SSH Bookmarker \u{2014} safe to delete.\nclear\nprintf '> %s\\n' 'ssh a@b '\\''x'\\'''\nssh a@b 'x'\nstatus=$?\nrm -- \"$0\"\nexit $status\n"
    );
}

#[test]
fn script_names_keep_only_ascii_letters_and_digits_of_the_label() {
    assert_eq!(script_file_name_for("my host!", 42), "ssh-bookmarker-my_host_-42.command");
    assert_eq!(script_file_name_for("../x/\u{e9}", 0), "ssh-bookmarker-___x__-0.command");
}

#[test]
fn update_launches_are_labelled() {
    let b = bookmark("root", 22, "password", None, None);
    assert_eq!(launch_label_for(&b, false), "my host");
    assert_eq!(launch_label_for(&b, true), "my host-openclaw-update");
}

#[test]
fn launch_plans_name_the_terminal_bundle() {
    let b = bookmark("root", 22, "password", None, None);
    let plan = plan_launch(&b, Some("iTerm"), false, true, true, 7);
    assert_eq!(plan.command, "ssh root@example.com");
    assert_eq!(plan.script_name, "ssh-bookmarker-my_host-7.command");
    assert_eq!(plan.script, command_script("ssh root@example.com"));
    assert_eq!(plan.bundle.as_deref(), Some("com.googlecode.iterm2"));
    assert_eq!(plan_launch(&b, Some("xterm"), false, true, true, 7).bundle, None);
    assert_eq!(plan_launch(&b, None, true, true, true, 7).script_name, "ssh-bookmarker-my_host_openclaw_update-7.command");
}

#[test]
fn launch_outcomes() {
    assert!(matches!(
        launch_outcome("ssh a@b".to_string(), OpenOutcome::Finished { success: true, status: "exit status: 0".to_string() }),
        Ok(c) if c == "ssh a@b"
    ));
    assert!(matches!(
        launch_outcome("ssh a@b".to_string(), OpenOutcome::Finished { success: false, status: "exit status: 1".to_string() }),
        Err(AppError::Other(m)) if m == "`open` exited with status exit status: 1"
    ));
    assert!(matches!(
        launch_outcome("ssh a@b".to_string(), OpenOutcome::Unsupported),
        Err(AppError::Other(m)) if m == "launching is only implemented for macOS"
    ));
}

#[test]
fn launch_plans_name_no_bundle_off_macos() {
    let b = bookmark("root", 22, "password", None, None);
    assert_eq!(plan_launch(&b, Some("iTerm"), false, true, false, 7).bundle, None);
}

#[test]
fn a_session_that_stays_open_hands_over_to_a_login_shell() {
    assert_eq!(build_openclaw_session_cmd("root", true), OPENCLAW_UPDATE_CMD);
    assert_eq!(
        build_openclaw_session_cmd("root", false),
        "apt-get update && apt-get upgrade -y && openclaw update && openclaw doctor --fix; exec \"$SHELL\" -l"
    );
    let b = bookmark("root", 22, "password", None, None);
    assert_eq!(
        build_ssh_command_in(&b, true, false, None),
        "ssh -t root@example.com 'apt-get update && apt-get upgrade -y && openclaw update && openclaw doctor --fix; exec \"$SHELL\" -l'"
    );
    assert_eq!(build_ssh_session_command(&b, false, false), "ssh root@example.com");
}
