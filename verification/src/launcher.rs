//! The `ssh` command line of a bookmark, the OpenClaw maintenance command,
//! and the self-deleting script through which a terminal runs the command.
use vstd::prelude::*;
use crate::bookmark::{AppError, AppResult, Bookmark};
use crate::decimal::{decimal, push_decimal, u128_to_string};
use crate::paths::{expand_tilde_in, expand_tilde_text, home_dir, opt_view, path_join};
use crate::shell::{
    is_shell_plain, lemma_reads_as_concat, reads_as, shell_quote, shell_quoted, single_quote,
    single_quoted,
};
use crate::terminals::{launch_bundle, name_to_bundle};
use crate::text::{
    chars_blank, chars_eq, chars_of, char_is_ascii_alphanumeric, is_ascii_alphanumeric, is_blank,
    join, join_strings, push_char, push_chars, starts_with, string_of, trim, trim_chars, views,
};

verus! {

/// The OpenClaw maintenance one-liner as it runs when the bookmark user is
/// `root` (no `sudo` prefix).
pub const OPENCLAW_UPDATE_CMD: &'static str =
    "apt-get update && apt-get upgrade -y && openclaw update && openclaw doctor --fix";

/// The remote steps of the OpenClaw maintenance one-liner, in order.
pub open spec fn openclaw_segments() -> Seq<Seq<char>> {
    seq![
        "apt-get update"@,
        "apt-get upgrade -y"@,
        "openclaw update"@,
        "openclaw doctor --fix"@,
    ]
}

/// What goes in front of each step for the SSH user `user`: nothing for
/// `root` (surrounding whitespace aside), `sudo ` for anyone else.
pub open spec fn sudo_prefix(user: Seq<char>) -> Seq<char> {
    if trim(user) == "root"@ {
        Seq::<char>::empty()
    } else {
        "sudo "@
    }
}

/// The maintenance one-liner for the SSH user `user`: each step behind the
/// user's prefix, the steps joined with ` && `.
pub open spec fn openclaw_command(user: Seq<char>) -> Seq<char> {
    join(openclaw_segments().map_values(|s: Seq<char>| sudo_prefix(user) + s), " && "@)
}

/// The key file that the command names with `-i`: the bookmark's key path
/// when it authenticates with a key and the path is not blank.
pub open spec fn key_file(b: Bookmark) -> Option<Seq<char>> {
    if b.auth_type@ == "key"@ && b.key_path is Some && !is_blank(b.key_path->0@) {
        Some(b.key_path->0@)
    } else {
        None
    }
}

/// The extra `ssh` arguments of a bookmark, trimmed, when they are not blank.
pub open spec fn extra_arguments(b: Bookmark) -> Option<Seq<char>> {
    if b.extra_args is Some && !is_blank(b.extra_args->0@) {
        Some(trim(b.extra_args->0@))
    } else {
        None
    }
}

/// `-t` in update mode, which forces a terminal for the remote command.
pub open spec fn tty_words(update_mode: bool) -> Seq<Seq<char>> {
    if update_mode {
        seq!["-t"@]
    } else {
        Seq::<Seq<char>>::empty()
    }
}

/// `-p` and the port, unless the port is 22.
pub open spec fn port_words(b: Bookmark) -> Seq<Seq<char>> {
    if b.port != 22 {
        seq!["-p"@, decimal(b.port as nat)]
    } else {
        Seq::<Seq<char>>::empty()
    }
}

/// `-i` and the quoted, `~`-expanded key file, when there is one.
pub open spec fn key_words(b: Bookmark, home: Option<Seq<char>>) -> Seq<Seq<char>> {
    match key_file(b) {
        Some(k) => seq!["-i"@, shell_quoted(expand_tilde_text(k, home))],
        None => Seq::<Seq<char>>::empty(),
    }
}

/// The trimmed extra arguments, when they are not blank.
pub open spec fn extra_words(b: Bookmark) -> Seq<Seq<char>> {
    match extra_arguments(b) {
        Some(e) => seq![e],
        None => Seq::<Seq<char>>::empty(),
    }
}

/// `user@host`.
pub open spec fn target_word(b: Bookmark) -> Seq<char> {
    b.user@ + seq!['@'] + b.host@
}

/// What the remote side runs for the maintenance one-liner: the one-liner
/// itself when the session is to close once it finishes; otherwise the
/// one-liner followed by `; exec "$SHELL" -l`, which replaces it with an
/// interactive login shell whatever its outcome.
pub open spec fn openclaw_remote(user: Seq<char>, exit_on_finish: bool) -> Seq<char> {
    if exit_on_finish {
        openclaw_command(user)
    } else {
        openclaw_command(user) + "; exec \"$SHELL\" -l"@
    }
}

/// In update mode, what the remote side runs for the bookmark's user,
/// single-quoted for the local shell.
pub open spec fn remote_words(b: Bookmark, update_mode: bool, exit_on_finish: bool) -> Seq<Seq<char>> {
    if update_mode {
        seq![single_quoted(openclaw_remote(b.user@, exit_on_finish))]
    } else {
        Seq::<Seq<char>>::empty()
    }
}

/// The words of the command line for `b`, with `home` as the home directory
/// that `~/` in the key path stands for.
pub open spec fn ssh_command_words(
    b: Bookmark,
    update_mode: bool,
    exit_on_finish: bool,
    home: Option<Seq<char>>,
) -> Seq<
    Seq<char>,
> {
    seq!["ssh"@] + tty_words(update_mode) + port_words(b) + key_words(b, home) + extra_words(b)
        + seq![target_word(b)] + remote_words(b, update_mode, exit_on_finish)
}

/// The command line for `b`: its words joined with single spaces.
pub open spec fn ssh_command(
    b: Bookmark,
    update_mode: bool,
    exit_on_finish: bool,
    home: Option<Seq<char>>,
) -> Seq<char> {
    join(ssh_command_words(b, update_mode, exit_on_finish, home), " "@)
}

/// The command line of `b` looks up the home directory only for a key path
/// that starts with `~/`.
pub open spec fn needs_home(b: Bookmark) -> bool {
    key_file(b) is Some && starts_with(key_file(b)->0, seq!['~', '/'])
}

/// The remote steps of the OpenClaw maintenance one-liner.
pub fn openclaw_update_segments() -> (v: Vec<&'static str>)
    ensures
        v@.map_values(|s: &str| s@) == openclaw_segments(),
{
    let v = vec!["apt-get update", "apt-get upgrade -y", "openclaw update", "openclaw doctor --fix"];
    assert(v@.map_values(|s: &str| s@) == openclaw_segments());
    v
}

/// The OpenClaw maintenance one-liner for the SSH user `user`: every step
/// prefixed with `sudo ` unless the user is `root`, the steps joined with
/// ` && `. For `root` it is `OPENCLAW_UPDATE_CMD`.
pub fn build_openclaw_cmd(user: &str) -> (r: String)
    ensures
        r@ == openclaw_command(user@),
        trim(user@) == "root"@ ==> r@ == OPENCLAW_UPDATE_CMD@,
{
    let u = trim_chars(&chars_of(user));
    let root = chars_of("root");
    let prefix: &str = if chars_eq(&u, &root) {
        ""
    } else {
        "sudo "
    };
    proof {
        reveal_strlit("");
        assert(prefix@ == sudo_prefix(user@));
    }
    let segs = openclaw_update_segments();
    let ghost want = openclaw_segments().map_values(|s: Seq<char>| sudo_prefix(user@) + s);
    let mut parts: Vec<String> = Vec::new();
    let mut i: usize = 0;
    while i < segs.len()
        invariant
            i <= segs.len(),
            segs@.map_values(|s: &str| s@) == openclaw_segments(),
            prefix@ == sudo_prefix(user@),
            want == openclaw_segments().map_values(|s: Seq<char>| sudo_prefix(user@) + s),
            views(parts@) == want.take(i as int),
        decreases segs.len() - i,
    {
        let mut p = String::from_str(prefix);
        p.append(segs[i]);
        let ghost before = parts@;
        parts.push(p);
        proof {
            assert(segs@.map_values(|s: &str| s@)[i as int] == segs@[i as int]@);
            assert(views(parts@) == views(before).push(p@));
            assert(want.take(i + 1) == want.take(i as int).push(want[i as int]));
        }
        i = i + 1;
    }
    assert(want.take(segs.len() as int) == want);
    let r = join_strings(&parts, " && ");
    proof {
        if trim(user@) == "root"@ {
            lemma_root_command(user@);
        }
    }
    r
}

/// What the remote side runs for the maintenance one-liner of `user`: the
/// one-liner, followed by `; exec "$SHELL" -l` unless the session is to close
/// once it finishes.
pub fn build_openclaw_session_cmd(user: &str, exit_on_finish: bool) -> (r: String)
    ensures
        r@ == openclaw_remote(user@, exit_on_finish),
        exit_on_finish ==> r@ == openclaw_command(user@),
        !exit_on_finish ==> r@ == openclaw_command(user@) + "; exec \"$SHELL\" -l"@,
{
    let mut r = build_openclaw_cmd(user);
    if !exit_on_finish {
        r.append("; exec \"$SHELL\" -l");
    }
    r
}

/// Handing the session over to a login shell appends the same text for every
/// user, `; exec "$SHELL" -l`, to the one-liner that closes the session: the
/// hand-over runs in the user's own shell, with no `sudo` in front of it, and
/// only the maintenance steps differ from user to user.
pub proof fn lemma_login_shell_hand_over(user: Seq<char>, other: Seq<char>)
    ensures
        openclaw_remote(user, true) == openclaw_command(user),
        openclaw_remote(user, false) == openclaw_remote(user, true) + "; exec \"$SHELL\" -l"@,
        openclaw_remote(user, false).skip(openclaw_remote(user, true).len() as int)
            == openclaw_remote(other, false).skip(openclaw_remote(other, true).len() as int),
{
    let s = "; exec \"$SHELL\" -l"@;
    assert(openclaw_remote(user, false).skip(openclaw_remote(user, true).len() as int) =~= s);
    assert(openclaw_remote(other, false).skip(openclaw_remote(other, true).len() as int) =~= s);
}

/// For a user that trims to `root` the maintenance one-liner is
/// `OPENCLAW_UPDATE_CMD`.
pub proof fn lemma_root_command(u: Seq<char>)
    requires
        trim(u) == "root"@,
    ensures
        openclaw_command(u) == OPENCLAW_UPDATE_CMD@,
{
    reveal_strlit("apt-get update");
    reveal_strlit("apt-get upgrade -y");
    reveal_strlit("openclaw update");
    reveal_strlit("openclaw doctor --fix");
    reveal_strlit(" && ");
    reveal_strlit("apt-get update && apt-get upgrade -y && openclaw update && openclaw doctor --fix");
    assert(OPENCLAW_UPDATE_CMD@ == "apt-get update && apt-get upgrade -y && openclaw update && openclaw doctor --fix"@);
    assert(sudo_prefix(u) == Seq::<char>::empty());
    let segs = openclaw_segments();
    let mapped = segs.map_values(|s: Seq<char>| sudo_prefix(u) + s);
    let sep = " && "@;
    assert(mapped =~= segs);
    let m1 = seq![segs[0]];
    let m2 = seq![segs[0], segs[1]];
    let m3 = seq![segs[0], segs[1], segs[2]];
    assert(m2.drop_last() =~= m1);
    assert(m3.drop_last() =~= m2);
    assert(mapped.drop_last() =~= m3);
    assert(join(m1, sep) == segs[0]);
    assert(join(m2, sep) == segs[0] + sep + segs[1]);
    assert(join(m3, sep) == join(m2, sep) + sep + segs[2]);
    assert(join(mapped, sep) == join(m3, sep) + sep + segs[3]);
    assert(join(mapped, sep) =~= OPENCLAW_UPDATE_CMD@);
}

/// Appends `w` to the words.
fn push_word(parts: &mut Vec<String>, w: String)
    ensures
        views(final(parts)@) == views(old(parts)@).push(w@),
{
    parts.push(w);
    assert(views(parts@) == views(old(parts)@).push(w@));
}

/// The command line for `b`, with `home` as the home directory that `~/` in
/// the key path stands for.
pub fn build_ssh_command_in(
    b: &Bookmark,
    update_mode: bool,
    exit_on_finish: bool,
    home: Option<&str>,
) -> (r: String)
    ensures
        r@ == ssh_command(
            *b,
            update_mode,
            exit_on_finish,
            match home {
                Some(h) => Some(h@),
                None => None,
            },
        ),
{
    let ghost h = match home {
        Some(h) => Some(h@),
        None => None,
    };
    let mut parts: Vec<String> = Vec::new();
    push_word(&mut parts, String::from_str("ssh"));
    assert(views(parts@) == seq!["ssh"@]);
    if update_mode {
        push_word(&mut parts, String::from_str("-t"));
    }
    let ghost w1 = views(parts@);
    assert(w1 == seq!["ssh"@] + tty_words(update_mode));
    if b.port != 22 {
        push_word(&mut parts, String::from_str("-p"));
        push_word(&mut parts, u128_to_string(b.port as u128));
    }
    let ghost w2 = views(parts@);
    assert(w2 == w1 + port_words(*b));
    let is_key = crate::text::str_eq(b.auth_type.as_str(), "key");
    if is_key {
        match &b.key_path {
            Some(k) => {
                if !crate::text::str_blank(k.as_str()) {
                    push_word(&mut parts, String::from_str("-i"));
                    let expanded = expand_tilde_in(k.as_str(), home);
                    push_word(&mut parts, shell_quote(expanded.as_str()));
                }
            },
            None => {},
        }
    }
    let ghost w3 = views(parts@);
    assert(w3 == w2 + key_words(*b, h));
    match &b.extra_args {
        Some(e) => {
            let v = chars_of(e.as_str());
            if !chars_blank(&v) {
                push_word(&mut parts, string_of(&trim_chars(&v)));
            }
        },
        None => {},
    }
    let ghost w4 = views(parts@);
    assert(w4 == w3 + extra_words(*b));
    let mut target = b.user.clone();
    push_char(&mut target, '@');
    target.append(b.host.as_str());
    assert(target@ =~= target_word(*b));
    push_word(&mut parts, target);
    let ghost w5 = views(parts@);
    assert(w5 == w4 + seq![target_word(*b)]);
    if update_mode {
        let remote = build_openclaw_session_cmd(b.user.as_str(), exit_on_finish);
        push_word(&mut parts, single_quote(remote.as_str()));
    }
    assert(views(parts@) == w5 + remote_words(*b, update_mode, exit_on_finish));
    assert(views(parts@) == ssh_command_words(*b, update_mode, exit_on_finish, h));
    join_strings(&parts, " ")
}

/// `line` is the command line of `b` for the home directory `h`, which the
/// environment can give (none, or one with a non-empty name).
pub open spec fn built_for_home(
    line: Seq<char>,
    b: Bookmark,
    update_mode: bool,
    exit_on_finish: bool,
    h: Option<Seq<char>>,
) -> bool {
    crate::paths::usable_home(h) && line == ssh_command(b, update_mode, exit_on_finish, h)
}

/// The bookmark's user and host are made of shell-plain characters and it
/// has no extra arguments, so its command line is split by the shell into
/// the intended arguments only.
pub open spec fn splits_plainly(b: Bookmark) -> bool {
    &&& crate::shell::all_shell_plain(b.user@)
    &&& crate::shell::all_shell_plain(b.host@)
    &&& extra_arguments(b) is None
}

/// A POSIX shell splits `line` into the intended arguments of `ssh` for `b`
/// and the home directory `h`, which the environment can give.
pub open spec fn splits_for_home(
    line: Seq<char>,
    b: Bookmark,
    update_mode: bool,
    exit_on_finish: bool,
    h: Option<Seq<char>>,
) -> bool {
    crate::paths::usable_home(h) && crate::shell::shell_fields(line) == Some(
        ssh_command_fields(b, update_mode, exit_on_finish, h),
    )
}

/// The command line that launching `b` runs, with the maintenance session
/// closing (`exit_on_finish`) or handing over to a login shell: `ssh`, `-t`
/// in update mode, `-p PORT` unless the port is 22, `-i KEY` for key
/// authentication with a key path that is not blank (`~/` expanded against
/// the home directory that the environment gives, quoted for the shell), the
/// trimmed extra arguments when not blank, `user@host`, and in update mode
/// the single-quoted remote command; joined with single spaces.
pub fn build_ssh_session_command(b: &Bookmark, update_mode: bool, exit_on_finish: bool) -> (r:
    String)
    ensures
        exists|h: Option<Seq<char>>|
            #[trigger] built_for_home(r@, *b, update_mode, exit_on_finish, h),
        !needs_home(*b) ==> r@ == ssh_command(*b, update_mode, exit_on_finish, None),
        splits_plainly(*b) ==> exists|h: Option<Seq<char>>|
            #[trigger] splits_for_home(r@, *b, update_mode, exit_on_finish, h),
{
    let home = home_dir();
    let r = match &home {
        Some(h) => build_ssh_command_in(b, update_mode, exit_on_finish, Some(h.as_str())),
        None => build_ssh_command_in(b, update_mode, exit_on_finish, None),
    };
    proof {
        let h = opt_view(home);
        assert(r@ == ssh_command(*b, update_mode, exit_on_finish, h));
        assert(built_for_home(r@, *b, update_mode, exit_on_finish, h));
        if splits_plainly(*b) {
            lemma_ssh_command_fields(*b, update_mode, exit_on_finish, h);
            assert(splits_for_home(r@, *b, update_mode, exit_on_finish, h));
        }
        if !needs_home(*b) {
            if key_file(*b) is Some {
                assert(expand_tilde_text(key_file(*b)->0, h) == key_file(*b)->0);
                assert(expand_tilde_text(key_file(*b)->0, None) == key_file(*b)->0);
            }
            assert(key_words(*b, h) == key_words(*b, None));
            assert(ssh_command_words(*b, update_mode, exit_on_finish, h) == ssh_command_words(
                *b,
                update_mode,
                exit_on_finish,
                None,
            ));
        }
    }
    r
}

/// The command line that launching `b` runs, the maintenance session (in
/// update mode) closing once its command finishes.
pub fn build_ssh_command(b: &Bookmark, update_mode: bool) -> (r: String)
    ensures
        exists|h: Option<Seq<char>>| #[trigger] built_for_home(r@, *b, update_mode, true, h),
        !needs_home(*b) ==> r@ == ssh_command(*b, update_mode, true, None),
        splits_plainly(*b) ==> exists|h: Option<Seq<char>>|
            #[trigger] splits_for_home(r@, *b, update_mode, true, h),
{
    build_ssh_session_command(b, update_mode, true)
}

// ---------------------------------------------------------------------------
// The launch script
// ---------------------------------------------------------------------------

/// What the script says before the command is echoed: its interpreter line,
/// a comment, a `clear`, and the start of the `printf` that echoes it.
pub open spec fn script_head() -> Seq<char> {
    "#!/bin/bash\n# Auto-generated by SSH Bookmarker \u{2014} safe to delete.\nclear\nprintf '> %s\\n' "@
}

/// What the script does after running the command: it keeps the command's
/// status, removes itself, and exits with that status.
pub open spec fn script_tail() -> Seq<char> {
    "\nstatus=$?\nrm -- \"$0\"\nexit $status\n"@
}

/// The self-deleting script that runs `cmd`: it echoes the command,
/// single-quoted for `printf`, then runs it.
pub open spec fn script_text(cmd: Seq<char>) -> Seq<char> {
    script_head() + single_quoted(cmd) + seq!['\n'] + cmd + script_tail()
}

/// The label of a launch: the bookmark's name, followed by
/// `-openclaw-update` in update mode.
pub open spec fn launch_label(b: Bookmark, update_mode: bool) -> Seq<char> {
    if update_mode {
        b.name@ + "-openclaw-update"@
    } else {
        b.name@
    }
}

/// `label` with every character that is not an ASCII letter or digit
/// replaced by `_`.
pub open spec fn safe_label(label: Seq<char>) -> Seq<char> {
    Seq::new(
        label.len(),
        |i: int|
            if is_ascii_alphanumeric(label[i]) {
                label[i]
            } else {
                '_'
            },
    )
}

/// The file name of the script for a launch labelled `label`, made unique
/// by `nonce`.
pub open spec fn script_file_name(label: Seq<char>, nonce: nat) -> Seq<char> {
    "ssh-bookmarker-"@ + safe_label(label) + seq!['-'] + decimal(nonce) + ".command"@
}

/// A character that file names of launch scripts are made of.
pub open spec fn is_file_name_char(c: char) -> bool {
    is_ascii_alphanumeric(c) || c == '-' || c == '_' || c == '.'
}

/// What launching a bookmark needs done: the script to write (under the
/// temporary directory, with the file name given), and the bundle
/// identifier to hand it to, if the terminal is known.
#[derive(Debug, Clone)]
pub struct LaunchPlan {
    pub command: String,
    pub script_name: String,
    pub script: String,
    pub bundle: Option<String>,
}

/// How handing the script to the terminal went.
#[derive(Debug, Clone)]
pub enum OpenOutcome {
    /// This system has no way to hand a script to a terminal.
    Unsupported,
    /// `open` ran and exited; `status` is how its exit status reads.
    Finished { success: bool, status: String },
}

/// The script that runs `cmd`: it clears the terminal, echoes the command,
/// runs it, removes itself and exits with the command's status.
pub fn command_script(cmd: &str) -> (r: String)
    ensures
        r@ == script_text(cmd@),
{
    let mut r = String::from_str(
        "#!/bin/bash\n# Auto-generated by SSH Bookmarker \u{2014} safe to delete.\nclear\nprintf '> %s\\n' ",
    );
    let quoted = single_quote(cmd);
    r.append(quoted.as_str());
    push_char(&mut r, '\n');
    r.append(cmd);
    r.append("\nstatus=$?\nrm -- \"$0\"\nexit $status\n");
    assert(r@ =~= script_text(cmd@));
    r
}

/// The file name of the script for a launch labelled `label`: only ASCII
/// letters and digits of the label are kept, the rest become `_`.
pub fn script_file_name_for(label: &str, nonce: u128) -> (r: String)
    ensures
        r@ == script_file_name(label@, nonce as nat),
        forall|i: int| 0 <= i < r@.len() ==> is_file_name_char(#[trigger] r@[i]),
{
    let v = chars_of(label);
    let mut safe: Vec<char> = Vec::new();
    let mut i: usize = 0;
    while i < v.len()
        invariant
            i <= v.len(),
            safe@ == safe_label(v@).take(i as int),
        decreases v.len() - i,
    {
        let c = v[i];
        if char_is_ascii_alphanumeric(c) {
            safe.push(c);
        } else {
            safe.push('_');
        }
        assert(safe_label(v@).take(i + 1) == safe_label(v@).take(i as int).push(
            safe_label(v@)[i as int],
        ));
        i = i + 1;
    }
    assert(safe_label(v@).take(v.len() as int) == safe_label(v@));
    let mut r = String::from_str("ssh-bookmarker-");
    push_chars(&mut r, &safe);
    push_char(&mut r, '-');
    push_decimal(&mut r, nonce);
    r.append(".command");
    proof {
        reveal_strlit("ssh-bookmarker-");
        reveal_strlit(".command");
        assert(r@ =~= script_file_name(label@, nonce as nat));
        crate::decimal::lemma_decimal(nonce as nat);
        let d = decimal(nonce as nat);
        let n1 = "ssh-bookmarker-"@.len() + safe@.len() + 1;
        assert forall|i: int| 0 <= i < r@.len() implies is_file_name_char(#[trigger] r@[i]) by {
            if i < "ssh-bookmarker-"@.len() {
                assert(r@[i] == "ssh-bookmarker-"@[i]);
            } else if i < "ssh-bookmarker-"@.len() + safe@.len() {
                assert(r@[i] == safe@[i - "ssh-bookmarker-"@.len()]);
            } else if i < n1 {
            } else if i < n1 + d.len() {
                assert(r@[i] == d[i - n1]);
                assert(crate::decimal::is_digit(d[i - n1]));
            } else {
                assert(r@[i] == ".command"@[i - n1 - d.len()]);
            }
        }
    }
    r
}

/// The label of a launch of `b`.
pub fn launch_label_for(b: &Bookmark, update_mode: bool) -> (r: String)
    ensures
        r@ == launch_label(*b, update_mode),
{
    let mut r = b.name.clone();
    if update_mode {
        r.append("-openclaw-update");
    }
    r
}

/// What launching `b` in `terminal` needs done, the script made unique by
/// `nonce`: the command line of `b` (in update mode with the session closing
/// or not as `exit_on_finish` says), the script that runs it, the script's
/// file name, and, on macOS (`is_macos`), the bundle identifier of the
/// terminal if it is known; off macOS no bundle.
pub fn plan_launch(
    b: &Bookmark,
    terminal: Option<&str>,
    update_mode: bool,
    exit_on_finish: bool,
    is_macos: bool,
    nonce: u128,
) -> (r: LaunchPlan)
    ensures
        exists|h: Option<Seq<char>>|
            #[trigger] built_for_home(r.command@, *b, update_mode, exit_on_finish, h),
        splits_plainly(*b) ==> exists|h: Option<Seq<char>>|
            #[trigger] splits_for_home(r.command@, *b, update_mode, exit_on_finish, h),
        !needs_home(*b) ==> r.command@ == ssh_command(*b, update_mode, exit_on_finish, None),
        r.script@ == script_text(r.command@),
        r.script_name@ == script_file_name(launch_label(*b, update_mode), nonce as nat),
        match terminal {
            Some(t) => opt_view(r.bundle) == launch_bundle(t@, is_macos),
            None => r.bundle is None,
        },
{
    let command = build_ssh_session_command(b, update_mode, exit_on_finish);
    let label = launch_label_for(b, update_mode);
    let script_name = script_file_name_for(label.as_str(), nonce);
    let script = command_script(command.as_str());
    let bundle = match terminal {
        Some(t) => match name_to_bundle(t, is_macos) {
            Some(id) => Some(String::from_str(id)),
            None => None,
        },
        None => None,
    };
    let r = LaunchPlan { command, script_name, script, bundle };
    proof {
        let h = choose|h: Option<Seq<char>>|
            #[trigger] built_for_home(r.command@, *b, update_mode, exit_on_finish, h);
        assert(built_for_home(r.command@, *b, update_mode, exit_on_finish, h));
        if splits_plainly(*b) {
            let g = choose|g: Option<Seq<char>>|
                #[trigger] splits_for_home(r.command@, *b, update_mode, exit_on_finish, g);
            assert(splits_for_home(r.command@, *b, update_mode, exit_on_finish, g));
        }
    }
    r
}

/// The answer to a launch whose command line is `command`, once the script
/// has been handed over: the command line when `open` succeeded, an error
/// that quotes `open`'s exit status when it failed, and an error saying so
/// where launching is not supported.
pub fn launch_outcome(command: String, outcome: OpenOutcome) -> (r: AppResult<String>)
    ensures
        match outcome {
            OpenOutcome::Unsupported => r is Err && r->Err_0 is Other && r->Err_0->Other_0@
                == "launching is only implemented for macOS"@,
            OpenOutcome::Finished { success, status } => if success {
                r == Ok::<String, AppError>(command)
            } else {
                r is Err && r->Err_0 is Other && r->Err_0->Other_0@ == "`open` exited with status "@
                    + status@
            },
        },
{
    match outcome {
        OpenOutcome::Unsupported => Err(
            AppError::Other(String::from_str("launching is only implemented for macOS")),
        ),
        OpenOutcome::Finished { success, status } => {
            if success {
                Ok(command)
            } else {
                let mut m = String::from_str("`open` exited with status ");
                m.append(status.as_str());
                Err(AppError::Other(m))
            }
        },
    }
}

/// The script that runs a command echoes exactly that command: the `printf`
/// argument, read as a shell word, is the command itself, whatever quotes it
/// holds; and the command follows on a line of its own.
pub proof fn lemma_script_echoes_command(cmd: Seq<char>)
    ensures
        script_text(cmd) == script_head() + single_quoted(cmd) + seq!['\n'] + cmd + script_tail(),
        crate::shell::shell_word_value(single_quoted(cmd)) == Some(cmd),
{
    crate::shell::lemma_single_quoted_reads_back(cmd);
}


/// The key file as the shell passes it to `ssh`: `-i` and the `~`-expanded
/// key path, when there is one.
pub open spec fn key_fields(b: Bookmark, home: Option<Seq<char>>) -> Seq<Seq<char>> {
    match key_file(b) {
        Some(k) => seq!["-i"@, expand_tilde_text(k, home)],
        None => Seq::<Seq<char>>::empty(),
    }
}

/// In update mode, the remote command as the shell passes it to `ssh`.
pub open spec fn remote_fields(b: Bookmark, update_mode: bool, exit_on_finish: bool) -> Seq<
    Seq<char>,
> {
    if update_mode {
        seq![openclaw_remote(b.user@, exit_on_finish)]
    } else {
        Seq::<Seq<char>>::empty()
    }
}

/// The arguments that `ssh` receives from the command line of `b`.
pub open spec fn ssh_command_fields(
    b: Bookmark,
    update_mode: bool,
    exit_on_finish: bool,
    home: Option<Seq<char>>,
) -> Seq<Seq<char>> {
    seq!["ssh"@] + tty_words(update_mode) + port_words(b) + key_fields(b, home) + seq![
        target_word(b),
    ] + remote_fields(b, update_mode, exit_on_finish)
}

/// A non-empty word of shell-plain characters reads as itself.
proof fn lemma_plain_chars(w: Seq<char>)
    requires
        w.len() > 0,
        forall|i: int| 0 <= i < w.len() ==> crate::shell::is_shell_plain(#[trigger] w[i]),
    ensures
        crate::shell::reads_as(seq![w], seq![w]),
{
    crate::shell::lemma_plain_reads_as(w);
}

/// A POSIX shell splits the command line of a bookmark into exactly the
/// intended arguments of `ssh`: `ssh`, `-t` in update mode, `-p` and the
/// port unless it is 22, `-i` and the `~`-expanded key path for key
/// authentication, `user@host`, and in update mode the remote command, each
/// as one argument whatever quotes or spaces the key path or the remote
/// command hold. This holds when the user and host are made of shell-plain
/// characters, there are no extra arguments (they are passed to the shell
/// as they are), and the home directory is one the environment can give
/// (none, or one with a non-empty name).
pub proof fn lemma_ssh_command_fields(
    b: Bookmark,
    update_mode: bool,
    exit_on_finish: bool,
    home: Option<Seq<char>>,
)
    requires
        crate::shell::all_shell_plain(b.user@),
        crate::shell::all_shell_plain(b.host@),
        extra_arguments(b) is None,
        crate::paths::usable_home(home),
    ensures
        crate::shell::shell_fields(ssh_command(b, update_mode, exit_on_finish, home)) == Some(
            ssh_command_fields(b, update_mode, exit_on_finish, home),
        ),
{
    reveal_strlit("ssh");
    reveal_strlit("-t");
    reveal_strlit("-p");
    reveal_strlit("-i");
    reveal_strlit(" ");
    let ssh = "ssh"@;
    lemma_plain_chars(ssh);
    let tty = tty_words(update_mode);
    if update_mode {
        lemma_plain_chars("-t"@);
    }
    assert(reads_as(tty, tty));
    let port = port_words(b);
    if b.port != 22 {
        lemma_plain_chars("-p"@);
        crate::decimal::lemma_decimal(b.port as nat);
        let d = decimal(b.port as nat);
        assert forall|i: int| 0 <= i < d.len() implies is_shell_plain(#[trigger] d[i]) by {
            assert(crate::decimal::is_digit(d[i]));
        }
        lemma_plain_chars(d);
        lemma_reads_as_concat(seq!["-p"@], seq!["-p"@], seq![d], seq![d]);
        assert(seq!["-p"@] + seq![d] == port);
    }
    assert(reads_as(port, port));
    let keys = key_words(b, home);
    let kf = key_fields(b, home);
    if key_file(b) is Some {
        let k = key_file(b)->0;
        crate::text::lemma_blank_iff_all_whitespace(k);
        assert(k.len() > 0);
        crate::paths::lemma_expanded_nonempty(k, home);
        let e = expand_tilde_text(k, home);
        lemma_plain_chars("-i"@);
        crate::shell::lemma_quoted_reads_as(e);
        lemma_reads_as_concat(seq!["-i"@], seq!["-i"@], seq![shell_quoted(e)], seq![e]);
        assert(seq!["-i"@] + seq![shell_quoted(e)] == keys);
        assert(seq!["-i"@] + seq![e] == kf);
    }
    assert(reads_as(keys, kf));
    let target = target_word(b);
    assert forall|i: int| 0 <= i < target.len() implies is_shell_plain(#[trigger] target[i]) by {
        if i < b.user@.len() {
            assert(target[i] == b.user@[i]);
        } else if i == b.user@.len() {
            assert(target[i] == '@');
        } else {
            assert(target[i] == b.host@[i - b.user@.len() - 1]);
        }
    }
    assert(target[b.user@.len() as int] == '@');
    lemma_plain_chars(target);
    let remote = remote_words(b, update_mode, exit_on_finish);
    let rf = remote_fields(b, update_mode, exit_on_finish);
    if update_mode {
        crate::shell::lemma_single_quoted_reads_as(openclaw_remote(b.user@, exit_on_finish));
    }
    assert(reads_as(remote, rf));
    lemma_reads_as_concat(seq![ssh], seq![ssh], tty, tty);
    lemma_reads_as_concat(seq![ssh] + tty, seq![ssh] + tty, port, port);
    lemma_reads_as_concat(seq![ssh] + tty + port, seq![ssh] + tty + port, keys, kf);
    lemma_reads_as_concat(
        seq![ssh] + tty + port + keys,
        seq![ssh] + tty + port + kf,
        seq![target],
        seq![target],
    );
    lemma_reads_as_concat(
        seq![ssh] + tty + port + keys + seq![target],
        seq![ssh] + tty + port + kf + seq![target],
        remote,
        rf,
    );
    let words = ssh_command_words(b, update_mode, exit_on_finish, home);
    assert(extra_words(b) == Seq::<Seq<char>>::empty());
    assert(words =~= seq![ssh] + tty + port + keys + seq![target] + remote);
    assert(ssh_command_fields(b, update_mode, exit_on_finish, home) =~= seq![ssh] + tty + port + kf
        + seq![target] + rf);
    assert(" "@ =~= seq![' ']);
    crate::shell::lemma_fields_of_words(words, ssh_command_fields(b, update_mode, exit_on_finish, home));
}

/// A key path `~/P` is handed to `ssh` as `P` joined onto the home
/// directory `H` that the command line is built for: the shell passes `-i`
/// and then that path as the arguments after `ssh`, `-t` and the port.
/// (The user and host are shell-plain and there are no extra arguments.)
pub proof fn lemma_home_key_argument(
    b: Bookmark,
    update_mode: bool,
    exit_on_finish: bool,
    home: Seq<char>,
    rest: Seq<char>,
)
    requires
        crate::shell::all_shell_plain(b.user@),
        crate::shell::all_shell_plain(b.host@),
        extra_arguments(b) is None,
        home.len() > 0,
        key_file(b) == Some(seq!['~', '/'] + rest),
    ensures
        ({
            let k: int = 1 + tty_words(update_mode).len() as int + port_words(b).len() as int;
            exists|f: Seq<Seq<char>>|
                #[trigger] crate::shell::shell_fields(ssh_command(b, update_mode, exit_on_finish, Some(home)))
                    == Some(f) && f.len() > k + 1 && f[k] == "-i"@ && f[k + 1] == path_join(home, rest)
        }),
{
    let h = Some(home);
    lemma_ssh_command_fields(b, update_mode, exit_on_finish, h);
    let f = ssh_command_fields(b, update_mode, exit_on_finish, h);
    let p = seq!['~', '/'] + rest;
    assert(crate::text::starts_with(p, seq!['~', '/'])) by {
        assert(p.take(2) =~= seq!['~', '/']);
    }
    assert(p.skip(2) =~= rest);
    assert(expand_tilde_text(p, h) == path_join(home, rest));
    let k: int = 1 + tty_words(update_mode).len() as int + port_words(b).len() as int;
    assert(f[k] == "-i"@);
    assert(f[k + 1] == path_join(home, rest));
}

} // verus!
