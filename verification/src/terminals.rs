//! The terminal applications the launcher knows: their bundle identifiers,
//! where they are installed, and which one macOS opens shell scripts with.
use vstd::prelude::*;
use crate::paths::{home_dir, join_path, opt_view, path_join};
use crate::text::{
    chars_contains, chars_of, chars_starts_with, contains, split_chars, split_on,
    starts_with, str_eq, string_of, sub_chars, trim, trim_chars, views,
};

verus! {

/// A terminal application and whether it is installed.
#[derive(Debug, Clone)]
pub struct TerminalInfo {
    pub name: String,
    pub installed: bool,
}

/// A terminal application and the places where finding it means that it is
/// installed.
#[derive(Debug, Clone)]
pub struct TerminalProbe {
    pub name: String,
    pub paths: Vec<String>,
}

/// The names of the known terminals, in the order they are offered.
pub open spec fn terminal_names() -> Seq<Seq<char>> {
    seq!["Terminal"@, "iTerm"@, "Ghostty"@, "Warp"@, "kitty"@, "Hyper"@]
}

/// The bundle identifiers of the known terminals, in the same order.
pub open spec fn terminal_bundles() -> Seq<Seq<char>> {
    seq![
        "com.apple.terminal"@,
        "com.googlecode.iterm2"@,
        "com.mitchellh.ghostty"@,
        "dev.warp.Warp-Stable"@,
        "net.kovidgoyal.kitty"@,
        "co.zeit.hyper"@,
    ]
}

/// The bundle identifier that `open -b` is given for the terminal `name`:
/// that of the known terminal with that name, none for any other name.
pub open spec fn bundle_for_name(name: Seq<char>) -> Option<Seq<char>> {
    if name == terminal_names()[0] {
        Some(terminal_bundles()[0])
    } else if name == terminal_names()[1] {
        Some(terminal_bundles()[1])
    } else if name == terminal_names()[2] {
        Some(terminal_bundles()[2])
    } else if name == terminal_names()[3] {
        Some(terminal_bundles()[3])
    } else if name == terminal_names()[4] {
        Some(terminal_bundles()[4])
    } else if name == terminal_names()[5] {
        Some(terminal_bundles()[5])
    } else {
        None
    }
}

/// The name shown for the bundle identifier `bundle`: that of the known
/// terminal with that identifier, the identifier itself for any other.
pub open spec fn pretty_name(bundle: Seq<char>) -> Seq<char> {
    if bundle == terminal_bundles()[0] {
        terminal_names()[0]
    } else if bundle == terminal_bundles()[1] {
        terminal_names()[1]
    } else if bundle == terminal_bundles()[2] {
        terminal_names()[2]
    } else if bundle == terminal_bundles()[3] {
        terminal_names()[3]
    } else if bundle == terminal_bundles()[4] {
        terminal_names()[4]
    } else if bundle == terminal_bundles()[5] {
        terminal_names()[5]
    } else {
        bundle
    }
}

/// The system-wide places of the known terminal number `i`.
pub open spec fn system_app_paths(i: int) -> Seq<Seq<char>> {
    if i == 0 {
        seq!["/System/Applications/Utilities/Terminal.app"@, "/Applications/Utilities/Terminal.app"@]
    } else if i == 1 {
        seq!["/Applications/iTerm.app"@]
    } else if i == 2 {
        seq!["/Applications/Ghostty.app"@]
    } else if i == 3 {
        seq!["/Applications/Warp.app"@]
    } else if i == 4 {
        seq!["/Applications/kitty.app"@]
    } else {
        seq!["/Applications/Hyper.app"@]
    }
}

/// The places of the known terminal number `i`: its system-wide places and,
/// when there is a home directory, `NAME.app` in the home's `Applications`.
pub open spec fn probe_paths(i: int, home: Option<Seq<char>>) -> Seq<Seq<char>> {
    system_app_paths(i) + match home {
        Some(h) => seq![path_join(path_join(h, "Applications"@), terminal_names()[i] + ".app"@)],
        None => Seq::<Seq<char>>::empty(),
    }
}

/// `r` lists the known terminals in order, each with its places for the
/// home directory `home`.
pub open spec fn probes_for_home(r: Seq<TerminalProbe>, home: Option<Seq<char>>) -> bool {
    &&& r.len() == 6
    &&& forall|i: int|
        0 <= i < 6 ==> (#[trigger] r[i]).name@ == terminal_names()[i] && views(r[i].paths@)
            == probe_paths(i, home)
}

/// The known terminals are told apart by name and by bundle identifier.
pub proof fn lemma_terminal_table_distinct()
    ensures
        forall|i: int, j: int|
            0 <= i < 6 && 0 <= j < 6 && i != j ==> terminal_names()[i] != terminal_names()[j]
                && terminal_bundles()[i] != terminal_bundles()[j],
{
    reveal_strlit("Terminal");
    reveal_strlit("iTerm");
    reveal_strlit("Ghostty");
    reveal_strlit("Warp");
    reveal_strlit("kitty");
    reveal_strlit("Hyper");
    reveal_strlit("com.apple.terminal");
    reveal_strlit("com.googlecode.iterm2");
    reveal_strlit("com.mitchellh.ghostty");
    reveal_strlit("dev.warp.Warp-Stable");
    reveal_strlit("net.kovidgoyal.kitty");
    reveal_strlit("co.zeit.hyper");
    let n = terminal_names();
    let b = terminal_bundles();
    assert(n[0][0] == 'T' && n[1][0] == 'i' && n[2][0] == 'G' && n[3][0] == 'W' && n[4][0]
        == 'k' && n[5][0] == 'H');
    assert(b[0][3] == '.' && b[1][3] == '.' && b[2][3] == '.' && b[3][3] == '.' && b[4][3]
        == '.' && b[5][2] == '.');
    assert(b[0][4] == 'a' && b[1][4] == 'g' && b[2][4] == 'm' && b[3][4] == 'w' && b[4][4]
        == 'k');
    assert(b[5][3] == 'z');
    assert forall|i: int, j: int|
        0 <= i < 6 && 0 <= j < 6 && i != j implies n[i] != n[j] && b[i] != b[j] by {
        assert(n[i][0] != n[j][0]);
        if i != 5 && j != 5 {
            assert(b[i][4] != b[j][4]);
        } else {
            assert(b[i][3] != b[j][3]);
        }
    }
}

/// Every known terminal has a bundle identifier, and the name shown for that
/// identifier is the terminal's name; the other way round, every known
/// identifier is the bundle of the name shown for it.
pub proof fn lemma_bundle_names_round_trip()
    ensures
        forall|i: int|
            0 <= i < 6 ==> #[trigger] bundle_for_name(terminal_names()[i]) == Some(
                terminal_bundles()[i],
            ),
        forall|i: int|
            0 <= i < 6 ==> #[trigger] pretty_name(terminal_bundles()[i]) == terminal_names()[i],
        forall|name: Seq<char>|
            #[trigger] bundle_for_name(name) is Some ==> pretty_name(bundle_for_name(name)->0)
                == name,
{
    lemma_terminal_table_distinct();
}

/// The bundle identifier that a launch in the terminal `name` hands the
/// script to: on macOS that of the known terminal with that name, none for
/// another name; on any other system none at all.
pub open spec fn launch_bundle(name: Seq<char>, is_macos: bool) -> Option<Seq<char>> {
    if is_macos {
        bundle_for_name(name)
    } else {
        None
    }
}

/// The bundle identifier that `open -b` is given for the terminal `name`:
/// on macOS (`is_macos`) that of a known terminal name, none for another
/// name; on any other system none.
pub fn name_to_bundle(name: &str, is_macos: bool) -> (r: Option<&'static str>)
    ensures
        match r {
            Some(b) => launch_bundle(name@, is_macos) == Some(b@),
            None => launch_bundle(name@, is_macos) is None,
        },
{
    if !is_macos {
        None
    } else if str_eq(name, "Terminal") {
        Some("com.apple.terminal")
    } else if str_eq(name, "iTerm") {
        Some("com.googlecode.iterm2")
    } else if str_eq(name, "Ghostty") {
        Some("com.mitchellh.ghostty")
    } else if str_eq(name, "Warp") {
        Some("dev.warp.Warp-Stable")
    } else if str_eq(name, "kitty") {
        Some("net.kovidgoyal.kitty")
    } else if str_eq(name, "Hyper") {
        Some("co.zeit.hyper")
    } else {
        None
    }
}

/// The name shown for a bundle identifier: the known terminal's name, or
/// the identifier itself.
pub fn bundle_to_pretty_name(bundle_id: &str) -> (r: String)
    ensures
        r@ == pretty_name(bundle_id@),
{
    let name: &str = if str_eq(bundle_id, "com.apple.terminal") {
        "Terminal"
    } else if str_eq(bundle_id, "com.googlecode.iterm2") {
        "iTerm"
    } else if str_eq(bundle_id, "com.mitchellh.ghostty") {
        "Ghostty"
    } else if str_eq(bundle_id, "dev.warp.Warp-Stable") {
        "Warp"
    } else if str_eq(bundle_id, "net.kovidgoyal.kitty") {
        "kitty"
    } else if str_eq(bundle_id, "co.zeit.hyper") {
        "Hyper"
    } else {
        bundle_id
    };
    String::from_str(name)
}

/// The probe of one known terminal.
fn probe_for(i: usize, name: &str, system: Vec<&str>, home: Option<&str>) -> (p: TerminalProbe)
    requires
        i < 6,
        name@ == terminal_names()[i as int],
        system@.map_values(|s: &str| s@) == system_app_paths(i as int),
    ensures
        p.name@ == terminal_names()[i as int],
        views(p.paths@) == probe_paths(i as int, match home { Some(h) => Some(h@), None => None }),
{
    let mut paths: Vec<String> = Vec::new();
    let mut k: usize = 0;
    while k < system.len()
        invariant
            k <= system.len(),
            views(paths@) == system@.map_values(|s: &str| s@).take(k as int),
        decreases system.len() - k,
    {
        let ghost before = paths@;
        paths.push(String::from_str(system[k]));
        proof {
            assert(views(paths@) == views(before).push(system@[k as int]@));
            assert(system@.map_values(|s: &str| s@).take(k + 1) == system@.map_values(
                |s: &str| s@,
            ).take(k as int).push(system@[k as int]@));
        }
        k = k + 1;
    }
    assert(system@.map_values(|s: &str| s@).take(system.len() as int) == system@.map_values(
        |s: &str| s@,
    ));
    match home {
        Some(h) => {
            let apps = join_path(h, "Applications");
            let mut file = String::from_str(name);
            file.append(".app");
            let ghost before = paths@;
            paths.push(join_path(apps.as_str(), file.as_str()));
            assert(views(paths@) == views(before).push(
                path_join(path_join(h@, "Applications"@), terminal_names()[i as int] + ".app"@),
            ));
        },
        None => {
            assert(views(paths@) == views(paths@) + Seq::<Seq<char>>::empty());
        },
    }
    TerminalProbe { name: String::from_str(name), paths }
}

/// The known terminals, each with the places that show it installed, given
/// the home directory `home`.
pub fn known_terminal_probes_in(home: Option<&str>) -> (r: Vec<TerminalProbe>)
    ensures
        probes_for_home(r@, match home { Some(h) => Some(h@), None => None }),
{
    let mut r: Vec<TerminalProbe> = Vec::new();
    let v0 = vec!["/System/Applications/Utilities/Terminal.app", "/Applications/Utilities/Terminal.app"];
    assert(v0@.map_values(|s: &str| s@) == system_app_paths(0));
    r.push(probe_for(0, "Terminal", v0, home));
    let v1 = vec!["/Applications/iTerm.app"];
    assert(v1@.map_values(|s: &str| s@) == system_app_paths(1));
    r.push(probe_for(1, "iTerm", v1, home));
    let v2 = vec!["/Applications/Ghostty.app"];
    assert(v2@.map_values(|s: &str| s@) == system_app_paths(2));
    r.push(probe_for(2, "Ghostty", v2, home));
    let v3 = vec!["/Applications/Warp.app"];
    assert(v3@.map_values(|s: &str| s@) == system_app_paths(3));
    r.push(probe_for(3, "Warp", v3, home));
    let v4 = vec!["/Applications/kitty.app"];
    assert(v4@.map_values(|s: &str| s@) == system_app_paths(4));
    r.push(probe_for(4, "kitty", v4, home));
    let v5 = vec!["/Applications/Hyper.app"];
    assert(v5@.map_values(|s: &str| s@) == system_app_paths(5));
    r.push(probe_for(5, "Hyper", v5, home));
    r
}

/// The known terminals, each with the places that show it installed; the
/// places in the home directory are those of the home that the environment
/// gives, if any.
pub fn known_terminal_probes() -> (r: Vec<TerminalProbe>)
    ensures
        exists|h: Option<Seq<char>>| crate::paths::usable_home(h) && #[trigger] probes_for_home(r@, h),
{
    let home = home_dir();
    let r = match &home {
        Some(h) => known_terminal_probes_in(Some(h.as_str())),
        None => known_terminal_probes_in(None),
    };
    assert(probes_for_home(r@, opt_view(home)));
    r
}

/// A terminal is installed when any of its places exists; `found[k]` tells
/// whether place `k` of the probe exists.
pub fn terminal_info(probe: &TerminalProbe, found: &Vec<bool>) -> (r: TerminalInfo)
    ensures
        r.name@ == probe.name@,
        r.installed == found@.contains(true),
{
    let mut installed = false;
    let mut k: usize = 0;
    while k < found.len()
        invariant
            k <= found.len(),
            installed == found@.take(k as int).contains(true),
        decreases found.len() - k,
    {
        let ghost t0 = found@.take(k as int);
        let ghost t1 = found@.take(k + 1);
        installed = installed || found[k];
        proof {
            assert(t1 == t0.push(found@[k as int]));
            assert(t1[k as int] == found@[k as int]);
            if t0.contains(true) {
                let j = choose|j: int| 0 <= j < t0.len() && t0[j] == true;
                assert(t1[j] == true);
            }
            if t1.contains(true) && !found@[k as int] {
                let j = choose|j: int| 0 <= j < t1.len() && t1[j] == true;
                assert(t0[j] == true);
            }
        }
        k = k + 1;
    }
    assert(found@.take(found.len() as int) == found@);
    TerminalInfo { name: probe.name.clone(), installed }
}


// ---------------------------------------------------------------------------
// Which terminal opens shell scripts
// ---------------------------------------------------------------------------

/// `s` without the copies of `c` at its start.
pub open spec fn trim_start_char(s: Seq<char>, c: char) -> Seq<char>
    decreases s.len(),
{
    if s.len() > 0 && s[0] == c {
        trim_start_char(s.drop_first(), c)
    } else {
        s
    }
}

/// `s` without the copies of `c` at its end (`str::trim_end_matches`).
pub open spec fn trim_end_char(s: Seq<char>, c: char) -> Seq<char>
    decreases s.len(),
{
    if s.len() > 0 && s.last() == c {
        trim_end_char(s.drop_last(), c)
    } else {
        s
    }
}

/// `s` without the copies of `c` at either end (`str::trim_matches`).
pub open spec fn trim_char(s: Seq<char>, c: char) -> Seq<char> {
    trim_end_char(trim_start_char(s, c), c)
}

/// What starts the line that names the handler of a content type.
pub open spec fn role_prefix() -> Seq<char> {
    "LSHandlerRoleAll = "@
}

/// The content type of shell scripts.
pub open spec fn shell_script_marker() -> Seq<char> {
    "com.apple.terminal.shell-script"@
}

/// The handler that one line of the LaunchServices dump names: after
/// trimming, the line starts with `LSHandlerRoleAll = `; the rest, without
/// trailing `;`s, trimmed, and without surrounding `"`s, is neither empty
/// nor `-`.
pub open spec fn role_value(line: Seq<char>) -> Option<Seq<char>> {
    let t = trim(line);
    if starts_with(t, role_prefix()) {
        let v = trim_char(trim(trim_end_char(t.skip(role_prefix().len() as int), ';')), '"');
        if v.len() > 0 && v != "-"@ {
            Some(v)
        } else {
            None
        }
    } else {
        None
    }
}

/// The handler named by the first of `lines` that names one.
pub open spec fn first_role(lines: Seq<Seq<char>>) -> Option<Seq<char>>
    decreases lines.len(),
{
    if lines.len() == 0 {
        None
    } else if role_value(lines[0]) is Some {
        role_value(lines[0])
    } else {
        first_role(lines.drop_first())
    }
}

/// The handler named in the first of `chunks` that mentions the shell-script
/// content type and names a handler in one of its lines.
pub open spec fn handler_in_chunks(chunks: Seq<Seq<char>>) -> Option<Seq<char>>
    decreases chunks.len(),
{
    if chunks.len() == 0 {
        None
    } else if contains(chunks[0], shell_script_marker()) && first_role(
        split_on(chunks[0], '\n'),
    ) is Some {
        first_role(split_on(chunks[0], '\n'))
    } else {
        handler_in_chunks(chunks.drop_first())
    }
}

/// The bundle identifier of the application that handles shell scripts,
/// read from the text of `defaults read ... LSHandlers`: the text is cut
/// into dictionaries at each `}` and each dictionary into lines at each
/// newline (a carriage return before a newline, which `str::lines` also
/// drops, is whitespace and goes with the trimming of the line).
pub open spec fn shell_script_handler(text: Seq<char>) -> Option<Seq<char>> {
    handler_in_chunks(split_on(text, '}'))
}

/// The terminal named by the output of `defaults read ... LSHandlers`: the
/// name of the shell-script handler when the output is UTF-8 text that names
/// one, `Terminal` when there is no output, it is not UTF-8, or it names
/// none.
pub open spec fn detected_terminal(output: Option<Seq<u8>>) -> Seq<char> {
    match output {
        Some(bytes) => if vstd::utf8::valid_utf8(bytes) {
            match shell_script_handler(vstd::utf8::decode_utf8(bytes)) {
                Some(b) => pretty_name(b),
                None => "Terminal"@,
            }
        } else {
            "Terminal"@
        },
        None => "Terminal"@,
    }
}

/// A handler read from the lines is neither empty nor `-`.
proof fn lemma_first_role_named(lines: Seq<Seq<char>>)
    ensures
        first_role(lines) matches Some(v) ==> v.len() > 0 && v != "-"@,
    decreases lines.len(),
{
    if lines.len() > 0 && role_value(lines[0]) is None {
        lemma_first_role_named(lines.drop_first());
    }
}

/// The shell-script handler read from a LaunchServices dump is never empty
/// and never the placeholder `-`.
pub proof fn lemma_handler_is_named(chunks: Seq<Seq<char>>)
    ensures
        handler_in_chunks(chunks) matches Some(v) ==> v.len() > 0 && v != "-"@,
    decreases chunks.len(),
{
    if chunks.len() > 0 {
        lemma_first_role_named(split_on(chunks[0], '\n'));
        lemma_handler_is_named(chunks.drop_first());
    }
}

/// Dropping copies of `c` at the start does not change `trim_start_char`.
proof fn lemma_trim_start_char_skip(s: Seq<char>, c: char, i: int)
    requires
        0 <= i <= s.len(),
        forall|k: int| 0 <= k < i ==> #[trigger] s[k] == c,
    ensures
        trim_start_char(s, c) == trim_start_char(s.skip(i), c),
    decreases i,
{
    if i > 0 {
        assert(s[0] == c);
        lemma_trim_start_char_skip(s.drop_first(), c, i - 1);
        assert(s.drop_first().skip(i - 1) == s.skip(i));
    } else {
        assert(s.skip(0) == s);
    }
}

/// Dropping copies of `c` at the end does not change `trim_end_char`.
proof fn lemma_trim_end_char_take(s: Seq<char>, c: char, j: int)
    requires
        0 <= j <= s.len(),
        forall|k: int| j <= k < s.len() ==> #[trigger] s[k] == c,
    ensures
        trim_end_char(s, c) == trim_end_char(s.take(j), c),
    decreases s.len() - j,
{
    if j < s.len() {
        assert(s.last() == c);
        lemma_trim_end_char_take(s.drop_last(), c, j);
        assert(s.drop_last().take(j) == s.take(j));
    } else {
        assert(s.take(j) == s);
    }
}

/// `v` without the copies of `c` at its end.
pub fn trim_end_char_chars(v: &Vec<char>, c: char) -> (r: Vec<char>)
    ensures
        r@ == trim_end_char(v@, c),
{
    let mut j: usize = v.len();
    while j > 0 && v[j - 1] == c
        invariant
            j <= v.len(),
            forall|k: int| j <= k < v.len() ==> #[trigger] v@[k] == c,
        decreases j,
    {
        j = j - 1;
    }
    proof {
        lemma_trim_end_char_take(v@, c, j as int);
        let t = v@.take(j as int);
        if j > 0 {
            assert(t.last() == v@[j - 1]);
        }
        assert(trim_end_char(t, c) == t);
        assert(t == v@.subrange(0, j as int));
    }
    sub_chars(v, 0, j)
}

/// `v` without the copies of `c` at either end.
pub fn trim_char_chars(v: &Vec<char>, c: char) -> (r: Vec<char>)
    ensures
        r@ == trim_char(v@, c),
{
    let mut i: usize = 0;
    while i < v.len() && v[i] == c
        invariant
            i <= v.len(),
            forall|k: int| 0 <= k < i ==> #[trigger] v@[k] == c,
        decreases v.len() - i,
    {
        i = i + 1;
    }
    proof {
        lemma_trim_start_char_skip(v@, c, i as int);
        let t = v@.skip(i as int);
        if i < v.len() {
            assert(t[0] == v@[i as int]);
        }
        assert(trim_start_char(t, c) == t);
        assert(t == v@.subrange(i as int, v.len() as int));
    }
    let rest = sub_chars(v, i, v.len());
    trim_end_char_chars(&rest, c)
}

/// The handler that one line of the LaunchServices dump names, if any.
pub fn line_role_value(line: &Vec<char>) -> (r: Option<Vec<char>>)
    ensures
        match r {
            Some(v) => role_value(line@) == Some(v@),
            None => role_value(line@) is None,
        },
{
    let t = trim_chars(line);
    let prefix = chars_of("LSHandlerRoleAll = ");
    if !chars_starts_with(&t, &prefix) {
        return None;
    }
    let rest = sub_chars(&t, prefix.len(), t.len());
    assert(rest@ == t@.skip(role_prefix().len() as int));
    let no_semicolons = trim_end_char_chars(&rest, ';');
    let trimmed = trim_chars(&no_semicolons);
    let v = trim_char_chars(&trimmed, '"');
    let dash = chars_of("-");
    if v.len() > 0 && !crate::text::chars_eq(&v, &dash) {
        Some(v)
    } else {
        None
    }
}

/// Reads the bundle identifier of the shell-script handler out of the text
/// of `defaults read com.apple.LaunchServices/com.apple.launchservices.secure
/// LSHandlers`.
pub fn parse_shell_script_handler(text: &str) -> (r: Option<String>)
    ensures
        match r {
            Some(s) => shell_script_handler(text@) == Some(s@),
            None => shell_script_handler(text@) is None,
        },
        r matches Some(s) ==> s@.len() > 0 && s@ != "-"@,
{
    proof {
        lemma_handler_is_named(split_on(text@, '}'));
    }
    let chunks = split_chars(&chars_of(text), '}');
    let ghost cv = chunks@.map_values(|p: Vec<char>| p@);
    let marker = chars_of("com.apple.terminal.shell-script");
    let mut i: usize = 0;
    assert(cv.skip(0) == cv);
    while i < chunks.len()
        invariant
            i <= chunks.len(),
            cv == chunks@.map_values(|p: Vec<char>| p@),
            cv == split_on(text@, '}'),
            marker@ == shell_script_marker(),
            shell_script_handler(text@) == handler_in_chunks(cv.skip(i as int)),
        decreases chunks.len() - i,
    {
        let ghost rest_chunks = cv.skip(i as int);
        assert(rest_chunks[0] == chunks@[i as int]@);
        assert(rest_chunks.drop_first() == cv.skip(i + 1));
        if chars_contains(&chunks[i], &marker) {
            let lines = split_chars(&chunks[i], '\n');
            let ghost lv = lines@.map_values(|p: Vec<char>| p@);
            let mut k: usize = 0;
            assert(lv.skip(0) == lv);
            while k < lines.len()
                invariant
                    k <= lines.len(),
                    i < chunks.len(),
                    lv == lines@.map_values(|p: Vec<char>| p@),
                    lv == split_on(chunks@[i as int]@, '\n'),
                    contains(chunks@[i as int]@, shell_script_marker()),
                    rest_chunks == cv.skip(i as int),
                    rest_chunks.len() > 0,
                    rest_chunks[0] == chunks@[i as int]@,
                    shell_script_handler(text@) == handler_in_chunks(rest_chunks),
                    first_role(lv) == first_role(lv.skip(k as int)),
                decreases lines.len() - k,
            {
                assert(lv.skip(k as int)[0] == lines@[k as int]@);
                assert(lv.skip(k as int).drop_first() == lv.skip(k + 1));
                match line_role_value(&lines[k]) {
                    Some(v) => {
                        assert(first_role(lv.skip(k as int)) == Some(v@));
                        assert(first_role(split_on(rest_chunks[0], '\n')) == Some(v@));
                        assert(rest_chunks.len() > 0);
                        assert(contains(rest_chunks[0], shell_script_marker()));
                        assert(handler_in_chunks(rest_chunks) == Some(v@));
                        return Some(string_of(&v));
                    },
                    None => {},
                }
                k = k + 1;
            }
            assert(lv.skip(lines.len() as int).len() == 0);
            assert(first_role(lv) is None);
        }
        i = i + 1;
    }
    assert(cv.skip(chunks.len() as int).len() == 0);
    None
}

/// Decodes UTF-8 bytes into a string (`String::from_utf8`): some string
/// exactly when the bytes are valid UTF-8, holding the characters they
/// encode.
#[verifier::external_body]
fn utf8_string(bytes: Vec<u8>) -> (r: Option<String>)
    ensures
        r is Some <==> vstd::utf8::valid_utf8(bytes@),
        r is Some ==> r->0@ == vstd::utf8::decode_utf8(bytes@),
{
    String::from_utf8(bytes).ok()
}

/// The terminal that macOS opens shell scripts with, read from the output
/// of `defaults read com.apple.LaunchServices/com.apple.launchservices.secure
/// LSHandlers` (`None` when the command could not run): the name of the
/// shell-script handler, `Terminal` when none can be read.
pub fn default_terminal_from_handlers(output: Option<Vec<u8>>) -> (r: String)
    ensures
        r@ == detected_terminal(match output { Some(b) => Some(b@), None => None }),
{
    match output {
        Some(bytes) => {
            let ghost b = bytes@;
            match utf8_string(bytes) {
                Some(text) => match parse_shell_script_handler(text.as_str()) {
                    Some(bundle_id) => bundle_to_pretty_name(bundle_id.as_str()),
                    None => String::from_str("Terminal"),
                },
                None => String::from_str("Terminal"),
            }
        },
        None => String::from_str("Terminal"),
    }
}

/// The terminal that opens when none is chosen. On macOS (`is_macos`) it is
/// read from `handlers_output`, the output of `defaults read
/// com.apple.LaunchServices/com.apple.launchservices.secure LSHandlers`
/// (`None` when the command could not run): the name of the shell-script
/// handler, `Terminal` when none can be read. On any other system it is
/// `system terminal`, and the output is not looked at.
pub fn detect_default_terminal(is_macos: bool, handlers_output: Option<Vec<u8>>) -> (r: String)
    ensures
        is_macos ==> r@ == detected_terminal(
            match handlers_output {
                Some(b) => Some(b@),
                None => None,
            },
        ),
        !is_macos ==> r@ == "system terminal"@,
{
    if is_macos {
        default_terminal_from_handlers(handlers_output)
    } else {
        String::from_str("system terminal")
    }
}

/// With a home directory `home`, every known terminal is also looked for as
/// `NAME.app` in the home's `Applications` directory (for the home
/// `/Users/alice`, iTerm also at `/Users/alice/Applications/iTerm.app`), after
/// its system-wide places; with no home directory only those are looked at.
pub proof fn lemma_home_applications_probed(r: Seq<TerminalProbe>, home: Seq<char>)
    requires
        probes_for_home(r, Some(home)),
    ensures
        forall|i: int|
            0 <= i < 6 ==> views((#[trigger] r[i]).paths@).contains(
                path_join(path_join(home, "Applications"@), r[i].name@ + ".app"@),
            ) && views(r[i].paths@).take(system_app_paths(i).len() as int) == system_app_paths(i),
{
    assert forall|i: int|
        0 <= i < 6 implies views((#[trigger] r[i]).paths@).contains(
            path_join(path_join(home, "Applications"@), r[i].name@ + ".app"@),
        ) && views(r[i].paths@).take(system_app_paths(i).len() as int) == system_app_paths(i) by {
        let ps = views(r[i].paths@);
        let n = system_app_paths(i).len() as int;
        assert(ps[n] == path_join(path_join(home, "Applications"@), r[i].name@ + ".app"@));
        assert(ps.take(n) =~= system_app_paths(i));
    }
}

} // verus!
