//! Paths as text: joining a path onto a directory the way a Unix
//! `PathBuf::join` does, the environment's home and data directories, and
//! `~/` expansion.
use vstd::prelude::*;
use crate::text::{chars_of, push_chars, starts_with, string_of, sub_chars};

verus! {

/// `rel` joined onto `base` as a Unix `PathBuf::join` does it: an absolute
/// `rel` replaces `base`; otherwise a `/` goes between them unless `base` is
/// empty or already ends with one.
pub open spec fn path_join(base: Seq<char>, rel: Seq<char>) -> Seq<char> {
    if rel.len() > 0 && rel[0] == '/' {
        rel
    } else if base.len() > 0 && base.last() != '/' {
        base + seq!['/'] + rel
    } else {
        base + rel
    }
}

/// The text of an optional string.
pub open spec fn opt_view(o: Option<String>) -> Option<Seq<char>> {
    match o {
        Some(s) => Some(s@),
        None => None,
    }
}

/// `path` with a leading `~/` replaced by the home directory `home`, when
/// there is one; `path` unchanged otherwise.
pub open spec fn expand_tilde_text(path: Seq<char>, home: Option<Seq<char>>) -> Seq<char> {
    if starts_with(path, seq!['~', '/']) && home is Some {
        path_join(home->0, path.skip(2))
    } else {
        path
    }
}

/// A home directory as the environment can give it: none, or one whose name
/// is not empty.
pub open spec fn usable_home(h: Option<Seq<char>>) -> bool {
    h matches Some(x) ==> x.len() > 0
}

/// The user's home directory (`dirs::home_dir`), as text. Which directory it
/// is depends on the environment, so all that is stated is that a directory
/// it finds has a name that is not empty: on Unix and macOS `dirs-sys`
/// gives none for an empty `HOME` and for an empty password-entry
/// directory, and the lossy conversion keeps a non-empty name non-empty.
/// (On Redox, where this application does not run, `dirs-sys` takes the
/// user entry's directory as it is.) A directory whose name is not UTF-8 is
/// converted lossily (`to_string_lossy`), each invalid sequence becoming
/// U+FFFD, so paths built on it then differ from the directory.
#[verifier::external_body]
pub(crate) fn home_dir() -> (r: Option<String>)
    ensures
        r matches Some(h) ==> h@.len() > 0,
{
    dirs::home_dir().map(|p| p.to_string_lossy().into_owned())
}

/// The user's data directory (`dirs::data_dir`), as text. It depends on the
/// environment, so nothing is stated of it. A directory whose name is not
/// UTF-8 is converted lossily (`to_string_lossy`), each invalid sequence
/// becoming U+FFFD, so paths built on it then differ from the directory.
#[verifier::external_body]
pub(crate) fn data_dir() -> (r: Option<String>) {
    dirs::data_dir().map(|p| p.to_string_lossy().into_owned())
}

/// `rel` joined onto `base` as a Unix `PathBuf::join` does it.
pub fn join_path(base: &str, rel: &str) -> (r: String)
    ensures
        r@ == path_join(base@, rel@),
{
    let b = chars_of(base);
    let v = chars_of(rel);
    if v.len() > 0 && v[0] == '/' {
        return string_of(&v);
    }
    let mut r = string_of(&b);
    if b.len() > 0 && b[b.len() - 1] != '/' {
        crate::text::push_char(&mut r, '/');
    }
    push_chars(&mut r, &v);
    r
}

/// `path` with a leading `~/` replaced by the home directory `home`, when
/// there is one.
pub fn expand_tilde_in(path: &str, home: Option<&str>) -> (r: String)
    ensures
        r@ == expand_tilde_text(path@, match home { Some(h) => Some(h@), None => None }),
{
    let v = chars_of(path);
    let tilde = chars_of("~/");
    proof {
        reveal_strlit("~/");
        assert("~/"@ == seq!['~', '/']);
    }
    if crate::text::chars_starts_with(&v, &tilde) {
        match home {
            Some(h) => {
                let rest = string_of(&sub_chars(&v, 2, v.len()));
                return join_path(h, rest.as_str());
            },
            None => {},
        }
    }
    string_of(&v)
}

/// `path` with a leading `~/` replaced by the user's home directory, when the
/// environment gives one (`expand_tilde`).
pub fn expand_tilde(path: &str) -> (r: String)
    ensures
        exists|h: Option<Seq<char>>| usable_home(h) && r@ == expand_tilde_text(path@, h),
        !starts_with(path@, seq!['~', '/']) ==> r@ == path@,
{
    let home = home_dir();
    let r = match &home {
        Some(h) => expand_tilde_in(path, Some(h.as_str())),
        None => expand_tilde_in(path, None),
    };
    assert(usable_home(opt_view(home)) && r@ == expand_tilde_text(path@, opt_view(home)));
    r
}

/// Expanding a non-empty path against a usable home gives a non-empty path.
pub proof fn lemma_expanded_nonempty(path: Seq<char>, home: Option<Seq<char>>)
    requires
        path.len() > 0,
        usable_home(home),
    ensures
        expand_tilde_text(path, home).len() > 0,
{
}

} // verus!
