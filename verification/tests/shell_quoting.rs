use ssh_bookmarker::shell::{shell_quote, single_quote};

#[test]
fn plain_text_is_left_bare() {
    assert_eq!(shell_quote("/Users/me/.ssh/id_ed25519"), "/Users/me/.ssh/id_ed25519");
    assert_eq!(shell_quote("user@host:22-a_b.c"), "user@host:22-a_b.c");
}

#[test]
fn other_text_is_single_quoted() {
    assert_eq!(shell_quote("/Users/me/My Keys/id"), "'/Users/me/My Keys/id'");
    assert_eq!(shell_quote("$HOME"), "'$HOME'");
    assert_eq!(shell_quote("caf\u{e9}"), "'caf\u{e9}'");
}

#[test]
fn embedded_quotes_are_escaped() {
    assert_eq!(shell_quote("it's"), "'it'\\''s'");
    assert_eq!(single_quote("a'b'c"), "'a'\\''b'\\''c'");
    assert_eq!(single_quote(""), "''");
    assert_eq!(single_quote("x && y"), "'x && y'");
}
