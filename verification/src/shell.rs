//! Quoting text for a POSIX shell, and the reading of a shell word that the
//! quoting is proved against.
use vstd::prelude::*;
use crate::text::{
    chars_of, char_is_ascii_alphanumeric, is_ascii_alphanumeric, string_of,
};

verus! {

/// Characters that a POSIX shell takes literally outside quotes, anywhere in
/// a word, and that `shell_quote` leaves bare.
pub open spec fn is_shell_plain(c: char) -> bool {
    is_ascii_alphanumeric(c) || c == '_' || c == '-' || c == '/' || c == '.' || c == ':' || c
        == '@'
}

/// Every character of `s` is shell-plain.
pub open spec fn all_shell_plain(s: Seq<char>) -> bool {
    forall|i: int| 0 <= i < s.len() ==> is_shell_plain(#[trigger] s[i])
}

/// What one character becomes inside single quotes: a quote closes the
/// quoting, is written escaped, and the quoting opens again (`'\''`).
pub open spec fn escape_char(c: char) -> Seq<char> {
    if c == '\'' {
        seq!['\'', '\\', '\'', '\'']
    } else {
        seq![c]
    }
}

/// `s` with every single quote replaced by `'\''`.
pub open spec fn escape_quotes(s: Seq<char>) -> Seq<char>
    decreases s.len(),
{
    if s.len() == 0 {
        Seq::<char>::empty()
    } else {
        escape_quotes(s.drop_last()) + escape_char(s.last())
    }
}

/// `s` between single quotes, with its own single quotes escaped.
pub open spec fn single_quoted(s: Seq<char>) -> Seq<char> {
    seq!['\''] + escape_quotes(s) + seq!['\'']
}

/// What `shell_quote` gives: `s` itself when every character is
/// shell-plain, else `s` single-quoted.
pub open spec fn shell_quoted(s: Seq<char>) -> Seq<char> {
    if all_shell_plain(s) {
        s
    } else {
        single_quoted(s)
    }
}

/// `p` in front of the text in `o`.
pub open spec fn prepend_all(p: Seq<char>, o: Option<Seq<char>>) -> Option<Seq<char>> {
    match o {
        Some(v) => Some(p + v),
        None => None,
    }
}

/// The text that a POSIX shell reads from `w` as the rest of one word, with
/// `quoted` telling whether a single quote is open. Words are made of
/// shell-plain characters, single-quoted stretches and backslash escapes;
/// anything else (blanks, operators, expansions, an unclosed quote) gives
/// `None`.
pub open spec fn shell_word(w: Seq<char>, quoted: bool) -> Option<Seq<char>>
    decreases w.len(),
{
    if w.len() == 0 {
        if quoted {
            None
        } else {
            Some(Seq::<char>::empty())
        }
    } else if quoted {
        if w[0] == '\'' {
            shell_word(w.drop_first(), false)
        } else {
            prepend_all(seq![w[0]], shell_word(w.drop_first(), true))
        }
    } else if w[0] == '\'' {
        shell_word(w.drop_first(), true)
    } else if w[0] == '\\' && w.len() >= 2 && w[1] != '\n' {
        prepend_all(seq![w[1]], shell_word(w.skip(2), false))
    } else if is_shell_plain(w[0]) {
        prepend_all(seq![w[0]], shell_word(w.drop_first(), false))
    } else {
        None
    }
}

/// The text a POSIX shell reads from `w` taken as one whole word.
pub open spec fn shell_word_value(w: Seq<char>) -> Option<Seq<char>> {
    shell_word(w, false)
}

/// Escaping distributes over concatenation.
pub proof fn lemma_escape_concat(a: Seq<char>, b: Seq<char>)
    ensures
        escape_quotes(a + b) == escape_quotes(a) + escape_quotes(b),
    decreases b.len(),
{
    if b.len() == 0 {
        assert(a + b == a);
        assert(escape_quotes(a) + escape_quotes(b) == escape_quotes(a));
    } else {
        lemma_escape_concat(a, b.drop_last());
        assert((a + b).drop_last() == a + b.drop_last());
        assert((a + b).last() == b.last());
    }
}

/// Escaping a string that starts with `c`.
proof fn lemma_escape_first(s: Seq<char>)
    requires
        s.len() > 0,
    ensures
        escape_quotes(s) == escape_char(s[0]) + escape_quotes(s.drop_first()),
{
    assert(s == seq![s[0]] + s.drop_first());
    lemma_escape_concat(seq![s[0]], s.drop_first());
    assert(seq![s[0]].drop_last() == Seq::<char>::empty());
    assert(escape_quotes(Seq::<char>::empty()) == Seq::<char>::empty());
    assert(escape_quotes(seq![s[0]]) == escape_quotes(Seq::<char>::empty()) + escape_char(s[0]));
    assert(Seq::<char>::empty() + escape_char(s[0]) == escape_char(s[0]));
}

/// Shell-plain characters are read as themselves.
pub proof fn lemma_plain_word(s: Seq<char>)
    requires
        all_shell_plain(s),
    ensures
        shell_word(s, false) == Some(s),
    decreases s.len(),
{
    if s.len() > 0 {
        assert(is_shell_plain(s[0]));
        assert(all_shell_plain(s.drop_first())) by {
            assert forall|i: int| 0 <= i < s.drop_first().len() implies is_shell_plain(
                #[trigger] s.drop_first()[i],
            ) by {
                assert(s.drop_first()[i] == s[i + 1]);
            }
        }
        lemma_plain_word(s.drop_first());
        assert(seq![s[0]] + s.drop_first() == s);
    }
}

/// Inside single quotes, the escaped text of `s` followed by a closing
/// quote reads as `s`, and the reading goes on unquoted with `t`.
proof fn lemma_quoted_body(s: Seq<char>, t: Seq<char>)
    ensures
        shell_word(escape_quotes(s) + seq!['\''] + t, true) == prepend_all(
            s,
            shell_word(t, false),
        ),
    decreases s.len(),
{
    let w = escape_quotes(s) + seq!['\''] + t;
    let o = shell_word(t, false);
    if s.len() == 0 {
        assert(escape_quotes(s) == Seq::<char>::empty());
        assert(w == seq!['\''] + t);
        assert(w.drop_first() == t);
        assert(shell_word(w, true) == shell_word(w.drop_first(), false));
        match o {
            Some(v) => {
                assert(s + v == v);
            },
            None => {},
        }
    } else {
        let c = s[0];
        let r = s.drop_first();
        let rest = escape_quotes(r) + seq!['\''] + t;
        lemma_escape_first(s);
        lemma_quoted_body(r, t);
        assert(w == escape_char(c) + rest);
        assert(shell_word(rest, true) == prepend_all(r, o));
        if c == '\'' {
            assert(w[0] == '\'');
            let w1 = w.drop_first();
            assert(w1 == seq!['\\', '\'', '\''] + rest);
            assert(shell_word(w, true) == shell_word(w1, false));
            assert(w1[0] == '\\' && w1[1] == '\'');
            let w2 = w1.skip(2);
            assert(w2 == seq!['\''] + rest);
            assert(shell_word(w1, false) == prepend_all(seq![w1[1]], shell_word(w2, false)));
            assert(w2.drop_first() == rest);
            assert(shell_word(w2, false) == shell_word(rest, true));
        } else {
            assert(w[0] == c);
            assert(w.drop_first() == rest);
            assert(shell_word(w, true) == prepend_all(seq![c], shell_word(rest, true)));
        }
        match o {
            Some(v) => {
                assert(seq![c] + (r + v) == s + v);
            },
            None => {},
        }
    }
}

/// A single-quoted string reads back, as one shell word, as exactly the
/// string, whatever characters it holds.
pub proof fn lemma_single_quoted_reads_back(s: Seq<char>)
    ensures
        shell_word_value(single_quoted(s)) == Some(s),
{
    let w = single_quoted(s);
    lemma_quoted_body(s, Seq::<char>::empty());
    assert(w.drop_first() == escape_quotes(s) + seq!['\''] + Seq::<char>::empty());
    assert(s + Seq::<char>::empty() == s);
}

/// Whatever non-empty string `shell_quote` is given, a POSIX shell reads
/// its result back as that string, as one word.
pub proof fn lemma_shell_quote_reads_back(s: Seq<char>)
    requires
        s.len() > 0,
    ensures
        shell_word_value(shell_quoted(s)) == Some(s),
{
    if all_shell_plain(s) {
        lemma_plain_word(s);
    } else {
        lemma_single_quoted_reads_back(s);
    }
}

/// One field in front of the fields that follow.
pub open spec fn prepend_field(cur: Seq<char>, o: Option<Seq<Seq<char>>>) -> Option<
    Seq<Seq<char>>,
> {
    match o {
        Some(fs) => Some(seq![cur] + fs),
        None => None,
    }
}

/// The fields that a POSIX shell reads from the rest `w` of a command line
/// whose fields are separated by spaces, with `quoted` telling whether a
/// single quote is open, `cur` the text of the field read so far and
/// `in_word` whether a field has begun. Inside a field the characters are
/// read as by `shell_word`; tabs, newlines and every other character that a
/// shell treats specially outside quotes give `None`.
pub open spec fn shell_fields_from(w: Seq<char>, quoted: bool, cur: Seq<char>, in_word: bool) -> Option<
    Seq<Seq<char>>,
>
    decreases w.len(),
{
    if w.len() == 0 {
        if quoted {
            None
        } else if in_word {
            Some(seq![cur])
        } else {
            Some(Seq::<Seq<char>>::empty())
        }
    } else if quoted {
        if w[0] == '\'' {
            shell_fields_from(w.drop_first(), false, cur, true)
        } else {
            shell_fields_from(w.drop_first(), true, cur.push(w[0]), true)
        }
    } else if w[0] == ' ' {
        if in_word {
            prepend_field(cur, shell_fields_from(w.drop_first(), false, Seq::<char>::empty(), false))
        } else {
            shell_fields_from(w.drop_first(), false, Seq::<char>::empty(), false)
        }
    } else if w[0] == '\'' {
        shell_fields_from(w.drop_first(), true, cur, true)
    } else if w[0] == '\\' && w.len() >= 2 && w[1] != '\n' {
        shell_fields_from(w.skip(2), false, cur.push(w[1]), true)
    } else if is_shell_plain(w[0]) {
        shell_fields_from(w.drop_first(), false, cur.push(w[0]), true)
    } else {
        None
    }
}

/// The fields (arguments) that a POSIX shell splits the command line `line`
/// into.
pub open spec fn shell_fields(line: Seq<char>) -> Option<Seq<Seq<char>>> {
    shell_fields_from(line, false, Seq::<char>::empty(), false)
}

/// The words `ws` are not empty and read, one by one, as `vs`.
pub open spec fn reads_as(ws: Seq<Seq<char>>, vs: Seq<Seq<char>>) -> bool {
    &&& ws.len() == vs.len()
    &&& forall|i: int|
        0 <= i < ws.len() ==> (#[trigger] ws[i]).len() > 0 && shell_word_value(ws[i]) == Some(
            vs[i],
        )
}

/// A word that reads as some text, followed by more of the line, adds that
/// text to the field being read.
proof fn lemma_word_fields(w: Seq<char>, t: Seq<char>, quoted: bool, cur: Seq<char>, in_word: bool)
    requires
        shell_word(w, quoted) is Some,
    ensures
        shell_fields_from(w + t, quoted, cur, in_word) == shell_fields_from(
            t,
            false,
            cur + shell_word(w, quoted)->0,
            in_word || w.len() > 0,
        ),
    decreases w.len(),
{
    let v = shell_word(w, quoted)->0;
    if w.len() == 0 {
        assert(w + t == t);
        assert(cur + v == cur);
    } else {
        let x = w + t;
        assert(x[0] == w[0]);
        assert(x.drop_first() == w.drop_first() + t);
        if quoted {
            if w[0] == '\'' {
                lemma_word_fields(w.drop_first(), t, false, cur, true);
            } else {
                lemma_word_fields(w.drop_first(), t, true, cur.push(w[0]), true);
                let v1 = shell_word(w.drop_first(), true)->0;
                assert(cur.push(w[0]) + v1 =~= cur + (seq![w[0]] + v1));
            }
        } else if w[0] == '\'' {
            lemma_word_fields(w.drop_first(), t, true, cur, true);
        } else if w[0] == '\\' && w.len() >= 2 && w[1] != '\n' {
            assert(x[1] == w[1]);
            assert(x.skip(2) == w.skip(2) + t);
            lemma_word_fields(w.skip(2), t, false, cur.push(w[1]), true);
            let v1 = shell_word(w.skip(2), false)->0;
            assert(cur.push(w[1]) + v1 =~= cur + (seq![w[1]] + v1));
        } else {
            assert(is_shell_plain(w[0]));
            assert(w[0] != ' ');
            lemma_word_fields(w.drop_first(), t, false, cur.push(w[0]), true);
            let v1 = shell_word(w.drop_first(), false)->0;
            assert(cur.push(w[0]) + v1 =~= cur + (seq![w[0]] + v1));
        }
    }
}

/// A join with a separator, taken from the front.
proof fn lemma_join_front(ws: Seq<Seq<char>>, sep: Seq<char>)
    requires
        ws.len() >= 2,
    ensures
        crate::text::join(ws, sep) == ws[0] + sep + crate::text::join(ws.drop_first(), sep),
    decreases ws.len(),
{
    if ws.len() == 2 {
        assert(ws.drop_last() == seq![ws[0]]);
        assert(ws.drop_first() == seq![ws[1]]);
        assert(crate::text::join(seq![ws[0]], sep) == ws[0]);
        assert(crate::text::join(seq![ws[1]], sep) == ws[1]);
    } else {
        let dl = ws.drop_last();
        let df = ws.drop_first();
        lemma_join_front(dl, sep);
        assert(dl.drop_first() == df.drop_last());
        assert(df.last() == ws.last());
        assert(crate::text::join(df, sep) == crate::text::join(df.drop_last(), sep) + sep + df.last());
        assert(crate::text::join(ws, sep) == crate::text::join(dl, sep) + sep + ws.last());
        assert(crate::text::join(ws, sep) =~= ws[0] + sep + crate::text::join(df, sep));
    }
}

/// Words that read as `vs`, joined with single spaces, are split by the
/// shell into exactly the fields `vs`.
pub proof fn lemma_fields_of_words(ws: Seq<Seq<char>>, vs: Seq<Seq<char>>)
    requires
        reads_as(ws, vs),
        ws.len() > 0,
    ensures
        shell_fields(crate::text::join(ws, seq![' '])) == Some(vs),
    decreases ws.len(),
{
    assert(ws[0].len() > 0 && shell_word_value(ws[0]) == Some(vs[0]));
    if ws.len() == 1 {
        lemma_word_fields(ws[0], Seq::<char>::empty(), false, Seq::<char>::empty(), false);
        assert(ws[0] + Seq::<char>::empty() == ws[0]);
        assert(Seq::<char>::empty() + vs[0] == vs[0]);
        assert(seq![vs[0]] == vs);
    } else {
        let rest = crate::text::join(ws.drop_first(), seq![' ']);
        lemma_join_front(ws, seq![' ']);
        assert(ws[0] + seq![' '] + rest == ws[0] + (seq![' '] + rest));
        lemma_word_fields(ws[0], seq![' '] + rest, false, Seq::<char>::empty(), false);
        assert(Seq::<char>::empty() + vs[0] == vs[0]);
        let t = seq![' '] + rest;
        assert(t[0] == ' ');
        assert(t.drop_first() == rest);
        assert(reads_as(ws.drop_first(), vs.drop_first())) by {
            assert forall|i: int| 0 <= i < ws.drop_first().len() implies (#[trigger] ws.drop_first()[
                i
            ]).len() > 0 && shell_word_value(ws.drop_first()[i]) == Some(vs.drop_first()[i]) by {
                assert(ws.drop_first()[i] == ws[i + 1]);
                assert(vs.drop_first()[i] == vs[i + 1]);
            }
        }
        lemma_fields_of_words(ws.drop_first(), vs.drop_first());
        assert(seq![vs[0]] + vs.drop_first() == vs);
    }
}

/// Reading words one by one goes with concatenation.
pub proof fn lemma_reads_as_concat(
    a: Seq<Seq<char>>,
    b: Seq<Seq<char>>,
    c: Seq<Seq<char>>,
    d: Seq<Seq<char>>,
)
    requires
        reads_as(a, b),
        reads_as(c, d),
    ensures
        reads_as(a + c, b + d),
{
    assert forall|i: int| 0 <= i < (a + c).len() implies (#[trigger] (a + c)[i]).len() > 0
        && shell_word_value((a + c)[i]) == Some((b + d)[i]) by {
        if i < a.len() {
            assert((a + c)[i] == a[i]);
            assert((b + d)[i] == b[i]);
        } else {
            assert((a + c)[i] == c[i - a.len()]);
            assert((b + d)[i] == d[i - b.len()]);
        }
    }
}

/// A non-empty word of shell-plain characters reads as itself.
pub proof fn lemma_plain_reads_as(w: Seq<char>)
    requires
        all_shell_plain(w),
        w.len() > 0,
    ensures
        reads_as(seq![w], seq![w]),
{
    lemma_plain_word(w);
}

/// A non-empty string, quoted by `shell_quote`, reads as itself.
pub proof fn lemma_quoted_reads_as(s: Seq<char>)
    requires
        s.len() > 0,
    ensures
        reads_as(seq![shell_quoted(s)], seq![s]),
{
    lemma_shell_quote_reads_back(s);
    if !all_shell_plain(s) {
        assert(single_quoted(s)[0] == '\'');
    }
}

/// A single-quoted string reads as itself.
pub proof fn lemma_single_quoted_reads_as(s: Seq<char>)
    ensures
        reads_as(seq![single_quoted(s)], seq![s]),
{
    lemma_single_quoted_reads_back(s);
    assert(single_quoted(s)[0] == '\'');
}

/// Whether `c` is shell-plain.
pub fn char_is_shell_plain(c: char) -> (r: bool)
    ensures
        r == is_shell_plain(c),
{
    char_is_ascii_alphanumeric(c) || c == '_' || c == '-' || c == '/' || c == '.' || c == ':'
        || c == '@'
}

/// `v` with every single quote replaced by `'\''` (what
/// `s.replace('\'', "'\\''")` gives).
pub fn escape_quote_chars(v: &Vec<char>) -> (r: Vec<char>)
    ensures
        r@ == escape_quotes(v@),
{
    let mut r: Vec<char> = Vec::new();
    let mut i: usize = 0;
    while i < v.len()
        invariant
            i <= v.len(),
            r@ == escape_quotes(v@.take(i as int)),
        decreases v.len() - i,
    {
        let c = v[i];
        if c == '\'' {
            r.push('\'');
            r.push('\\');
            r.push('\'');
            r.push('\'');
        } else {
            r.push(c);
        }
        assert(v@.take(i + 1).drop_last() == v@.take(i as int));
        assert(v@.take(i + 1).last() == c);
        i = i + 1;
    }
    assert(v@.take(v.len() as int) == v@);
    r
}

/// `v` single-quoted for the shell: `'`, `v` with its quotes escaped, `'`.
pub fn single_quote_chars(v: &Vec<char>) -> (r: Vec<char>)
    ensures
        r@ == single_quoted(v@),
{
    let mut r: Vec<char> = Vec::new();
    r.push('\'');
    let mut body = escape_quote_chars(v);
    r.append(&mut body);
    r.push('\'');
    r
}

/// `s` single-quoted for the shell.
pub fn single_quote(s: &str) -> (r: String)
    ensures
        r@ == single_quoted(s@),
{
    string_of(&single_quote_chars(&chars_of(s)))
}

/// Whether every character of `v` is shell-plain.
pub fn chars_all_shell_plain(v: &Vec<char>) -> (r: bool)
    ensures
        r == all_shell_plain(v@),
{
    let mut i: usize = 0;
    while i < v.len()
        invariant
            i <= v.len(),
            forall|k: int| 0 <= k < i ==> is_shell_plain(#[trigger] v@[k]),
        decreases v.len() - i,
    {
        if !char_is_shell_plain(v[i]) {
            return false;
        }
        i = i + 1;
    }
    true
}

/// Quotes `s` for the shell: bare when every character is shell-plain,
/// single-quoted otherwise.
pub fn shell_quote(s: &str) -> (r: String)
    ensures
        r@ == shell_quoted(s@),
{
    let v = chars_of(s);
    if chars_all_shell_plain(&v) {
        string_of(&v)
    } else {
        string_of(&single_quote_chars(&v))
    }
}

} // verus!
