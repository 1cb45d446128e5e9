//! Words on the command line of a POSIX shell.

use vstd::prelude::*;

use crate::text::chars::{self, alnum, cat3, chars_of, push_text};
use crate::text::search::{self, replaced};
use crate::text::split::{self, joined};

verus! {

/// Characters that mean themselves anywhere in a word, with `~`, which the
/// shell expands only where a word begins with it.
pub open spec fn is_safe(c: char) -> bool {
    ||| chars::is_alnum(c)
    ||| c == '-'
    ||| c == '_'
    ||| c == '.'
    ||| c == '/'
    ||| c == ':'
    ||| c == '~'
}

/// All characters of `s` are safe.
pub open spec fn all_safe(s: Seq<char>) -> bool {
    forall|i: int| 0 <= i < s.len() ==> is_safe(s[i])
}

/// `value` as one word of a command line.
pub open spec fn quoted(value: Seq<char>) -> Seq<char> {
    if value.len() == 0 {
        "''"@
    } else if all_safe(value) {
        value
    } else {
        "'"@ + search::replace(value, "'"@, "'\\''"@) + "'"@
    }
}

/// Each value as one word.
pub open spec fn quoted_all(values: Seq<Seq<char>>) -> Seq<Seq<char>> {
    values.map_values(|value: Seq<char>| quoted(value))
}

/// The command line that calls `path` with `args`, in the form that makes a
/// helper answer in JSON.
pub open spec fn helper_command(path: Seq<char>, args: Seq<Seq<char>>) -> Seq<char> {
    quoted(path) + " --json "@ + split::join(quoted_all(args), " "@)
}

/// How a shell reads the word at the start of `s`, `inside` single quotes or
/// not: the word, with its quotes removed, and what follows it. `None` where a
/// quote is not closed, or where a character has a meaning of its own.
pub open spec fn sh_read(s: Seq<char>, inside: bool) -> Option<(Seq<char>, Seq<char>)>
    decreases s.len(),
{
    if inside {
        if s.len() == 0 {
            None
        } else if s[0] == '\'' {
            sh_read(s.drop_first(), false)
        } else {
            sh_then(s[0], sh_read(s.drop_first(), true))
        }
    } else if s.len() == 0 || s[0] == ' ' {
        Some((Seq::empty(), s))
    } else if s[0] == '\'' {
        sh_read(s.drop_first(), true)
    } else if s[0] == '\\' {
        if s.len() < 2 {
            None
        } else {
            sh_then(s[1], sh_read(s.skip(2), false))
        }
    } else if is_safe(s[0]) {
        sh_then(s[0], sh_read(s.drop_first(), false))
    } else {
        None
    }
}

/// `c` before the word that was read.
pub open spec fn sh_then(c: char, read: Option<(Seq<char>, Seq<char>)>) -> Option<
    (Seq<char>, Seq<char>),
> {
    match read {
        Some((word, rest)) => Some((seq![c] + word, rest)),
        None => None,
    }
}

/// The words that a shell reads from a command line. A word that begins with `~`
/// outside quotes stands for a path, which `home` gives.
pub open spec fn sh_words(s: Seq<char>, home: spec_fn(Seq<char>) -> Seq<char>) -> Option<
    Seq<Seq<char>>,
>
    decreases s.len(),
{
    if s.len() == 0 {
        Some(Seq::empty())
    } else if s[0] == ' ' {
        sh_words(s.drop_first(), home)
    } else {
        match sh_read(s, false) {
            Some((word, rest)) if rest.len() < s.len() => match sh_words(rest, home) {
                Some(more) => Some(seq![if s[0] == '~' { home(word) } else { word }] + more),
                None => None,
            },
            _ => None,
        }
    }
}

/// `value` begins with `~` and needs no quotes, so that a shell expands it.
pub open spec fn is_home_path(value: Seq<char>) -> bool {
    value.len() > 0 && value[0] == '~' && all_safe(value)
}

/// The word that a shell makes of a quoted value.
pub open spec fn sh_value(value: Seq<char>, home: spec_fn(Seq<char>) -> Seq<char>) -> Seq<char> {
    if is_home_path(value) {
        home(value)
    } else {
        value
    }
}

/// The words that a shell makes of quoted values.
pub open spec fn sh_values(
    values: Seq<Seq<char>>,
    home: spec_fn(Seq<char>) -> Seq<char>,
) -> Seq<Seq<char>> {
    values.map_values(|value: Seq<char>| sh_value(value, home))
}

/// Nothing, or a space and more.
pub open spec fn is_word_end(rest: Seq<char>) -> bool {
    rest.len() > 0 ==> rest[0] == ' '
}

/// Text whose quotes were escaped is read back inside quotes.
proof fn lemma_read_inside(value: Seq<char>, rest: Seq<char>)
    requires
        is_word_end(rest),
    ensures
        sh_read(search::replace(value, "'"@, "'\\''"@) + "'"@ + rest, true) == Some((value, rest)),
    decreases value.len(),
{
    reveal_strlit("'");
    reveal_strlit("'\\''");
    let escaped = search::replace(value, "'"@, "'\\''"@);
    let s = escaped + "'"@ + rest;
    if value.len() == 0 {
        assert(s.drop_first() =~= rest);
        assert(value =~= Seq::empty());
        assert(sh_read(rest, false) == Some((value, rest)));
        assert(s[0] == '\'');
    } else {
        let tail = value.drop_first();
        let more = search::replace(tail, "'"@, "'\\''"@) + "'"@ + rest;
        lemma_read_inside(tail, rest);
        assert(value =~= seq![value[0]] + tail);
        if value[0] == '\'' {
            assert(value.take(1) =~= "'"@);
            assert(value.skip(1) =~= tail);
            assert(s =~= "'\\''"@ + more);
            let s1 = s.drop_first();
            assert(s1[0] == '\\' && s1[1] == '\'');
            let s3 = s1.skip(2);
            assert(s3[0] == '\'');
            assert(s3.drop_first() =~= more);
            assert(sh_read(s3, false) == Some((tail, rest)));
            assert(sh_read(s1, false) == Some((value, rest)));
        } else {
            assert(value.take(1)[0] == value[0]);
            assert(s =~= seq![value[0]] + more);
            assert(s.drop_first() =~= more);
            assert(s[0] == value[0]);
        }
    }
}

/// Safe characters are read as themselves.
proof fn lemma_read_safe(value: Seq<char>, rest: Seq<char>)
    requires
        is_word_end(rest),
        all_safe(value),
    ensures
        sh_read(value + rest, false) == Some((value, rest)),
    decreases value.len(),
{
    if value.len() == 0 {
        assert(value + rest =~= rest);
        assert(value =~= Seq::empty());
    } else {
        let tail = value.drop_first();
        assert(is_safe(value[0]));
        assert forall|i: int| 0 <= i < tail.len() implies is_safe(tail[i]) by {
            assert(tail[i] == value[i + 1]);
        }
        lemma_read_safe(tail, rest);
        assert((value + rest).drop_first() =~= tail + rest);
        assert(value =~= seq![value[0]] + tail);
    }
}

/// A shell reads back, as one word, exactly the value that was quoted, whatever
/// characters it holds.
pub proof fn lemma_quoted_reads_back(value: Seq<char>, rest: Seq<char>)
    requires
        is_word_end(rest),
    ensures
        sh_read(quoted(value) + rest, false) == Some((value, rest)),
{
    reveal_strlit("''");
    reveal_strlit("'");
    let s = quoted(value) + rest;
    if value.len() == 0 {
        assert(s[0] == '\'');
        assert(s.drop_first()[0] == '\'');
        assert(s.drop_first().drop_first() =~= rest);
        assert(sh_read(s.drop_first(), true) == sh_read(rest, false));
        assert(value =~= Seq::empty());
    } else if all_safe(value) {
        lemma_read_safe(value, rest);
    } else {
        lemma_read_inside(value, rest);
        assert(s.drop_first() =~= search::replace(value, "'"@, "'\\''"@) + "'"@ + rest);
    }
}

/// A quoted value does not begin with a space; it begins with `~` where a shell is to
/// expand it, and nowhere else.
proof fn lemma_quoted_start(value: Seq<char>)
    ensures
        quoted(value).len() > 0,
        quoted(value)[0] != ' ',
        quoted(value)[0] == '~' <==> is_home_path(value),
{
    reveal_strlit("''");
    reveal_strlit("'");
    if value.len() > 0 && all_safe(value) {
        assert(is_safe(value[0]));
    }
}

/// One quoted value in front of other words is one word more.
proof fn lemma_words_first(
    value: Seq<char>,
    rest: Seq<char>,
    home: spec_fn(Seq<char>) -> Seq<char>,
)
    requires
        is_word_end(rest),
        sh_words(rest, home) is Some,
    ensures
        sh_words(quoted(value) + rest, home) == Some(
            seq![sh_value(value, home)] + sh_words(rest, home)->0,
        ),
{
    lemma_quoted_reads_back(value, rest);
    lemma_quoted_start(value);
    let s = quoted(value) + rest;
    assert(s[0] == quoted(value)[0]);
}

/// The words that a shell reads from quoted values with a space between each two are
/// those values, one word for each and in their order; only a value that begins with
/// `~` and needs no quotes is expanded, and stays one word.
pub proof fn lemma_words_of_quoted(
    values: Seq<Seq<char>>,
    home: spec_fn(Seq<char>) -> Seq<char>,
)
    ensures
        sh_words(split::join(quoted_all(values), " "@), home) == Some(sh_values(values, home)),
    decreases values.len(),
{
    reveal_strlit(" ");
    let q = quoted_all(values);
    if values.len() == 0 {
        assert(split::join(q, " "@) =~= Seq::empty());
        assert(sh_values(values, home) =~= Seq::empty());
    } else {
        let tail = values.drop_first();
        lemma_words_of_quoted(tail, home);
        assert(sh_values(values, home) =~= seq![sh_value(values[0], home)] + sh_values(
            tail,
            home,
        ));
        if values.len() == 1 {
            let none = Seq::<char>::empty();
            lemma_words_first(values[0], none, home);
            assert(quoted(values[0]) + none =~= quoted(values[0]));
            assert(q[0] == quoted(values[0]));
            assert(sh_words(none, home) == Some(Seq::<Seq<char>>::empty()));
            assert(sh_values(tail, home) =~= Seq::empty());
        } else {
            assert(q.drop_first() =~= quoted_all(tail));
            split::lemma_join_first(q, " "@);
            let rest = " "@ + split::join(quoted_all(tail), " "@);
            assert(rest.drop_first() =~= split::join(quoted_all(tail), " "@));
            lemma_words_first(values[0], rest, home);
            assert(split::join(q, " "@) =~= quoted(values[0]) + rest);
        }
    }
}

/// Values that no shell expands are read as they are.
pub proof fn lemma_plain_values(values: Seq<Seq<char>>, home: spec_fn(Seq<char>) -> Seq<char>)
    requires
        forall|i: int| 0 <= i < values.len() ==> !is_home_path(#[trigger] values[i]),
    ensures
        sh_values(values, home) == values,
{
    assert(sh_values(values, home) =~= values);
}

/// A shell that is handed a helper command line calls exactly `path`, with `--json` and
/// exactly `args`: no argument can turn into another command, or into two.
pub proof fn lemma_helper_command_words(
    path: Seq<char>,
    args: Seq<Seq<char>>,
    home: spec_fn(Seq<char>) -> Seq<char>,
)
    ensures
        sh_words(helper_command(path, args), home) == Some(
            seq![sh_value(path, home), "--json"@] + sh_values(args, home),
        ),
{
    reveal_strlit(" --json ");
    reveal_strlit("--json");
    lemma_words_of_quoted(args, home);
    let line = split::join(quoted_all(args), " "@);
    let after = seq![' '] + line;
    assert(after.drop_first() =~= line);
    assert(sh_words(after, home) == Some(sh_values(args, home)));
    assert(all_safe("--json"@));
    assert(quoted("--json"@) == "--json"@);
    lemma_words_first("--json"@, after, home);
    let rest = seq![' '] + ("--json"@ + after);
    assert(rest.drop_first() =~= "--json"@ + after);
    lemma_words_first(path, rest, home);
    assert(helper_command(path, args) =~= quoted(path) + rest);
    assert(seq![sh_value(path, home)] + (seq!["--json"@] + sh_values(args, home)) =~= seq![
        sh_value(path, home),
        "--json"@,
    ] + sh_values(args, home));
}

/// Whether all characters of `s` are safe.
fn only_safe(s: &str) -> (r: bool)
    ensures
        r == all_safe(s@),
{
    let cs = chars_of(s);
    let mut i: usize = 0;
    while i < cs.len()
        invariant
            i <= cs@.len(),
            cs@ == s@,
            forall|j: int| 0 <= j < i ==> is_safe(s@[j]),
        decreases cs@.len() - i,
    {
        let c = cs[i];
        if !(alnum(c) || c == '-' || c == '_' || c == '.' || c == '/' || c == ':' || c == '~') {
            assert(!is_safe(s@[i as int]));
            return false;
        }
        i = i + 1;
    }
    true
}

/// `value` as one word of a command line.
pub fn shell_quote(value: &str) -> (r: String)
    ensures
        r@ == quoted(value@),
{
    if value.is_empty() {
        "''".to_string()
    } else if only_safe(value) {
        value.to_string()
    } else {
        let escaped = replaced(value, "'", "'\\''");
        cat3("'", escaped.as_str(), "'")
    }
}

/// Each value as one word.
pub fn shell_quote_all(values: &Vec<String>) -> (r: Vec<String>)
    ensures
        chars::texts(r@) == quoted_all(chars::texts(values@)),
{
    let mut out: Vec<String> = Vec::new();
    let mut i: usize = 0;
    let ghost all = quoted_all(chars::texts(values@));
    assert(chars::texts(out@) =~= all.take(0));
    while i < values.len()
        invariant
            i <= values@.len(),
            all == quoted_all(chars::texts(values@)),
            chars::texts(out@) == all.take(i as int),
        decreases values@.len() - i,
    {
        let word = shell_quote(values[i].as_str());
        push_text(&mut out, word.as_str());
        i = i + 1;
        assert(chars::texts(out@) =~= all.take(i as int));
    }
    assert(all.take(i as int) =~= all);
    out
}

/// The command line that calls the helper at `path` with `args`.
pub fn helper_command_line(path: &str, args: &Vec<String>) -> (r: String)
    ensures
        r@ == helper_command(path@, chars::texts(args@)),
{
    let quoted_path = shell_quote(path);
    let words = shell_quote_all(args);
    let line = joined(&words, " ");
    cat3(quoted_path.as_str(), " --json ", line.as_str())
}

} // verus!
