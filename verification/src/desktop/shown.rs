//! Texts that are shown to the user or handed to another program.

use vstd::prelude::*;

use crate::text::chars::{chars_of, cat3};
use crate::text::encode::{self, lossy_text};
use crate::text::number::{self, number_text};
use crate::text::search::{self, replaced};
use crate::text::split::{self, split_lines, split_words};
use crate::text::chars;
use crate::text::trim::{self, trimmed};

verus! {

/// What stands in the place of a secret.
pub const HIDDEN: &'static str = "****";

/// A text with each secret in it hidden.
pub open spec fn redacted(s: Seq<char>, secret: Seq<char>) -> Seq<char> {
    if secret.len() == 0 {
        s
    } else {
        search::replace(s, secret, HIDDEN@)
    }
}

/// A text with each secret in it hidden.
pub fn redact(s: &str, secret: &str) -> (r: String)
    ensures
        r@ == redacted(s@, secret@),
{
    if secret.is_empty() {
        s.to_string()
    } else {
        replaced(s, secret, HIDDEN)
    }
}

/// A start without asterisks of a text with secrets hidden is a start of the text
/// itself.
proof fn lemma_visible_start(s: Seq<char>, secret: Seq<char>, p: Seq<char>)
    requires
        secret.len() > 0,
        !p.contains('*'),
        search::begins(search::replace(s, secret, HIDDEN@), p),
    ensures
        search::begins(s, p),
    decreases s.len(),
{
    let r = search::replace(s, secret, HIDDEN@);
    reveal_strlit("****");
    if p.len() == 0 {
        assert(s.take(0) =~= p);
    } else if s.len() < secret.len() {
    } else if search::begins(s, secret) {
        assert(r[0] == '*');
        assert(r.take(p.len() as int)[0] == r[0]);
        assert(p.contains(p[0]));
    } else {
        let t = s.drop_first();
        let q = p.drop_first();
        let rest = search::replace(t, secret, HIDDEN@);
        assert(r =~= seq![s[0]] + rest);
        assert(r.take(p.len() as int)[0] == s[0]);
        assert(rest.take(q.len() as int) =~= r.take(p.len() as int).drop_first());
        assert forall|i: int| 0 <= i < q.len() implies q[i] != '*' by {
            assert(p.contains(p[i + 1]));
        }
        lemma_visible_start(t, secret, q);
        assert(s.take(p.len() as int) =~= seq![s[0]] + t.take(q.len() as int));
        assert(p =~= seq![p[0]] + q);
    }
}

/// A text with its secrets hidden holds the secret nowhere, if no asterisk is in the
/// secret.
pub proof fn lemma_redacted_hides(s: Seq<char>, secret: Seq<char>)
    requires
        secret.len() > 0,
        !secret.contains('*'),
    ensures
        !search::contains(redacted(s, secret), secret),
    decreases s.len(),
{
    let r = search::replace(s, secret, HIDDEN@);
    reveal_strlit("****");
    assert forall|i: int| !search::occurs_at(r, secret, i) by {
        if search::occurs_at(r, secret, i) {
            let found = r.subrange(i, i + secret.len());
            assert(found[0] == r[i]);
            assert(secret.contains(secret[0]));
            if s.len() < secret.len() {
            } else if search::begins(s, secret) {
                let t = s.skip(secret.len() as int);
                let rest = search::replace(t, secret, HIDDEN@);
                lemma_redacted_hides(t, secret);
                assert(r =~= HIDDEN@ + rest);
                if i < 4 {
                    assert(r[i] == '*');
                } else {
                    assert(rest.subrange(i - 4, i - 4 + secret.len()) =~= found);
                    assert(search::occurs_at(rest, secret, i - 4));
                }
            } else {
                let t = s.drop_first();
                let rest = search::replace(t, secret, HIDDEN@);
                lemma_redacted_hides(t, secret);
                assert(r =~= seq![s[0]] + rest);
                if i == 0 {
                    assert(r.take(secret.len() as int) =~= found);
                    lemma_visible_start(s, secret, secret);
                } else {
                    assert(rest.subrange(i - 1, i - 1 + secret.len()) =~= found);
                    assert(search::occurs_at(rest, secret, i - 1));
                }
            }
        }
    }
}

/// A text without the secret is shown as it is.
pub proof fn lemma_redacted_keeps(s: Seq<char>, secret: Seq<char>)
    requires
        !search::contains(s, secret),
    ensures
        redacted(s, secret) == s,
    decreases s.len(),
{
    if secret.len() > 0 && s.len() >= secret.len() {
        assert(!search::occurs_at(s, secret, 0));
        assert(s.subrange(0, secret.len() as int) =~= s.take(secret.len() as int));
        let t = s.drop_first();
        assert forall|i: int| !search::occurs_at(t, secret, i) by {
            if search::occurs_at(t, secret, i) {
                assert(s.subrange(i + 1, i + 1 + secret.len()) =~= t.subrange(
                    i,
                    i + secret.len(),
                ));
                assert(search::occurs_at(s, secret, i + 1));
            }
        }
        lemma_redacted_keeps(t, secret);
        assert(s =~= seq![s[0]] + t);
    }
}

/// The end of a file.
pub open spec fn file_end(content: Option<Seq<u8>>, max: nat) -> Seq<char> {
    match content {
        Some(b) => trim::trim(encode::decoded(split::last_pieces(b, max))),
        None => Seq::empty(),
    }
}

/// Of a long file the last bytes are shown, of a short one all.
pub proof fn lemma_file_end(a: Seq<u8>, b: Seq<u8>, max: nat)
    ensures
        file_end(Some(a + b), b.len()) == trim::trim(encode::decoded(b)),
        b.len() <= max ==> file_end(Some(b), max) == trim::trim(encode::decoded(b)),
        file_end(None, max).len() == 0,
{
    split::lemma_last_pieces(a, b);
    if b.len() <= max {
        assert(split::last_pieces(b, max) =~= b);
    }
}

/// The end of a file: its last `max` bytes, as a text without white space around it.
/// Nothing of a file that cannot be read.
pub fn tail_file(content: Option<&[u8]>, max: usize) -> (r: String)
    ensures
        r@ == file_end(
            match content {
                Some(b) => Some(b@),
                None => None,
            },
            max as nat,
        ),
{
    match content {
        Some(b) => {
            let n = b.len();
            let start: usize = if n > max {
                n - max
            } else {
                0
            };
            let part = vstd::slice::slice_subrange(b, start, n);
            assert(part@ =~= split::last_pieces(b@, max as nat));
            let text = lossy_text(part);
            trimmed(text.as_str())
        },
        None => {
            let none = String::new();
            assert(none@ =~= Seq::empty());
            none
        },
    }
}

/// Whether a character has a meaning of its own in an extended regular expression.
pub open spec fn is_meta(c: char) -> bool {
    c == '\\' || c == '.' || c == '^' || c == '$' || c == '*' || c == '+' || c == '?' || c == '('
        || c == ')' || c == '[' || c == ']' || c == '{' || c == '}' || c == '|'
}

/// The expression that matches exactly a text.
pub open spec fn escaped(s: Seq<char>) -> Seq<char>
    decreases s.len(),
{
    if s.len() == 0 {
        Seq::empty()
    } else if is_meta(s.last()) {
        escaped(s.drop_last()).push('\\').push(s.last())
    } else {
        escaped(s.drop_last()).push(s.last())
    }
}

/// The text that an expression made of single characters matches; `None`, if it is made
/// of more. A backslash takes the meaning from the character behind it.
pub open spec fn literal(e: Seq<char>) -> Option<Seq<char>>
    decreases e.len(),
{
    if e.len() == 0 {
        Some(Seq::empty())
    } else if e[0] == '\\' {
        if e.len() == 1 {
            None
        } else {
            match literal(e.skip(2)) {
                Some(t) => Some(seq![e[1]] + t),
                None => None,
            }
        }
    } else if is_meta(e[0]) {
        None
    } else {
        match literal(e.drop_first()) {
            Some(t) => Some(seq![e[0]] + t),
            None => None,
        }
    }
}

/// What two expressions match one after the other.
proof fn lemma_literal_concat(a: Seq<char>, b: Seq<char>)
    requires
        literal(a) is Some,
        literal(b) is Some,
    ensures
        literal(a + b) == Some(literal(a)->Some_0 + literal(b)->Some_0),
    decreases a.len(),
{
    if a.len() == 0 {
        assert(a + b =~= b);
        assert(literal(a)->Some_0 + literal(b)->Some_0 =~= literal(b)->Some_0);
    } else if a[0] == '\\' {
        lemma_literal_concat(a.skip(2), b);
        assert((a + b).skip(2) =~= a.skip(2) + b);
        assert(literal(a)->Some_0 + literal(b)->Some_0 =~= seq![a[1]] + (literal(
            a.skip(2),
        )->Some_0 + literal(b)->Some_0));
    } else {
        lemma_literal_concat(a.drop_first(), b);
        assert((a + b).drop_first() =~= a.drop_first() + b);
        assert(literal(a)->Some_0 + literal(b)->Some_0 =~= seq![a[0]] + (literal(
            a.drop_first(),
        )->Some_0 + literal(b)->Some_0));
    }
}

/// The expression for a text matches that text and no other.
pub proof fn lemma_escaped_matches_itself(s: Seq<char>)
    ensures
        literal(escaped(s)) == Some(s),
    decreases s.len(),
{
    if s.len() > 0 {
        let t = s.drop_last();
        let c = s.last();
        lemma_escaped_matches_itself(t);
        let piece = if is_meta(c) {
            seq!['\\', c]
        } else {
            seq![c]
        };
        if is_meta(c) {
            assert(piece.skip(2) =~= Seq::empty());
        } else {
            assert(piece.drop_first() =~= Seq::empty());
        }
        assert(literal(Seq::<char>::empty()) == Some(Seq::<char>::empty()));
        assert(literal(piece) == Some(seq![c])) by {
            assert(seq![c] + Seq::<char>::empty() =~= seq![c]);
        }
        lemma_literal_concat(escaped(t), piece);
        assert(escaped(s) =~= escaped(t) + piece);
        assert(s =~= t + seq![c]);
    } else {
        assert(s =~= Seq::empty());
    }
}

/// Whether a character has a meaning of its own in an extended regular expression.
fn meta(c: char) -> (r: bool)
    ensures
        r == is_meta(c),
{
    c == '\\' || c == '.' || c == '^' || c == '$' || c == '*' || c == '+' || c == '?' || c == '('
        || c == ')' || c == '[' || c == ']' || c == '{' || c == '}' || c == '|'
}

/// The expression that matches exactly a text.
pub fn ere_escape(s: &str) -> (r: String)
    ensures
        r@ == escaped(s@),
{
    let cs = chars_of(s);
    let mut out = String::new();
    assert(out@ =~= Seq::empty());
    let n = cs.len();
    let mut i: usize = 0;
    while i < n
        invariant
            n == cs@.len(),
            i <= n,
            out@ == escaped(cs@.take(i as int)),
        decreases n - i,
    {
        proof {
            assert(cs@.take(i + 1).drop_last() =~= cs@.take(i as int));
            assert(cs@.take(i + 1).last() == cs@[i as int]);
        }
        if meta(cs[i]) {
            out.push('\\');
        }
        out.push(cs[i]);
        i = i + 1;
    }
    assert(cs@.take(n as int) =~= cs@);
    out
}

/// The expression that finds a proxy of this program on a port.
pub open spec fn proxy_pattern(script: Seq<char>, port: u16) -> Seq<char> {
    escaped(script) + ".*--port "@ + number::decimal(port as nat)
}

/// The expression begins with one that matches the script and no other text, and ends in
/// the option for that very port.
pub proof fn lemma_proxy_pattern(script: Seq<char>, port: u16)
    ensures
        search::begins(proxy_pattern(script, port), escaped(script)),
        literal(escaped(script)) == Some(script),
        proxy_pattern(script, port).skip(escaped(script).len() as int) == ".*--port "@
            + number::decimal(port as nat),
        number::parse_unsigned(number::decimal(port as nat), 65535) == Some(port as nat),
{
    lemma_escaped_matches_itself(script);
    number::lemma_parse_decimal(port as nat, 65535);
    let p = proxy_pattern(script, port);
    let n = escaped(script).len() as int;
    assert(p.take(n) =~= escaped(script));
    assert(p.skip(n) =~= ".*--port "@ + number::decimal(port as nat));
}

/// The expression that finds a proxy of this program on a port.
pub fn orphan_pattern(script: &str, port: u16) -> (r: String)
    ensures
        r@ == proxy_pattern(script@, port),
{
    let path = ere_escape(script);
    let shown = number_text(port as u64);
    cat3(path.as_str(), ".*--port ", shown.as_str())
}

/// The first address in the lines of an output: what stands up to the first white space
/// in the first line that begins with `http://` or `https://`.
pub open spec fn first_address(lines: Seq<Seq<char>>) -> Option<Seq<char>>
    decreases lines.len(),
{
    if lines.len() == 0 {
        None
    } else {
        let line = trim::trim(lines[0]);
        if search::begins(line, "http://"@) || search::begins(line, "https://"@) {
            Some(
                if split::words(line).len() > 0 {
                    split::words(line)[0]
                } else {
                    line
                },
            )
        } else {
            first_address(lines.drop_first())
        }
    }
}

/// An address that is found holds no white space, and begins with `http://` or
/// `https://`.
pub proof fn lemma_first_address(lines: Seq<Seq<char>>)
    ensures
        match first_address(lines) {
            Some(url) => {
                &&& forall|i: int| 0 <= i < url.len() ==> !chars::is_space(#[trigger] url[i])
                &&& search::begins(url, "http://"@) || search::begins(url, "https://"@)
            },
            None => true,
        },
    decreases lines.len(),
{
    reveal_strlit("http://");
    reveal_strlit("https://");
    if lines.len() > 0 {
        let line = trim::trim(lines[0]);
        let p = if search::begins(line, "http://"@) {
            "http://"@
        } else {
            "https://"@
        };
        if search::begins(line, p) {
            assert forall|i: int| 0 <= i < p.len() implies line[i] == p[i] by {
                assert(line.take(p.len() as int)[i] == line[i]);
            }
            assert(line[0] == 'h');
            let k = split::word_len(line) as int;
            split::lemma_word_len(line);
            assert(split::words(line)[0] == line.take(k));
            assert forall|i: int| 0 <= i < p.len() implies !chars::is_space(#[trigger] p[i]) by {}
            if k < p.len() {
                assert(line[k] == p[k]);
            }
            assert(line.take(k).take(p.len() as int) =~= p);
        } else {
            lemma_first_address(lines.drop_first());
        }
    }
}

/// The first address in an output.
pub fn first_http_url(stdout: &str) -> (r: Option<String>)
    ensures
        chars::opt_text(r) == first_address(split::lines(stdout@)),
{
    let v = split_lines(stdout);
    let ghost lines = chars::texts(v@);
    let n = v.len();
    let mut i: usize = 0;
    assert(lines.skip(0) =~= lines);
    while i < n
        invariant
            n == v@.len(),
            i <= n,
            lines == chars::texts(v@),
            lines == split::lines(stdout@),
            first_address(lines) == first_address(lines.skip(i as int)),
        decreases n - i,
    {
        let line = trimmed(v[i].as_str());
        proof {
            assert(lines.skip(i as int)[0] == v@[i as int]@);
            assert(lines.skip(i as int).drop_first() =~= lines.skip(i + 1));
        }
        if search::starts(line.as_str(), "http://") || search::starts(line.as_str(), "https://") {
            let words = split_words(line.as_str());
            if words.len() > 0 {
                let first = words[0].as_str().to_string();
                assert(chars::texts(words@)[0] == first@);
                return Some(first);
            }
            return Some(line);
        }
        i = i + 1;
    }
    None
}

/// The address of an output is what its first line with one begins with, up to white space.
pub proof fn lemma_first_line_with_an_address(
    before: Seq<Seq<char>>,
    url: Seq<char>,
    rest: Seq<char>,
    after: Seq<Seq<char>>,
)
    requires
        search::begins(url, "http://"@) || search::begins(url, "https://"@),
        forall|i: int| 0 <= i < url.len() ==> !chars::is_space(#[trigger] url[i]),
        rest.len() > 0 && !chars::is_space(rest.last()),
        forall|i: int|
            0 <= i < before.len() ==> !search::begins(trim::trim(#[trigger] before[i]), "http://"@)
                && !search::begins(trim::trim(before[i]), "https://"@),
    ensures
        first_address(before + seq![url.push(' ') + rest] + after) == Some(url),
        first_address(before + seq![url] + after) == Some(url),
        first_address(before) is None,
    decreases before.len(),
{
    let line = url.push(' ') + rest;
    reveal_strlit("http://");
    reveal_strlit("https://");
    let p = if search::begins(url, "http://"@) {
        "http://"@
    } else {
        "https://"@
    };
    assert(url.len() > 0);
    assert(line[0] == url[0] && line.last() == rest.last());
    trim::lemma_trim_fixed(line);
    trim::lemma_trim_fixed(url);
    assert(line.take(p.len() as int) =~= url.take(p.len() as int));
    split::lemma_words_first(url, rest);
    let a = before + seq![line] + after;
    let b = before + seq![url] + after;
    if before.len() == 0 {
        assert(a[0] == line && b[0] == url);
    } else {
        let more = before.drop_first();
        assert(a[0] == before[0] && b[0] == before[0]);
        assert(!search::begins(trim::trim(before[0]), "http://"@));
        assert forall|i: int| 0 <= i < more.len() implies !search::begins(
            trim::trim(#[trigger] more[i]),
            "http://"@,
        ) && !search::begins(trim::trim(more[i]), "https://"@) by {
            assert(more[i] == before[i + 1]);
        }
        lemma_first_line_with_an_address(more, url, rest, after);
        assert(a.drop_first() =~= more + seq![line] + after);
        assert(b.drop_first() =~= more + seq![url] + after);
    }
}

/// The characters with a meaning of their own are these, and no others.
pub proof fn lemma_meta(c: char)
    ensures
        is_meta(c) <==> seq![
            '.',
            '*',
            '+',
            '?',
            '|',
            '^',
            '$',
            '(',
            ')',
            '[',
            ']',
            '{',
            '}',
            '\\',
        ].contains(c),
{
    let v = seq!['.', '*', '+', '?', '|', '^', '$', '(', ')', '[', ']', '{', '}', '\\'];
    assert(v[0] == '.' && v[1] == '*' && v[2] == '+' && v[3] == '?' && v[4] == '|' && v[5] == '^'
        && v[6] == '$' && v[7] == '(' && v[8] == ')' && v[9] == '[' && v[10] == ']' && v[11] == '{'
        && v[12] == '}' && v[13] == '\\');
}

} // verus!
