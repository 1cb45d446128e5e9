//! Letter case, and the passage between bytes and text.

use vstd::prelude::*;

use crate::text::chars::chars_of;

verus! {

/// What `str::to_lowercase` makes of a text.
pub uninterp spec fn lowercase(s: Seq<char>) -> Seq<char>;

/// `str::to_lowercase` maps each text to one text, named `lowercase`; of a text in ASCII
/// it is the text with its capitals made small.
pub assume_specification[ str::to_lowercase ](s: &str) -> (r: String)
    ensures
        r@ == lowercase(s@),
        vstd::utf8::is_ascii_chars(s@) ==> r@ == ascii_lower(s@),
;

/// What `String::from_utf8_lossy` makes of a sequence of bytes.
pub uninterp spec fn utf8_lossy(b: Seq<u8>) -> Seq<char>;

/// `String::from_utf8_lossy` maps each sequence of bytes to one text, named
/// `utf8_lossy`; of bytes that are valid UTF-8 it is the text that they encode.
#[verifier::external_body]
pub(crate) fn lossy_text(b: &[u8]) -> (r: String)
    ensures
        r@ == utf8_lossy(b@),
        vstd::utf8::valid_utf8(b@) ==> r@ == vstd::utf8::decode_utf8(b@),
{
    String::from_utf8_lossy(b).into_owned()
}

/// A text in lower case: of a text in ASCII, the text with its capitals made small.
pub open spec fn lowered(s: Seq<char>) -> Seq<char> {
    if vstd::utf8::is_ascii_chars(s) {
        ascii_lower(s)
    } else {
        lowercase(s)
    }
}

/// The text that bytes are read as: of valid UTF-8, the text that it encodes.
pub open spec fn decoded(b: Seq<u8>) -> Seq<char> {
    if vstd::utf8::valid_utf8(b) {
        vstd::utf8::decode_utf8(b)
    } else {
        utf8_lossy(b)
    }
}

/// `String::from_utf8` accepts exactly the valid UTF-8 sequences, and gives
/// the text that they encode.
#[verifier::external_body]
pub(crate) fn utf8_text(b: Vec<u8>) -> (r: Option<String>)
    ensures
        match r {
            Some(s) => vstd::utf8::valid_utf8(b@) && s@ == vstd::utf8::decode_utf8(b@),
            None => !vstd::utf8::valid_utf8(b@),
        },
{
    String::from_utf8(b).ok()
}

/// `char::from_u32` gives the character with the code point `i`, if there is one.
pub assume_specification[ char::from_u32 ](i: u32) -> (r: Option<char>)
    ensures
        match r {
            Some(c) => c as int == i as int,
            None => (0xd800 <= i <= 0xdfff) || i > 0x10ffff,
        },
;

/// `c`, with an ASCII capital made small.
pub open spec fn lower_char(c: char) -> char {
    if 'A' <= c <= 'Z' {
        ((c as u8 + 32) as u8) as char
    } else {
        c
    }
}

/// `c`, with an ASCII small letter made capital.
pub open spec fn upper_char(c: char) -> char {
    if 'a' <= c <= 'z' {
        ((c as u8 - 32) as u8) as char
    } else {
        c
    }
}

/// `s` with its ASCII capitals made small.
pub open spec fn ascii_lower(s: Seq<char>) -> Seq<char> {
    Seq::new(s.len(), |i: int| lower_char(s[i]))
}

/// `s` with its ASCII small letters made capital.
pub open spec fn ascii_upper(s: Seq<char>) -> Seq<char> {
    Seq::new(s.len(), |i: int| upper_char(s[i]))
}

/// The text that UTF-16 code units encode; a surrogate without its partner
/// counts as the replacement character.
pub open spec fn utf16_lossy(u: Seq<u16>) -> Seq<char>
    decreases u.len(),
{
    if u.len() == 0 {
        Seq::empty()
    } else if !(0xd800 <= u[0] <= 0xdfff) {
        seq![u[0] as char] + utf16_lossy(u.drop_first())
    } else if u[0] <= 0xdbff && u.len() >= 2 && 0xdc00 <= u[1] <= 0xdfff {
        seq![(0x10000 + (u[0] - 0xd800) * 0x400 + (u[1] - 0xdc00)) as char] + utf16_lossy(u.skip(2))
    } else {
        seq!['\u{fffd}'] + utf16_lossy(u.drop_first())
    }
}

/// `s` with its ASCII capitals made small.
pub fn lowered_ascii(s: &str) -> (r: String)
    ensures
        r@ == ascii_lower(s@),
{
    let cs = chars_of(s);
    let mut out = String::new();
    let mut i: usize = 0;
    while i < cs.len()
        invariant
            i <= cs@.len(),
            out@ == ascii_lower(cs@.take(i as int)),
        decreases cs@.len() - i,
    {
        let c = cs[i];
        if 'A' <= c && c <= 'Z' {
            out.push((c as u8 + 32) as char);
        } else {
            out.push(c);
        }
        i = i + 1;
        assert(out@ =~= ascii_lower(cs@.take(i as int)));
    }
    assert(cs@.take(i as int) =~= cs@);
    out
}

/// `s` with its ASCII small letters made capital.
pub fn raised_ascii(s: &str) -> (r: String)
    ensures
        r@ == ascii_upper(s@),
{
    let cs = chars_of(s);
    let mut out = String::new();
    let mut i: usize = 0;
    while i < cs.len()
        invariant
            i <= cs@.len(),
            out@ == ascii_upper(cs@.take(i as int)),
        decreases cs@.len() - i,
    {
        let c = cs[i];
        if 'a' <= c && c <= 'z' {
            out.push((c as u8 - 32) as char);
        } else {
            out.push(c);
        }
        i = i + 1;
        assert(out@ =~= ascii_upper(cs@.take(i as int)));
    }
    assert(cs@.take(i as int) =~= cs@);
    out
}

/// The text that UTF-16 code units encode.
pub fn utf16_text(u: &Vec<u16>) -> (r: String)
    ensures
        r@ == utf16_lossy(u@),
{
    let n = u.len();
    let mut out = String::new();
    let mut i: usize = 0;
    assert(u@.skip(0) =~= u@);
    assert(out@ + utf16_lossy(u@) =~= utf16_lossy(u@));
    while i < n
        invariant
            n == u@.len(),
            i <= n,
            utf16_lossy(u@) == out@ + utf16_lossy(u@.skip(i as int)),
        decreases n - i,
    {
        let ghost rest = u@.skip(i as int);
        let ghost prior = out@;
        let a: u32 = u[i] as u32;
        let mut code: u32 = 0xfffd;
        let mut step: usize = 1;
        if !(0xd800 <= a && a <= 0xdfff) {
            code = a;
        } else if a <= 0xdbff && n - i >= 2 {
            let b: u32 = u[i + 1] as u32;
            if 0xdc00 <= b && b <= 0xdfff {
                code = 0x10000 + (a - 0xd800) * 0x400 + (b - 0xdc00);
                step = 2;
            }
        }
        let c = match char::from_u32(code) {
            Some(c) => c,
            None => '\u{fffd}',
        };
        out.push(c);
        i = i + step;
        proof {
            if step == 2 {
                assert(rest.skip(2) =~= u@.skip(i as int));
            }
            assert(rest.drop_first() =~= u@.skip(i - step + 1));
            assert(rest[0] == a);
            assert(c as int == code as int);
            assert(c as int == rest[0] as int ==> c == rest[0] as char);
            if step == 2 {
                assert(rest[1] == u@[i - 1]);
                assert(code == 0x10000 + (rest[0] - 0xd800) * 0x400 + (rest[1] - 0xdc00));
            }
            assert(c == if !(0xd800 <= rest[0] <= 0xdfff) {
                rest[0] as char
            } else if step == 2 {
                (0x10000 + (rest[0] - 0xd800) * 0x400 + (rest[1] - 0xdc00)) as char
            } else {
                '\u{fffd}'
            });
            assert(utf16_lossy(rest) == seq![c] + utf16_lossy(u@.skip(i as int)));
            assert(prior + (seq![c] + utf16_lossy(u@.skip(i as int))) =~= out@ + utf16_lossy(
                u@.skip(i as int),
            ));
        }
    }
    assert(u@.skip(i as int) =~= Seq::<u16>::empty());
    assert(out@ + Seq::<char>::empty() =~= out@);
    out
}

/// A capital becomes the small letter 32 places behind it, and back; no other character
/// changes.
pub proof fn lemma_letter_case(c: char)
    ensures
        'A' <= c <= 'Z' ==> lower_char(c) as int == c as int + 32 && upper_char(lower_char(c)) == c,
        !('A' <= c <= 'Z') ==> lower_char(c) == c,
        'a' <= c <= 'z' ==> upper_char(c) as int == c as int - 32 && lower_char(upper_char(c)) == c,
        !('a' <= c <= 'z') ==> upper_char(c) == c,
        lower_char('A') == 'a' && lower_char('Z') == 'z',
{
}

/// The case of a text is that of its characters: lowering it twice lowers it once.
pub proof fn lemma_text_case(s: Seq<char>)
    ensures
        ascii_lower(s).len() == s.len(),
        ascii_upper(s).len() == s.len(),
        ascii_lower(ascii_lower(s)) == ascii_lower(s),
        ascii_lower(ascii_upper(s)) == ascii_lower(s),
        forall|i: int| 0 <= i < s.len() ==> #[trigger] ascii_lower(s)[i] == lower_char(s[i]),
{
    assert forall|i: int| 0 <= i < s.len() implies lower_char(lower_char(s[i])) == lower_char(s[i])
        && lower_char(upper_char(s[i])) == lower_char(s[i]) by {
        lemma_letter_case(s[i]);
        lemma_letter_case(lower_char(s[i]));
    }
    assert(ascii_lower(ascii_lower(s)) =~= ascii_lower(s));
    assert(ascii_lower(ascii_upper(s)) =~= ascii_lower(s));
}

/// A character below the surrogates is one code unit.
proof fn lemma_plain_unit(c: char)
    requires
        c as int <= 0xd7ff,
    ensures
        ((c as int) as u16) as int == c as int,
        ((c as int) as u16) as char == c,
{
}

/// A text of characters below the surrogates is encoded by their code points alone.
pub proof fn lemma_utf16_plain(s: Seq<char>)
    requires
        forall|i: int| 0 <= i < s.len() ==> (#[trigger] s[i]) as int <= 0xd7ff,
    ensures
        utf16_lossy(Seq::new(s.len(), |i: int| (s[i] as int) as u16)) == s,
    decreases s.len(),
{
    let u = Seq::new(s.len(), |i: int| (s[i] as int) as u16);
    if s.len() == 0 {
        assert(utf16_lossy(u) =~= s);
    } else {
        let t = s.drop_first();
        assert forall|i: int| 0 <= i < t.len() implies (#[trigger] t[i]) as int <= 0xd7ff by {
            assert(s[i + 1] as int <= 0xd7ff);
        }
        lemma_utf16_plain(t);
        assert(u.drop_first() =~= Seq::new(t.len(), |i: int| (t[i] as int) as u16));
        assert(s[0] as int <= 0xd7ff);
        lemma_plain_unit(s[0]);
        assert(utf16_lossy(u) =~= s);
    }
}

/// Bytes that encode a text are read as that text; an ASCII text in lower case is the text
/// with its capitals made small.
pub proof fn lemma_decoded(s: Seq<char>)
    ensures
        decoded(vstd::utf8::encode_utf8(s)) == s,
        vstd::utf8::is_ascii_chars(s) ==> lowered(s) == ascii_lower(s),
{
    vstd::utf8::encode_utf8_valid_utf8(s);
    vstd::utf8::encode_utf8_decode_utf8(s);
}

/// A character beyond the first 65536 is encoded by a pair of surrogates; a surrogate
/// without its partner stands for no character.
pub proof fn lemma_utf16_pairs(high: u16, low: u16, rest: Seq<u16>)
    requires
        0xd800 <= high <= 0xdbff,
        0xdc00 <= low <= 0xdfff,
    ensures
        utf16_lossy(seq![high, low] + rest) == seq![
            (0x10000 + (high - 0xd800) * 0x400 + (low - 0xdc00)) as char,
        ] + utf16_lossy(rest),
        utf16_lossy(seq![low] + rest) == seq!['\u{fffd}'] + utf16_lossy(rest),
        utf16_lossy(seq![high]) == seq!['\u{fffd}'],
{
    assert((seq![high, low] + rest).skip(2) =~= rest);
    assert((seq![low] + rest).drop_first() =~= rest);
    assert(seq![high].drop_first() =~= Seq::empty());
    assert(utf16_lossy(Seq::<u16>::empty()) =~= Seq::empty());
    assert(utf16_lossy(seq![high]) =~= seq!['\u{fffd}']);
}

} // verus!
