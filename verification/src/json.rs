//! JSON string literals: how a text is written as one, and what one stands for.

use vstd::prelude::*;

verus! {

/// The error type of `serde_json`, carried but never looked into.
#[verifier::external_type_specification]
#[verifier::external_body]
pub struct ExJsonError(serde_json::Error);

/// The lower-case hexadecimal digit for a value below sixteen.
pub open spec fn hex_digit(d: nat) -> char {
    if d < 10 {
        ('0' as u32 + d) as char
    } else {
        ('a' as u32 + (d - 10)) as char
    }
}

/// How one character is written inside a JSON string literal: `"`, `\` and the
/// control characters are escaped, all others stand for themselves.
pub open spec fn escaped_char(c: char) -> Seq<char> {
    if c == '"' || c == '\\' {
        seq!['\\', c]
    } else if c == '\u{8}' {
        seq!['\\', 'b']
    } else if c == '\t' {
        seq!['\\', 't']
    } else if c == '\n' {
        seq!['\\', 'n']
    } else if c == '\u{c}' {
        seq!['\\', 'f']
    } else if c == '\r' {
        seq!['\\', 'r']
    } else if c <= '\u{1f}' {
        seq!['\\', 'u', '0', '0', hex_digit(c as nat / 16), hex_digit(c as nat % 16)]
    } else {
        seq![c]
    }
}

/// How a text is written inside a JSON string literal.
pub open spec fn escaped(text: Seq<char>) -> Seq<char>
    decreases text.len(),
{
    if text.len() == 0 {
        seq![]
    } else {
        escaped_char(text[0]) + escaped(text.drop_first())
    }
}

/// The JSON string literal for a text.
pub open spec fn literal(text: Seq<char>) -> Seq<char> {
    seq!['"'] + escaped(text) + seq!['"']
}

/// `serde_json::to_string`, called on a string slice. It never fails there: the
/// bytes go to a vector in memory, and a string has no part that could refuse to
/// be serialised. What it writes is the text between double quotes, with `"`,
/// `\` and the characters below U+0020 escaped, in the short form where JSON has
/// one and else as `\u00` and two lower-case hexadecimal digits.
#[verifier::external_body]
fn to_json(text: &str) -> (r: Result<String, serde_json::Error>)
    ensures
        r is Ok,
        r->Ok_0@ == literal(text@),
{
    serde_json::to_string(text)
}

/// Writes `text` as a JSON string literal.
pub fn json_literal(text: &str) -> (out: String)
    ensures
        out@ == literal(text@),
{
    match to_json(text) {
        Ok(s) => s,
        Err(_) => "\"\"".to_owned(),
    }
}

/// The value of a hexadecimal digit.
pub open spec fn hex_value(c: char) -> Option<nat> {
    if '0' <= c <= '9' {
        Some((c as u32 - '0' as u32) as nat)
    } else if 'a' <= c <= 'f' {
        Some((c as u32 - 'a' as u32 + 10) as nat)
    } else if 'A' <= c <= 'F' {
        Some((c as u32 - 'A' as u32 + 10) as nat)
    } else {
        None
    }
}

/// The UTF-16 code unit that `\u` and four hexadecimal digits at the start of
/// `s` stand for.
pub open spec fn code_unit(s: Seq<char>) -> Option<nat> {
    if s.len() < 6 || s[0] != '\\' || s[1] != 'u' {
        None
    } else {
        match (hex_value(s[2]), hex_value(s[3]), hex_value(s[4]), hex_value(s[5])) {
            (Some(a), Some(b), Some(c), Some(d)) => Some(((a * 16 + b) * 16 + c) * 16 + d),
            _ => None,
        }
    }
}

/// The character that a backslash and `c` stand for, for the escapes of two
/// characters.
pub open spec fn short_escape(c: char) -> Option<char> {
    if c == '"' || c == '\\' || c == '/' {
        Some(c)
    } else if c == 'b' {
        Some('\u{8}')
    } else if c == 't' {
        Some('\t')
    } else if c == 'n' {
        Some('\n')
    } else if c == 'f' {
        Some('\u{c}')
    } else if c == 'r' {
        Some('\r')
    } else {
        None
    }
}

/// `rest`, where there is one, with `c` before it.
pub open spec fn prepended(c: char, rest: Option<Seq<char>>) -> Option<Seq<char>> {
    match rest {
        Some(r) => Some(seq![c] + r),
        None => None,
    }
}

/// The text that the inside of a JSON string literal stands for, if
/// it is well formed.
pub open spec fn unescaped(s: Seq<char>) -> Option<Seq<char>>
    decreases s.len(),
{
    if s.len() == 0 {
        Some(seq![])
    } else if s[0] == '\\' {
        if s.len() >= 2 && short_escape(s[1]) is Some {
            prepended(short_escape(s[1])->0, unescaped(s.skip(2)))
        } else {
            match code_unit(s) {
                None => None,
                Some(unit) => if unit < 0xd800 || unit >= 0xe000 {
                    prepended(unit as char, unescaped(s.skip(6)))
                } else {
                    match code_unit(s.skip(6)) {
                        Some(low) if unit < 0xdc00 && 0xdc00 <= low < 0xe000 => prepended(
                            (0x10000 + (unit - 0xd800) * 0x400 + (low - 0xdc00)) as char,
                            unescaped(s.skip(12)),
                        ),
                        _ => None,
                    }
                },
            }
        }
    } else if s[0] == '"' || s[0] <= '\u{1f}' {
        None
    } else {
        prepended(s[0], unescaped(s.skip(1)))
    }
}

/// The text that a JSON string literal stands for, if it is well formed.
pub open spec fn parsed(s: Seq<char>) -> Option<Seq<char>> {
    if s.len() >= 2 && s[0] == '"' && s.last() == '"' {
        unescaped(s.subrange(1, s.len() - 1))
    } else {
        None
    }
}

proof fn lemma_char_range(c: char)
    ensures
        0 <= c as int <= 0x10ffff,
{
}

proof fn lemma_unescaped_escaped(text: Seq<char>)
    ensures
        unescaped(escaped(text)) == Some(text),
    decreases text.len(),
{
    if text.len() > 0 {
        let c = text[0];
        let rest = escaped(text.drop_first());
        let all = escaped(text);
        lemma_unescaped_escaped(text.drop_first());
        assert(seq![c] + text.drop_first() =~= text);
        if escaped_char(c).len() == 1 {
            assert(all.skip(1) =~= rest);
        } else if escaped_char(c).len() == 2 {
            assert(all.skip(2) =~= rest);
        } else {
            assert(all.skip(6) =~= rest);
            let n = c as nat;
            lemma_char_range(c);
            assert(hex_value(all[4]) == Some(n / 16));
            assert(hex_value(all[5]) == Some(n % 16));
            assert(code_unit(all) == Some(n));
        }
    }
}

/// Reading back a JSON string literal gives the text that it was written for.
pub proof fn parsed_literal(text: Seq<char>)
    ensures
        parsed(literal(text)) == Some(text),
{
    lemma_unescaped_escaped(text);
    assert(literal(text).subrange(1, literal(text).len() - 1) =~= escaped(text));
}

/// A JSON string literal stands on one line: it holds no control character, so
/// neither `\n` nor `\r`.
pub proof fn literal_is_one_line(text: Seq<char>)
    ensures
        forall|i: int| 0 <= i < literal(text).len() ==> #[trigger] literal(text)[i] >= ' ',
        !literal(text).contains('\n'),
        !literal(text).contains('\r'),
    decreases text.len(),
{
    if text.len() > 0 {
        let rest = text.drop_first();
        literal_is_one_line(rest);
        let head = escaped_char(text[0]);
        lemma_char_range(text[0]);
        assert forall|i: int| 0 <= i < literal(text).len() implies #[trigger] literal(text)[i]
            >= ' ' by {
            if 1 <= i < 1 + head.len() {
                assert(literal(text)[i] == head[i - 1]);
            } else if i >= 1 + head.len() {
                assert(literal(text)[i] == literal(rest)[i - head.len()]);
            }
        }
    }
}

/// A text without `"`, `\` and control characters is written unchanged between
/// its quotes.
pub proof fn literal_of_plain_text(text: Seq<char>)
    requires
        forall|i: int|
            0 <= i < text.len() ==> #[trigger] text[i] >= ' ' && text[i] != '"' && text[i] != '\\',
    ensures
        literal(text) == seq!['"'] + text + seq!['"'],
{
    lemma_escaped_plain(text);
}

proof fn lemma_escaped_plain(text: Seq<char>)
    requires
        forall|i: int|
            0 <= i < text.len() ==> #[trigger] text[i] >= ' ' && text[i] != '"' && text[i] != '\\',
    ensures
        escaped(text) == text,
    decreases text.len(),
{
    if text.len() > 0 {
        lemma_escaped_plain(text.drop_first());
        assert(seq![text[0]] + text.drop_first() =~= text);
    }
}

} // verus!
