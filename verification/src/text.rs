//! Small text operations with exact contracts over character sequences.

use vstd::prelude::*;

verus! {

/// `String::push` appends the given character to the end of the string.
pub assume_specification[ String::push ](s: &mut String, c: char)
    ensures
        final(s)@ == old(s)@.push(c),
;

/// The texts of a list of strings, in order.
pub open spec fn texts(list: Seq<String>) -> Seq<Seq<char>> {
    list.map_values(|s: String| s@)
}

/// The characters of `s`, in order.
pub fn chars_of(s: &str) -> (out: Vec<char>)
    ensures
        out@ == s@,
{
    let mut out: Vec<char> = Vec::new();
    for c in it: s.chars()
        invariant
            it.seq() == s@,
            out@ == s@.take(it.index()),
    {
        out.push(c);
    }
    out
}

/// The string made of the characters of `chars` from `from` up to, but not
/// including, `to`.
fn string_of(chars: &Vec<char>, from: usize, to: usize) -> (out: String)
    requires
        from <= to <= chars@.len(),
    ensures
        out@ == chars@.subrange(from as int, to as int),
{
    let mut out = String::new();
    let mut i: usize = from;
    while i < to
        invariant
            from <= i <= to <= chars@.len(),
            out@ == chars@.subrange(from as int, i as int),
        decreases to - i,
    {
        out.push(chars[i]);
        i += 1;
    }
    out
}

/// `c` with an ASCII upper-case letter replaced by its lower-case counterpart.
pub open spec fn ascii_lower_char(c: char) -> char {
    if 'A' <= c <= 'Z' {
        (c as u32 + 32) as char
    } else {
        c
    }
}

/// `s` with every ASCII upper-case letter replaced by its lower-case
/// counterpart.
pub open spec fn ascii_lower(s: Seq<char>) -> Seq<char> {
    s.map_values(|c: char| ascii_lower_char(c))
}

/// The characters of `s`, with ASCII letters in lower case.
pub fn ascii_lower_chars(s: &str) -> (out: Vec<char>)
    ensures
        out@ == ascii_lower(s@),
{
    let mut out: Vec<char> = Vec::new();
    for c in it: s.chars()
        invariant
            it.seq() == s@,
            out@ == ascii_lower(s@.take(it.index())),
    {
        let lower = if 'A' <= c && c <= 'Z' {
            ((c as u8) + 32) as char
        } else {
            c
        };
        out.push(lower);
        proof {
            assert(ascii_lower(s@.take(it.index() + 1)) =~= ascii_lower(
                s@.take(it.index()),
            ).push(ascii_lower_char(c)));
        }
    }
    out
}

/// Whether `needle` stands in `hay` at position `i`.
pub open spec fn occurs_at(hay: Seq<char>, needle: Seq<char>, i: int) -> bool {
    &&& 0 <= i
    &&& i + needle.len() <= hay.len()
    &&& hay.subrange(i, i + needle.len()) == needle
}

/// Whether `needle` stands somewhere in `hay`.
pub open spec fn occurs_in(needle: Seq<char>, hay: Seq<char>) -> bool {
    exists|i: int| occurs_at(hay, needle, i)
}

/// Whether `needle` stands in `hay` at position `at`.
fn stands_at(hay: &Vec<char>, needle: &Vec<char>, at: usize) -> (found: bool)
    requires
        at + needle@.len() <= hay@.len(),
    ensures
        found == occurs_at(hay@, needle@, at as int),
{
    let size: usize = hay.len();
    let mut i: usize = 0;
    while i < needle.len()
        invariant
            i <= needle@.len(),
            at + needle@.len() <= hay@.len() == size,
            forall|k: int| 0 <= k < i ==> hay@[at + k] == needle@[k],
        decreases needle@.len() - i,
    {
        if hay[at + i] != needle[i] {
            assert(hay@.subrange(at as int, at + needle@.len())[i as int] != needle@[i as int]);
            return false;
        }
        i += 1;
    }
    assert(hay@.subrange(at as int, at + needle@.len()) =~= needle@);
    true
}

/// Whether `s` begins with `prefix`.
pub fn starts_with(s: &Vec<char>, prefix: &Vec<char>) -> (b: bool)
    ensures
        b == prefix@.is_prefix_of(s@),
{
    prefix.len() <= s.len() && stands_at(s, prefix, 0)
}

/// Whether `needle` stands somewhere in `hay`.
pub fn contains(hay: &Vec<char>, needle: &str) -> (found: bool)
    ensures
        found == occurs_in(needle@, hay@),
{
    let needle_chars = chars_of(needle);
    if needle_chars.len() > hay.len() {
        return false;
    }
    let last: usize = hay.len() - needle_chars.len();
    let mut at: usize = 0;
    loop
        invariant
            needle_chars@ == needle@,
            last == hay@.len() - needle_chars@.len(),
            at <= last,
            forall|k: int| 0 <= k < at ==> !occurs_at(hay@, needle@, k),
        decreases last - at,
    {
        if stands_at(hay, &needle_chars, at) {
            return true;
        }
        if at == last {
            return false;
        }
        at += 1;
    }
}

/// The characters with the Unicode property `White_Space`.
pub open spec fn white_space(c: char) -> bool {
    ||| '\u{9}' <= c <= '\u{d}'
    ||| c == ' '
    ||| c == '\u{85}'
    ||| c == '\u{a0}'
    ||| c == '\u{1680}'
    ||| '\u{2000}' <= c <= '\u{200a}'
    ||| c == '\u{2028}'
    ||| c == '\u{2029}'
    ||| c == '\u{202f}'
    ||| c == '\u{205f}'
    ||| c == '\u{3000}'
}

/// Whether `c` has the Unicode property `White_Space`.
pub fn is_white_space(c: char) -> (b: bool)
    ensures
        b == white_space(c),
{
    ('\u{9}' <= c && c <= '\u{d}') || c == ' ' || c == '\u{85}' || c == '\u{a0}' || c
        == '\u{1680}' || ('\u{2000}' <= c && c <= '\u{200a}') || c == '\u{2028}' || c
        == '\u{2029}' || c == '\u{202f}' || c == '\u{205f}' || c == '\u{3000}'
}

/// `s` without its leading white space.
pub open spec fn trimmed_start(s: Seq<char>) -> Seq<char>
    decreases s.len(),
{
    if s.len() > 0 && white_space(s[0]) {
        trimmed_start(s.drop_first())
    } else {
        s
    }
}

/// `s` without its trailing white space.
pub open spec fn trimmed_end(s: Seq<char>) -> Seq<char>
    decreases s.len(),
{
    if s.len() > 0 && white_space(s.last()) {
        trimmed_end(s.drop_last())
    } else {
        s
    }
}

/// `s` without its leading and trailing white space.
pub open spec fn trimmed(s: Seq<char>) -> Seq<char> {
    trimmed_end(trimmed_start(s))
}

/// `s` without its leading and trailing white space.
pub fn trim(s: &str) -> (out: String)
    ensures
        out@ == trimmed(s@),
{
    let chars = chars_of(s);
    let mut from: usize = 0;
    assert(chars@.skip(0) =~= s@);
    while from < chars.len() && is_white_space(chars[from])
        invariant
            from <= chars@.len(),
            trimmed_start(s@) == trimmed_start(chars@.skip(from as int)),
            chars@ == s@,
        decreases chars@.len() - from,
    {
        assert(chars@.skip(from as int).drop_first() =~= chars@.skip(from + 1));
        from += 1;
    }
    assert(trimmed_start(s@) == chars@.skip(from as int));
    let mut to: usize = chars.len();
    assert(chars@.subrange(from as int, to as int) =~= chars@.skip(from as int));
    while to > from && is_white_space(chars[to - 1])
        invariant
            from <= to <= chars@.len(),
            trimmed(s@) == trimmed_end(chars@.subrange(from as int, to as int)),
        decreases to - from,
    {
        assert(chars@.subrange(from as int, to as int).drop_last() =~= chars@.subrange(
            from as int,
            to - 1,
        ));
        to -= 1;
    }
    string_of(&chars, from, to)
}

/// The decimal digit for a value below ten.
pub open spec fn digit(d: nat) -> char {
    ('0' as u32 + d) as char
}

/// The decimal numeral of `n`, without leading zeros.
pub open spec fn decimal(n: nat) -> Seq<char>
    decreases n,
{
    if n < 10 {
        seq![digit(n)]
    } else {
        decimal(n / 10).push(digit(n % 10))
    }
}

/// The decimal numeral of `i`, with a leading minus sign if it is negative.
pub open spec fn signed_decimal(i: int) -> Seq<char> {
    if i < 0 {
        seq!['-'] + decimal((-i) as nat)
    } else {
        decimal(i as nat)
    }
}

/// The decimal numeral of `n`.
pub fn decimal_string(n: u32) -> (out: String)
    ensures
        out@ == decimal(n as nat),
    decreases n,
{
    let mut out = if n < 10 {
        String::new()
    } else {
        decimal_string(n / 10)
    };
    let d: u8 = (n % 10) as u8;
    out.push((48 + d) as char);
    out
}

/// The decimal numeral of `i`, with a leading minus sign if it is negative.
pub fn signed_decimal_string(i: i32) -> (out: String)
    ensures
        out@ == signed_decimal(i as int),
{
    if i < 0 {
        let mut out = String::new();
        out.push('-');
        let magnitude: u32 = (0 - i as i64) as u32;
        let digits = decimal_string(magnitude);
        out.append(digits.as_str());
        out
    } else {
        decimal_string(i as u32)
    }
}

/// `line` without a carriage return at its end.
pub open spec fn without_cr(line: Seq<char>) -> Seq<char> {
    if line.len() > 0 && line.last() == '\r' {
        line.drop_last()
    } else {
        line
    }
}

/// The number of characters of `s` before its first `\n`, or all of them if it
/// has none.
pub open spec fn line_len(s: Seq<char>) -> nat
    decreases s.len(),
{
    if s.len() == 0 || s[0] == '\n' {
        0
    } else {
        1 + line_len(s.drop_first())
    }
}

/// The lines of `s`: it is cut at every `\n`, a `\r` right before such a `\n`
/// belongs to the line ending, and the last line needs no line ending.
pub open spec fn lines(s: Seq<char>) -> Seq<Seq<char>>
    decreases s.len(),
{
    let n = line_len(s);
    if s.len() == 0 {
        seq![]
    } else if n < s.len() {
        seq![without_cr(s.take(n as int))] + lines(s.skip(n as int + 1))
    } else {
        seq![s]
    }
}

proof fn lemma_line_len(s: Seq<char>, n: nat)
    requires
        n <= s.len(),
        forall|i: int| 0 <= i < n ==> s[i] != '\n',
        n < s.len() ==> s[n as int] == '\n',
    ensures
        line_len(s) == n,
    decreases s.len(),
{
    if n > 0 {
        lemma_line_len(s.drop_first(), (n - 1) as nat);
    }
}

/// The lines of `s`, without their line endings.
pub fn split_lines(s: &str) -> (out: Vec<String>)
    ensures
        texts(out@) == lines(s@),
{
    let chars = chars_of(s);
    let mut out: Vec<String> = Vec::new();
    let mut start: usize = 0;
    assert(chars@.skip(0) =~= s@);
    assert(texts(out@) + lines(s@) =~= lines(s@));
    while start < chars.len()
        invariant
            start <= chars@.len(),
            chars@ == s@,
            texts(out@) + lines(chars@.skip(start as int)) == lines(s@),
        decreases chars@.len() - start,
    {
        let mut end: usize = start;
        while end < chars.len() && chars[end] != '\n'
            invariant
                start <= end <= chars@.len(),
                forall|i: int| start <= i < end ==> chars@[i] != '\n',
            decreases chars@.len() - end,
        {
            end += 1;
        }
        let ghost rest = chars@.skip(start as int);
        let ghost before = texts(out@);
        proof {
            lemma_line_len(rest, (end - start) as nat);
        }
        if end < chars.len() {
            let stop: usize = if end > start && chars[end - 1] == '\r' {
                end - 1
            } else {
                end
            };
            let line = string_of(&chars, start, stop);
            assert(line@ =~= without_cr(rest.take(end - start)));
            out.push(line);
            assert(texts(out@) =~= before.push(line@));
            assert(rest.skip(end - start + 1) =~= chars@.skip(end + 1));
            assert(before + lines(rest) =~= before.push(line@) + lines(chars@.skip(end + 1)));
            start = end + 1;
        } else {
            let line = string_of(&chars, start, end);
            assert(line@ =~= rest);
            out.push(line);
            assert(texts(out@) =~= before.push(line@));
            assert(lines(chars@.skip(end as int)) =~= seq![]);
            assert(before + lines(rest) =~= before.push(line@) + seq![]);
            start = end;
        }
    }
    assert(texts(out@) + lines(chars@.skip(start as int)) =~= texts(out@));
    out
}

/// A character sequence that joins `list` with line endings of a single `\n`,
/// one after each entry.
pub open spec fn unlines(list: Seq<Seq<char>>) -> Seq<char>
    decreases list.len(),
{
    if list.len() == 0 {
        seq![]
    } else {
        list[0] + seq!['\n'] + unlines(list.drop_first())
    }
}

/// Cutting a text into lines gives back the entries that were written one per
/// line, as long as no entry holds a `\n` or ends in a `\r`.
pub proof fn lines_of_unlines(list: Seq<Seq<char>>)
    requires
        forall|i: int, k: int|
            0 <= i < list.len() && 0 <= k < list[i].len() ==> #[trigger] list[i][k] != '\n',
        forall|i: int|
            0 <= i < list.len() && #[trigger] list[i].len() > 0 ==> list[i].last() != '\r',
    ensures
        lines(unlines(list)) == list,
    decreases list.len(),
{
    if list.len() > 0 {
        let rest = list.drop_first();
        assert forall|i: int, k: int| 0 <= i < rest.len() && 0 <= k < rest[i].len() implies
            #[trigger] rest[i][k] != '\n' by {
            assert(list[i + 1][k] != '\n');
        }
        assert forall|i: int| 0 <= i < rest.len() && #[trigger] rest[i].len() > 0 implies
            rest[i].last() != '\r' by {
            assert(list[i + 1].len() > 0);
        }
        lines_of_unlines(rest);
        let s = unlines(list);
        let n = list[0].len();
        assert forall|i: int| 0 <= i < n implies s[i] != '\n' by {
            assert(list[0][i] != '\n');
        }
        lemma_line_len(s, n);
        assert(s.take(n as int) =~= list[0]);
        assert(s.skip(n as int + 1) =~= unlines(rest));
        assert(list[0].len() > 0 ==> list[0].last() != '\r');
        assert(seq![list[0]] + rest =~= list);
    }
}

/// The texts of a list of strings are those of its entries, each in its place.
pub proof fn texts_are_those_of_the_entries(list: Seq<String>)
    ensures
        texts(list).len() == list.len(),
        forall|i: int| 0 <= i < list.len() ==> #[trigger] texts(list)[i] == list[i]@,
{
}

/// Lowering keeps the length and treats each character by itself: the letters `A`
/// to `Z` move by the distance between the two cases, all others stay.
pub proof fn lowering_is_per_character(s: Seq<char>)
    ensures
        ascii_lower(s).len() == s.len(),
        forall|i: int|
            0 <= i < s.len() ==> {
                &&& 'A' <= #[trigger] s[i] <= 'Z' ==> ascii_lower(s)[i] as int == s[i] as int + (
                'a' as int - 'A' as int)
                &&& !('A' <= s[i] <= 'Z') ==> ascii_lower(s)[i] == s[i]
            },
{
}

/// A text stands in another at a position if what comes before, the text and what
/// comes after make up the other; it stands somewhere in the other if there is
/// such a way to make it up.
pub proof fn occurrence_is_what_text_surrounds(hay: Seq<char>, needle: Seq<char>, i: int)
    ensures
        occurs_at(hay, needle, i) <==> 0 <= i <= i + needle.len() <= hay.len() && hay == hay.take(i)
            + needle + hay.skip(i + needle.len()),
        occurs_in(needle, hay) <==> exists|before: Seq<char>, after: Seq<char>|
            hay == #[trigger] (before + needle + after),
{
    if 0 <= i <= i + needle.len() <= hay.len() {
        let whole = hay.take(i) + needle + hay.skip(i + needle.len());
        if hay == whole {
            assert(whole.subrange(i, i + needle.len()) =~= needle);
        }
        if occurs_at(hay, needle, i) {
            assert(hay =~= hay.take(i) + hay.subrange(i, i + needle.len()) + hay.skip(
                i + needle.len(),
            ));
        }
    }
    if occurs_in(needle, hay) {
        let k = choose|k: int| occurs_at(hay, needle, k);
        assert(hay =~= hay.take(k) + hay.subrange(k, k + needle.len()) + hay.skip(
            k + needle.len(),
        ));
        assert(hay == hay.take(k) + needle + hay.skip(k + needle.len()));
    }
    if exists|before: Seq<char>, after: Seq<char>| hay == #[trigger] (before + needle + after) {
        let (before, after) = choose|before: Seq<char>, after: Seq<char>|
            hay == #[trigger] (before + needle + after);
        lemma_occurs_between(before, needle, after);
    }
}

/// A text stands between what comes before it and what comes after it.
pub proof fn lemma_occurs_between(before: Seq<char>, needle: Seq<char>, after: Seq<char>)
    ensures
        occurs_at(before + needle + after, needle, before.len() as int),
{
    let hay = before + needle + after;
    assert(hay.subrange(before.len() as int, before.len() as int + needle.len()) =~= needle);
}

/// A line ends with `\n` or with `\r\n`, the last one also with the text; what ends
/// a line belongs to no line, and everything else does. Nothing has no lines.
pub proof fn lines_are_what_line_endings_separate(line: Seq<char>, rest: Seq<char>)
    requires
        !line.contains('\n'),
    ensures
        lines(seq![]) == Seq::<Seq<char>>::empty(),
        line.len() > 0 ==> lines(line) == seq![line],
        line.len() == 0 || line.last() != '\r' ==> lines(line + seq!['\n'] + rest) == seq![line]
            + lines(rest),
        lines(line + seq!['\r', '\n'] + rest) == seq![line] + lines(rest),
{
    assert forall|i: int| 0 <= i < line.len() implies #[trigger] line[i] != '\n' by {
        assert(line.contains(line[i]));
    }
    lemma_line_len(line, line.len());
    let plain = line + seq!['\n'] + rest;
    lemma_line_len(plain, line.len());
    assert(plain.take(line.len() as int) =~= line);
    assert(plain.skip(line.len() as int + 1) =~= rest);
    let returned = line + seq!['\r', '\n'] + rest;
    lemma_line_len(returned, line.len() + 1);
    assert(returned.take(line.len() as int + 1) =~= line.push('\r'));
    assert(line.push('\r').drop_last() =~= line);
    assert(returned.skip(line.len() as int + 2) =~= rest);
}

/// A text that ends with a line ending and a text after it have their lines one
/// after the other.
pub proof fn lines_of_two_texts(first: Seq<char>, second: Seq<char>)
    requires
        first.len() == 0 || first.last() == '\n',
    ensures
        lines(first + second) == lines(first) + lines(second),
    decreases first.len(),
{
    if first.len() == 0 {
        assert(first + second =~= second);
        assert(lines(first) + lines(second) =~= lines(second));
    } else {
        let n = lemma_first_line(first);
        let both = first + second;
        lemma_line_len(first, n);
        lemma_line_len(both, n);
        let later = first.skip(n as int + 1);
        assert(both.take(n as int) =~= first.take(n as int));
        assert(both.skip(n as int + 1) =~= later + second);
        if later.len() > 0 {
            assert(later.last() == first.last());
        }
        lines_of_two_texts(later, second);
        let head = seq![without_cr(first.take(n as int))];
        assert(head + (lines(later) + lines(second)) =~= head + lines(later) + lines(second));
    }
}

proof fn lemma_first_line(s: Seq<char>) -> (n: nat)
    requires
        s.len() > 0,
        s.last() == '\n',
    ensures
        n < s.len(),
        forall|i: int| 0 <= i < n ==> s[i] != '\n',
        s[n as int] == '\n',
    decreases s.len(),
{
    if s[0] == '\n' {
        0
    } else {
        let rest = s.drop_first();
        assert(rest.last() == s.last());
        let m = lemma_first_line(rest);
        assert forall|i: int| 0 <= i < m + 1 implies s[i] != '\n' by {
            if i > 0 {
                assert(rest[i - 1] != '\n');
            }
        }
        assert(s[m as int + 1] == rest[m as int]);
        m + 1
    }
}

/// The value of a decimal numeral.
pub open spec fn numeral_value(s: Seq<char>) -> int
    decreases s.len(),
{
    if s.len() == 0 {
        0
    } else {
        10 * numeral_value(s.drop_last()) + (s.last() as u32 - '0' as u32)
    }
}

/// A decimal numeral consists of digits, has no leading zero unless it is the
/// numeral of zero, and stands for the number that it was made from.
pub proof fn decimal_is_faithful(n: nat)
    ensures
        decimal(n).len() > 0,
        forall|i: int| 0 <= i < decimal(n).len() ==> '0' <= #[trigger] decimal(n)[i] <= '9',
        n > 0 ==> decimal(n)[0] != '0',
        numeral_value(decimal(n)) == n,
    decreases n,
{
    if n < 10 {
        assert(decimal(n).drop_last() =~= seq![]);
        reveal_with_fuel(numeral_value, 2);
    } else {
        decimal_is_faithful(n / 10);
        assert(decimal(n).drop_last() =~= decimal(n / 10));
    }
}

/// The numeral of a number below ten is its digit, and the numeral of a larger
/// number is that of its tens with the digit of its units after it.
pub proof fn decimal_appends_the_units(tens: nat, units: nat)
    requires
        units < 10,
    ensures
        decimal(units).len() == 1,
        decimal(units)[0] as int == '0' as int + units,
        tens > 0 ==> decimal(10 * tens + units) == decimal(tens) + decimal(units),
{
    if tens > 0 {
        let n = 10 * tens + units;
        assert(n / 10 == tens);
        assert(n % 10 == units);
        assert(decimal(n) =~= decimal(tens) + decimal(units));
    }
}

/// Digits count ten times as much with every place, and nothing counts zero.
pub proof fn numerals_are_positional(s: Seq<char>, c: char)
    ensures
        numeral_value(seq![]) == 0,
        numeral_value(s.push(c)) == 10 * numeral_value(s) + (c as int - '0' as int),
{
    assert(s.push(c).drop_last() =~= s);
}

/// A negative number is written as a minus sign and the numeral of its magnitude,
/// any other number as its numeral.
pub proof fn signed_decimal_has_a_sign_if_negative(n: nat)
    ensures
        signed_decimal(n as int) == decimal(n),
        n > 0 ==> signed_decimal(-(n as int)) == seq!['-'] + decimal(n),
{
}

/// Trimmed text neither starts nor ends with white space, and only white space
/// was taken away.
pub proof fn trimmed_is_what_white_space_surrounds(s: Seq<char>)
    ensures
        trimmed(s).len() > 0 ==> !white_space(trimmed(s)[0]) && !white_space(trimmed(s).last()),
        exists|before: Seq<char>, after: Seq<char>|
            s == #[trigger] (before + trimmed(s) + after) && before.all(
                |c: char| white_space(c),
            ) && after.all(|c: char| white_space(c)),
{
    let before = lemma_trimmed_start(s);
    let after = lemma_trimmed_end(trimmed_start(s));
    assert(s =~= before + trimmed(s) + after);
    if trimmed(s).len() > 0 {
        assert(trimmed_start(s)[0] == trimmed(s)[0]);
    }
}

proof fn lemma_trimmed_start(s: Seq<char>) -> (before: Seq<char>)
    ensures
        s == before + trimmed_start(s),
        before.all(|c: char| white_space(c)),
        trimmed_start(s).len() > 0 ==> !white_space(trimmed_start(s)[0]),
    decreases s.len(),
{
    if s.len() > 0 && white_space(s[0]) {
        let before = lemma_trimmed_start(s.drop_first());
        let longer = seq![s[0]] + before;
        assert(s =~= seq![s[0]] + s.drop_first());
        assert(seq![s[0]] + (before + trimmed_start(s)) =~= longer + trimmed_start(s));
        longer
    } else {
        assert(s =~= seq![] + s);
        seq![]
    }
}

proof fn lemma_trimmed_end(s: Seq<char>) -> (after: Seq<char>)
    ensures
        s == trimmed_end(s) + after,
        after.all(|c: char| white_space(c)),
        trimmed_end(s).len() > 0 ==> !white_space(trimmed_end(s).last()),
    decreases s.len(),
{
    if s.len() > 0 && white_space(s.last()) {
        let after = lemma_trimmed_end(s.drop_last());
        let longer = after.push(s.last());
        assert(s =~= s.drop_last().push(s.last()));
        assert((trimmed_end(s) + after).push(s.last()) =~= trimmed_end(s) + longer);
        longer
    } else {
        assert(s =~= s + seq![]);
        seq![]
    }
}

} // verus!
