//! Strict validation and allowlist filtering for tmux session names.
//!
//! Only sessions whose names begin with [`ALLOWED_PREFIX`] may ever be listed
//! or accessed. On top of the prefix there is a conservative character
//! allowlist, so that a name can never be mistaken for a tmux target specifier
//! (`:` / `.`), and never holds white space or control characters.

use vstd::prelude::*;

use crate::text;

verus! {

/// Hard allowlist prefix. It is not configurable: nothing is exposed unless its
/// owner opted in by naming it `public-insecure-…`.
pub const ALLOWED_PREFIX: &'static str = "public-insecure-";

/// Maximum accepted session-name length, in bytes.
pub const MAX_NAME_LEN: usize = 128;

/// The characters that a session name may hold: ASCII letters and digits, `-`
/// and `_`.
pub open spec fn name_char(c: char) -> bool {
    ||| '0' <= c <= '9'
    ||| 'A' <= c <= 'Z'
    ||| 'a' <= c <= 'z'
    ||| c == '-'
    ||| c == '_'
}

/// The session names that may be exposed.
pub open spec fn allowed_name(name: Seq<char>) -> bool {
    &&& ALLOWED_PREFIX@.is_prefix_of(name)
    &&& name.len() > ALLOWED_PREFIX@.len()
    &&& vstd::utf8::encode_utf8(name).len() <= MAX_NAME_LEN
    &&& forall|i: int| 0 <= i < name.len() ==> name_char(#[trigger] name[i])
}

/// Returns `true` if `name` is a session name that may be exposed: it begins
/// with [`ALLOWED_PREFIX`], has at least one character after the prefix, is no
/// longer than [`MAX_NAME_LEN`] bytes, and consists solely of ASCII
/// alphanumerics, `-` and `_`.
pub fn is_allowed_session(name: &str) -> (allowed: bool)
    ensures
        allowed == allowed_name(name@),
{
    if name.as_bytes().len() > MAX_NAME_LEN {
        return false;
    }
    let chars = text::chars_of(name);
    let prefix = text::chars_of(ALLOWED_PREFIX);
    if !text::starts_with(&chars, &prefix) {
        return false;
    }
    if chars.len() == prefix.len() {
        return false;
    }
    let mut i: usize = 0;
    while i < chars.len()
        invariant
            i <= chars@.len(),
            chars@ == name@,
            forall|k: int| 0 <= k < i ==> name_char(#[trigger] chars@[k]),
        decreases chars@.len() - i,
    {
        let c = chars[i];
        if !(('0' <= c && c <= '9') || ('A' <= c && c <= 'Z') || ('a' <= c && c <= 'z') || c == '-'
            || c == '_') {
            return false;
        }
        i += 1;
    }
    true
}

/// A value that stands for a raw session name.
pub trait RawName {
    /// The name's characters.
    spec fn name(&self) -> Seq<char>;

    /// The name as a string slice.
    fn as_name(&self) -> (s: &str)
        ensures
            s@ == self.name(),
    ;
}

impl RawName for &str {
    open spec fn name(&self) -> Seq<char> {
        (*self)@
    }

    fn as_name(&self) -> (s: &str) {
        self
    }
}

impl RawName for String {
    open spec fn name(&self) -> Seq<char> {
        self@
    }

    fn as_name(&self) -> (s: &str) {
        self.as_str()
    }
}

/// The names that a list of raw names holds, in order.
pub open spec fn names_of<S: RawName>(list: Seq<S>) -> Seq<Seq<char>> {
    list.map_values(|s: S| s.name())
}

/// The allowed names of a list, in its order.
pub open spec fn allowed_of(list: Seq<Seq<char>>) -> Seq<Seq<char>> {
    list.filter(|n: Seq<char>| allowed_name(n))
}

/// Filters a list of raw session names down to those that are allowed,
/// preserving input order.
pub fn filter_allowed<S: RawName>(names: Vec<S>) -> (out: Vec<String>)
    ensures
        text::texts(out@) == allowed_of(names_of(names@)),
{
    let mut out: Vec<String> = Vec::new();
    let mut i: usize = 0;
    proof {
        reveal(Seq::filter);
        assert(names_of(names@).take(0) =~= seq![]);
        assert(text::texts(out@) =~= seq![]);
    }
    while i < names.len()
        invariant
            i <= names@.len(),
            text::texts(out@) == allowed_of(names_of(names@).take(i as int)),
        decreases names@.len() - i,
    {
        let name = names[i].as_name();
        let ghost before = out@;
        let ghost all = names_of(names@);
        proof {
            reveal(Seq::filter);
            assert(all.take(i + 1).drop_last() =~= all.take(i as int));
        }
        if is_allowed_session(name) {
            out.push(name.to_owned());
            assert(text::texts(out@) =~= text::texts(before).push(name@));
        }
        i += 1;
    }
    assert(names_of(names@).take(i as int) =~= names_of(names@));
    out
}

/// Whether a name with the prefix is allowed depends on what follows the prefix: it
/// is allowed if that is between 1 and 112 characters long and each of them is an
/// ASCII digit, an ASCII letter, `-` or `_`, and not otherwise.
pub proof fn every_well_formed_suffix_is_allowed(suffix: Seq<char>)
    ensures
        allowed_name("public-insecure-"@ + suffix) <==> {
            &&& 1 <= suffix.len() <= 112
            &&& forall|i: int|
                0 <= i < suffix.len() ==> {
                    ||| '0' <= #[trigger] suffix[i] <= '9'
                    ||| 'A' <= suffix[i] <= 'Z'
                    ||| 'a' <= suffix[i] <= 'z'
                    ||| suffix[i] == '-'
                    ||| suffix[i] == '_'
                }
        },
{
    reveal_strlit("public-insecure-");
    let prefix = "public-insecure-"@;
    let name = prefix + suffix;
    assert(prefix.is_prefix_of(name)) by {
        assert(name.subrange(0, prefix.len() as int) =~= prefix);
    }
    assert forall|i: int| 0 <= i < prefix.len() implies name_char(#[trigger] prefix[i]) by {
    }
    assert forall|i: int| 0 <= i < suffix.len() implies suffix[i] == #[trigger] name[i + 16] by {
    }
    if allowed_name(name) {
        allowed_name_is_short(name);
        assert forall|i: int| 0 <= i < suffix.len() implies name_char(#[trigger] suffix[i]) by {
            assert(name_char(name[i + 16]));
        }
    }
    if forall|i: int| 0 <= i < suffix.len() ==> name_char(#[trigger] suffix[i]) {
        assert forall|i: int| 0 <= i < name.len() implies name_char(#[trigger] name[i]) by {
            if i < 16 {
                assert(name[i] == prefix[i]);
            } else {
                assert(name[i] == suffix[i - 16]);
            }
        }
        vstd::utf8::is_ascii_chars_encode_utf8(name);
    }
}

/// A name that does not begin with the prefix is not allowed.
pub proof fn names_without_the_prefix_are_refused(name: Seq<char>)
    requires
        name.len() < 16 || name.take(16) != "public-insecure-"@,
    ensures
        !allowed_name(name),
{
    reveal_strlit("public-insecure-");
}

/// The decision on a name is the same wherever it is taken: it is about the
/// characters of the name alone.
pub proof fn decision_is_about_the_characters(name: &str, suffix: Seq<char>, allowed: bool)
    requires
        call_ensures(is_allowed_session, (name,), allowed),
    ensures
        allowed == allowed_name(name@),
        name@ == "public-insecure-"@ + suffix ==> (allowed <==> {
            &&& 1 <= suffix.len() <= 112
            &&& forall|i: int|
                0 <= i < suffix.len() ==> {
                    ||| '0' <= #[trigger] suffix[i] <= '9'
                    ||| 'A' <= suffix[i] <= 'Z'
                    ||| 'a' <= suffix[i] <= 'z'
                    ||| suffix[i] == '-'
                    ||| suffix[i] == '_'
                }
        }),
{
    every_well_formed_suffix_is_allowed(suffix);
}

/// What must never reach a tmux argument through a session name: white space,
/// control characters, everything outside ASCII, shell metacharacters, path
/// separators and dots, and the `:` and `.` of tmux targets.
pub open spec fn hazardous(c: char) -> bool {
    ||| text::white_space(c)
    ||| c < ' '
    ||| c >= '\u{7f}'
    ||| c == ':'
    ||| c == '.'
    ||| c == '/'
    ||| c == '\\'
    ||| c == ';'
    ||| c == '|'
    ||| c == '&'
    ||| c == '$'
    ||| c == '('
    ||| c == ')'
    ||| c == '`'
    ||| c == '<'
    ||| c == '>'
    ||| c == '"'
    ||| c == '\''
    ||| c == '*'
    ||| c == '?'
    ||| c == '['
    ||| c == ']'
    ||| c == '{'
    ||| c == '}'
    ||| c == '!'
    ||| c == '#'
    ||| c == '~'
    ||| c == '%'
    ||| c == '='
}

/// An allowed name holds no hazardous character.
pub proof fn allowed_name_is_harmless(name: Seq<char>, c: char)
    requires
        allowed_name(name),
        hazardous(c),
    ensures
        !name.contains(c),
{
}

/// An allowed name cannot be read as a command-line flag: it does not begin
/// with a dash.
pub proof fn allowed_name_is_no_flag(name: Seq<char>)
    requires
        allowed_name(name),
    ensures
        name.len() > 0,
        name[0] != '-',
{
    reveal_strlit("public-insecure-");
    assert(name.subrange(0, ALLOWED_PREFIX@.len() as int)[0] == name[0]);
}

/// An allowed name takes one byte per character, and between 17 and 128 of
/// them.
pub proof fn allowed_name_is_short(name: Seq<char>)
    requires
        allowed_name(name),
    ensures
        vstd::utf8::encode_utf8(name).len() == name.len(),
        17 <= name.len() <= 128,
{
    reveal_strlit("public-insecure-");
    vstd::utf8::is_ascii_chars_encode_utf8(name);
}

/// The filter lets through allowed names only, and each allowed name of the
/// list.
pub proof fn filter_is_sound_and_complete(list: Seq<Seq<char>>)
    ensures
        forall|i: int|
            0 <= i < allowed_of(list).len() ==> allowed_name(#[trigger] allowed_of(list)[i]),
        forall|n: Seq<char>|
            #[trigger] allowed_of(list).contains(n) <==> list.contains(n) && allowed_name(n),
    decreases list.len(),
{
    reveal(Seq::filter);
    if list.len() > 0 {
        let init = list.drop_last();
        filter_is_sound_and_complete(init);
        assert(list =~= init.push(list.last()));
        assert forall|n: Seq<char>| #[trigger] allowed_of(list).contains(n) <==> list.contains(n)
            && allowed_name(n) by {
            assert(list.contains(n) <==> init.contains(n) || n == list.last()) by {
                if init.contains(n) {
                    let k = init.index_of(n);
                    assert(list[k] == n);
                }
                if n == list.last() {
                    assert(list[list.len() - 1] == n);
                }
            }
            let kept = allowed_of(init);
            if allowed_name(list.last()) {
                let out = allowed_of(list);
                assert(out == kept.push(list.last()));
                if kept.contains(n) {
                    let k = kept.index_of(n);
                    assert(out[k] == n);
                }
                if n == list.last() {
                    assert(out[out.len() - 1] == n);
                }
            }
        }
    }
}

/// A list of one name is let through if the name is allowed, and nothing is
/// otherwise.
pub proof fn filter_of_one_name(name: Seq<char>)
    ensures
        allowed_of(seq![]) == Seq::<Seq<char>>::empty(),
        allowed_name(name) ==> allowed_of(seq![name]) == seq![name],
        !allowed_name(name) ==> allowed_of(seq![name]) == Seq::<Seq<char>>::empty(),
{
    reveal_with_fuel(Seq::filter, 2);
    assert(seq![name].drop_last() =~= seq![]);
}

/// What a list of raw names holds is the text of each entry, in its place.
pub proof fn raw_names_are_their_texts(slices: Seq<&str>, strings: Seq<String>)
    ensures
        names_of(slices).len() == slices.len(),
        forall|i: int| 0 <= i < slices.len() ==> #[trigger] names_of(slices)[i] == slices[i]@,
        names_of(strings).len() == strings.len(),
        forall|i: int| 0 <= i < strings.len() ==> #[trigger] names_of(strings)[i] == strings[i]@,
{
}

/// Filtering strings gives the texts of the strings whose text is allowed.
pub proof fn strings_are_filtered_by_their_texts(names: Vec<String>, kept: Vec<String>)
    requires
        call_ensures(filter_allowed::<String>, (names,), kept),
    ensures
        text::texts(kept@) == allowed_of(text::texts(names@)),
{
    assert(names_of(names@) =~= text::texts(names@));
}

/// Filtering a second time changes nothing.
pub proof fn filter_is_idempotent(list: Seq<Seq<char>>)
    ensures
        allowed_of(allowed_of(list)) == allowed_of(list),
    decreases list.len(),
{
    reveal(Seq::filter);
    if list.len() > 0 {
        filter_is_idempotent(list.drop_last());
        let kept = allowed_of(list.drop_last());
        if allowed_name(list.last()) {
            assert(kept.push(list.last()).drop_last() =~= kept);
        }
    }
}

/// The names that two lists let through, one after the other, are the names
/// that the two lists together let through: order is preserved.
pub proof fn filter_preserves_order(first: Seq<Seq<char>>, second: Seq<Seq<char>>)
    ensures
        allowed_of(first + second) == allowed_of(first) + allowed_of(second),
{
    Seq::filter_distributes_over_add(first, second, |n: Seq<char>| allowed_name(n));
}

} // verus!
