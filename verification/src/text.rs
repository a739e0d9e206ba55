//! Key text: conversion between strings and character vectors, and the
//! normal form of a key, in which the dashes are gone and every letter is
//! uppercase.

use vstd::prelude::*;
use vstd::utf8::is_ascii_chars;

verus! {

/// `String::push` of the standard library appends one character to the end of
/// the string and leaves the characters before it as they were.
pub assume_specification[ String::push ](s: &mut String, ch: char)
    ensures
        final(s)@ == old(s)@.push(ch),
;

/// What `str::to_uppercase` of the standard library makes of a text: its
/// uppercase form by the Unicode tables. It depends on the text alone.
pub uninterp spec fn unicode_uppercase(s: Seq<char>) -> Seq<char>;

/// `str::to_uppercase` of the standard library returns the uppercase form of
/// the text as a new string. The result is only named.
#[verifier::external_body]
fn to_uppercase(s: &str) -> (upper: String)
    ensures
        upper@ == unicode_uppercase(s@),
{
    s.to_uppercase()
}

/// `s` with every dash taken out.
pub open spec fn without_dashes(s: Seq<char>) -> Seq<char>
    decreases s.len(),
{
    if s.len() == 0 {
        s
    } else if s.last() == '-' {
        without_dashes(s.drop_last())
    } else {
        without_dashes(s.drop_last()).push(s.last())
    }
}

/// The ASCII uppercase form of a character: `a` to `z` become `A` to `Z`,
/// every other character stays as it is.
pub open spec fn ascii_upper(c: char) -> char {
    if 'a' <= c && c <= 'z' {
        (c as int - 32) as char
    } else {
        c
    }
}

/// `s` with every character replaced by its ASCII uppercase form.
pub open spec fn ascii_uppercase(s: Seq<char>) -> Seq<char> {
    Seq::new(s.len(), |i: int| ascii_upper(s[i]))
}

/// The uppercase form of a text: character by character for ASCII text, the
/// Unicode uppercase form for any other.
pub open spec fn uppercased(s: Seq<char>) -> Seq<char> {
    if is_ascii_chars(s) {
        ascii_uppercase(s)
    } else {
        unicode_uppercase(s)
    }
}

/// The normal form of a key as it was typed: dashes removed, then uppercase.
pub open spec fn normalized(key: Seq<char>) -> Seq<char> {
    uppercased(without_dashes(key))
}

/// No character of `s` is a dash.
pub open spec fn dash_free(s: Seq<char>) -> bool {
    forall|i: int| 0 <= i < s.len() ==> #[trigger] s[i] != '-'
}

/// Removing dashes works piece by piece.
pub proof fn lemma_without_dashes_concat(a: Seq<char>, b: Seq<char>)
    ensures
        without_dashes(a + b) == without_dashes(a) + without_dashes(b),
    decreases b.len(),
{
    if b.len() > 0 {
        lemma_without_dashes_concat(a, b.drop_last());
        assert((a + b).drop_last() =~= a + b.drop_last());
    }
}

/// A text without dashes is left as it is.
pub proof fn lemma_without_dashes_clean(s: Seq<char>)
    requires
        dash_free(s),
    ensures
        without_dashes(s) == s,
    decreases s.len(),
{
    if s.len() > 0 {
        lemma_without_dashes_clean(s.drop_last());
    }
}

/// What is left after removing dashes holds none, is no longer than the text
/// was, and is ASCII where the text was.
pub proof fn lemma_without_dashes_shape(s: Seq<char>)
    ensures
        dash_free(without_dashes(s)),
        without_dashes(s).len() <= s.len(),
        is_ascii_chars(s) ==> is_ascii_chars(without_dashes(s)),
    decreases s.len(),
{
    if s.len() > 0 {
        lemma_without_dashes_shape(s.drop_last());
    }
}

/// The characters of a string, in order.
pub fn chars_of(s: &str) -> (chars: Vec<char>)
    ensures
        chars@ == s@,
{
    let mut chars: Vec<char> = Vec::new();
    for c in it: s.chars()
        invariant
            it.seq() == s@,
            chars@ == it.seq().take(it.index() as int),
    {
        chars.push(c);
    }
    chars
}

/// The string that holds the given characters, in order.
pub fn string_of(chars: &Vec<char>) -> (s: String)
    ensures
        s@ == chars@,
{
    let mut s = String::new();
    let mut i: usize = 0;
    while i < chars.len()
        invariant
            i <= chars.len(),
            s@ == chars@.take(i as int),
        decreases chars.len() - i,
    {
        s.push(chars[i]);
        i = i + 1;
    }
    s
}

/// The ASCII uppercase form of a character: `a` to `z` become `A` to `Z`,
/// every other character stays as it is.
pub fn ascii_upper_char(c: char) -> (upper: char)
    ensures
        upper == ascii_upper(c),
{
    if 'a' <= c && c <= 'z' {
        ((c as u32 - 32) as u8) as char
    } else {
        c
    }
}

/// The uppercase form of a text. ASCII text is raised character by
/// character; any other text is handed to `str::to_uppercase`.
pub fn uppercase_text(text: &str) -> (upper: String)
    ensures
        upper@ == uppercased(text@),
{
    let mut raised = String::new();
    let mut plain = true;
    for c in it: text.chars()
        invariant
            it.seq() == text@,
            plain == is_ascii_chars(it.seq().take(it.index() as int)),
            plain ==> raised@ == ascii_uppercase(it.seq().take(it.index() as int)),
    {
        proof {
            assert(it.seq().take(it.index() + 1)[it.index() as int] == c);
        }
        if plain && c <= '\u{7f}' {
            raised.push(ascii_upper_char(c));
        } else {
            plain = false;
        }
    }
    proof {
        assert(text@.take(text@.len() as int) =~= text@);
    }
    if plain {
        raised
    } else {
        to_uppercase(text)
    }
}

/// Brings a key into its normal form: every dash is removed and what is left
/// is made uppercase. Nothing is checked here.
pub fn normalize_key(key: &str) -> (normal: String)
    ensures
        normal@ == normalized(key@),
{
    let mut kept = String::new();
    for c in it: key.chars()
        invariant
            it.seq() == key@,
            kept@ == without_dashes(it.seq().take(it.index() as int)),
    {
        proof {
            assert(it.seq().take(it.index() + 1).drop_last() =~= it.seq().take(
                it.index() as int,
            ));
        }
        if c != '-' {
            kept.push(c);
        }
    }
    proof {
        assert(key@.take(key@.len() as int) =~= key@);
    }
    uppercase_text(kept.as_str())
}

} // verus!
