//! Plain text operations on sequences of characters.

use vstd::prelude::*;

verus! {

/// `String::push` appends the given character.
pub assume_specification[ String::push ](string: &mut String, ch: char)
    ensures
        final(string)@ == old(string)@.push(ch),
;

/// The characters that carry the Unicode property `White_Space`.
pub open spec fn white_space(c: char) -> bool {
    ||| '\u{9}' <= c && c <= '\u{d}'
    ||| c == '\u{20}'
    ||| c == '\u{85}'
    ||| c == '\u{a0}'
    ||| c == '\u{1680}'
    ||| '\u{2000}' <= c && c <= '\u{200a}'
    ||| c == '\u{2028}'
    ||| c == '\u{2029}'
    ||| c == '\u{202f}'
    ||| c == '\u{205f}'
    ||| c == '\u{3000}'
}

/// Tells whether `c` carries the Unicode property `White_Space`.
pub fn is_white_space(c: char) -> (result: bool)
    ensures
        result == white_space(c),
{
    ('\u{9}' <= c && c <= '\u{d}') || c == '\u{20}' || c == '\u{85}' || c == '\u{a0}' || c
        == '\u{1680}' || ('\u{2000}' <= c && c <= '\u{200a}') || c == '\u{2028}' || c == '\u{2029}'
        || c == '\u{202f}' || c == '\u{205f}' || c == '\u{3000}'
}

/// The characters of `text` as a vector.
pub fn chars_of(text: &str) -> (chars: Vec<char>)
    ensures
        chars@ == text@,
{
    let mut chars: Vec<char> = Vec::new();
    for c in it: text.chars()
        invariant
            chars@ == it.seq().take(it.index()),
            it.seq() == text@,
    {
        chars.push(c);
    }
    chars
}

/// The string made of `chars`.
pub fn string_of(chars: &[char]) -> (text: String)
    ensures
        text@ == chars@,
{
    let mut text = String::new();
    let mut i: usize = 0;
    while i < chars.len()
        invariant
            i <= chars@.len(),
            text@ == chars@.take(i as int),
        decreases chars@.len() - i,
    {
        text.push(chars[i]);
        i += 1;
    }
    text
}


/// The texts that `strings` hold.
pub open spec fn views(strings: Seq<String>) -> Seq<Seq<char>> {
    strings.map_values(|string: String| string@)
}

/// Number of characters before the first white space of `text`.
pub open spec fn word_length(text: Seq<char>) -> nat
    decreases text.len(),
{
    if text.len() == 0 || white_space(text[0]) {
        0
    } else {
        1 + word_length(text.skip(1))
    }
}

/// The words of `text`: its maximal runs of characters that are no white space.
pub open spec fn words(text: Seq<char>) -> Seq<Seq<char>>
    decreases text.len(),
    via words_decreases
{
    if text.len() == 0 {
        Seq::empty()
    } else if white_space(text[0]) {
        words(text.skip(1))
    } else {
        let length = word_length(text) as int;
        seq![text.take(length)] + words(text.skip(length))
    }
}

#[via_fn]
proof fn words_decreases(text: Seq<char>) {
    lemma_word_length_bounds(text);
}

proof fn lemma_word_length_bounds(text: Seq<char>)
    ensures
        word_length(text) <= text.len(),
        text.len() > 0 && !white_space(text[0]) ==> word_length(text) > 0,
    decreases text.len(),
{
    if text.len() > 0 && !white_space(text[0]) {
        lemma_word_length_bounds(text.skip(1));
    }
}

/// No character of `text` is white space.
pub open spec fn is_solid(text: Seq<char>) -> bool {
    forall|i: int| 0 <= i < text.len() ==> !white_space(#[trigger] text[i])
}

proof fn lemma_word_length_of_solid(word: Seq<char>, rest: Seq<char>)
    requires
        is_solid(word),
        rest.len() == 0 || white_space(rest[0]),
    ensures
        word_length(word + rest) == word.len(),
    decreases word.len(),
{
    if word.len() == 0 {
        assert(word + rest == rest);
    } else {
        let tail = word.skip(1);
        assert forall|i: int| 0 <= i < tail.len() implies !white_space(#[trigger] tail[i]) by {
            assert(tail[i] == word[i + 1]);
        }
        lemma_word_length_of_solid(tail, rest);
        assert((word + rest).skip(1) == tail + rest);
        assert((word + rest)[0] == word[0]);
    }
}

/// A run of characters up to a white space or the end is the first word.
pub proof fn lemma_first_word(word: Seq<char>, rest: Seq<char>)
    requires
        word.len() > 0,
        is_solid(word),
        rest.len() == 0 || white_space(rest[0]),
    ensures
        words(word + rest) == seq![word] + words(rest),
{
    lemma_word_length_of_solid(word, rest);
    let text = word + rest;
    assert(text[0] == word[0]);
    assert(text.take(word.len() as int) == word);
    assert(text.skip(word.len() as int) == rest);
}

/// The words of `text`, in their order.
pub fn split_words(text: &str) -> (result: Vec<String>)
    ensures
        views(result@) == words(text@),
{
    let chars = chars_of(text);
    let mut result: Vec<String> = Vec::new();
    let mut word = String::new();
    let mut i: usize = 0;
    assert(word@ + chars@.skip(0) == text@);
    assert(views(result@) + words(text@) == words(text@));
    while i < chars.len()
        invariant
            i <= chars@.len(),
            chars@ == text@,
            is_solid(word@),
            words(text@) == views(result@) + words(word@ + chars@.skip(i as int)),
        decreases chars@.len() - i,
    {
        let c = chars[i];
        let ghost rest = chars@.skip(i as int);
        let ghost tail = chars@.skip(i + 1);
        assert(rest.skip(1) == tail);
        if is_white_space(c) {
            if !word.as_str().is_empty() {
                proof {
                    lemma_first_word(word@, rest);
                    assert(views(result@.push(word)) == views(result@).push(word@));
                    assert(views(result@) + (seq![word@] + words(rest)) == views(result@.push(word))
                        + words(rest));
                }
                result.push(word);
                word = String::new();
            } else {
                assert(word@ + rest == rest);
            }
            assert(word@ + tail == tail);
        } else {
            assert(word@.push(c) + tail == word@ + rest);
            word.push(c);
        }
        i += 1;
    }
    let ghost rest = chars@.skip(i as int);
    if !word.as_str().is_empty() {
        proof {
            lemma_first_word(word@, rest);
            assert(views(result@.push(word)) == views(result@).push(word@));
            assert(views(result@) + (seq![word@] + words(rest)) == views(result@.push(word)) + words(
                rest,
            ));
            assert(views(result@.push(word)) + words(rest) == views(result@.push(word)));
        }
        result.push(word);
    } else {
        assert(word@ + rest == rest);
        assert(views(result@) + words(rest) == views(result@));
    }
    result
}

/// The `parts` one after the other, with `separator` between each two of them.
pub open spec fn joined(parts: Seq<Seq<char>>, separator: Seq<char>) -> Seq<char>
    decreases parts.len(),
{
    if parts.len() == 0 {
        Seq::empty()
    } else if parts.len() == 1 {
        parts[0]
    } else {
        parts[0] + separator + joined(parts.skip(1), separator)
    }
}

/// Joins `parts` with `separator` between each two of them.
pub fn join(parts: &[String], separator: &str) -> (result: String)
    ensures
        result@ == joined(views(parts@), separator@),
{
    let mut result = String::new();
    let mut i: usize = 0;
    let ghost texts = views(parts@);
    assert(texts.skip(0) == texts);
    assert(result@ + joined(texts, separator@) == joined(texts, separator@));
    while i < parts.len()
        invariant
            i <= parts@.len(),
            texts == views(parts@),
            joined(texts, separator@) == result@ + joined(texts.skip(i as int), separator@),
        decreases parts@.len() - i,
    {
        let ghost before = result@;
        let ghost rest = texts.skip(i as int);
        assert(rest[0] == parts@[i as int]@);
        assert(rest.skip(1) == texts.skip(i + 1));
        result.append(parts[i].as_str());
        if i + 1 < parts.len() {
            result.append(separator);
            assert(before + (rest[0] + separator@ + joined(rest.skip(1), separator@)) == result@
                + joined(rest.skip(1), separator@));
        } else {
            assert(result@ + joined(rest.skip(1), separator@) == result@);
        }
        i += 1;
    }
    assert(result@ + joined(texts.skip(i as int), separator@) == result@);
    result
}

/// The words of `text` with one space between each two of them.
pub open spec fn normalized(text: Seq<char>) -> Seq<char> {
    joined(words(text), " "@)
}

/// Removes the white space at both ends of `value` and turns each inner run of
/// white space into one space.
pub fn normalize_whitespace(value: &str) -> (result: String)
    ensures
        result@ == normalized(value@),
{
    let parts = split_words(value);
    join(parts.as_slice(), " ")
}

/// The lower case letter of an upper case ASCII letter; any other character itself.
pub open spec fn lower(c: char) -> char {
    if 'A' <= c && c <= 'Z' {
        ((c as u8) + 32) as u8 as char
    } else {
        c
    }
}

/// The upper case letter of a lower case ASCII letter; any other character itself.
pub open spec fn upper(c: char) -> char {
    if 'a' <= c && c <= 'z' {
        ((c as u8) - 32) as u8 as char
    } else {
        c
    }
}

/// `text` with its upper case ASCII letters in lower case.
pub open spec fn lowercase(text: Seq<char>) -> Seq<char> {
    text.map_values(|c: char| lower(c))
}

/// `text` with its lower case ASCII letters in upper case.
pub open spec fn uppercase(text: Seq<char>) -> Seq<char> {
    text.map_values(|c: char| upper(c))
}

/// Turns the upper case ASCII letters of `text` into lower case.
pub fn to_lowercase(text: &str) -> (result: String)
    ensures
        result@ == lowercase(text@),
{
    let mut result = String::new();
    for c in it: text.chars()
        invariant
            it.seq() == text@,
            result@ == lowercase(text@).take(it.index()),
    {
        let lowered = if 'A' <= c && c <= 'Z' {
            (c as u8 + 32) as char
        } else {
            c
        };
        result.push(lowered);
    }
    result
}

/// Turns the lower case ASCII letters of `text` into upper case.
pub fn to_uppercase(text: &str) -> (result: String)
    ensures
        result@ == uppercase(text@),
{
    let mut result = String::new();
    for c in it: text.chars()
        invariant
            it.seq() == text@,
            result@ == uppercase(text@).take(it.index()),
    {
        let raised = if 'a' <= c && c <= 'z' {
            (c as u8 - 32) as char
        } else {
            c
        };
        result.push(raised);
    }
    result
}

/// Tells whether the two texts hold the same characters.
pub fn same_text(left: &str, right: &str) -> (result: bool)
    ensures
        result == (left@ == right@),
{
    let left_chars = chars_of(left);
    let right_chars = chars_of(right);
    if left_chars.len() != right_chars.len() {
        return false;
    }
    let mut i: usize = 0;
    while i < left_chars.len()
        invariant
            i <= left_chars@.len(),
            left_chars@ == left@,
            right_chars@ == right@,
            left_chars@.len() == right_chars@.len(),
            left@.take(i as int) == right@.take(i as int),
        decreases left_chars@.len() - i,
    {
        if left_chars[i] != right_chars[i] {
            return false;
        }
        assert(left@.take(i + 1) == left@.take(i as int).push(left@[i as int]));
        assert(right@.take(i + 1) == right@.take(i as int).push(right@[i as int]));
        i += 1;
    }
    assert(left@.take(i as int) == left@);
    assert(right@.take(i as int) == right@);
    true
}

/// Tells whether the two texts are the same but for the case of ASCII letters.
pub fn eq_ignore_ascii_case(left: &str, right: &str) -> (result: bool)
    ensures
        result == (lowercase(left@) == lowercase(right@)),
{
    let left_lower = to_lowercase(left);
    let right_lower = to_lowercase(right);
    same_text(left_lower.as_str(), right_lower.as_str())
}

/// `pattern` stands in `text` from position `at` on.
pub open spec fn occurs_at(text: Seq<char>, pattern: Seq<char>, at: int) -> bool {
    &&& 0 <= at
    &&& at + pattern.len() <= text.len()
    &&& text.subrange(at, at + pattern.len()) == pattern
}

/// `pattern` stands somewhere in `text`.
pub open spec fn occurs(text: Seq<char>, pattern: Seq<char>) -> bool {
    exists|at: int| #[trigger] occurs_at(text, pattern, at)
}

/// `text` begins with `prefix`.
pub open spec fn begins(text: Seq<char>, prefix: Seq<char>) -> bool {
    occurs_at(text, prefix, 0)
}

/// Tells whether `pattern` stands in `text` from position `at` on.
fn stands_at(text: &[char], pattern: &[char], at: usize) -> (result: bool)
    requires
        at <= text@.len(),
    ensures
        result == occurs_at(text@, pattern@, at as int),
{
    let length = text.len();
    if length - at < pattern.len() {
        return false;
    }
    let ghost part = text@.subrange(at as int, at + pattern@.len());
    let mut i: usize = 0;
    while i < pattern.len()
        invariant
            i <= pattern@.len(),
            length == text@.len(),
            at + pattern@.len() <= length,
            part == text@.subrange(at as int, at + pattern@.len()),
            forall|j: int| 0 <= j < i ==> part[j] == pattern@[j],
        decreases pattern@.len() - i,
    {
        if text[at + i] != pattern[i] {
            assert(part[i as int] != pattern@[i as int]);
            return false;
        }
        i += 1;
    }
    assert(part == pattern@);
    true
}

/// Tells whether `text` begins with `prefix`.
pub fn starts_with(text: &str, prefix: &str) -> (result: bool)
    ensures
        result == begins(text@, prefix@),
{
    let chars = chars_of(text);
    let pattern = chars_of(prefix);
    stands_at(chars.as_slice(), pattern.as_slice(), 0)
}

/// Tells whether `pattern` stands somewhere in `text`.
pub fn contains(text: &str, pattern: &str) -> (result: bool)
    ensures
        result == occurs(text@, pattern@),
{
    let chars = chars_of(text);
    let searched = chars_of(pattern);
    let mut at: usize = 0;
    while at < chars.len()
        invariant
            at <= chars@.len(),
            chars@ == text@,
            searched@ == pattern@,
            forall|j: int| 0 <= j < at ==> !#[trigger] occurs_at(text@, pattern@, j),
        decreases chars@.len() - at,
    {
        if stands_at(chars.as_slice(), searched.as_slice(), at) {
            return true;
        }
        at += 1;
    }
    stands_at(chars.as_slice(), searched.as_slice(), at)
}

} // verus!
