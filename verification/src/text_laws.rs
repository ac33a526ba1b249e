//! What the text operations are for, stated of characters.

use crate::text;
use vstd::prelude::*;

verus! {

/// `content` holds `part`: it is something, then `part`, then something.
pub open spec fn holds(content: Seq<char>, part: Seq<char>) -> bool {
    exists|before: Seq<char>, after: Seq<char>| content == #[trigger] (before + part + after)
}

/// A list of strings holds as many texts as strings, each that of its string.
pub proof fn law_views(strings: Seq<String>)
    ensures
        text::views(strings).len() == strings.len(),
        forall|i: int|
            0 <= i < strings.len() ==> #[trigger] text::views(strings)[i] == strings[i]@,
{
}

/// White space is what Unicode lists as such, by code point.
pub proof fn law_white_space(c: char)
    ensures
        text::white_space(c) <==> (9 <= c as u32 <= 13 || c as u32 == 0x20 || c as u32 == 0x85
            || c as u32 == 0xa0 || c as u32 == 0x1680 || 0x2000 <= c as u32 <= 0x200a || c as u32
            == 0x2028 || c as u32 == 0x2029 || c as u32 == 0x202f || c as u32 == 0x205f || c as u32
            == 0x3000),
{
}

/// Only the case of ASCII letters changes, each letter to that of the other
/// case, and no character is added or lost.
pub proof fn law_letter_case(content: Seq<char>)
    ensures
        text::lowercase(content).len() == content.len(),
        text::uppercase(content).len() == content.len(),
        forall|i: int|
            0 <= i < content.len() ==> #[trigger] text::lowercase(content)[i] as u32 == (if 65
                <= content[i] as u32 <= 90 {
                content[i] as u32 + 32
            } else {
                content[i] as int
            }),
        forall|i: int|
            0 <= i < content.len() ==> #[trigger] text::uppercase(content)[i] as u32 == (if 97
                <= content[i] as u32 <= 122 {
                content[i] as u32 - 32
            } else {
                content[i] as int
            }),
{
}

/// A text occurs in another exactly where the other is made of it with something
/// before and something after, and begins it where nothing stands before.
pub proof fn law_occurrence(content: Seq<char>, part: Seq<char>)
    ensures
        text::occurs(content, part) <==> holds(content, part),
        text::begins(content, part) <==> part.is_prefix_of(content),
{
    if text::occurs(content, part) {
        let at = choose|at: int| text::occurs_at(content, part, at);
        let before = content.take(at);
        let after = content.skip(at + part.len());
        assert(content == before + part + after);
    }
    if holds(content, part) {
        let (before, after) = choose|before: Seq<char>, after: Seq<char>|
            content == #[trigger] (before + part + after);
        let at = before.len() as int;
        assert(content.subrange(at, at + part.len()) == part);
        assert(text::occurs_at(content, part, at));
    }
    if part.is_prefix_of(content) {
        assert(content.subrange(0, part.len() as int) == part);
    }
}

/// Every white space parts words: the words of a text are those before it and
/// those behind it, however many there are.
pub proof fn law_words_are_parted(before: Seq<char>, c: char, after: Seq<char>)
    requires
        text::white_space(c),
    ensures
        text::words(before + seq![c] + after) == text::words(before) + text::words(after),
    decreases before.len(),
{
    let whole = before + seq![c] + after;
    let rest = seq![c] + after;
    if before.len() == 0 {
        assert(whole == rest);
        assert(rest.skip(1) == after);
        assert(text::words(before) + text::words(after) == text::words(after));
    } else if text::white_space(before[0]) {
        law_words_are_parted(before.skip(1), c, after);
        assert(whole.skip(1) == before.skip(1) + seq![c] + after);
    } else {
        let n = first_white_space(before);
        let word = before.take(n);
        let tail = before.skip(n);
        assert(before == word + tail);
        text::lemma_first_word(word, tail);
        if n == before.len() {
            assert(whole == word + rest);
            text::lemma_first_word(word, rest);
            assert(rest.skip(1) == after);
            assert(tail.len() == 0);
            assert(text::words(before) + text::words(after) == seq![word] + text::words(after));
        } else {
            law_words_are_parted(tail, c, after);
            assert(whole == word + (tail + seq![c] + after));
            text::lemma_first_word(word, tail + seq![c] + after);
            assert(text::words(before) + text::words(after) == seq![word] + (text::words(tail)
                + text::words(after)));
        }
    }
}

/// The position of the first white space of `content`, or its length.
proof fn first_white_space(content: Seq<char>) -> (n: int)
    ensures
        0 <= n <= content.len(),
        n < content.len() ==> text::white_space(content[n]),
        text::is_solid(content.take(n)),
        content.len() > 0 && !text::white_space(content[0]) ==> n > 0,
    decreases content.len(),
{
    if content.len() == 0 || text::white_space(content[0]) {
        0
    } else {
        let m = first_white_space(content.skip(1));
        let word = content.take(m + 1);
        assert forall|i: int| 0 <= i < word.len() implies !text::white_space(
            #[trigger] word[i],
        ) by {
            if i > 0 {
                assert(word[i] == content.skip(1).take(m)[i - 1]);
            }
        }
        m + 1
    }
}

/// A text of characters that are no white space is one word, and the empty text
/// has none.
pub proof fn law_one_word(word: Seq<char>)
    requires
        forall|i: int| 0 <= i < word.len() ==> !text::white_space(#[trigger] word[i]),
    ensures
        text::words(word) == if word.len() > 0 {
            seq![word]
        } else {
            Seq::empty()
        },
{
    if word.len() > 0 {
        text::lemma_first_word(word, Seq::empty());
        assert(word + Seq::<char>::empty() == word);
    }
    assert(text::words(word) == if word.len() > 0 {
        seq![word]
    } else {
        Seq::empty()
    });
}

/// Joining one part more adds the separator and that part, however many there
/// are; one part is joined to itself, and none to nothing.
pub proof fn law_joined(parts: Seq<Seq<char>>, part: Seq<char>, separator: Seq<char>)
    ensures
        text::joined(Seq::empty(), separator).len() == 0,
        text::joined(seq![part], separator) == part,
        parts.len() > 0 ==> text::joined(parts.push(part), separator) == text::joined(
            parts,
            separator,
        ) + separator + part,
    decreases parts.len(),
{
    let all = parts.push(part);
    if parts.len() == 1 {
        assert(all.skip(1) == seq![part]);
        assert(text::joined(all.skip(1), separator) == part);
    } else if parts.len() > 1 {
        law_joined(parts.skip(1), part, separator);
        assert(all.skip(1) == parts.skip(1).push(part));
        assert(text::joined(all, separator) == text::joined(parts, separator) + separator + part);
    }
}

/// The words of texts joined by a space are the words of each of them, one text
/// after the other.
pub proof fn law_words_of_joined(parts: Seq<Seq<char>>)
    ensures
        text::words(text::joined(parts, " "@)) == parts.map_values(
            |part: Seq<char>| text::words(part),
        ).flatten(),
    decreases parts.len(),
{
    reveal_strlit(" ");
    let f = |part: Seq<char>| text::words(part);
    if parts.len() > 0 {
        let start = parts.drop_last();
        let last = parts.last();
        assert(parts == start.push(last));
        law_words_of_joined(start);
        law_joined(start, last, " "@);
        start.map_values(f).lemma_flatten_push(text::words(last));
        assert(parts.map_values(f) == start.map_values(f).push(text::words(last)));
        if start.len() > 0 {
            assert(" "@ == seq![' ']);
            law_words_are_parted(text::joined(start, " "@), ' ', last);
        } else {
            assert(parts == seq![last]);
            assert(start.map_values(f).flatten() + text::words(last) == text::words(last));
        }
    } else {
        assert(parts.map_values(f).flatten() == text::words(text::joined(parts, " "@)));
    }
}

} // verus!
