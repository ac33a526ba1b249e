//! What holds of the library as a whole.

use crate::cache;
use crate::cache::CachedCatalog;
use crate::catalog;
use crate::catalog::{StratagemCatalog, CURRENT_STRATAGEMS_SECTION, MISSION_STRATAGEMS_SECTION};
use crate::extract;
use crate::page;
use crate::text;
use crate::wiki;
use crate::wiki::{ApiOutcome, PageOutcome};
use vstd::prelude::*;
use vstd::seq_lib::lemma_flatten_concat;

verus! {

/// A word has a character and no white space.
pub open spec fn is_word(word: Seq<char>) -> bool {
    word.len() > 0 && text::is_solid(word)
}

/// All of `parts` are words.
pub open spec fn all_words(parts: Seq<Seq<char>>) -> bool {
    forall|i: int| 0 <= i < parts.len() ==> is_word(#[trigger] parts[i])
}

proof fn lemma_word_length_is_solid(content: Seq<char>)
    ensures
        text::word_length(content) <= content.len(),
        text::is_solid(content.take(text::word_length(content) as int)),
    decreases content.len(),
{
    if content.len() > 0 && !text::white_space(content[0]) {
        let rest = content.skip(1);
        lemma_word_length_is_solid(rest);
        let word = content.take(text::word_length(content) as int);
        let tail = rest.take(text::word_length(rest) as int);
        assert forall|i: int| 0 <= i < word.len() implies !text::white_space(
            #[trigger] word[i],
        ) by {
            if i > 0 {
                assert(word[i] == tail[i - 1]);
            }
        }
    }
}

/// The words of a text are words: none is empty and none holds white space.
pub proof fn law_words_are_words(content: Seq<char>)
    ensures
        all_words(text::words(content)),
    decreases content.len(),
{
    if content.len() > 0 {
        if text::white_space(content[0]) {
            law_words_are_words(content.skip(1));
        } else {
            lemma_word_length_is_solid(content);
            let length = text::word_length(content) as int;
            law_words_are_words(content.skip(length));
            let rest = text::words(content.skip(length));
            let all = text::words(content);
            assert(all == seq![content.take(length)] + rest);
            assert forall|i: int| 0 <= i < all.len() implies is_word(#[trigger] all[i]) by {
                if i > 0 {
                    assert(all[i] == rest[i - 1]);
                }
            }
        }
    }
}

/// The characters of `content` that are no white space.
pub open spec fn solid_characters(content: Seq<char>) -> Seq<char> {
    content.filter(|c: char| !text::white_space(c))
}

proof fn lemma_solid_characters_of_solid(content: Seq<char>)
    requires
        text::is_solid(content),
    ensures
        solid_characters(content) == content,
    decreases content.len(),
{
    reveal(Seq::filter);
    if content.len() > 0 {
        let start = content.drop_last();
        assert forall|i: int| 0 <= i < start.len() implies !text::white_space(
            #[trigger] start[i],
        ) by {
            assert(start[i] == content[i]);
        }
        lemma_solid_characters_of_solid(start);
        assert(!text::white_space(content.last()));
        assert(start.push(content.last()) == content);
    }
}

/// The words of a text are its characters but for the white space, in their
/// order.
pub proof fn law_words_keep_characters(content: Seq<char>)
    ensures
        text::words(content).flatten() == solid_characters(content),
    decreases content.len(),
{
    let solid = |c: char| !text::white_space(c);
    if content.len() == 0 {
        reveal(Seq::filter);
    } else if text::white_space(content[0]) {
        let rest = content.skip(1);
        law_words_keep_characters(rest);
        Seq::filter_distributes_over_add(seq![content[0]], rest, solid);
        assert(seq![content[0]] + rest == content);
        seq![content[0]].lemma_all_neg_filter_empty(solid);
        assert(Seq::<char>::empty() + rest.filter(solid) == rest.filter(solid));
    } else {
        lemma_word_length_is_solid(content);
        let length = text::word_length(content) as int;
        let word = content.take(length);
        let rest = content.skip(length);
        law_words_keep_characters(rest);
        lemma_solid_characters_of_solid(word);
        Seq::filter_distributes_over_add(word, rest, solid);
        assert(word + rest == content);
        assert(text::words(content).drop_first() == text::words(rest));
    }
}

/// Words that are joined by spaces are the words of the result.
pub proof fn law_joined_words(parts: Seq<Seq<char>>)
    requires
        all_words(parts),
    ensures
        text::words(text::joined(parts, " "@)) == parts,
    decreases parts.len(),
{
    reveal_strlit(" ");
    if parts.len() == 1 {
        text::lemma_first_word(parts[0], Seq::empty());
        assert(parts[0] + Seq::<char>::empty() == parts[0]);
        assert(text::words(parts[0]) == parts);
    } else if parts.len() > 1 {
        let rest = parts.skip(1);
        assert forall|i: int| 0 <= i < rest.len() implies is_word(#[trigger] rest[i]) by {
            assert(rest[i] == parts[i + 1]);
        }
        law_joined_words(rest);
        let tail = " "@ + text::joined(rest, " "@);
        assert(text::joined(parts, " "@) == parts[0] + tail);
        text::lemma_first_word(parts[0], tail);
        assert(tail.skip(1) == text::joined(rest, " "@));
        assert(text::words(tail) == rest);
        assert(seq![parts[0]] + rest == parts);
    } else {
        assert(text::words(text::joined(parts, " "@)) == parts);
    }
}

/// Normalizing white space a second time changes nothing.
pub proof fn law_normalized_twice(content: Seq<char>)
    ensures
        text::words(text::normalized(content)) == text::words(content),
        text::normalized(text::normalized(content)) == text::normalized(content),
{
    law_words_are_words(content);
    law_joined_words(text::words(content));
}

/// Every white space of `content` is one space between two characters that are
/// none.
pub open spec fn is_normal(content: Seq<char>) -> bool {
    forall|i: int|
        0 <= i < content.len() && text::white_space(#[trigger] content[i]) ==> {
            &&& content[i] == ' '
            &&& 0 < i < content.len() - 1
            &&& !text::white_space(content[i - 1])
            &&& !text::white_space(content[i + 1])
        }
}

proof fn lemma_joined_words_are_normal(parts: Seq<Seq<char>>)
    requires
        all_words(parts),
    ensures
        is_normal(text::joined(parts, " "@)),
        parts.len() > 0 ==> text::joined(parts, " "@).len() > 0 && !text::white_space(
            text::joined(parts, " "@)[0],
        ),
    decreases parts.len(),
{
    reveal_strlit(" ");
    let whole = text::joined(parts, " "@);
    if parts.len() > 1 {
        let rest = parts.skip(1);
        assert forall|i: int| 0 <= i < rest.len() implies is_word(#[trigger] rest[i]) by {
            assert(rest[i] == parts[i + 1]);
        }
        lemma_joined_words_are_normal(rest);
        let tail = text::joined(rest, " "@);
        let first = parts[0];
        assert(is_word(first));
        let n = first.len() as int;
        assert(whole == first + " "@ + tail);
        assert forall|i: int| 0 <= i < whole.len() && text::white_space(#[trigger] whole[i]) implies {
            &&& whole[i] == ' '
            &&& 0 < i < whole.len() - 1
            &&& !text::white_space(whole[i - 1])
            &&& !text::white_space(whole[i + 1])
        } by {
            if i < n {
                assert(whole[i] == first[i]);
            } else if i == n {
                assert(whole[i - 1] == first[n - 1]);
                assert(whole[i + 1] == tail[0]);
            } else {
                let k = i - n - 1;
                assert(whole[i] == tail[k]);
                assert(whole[i - 1] == tail[k - 1]);
                assert(whole[i + 1] == tail[k + 1]);
            }
        }
        assert(whole[0] == first[0]);
    } else if parts.len() == 1 {
        assert(is_word(parts[0]));
        assert(whole == parts[0]);
    }
}

/// A normalized text has no white space at its ends and none inside but single
/// spaces between its words.
pub proof fn law_normalized_is_normal(content: Seq<char>)
    ensures
        is_normal(text::normalized(content)),
        text::normalized(content).len() == 0 <==> text::words(content).len() == 0,
{
    law_words_are_words(content);
    lemma_joined_words_are_normal(text::words(content));
}

/// A full address: one with a scheme of the web.
pub open spec fn is_full_url(url: Seq<char>) -> bool {
    text::begins(url, "http://"@) || text::begins(url, "https://"@)
}

/// Whatever path the wiki gives, its address is a full one.
pub proof fn law_wiki_url_is_full(path: Seq<char>)
    ensures
        is_full_url(wiki::wiki_url(path)),
{
    reveal_strlit("https://");
    reveal_strlit("https:");
    reveal_strlit("//");
    reveal_strlit("https://helldivers.wiki.gg");
    let url = wiki::wiki_url(path);
    if text::begins(path, "http://"@) || text::begins(path, "https://"@) {
    } else if text::begins(path, "//"@) {
        assert(path.subrange(0, 2)[0] == '/');
        assert(path.subrange(0, 2)[1] == '/');
        assert(url.subrange(0, 8) == "https://"@);
    } else {
        assert(url.subrange(0, 8) == "https://"@);
    }
}

/// The address of a full address is that address.
pub proof fn law_wiki_url_twice(path: Seq<char>)
    ensures
        is_full_url(path) ==> wiki::wiki_url(path) == path,
        wiki::wiki_url(wiki::wiki_url(path)) == wiki::wiki_url(path),
{
    law_wiki_url_is_full(path);
}

/// A challenge of the wiki's proxy is never used as a page of the wiki,
/// whichever request it answers.
pub proof fn law_challenge_is_rejected(html: String)
    requires
        wiki::is_challenge(html@),
    ensures
        wiki::api_rejection(ApiOutcome::Html(html)) is Some,
        wiki::page_rejection(PageOutcome::Html(html)) is Some,
{
}

/// Each of `parts` with its upper case ASCII letters in lower case.
pub open spec fn all_lowercase(parts: Seq<Seq<char>>) -> Seq<Seq<char>> {
    parts.map_values(|part: Seq<char>| text::lowercase(part))
}

proof fn lemma_lower_keeps_word_length(content: Seq<char>)
    ensures
        text::word_length(text::lowercase(content)) == text::word_length(content),
    decreases content.len(),
{
    if content.len() > 0 {
        lemma_lower_keeps_word_length(content.skip(1));
        assert(text::lowercase(content).skip(1) == text::lowercase(content.skip(1)));
    }
}

/// Letter case does not change where words begin and end.
pub proof fn lemma_words_in_lower_case(content: Seq<char>)
    ensures
        text::words(text::lowercase(content)) == all_lowercase(text::words(content)),
    decreases content.len(),
{
    let lowered = text::lowercase(content);
    if content.len() == 0 {
        assert(text::words(lowered) == all_lowercase(text::words(content)));
    } else if text::white_space(content[0]) {
        lemma_words_in_lower_case(content.skip(1));
        assert(lowered.skip(1) == text::lowercase(content.skip(1)));
    } else {
        lemma_lower_keeps_word_length(content);
        lemma_word_length_is_solid(content);
        let length = text::word_length(content) as int;
        lemma_words_in_lower_case(content.skip(length));
        assert(lowered.take(length) == text::lowercase(content.take(length)));
        assert(lowered.skip(length) == text::lowercase(content.skip(length)));
        assert(text::words(lowered) == all_lowercase(text::words(content)));
    }
}

/// Joining and turning into lower case can be done in either order.
pub proof fn lemma_joined_in_lower_case(parts: Seq<Seq<char>>)
    ensures
        text::joined(all_lowercase(parts), " "@) == text::lowercase(text::joined(parts, " "@)),
    decreases parts.len(),
{
    reveal_strlit(" ");
    let lowered = all_lowercase(parts);
    if parts.len() > 1 {
        lemma_joined_in_lower_case(parts.skip(1));
        assert(lowered.skip(1) == all_lowercase(parts.skip(1)));
        assert(text::lowercase(parts[0] + " "@ + text::joined(parts.skip(1), " "@))
            == text::lowercase(parts[0]) + " "@ + text::lowercase(
            text::joined(parts.skip(1), " "@),
        ));
    } else {
        assert(text::joined(lowered, " "@) == text::lowercase(text::joined(parts, " "@)));
    }
}

/// The case of ASCII letters does not matter in the alternative text of an
/// arrow, in a word that names a direction, in a title and in a summary.
pub proof fn law_case_does_not_matter(
    left: Seq<char>,
    right: Seq<char>,
    cell: page::CellView,
)
    requires
        text::lowercase(left) == text::lowercase(right),
    ensures
        extract::alt_direction(left) == extract::alt_direction(right),
        extract::word_direction(left) == extract::word_direction(right),
        extract::titled(cell, left) == extract::titled(cell, right),
        extract::summary_section(left) == extract::summary_section(right),
{
    lemma_words_in_lower_case(left);
    lemma_words_in_lower_case(right);
    lemma_joined_in_lower_case(text::words(left));
    lemma_joined_in_lower_case(text::words(right));
    assert(text::lowercase(text::normalized(left)).len() == text::normalized(left).len());
    assert(text::lowercase(text::normalized(right)).len() == text::normalized(right).len());
    assert(text::uppercase(left) == text::uppercase(right)) by {
        assert(left.len() == text::lowercase(left).len());
        assert(right.len() == text::lowercase(right).len());
        assert forall|i: int| 0 <= i < left.len() implies text::upper(left[i]) == text::upper(
            right[i],
        ) by {
            assert(text::lowercase(left)[i] == text::lower(left[i]));
            assert(text::lowercase(right)[i] == text::lower(right[i]));
        }
    }
}

/// The white space of a summary does not matter.
pub proof fn law_summary_white_space_does_not_matter(summary: Seq<char>)
    ensures
        extract::summary_section(text::normalized(summary)) == extract::summary_section(summary),
        extract::summary_section(summary) is None <==> text::words(summary).len() == 0,
{
    law_normalized_twice(summary);
    law_normalized_is_normal(summary);
}

proof fn lemma_filter_map_all<A, B>(
    items: Seq<A>,
    f: spec_fn(A) -> Option<B>,
    holds: spec_fn(B) -> bool,
)
    requires
        forall|a: A| #[trigger] f(a) is Some ==> holds(f(a)->0),
    ensures
        forall|i: int|
            0 <= i < items.filter_map(f).len() ==> holds(#[trigger] items.filter_map(f)[i]),
        items.filter_map(f).len() <= items.len(),
    decreases items.len(),
{
    if items.len() > 0 {
        let n = items.len() - 1;
        lemma_filter_map_all(items.take(n), f, holds);
        items.lemma_filter_map_take_succ(f, n);
        assert(items.take(n + 1) == items);
    }
}

proof fn lemma_flatten_all<A>(parts: Seq<Seq<A>>, holds: spec_fn(A) -> bool)
    requires
        forall|i: int, j: int|
            0 <= i < parts.len() && 0 <= j < parts[i].len() ==> holds(#[trigger] parts[i][j]),
    ensures
        forall|i: int| 0 <= i < parts.flatten().len() ==> holds(#[trigger] parts.flatten()[i]),
    decreases parts.len(),
{
    if parts.len() > 0 {
        let rest = parts.drop_first();
        assert forall|i: int, j: int|
            0 <= i < rest.len() && 0 <= j < rest[i].len() implies holds(#[trigger] rest[i][j]) by {
            assert(rest[i][j] == parts[i + 1][j]);
        }
        lemma_flatten_all(rest, holds);
        assert forall|i: int| 0 <= i < parts.flatten().len() implies holds(
            #[trigger] parts.flatten()[i],
        ) by {
            if i < parts[0].len() {
                assert(parts.flatten()[i] == parts[0][i]);
            } else {
                assert(parts.flatten()[i] == rest.flatten()[i - parts[0].len()]);
            }
        }
    }
}

/// A step of a command: one of the four directions.
pub open spec fn is_direction(step: Seq<char>) -> bool {
    step == "UP"@ || step == "DOWN"@ || step == "LEFT"@ || step == "RIGHT"@
}

/// A command that can be entered: it has a step, and each is a direction.
pub open spec fn is_command(command: Seq<Seq<char>>) -> bool {
    &&& command.len() > 0
    &&& forall|i: int| 0 <= i < command.len() ==> is_direction(#[trigger] command[i])
}

/// The item is filed as its section asks: under the section itself for the
/// stratagems of a mission, else under the text of a summary.
pub open spec fn is_filed(section: Seq<char>, category: Seq<char>) -> bool {
    ||| section == MISSION_STRATAGEMS_SECTION@ && category == MISSION_STRATAGEMS_SECTION@
    ||| section == CURRENT_STRATAGEMS_SECTION@ && category.len() > 0 && text::normalized(category)
        == category
}

/// An item as extraction makes it.
pub open spec fn is_extracted(item: catalog::StratagemView) -> bool {
    &&& item.id.len() == 0
    &&& is_filed(item.section, item.category)
    &&& item.name.len() > 0
    &&& text::normalized(item.name) == item.name
    &&& item.icon_url.len() == 0 || is_full_url(item.icon_url)
    &&& is_command(item.command)
}

/// The directions that a cell gives are directions.
pub proof fn law_cell_command(cell: page::CellView)
    ensures
        forall|i: int|
            0 <= i < extract::cell_command(cell).len() ==> is_direction(
                #[trigger] extract::cell_command(cell)[i],
            ),
{
    let holds = |step: Seq<char>| is_direction(step);
    let by_image = |image: page::ImageView| extract::image_direction(image);
    let by_word = |word: Seq<char>| extract::word_direction(word);
    assert(forall|image: page::ImageView| #[trigger]
        by_image(image) is Some ==> holds(by_image(image)->0));
    assert(forall|word: Seq<char>| #[trigger] by_word(word) is Some ==> holds(by_word(word)->0));
    let words = text::words(extract::spelled_out(extract::shown_text(cell.texts)));
    lemma_filter_map_all(cell.images, by_image, holds);
    lemma_filter_map_all(words, by_word, holds);
    let command = extract::cell_command(cell);
    assert forall|i: int| 0 <= i < command.len() implies is_direction(#[trigger] command[i]) by {
        assert(holds(command[i]));
    }
}

/// What a table lists in a section is extracted as [`is_extracted`] says, and
/// each row below the headers lists one item at most.
pub proof fn law_table_stratagems(
    rows: Seq<Seq<page::CellView>>,
    section: Seq<char>,
    category: Seq<char>,
)
    requires
        is_filed(section, category),
    ensures
        forall|i: int|
            0 <= i < extract::table_stratagems(rows, section, category).len() ==> is_extracted(
                #[trigger] extract::table_stratagems(rows, section, category)[i],
            ),
        rows.len() > 0 ==> extract::table_stratagems(rows, section, category).len() < rows.len(),
{
    if rows.len() > 0 {
        let columns = extract::Columns::of(rows[0]);
        let listed = |row: Seq<page::CellView>|
            extract::row_stratagem(row, columns, section, category);
        let holds = |item: catalog::StratagemView| is_extracted(item);
        assert forall|row: Seq<page::CellView>| #[trigger] listed(row) is Some implies holds(
            listed(row)->0,
        ) by {
            let name_cell = row[columns.name];
            law_normalized_twice(text::joined(name_cell.texts, " "@));
            if name_cell.link_texts is Some {
                law_normalized_twice(text::joined(name_cell.link_texts->0, " "@));
            }
            let icon_cell = row[columns.icon];
            if extract::image_url(icon_cell) is Some {
                law_wiki_url_is_full(extract::image_source(icon_cell.images[0])->0);
            }
            law_cell_command(row[columns.command]);
        }
        lemma_filter_map_all(rows.skip(1), listed, holds);
        let items = extract::table_stratagems(rows, section, category);
        assert(items == rows.skip(1).filter_map(listed));
        assert forall|i: int| 0 <= i < items.len() implies is_extracted(#[trigger] items[i]) by {
            assert(holds(items[i]));
        }
    }
}

/// What a block lists is extracted as [`is_extracted`] says.
pub proof fn law_block_stratagems(block: page::BlockView)
    ensures
        forall|i: int|
            0 <= i < extract::block_stratagems(block).len() ==> is_extracted(
                #[trigger] extract::block_stratagems(block)[i],
            ),
{
    if block.summary_texts is Some {
        let summary = extract::shown_text(block.summary_texts->0);
        if extract::summary_section(summary) is Some {
            let section = extract::summary_section(summary)->0;
            let category = extract::block_category(section, summary);
            law_normalized_twice(text::joined(block.summary_texts->0, " "@));
            assert(is_filed(section, category));
            let holds = |item: catalog::StratagemView| is_extracted(item);
            let parts = block.tables.map_values(
                |rows: Seq<Seq<page::CellView>>|
                    extract::listed_stratagems(
                        rows,
                        section,
                        extract::block_category(section, summary),
                    ),
            );
            assert forall|i: int, j: int|
                0 <= i < parts.len() && 0 <= j < parts[i].len() implies holds(
                #[trigger] parts[i][j],
            ) by {
                law_table_stratagems(block.tables[i], section, category);
            }
            lemma_flatten_all(parts, holds);
            let items = extract::block_stratagems(block);
            assert(items == parts.flatten());
            assert forall|i: int| 0 <= i < items.len() implies is_extracted(
                #[trigger] items[i],
            ) by {
                assert(holds(items[i]));
            }
        }
    }
}

/// Every item that a page lists has a section, the category that this asks for,
/// a name, a command of directions, a full address for its icon or none, and no
/// id yet.
pub proof fn law_page_stratagems(blocks: Seq<page::BlockView>)
    ensures
        forall|i: int|
            0 <= i < extract::page_stratagems(blocks).len() ==> is_extracted(
                #[trigger] extract::page_stratagems(blocks)[i],
            ),
{
    let holds = |item: catalog::StratagemView| is_extracted(item);
    let parts = blocks.map_values(|block: page::BlockView| extract::block_stratagems(block));
    assert forall|i: int, j: int|
        0 <= i < parts.len() && 0 <= j < parts[i].len() implies holds(#[trigger] parts[i][j]) by {
        law_block_stratagems(blocks[i]);
    }
    lemma_flatten_all(parts, holds);
    let items = extract::page_stratagems(blocks);
    assert forall|i: int| 0 <= i < items.len() implies is_extracted(#[trigger] items[i]) by {
        assert(holds(items[i]));
    }
}

/// The items of a page are those of its blocks, one block after the other.
pub proof fn law_blocks_in_order(left: Seq<page::BlockView>, right: Seq<page::BlockView>)
    ensures
        extract::page_stratagems(left + right) == extract::page_stratagems(left)
            + extract::page_stratagems(right),
{
    let listed = |block: page::BlockView| extract::block_stratagems(block);
    assert((left + right).map_values(listed) == left.map_values(listed) + right.map_values(listed));
    lemma_flatten_concat(left.map_values(listed), right.map_values(listed));
}

/// The columns of a table that has the required ones are those that show the
/// three titles.
pub proof fn law_required_columns(rows: Seq<Seq<page::CellView>>)
    requires
        extract::has_required_columns(rows),
    ensures
        extract::first_titled(rows[0], "Icon"@, extract::Columns::of(rows[0]).icon),
        extract::first_titled(rows[0], "Name"@, extract::Columns::of(rows[0]).name),
        extract::first_titled(rows[0], "Stratagem Code"@, extract::Columns::of(rows[0]).command),
        extract::Columns::of(rows[0]).fit(rows[0]),
{
}

proof fn lemma_column_index_of_wider(
    header: Seq<page::CellView>,
    wider: Seq<page::CellView>,
    title: Seq<char>,
)
    requires
        header.is_prefix_of(wider),
        extract::column_index(header, title) is Some,
    ensures
        extract::column_index(wider, title) == extract::column_index(header, title),
{
    let index = extract::column_index(header, title)->0;
    assert(extract::first_titled(header, title, index));
    assert forall|i: int| 0 <= i < header.len() implies wider[i] == header[i] by {
        assert(header == wider.subrange(0, header.len() as int));
    }
    assert forall|i: int| 0 <= i < index implies !extract::titled(#[trigger] wider[i], title) by {
        assert(wider[i] == header[i]);
    }
    assert(extract::first_titled(wider, title, index));
    let found = extract::column_index(wider, title)->0;
    assert(extract::first_titled(wider, title, found));
    assert(found == index);
}

proof fn lemma_filter_map_pointwise<A, B>(left: Seq<A>, right: Seq<A>, f: spec_fn(A) -> Option<B>)
    requires
        left.len() == right.len(),
        forall|i: int| 0 <= i < left.len() ==> f(#[trigger] left[i]) == f(right[i]),
    ensures
        left.filter_map(f) == right.filter_map(f),
    decreases left.len(),
{
    if left.len() > 0 {
        let n = left.len() - 1;
        assert forall|i: int| 0 <= i < n implies f(#[trigger] left.take(n)[i]) == f(
            right.take(n)[i],
        ) by {
            assert(left.take(n)[i] == left[i]);
        }
        lemma_filter_map_pointwise(left.take(n), right.take(n), f);
        left.lemma_filter_map_take_succ(f, n);
        right.lemma_filter_map_take_succ(f, n);
        assert(left.take(n + 1) == left);
        assert(right.take(n + 1) == right);
    } else {
        assert(left == right);
    }
}

/// Further columns behind those of a list of stratagems do not change what it
/// lists.
pub proof fn law_extra_columns(
    rows: Seq<Seq<page::CellView>>,
    wider: Seq<Seq<page::CellView>>,
    section: Seq<char>,
    category: Seq<char>,
)
    requires
        extract::has_required_columns(rows),
        wider.len() == rows.len(),
        forall|i: int|
            0 <= i < rows.len() ==> (#[trigger] rows[i]).is_prefix_of(wider[i])
                && extract::Columns::of(rows[0]).fit(rows[i]),
    ensures
        extract::has_required_columns(wider),
        extract::listed_stratagems(wider, section, category) == extract::listed_stratagems(
            rows,
            section,
            category,
        ),
{
    assert(rows[0].is_prefix_of(wider[0]));
    lemma_column_index_of_wider(rows[0], wider[0], "Icon"@);
    lemma_column_index_of_wider(rows[0], wider[0], "Name"@);
    lemma_column_index_of_wider(rows[0], wider[0], "Stratagem Code"@);
    let columns = extract::Columns::of(rows[0]);
    law_required_columns(rows);
    let listed = |row: Seq<page::CellView>| extract::row_stratagem(row, columns, section, category);
    assert forall|i: int| 0 <= i < rows.skip(1).len() implies listed(#[trigger] rows.skip(1)[i])
        == listed(wider.skip(1)[i]) by {
        let row = rows[i + 1];
        let wide = wider[i + 1];
        assert(row.is_prefix_of(wide));
        assert(row == wide.subrange(0, row.len() as int));
        assert(wide[columns.icon] == row[columns.icon]);
        assert(wide[columns.name] == row[columns.name]);
        assert(wide[columns.command] == row[columns.command]);
    }
    lemma_filter_map_pointwise(rows.skip(1), wider.skip(1), listed);
}

/// Items that cover both sections still do with others before and behind them,
/// and are two at least.
pub proof fn law_completeness(
    items: Seq<catalog::StratagemView>,
    others: Seq<catalog::StratagemView>,
)
    requires
        catalog::is_complete(items),
    ensures
        items.len() >= 2,
        catalog::is_complete(items + others),
        catalog::is_complete(others + items),
{
    reveal_strlit("Current Stratagems");
    reveal_strlit("Mission Stratagems");
    assert(CURRENT_STRATAGEMS_SECTION@[0] != MISSION_STRATAGEMS_SECTION@[0]);
    let i = choose|i: int|
        0 <= i < items.len() && (#[trigger] items[i]).section == CURRENT_STRATAGEMS_SECTION@;
    let j = choose|j: int|
        0 <= j < items.len() && (#[trigger] items[j]).section == MISSION_STRATAGEMS_SECTION@;
    assert(i != j);
    assert((items + others)[i] == items[i]);
    assert((items + others)[j] == items[j]);
    assert((others + items)[others.len() + i] == items[i]);
    assert((others + items)[others.len() + j] == items[j]);
}

/// Filling in missing ids keeps the ids that are there, all else of every item,
/// and their order, and leaves none missing but of a command that spells
/// nothing; doing it again changes nothing.
pub proof fn law_missing_ids(before: catalog::CatalogView)
    ensures
        ({
            let after = catalog::with_missing_ids(before);
            &&& after.updated_at_unix == before.updated_at_unix
            &&& after.source_url == before.source_url
            &&& after.items.len() == before.items.len()
            &&& forall|i: int|
                #![trigger after.items[i]]
                0 <= i < before.items.len() ==> {
                    &&& after.items[i] == catalog::StratagemView {
                        id: after.items[i].id,
                        ..before.items[i]
                    }
                    &&& before.items[i].id.len() > 0 ==> after.items[i].id == before.items[i].id
                    &&& after.items[i].id.len() == 0 ==> text::joined(
                        after.items[i].command,
                        ","@,
                    ).len() == 0
                }
            &&& catalog::with_missing_ids(after) == after
        }),
{
    let after = catalog::with_missing_ids(before);
    assert(catalog::with_missing_ids(after).items == after.items);
    assert forall|i: int| 0 <= i < before.items.len() && (
    #[trigger] after.items[i]).id.len() == 0 implies text::joined(
        after.items[i].command,
        ","@,
    ).len() == 0 by {
        catalog::law_ids_tell_commands_apart(before.items[i].command, before.items[i].command);
    }
}

/// A cached catalog whose items all have ids is loaded as it is, and the cache
/// is left alone.
pub proof fn law_complete_ids_are_loaded_unchanged(cached: StratagemCatalog)
    requires
        !catalog::lacks_ids(cached@),
    ensures
        cache::catalog_to_use(CachedCatalog::Valid(cached)) == cached@,
        !cache::needs_saving(CachedCatalog::Valid(cached)),
{
    assert(catalog::with_missing_ids(cached@).items == cached@.items);
}

/// What a load gave and saved, the next load gives again.
pub proof fn law_load_twice(cached: CachedCatalog, saved: StratagemCatalog)
    requires
        saved@ == cache::catalog_to_use(cached),
    ensures
        cache::catalog_to_use(CachedCatalog::Valid(saved)) == saved@,
{
    match cached {
        CachedCatalog::Valid(first) => {
            law_missing_ids(first@);
        },
        _ => {
            assert(catalog::with_missing_ids(saved@).items == saved@.items);
        },
    }
}

/// A command of directions is told apart by its id: no direction holds a comma.
pub proof fn law_commands_are_separable(command: Seq<Seq<char>>)
    requires
        is_command(command),
    ensures
        catalog::is_separable(command),
        text::joined(command, ","@).len() > 0,
{
    reveal_strlit("UP");
    reveal_strlit("DOWN");
    reveal_strlit("LEFT");
    reveal_strlit("RIGHT");
    assert(is_direction(command[0]));
    assert(command[0].len() > 0);
    assert forall|i: int| 0 <= i < command.len() implies !(#[trigger] command[i]).contains(',') by {
        assert(is_direction(command[i]));
    }
}

} // verus!
