//! What rows, tables, blocks and pages list: every complete row, once, in the
//! order of the page.

use crate::catalog;
use crate::catalog::Stratagem;
use crate::cell_laws;
use crate::document::Node;
use crate::extract;
use crate::laws;
use crate::page;
use crate::page_laws;
use crate::selection;
use crate::text;
use vstd::prelude::*;
use vstd::seq_lib::lemma_flatten_concat;

verus! {

/// The row has the three columns, a name and a command.
pub open spec fn is_complete_row(row: Seq<page::CellView>, columns: extract::Columns) -> bool {
    &&& columns.icon < row.len()
    &&& columns.name < row.len()
    &&& columns.command < row.len()
    &&& extract::cell_name(row[columns.name]).len() > 0
    &&& extract::cell_command(row[columns.command]).len() > 0
}

/// The item is what the row says, in the given section and category, without an
/// id.
pub open spec fn is_item_of_row(
    item: catalog::StratagemView,
    row: Seq<page::CellView>,
    columns: extract::Columns,
    section: Seq<char>,
    category: Seq<char>,
) -> bool {
    &&& item.id.len() == 0
    &&& item.section == section
    &&& item.category == category
    &&& item.name == extract::cell_name(row[columns.name])
    &&& item.command == extract::cell_command(row[columns.command])
    &&& extract::image_url(row[columns.icon]) is Some ==> item.icon_url == extract::image_url(
        row[columns.icon],
    )->0
    &&& extract::image_url(row[columns.icon]) is None ==> item.icon_url.len() == 0
}

/// A row lists a stratagem exactly where it is complete, and the stratagem is
/// what the row says.
pub proof fn law_row_stratagem(
    row: Seq<page::CellView>,
    columns: extract::Columns,
    section: Seq<char>,
    category: Seq<char>,
)
    ensures
        ({
            let listed = extract::row_stratagem(row, columns, section, category);
            &&& listed is Some <==> is_complete_row(row, columns)
            &&& listed is Some ==> is_item_of_row(listed->0, row, columns, section, category)
        }),
{
}

/// The items are those of the complete rows below the first, one for each, in
/// the order of the rows at `places`.
pub open spec fn are_items_of_rows(
    rows: Seq<Seq<page::CellView>>,
    columns: extract::Columns,
    section: Seq<char>,
    category: Seq<char>,
    places: Seq<int>,
    items: Seq<catalog::StratagemView>,
) -> bool {
    &&& selection::in_order(places, rows.len())
    &&& forall|i: int|
        0 <= i < rows.len() ==> (places.contains(i) <==> i > 0 && is_complete_row(
            #[trigger] rows[i],
            columns,
        ))
    &&& items.len() == places.len()
    &&& forall|k: int|
        0 <= k < items.len() ==> is_item_of_row(
            #[trigger] items[k],
            rows[places[k]],
            columns,
            section,
            category,
        )
}

/// A table lists one item for each complete row below its first, in the order of
/// the rows and however many there are, and nothing else.
pub proof fn law_items_of_table(
    rows: Seq<Seq<page::CellView>>,
    section: Seq<char>,
    category: Seq<char>,
)
    requires
        rows.len() > 0,
    ensures
        exists|columns: extract::Columns, places: Seq<int>|
            cell_laws::are_columns(rows[0], columns) && #[trigger] are_items_of_rows(
                rows,
                columns,
                section,
                category,
                places,
                extract::table_stratagems(rows, section, category),
            ),
{
    let columns = extract::Columns::of(rows[0]);
    cell_laws::law_columns(rows, rows[0]);
    let f = |row: Seq<page::CellView>| extract::row_stratagem(row, columns, section, category);
    let below = rows.skip(1);
    let found = selection::lemma_places(below, f);
    let items = extract::table_stratagems(rows, section, category);
    assert(items == below.filter_map(f));
    let places = found.map_values(|place: int| place + 1);
    assert forall|i: int| 0 <= i < rows.len() implies (places.contains(i) <==> i > 0
        && is_complete_row(#[trigger] rows[i], columns)) by {
        law_row_stratagem(rows[i], columns, section, category);
        if places.contains(i) {
            let k = choose|k: int| 0 <= k < places.len() && places[k] == i;
            assert(places[k] == found[k] + 1);
            assert(f(below[found[k]]) == Some(items[k]));
            assert(below[found[k]] == rows[i]);
        }
        if i > 0 && is_complete_row(rows[i], columns) {
            assert(below[i - 1] == rows[i]);
            assert(f(below[i - 1]) is Some);
            assert(found.contains(i - 1));
            let k = choose|k: int| 0 <= k < found.len() && found[k] == i - 1;
            assert(places[k] == i);
        }
    }
    assert forall|k: int| 0 <= k < items.len() implies is_item_of_row(
        #[trigger] items[k],
        rows[places[k]],
        columns,
        section,
        category,
    ) by {
        assert(f(below[found[k]]) == Some(items[k]));
        assert(rows[places[k]] == below[found[k]]);
        law_row_stratagem(rows[places[k]], columns, section, category);
    }
    assert(are_items_of_rows(rows, columns, section, category, places, items));
}

/// A table without rows below its first lists nothing; rows below others add
/// what they list behind what those list.
pub proof fn law_rows_in_order(
    rows: Seq<Seq<page::CellView>>,
    more: Seq<Seq<page::CellView>>,
    header: Seq<page::CellView>,
    section: Seq<char>,
    category: Seq<char>,
)
    ensures
        extract::table_stratagems(Seq::empty(), section, category).len() == 0,
        extract::table_stratagems(seq![header], section, category).len() == 0,
        extract::table_stratagems(seq![header] + rows + more, section, category)
            == extract::table_stratagems(seq![header] + rows, section, category)
            + extract::table_stratagems(seq![header] + more, section, category),
{
    let columns = extract::Columns::of(header);
    let f = |row: Seq<page::CellView>| extract::row_stratagem(row, columns, section, category);
    assert(seq![header].skip(1) == Seq::<Seq<page::CellView>>::empty());
    assert((seq![header] + rows).skip(1) == rows);
    assert((seq![header] + more).skip(1) == more);
    assert((seq![header] + rows + more).skip(1) == rows + more);
    selection::lemma_filter_map_add(rows, more, f);
}

/// One row lists one item where it is complete, and nothing otherwise.
pub proof fn law_one_row(
    header: Seq<page::CellView>,
    row: Seq<page::CellView>,
    section: Seq<char>,
    category: Seq<char>,
)
    ensures
        ({
            let columns = extract::Columns::of(header);
            let items = extract::table_stratagems(seq![header, row], section, category);
            &&& is_complete_row(row, columns) ==> items.len() == 1 && is_item_of_row(
                items[0],
                row,
                columns,
                section,
                category,
            )
            &&& !is_complete_row(row, columns) ==> items.len() == 0
        }),
{
    let columns = extract::Columns::of(header);
    let f = |row: Seq<page::CellView>| extract::row_stratagem(row, columns, section, category);
    let below = Seq::<Seq<page::CellView>>::empty();
    selection::lemma_filter_map_push(below, row, f);
    assert(seq![header, row].skip(1) == below.push(row));
    law_row_stratagem(row, columns, section, category);
}

/// The summary has the two words of the section of missions, in either case of
/// ASCII letters.
pub open spec fn is_mission_summary(words: Seq<Seq<char>>) -> bool {
    words.len() == 2 && text::lowercase(words[0]) == "mission"@ && text::lowercase(words[1])
        == "stratagems"@
}

proof fn lemma_mission_words(summary: Seq<char>)
    ensures
        text::lowercase(text::normalized(summary)) == text::lowercase("Mission Stratagems"@)
            <==> is_mission_summary(text::words(summary)),
{
    reveal_strlit("Mission Stratagems");
    reveal_strlit("mission stratagems");
    reveal_strlit("mission");
    reveal_strlit("stratagems");
    reveal_strlit(" ");
    let words = text::words(summary);
    let lowered = laws::all_lowercase(words);
    let target = seq!["mission"@, "stratagems"@];
    assert(text::lowercase("Mission Stratagems"@) == "mission stratagems"@);
    assert(target.skip(1) == seq!["stratagems"@]);
    assert(text::joined(target.skip(1), " "@) == "stratagems"@);
    assert(text::joined(target, " "@) == "mission stratagems"@);
    laws::lemma_joined_in_lower_case(words);
    assert(text::joined(lowered, " "@) == text::lowercase(text::normalized(summary)));
    assert forall|i: int| 0 <= i < target.len() implies laws::is_word(#[trigger] target[i]) by {
        assert(text::is_solid(target[i]));
    }
    laws::law_joined_words(target);
    laws::law_normalized_twice(summary);
    laws::lemma_words_in_lower_case(text::normalized(summary));
    assert(text::words(text::lowercase(text::normalized(summary))) == lowered);
    if text::lowercase(text::normalized(summary)) == "mission stratagems"@ {
        assert(lowered == target);
        assert(lowered[0] == text::lowercase(words[0]));
        assert(lowered[1] == text::lowercase(words[1]));
    }
    if is_mission_summary(words) {
        assert(lowered == target);
    }
}

/// A summary without words gives no section; that of the missions gives theirs,
/// and every other the current one.
pub proof fn law_summary_section(summary: Seq<char>)
    ensures
        text::words(summary).len() == 0 ==> extract::summary_section(summary) is None,
        is_mission_summary(text::words(summary)) ==> extract::summary_section(summary) == Some(
            "Mission Stratagems"@,
        ),
        text::words(summary).len() > 0 && !is_mission_summary(text::words(summary))
            ==> extract::summary_section(summary) == Some("Current Stratagems"@),
{
    laws::law_normalized_is_normal(summary);
    lemma_mission_words(summary);
}

/// The section of a block with the given texts of its summary.
pub open spec fn is_block_section(texts: Seq<Seq<char>>, section: Seq<char>) -> bool {
    section == if is_mission_summary(cell_laws::all_words_of(texts)) {
        "Mission Stratagems"@
    } else {
        "Current Stratagems"@
    }
}

/// The category of a block with the given texts of its summary: the section of
/// the missions, else the text that the summary shows.
pub open spec fn is_block_category(texts: Seq<Seq<char>>, category: Seq<char>) -> bool {
    category == if is_mission_summary(cell_laws::all_words_of(texts)) {
        "Mission Stratagems"@
    } else {
        extract::shown_text(texts)
    }
}

/// A block without a summary, or whose summary has no words, lists nothing.
pub proof fn law_block_without_summary(block: page::BlockView)
    requires
        block.summary_texts is None || cell_laws::all_words_of(block.summary_texts->0).len() == 0,
    ensures
        extract::block_stratagems(block).len() == 0,
{
    if block.summary_texts is Some {
        let texts = block.summary_texts->0;
        cell_laws::law_shown_text(texts);
        law_summary_section(extract::shown_text(texts));
    }
}

/// A block lists what its tables list, one table after the other: of a table
/// that shows all titles all that its rows list, of any other nothing. Its items
/// are of the section and the category that its summary gives.
pub proof fn law_tables_in_order(
    texts: Seq<Seq<char>>,
    left: Seq<Seq<Seq<page::CellView>>>,
    right: Seq<Seq<Seq<page::CellView>>>,
    table: Seq<Seq<page::CellView>>,
    section: Seq<char>,
    category: Seq<char>,
)
    requires
        cell_laws::all_words_of(texts).len() > 0,
        is_block_section(texts, section),
        is_block_category(texts, category),
    ensures
        extract::block_stratagems(
            page::BlockView { summary_texts: Some(texts), tables: Seq::empty() },
        ).len() == 0,
        extract::block_stratagems(
            page::BlockView { summary_texts: Some(texts), tables: left + right },
        ) == extract::block_stratagems(
            page::BlockView { summary_texts: Some(texts), tables: left },
        ) + extract::block_stratagems(
            page::BlockView { summary_texts: Some(texts), tables: right },
        ),
        extract::block_stratagems(
            page::BlockView { summary_texts: Some(texts), tables: seq![table] },
        ) == if cell_laws::shows_all_titles(table) {
            extract::table_stratagems(table, section, category)
        } else {
            Seq::empty()
        },
{
    reveal_strlit("Mission Stratagems");
    reveal_strlit("Current Stratagems");
    assert("Mission Stratagems"@[0] != "Current Stratagems"@[0]);
    let shown = extract::shown_text(texts);
    cell_laws::law_shown_text(texts);
    law_summary_section(shown);
    assert(extract::summary_section(shown) == Some(section));
    assert(extract::block_category(section, shown) == category);
    let f = |rows: Seq<Seq<page::CellView>>|
        extract::listed_stratagems(rows, section, extract::block_category(section, shown));
    assert((left + right).map_values(f) == left.map_values(f) + right.map_values(f));
    lemma_flatten_concat(left.map_values(f), right.map_values(f));
    cell_laws::law_columns(table, table[0]);
    let none = Seq::<Seq<catalog::StratagemView>>::empty();
    let part = extract::listed_stratagems(table, section, category);
    assert(Seq::<Seq<Seq<page::CellView>>>::empty().map_values(f) == none);
    none.lemma_flatten_push(part);
    assert(seq![table].map_values(f) == none.push(part));
    assert(none.flatten() + part == part);
}

/// A page lists what its blocks list, one block after the other.
pub proof fn law_page_of_blocks(
    left: Seq<page::BlockView>,
    right: Seq<page::BlockView>,
    block: page::BlockView,
)
    ensures
        extract::page_stratagems(Seq::empty()).len() == 0,
        extract::page_stratagems(left + right) == extract::page_stratagems(left)
            + extract::page_stratagems(right),
        extract::page_stratagems(seq![block]) == extract::block_stratagems(block),
{
    let f = |block: page::BlockView| extract::block_stratagems(block);
    laws::law_blocks_in_order(left, right);
    let none = Seq::<Seq<catalog::StratagemView>>::empty();
    let part = extract::block_stratagems(block);
    assert(Seq::<page::BlockView>::empty().map_values(f) == none);
    none.lemma_flatten_push(part);
    assert(seq![block].map_values(f) == none.push(part));
    assert(none.flatten() + part == part);
}

/// A page: blocks, then one with a summary and tables, one of them with a header
/// and rows, then blocks.
pub open spec fn page_around(
    earlier: Seq<page::BlockView>,
    texts: Seq<Seq<char>>,
    above: Seq<Seq<Seq<page::CellView>>>,
    rows: Seq<Seq<page::CellView>>,
    below: Seq<Seq<Seq<page::CellView>>>,
    later: Seq<page::BlockView>,
) -> Seq<page::BlockView> {
    earlier + seq![
        page::BlockView { summary_texts: Some(texts), tables: above + seq![rows] + below },
    ] + later
}

proof fn lemma_page_around(
    earlier: Seq<page::BlockView>,
    texts: Seq<Seq<char>>,
    above: Seq<Seq<Seq<page::CellView>>>,
    rows: Seq<Seq<page::CellView>>,
    below: Seq<Seq<Seq<page::CellView>>>,
    later: Seq<page::BlockView>,
    section: Seq<char>,
    category: Seq<char>,
)
    requires
        cell_laws::all_words_of(texts).len() > 0,
        is_block_section(texts, section),
        is_block_category(texts, category),
        cell_laws::shows_all_titles(rows),
    ensures
        extract::page_stratagems(page_around(earlier, texts, above, rows, below, later))
            == extract::page_stratagems(earlier) + extract::block_stratagems(
            page::BlockView { summary_texts: Some(texts), tables: above },
        ) + extract::table_stratagems(rows, section, category) + (extract::block_stratagems(
            page::BlockView { summary_texts: Some(texts), tables: below },
        ) + extract::page_stratagems(later)),
{
    let block = page::BlockView {
        summary_texts: Some(texts),
        tables: above + seq![rows] + below,
    };
    law_page_of_blocks(earlier + seq![block], later, block);
    law_page_of_blocks(earlier, seq![block], block);
    law_tables_in_order(texts, above + seq![rows], below, rows, section, category);
    law_tables_in_order(texts, above, seq![rows], rows, section, category);
    let first = extract::page_stratagems(earlier);
    let second = extract::block_stratagems(
        page::BlockView { summary_texts: Some(texts), tables: above },
    );
    let third = extract::table_stratagems(rows, section, category);
    let fourth = extract::block_stratagems(
        page::BlockView { summary_texts: Some(texts), tables: below },
    );
    let fifth = extract::page_stratagems(later);
    assert(first + (second + third + fourth) + fifth == first + second + third + (fourth + fifth));
}

/// Every complete row of a table that shows all titles, in a block whose summary
/// has words, contributes exactly one item to what the page lists, and changes
/// nothing else of it, wherever the row stands and however many rows, tables and
/// blocks there are. A row that is not complete contributes nothing.
pub proof fn law_every_complete_row_is_listed(
    earlier: Seq<page::BlockView>,
    texts: Seq<Seq<char>>,
    above: Seq<Seq<Seq<page::CellView>>>,
    header: Seq<page::CellView>,
    before: Seq<Seq<page::CellView>>,
    row: Seq<page::CellView>,
    after: Seq<Seq<page::CellView>>,
    below: Seq<Seq<Seq<page::CellView>>>,
    later: Seq<page::BlockView>,
    columns: extract::Columns,
)
    requires
        cell_laws::all_words_of(texts).len() > 0,
        cell_laws::is_first_column(header, "icon"@, columns.icon),
        cell_laws::is_first_column(header, "name"@, columns.name),
        cell_laws::is_first_column(header, "stratagem code"@, columns.command),
    ensures
        ({
            let with = extract::page_stratagems(
                page_around(
                    earlier,
                    texts,
                    above,
                    seq![header] + (before + seq![row] + after),
                    below,
                    later,
                ),
            );
            let without = extract::page_stratagems(
                page_around(earlier, texts, above, seq![header] + (before + after), below, later),
            );
            &&& is_complete_row(row, columns) ==> exists|at: int|
                #![trigger with[at]]
                {
                    &&& 0 <= at < with.len()
                    &&& without == with.remove(at)
                    &&& exists|section: Seq<char>, category: Seq<char>| #[trigger]
                        is_item_of_row(with[at], row, columns, section, category)
                            && is_block_section(texts, section) && is_block_category(
                            texts,
                            category,
                        )
                }
            &&& !is_complete_row(row, columns) ==> without == with
        }),
{
    let section = if is_mission_summary(cell_laws::all_words_of(texts)) {
        "Mission Stratagems"@
    } else {
        "Current Stratagems"@
    };
    let category = if is_mission_summary(cell_laws::all_words_of(texts)) {
        "Mission Stratagems"@
    } else {
        extract::shown_text(texts)
    };
    let full = seq![header] + (before + seq![row] + after);
    let rest = seq![header] + (before + after);
    assert(full[0] == header);
    assert(rest[0] == header);
    assert(cell_laws::shows_title(header[columns.icon], "icon"@));
    assert(cell_laws::shows_title(header[columns.name], "name"@));
    assert(cell_laws::shows_title(header[columns.command], "stratagem code"@));
    lemma_page_around(earlier, texts, above, full, below, later, section, category);
    lemma_page_around(earlier, texts, above, rest, below, later, section, category);
    cell_laws::law_columns(full, header);
    lemma_columns_are_found(header, columns);
    law_rows_in_order(before + seq![row], after, header, section, category);
    law_rows_in_order(before, seq![row], header, section, category);
    law_rows_in_order(before, after, header, section, category);
    law_one_row(header, row, section, category);
    assert(full == seq![header] + (before + seq![row]) + after);
    assert(seq![header] + (before + seq![row]) == seq![header] + before + seq![row]);
    assert(rest == seq![header] + before + after);
    assert(seq![header] + seq![row] == seq![header, row]);
    let first = extract::page_stratagems(earlier) + extract::block_stratagems(
        page::BlockView { summary_texts: Some(texts), tables: above },
    );
    let last = extract::block_stratagems(
        page::BlockView { summary_texts: Some(texts), tables: below },
    ) + extract::page_stratagems(later);
    let start = extract::table_stratagems(seq![header] + before, section, category);
    let own = extract::table_stratagems(seq![header, row], section, category);
    let end = extract::table_stratagems(seq![header] + after, section, category);
    let with = extract::page_stratagems(page_around(earlier, texts, above, full, below, later));
    let without = extract::page_stratagems(page_around(earlier, texts, above, rest, below, later));
    assert(with == first + (start + own + end) + last);
    assert(without == first + (start + end) + last);
    if is_complete_row(row, columns) {
        let at = (first + start).len() as int;
        assert(with[at] == own[0]);
        assert(without == with.remove(at));
        assert(is_item_of_row(with[at], row, columns, section, category));
    } else {
        assert(without == with);
    }
}

proof fn lemma_columns_are_found(header: Seq<page::CellView>, columns: extract::Columns)
    requires
        cell_laws::is_first_column(header, "icon"@, columns.icon),
        cell_laws::is_first_column(header, "name"@, columns.name),
        cell_laws::is_first_column(header, "stratagem code"@, columns.command),
    ensures
        extract::Columns::of(header) == columns,
{
    let found = extract::Columns::of(header);
    cell_laws::law_columns(seq![header], header);
    assert(cell_laws::shows_title(header[columns.icon], "icon"@));
    assert(cell_laws::shows_title(header[columns.name], "name"@));
    assert(cell_laws::shows_title(header[columns.command], "stratagem code"@));
    lemma_one_first_column(header, "icon"@, found.icon, columns.icon);
    lemma_one_first_column(header, "name"@, found.name, columns.name);
    lemma_one_first_column(header, "stratagem code"@, found.command, columns.command);
}

proof fn lemma_one_first_column(
    header: Seq<page::CellView>,
    lowered: Seq<char>,
    left: int,
    right: int,
)
    requires
        cell_laws::is_first_column(header, lowered, left),
        cell_laws::is_first_column(header, lowered, right),
    ensures
        left == right,
{
    assert(cell_laws::shows_title(header[left], lowered));
    assert(cell_laws::shows_title(header[right], lowered));
}

/// A page without contents is an error; from every other comes what the
/// `details` elements in its contents list, one after the other.
pub proof fn law_extraction(elements: Seq<Node>)
    ensures
        (forall|i: int|
            0 <= i < elements.len() ==> !page_laws::has_class(
                #[trigger] elements[i],
                "mw-parser-output"@,
            )) ==> extract::extraction(elements) == Err::<Seq<catalog::StratagemView>, Seq<char>>(
            "Wiki response did not include .mw-parser-output"@,
        ),
        forall|first: int|
            #![trigger elements[first]]
            0 <= first < elements.len() && page_laws::has_class(
                elements[first],
                "mw-parser-output"@,
            ) && (forall|i: int|
                0 <= i < first ==> !page_laws::has_class(
                    #[trigger] elements[i],
                    "mw-parser-output"@,
                )) ==> extract::extraction(elements) == Ok::<
                Seq<catalog::StratagemView>,
                Seq<char>,
            >(
                extract::page_stratagems(
                    elements[first].selected(page_laws::named("details"@)).map_values(
                        |block: Node| page::block_of(block),
                    ),
                ),
            ),
{
    if forall|i: int|
        0 <= i < elements.len() ==> !page_laws::has_class(
            #[trigger] elements[i],
            "mw-parser-output"@,
        ) {
        page_laws::law_page_without_contents(elements);
    }
    assert forall|first: int|
        #![trigger elements[first]]
        0 <= first < elements.len() && page_laws::has_class(elements[first], "mw-parser-output"@)
            && (forall|i: int|
            0 <= i < first ==> !page_laws::has_class(
                #[trigger] elements[i],
                "mw-parser-output"@,
            )) implies extract::extraction(elements) == Ok::<
        Seq<catalog::StratagemView>,
        Seq<char>,
    >(
        extract::page_stratagems(
            elements[first].selected(page_laws::named("details"@)).map_values(
                |block: Node| page::block_of(block),
            ),
        ),
    ) by {
        page_laws::law_page_with_contents(elements, first);
        assert(page::blocks_of(elements)->0 == elements[first].selected(
            page_laws::named("details"@),
        ).map_values(|block: Node| page::block_of(block)));
    }
}

/// The result of an extraction holds its items or its error.
pub proof fn law_extraction_view(items: Vec<Stratagem>, error: String)
    ensures
        extract::extraction_view(Ok(items)) == Ok::<Seq<catalog::StratagemView>, Seq<char>>(
            catalog::item_views(items@),
        ),
        extract::extraction_view(Err(error)) == Err::<Seq<catalog::StratagemView>, Seq<char>>(
            error@,
        ),
{
}

} // verus!
