//! Extraction of stratagems from the tables of a wiki page.

use crate::catalog;
use crate::catalog::{Stratagem, CURRENT_STRATAGEMS_SECTION, MISSION_STRATAGEMS_SECTION};
use crate::document;
use crate::page;
use crate::page::{Block, Cell, Image, Table};
use crate::text;
use crate::wiki;
use scraper::Html;
use vstd::prelude::*;

verus! {

/// The text that an element with the given texts shows.
pub open spec fn shown_text(texts: Seq<Seq<char>>) -> Seq<char> {
    text::normalized(text::joined(texts, " "@))
}

/// The text that an element with the given texts shows.
pub fn extract_text(texts: &[String]) -> (result: String)
    ensures
        result@ == shown_text(text::views(texts@)),
{
    let joined = text::join(texts, " ");
    text::normalize_whitespace(joined.as_str())
}

/// The cell shows `title`, but for the case of ASCII letters.
pub open spec fn titled(cell: page::CellView, title: Seq<char>) -> bool {
    text::lowercase(shown_text(cell.texts)) == text::lowercase(title)
}

/// The cell at `index` is the first one that shows `title`.
pub open spec fn first_titled(cells: Seq<page::CellView>, title: Seq<char>, index: int) -> bool {
    &&& 0 <= index < cells.len()
    &&& titled(cells[index], title)
    &&& forall|i: int| 0 <= i < index ==> !titled(#[trigger] cells[i], title)
}

/// The index of the first of `cells` that shows `title`, where there is one.
pub open spec fn column_index(cells: Seq<page::CellView>, title: Seq<char>) -> Option<int> {
    if exists|index: int| first_titled(cells, title, index) {
        Some(choose|index: int| first_titled(cells, title, index))
    } else {
        None
    }
}

/// The index of the first of `cells` that shows `header_name`, but for the case
/// of ASCII letters.
pub fn find_column_index(cells: &[Cell], header_name: &str) -> (index: Option<usize>)
    ensures
        match index {
            Some(index) => column_index(page::cell_views(cells@), header_name@) == Some(
                index as int,
            ) && index < cells@.len(),
            None => column_index(page::cell_views(cells@), header_name@) is None,
        },
{
    let ghost views = page::cell_views(cells@);
    let mut i: usize = 0;
    while i < cells.len()
        invariant
            i <= cells@.len(),
            views == page::cell_views(cells@),
            forall|j: int| 0 <= j < i ==> !titled(#[trigger] views[j], header_name@),
        decreases cells@.len() - i,
    {
        let shown = extract_text(cells[i].texts.as_slice());
        if text::eq_ignore_ascii_case(shown.as_str(), header_name) {
            proof {
                assert(views[i as int] == cells@[i as int]@);
                assert(first_titled(views, header_name@, i as int));
                let found = choose|index: int| first_titled(views, header_name@, index);
                assert(first_titled(views, header_name@, found));
                assert(found == i);
            }
            return Some(i);
        }
        assert(views[i as int] == cells@[i as int]@);
        i += 1;
    }
    None
}

/// The table begins with a row of headers that has the columns of a list of
/// stratagems.
pub open spec fn has_required_columns(rows: Seq<Seq<page::CellView>>) -> bool {
    &&& rows.len() > 0
    &&& column_index(rows[0], "Icon"@) is Some
    &&& column_index(rows[0], "Name"@) is Some
    &&& column_index(rows[0], "Stratagem Code"@) is Some
}

/// Tells whether the table begins with a row of headers that has the columns of
/// a list of stratagems.
pub fn table_has_required_columns(table: &Table) -> (result: bool)
    ensures
        result == has_required_columns(table@),
{
    if table.rows.len() == 0 {
        return false;
    }
    let header_cells = table.rows[0].cells.as_slice();
    assert(table@[0] == page::cell_views(header_cells@));
    find_column_index(header_cells, "Icon").is_some() && find_column_index(
        header_cells,
        "Name",
    ).is_some() && find_column_index(header_cells, "Stratagem Code").is_some()
}

/// The name that a cell shows: that of its first link, where this shows a text,
/// else its own text.
pub open spec fn cell_name(cell: page::CellView) -> Seq<char> {
    match cell.link_texts {
        Some(texts) => if shown_text(texts).len() > 0 {
            shown_text(texts)
        } else {
            shown_text(cell.texts)
        },
        None => shown_text(cell.texts),
    }
}

/// The name that a cell shows.
pub fn extract_name(cell: &Cell) -> (name: String)
    ensures
        name@ == cell_name(cell@),
{
    if let Some(texts) = &cell.link_texts {
        let name = extract_text(texts.as_slice());
        if !name.as_str().is_empty() {
            return name;
        }
    }
    extract_text(cell.texts.as_slice())
}

/// The part of `list` before its first comma.
pub open spec fn before_comma(list: Seq<char>) -> Seq<char>
    decreases list.len(),
{
    if list.len() == 0 || list[0] == ',' {
        Seq::empty()
    } else {
        seq![list[0]] + before_comma(list.skip(1))
    }
}

/// The address of the first candidate of a `srcset`, where there is one.
pub open spec fn first_candidate(srcset: Seq<char>) -> Option<Seq<char>> {
    let words = text::words(before_comma(srcset));
    if words.len() > 0 {
        Some(words[0])
    } else {
        None
    }
}

/// The address that an image gives for its source: its `src`, else its
/// `data-src`, else the first candidate of its `srcset`.
pub open spec fn image_source(image: page::ImageView) -> Option<Seq<char>> {
    if image.src is Some {
        image.src
    } else if image.data_src is Some {
        image.data_src
    } else if image.srcset is Some {
        first_candidate(image.srcset->0)
    } else {
        None
    }
}

/// The full address of the first image of a cell, where it has one with a
/// source.
pub open spec fn image_url(cell: page::CellView) -> Option<Seq<char>> {
    if cell.images.len() > 0 && image_source(cell.images[0]) is Some {
        Some(wiki::wiki_url(image_source(cell.images[0])->0))
    } else {
        None
    }
}

/// The address of the first candidate of a `srcset`, where there is one.
fn first_srcset_candidate(srcset: &str) -> (result: Option<String>)
    ensures
        page::optional_view(result) == first_candidate(srcset@),
{
    let chars = text::chars_of(srcset);
    let mut candidate = String::new();
    let mut i: usize = 0;
    assert(chars@.skip(0) == srcset@);
    assert(candidate@ + before_comma(srcset@) == before_comma(srcset@));
    while i < chars.len() && chars[i] != ','
        invariant
            i <= chars@.len(),
            before_comma(srcset@) == candidate@ + before_comma(chars@.skip(i as int)),
        decreases chars@.len() - i,
    {
        let ghost rest = chars@.skip(i as int);
        assert(rest.skip(1) == chars@.skip(i + 1));
        assert(candidate@ + (seq![rest[0]] + before_comma(rest.skip(1))) == candidate@.push(
            rest[0],
        ) + before_comma(rest.skip(1)));
        candidate.push(chars[i]);
        i += 1;
    }
    assert(candidate@ + before_comma(chars@.skip(i as int)) == candidate@);
    let mut words = text::split_words(candidate.as_str());
    if words.len() > 0 {
        assert(text::views(words@)[0] == words@[0]@);
        Some(words.swap_remove(0))
    } else {
        assert(text::views(words@).len() == 0);
        None
    }
}

/// The address that an image gives for its source.
fn extract_image_source(image: &Image) -> (source: Option<String>)
    ensures
        page::optional_view(source) == image_source(image@),
{
    if let Some(src) = &image.src {
        Some(src.clone())
    } else if let Some(data_src) = &image.data_src {
        Some(data_src.clone())
    } else if let Some(srcset) = &image.srcset {
        first_srcset_candidate(srcset.as_str())
    } else {
        None
    }
}

/// The full address of the first image of a cell, where it has one with a
/// source.
pub fn extract_image_url(cell: &Cell) -> (url: Option<String>)
    ensures
        page::optional_view(url) == image_url(cell@),
        cell.images@.len() > 0 && cell.images@[0].src is Some ==> url is Some && url->0@
            == wiki::wiki_url(cell.images@[0].src->0@),
{
    if cell.images.len() == 0 {
        return None;
    }
    assert(cell@.images[0] == cell.images@[0]@);
    match extract_image_source(&cell.images[0]) {
        Some(source) => Some(wiki::resolve_wiki_url(source.as_str())),
        None => None,
    }
}

/// The direction that the alternative text of an image of an arrow names, in
/// either case of ASCII letters.
pub open spec fn alt_direction(alt: Seq<char>) -> Option<Seq<char>> {
    let lowered = text::lowercase(alt);
    if text::occurs(lowered, "arrow up"@) {
        Some("UP"@)
    } else if text::occurs(lowered, "arrow down"@) {
        Some("DOWN"@)
    } else if text::occurs(lowered, "arrow left"@) {
        Some("LEFT"@)
    } else if text::occurs(lowered, "arrow right"@) {
        Some("RIGHT"@)
    } else {
        None
    }
}

/// The direction that an image of an arrow shows.
pub open spec fn image_direction(image: page::ImageView) -> Option<Seq<char>> {
    match image.alt {
        Some(alt) => alt_direction(alt),
        None => None,
    }
}

/// The direction that a word names, in either case of ASCII letters.
pub open spec fn word_direction(word: Seq<char>) -> Option<Seq<char>> {
    let raised = text::uppercase(word);
    if raised == "UP"@ || raised == "DOWN"@ || raised == "LEFT"@ || raised == "RIGHT"@ {
        Some(raised)
    } else {
        None
    }
}

/// An arrow as the word that it stands for, set off by spaces; any other
/// character itself.
pub open spec fn spelled(c: char) -> Seq<char> {
    if c == '\u{2191}' {
        " UP "@
    } else if c == '\u{2193}' {
        " DOWN "@
    } else if c == '\u{2190}' {
        " LEFT "@
    } else if c == '\u{2192}' {
        " RIGHT "@
    } else {
        seq![c]
    }
}

/// `text` with its arrows as words.
pub open spec fn spelled_out(text: Seq<char>) -> Seq<char> {
    text.map_values(|c: char| spelled(c)).flatten()
}

/// The directions that images of arrows show, in their order.
pub open spec fn image_command(images: Seq<page::ImageView>) -> Seq<Seq<char>> {
    images.filter_map(|image: page::ImageView| image_direction(image))
}

/// The directions that a text names, by words or arrows, in their order.
pub open spec fn text_command(text: Seq<char>) -> Seq<Seq<char>> {
    text::words(spelled_out(text)).filter_map(|word: Seq<char>| word_direction(word))
}

/// The directions that a cell gives: by its images, or, where these show none,
/// by its text.
pub open spec fn cell_command(cell: page::CellView) -> Seq<Seq<char>> {
    if image_command(cell.images).len() > 0 {
        image_command(cell.images)
    } else {
        text_command(shown_text(cell.texts))
    }
}

/// The direction that the alternative text of an image of an arrow names.
pub fn direction_from_alt(alt: &str) -> (direction: Option<&'static str>)
    ensures
        (match direction {
            Some(direction) => Some(direction@),
            None => None,
        }) == alt_direction(alt@),
{
    let lowered = text::to_lowercase(alt);
    if text::contains(lowered.as_str(), "arrow up") {
        Some("UP")
    } else if text::contains(lowered.as_str(), "arrow down") {
        Some("DOWN")
    } else if text::contains(lowered.as_str(), "arrow left") {
        Some("LEFT")
    } else if text::contains(lowered.as_str(), "arrow right") {
        Some("RIGHT")
    } else {
        None
    }
}

/// The direction that a word names.
fn direction_from_word(word: &str) -> (direction: Option<String>)
    ensures
        page::optional_view(direction) == word_direction(word@),
{
    let raised = text::to_uppercase(word);
    if text::same_text(raised.as_str(), "UP") || text::same_text(raised.as_str(), "DOWN")
        || text::same_text(raised.as_str(), "LEFT") || text::same_text(raised.as_str(), "RIGHT") {
        Some(raised)
    } else {
        None
    }
}

/// Writes the arrows of `text` as words.
fn spell_out(text: &str) -> (result: String)
    ensures
        result@ == spelled_out(text@),
{
    let chars = text::chars_of(text);
    let ghost parts = text@.map_values(|c: char| spelled(c));
    let mut result = String::new();
    let mut i: usize = 0;
    while i < chars.len()
        invariant
            i <= chars@.len(),
            chars@ == text@,
            parts == text@.map_values(|c: char| spelled(c)),
            result@ == parts.take(i as int).flatten(),
        decreases chars@.len() - i,
    {
        let c = chars[i];
        proof {
            assert(parts.take(i + 1) == parts.take(i as int).push(spelled(c)));
            parts.take(i as int).lemma_flatten_push(spelled(c));
            assert(result@ + seq![c] == result@.push(c));
        }
        if c == '\u{2191}' {
            result.append(" UP ");
        } else if c == '\u{2193}' {
            result.append(" DOWN ");
        } else if c == '\u{2190}' {
            result.append(" LEFT ");
        } else if c == '\u{2192}' {
            result.append(" RIGHT ");
        } else {
            result.push(c);
        }
        i += 1;
    }
    assert(parts.take(i as int) == parts);
    result
}

/// The directions that images of arrows show.
fn command_from_images(images: &[Image]) -> (command: Vec<String>)
    ensures
        text::views(command@) == image_command(images@.map_values(|image: Image| image@)),
{
    let ghost views = images@.map_values(|image: Image| image@);
    let ghost direction = |image: page::ImageView| image_direction(image);
    let mut command: Vec<String> = Vec::new();
    let mut i: usize = 0;
    assert(text::views(command@) == views.take(0).filter_map(direction));
    while i < images.len()
        invariant
            i <= images@.len(),
            views == images@.map_values(|image: Image| image@),
            direction == (|image: page::ImageView| image_direction(image)),
            text::views(command@) == views.take(i as int).filter_map(direction),
        decreases images@.len() - i,
    {
        proof {
            views.lemma_filter_map_take_succ(direction, i as int);
            assert(views[i as int] == images@[i as int]@);
        }
        if let Some(alt) = &images[i].alt {
            if let Some(shown) = direction_from_alt(alt.as_str()) {
                let step = shown.to_string();
                assert(text::views(command@.push(step)) == text::views(command@).push(step@));
                command.push(step);
            }
        }
        i += 1;
    }
    assert(views.take(i as int) == views);
    command
}

/// The directions that a text names.
fn command_from_text(text: &str) -> (command: Vec<String>)
    ensures
        text::views(command@) == text_command(text@),
{
    let spelled = spell_out(text);
    let words = text::split_words(spelled.as_str());
    let ghost views = text::views(words@);
    let ghost direction = |word: Seq<char>| word_direction(word);
    let mut command: Vec<String> = Vec::new();
    let mut i: usize = 0;
    assert(text::views(command@) == views.take(0).filter_map(direction));
    while i < words.len()
        invariant
            i <= words@.len(),
            views == text::views(words@),
            direction == (|word: Seq<char>| word_direction(word)),
            text::views(command@) == views.take(i as int).filter_map(direction),
        decreases words@.len() - i,
    {
        proof {
            views.lemma_filter_map_take_succ(direction, i as int);
            assert(views[i as int] == words@[i as int]@);
        }
        if let Some(step) = direction_from_word(words[i].as_str()) {
            assert(text::views(command@.push(step)) == text::views(command@).push(step@));
            command.push(step);
        }
        i += 1;
    }
    assert(views.take(i as int) == views);
    command
}

/// The directions that a cell gives.
pub fn extract_command(cell: &Cell) -> (command: Vec<String>)
    ensures
        text::views(command@) == cell_command(cell@),
{
    let command = command_from_images(cell.images.as_slice());
    assert(text::views(command@).len() == command@.len());
    if command.len() > 0 {
        return command;
    }
    let shown = extract_text(cell.texts.as_slice());
    command_from_text(shown.as_str())
}

/// The columns of a table in which a list of stratagems gives the icon, the
/// name and the command.
pub struct Columns {
    pub icon: int,
    pub name: int,
    pub command: int,
}

impl Columns {
    /// The columns that a row of headers names, each else at its usual place.
    pub open spec fn of(header: Seq<page::CellView>) -> Columns {
        Columns {
            icon: match column_index(header, "Icon"@) {
                Some(index) => index,
                None => 0,
            },
            name: match column_index(header, "Name"@) {
                Some(index) => index,
                None => 1,
            },
            command: match column_index(header, "Stratagem Code"@) {
                Some(index) => index,
                None => 2,
            },
        }
    }

    /// The row has all three columns.
    pub open spec fn fit(self, row: Seq<page::CellView>) -> bool {
        self.icon < row.len() && self.name < row.len() && self.command < row.len()
    }
}

/// The stratagem that a row lists, where it has all columns, a name and a
/// command.
pub open spec fn row_stratagem(
    row: Seq<page::CellView>,
    columns: Columns,
    section: Seq<char>,
    category: Seq<char>,
) -> Option<catalog::StratagemView> {
    if columns.fit(row) && cell_name(row[columns.name]).len() > 0 && cell_command(
        row[columns.command],
    ).len() > 0 {
        Some(
            catalog::StratagemView {
                id: Seq::empty(),
                section,
                category,
                name: cell_name(row[columns.name]),
                icon_url: match image_url(row[columns.icon]) {
                    Some(url) => url,
                    None => Seq::empty(),
                },
                command: cell_command(row[columns.command]),
            },
        )
    } else {
        None
    }
}

/// The stratagems that the rows of a table list below the row of headers.
pub open spec fn table_stratagems(
    rows: Seq<Seq<page::CellView>>,
    section: Seq<char>,
    category: Seq<char>,
) -> Seq<catalog::StratagemView> {
    if rows.len() == 0 {
        Seq::empty()
    } else {
        rows.skip(1).filter_map(
            |row: Seq<page::CellView>|
                row_stratagem(row, Columns::of(rows[0]), section, category),
        )
    }
}

/// The stratagem that a row lists.
fn parse_stratagem_row(
    cells: &[Cell],
    icon_index: usize,
    name_index: usize,
    command_index: usize,
    section: &str,
    category: &str,
) -> (item: Option<Stratagem>)
    ensures
        (match item {
            Some(item) => Some(item@),
            None => None,
        }) == row_stratagem(
            page::cell_views(cells@),
            Columns {
                icon: icon_index as int,
                name: name_index as int,
                command: command_index as int,
            },
            section@,
            category@,
        ),
{
    if icon_index >= cells.len() || name_index >= cells.len() || command_index >= cells.len() {
        return None;
    }
    let name = extract_name(&cells[name_index]);
    let command = extract_command(&cells[command_index]);
    assert(text::views(command@).len() == command@.len());
    if name.as_str().is_empty() || command.len() == 0 {
        return None;
    }
    let icon_url = match extract_image_url(&cells[icon_index]) {
        Some(url) => url,
        None => String::new(),
    };
    Some(
        Stratagem {
            id: String::new(),
            section: section.to_string(),
            category: category.to_string(),
            name,
            icon_url,
            command,
        },
    )
}

/// The stratagems that the rows of a table list below the row of headers, as
/// items of the given section and category.
pub fn parse_stratagem_table(table: &Table, section: &str, category: &str) -> (items: Vec<
    Stratagem,
>)
    ensures
        catalog::item_views(items@) == table_stratagems(table@, section@, category@),
{
    let mut items: Vec<Stratagem> = Vec::new();
    if table.rows.len() == 0 {
        assert(catalog::item_views(items@) == table_stratagems(table@, section@, category@));
        return items;
    }
    let header_cells = table.rows[0].cells.as_slice();
    let icon_index = find_column_index(header_cells, "Icon").unwrap_or(0);
    let name_index = find_column_index(header_cells, "Name").unwrap_or(1);
    let command_index = find_column_index(header_cells, "Stratagem Code").unwrap_or(2);
    let ghost rows = table@.skip(1);
    let ghost columns = Columns::of(table@[0]);
    let ghost listed = |row: Seq<page::CellView>| row_stratagem(row, columns, section@, category@);
    let mut i: usize = 1;
    assert(table@[0] == page::cell_views(header_cells@));
    assert(catalog::item_views(items@) == rows.take(0).filter_map(listed));
    while i < table.rows.len()
        invariant
            1 <= i <= table.rows@.len(),
            rows == table@.skip(1),
            columns == (Columns {
                icon: icon_index as int,
                name: name_index as int,
                command: command_index as int,
            }),
            listed == (|row: Seq<page::CellView>|
                row_stratagem(row, columns, section@, category@)),
            catalog::item_views(items@) == rows.take(i - 1).filter_map(listed),
        decreases table.rows@.len() - i,
    {
        let cells = table.rows[i].cells.as_slice();
        proof {
            rows.lemma_filter_map_take_succ(listed, i - 1);
            assert(rows[i - 1] == page::cell_views(cells@));
        }
        if let Some(item) = parse_stratagem_row(
            cells,
            icon_index,
            name_index,
            command_index,
            section,
            category,
        ) {
            assert(catalog::item_views(items@.push(item)) == catalog::item_views(items@).push(item@));
            items.push(item);
        }
        i += 1;
    }
    assert(rows.take(i - 1) == rows);
    items
}

/// The section to which the block with the given summary belongs, where the
/// summary shows a text.
pub open spec fn summary_section(summary: Seq<char>) -> Option<Seq<char>> {
    let shown = text::normalized(summary);
    if shown.len() == 0 {
        None
    } else if text::lowercase(shown) == text::lowercase(MISSION_STRATAGEMS_SECTION@) {
        Some(MISSION_STRATAGEMS_SECTION@)
    } else {
        Some(CURRENT_STRATAGEMS_SECTION@)
    }
}

/// The section to which the block with the given summary belongs.
pub fn classify_stratagem_summary(summary: &str) -> (section: Option<&'static str>)
    ensures
        (match section {
            Some(section) => Some(section@),
            None => None,
        }) == summary_section(summary@),
{
    let shown = text::normalize_whitespace(summary);
    if shown.as_str().is_empty() {
        return None;
    }
    if text::eq_ignore_ascii_case(shown.as_str(), MISSION_STRATAGEMS_SECTION) {
        Some(MISSION_STRATAGEMS_SECTION)
    } else {
        Some(CURRENT_STRATAGEMS_SECTION)
    }
}

/// The category of the stratagems in a block of the given section and summary.
pub open spec fn block_category(section: Seq<char>, summary: Seq<char>) -> Seq<char> {
    if section == MISSION_STRATAGEMS_SECTION@ {
        MISSION_STRATAGEMS_SECTION@
    } else {
        summary
    }
}

/// The stratagems that a table lists, where it has the required columns.
pub open spec fn listed_stratagems(
    rows: Seq<Seq<page::CellView>>,
    section: Seq<char>,
    category: Seq<char>,
) -> Seq<catalog::StratagemView> {
    if has_required_columns(rows) {
        table_stratagems(rows, section, category)
    } else {
        Seq::empty()
    }
}

/// The stratagems that a block lists, where it has a summary that shows a text.
pub open spec fn block_stratagems(block: page::BlockView) -> Seq<catalog::StratagemView> {
    match block.summary_texts {
        None => Seq::empty(),
        Some(texts) => match summary_section(shown_text(texts)) {
            None => Seq::empty(),
            Some(section) => block.tables.map_values(
                |rows: Seq<Seq<page::CellView>>|
                    listed_stratagems(rows, section, block_category(section, shown_text(texts))),
            ).flatten(),
        },
    }
}

/// The stratagems that the blocks of a page list.
pub open spec fn page_stratagems(blocks: Seq<page::BlockView>) -> Seq<catalog::StratagemView> {
    blocks.map_values(|block: page::BlockView| block_stratagems(block)).flatten()
}

/// The stratagems that a block lists.
pub fn parse_stratagem_block(block: &Block) -> (items: Vec<Stratagem>)
    ensures
        catalog::item_views(items@) == block_stratagems(block@),
{
    let mut items: Vec<Stratagem> = Vec::new();
    assert(catalog::item_views(items@) == Seq::<catalog::StratagemView>::empty());
    let summary = match &block.summary_texts {
        Some(texts) => extract_text(texts.as_slice()),
        None => {
            return items;
        },
    };
    let section = match classify_stratagem_summary(summary.as_str()) {
        Some(section) => section,
        None => {
            return items;
        },
    };
    let category = if text::same_text(section, MISSION_STRATAGEMS_SECTION) {
        MISSION_STRATAGEMS_SECTION.to_string()
    } else {
        summary
    };
    let ghost parts = block@.tables.map_values(
        |rows: Seq<Seq<page::CellView>>| listed_stratagems(rows, section@, category@),
    );
    let mut i: usize = 0;
    assert(catalog::item_views(items@) == parts.take(0).flatten());
    while i < block.tables.len()
        invariant
            i <= block.tables@.len(),
            parts == block@.tables.map_values(
                |rows: Seq<Seq<page::CellView>>| listed_stratagems(rows, section@, category@),
            ),
            catalog::item_views(items@) == parts.take(i as int).flatten(),
        decreases block.tables@.len() - i,
    {
        let table = &block.tables[i];
        let ghost part = listed_stratagems(table@, section@, category@);
        proof {
            assert(parts.take(i + 1) == parts.take(i as int).push(part));
            parts.take(i as int).lemma_flatten_push(part);
        }
        if table_has_required_columns(table) {
            let mut listed = parse_stratagem_table(table, section, category.as_str());
            assert(catalog::item_views(items@ + listed@) == catalog::item_views(items@) + catalog::item_views(listed@));
            items.append(&mut listed);
        } else {
            assert(catalog::item_views(items@) + part == catalog::item_views(items@));
        }
        i += 1;
    }
    assert(parts.take(i as int) == parts);
    items
}

/// The stratagems that the blocks of a page list.
pub fn parse_stratagem_blocks(blocks: &[Block]) -> (items: Vec<Stratagem>)
    ensures
        catalog::item_views(items@) == page_stratagems(page::block_views(blocks@)),
{
    let mut items: Vec<Stratagem> = Vec::new();
    let ghost parts = page::block_views(blocks@).map_values(
        |block: page::BlockView| block_stratagems(block),
    );
    let mut i: usize = 0;
    assert(catalog::item_views(items@) == parts.take(0).flatten());
    while i < blocks.len()
        invariant
            i <= blocks@.len(),
            parts == page::block_views(blocks@).map_values(
                |block: page::BlockView| block_stratagems(block),
            ),
            catalog::item_views(items@) == parts.take(i as int).flatten(),
        decreases blocks@.len() - i,
    {
        let ghost part = block_stratagems(blocks@[i as int]@);
        proof {
            assert(parts.take(i + 1) == parts.take(i as int).push(part));
            parts.take(i as int).lemma_flatten_push(part);
        }
        let mut listed = parse_stratagem_block(&blocks[i]);
        assert(catalog::item_views(items@ + listed@) == catalog::item_views(items@) + catalog::item_views(listed@));
        items.append(&mut listed);
        i += 1;
    }
    assert(parts.take(i as int) == parts);
    items
}

/// What extraction gives on a page with the given elements: its stratagems, or
/// an error where the page has no contents.
pub open spec fn extraction(elements: Seq<document::Node>) -> Result<Seq<catalog::StratagemView>, Seq<char>> {
    match page::blocks_of(elements) {
        Some(blocks) => Ok(page_stratagems(blocks)),
        None => Err("Wiki response did not include .mw-parser-output"@),
    }
}

/// What the result of an extraction holds.
pub open spec fn extraction_view(result: Result<Vec<Stratagem>, String>) -> Result<
    Seq<catalog::StratagemView>,
    Seq<char>,
> {
    match result {
        Ok(items) => Ok(catalog::item_views(items@)),
        Err(error) => Err(error@),
    }
}

/// The stratagems that a parsed page lists.
pub fn parse_stratagems_from_document(page: &Html) -> (result: Result<Vec<Stratagem>, String>)
    ensures
        extraction_view(result) == extraction(document::document_elements(*page)),
{
    match page::read_blocks(page) {
        Some(blocks) => Ok(parse_stratagem_blocks(blocks.as_slice())),
        None => Err("Wiki response did not include .mw-parser-output".to_string()),
    }
}

/// The stratagems that the page `html` lists.
pub fn parse_stratagems_from_html(html: &str) -> (result: Result<Vec<Stratagem>, String>)
    requires
        html.len() <= document::MAX_HTML_BYTES,
    ensures
        extraction_view(result) == extraction(document::parsed_elements(html@)),
{
    let page = document::parse_document(html);
    parse_stratagems_from_document(&page)
}

} // verus!
