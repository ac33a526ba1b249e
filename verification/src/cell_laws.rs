//! What the cells of a table give: titles, names, addresses of icons and
//! commands.

use crate::extract;
use crate::laws;
use crate::page;
use crate::selection;
use crate::text;
use crate::text_laws;
use crate::wiki;
use vstd::prelude::*;

verus! {

/// The words of all of `texts`, one text after the other.
pub open spec fn all_words_of(texts: Seq<Seq<char>>) -> Seq<Seq<char>> {
    texts.map_values(|content: Seq<char>| text::words(content)).flatten()
}

/// An element shows the words of all its texts, with one space between each two
/// of them, and nothing else.
pub proof fn law_shown_text(texts: Seq<Seq<char>>)
    ensures
        text::words(extract::shown_text(texts)) == all_words_of(texts),
        laws::is_normal(extract::shown_text(texts)),
        extract::shown_text(texts).len() == 0 <==> all_words_of(texts).len() == 0,
{
    text_laws::law_words_of_joined(texts);
    laws::law_normalized_twice(text::joined(texts, " "@));
    laws::law_normalized_is_normal(text::joined(texts, " "@));
    assert(texts.map_values(|part: Seq<char>| text::words(part)) == texts.map_values(
        |content: Seq<char>| text::words(content),
    ));
}

/// The name of a cell has the words of its first link, where this has any, else
/// those of the cell.
pub proof fn law_cell_name(cell: page::CellView)
    ensures
        laws::is_normal(extract::cell_name(cell)),
        cell.link_texts is Some && all_words_of(cell.link_texts->0).len() > 0 ==> text::words(
            extract::cell_name(cell),
        ) == all_words_of(cell.link_texts->0),
        cell.link_texts is None || all_words_of(cell.link_texts->0).len() == 0 ==> text::words(
            extract::cell_name(cell),
        ) == all_words_of(cell.texts),
        extract::cell_name(cell).len() == 0 <==> text::words(extract::cell_name(cell)).len() == 0,
{
    law_shown_text(cell.texts);
    if cell.link_texts is Some {
        law_shown_text(cell.link_texts->0);
    }
}

/// The cell shows the title, which is given in lower case, in either case of
/// ASCII letters.
pub open spec fn shows_title(cell: page::CellView, lowered: Seq<char>) -> bool {
    text::lowercase(extract::shown_text(cell.texts)) == lowered
}

/// The cell at `index`, and none before it, shows the title.
pub open spec fn is_first_column(
    header: Seq<page::CellView>,
    lowered: Seq<char>,
    index: int,
) -> bool {
    &&& 0 <= index < header.len()
    &&& shows_title(header[index], lowered)
    &&& forall|i: int| 0 <= i < index ==> !shows_title(#[trigger] header[i], lowered)
}

/// One of the cells shows the title.
pub open spec fn has_column(header: Seq<page::CellView>, lowered: Seq<char>) -> bool {
    exists|i: int| 0 <= i < header.len() && shows_title(#[trigger] header[i], lowered)
}

proof fn lemma_first_column(header: Seq<page::CellView>, lowered: Seq<char>, at: int)
    requires
        0 <= at < header.len(),
        shows_title(header[at], lowered),
    ensures
        exists|index: int| is_first_column(header, lowered, index),
    decreases at,
{
    if forall|i: int| 0 <= i < at ==> !shows_title(#[trigger] header[i], lowered) {
        assert(is_first_column(header, lowered, at));
    } else {
        let earlier = choose|i: int| 0 <= i < at && shows_title(#[trigger] header[i], lowered);
        lemma_first_column(header, lowered, earlier);
    }
}

/// The column of a title is the first whose cell shows it, and is found wherever
/// there is one.
pub proof fn law_column_index(header: Seq<page::CellView>, title: Seq<char>, index: int)
    ensures
        extract::column_index(header, title) == Some(index) <==> is_first_column(
            header,
            text::lowercase(title),
            index,
        ),
        extract::column_index(header, title) is Some <==> has_column(
            header,
            text::lowercase(title),
        ),
{
    let lowered = text::lowercase(title);
    assert forall|i: int| extract::first_titled(header, title, i) == is_first_column(
        header,
        lowered,
        i,
    ) by {
        if extract::first_titled(header, title, i) {
            assert forall|j: int| 0 <= j < i implies !shows_title(#[trigger] header[j], lowered) by {
                assert(!extract::titled(header[j], title));
            }
        }
        if is_first_column(header, lowered, i) {
            assert forall|j: int| 0 <= j < i implies !extract::titled(
                #[trigger] header[j],
                title,
            ) by {
                assert(!shows_title(header[j], lowered));
            }
        }
    }
    if has_column(header, lowered) {
        let at = choose|i: int| 0 <= i < header.len() && shows_title(#[trigger] header[i], lowered);
        lemma_first_column(header, lowered, at);
        let first = choose|i: int| is_first_column(header, lowered, i);
        assert(extract::first_titled(header, title, first));
    }
    if extract::column_index(header, title) is Some {
        let found = extract::column_index(header, title)->0;
        assert(extract::first_titled(header, title, found));
        assert(is_first_column(header, lowered, found));
        assert(shows_title(header[found], lowered));
        if is_first_column(header, lowered, index) && found < index {
            assert(!shows_title(header[found], lowered));
        }
        if is_first_column(header, lowered, index) && index < found {
            assert(!shows_title(header[index], lowered));
        }
    }
    if is_first_column(header, lowered, index) {
        assert(extract::first_titled(header, title, index));
    }
}

proof fn lemma_titles_in_lower_case()
    ensures
        text::lowercase("Icon"@) == "icon"@,
        text::lowercase("Name"@) == "name"@,
        text::lowercase("Stratagem Code"@) == "stratagem code"@,
        text::lowercase("Mission Stratagems"@) == "mission stratagems"@,
{
    reveal_strlit("Icon");
    reveal_strlit("icon");
    reveal_strlit("Name");
    reveal_strlit("name");
    reveal_strlit("Stratagem Code");
    reveal_strlit("stratagem code");
    reveal_strlit("Mission Stratagems");
    reveal_strlit("mission stratagems");
    assert(text::lowercase("Icon"@) == "icon"@);
    assert(text::lowercase("Name"@) == "name"@);
    assert(text::lowercase("Stratagem Code"@) == "stratagem code"@);
    assert(text::lowercase("Mission Stratagems"@) == "mission stratagems"@);
}

/// The first row of the table shows all three titles.
pub open spec fn shows_all_titles(rows: Seq<Seq<page::CellView>>) -> bool {
    &&& rows.len() > 0
    &&& has_column(rows[0], "icon"@)
    &&& has_column(rows[0], "name"@)
    &&& has_column(rows[0], "stratagem code"@)
}

/// The columns of icon, name and command are those that show their titles; where
/// a title is missing, its column is the first, the second or the third.
pub open spec fn are_columns(header: Seq<page::CellView>, columns: extract::Columns) -> bool {
    &&& has_column(header, "icon"@) ==> is_first_column(header, "icon"@, columns.icon)
    &&& !has_column(header, "icon"@) ==> columns.icon == 0
    &&& has_column(header, "name"@) ==> is_first_column(header, "name"@, columns.name)
    &&& !has_column(header, "name"@) ==> columns.name == 1
    &&& has_column(header, "stratagem code"@) ==> is_first_column(
        header,
        "stratagem code"@,
        columns.command,
    )
    &&& !has_column(header, "stratagem code"@) ==> columns.command == 2
}

/// A table lists stratagems where its first row shows the titles of the three
/// columns, in whatever order and among whatever others; the columns are found
/// by these titles.
pub proof fn law_columns(rows: Seq<Seq<page::CellView>>, header: Seq<page::CellView>)
    ensures
        extract::has_required_columns(rows) <==> shows_all_titles(rows),
        are_columns(header, extract::Columns::of(header)),
{
    lemma_titles_in_lower_case();
    if rows.len() > 0 {
        law_column_index(rows[0], "Icon"@, 0);
        law_column_index(rows[0], "Name"@, 0);
        law_column_index(rows[0], "Stratagem Code"@, 0);
    }
    let columns = extract::Columns::of(header);
    law_column_index(header, "Icon"@, columns.icon);
    law_column_index(header, "Name"@, columns.name);
    law_column_index(header, "Stratagem Code"@, columns.command);
}

/// A row has the three columns where it has as many cells.
pub proof fn law_fit(columns: extract::Columns, row: Seq<page::CellView>)
    ensures
        columns.fit(row) <==> columns.icon < row.len() && columns.name < row.len()
            && columns.command < row.len(),
{
}

/// Where the first image of a cell has a `src`, its address is the full address
/// of that `src`, whatever else the image and the cell hold.
pub proof fn law_address_of_src(cell: page::CellView, src: Seq<char>)
    requires
        cell.images.len() > 0,
        cell.images[0].src == Some(src),
    ensures
        extract::image_source(cell.images[0]) == Some(src),
        extract::image_url(cell) == Some(wiki::wiki_url(src)),
{
}

/// Where the first image of a cell has no `src` but a `data-src`, its address is
/// the full address of that, whatever else the image and the cell hold.
pub proof fn law_address_of_data_src(cell: page::CellView, data_src: Seq<char>)
    requires
        cell.images.len() > 0,
        cell.images[0].src is None,
        cell.images[0].data_src == Some(data_src),
    ensures
        extract::image_source(cell.images[0]) == Some(data_src),
        extract::image_url(cell) == Some(wiki::wiki_url(data_src)),
{
}

/// All characters of `content` are white space.
pub open spec fn is_blank(content: Seq<char>) -> bool {
    forall|i: int| 0 <= i < content.len() ==> text::white_space(#[trigger] content[i])
}

/// `content` has no comma.
pub open spec fn has_no_comma(content: Seq<char>) -> bool {
    forall|i: int| 0 <= i < content.len() ==> #[trigger] content[i] != ','
}

proof fn lemma_before_comma(start: Seq<char>, rest: Seq<char>)
    requires
        has_no_comma(start),
    ensures
        extract::before_comma(start + rest) == start + extract::before_comma(rest),
    decreases start.len(),
{
    let whole = start + rest;
    if start.len() == 0 {
        assert(whole == rest);
        assert(start + extract::before_comma(rest) == extract::before_comma(rest));
    } else {
        let tail = start.skip(1);
        assert forall|i: int| 0 <= i < tail.len() implies #[trigger] tail[i] != ',' by {
            assert(tail[i] == start[i + 1]);
        }
        lemma_before_comma(tail, rest);
        assert(whole.skip(1) == tail + rest);
        assert(whole[0] == start[0]);
        assert(seq![start[0]] + (tail + extract::before_comma(rest)) == start
            + extract::before_comma(rest));
    }
}

proof fn lemma_words_behind_blank(lead: Seq<char>, rest: Seq<char>)
    requires
        is_blank(lead),
    ensures
        text::words(lead + rest) == text::words(rest),
    decreases lead.len(),
{
    if lead.len() == 0 {
        assert(lead + rest == rest);
    } else {
        let tail = lead.skip(1);
        assert forall|i: int| 0 <= i < tail.len() implies text::white_space(#[trigger] tail[i]) by {
            assert(tail[i] == lead[i + 1]);
        }
        lemma_words_behind_blank(tail, rest);
        assert((lead + rest).skip(1) == tail + rest);
        assert((lead + rest)[0] == lead[0]);
    }
}

/// The first candidate of a `srcset` is its first run of characters that are
/// neither white space nor a comma; where a comma or the end comes before it,
/// there is none.
pub proof fn law_first_candidate(lead: Seq<char>, address: Seq<char>, rest: Seq<char>)
    requires
        is_blank(lead),
        text::is_solid(address),
        has_no_comma(address),
        rest.len() == 0 || rest[0] == ',' || text::white_space(rest[0]),
    ensures
        address.len() > 0 ==> extract::first_candidate(lead + address + rest) == Some(address),
        address.len() == 0 && (rest.len() == 0 || rest[0] == ',') ==> extract::first_candidate(
            lead + rest,
        ) is None,
{
    assert(has_no_comma(lead));
    let tail = extract::before_comma(rest);
    let start = lead + address;
    assert(has_no_comma(start));
    lemma_before_comma(start, rest);
    lemma_before_comma(lead, rest);
    assert(start + tail == lead + (address + tail));
    lemma_words_behind_blank(lead, address + tail);
    lemma_words_behind_blank(lead, tail);
    if address.len() > 0 {
        assert(tail.len() == 0 || text::white_space(tail[0]));
        text::lemma_first_word(address, tail);
    }
}

/// Where the first image of a cell has neither a `src` nor a `data-src`, its
/// address is the full address of the first candidate of its `srcset`.
pub proof fn law_address_of_srcset(cell: page::CellView, srcset: Seq<char>)
    requires
        cell.images.len() > 0,
        cell.images[0].src is None,
        cell.images[0].data_src is None,
        cell.images[0].srcset == Some(srcset),
    ensures
        extract::image_source(cell.images[0]) == extract::first_candidate(srcset),
        extract::first_candidate(srcset) is Some ==> extract::image_url(cell) == Some(
            wiki::wiki_url(extract::first_candidate(srcset)->0),
        ),
        extract::first_candidate(srcset) is None ==> extract::image_url(cell) is None,
{
}

/// A cell without an image, or whose first image has no source, has no address.
pub proof fn law_no_address(cell: page::CellView)
    requires
        cell.images.len() > 0 ==> cell.images[0].src is None && cell.images[0].data_src is None
            && cell.images[0].srcset is None,
    ensures
        extract::image_url(cell) is None,
{
}

/// The alternative text of the first image, all further images and all texts of
/// a cell do not matter for its address.
pub proof fn law_address_rests_on_sources(left: page::CellView, right: page::CellView)
    requires
        left.images.len() > 0,
        right.images.len() > 0,
        left.images[0].src == right.images[0].src,
        left.images[0].data_src == right.images[0].data_src,
        left.images[0].srcset == right.images[0].srcset,
    ensures
        extract::image_source(left.images[0]) == extract::image_source(right.images[0]),
        extract::image_url(left) == extract::image_url(right),
{
}

/// The text holds, in either case of ASCII letters, what is given in lower case.
pub open spec fn mentions(content: Seq<char>, lowered: Seq<char>) -> bool {
    text_laws::holds(text::lowercase(content), lowered)
}

/// The alternative text names the direction: it mentions its arrow, and no arrow
/// that goes before it.
pub open spec fn names_direction(alt: Seq<char>, direction: Seq<char>) -> bool {
    let up = mentions(alt, "arrow up"@);
    let down = mentions(alt, "arrow down"@);
    let left = mentions(alt, "arrow left"@);
    let right = mentions(alt, "arrow right"@);
    ||| direction == "UP"@ && up
    ||| direction == "DOWN"@ && down && !up
    ||| direction == "LEFT"@ && left && !up && !down
    ||| direction == "RIGHT"@ && right && !up && !down && !left
}

/// The alternative text mentions an arrow.
pub open spec fn mentions_arrow(alt: Seq<char>) -> bool {
    ||| mentions(alt, "arrow up"@)
    ||| mentions(alt, "arrow down"@)
    ||| mentions(alt, "arrow left"@)
    ||| mentions(alt, "arrow right"@)
}

proof fn lemma_directions_differ()
    ensures
        "UP"@ != "DOWN"@,
        "UP"@ != "LEFT"@,
        "UP"@ != "RIGHT"@,
        "DOWN"@ != "LEFT"@,
        "DOWN"@ != "RIGHT"@,
        "LEFT"@ != "RIGHT"@,
{
    reveal_strlit("UP");
    reveal_strlit("DOWN");
    reveal_strlit("LEFT");
    reveal_strlit("RIGHT");
    assert("UP"@.len() != "DOWN"@.len());
    assert("UP"@.len() != "LEFT"@.len());
    assert("UP"@.len() != "RIGHT"@.len());
    assert("DOWN"@[0] != "LEFT"@[0]);
    assert("DOWN"@.len() != "RIGHT"@.len());
    assert("LEFT"@.len() != "RIGHT"@.len());
}

/// An alternative text shows a direction exactly where it mentions an arrow, and
/// the direction is the one that it names.
pub proof fn law_alt_direction(alt: Seq<char>, direction: Seq<char>)
    ensures
        extract::alt_direction(alt) is Some <==> mentions_arrow(alt),
        extract::alt_direction(alt) == Some(direction) <==> names_direction(alt, direction),
{
    lemma_directions_differ();
    let lowered = text::lowercase(alt);
    text_laws::law_occurrence(lowered, "arrow up"@);
    text_laws::law_occurrence(lowered, "arrow down"@);
    text_laws::law_occurrence(lowered, "arrow left"@);
    text_laws::law_occurrence(lowered, "arrow right"@);
}

/// The image shows the direction by its alternative text.
pub open spec fn shows_direction(image: page::ImageView, direction: Seq<char>) -> bool {
    image.alt is Some && names_direction(image.alt->0, direction)
}

/// The image has an alternative text that mentions an arrow.
pub open spec fn shows_arrow(image: page::ImageView) -> bool {
    image.alt is Some && mentions_arrow(image.alt->0)
}

/// An image shows a direction by its alternative text alone.
pub proof fn law_image_direction(image: page::ImageView, direction: Seq<char>)
    ensures
        extract::image_direction(image) is Some <==> shows_arrow(image),
        extract::image_direction(image) == Some(direction) <==> shows_direction(image, direction),
{
    if image.alt is Some {
        law_alt_direction(image.alt->0, direction);
    }
}

/// The command has one step for each image that shows an arrow, and no other, in
/// the order of the images at `places`: the direction that the image shows.
pub open spec fn is_command_of_images(
    images: Seq<page::ImageView>,
    places: Seq<int>,
    command: Seq<Seq<char>>,
) -> bool {
    &&& selection::in_order(places, images.len())
    &&& forall|i: int|
        0 <= i < images.len() ==> (shows_arrow(#[trigger] images[i]) <==> places.contains(i))
    &&& command.len() == places.len()
    &&& forall|k: int|
        0 <= k < command.len() ==> shows_direction(
            images[#[trigger] places[k]],
            command[k],
        )
}

proof fn lemma_command_of_images(images: Seq<page::ImageView>) -> (places: Seq<int>)
    ensures
        is_command_of_images(images, places, extract::image_command(images)),
{
    let f = |image: page::ImageView| extract::image_direction(image);
    let places = selection::lemma_places(images, f);
    let command = extract::image_command(images);
    assert forall|i: int| 0 <= i < images.len() implies (shows_arrow(#[trigger] images[i])
        <==> places.contains(i)) by {
        law_image_direction(images[i], "UP"@);
        if places.contains(i) {
            let k = choose|k: int| 0 <= k < places.len() && places[k] == i;
            assert(f(images[places[k]]) == Some(command[k]));
        }
        if shows_arrow(images[i]) {
            assert(f(images[i]) is Some);
        }
    }
    assert forall|k: int| 0 <= k < command.len() implies shows_direction(
        images[#[trigger] places[k]],
        command[k],
    ) by {
        assert(f(images[places[k]]) == Some(command[k]));
        law_image_direction(images[places[k]], command[k]);
    }
    places
}

/// Where an image of a cell shows an arrow, the command has exactly as many
/// steps as there are such images, and each step is the direction that its image
/// shows, in the order of the images and however many there are. The text of the
/// cell counts only where no image shows an arrow.
pub proof fn law_command_of_images(cell: page::CellView)
    ensures
        (exists|i: int| 0 <= i < cell.images.len() && shows_arrow(#[trigger] cell.images[i]))
            ==> exists|places: Seq<int>|
            is_command_of_images(cell.images, places, extract::cell_command(cell)),
        (forall|i: int| 0 <= i < cell.images.len() ==> !shows_arrow(#[trigger] cell.images[i]))
            ==> extract::cell_command(cell) == extract::text_command(
            extract::shown_text(cell.texts),
        ),
{
    let places = lemma_command_of_images(cell.images);
    let command = extract::image_command(cell.images);
    if exists|i: int| 0 <= i < cell.images.len() && shows_arrow(#[trigger] cell.images[i]) {
        let i = choose|i: int|
            0 <= i < cell.images.len() && shows_arrow(#[trigger] cell.images[i]);
        assert(places.contains(i));
        assert(command.len() > 0);
        assert(is_command_of_images(cell.images, places, extract::cell_command(cell)));
    } else {
        if places.len() > 0 {
            assert(places.contains(places[0]));
            assert(shows_arrow(cell.images[places[0]]));
        }
    }
}

/// A further image that shows an arrow adds its direction as the last step of
/// the command of the images, and one that shows none adds nothing.
pub proof fn law_one_image_more(images: Seq<page::ImageView>, image: page::ImageView)
    ensures
        extract::image_command(Seq::empty()).len() == 0,
        !shows_arrow(image) ==> extract::image_command(images.push(image))
            == extract::image_command(images),
        forall|direction: Seq<char>|
            shows_direction(image, direction) ==> extract::image_command(images.push(image)) == #[trigger]
                extract::image_command(images).push(direction),
{
    let f = |image: page::ImageView| extract::image_direction(image);
    selection::lemma_filter_map_push(images, image, f);
    law_image_direction(image, "UP"@);
    let before = extract::image_command(images);
    let after = extract::image_command(images.push(image));
    if !shows_arrow(image) {
        assert(after == before);
    }
    assert forall|direction: Seq<char>| shows_direction(image, direction) implies after
        == #[trigger] before.push(direction) by {
        law_image_direction(image, direction);
        assert(after == before + seq![direction]);
        assert(before + seq![direction] == before.push(direction));
    }
}

/// A word names a direction exactly where it is one of the four words in either
/// case of ASCII letters, and the direction is that word in upper case.
pub proof fn law_word_direction(word: Seq<char>, direction: Seq<char>)
    ensures
        extract::word_direction(word) == Some(direction) <==> text::uppercase(word) == direction
            && laws::is_direction(direction),
        extract::word_direction(word) is Some <==> laws::is_direction(text::uppercase(word)),
{
}

/// A text is spelled out character by character: an arrow becomes its word, set
/// off by spaces, and any other character stays.
pub proof fn law_spelled_out(left: Seq<char>, right: Seq<char>, c: char)
    ensures
        extract::spelled_out(Seq::empty()).len() == 0,
        extract::spelled_out(left + right) == extract::spelled_out(left) + extract::spelled_out(
            right,
        ),
        c as u32 == 0x2191 ==> extract::spelled_out(seq![c]) == " UP "@,
        c as u32 == 0x2193 ==> extract::spelled_out(seq![c]) == " DOWN "@,
        c as u32 == 0x2190 ==> extract::spelled_out(seq![c]) == " LEFT "@,
        c as u32 == 0x2192 ==> extract::spelled_out(seq![c]) == " RIGHT "@,
        !(0x2190 <= c as u32 <= 0x2193) ==> extract::spelled_out(seq![c]) == seq![c],
{
    let f = |c: char| extract::spelled(c);
    assert((left + right).map_values(f) == left.map_values(f) + right.map_values(f));
    vstd::seq_lib::lemma_flatten_concat(left.map_values(f), right.map_values(f));
    let parts = Seq::<Seq<char>>::empty();
    parts.lemma_flatten_push(extract::spelled(c));
    assert(seq![c].map_values(f) == parts.push(extract::spelled(c)));
    assert(parts.flatten() + extract::spelled(c) == extract::spelled(c));
    assert(Seq::<char>::empty().map_values(f) == parts);
}

/// The direction that an arrow stands for.
pub open spec fn is_arrow(c: char, direction: Seq<char>) -> bool {
    ||| c as u32 == 0x2191 && direction == "UP"@
    ||| c as u32 == 0x2193 && direction == "DOWN"@
    ||| c as u32 == 0x2190 && direction == "LEFT"@
    ||| c as u32 == 0x2192 && direction == "RIGHT"@
}

proof fn lemma_spelled_word(direction: Seq<char>)
    requires
        laws::is_direction(direction),
    ensures
        extract::word_direction(direction) == Some(direction),
        text::words(seq![' '] + direction + seq![' ']) == seq![direction],
{
    reveal_strlit("UP");
    reveal_strlit("DOWN");
    reveal_strlit("LEFT");
    reveal_strlit("RIGHT");
    assert(text::uppercase(direction) == direction);
    assert(text::is_solid(direction));
    let behind = direction + seq![' '];
    text::lemma_first_word(direction, seq![' ']);
    let blank = seq![' '];
    assert(blank.skip(1) == Seq::<char>::empty());
    assert(text::words(Seq::<char>::empty()) == Seq::<Seq<char>>::empty());
    assert(text::words(blank) == Seq::<Seq<char>>::empty());
    let whole = seq![' '] + direction + seq![' '];
    assert(whole == seq![' '] + behind);
    assert(whole.skip(1) == behind);
    assert(seq![direction] + Seq::<Seq<char>>::empty() == seq![direction]);
}

/// The directions that a text names are those that its parts name, wherever
/// white space or an arrow parts it, and an arrow adds its own between them.
pub proof fn law_directions_of_text(
    before: Seq<char>,
    c: char,
    after: Seq<char>,
    direction: Seq<char>,
)
    ensures
        text::white_space(c) ==> extract::text_command(before + seq![c] + after)
            == extract::text_command(before) + extract::text_command(after),
        is_arrow(c, direction) ==> extract::text_command(before + seq![c] + after)
            == extract::text_command(before) + seq![direction] + extract::text_command(after),
{
    let f = |word: Seq<char>| extract::word_direction(word);
    let left = extract::spelled_out(before);
    let right = extract::spelled_out(after);
    law_spelled_out(before + seq![c], after, c);
    law_spelled_out(before, seq![c], c);
    let whole = extract::spelled_out(before + seq![c] + after);
    if text::white_space(c) {
        assert(whole == left + seq![c] + right);
        text_laws::law_words_are_parted(left, c, right);
        selection::lemma_filter_map_add(text::words(left), text::words(right), f);
    }
    if is_arrow(c, direction) {
        reveal_strlit(" UP ");
        reveal_strlit(" DOWN ");
        reveal_strlit(" LEFT ");
        reveal_strlit(" RIGHT ");
        reveal_strlit("UP");
        reveal_strlit("DOWN");
        reveal_strlit("LEFT");
        reveal_strlit("RIGHT");
        let middle = extract::spelled_out(seq![c]);
        assert(middle == seq![' '] + direction + seq![' ']);
        assert(whole == left + seq![' '] + (direction + seq![' '] + right));
        lemma_spelled_word(direction);
        text_laws::law_words_are_parted(left, ' ', direction + seq![' '] + right);
        text_laws::law_words_are_parted(direction, ' ', right);
        text_laws::law_one_word(direction);
        assert(text::words(whole) == text::words(left) + (seq![direction] + text::words(right)));
        selection::lemma_filter_map_add(
            text::words(left),
            seq![direction] + text::words(right),
            f,
        );
        selection::lemma_filter_map_add(seq![direction], text::words(right), f);
        selection::lemma_filter_map_push(Seq::<Seq<char>>::empty(), direction, f);
        assert(Seq::<Seq<char>>::empty().push(direction) == seq![direction]);
        assert(seq![direction].filter_map(f) == seq![direction]);
        assert(extract::text_command(before + seq![c] + after) == extract::text_command(before)
            + seq![direction] + extract::text_command(after));
    }
}

/// A text without white space and arrows names a direction exactly where it is
/// one of the four words, in either case of ASCII letters.
pub proof fn law_direction_of_one_word(word: Seq<char>)
    requires
        forall|i: int|
            0 <= i < word.len() ==> !text::white_space(#[trigger] word[i]) && !(0x2190
                <= word[i] as u32 <= 0x2193),
    ensures
        laws::is_direction(text::uppercase(word)) ==> extract::text_command(word)
            == seq![text::uppercase(word)],
        !laws::is_direction(text::uppercase(word)) ==> extract::text_command(word).len() == 0,
{
    let f = |word: Seq<char>| extract::word_direction(word);
    lemma_spelled_out_stays(word);
    text_laws::law_one_word(word);
    if word.len() > 0 {
        selection::lemma_filter_map_push(Seq::<Seq<char>>::empty(), word, f);
        assert(Seq::<Seq<char>>::empty().push(word) == seq![word]);
        if laws::is_direction(text::uppercase(word)) {
            assert(seq![word].filter_map(f) == seq![text::uppercase(word)]);
        }
    } else {
        reveal_strlit("UP");
        reveal_strlit("DOWN");
        reveal_strlit("LEFT");
        reveal_strlit("RIGHT");
        assert(text::uppercase(word).len() == 0);
        assert(text::words(word) == Seq::<Seq<char>>::empty());
    }
}

proof fn lemma_spelled_out_stays(content: Seq<char>)
    requires
        forall|i: int|
            0 <= i < content.len() ==> !(0x2190 <= (#[trigger] content[i]) as u32 <= 0x2193),
    ensures
        extract::spelled_out(content) == content,
    decreases content.len(),
{
    if content.len() == 0 {
        law_spelled_out(content, content, ' ');
        assert(content == Seq::<char>::empty());
    } else {
        let start = content.drop_last();
        assert forall|i: int| 0 <= i < start.len() implies !(0x2190 <= (
        #[trigger] start[i]) as u32 <= 0x2193) by {
            assert(start[i] == content[i]);
        }
        lemma_spelled_out_stays(start);
        law_spelled_out(start, seq![content.last()], content.last());
        assert(start + seq![content.last()] == content);
    }
}

} // verus!
