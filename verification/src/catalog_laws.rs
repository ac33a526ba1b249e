//! What catalogs hold: when they are complete, what a refresh and a load give,
//! and what ids are.

use crate::cache;
use crate::cache::{CachedCatalog, BACKUP_EXTENSION, CACHE_FILE_NAME};
use crate::catalog;
use crate::catalog::{
    Stratagem, StratagemCatalog, CURRENT_STRATAGEMS_SECTION, MISSION_STRATAGEMS_SECTION,
};
use crate::encoding;
use crate::refresh;
use crate::text;
use vstd::prelude::*;

verus! {

/// The names of the sections and of the files of the cache.
pub proof fn law_names()
    ensures
        CURRENT_STRATAGEMS_SECTION@ == "Current Stratagems"@,
        MISSION_STRATAGEMS_SECTION@ == "Mission Stratagems"@,
        CACHE_FILE_NAME@ == "stratagems.toml"@,
        BACKUP_EXTENSION@ == "toml.bak"@,
{
}

/// The model of a stratagem and that of a catalog hold every field, and that of
/// a list holds each item.
pub proof fn law_views(item: Stratagem, items: Seq<Stratagem>, whole: StratagemCatalog)
    ensures
        item@.id == item.id@,
        item@.section == item.section@,
        item@.category == item.category@,
        item@.name == item.name@,
        item@.icon_url == item.icon_url@,
        item@.command.len() == item.command@.len(),
        forall|i: int|
            0 <= i < item.command@.len() ==> #[trigger] item@.command[i] == item.command@[i]@,
        catalog::item_views(items).len() == items.len(),
        forall|i: int| 0 <= i < items.len() ==> #[trigger] catalog::item_views(items)[i] == items[i]@,
        whole@.updated_at_unix == whole.updated_at_unix,
        whole@.source_url == whole.source_url@,
        whole@.items.len() == whole.items@.len(),
        forall|i: int|
            0 <= i < whole.items@.len() ==> #[trigger] whole@.items[i] == whole.items@[i]@,
{
}

/// One of the items is of the current section, and one of that of the missions.
pub open spec fn covers_both_sections(items: Seq<catalog::StratagemView>) -> bool {
    &&& exists|i: int|
        0 <= i < items.len() && (#[trigger] items[i]).section == "Current Stratagems"@
    &&& exists|i: int|
        0 <= i < items.len() && (#[trigger] items[i]).section == "Mission Stratagems"@
}

/// Items are complete exactly where one of them is of the current section and
/// one of that of the missions, however many there are.
pub proof fn law_complete_items(items: Seq<catalog::StratagemView>)
    ensures
        catalog::is_complete(items) <==> covers_both_sections(items),
        forall|section: Seq<char>| #[trigger]
            catalog::has_section(items, section) <==> exists|i: int|
                0 <= i < items.len() && (#[trigger] items[i]).section == section,
{
}

/// Items of one section alone are never complete, however many there are.
pub proof fn law_one_section_is_not_complete(
    items: Seq<catalog::StratagemView>,
    section: Seq<char>,
)
    requires
        forall|i: int| 0 <= i < items.len() ==> (#[trigger] items[i]).section == section,
    ensures
        !catalog::is_complete(items),
{
    reveal_strlit("Current Stratagems");
    reveal_strlit("Mission Stratagems");
    assert("Current Stratagems"@[0] != "Mission Stratagems"@[0]);
    law_complete_items(items);
}

/// Every catalog that a refresh gives holds an item of each section. It has the
/// items that were read, in their order, each with the id of its command and
/// otherwise as it was, the time of the refresh and the address of the page.
pub proof fn law_refreshed_catalog(items: Seq<catalog::StratagemView>, updated_at_unix: u64)
    ensures
        ({
            let result = refresh::refresh(Ok(items), updated_at_unix);
            &&& result is Ok <==> covers_both_sections(items)
            &&& result is Ok ==> {
                let fresh = result->Ok_0;
                &&& covers_both_sections(fresh.items)
                &&& fresh.updated_at_unix == Some(updated_at_unix)
                &&& fresh.source_url == "https://helldivers.wiki.gg/wiki/Stratagems"@
                &&& fresh.items.len() == items.len()
                &&& forall|i: int|
                    0 <= i < items.len() ==> {
                        &&& (#[trigger] fresh.items[i]).id == encoding::base64_text(
                            text::joined(items[i].command, ","@),
                        )
                        &&& fresh.items[i].section == items[i].section
                        &&& fresh.items[i].category == items[i].category
                        &&& fresh.items[i].name == items[i].name
                        &&& fresh.items[i].icon_url == items[i].icon_url
                        &&& fresh.items[i].command == items[i].command
                    }
            }
            &&& result is Err ==> result->Err_0
                == "Parsed stratagem data was incomplete; keeping the existing cached catalog."@
        }),
{
    law_complete_items(items);
    if catalog::is_complete(items) {
        let fresh = refresh::fresh_catalog(items, updated_at_unix);
        let i = choose|i: int|
            0 <= i < items.len() && (#[trigger] items[i]).section == "Current Stratagems"@;
        let j = choose|j: int|
            0 <= j < items.len() && (#[trigger] items[j]).section == "Mission Stratagems"@;
        assert(fresh.items[i].section == items[i].section);
        assert(fresh.items[j].section == items[j].section);
    }
}

/// A refresh on a failed extraction fails with the error of the extraction.
pub proof fn law_failed_extraction(error: Seq<char>, updated_at_unix: u64)
    ensures
        refresh::refresh(Err(error), updated_at_unix) == Err::<catalog::CatalogView, Seq<char>>(
            error,
        ),
{
}

/// The result of a refresh holds its catalog or its error.
pub proof fn law_refresh_view(whole: StratagemCatalog, error: String)
    ensures
        refresh::refresh_view(Ok(whole)) == Ok::<catalog::CatalogView, Seq<char>>(whole@),
        refresh::refresh_view(Err(error)) == Err::<catalog::CatalogView, Seq<char>>(error@),
{
}

/// The id of a command is the Base64 form of its steps, joined by commas.
pub proof fn law_stratagem_id(command: Seq<Seq<char>>, step: Seq<char>)
    ensures
        catalog::stratagem_id(seq![step]) == encoding::base64_text(step),
        catalog::stratagem_id(command) == encoding::base64_form(
            vstd::utf8::encode_utf8(text::joined(command, ","@)),
        ),
        encoding::base64_text(step) == encoding::base64_form(vstd::utf8::encode_utf8(step)),
{
}

/// Every item without an id gets that of its command, every other keeps its own,
/// and nothing else changes.
pub proof fn law_filled_ids(before: catalog::CatalogView)
    ensures
        ({
            let after = catalog::with_missing_ids(before);
            &&& after.updated_at_unix == before.updated_at_unix
            &&& after.source_url == before.source_url
            &&& after.items.len() == before.items.len()
            &&& forall|i: int|
                0 <= i < before.items.len() ==> {
                    &&& (#[trigger] after.items[i]).id == if before.items[i].id.len() == 0 {
                        encoding::base64_text(text::joined(before.items[i].command, ","@))
                    } else {
                        before.items[i].id
                    }
                    &&& after.items[i].section == before.items[i].section
                    &&& after.items[i].category == before.items[i].category
                    &&& after.items[i].name == before.items[i].name
                    &&& after.items[i].icon_url == before.items[i].icon_url
                    &&& after.items[i].command == before.items[i].command
                }
        }),
        catalog::lacks_ids(before) <==> exists|i: int|
            0 <= i < before.items.len() && (#[trigger] before.items[i]).id.len() == 0,
{
}

/// Before anything was read, the catalog has no time, no items and the address
/// of the page.
pub proof fn law_empty_catalog()
    ensures
        catalog::empty_catalog().updated_at_unix is None,
        catalog::empty_catalog().source_url == "https://helldivers.wiki.gg/wiki/Stratagems"@,
        catalog::empty_catalog().items.len() == 0,
{
}

/// Where no catalog is cached, or one that cannot be read, loading gives the
/// empty one and saves it. A cached catalog is given with the ids that it lacks,
/// and saved exactly where it lacked one.
pub proof fn law_loaded_catalog(cached: StratagemCatalog)
    ensures
        cache::catalog_to_use(CachedCatalog::Missing).items.len() == 0,
        cache::catalog_to_use(CachedCatalog::Missing).updated_at_unix is None,
        cache::catalog_to_use(CachedCatalog::Missing).source_url
            == "https://helldivers.wiki.gg/wiki/Stratagems"@,
        cache::catalog_to_use(CachedCatalog::Invalid) == cache::catalog_to_use(
            CachedCatalog::Missing,
        ),
        cache::needs_saving(CachedCatalog::Missing),
        cache::needs_saving(CachedCatalog::Invalid),
        cache::needs_saving(CachedCatalog::Valid(cached)) <==> exists|i: int|
            0 <= i < cached.items@.len() && (#[trigger] cached.items@[i]).id@.len() == 0,
        ({
            let used = cache::catalog_to_use(CachedCatalog::Valid(cached));
            &&& used.updated_at_unix == cached.updated_at_unix
            &&& used.source_url == cached.source_url@
            &&& used.items.len() == cached.items@.len()
            &&& forall|i: int|
                0 <= i < cached.items@.len() ==> {
                    &&& (#[trigger] used.items[i]).id == if cached.items@[i].id@.len() == 0 {
                        encoding::base64_text(text::joined(cached.items@[i]@.command, ","@))
                    } else {
                        cached.items@[i].id@
                    }
                    &&& used.items[i].section == cached.items@[i].section@
                    &&& used.items[i].category == cached.items@[i].category@
                    &&& used.items[i].name == cached.items@[i].name@
                    &&& used.items[i].icon_url == cached.items@[i].icon_url@
                    &&& used.items[i].command == text::views(cached.items@[i].command@)
                }
        }),
{
    law_filled_ids(cached@);
    law_empty_catalog();
    if cache::needs_saving(CachedCatalog::Valid(cached)) {
        let i = choose|i: int|
            0 <= i < cached@.items.len() && (#[trigger] cached@.items[i]).id.len() == 0;
        assert(cached.items@[i].id@.len() == 0);
    }
    if exists|i: int| 0 <= i < cached.items@.len() && (#[trigger] cached.items@[i]).id@.len() == 0 {
        let i = choose|i: int|
            0 <= i < cached.items@.len() && (#[trigger] cached.items@[i]).id@.len() == 0;
        assert(cached@.items[i].id.len() == 0);
    }
}

/// The symbols stand for their values in the order of the alphabet.
pub proof fn law_symbols(value: int)
    ensures
        0 <= value < 26 ==> encoding::symbol(value) as u32 == 65 + value,
        26 <= value < 52 ==> encoding::symbol(value) as u32 == 97 + value - 26,
        52 <= value < 62 ==> encoding::symbol(value) as u32 == 48 + value - 52,
        encoding::symbol(62) == '+',
        encoding::symbol(63) == '/',
{
}

/// The four symbols are those of the values, whose six bits each make up the
/// given twenty-four, from the highest to the lowest.
pub open spec fn is_group(symbols: Seq<char>, bits: int, p: int, q: int, r: int, s: int) -> bool {
    &&& 0 <= p < 64 && 0 <= q < 64 && 0 <= r < 64 && 0 <= s < 64
    &&& bits == p * 262144 + q * 4096 + r * 64 + s
    &&& symbols.len() == 4
    &&& symbols[0] == encoding::symbol(p)
    &&& symbols[1] == encoding::symbol(q)
    &&& symbols[2] == encoding::symbol(r)
    &&& symbols[3] == encoding::symbol(s)
}

/// The four symbols stand for the twenty-four bits.
pub open spec fn stand_for(symbols: Seq<char>, bits: int) -> bool {
    exists|p: int, q: int, r: int, s: int| #[trigger] is_group(symbols, bits, p, q, r, s)
}

/// Three bytes make four symbols, and all that follows them comes behind.
pub proof fn law_base64_of_three(a: u8, b: u8, c: u8, rest: Seq<u8>)
    ensures
        encoding::base64_form(seq![a, b, c] + rest).len() == 4 + encoding::base64_form(rest).len(),
        stand_for(
            encoding::base64_form(seq![a, b, c] + rest).take(4),
            a * 65536 + b * 256 + c,
        ),
        encoding::base64_form(seq![a, b, c] + rest).skip(4) == encoding::base64_form(rest),
{
    let whole = seq![a, b, c] + rest;
    assert(whole.skip(3) == rest);
    let form = encoding::base64_form(whole);
    assert(form.skip(4) == encoding::base64_form(rest));
    let x = a as int;
    let y = b as int;
    let z = c as int;
    assert(is_group(
        form.take(4),
        x * 65536 + y * 256 + z,
        x / 4,
        x % 4 * 16 + y / 16,
        y % 16 * 4 + z / 64,
        z % 64,
    ));
}

/// Two bytes make three symbols and one of padding.
pub proof fn law_base64_of_two(a: u8, b: u8)
    ensures
        encoding::base64_form(seq![a, b]).len() == 4,
        encoding::base64_form(seq![a, b])[3] == '=',
        stand_for(encoding::base64_form(seq![a, b]).update(3, 'A'), a * 65536 + b * 256),
{
    law_symbols(0);
    let form = encoding::base64_form(seq![a, b]);
    let x = a as int;
    let y = b as int;
    assert(is_group(
        form.update(3, 'A'),
        x * 65536 + y * 256,
        x / 4,
        x % 4 * 16 + y / 16,
        y % 16 * 4,
        0,
    ));
}

/// One byte makes two symbols and two of padding, and none makes none.
pub proof fn law_base64_of_one(a: u8)
    ensures
        encoding::base64_form(Seq::empty()).len() == 0,
        encoding::base64_form(seq![a]).len() == 4,
        encoding::base64_form(seq![a])[2] == '=',
        encoding::base64_form(seq![a])[3] == '=',
        stand_for(
            encoding::base64_form(seq![a]).update(2, 'A').update(3, 'A'),
            a * 65536,
        ),
{
    law_symbols(0);
    let form = encoding::base64_form(seq![a]);
    let x = a as int;
    assert(is_group(
        form.update(2, 'A').update(3, 'A'),
        x * 65536,
        x / 4,
        x % 4 * 16,
        0,
        0,
    ));
}

} // verus!
