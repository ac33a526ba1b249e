//! Refreshing of the catalog from a page of the wiki.

use crate::catalog;
use crate::catalog::{Stratagem, StratagemCatalog};
use crate::catalog_laws;
use crate::document;
use crate::extract;
use crate::laws;
use crate::page;
use crate::wiki;
use vstd::prelude::*;

verus! {

/// The catalog of `items`, read at the given time.
pub open spec fn fresh_catalog(
    items: Seq<catalog::StratagemView>,
    updated_at_unix: u64,
) -> catalog::CatalogView {
    catalog::CatalogView {
        updated_at_unix: Some(updated_at_unix),
        source_url: wiki::WIKI_PAGE_URL@,
        items: items.map_values(|item: catalog::StratagemView| catalog::with_id(item)),
    }
}

/// What a refresh gives on an extraction: the catalog of its items, or an error
/// where the extraction failed or misses a section.
pub open spec fn refresh(
    extraction: Result<Seq<catalog::StratagemView>, Seq<char>>,
    updated_at_unix: u64,
) -> Result<catalog::CatalogView, Seq<char>> {
    match extraction {
        Err(error) => Err(error),
        Ok(items) => if catalog::is_complete(items) {
            Ok(fresh_catalog(items, updated_at_unix))
        } else {
            Err("Parsed stratagem data was incomplete; keeping the existing cached catalog."@)
        },
    }
}

/// What the result of a refresh holds.
pub open spec fn refresh_view(result: Result<StratagemCatalog, String>) -> Result<
    catalog::CatalogView,
    Seq<char>,
> {
    match result {
        Ok(catalog) => Ok(catalog@),
        Err(error) => Err(error@),
    }
}

/// Makes the catalog of an extraction's items, read at the given time.
pub fn build_catalog(extraction: Result<Vec<Stratagem>, String>, updated_at_unix: u64) -> (result:
    Result<StratagemCatalog, String>)
    ensures
        refresh_view(result) == refresh(extract::extraction_view(extraction), updated_at_unix),
        result is Ok ==> catalog_laws::covers_both_sections(result->Ok_0@.items),
{
    let extracted = match extraction {
        Ok(items) => items,
        Err(error) => {
            return Err(error);
        },
    };
    if !catalog::has_complete_stratagem_sections(extracted.as_slice()) {
        return Err(
            "Parsed stratagem data was incomplete; keeping the existing cached catalog.".to_string(),
        );
    }
    let ghost before = catalog::item_views(extracted@);
    let mut items = extracted;
    let mut i: usize = 0;
    while i < items.len()
        invariant
            i <= items@.len(),
            items@.len() == before.len(),
            forall|j: int|
                0 <= j < i ==> (#[trigger] items@[j])@ == catalog::with_id(before[j]),
            forall|j: int| i <= j < before.len() ==> (#[trigger] items@[j])@ == before[j],
        decreases items@.len() - i,
    {
        let id = catalog::compute_stratagem_id(items[i].command.as_slice());
        items[i].id = id;
        i += 1;
    }
    let result = StratagemCatalog {
        updated_at_unix: Some(updated_at_unix),
        source_url: wiki::WIKI_PAGE_URL.to_string(),
        items,
    };
    assert(result@.items == fresh_catalog(before, updated_at_unix).items);
    proof {
        catalog_laws::law_refreshed_catalog(before, updated_at_unix);
    }
    Ok(result)
}

/// Makes the catalog of the stratagems that the page `html` lists, read at the
/// given time. One of its items at least is of each section; each has an id, and
/// two have the same id where they have the same command and nowhere else.
pub fn refresh_catalog(html: &str, updated_at_unix: u64) -> (result: Result<
    StratagemCatalog,
    String,
>)
    requires
        html.len() <= document::MAX_HTML_BYTES,
    ensures
        refresh_view(result) == refresh(
            extract::extraction(document::parsed_elements(html@)),
            updated_at_unix,
        ),
        result is Ok ==> catalog_laws::covers_both_sections(result->Ok_0@.items),
        result is Ok ==> !catalog::lacks_ids(result->Ok_0@),
        result is Ok ==> forall|i: int, j: int|
            0 <= i < result->Ok_0@.items.len() && 0 <= j < result->Ok_0@.items.len() ==> ((
            #[trigger] result->Ok_0@.items[i]).id == (#[trigger] result->Ok_0@.items[j]).id
                <==> result->Ok_0@.items[i].command == result->Ok_0@.items[j].command),
{
    let extraction = extract::parse_stratagems_from_html(html);
    let result = build_catalog(extraction, updated_at_unix);
    proof {
        if result is Ok {
            let blocks = page::blocks_of(document::parsed_elements(html@))->0;
            let listed = extract::page_stratagems(blocks);
            let items = result->Ok_0@.items;
            laws::law_page_stratagems(blocks);
            assert forall|i: int| 0 <= i < items.len() implies catalog::is_separable(
                (#[trigger] items[i]).command,
            ) && items[i].id.len() > 0 by {
                assert(items[i] == catalog::with_id(listed[i]));
                assert(laws::is_extracted(listed[i]));
                laws::law_commands_are_separable(items[i].command);
                catalog::law_ids_tell_commands_apart(items[i].command, items[i].command);
            }
            assert forall|i: int, j: int|
                0 <= i < items.len() && 0 <= j < items.len() implies ((#[trigger] items[i]).id == (
            #[trigger] items[j]).id <==> items[i].command == items[j].command) by {
                assert(items[i] == catalog::with_id(listed[i]));
                assert(items[j] == catalog::with_id(listed[j]));
                catalog::law_ids_tell_commands_apart(items[i].command, items[j].command);
            }
        }
    }
    result
}

} // verus!
