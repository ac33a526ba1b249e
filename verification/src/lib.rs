//! Stratagem catalog of a game wiki: reads the wiki's page, extracts the
//! stratagems it lists and maintains the cached catalog built from them.
//!
//! - [`wiki`]: the wiki's addresses, which of its answers are used, and what
//!   follows each request.
//! - [`document`]: HTML documents, as the crate `scraper` parses and searches
//!   them.
//! - [`page`]: the parts of a page that list stratagems, read from a document.
//! - [`extract`]: the stratagems that these parts list.
//! - [`catalog`]: stratagems, their ids and the catalog that holds them.
//! - [`encoding`]: the Base64 form of texts, as the crate `base64` makes it.
//! - [`refresh`]: the catalog of a page.
//! - [`cache`]: the decisions of loading the cached catalog.
//! - [`clock`]: the time at which a catalog was read.
//! - [`text`]: the text operations that all of these use.
//! - [`laws`]: what holds of the library as a whole; of its parts,
//!   [`text_laws`], [`wiki_laws`], [`page_laws`], [`cell_laws`],
//!   [`listing_laws`] and [`catalog_laws`].
//! - [`selection`]: what picking items out of a sequence keeps.

pub mod cache;
pub mod catalog;
pub mod catalog_laws;
pub mod cell_laws;
pub mod clock;
pub mod document;
pub mod encoding;
pub mod extract;
pub mod laws;
pub mod listing_laws;
pub mod page;
pub mod page_laws;
pub mod refresh;
pub mod selection;
pub mod text;
pub mod text_laws;
pub mod wiki;
pub mod wiki_laws;

pub use cache::{load_catalog, CachedCatalog, LoadedCatalog};
pub use catalog::{
    compute_stratagem_id, fill_missing_ids, has_complete_stratagem_sections, Stratagem,
    StratagemCatalog, CURRENT_STRATAGEMS_SECTION, MISSION_STRATAGEMS_SECTION,
};
pub use clock::current_unix_timestamp;
pub use extract::{
    classify_stratagem_summary, direction_from_alt, extract_command, extract_image_url,
    extract_name, extract_text, find_column_index, parse_stratagem_table,
    parse_stratagems_from_html, table_has_required_columns,
};
pub use refresh::{build_catalog, refresh_catalog};
pub use text::normalize_whitespace;
pub use wiki::{
    after_api_request, after_page_request, is_valid_wiki_html, looks_like_cloudflare_challenge,
    resolve_wiki_url,
};
