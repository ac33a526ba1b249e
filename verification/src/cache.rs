//! Loading of the cached catalog.

use crate::catalog;
use crate::catalog::StratagemCatalog;
use crate::laws;
use crate::text;
use vstd::prelude::*;

verus! {

/// The name of the file that holds the cached catalog.
pub const CACHE_FILE_NAME: &'static str = "stratagems.toml";

/// The extension under which an unreadable cache is kept.
pub const BACKUP_EXTENSION: &'static str = "toml.bak";

/// What the place of the cached catalog holds.
#[derive(Debug)]
pub enum CachedCatalog {
    /// No file.
    Missing,
    /// A file that holds no catalog.
    Invalid,
    /// A file that holds this catalog.
    Valid(StratagemCatalog),
}

/// A loaded catalog and what is to be done with the cache.
#[derive(Debug)]
pub struct LoadedCatalog {
    /// The catalog to use.
    pub catalog: StratagemCatalog,
    /// The file is to be kept under another name before anything is saved.
    pub back_up: bool,
    /// The catalog is to be saved.
    pub save: bool,
}

/// The catalog that loading gives: the cached one, with the ids that it lacks;
/// the empty one where none is cached.
pub open spec fn catalog_to_use(cached: CachedCatalog) -> catalog::CatalogView {
    match cached {
        CachedCatalog::Missing => catalog::empty_catalog(),
        CachedCatalog::Invalid => catalog::empty_catalog(),
        CachedCatalog::Valid(cached) => catalog::with_missing_ids(cached@),
    }
}

/// Loading saves the catalog: the cache held none, or one that lacks ids.
pub open spec fn needs_saving(cached: CachedCatalog) -> bool {
    match cached {
        CachedCatalog::Missing => true,
        CachedCatalog::Invalid => true,
        CachedCatalog::Valid(cached) => catalog::lacks_ids(cached@),
    }
}

/// Decides what loading gives and what becomes of the cache: an unreadable cache
/// is backed up, and the catalog is saved where the cache did not hold it. In
/// what is loaded, only an item whose command spells nothing lacks an id.
pub fn load_catalog(cached: CachedCatalog) -> (loaded: LoadedCatalog)
    ensures
        loaded.catalog@ == catalog_to_use(cached),
        loaded.save == needs_saving(cached),
        loaded.back_up == cached is Invalid,
        forall|i: int|
            0 <= i < loaded.catalog@.items.len() && (
            #[trigger] loaded.catalog@.items[i]).id.len() == 0 ==> text::joined(
                loaded.catalog@.items[i].command,
                ","@,
            ).len() == 0,
{
    match cached {
        CachedCatalog::Missing => LoadedCatalog {
            catalog: StratagemCatalog::default(),
            back_up: false,
            save: true,
        },
        CachedCatalog::Invalid => LoadedCatalog {
            catalog: StratagemCatalog::default(),
            back_up: true,
            save: true,
        },
        CachedCatalog::Valid(cached) => {
            let ghost before = cached@;
            let mut catalog = cached;
            let changed = catalog::fill_missing_ids(&mut catalog);
            proof {
                laws::law_missing_ids(before);
            }
            LoadedCatalog { catalog, back_up: false, save: changed }
        },
    }
}

} // verus!
