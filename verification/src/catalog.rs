//! Stratagems and the catalog that holds them: its ids and its completeness.

use crate::encoding;
use crate::text;
use crate::wiki;
use vstd::prelude::*;

verus! {

/// The section of the stratagems that a player chooses.
pub const CURRENT_STRATAGEMS_SECTION: &'static str = "Current Stratagems";

/// The section of the stratagems that a mission gives.
pub const MISSION_STRATAGEMS_SECTION: &'static str = "Mission Stratagems";

/// A stratagem: where the wiki lists it, how it is called and shown, and the
/// directions that call it in.
#[derive(Debug, Clone)]
pub struct Stratagem {
    pub id: String,
    pub section: String,
    pub category: String,
    pub name: String,
    pub icon_url: String,
    pub command: Vec<String>,
}

/// What a [`Stratagem`] holds.
#[verifier::ext_equal]
pub struct StratagemView {
    pub id: Seq<char>,
    pub section: Seq<char>,
    pub category: Seq<char>,
    pub name: Seq<char>,
    pub icon_url: Seq<char>,
    pub command: Seq<Seq<char>>,
}

impl View for Stratagem {
    type V = StratagemView;

    open spec fn view(&self) -> StratagemView {
        StratagemView {
            id: self.id@,
            section: self.section@,
            category: self.category@,
            name: self.name@,
            icon_url: self.icon_url@,
            command: text::views(self.command@),
        }
    }
}

/// What `items` hold.
pub open spec fn item_views(items: Seq<Stratagem>) -> Seq<StratagemView> {
    items.map_values(|item: Stratagem| item@)
}

/// The stratagems of the wiki, with the page they come from and the time at
/// which they were read, in seconds since the Unix epoch.
#[derive(Debug, Clone)]
pub struct StratagemCatalog {
    pub updated_at_unix: Option<u64>,
    pub source_url: String,
    pub items: Vec<Stratagem>,
}

/// What a [`StratagemCatalog`] holds.
#[verifier::ext_equal]
pub struct CatalogView {
    pub updated_at_unix: Option<u64>,
    pub source_url: Seq<char>,
    pub items: Seq<StratagemView>,
}

impl View for StratagemCatalog {
    type V = CatalogView;

    open spec fn view(&self) -> CatalogView {
        CatalogView {
            updated_at_unix: self.updated_at_unix,
            source_url: self.source_url@,
            items: item_views(self.items@),
        }
    }
}

/// The catalog before anything was read from the wiki.
pub open spec fn empty_catalog() -> CatalogView {
    CatalogView {
        updated_at_unix: None,
        source_url: wiki::WIKI_PAGE_URL@,
        items: Seq::empty(),
    }
}

impl Default for StratagemCatalog {
    fn default() -> (catalog: Self)
        ensures
            catalog@ == empty_catalog(),
    {
        let catalog = StratagemCatalog {
            updated_at_unix: None,
            source_url: wiki::WIKI_PAGE_URL.to_string(),
            items: Vec::new(),
        };
        assert(catalog@.items == Seq::<StratagemView>::empty());
        catalog
    }
}

/// One of `items` belongs to `section`.
pub open spec fn has_section(items: Seq<StratagemView>, section: Seq<char>) -> bool {
    exists|i: int| 0 <= i < items.len() && (#[trigger] items[i]).section == section
}

/// The items cover both sections.
pub open spec fn is_complete(items: Seq<StratagemView>) -> bool {
    has_section(items, CURRENT_STRATAGEMS_SECTION@) && has_section(
        items,
        MISSION_STRATAGEMS_SECTION@,
    )
}

/// Tells whether one of `items` belongs to `section`.
fn any_in_section(items: &[Stratagem], section: &str) -> (result: bool)
    ensures
        result == has_section(item_views(items@), section@),
{
    let ghost views = item_views(items@);
    let mut i: usize = 0;
    while i < items.len()
        invariant
            i <= items@.len(),
            views == item_views(items@),
            forall|j: int| 0 <= j < i ==> (#[trigger] views[j]).section != section@,
        decreases items@.len() - i,
    {
        assert(views[i as int] == items@[i as int]@);
        if text::same_text(items[i].section.as_str(), section) {
            return true;
        }
        i += 1;
    }
    false
}

/// The items belong to the sections that they hold.
proof fn lemma_section_of_items(items: Seq<Stratagem>, section: Seq<char>)
    ensures
        has_section(item_views(items), section) <==> exists|i: int|
            0 <= i < items.len() && (#[trigger] items[i]).section@ == section,
{
    let views = item_views(items);
    if has_section(views, section) {
        let i = choose|i: int| 0 <= i < views.len() && (#[trigger] views[i]).section == section;
        assert(items[i].section@ == section);
    }
    if exists|i: int| 0 <= i < items.len() && (#[trigger] items[i]).section@ == section {
        let i = choose|i: int| 0 <= i < items.len() && (#[trigger] items[i]).section@ == section;
        assert(views[i].section == section);
    }
}

/// Tells whether the items cover both sections.
pub fn has_complete_stratagem_sections(items: &[Stratagem]) -> (result: bool)
    ensures
        result == is_complete(item_views(items@)),
        result <==> (exists|i: int|
            0 <= i < items@.len() && (#[trigger] items@[i]).section@ == "Current Stratagems"@) && (
        exists|i: int|
            0 <= i < items@.len() && (#[trigger] items@[i]).section@ == "Mission Stratagems"@),
{
    proof {
        lemma_section_of_items(items@, CURRENT_STRATAGEMS_SECTION@);
        lemma_section_of_items(items@, MISSION_STRATAGEMS_SECTION@);
    }
    any_in_section(items, CURRENT_STRATAGEMS_SECTION) && any_in_section(
        items,
        MISSION_STRATAGEMS_SECTION,
    )
}

/// The id of the stratagem with the given command.
pub open spec fn stratagem_id(command: Seq<Seq<char>>) -> Seq<char> {
    encoding::base64_text(text::joined(command, ","@))
}

/// The command has a step, and no step holds a comma.
pub open spec fn is_separable(command: Seq<Seq<char>>) -> bool {
    &&& command.len() > 0
    &&& forall|i: int| 0 <= i < command.len() ==> !(#[trigger] command[i]).contains(',')
}

/// Commands whose steps hold no comma differ when they are joined by commas.
proof fn lemma_separable_commands_differ(left: Seq<Seq<char>>, right: Seq<Seq<char>>)
    requires
        is_separable(left),
        is_separable(right),
        text::joined(left, ","@) == text::joined(right, ","@),
    ensures
        left == right,
    decreases left.len(),
{
    reveal_strlit(",");
    let comma = ","@;
    let whole_left = text::joined(left, comma);
    let whole_right = text::joined(right, comma);
    let first_left = left[0];
    let first_right = right[0];
    assert(!first_left.contains(','));
    assert(!first_right.contains(','));
    if left.len() > 1 && first_left.len() < first_right.len() {
        assert(whole_left[first_left.len() as int] == ',');
        assert(whole_right[first_left.len() as int] == first_right[first_left.len() as int]);
        assert(first_right.contains(first_right[first_left.len() as int]));
    }
    if right.len() > 1 && first_right.len() < first_left.len() {
        assert(whole_right[first_right.len() as int] == ',');
        assert(whole_left[first_right.len() as int] == first_left[first_right.len() as int]);
        assert(first_left.contains(first_left[first_right.len() as int]));
    }
    assert(first_left.len() == first_right.len());
    assert forall|i: int| 0 <= i < first_left.len() implies first_left[i] == first_right[i] by {
        assert(whole_left[i] == first_left[i]);
        assert(whole_right[i] == first_right[i]);
    }
    assert(first_left == first_right);
    if left.len() > 1 {
        assert(right.len() > 1);
        let rest_left = left.skip(1);
        let rest_right = right.skip(1);
        let offset = first_left.len() + 1;
        assert(text::joined(rest_left, comma) == whole_left.skip(offset as int));
        assert(text::joined(rest_right, comma) == whole_right.skip(offset as int));
        assert forall|i: int| 0 <= i < rest_left.len() implies !(
        #[trigger] rest_left[i]).contains(',') by {
            assert(rest_left[i] == left[i + 1]);
        }
        assert forall|i: int| 0 <= i < rest_right.len() implies !(
        #[trigger] rest_right[i]).contains(',') by {
            assert(rest_right[i] == right[i + 1]);
        }
        lemma_separable_commands_differ(rest_left, rest_right);
        assert(left == seq![first_left] + rest_left);
        assert(right == seq![first_right] + rest_right);
    } else {
        assert(right.len() == 1);
        assert(left == right);
    }
}

/// Two commands whose steps hold no comma have the same id only where they are
/// the same, and the id is empty only for a command that spells nothing.
pub proof fn law_ids_tell_commands_apart(left: Seq<Seq<char>>, right: Seq<Seq<char>>)
    ensures
        is_separable(left) && is_separable(right) ==> (stratagem_id(left) == stratagem_id(right)
            <==> left == right),
        stratagem_id(left).len() == 0 <==> text::joined(left, ","@).len() == 0,
{
    encoding::law_base64_text_is_one_to_one(
        text::joined(left, ","@),
        text::joined(right, ","@),
    );
    if is_separable(left) && is_separable(right) && stratagem_id(left) == stratagem_id(right) {
        lemma_separable_commands_differ(left, right);
    }
}

/// The id of the stratagem with the given command: the Base64 form of the steps,
/// joined by commas.
pub fn compute_stratagem_id(command: &[String]) -> (id: String)
    ensures
        id@ == stratagem_id(text::views(command@)),
{
    let joined = text::join(command, ",");
    encoding::encode_base64(joined.as_str())
}

/// The item with the id of its command.
pub open spec fn with_id(item: StratagemView) -> StratagemView {
    StratagemView { id: stratagem_id(item.command), ..item }
}

/// The item with the id of its command where it had none.
pub open spec fn with_missing_id(item: StratagemView) -> StratagemView {
    if item.id.len() == 0 {
        with_id(item)
    } else {
        item
    }
}

/// The catalog with the ids of those items that had none.
pub open spec fn with_missing_ids(catalog: CatalogView) -> CatalogView {
    CatalogView {
        items: catalog.items.map_values(|item: StratagemView| with_missing_id(item)),
        ..catalog
    }
}

/// One of the catalog's items has no id.
pub open spec fn lacks_ids(catalog: CatalogView) -> bool {
    exists|i: int| 0 <= i < catalog.items.len() && (#[trigger] catalog.items[i]).id.len() == 0
}

/// Gives each item without an id the id of its command, and tells whether there
/// was one.
pub fn fill_missing_ids(catalog: &mut StratagemCatalog) -> (changed: bool)
    ensures
        final(catalog)@ == with_missing_ids(old(catalog)@),
        changed == lacks_ids(old(catalog)@),
{
    let mut changed = false;
    let mut i: usize = 0;
    let ghost before = catalog@;
    while i < catalog.items.len()
        invariant
            i <= catalog.items@.len(),
            before == old(catalog)@,
            catalog.updated_at_unix == before.updated_at_unix,
            catalog.source_url@ == before.source_url,
            catalog.items@.len() == before.items.len(),
            forall|j: int|
                0 <= j < i ==> (#[trigger] catalog.items@[j])@ == with_missing_id(before.items[j]),
            forall|j: int|
                i <= j < before.items.len() ==> (#[trigger] catalog.items@[j])@ == before.items[j],
            changed == exists|j: int| 0 <= j < i && (#[trigger] before.items[j]).id.len() == 0,
        decreases catalog.items@.len() - i,
    {
        if catalog.items[i].id.as_str().is_empty() {
            let id = compute_stratagem_id(catalog.items[i].command.as_slice());
            catalog.items[i].id = id;
            changed = true;
            assert(before.items[i as int].id.len() == 0);
        }
        i += 1;
    }
    assert(catalog@.items == with_missing_ids(before).items);
    changed
}

} // verus!
