//! The parts of a wiki page that list stratagems.
//!
//! A page holds collapsible blocks (`<details>`), each with a summary and
//! tables. The types here hold what the extraction of stratagems reads from
//! them; the functions read it from a parsed document.

use crate::document;
use crate::text;
use scraper::{ElementRef, Html};
use vstd::prelude::*;

verus! {

/// The attributes of an image that the extraction reads.
#[derive(Debug)]
pub struct Image {
    pub src: Option<String>,
    pub data_src: Option<String>,
    pub srcset: Option<String>,
    pub alt: Option<String>,
}

/// A cell of a table: its texts, the texts of its first link and its images.
#[derive(Debug)]
pub struct Cell {
    pub texts: Vec<String>,
    pub link_texts: Option<Vec<String>>,
    pub images: Vec<Image>,
}

/// A row of a table: the cells that stand directly in it.
#[derive(Debug)]
pub struct Row {
    pub cells: Vec<Cell>,
}

/// A table: its rows.
#[derive(Debug)]
pub struct Table {
    pub rows: Vec<Row>,
}

/// A collapsible block: the texts of its first summary and its wiki tables.
#[derive(Debug)]
pub struct Block {
    pub summary_texts: Option<Vec<String>>,
    pub tables: Vec<Table>,
}

/// What an [`Image`] holds.
#[verifier::ext_equal]
pub struct ImageView {
    pub src: Option<Seq<char>>,
    pub data_src: Option<Seq<char>>,
    pub srcset: Option<Seq<char>>,
    pub alt: Option<Seq<char>>,
}

/// What a [`Cell`] holds.
#[verifier::ext_equal]
pub struct CellView {
    pub texts: Seq<Seq<char>>,
    pub link_texts: Option<Seq<Seq<char>>>,
    pub images: Seq<ImageView>,
}

/// What a [`Block`] holds.
#[verifier::ext_equal]
pub struct BlockView {
    pub summary_texts: Option<Seq<Seq<char>>>,
    pub tables: Seq<Seq<Seq<CellView>>>,
}

/// The text that an optional string holds.
pub open spec fn optional_view(string: Option<String>) -> Option<Seq<char>> {
    match string {
        Some(string) => Some(string@),
        None => None,
    }
}

/// The texts that an optional list of strings holds.
pub open spec fn optional_views(strings: Option<Vec<String>>) -> Option<Seq<Seq<char>>> {
    match strings {
        Some(strings) => Some(text::views(strings@)),
        None => None,
    }
}

impl View for Image {
    type V = ImageView;

    open spec fn view(&self) -> ImageView {
        ImageView {
            src: optional_view(self.src),
            data_src: optional_view(self.data_src),
            srcset: optional_view(self.srcset),
            alt: optional_view(self.alt),
        }
    }
}

impl View for Cell {
    type V = CellView;

    open spec fn view(&self) -> CellView {
        CellView {
            texts: text::views(self.texts@),
            link_texts: optional_views(self.link_texts),
            images: self.images@.map_values(|image: Image| image@),
        }
    }
}

/// What `cells` hold.
pub open spec fn cell_views(cells: Seq<Cell>) -> Seq<CellView> {
    cells.map_values(|cell: Cell| cell@)
}

impl View for Row {
    type V = Seq<CellView>;

    open spec fn view(&self) -> Seq<CellView> {
        cell_views(self.cells@)
    }
}

impl View for Table {
    type V = Seq<Seq<CellView>>;

    open spec fn view(&self) -> Seq<Seq<CellView>> {
        self.rows@.map_values(|row: Row| row@)
    }
}

impl View for Block {
    type V = BlockView;

    open spec fn view(&self) -> BlockView {
        BlockView {
            summary_texts: optional_views(self.summary_texts),
            tables: self.tables@.map_values(|table: Table| table@),
        }
    }
}

/// What `blocks` hold.
pub open spec fn block_views(blocks: Seq<Block>) -> Seq<BlockView> {
    blocks.map_values(|block: Block| block@)
}

/// The selector of the elements with the name `tag`.
pub open spec fn by_tag(tag: Seq<char>) -> document::SimpleSelector {
    document::SimpleSelector { tag: Some(tag), class: None }
}

/// The selector of the element that holds the contents of a wiki page.
pub open spec fn content_selector() -> document::SimpleSelector {
    document::SimpleSelector { tag: None, class: Some("mw-parser-output"@) }
}

/// The selector of the wiki's tables.
pub open spec fn table_selector() -> document::SimpleSelector {
    document::SimpleSelector { tag: Some("table"@), class: Some("wikitable"@) }
}

/// The texts of the first of `nodes`, where there is one.
pub open spec fn first_texts(nodes: Seq<document::Node>) -> Option<Seq<Seq<char>>> {
    if nodes.len() > 0 {
        Some(nodes[0].texts())
    } else {
        None
    }
}

/// The image that an element describes.
pub open spec fn image_of(node: document::Node) -> ImageView {
    ImageView {
        src: node.attribute("src"@),
        data_src: node.attribute("data-src"@),
        srcset: node.attribute("srcset"@),
        alt: node.attribute("alt"@),
    }
}

/// The cell that an element describes.
pub open spec fn cell_of(node: document::Node) -> CellView {
    CellView {
        texts: node.texts(),
        link_texts: first_texts(node.selected(by_tag("a"@))),
        images: node.selected(by_tag("img"@)).map_values(|image: document::Node| image_of(image)),
    }
}

/// The node is a header cell or a data cell of a table.
pub open spec fn is_cell(node: document::Node) -> bool {
    node.name() == "th"@ || node.name() == "td"@
}

/// The cells that stand directly in a row.
pub open spec fn cell_nodes(row: document::Node) -> Seq<document::Node> {
    row.child_elements().filter(|node: document::Node| is_cell(node))
}

/// The row that an element describes.
pub open spec fn row_of(node: document::Node) -> Seq<CellView> {
    cell_nodes(node).map_values(|cell: document::Node| cell_of(cell))
}

/// The table that an element describes.
pub open spec fn table_of(node: document::Node) -> Seq<Seq<CellView>> {
    node.selected(by_tag("tr"@)).map_values(|row: document::Node| row_of(row))
}

/// The block that an element describes.
pub open spec fn block_of(node: document::Node) -> BlockView {
    BlockView {
        summary_texts: first_texts(node.selected(by_tag("summary"@))),
        tables: node.selected(table_selector()).map_values(|table: document::Node| table_of(table)),
    }
}

/// The blocks in the contents of a page with the given elements, where the page
/// has contents: those below the first element of the class
/// `mw-parser-output`.
pub open spec fn blocks_of(elements: Seq<document::Node>) -> Option<Seq<BlockView>> {
    let contents = content_selector().among(elements);
    if contents.len() > 0 {
        Some(
            contents[0].selected(by_tag("details"@)).map_values(
                |block: document::Node| block_of(block),
            ),
        )
    } else {
        None
    }
}

/// The selectors that the functions below use are well formed and written as
/// the functions write them.
proof fn lemma_selectors()
    ensures
        by_tag("a"@).well_formed(),
        by_tag("a"@).css() == "a"@,
        by_tag("img"@).well_formed(),
        by_tag("img"@).css() == "img"@,
        by_tag("tr"@).well_formed(),
        by_tag("tr"@).css() == "tr"@,
        by_tag("summary"@).well_formed(),
        by_tag("summary"@).css() == "summary"@,
        by_tag("details"@).well_formed(),
        by_tag("details"@).css() == "details"@,
        table_selector().well_formed(),
        table_selector().css() == "table.wikitable"@,
        content_selector().well_formed(),
        content_selector().css() == ".mw-parser-output"@,
{
    reveal_strlit("a");
    reveal_strlit("img");
    reveal_strlit("tr");
    reveal_strlit("summary");
    reveal_strlit("details");
    reveal_strlit("table");
    reveal_strlit("wikitable");
    reveal_strlit("table.wikitable");
    reveal_strlit("mw-parser-output");
    reveal_strlit(".mw-parser-output");
    assert(table_selector().css() == "table.wikitable"@);
    assert(content_selector().css() == ".mw-parser-output"@);
}

/// Reads the texts of the first of `elements`, where there is one.
fn read_first_texts(elements: &[ElementRef<'_>]) -> (texts: Option<Vec<String>>)
    ensures
        optional_views(texts) == first_texts(document::nodes_of(elements@)),
{
    if elements.len() > 0 {
        Some(document::texts(&elements[0]))
    } else {
        None
    }
}

/// Reads an image.
pub fn read_image(element: &ElementRef<'_>) -> (image: Image)
    ensures
        image@ == image_of(document::element_node(*element)),
{
    Image {
        src: document::attribute(element, "src"),
        data_src: document::attribute(element, "data-src"),
        srcset: document::attribute(element, "srcset"),
        alt: document::attribute(element, "alt"),
    }
}

/// Reads a cell of a table.
pub fn read_cell(element: &ElementRef<'_>) -> (cell: Cell)
    ensures
        cell@ == cell_of(document::element_node(*element)),
{
    proof {
        lemma_selectors();
    }
    let texts = document::texts(element);
    let links = document::select(element, "a");
    let link_texts = read_first_texts(links.as_slice());
    let image_elements = document::select(element, "img");
    let ghost nodes = document::nodes_of(image_elements@);
    let mut images: Vec<Image> = Vec::new();
    let mut i: usize = 0;
    while i < image_elements.len()
        invariant
            i <= image_elements@.len(),
            images@.len() == i,
            nodes == document::nodes_of(image_elements@),
            forall|j: int| 0 <= j < i ==> (#[trigger] images@[j])@ == image_of(nodes[j]),
        decreases image_elements@.len() - i,
    {
        images.push(read_image(&image_elements[i]));
        i += 1;
    }
    let cell = Cell { texts, link_texts, images };
    assert(cell@.images == nodes.map_values(|image: document::Node| image_of(image)));
    cell
}

/// The cells that stand directly in the row `row`.
pub fn direct_cells<'a>(row: &ElementRef<'a>) -> (cells: Vec<ElementRef<'a>>)
    ensures
        document::nodes_of(cells@) == cell_nodes(document::element_node(*row)),
{
    let elements = document::child_elements(row);
    let ghost nodes = document::nodes_of(elements@);
    let ghost wanted = |node: document::Node| is_cell(node);
    let mut cells: Vec<ElementRef<'a>> = Vec::new();
    let mut i: usize = 0;
    assert(document::nodes_of(cells@) == nodes.take(0).filter(wanted)) by {
        reveal(Seq::filter);
    }
    while i < elements.len()
        invariant
            i <= elements@.len(),
            nodes == document::nodes_of(elements@),
            wanted == (|node: document::Node| is_cell(node)),
            document::nodes_of(cells@) == nodes.take(i as int).filter(wanted),
        decreases elements@.len() - i,
    {
        let element = elements[i];
        let name = document::tag_name(&element);
        proof {
            reveal(Seq::filter);
            assert(nodes.take(i + 1).drop_last() == nodes.take(i as int));
            assert(nodes.take(i + 1).last() == document::element_node(element));
            assert(document::nodes_of(cells@.push(element)) == document::nodes_of(cells@).push(
                document::element_node(element),
            ));
        }
        if text::same_text(name.as_str(), "th") || text::same_text(name.as_str(), "td") {
            cells.push(element);
        }
        i += 1;
    }
    assert(nodes.take(i as int) == nodes);
    cells
}

/// Reads a row of a table.
pub fn read_row(element: &ElementRef<'_>) -> (row: Row)
    ensures
        row@ == row_of(document::element_node(*element)),
{
    let elements = direct_cells(element);
    let ghost nodes = document::nodes_of(elements@);
    let mut cells: Vec<Cell> = Vec::new();
    let mut i: usize = 0;
    while i < elements.len()
        invariant
            i <= elements@.len(),
            cells@.len() == i,
            nodes == document::nodes_of(elements@),
            forall|j: int| 0 <= j < i ==> (#[trigger] cells@[j])@ == cell_of(nodes[j]),
        decreases elements@.len() - i,
    {
        cells.push(read_cell(&elements[i]));
        i += 1;
    }
    let row = Row { cells };
    assert(row@ == nodes.map_values(|cell: document::Node| cell_of(cell)));
    row
}

/// Reads a table.
pub fn read_table(element: &ElementRef<'_>) -> (table: Table)
    ensures
        table@ == table_of(document::element_node(*element)),
        table.rows@.len() == document::element_node(*element).selected(
            (document::SimpleSelector { tag: Some("tr"@), class: None }),
        ).len(),
{
    proof {
        lemma_selectors();
    }
    let elements = document::select(element, "tr");
    let ghost nodes = document::nodes_of(elements@);
    let mut rows: Vec<Row> = Vec::new();
    let mut i: usize = 0;
    while i < elements.len()
        invariant
            i <= elements@.len(),
            rows@.len() == i,
            nodes == document::nodes_of(elements@),
            forall|j: int| 0 <= j < i ==> (#[trigger] rows@[j])@ == row_of(nodes[j]),
        decreases elements@.len() - i,
    {
        rows.push(read_row(&elements[i]));
        i += 1;
    }
    let table = Table { rows };
    assert(table@ == nodes.map_values(|row: document::Node| row_of(row)));
    table
}

/// Reads a collapsible block.
pub fn read_block(element: &ElementRef<'_>) -> (block: Block)
    ensures
        block@ == block_of(document::element_node(*element)),
{
    proof {
        lemma_selectors();
    }
    let summaries = document::select(element, "summary");
    let summary_texts = read_first_texts(summaries.as_slice());
    let elements = document::select(element, "table.wikitable");
    let ghost nodes = document::nodes_of(elements@);
    let mut tables: Vec<Table> = Vec::new();
    let mut i: usize = 0;
    while i < elements.len()
        invariant
            i <= elements@.len(),
            tables@.len() == i,
            nodes == document::nodes_of(elements@),
            forall|j: int| 0 <= j < i ==> (#[trigger] tables@[j])@ == table_of(nodes[j]),
        decreases elements@.len() - i,
    {
        tables.push(read_table(&elements[i]));
        i += 1;
    }
    let block = Block { summary_texts, tables };
    assert(block@.tables == nodes.map_values(|table: document::Node| table_of(table)));
    block
}

/// Reads the collapsible blocks of a page, where the page has contents.
pub fn read_blocks(page: &Html) -> (blocks: Option<Vec<Block>>)
    ensures
        (match blocks {
            Some(blocks) => Some(block_views(blocks@)),
            None => None,
        }) == blocks_of(document::document_elements(*page)),
{
    proof {
        lemma_selectors();
    }
    let contents = document::select_in_document(page, ".mw-parser-output");
    if contents.len() == 0 {
        return None;
    }
    let elements = document::select(&contents[0], "details");
    let ghost nodes = document::nodes_of(elements@);
    let mut blocks: Vec<Block> = Vec::new();
    let mut i: usize = 0;
    while i < elements.len()
        invariant
            i <= elements@.len(),
            blocks@.len() == i,
            nodes == document::nodes_of(elements@),
            forall|j: int| 0 <= j < i ==> (#[trigger] blocks@[j])@ == block_of(nodes[j]),
        decreases elements@.len() - i,
    {
        blocks.push(read_block(&elements[i]));
        i += 1;
    }
    assert(block_views(blocks@) == nodes.map_values(|block: document::Node| block_of(block)));
    Some(blocks)
}

} // verus!
