//! What reading a page keeps of it: all blocks, tables, rows, cells and images,
//! in the order of the document.

use crate::document;
use crate::document::{Node, NodeKind, SimpleSelector, MAX_HTML_BYTES};
use crate::page;
use crate::page::{Block, Cell, Image, Row, Table};
use crate::selection;
use crate::text;
use scraper::ElementRef;
use vstd::prelude::*;

verus! {

/// The node is an element with the given name.
pub open spec fn is_named(node: Node, name: Seq<char>) -> bool {
    node.kind matches NodeKind::Element { name: own, .. } && own == name
}

/// The node is an element that has the given class.
pub open spec fn has_class(node: Node, class: Seq<char>) -> bool {
    node.kind matches NodeKind::Element { classes, .. } && classes.contains(class)
}

/// The selector of the elements with the given name.
pub open spec fn named(name: Seq<char>) -> SimpleSelector {
    SimpleSelector { tag: Some(name), class: None }
}

/// The order of the document takes nodes one after the other, and each before
/// all that stands below it; none is left out.
pub proof fn law_order_of_document(left: Seq<Node>, right: Seq<Node>, node: Node)
    ensures
        document::preorder(left + right) == document::preorder(left) + document::preorder(right),
        document::preorder(seq![node]) == seq![node] + document::preorder(node.children),
    decreases left.len(),
{
    let single = seq![node];
    assert(single.subrange(1, 1) == Seq::<Node>::empty());
    assert(document::preorder(Seq::<Node>::empty()) == Seq::<Node>::empty());
    assert(document::preorder(single) == seq![node] + document::preorder(node.children));
    if left.len() == 0 {
        assert(left + right == right);
        assert(document::preorder(left) + document::preorder(right) == document::preorder(right));
    } else {
        let rest = left.subrange(1, left.len() as int);
        law_order_of_document(rest, right, node);
        assert((left + right).subrange(1, (left + right).len() as int) == rest + right);
        assert(document::preorder(left + right) == document::preorder(left) + document::preorder(
            right,
        ));
    }
}

/// A selector picks every node that is an element of the name and the class that
/// it asks for, and no other, in their order.
pub proof fn law_selection(selector: SimpleSelector, nodes: Seq<Node>, node: Node)
    ensures
        selector.among(Seq::empty()).len() == 0,
        selector.among(nodes.push(node)) == selector.among(nodes) + (if node.kind is Element && (
        selector.tag is Some ==> is_named(node, selector.tag->0)) && (selector.class is Some
            ==> has_class(node, selector.class->0)) {
            seq![node]
        } else {
            Seq::empty()
        }),
{
    selection::lemma_filter_push(nodes, node, |node: Node| selector.matches(node));
    reveal(Seq::filter);
}

/// The elements that a selector picks below a node are those below its children,
/// one child after the other, and each child that it picks itself stands before
/// those.
pub proof fn law_selected(
    kind: NodeKind,
    left: Seq<Node>,
    right: Seq<Node>,
    child: Node,
    selector: SimpleSelector,
)
    ensures
        (Node { kind, children: Seq::empty() }).selected(selector).len() == 0,
        (Node { kind, children: left + right }).selected(selector) == (Node {
            kind,
            children: left,
        }).selected(selector) + (Node { kind, children: right }).selected(selector),
        (Node { kind, children: seq![child] }).selected(selector) == (if child.kind is Element && (
        selector.tag is Some ==> is_named(child, selector.tag->0)) && (selector.class is Some
            ==> has_class(child, selector.class->0)) {
            seq![child]
        } else {
            Seq::empty()
        }) + child.selected(selector),
{
    let wanted = |node: Node| selector.matches(node);
    law_order_of_document(left, right, child);
    Seq::filter_distributes_over_add(document::preorder(left), document::preorder(right), wanted);
    Seq::filter_distributes_over_add(seq![child], document::preorder(child.children), wanted);
    law_selection(selector, Seq::empty(), child);
    assert(Seq::<Node>::empty().push(child) == seq![child]);
    assert(selector.among(Seq::empty()) + selector.among(seq![child]) == selector.among(
        seq![child],
    ));
}

/// A selector is written as its tag name, then a dot and its class.
pub proof fn law_css(tag: Seq<char>, class: Seq<char>)
    ensures
        (SimpleSelector { tag: Some(tag), class: None }).css() == tag,
        (SimpleSelector { tag: None, class: Some(class) }).css() == "."@ + class,
        (SimpleSelector { tag: Some(tag), class: Some(class) }).css() == tag + "."@ + class,
{
    reveal_strlit(".");
    assert("."@ == seq!['.']);
    assert(Seq::<char>::empty() + seq!['.'] + class == "."@ + class);
}

/// A selector is well formed where it asks for something, in names of lower case
/// ASCII letters and hyphens that begin with a letter.
pub proof fn law_well_formed(name: Seq<char>, other: Seq<char>)
    ensures
        document::is_css_name(name) <==> name.len() > 0 && name[0] != '-' && (forall|i: int|
            0 <= i < name.len() ==> 'a' <= #[trigger] name[i] <= 'z' || name[i] == '-'),
        !(SimpleSelector { tag: None, class: None }).well_formed(),
        (SimpleSelector { tag: Some(name), class: None }).well_formed() <==> document::is_css_name(
            name,
        ),
        (SimpleSelector { tag: None, class: Some(name) }).well_formed() <==> document::is_css_name(
            name,
        ),
        (SimpleSelector { tag: Some(name), class: Some(other) }).well_formed()
            <==> document::is_css_name(name) && document::is_css_name(other),
{
}

/// Three times the longest document fits in half of what 32 bits count, and no
/// longer one does.
pub proof fn law_longest_document()
    ensures
        3 * MAX_HTML_BYTES <= 0x7fff_ffff,
        3 * (MAX_HTML_BYTES + 1) > 0x7fff_ffff,
{
}

/// References to elements stand for as many nodes, each for its own.
pub proof fn law_referred_nodes(elements: Seq<ElementRef<'_>>)
    ensures
        document::nodes_of(elements).len() == elements.len(),
        forall|i: int|
            0 <= i < elements.len() ==> #[trigger] document::nodes_of(elements)[i]
                == document::element_node(elements[i]),
{
}

/// The texts of a node are those of its children, one after the other; those of
/// a child are its own, if it is one, and those below it.
pub proof fn law_texts(kind: NodeKind, left: Seq<Node>, right: Seq<Node>, child: Node)
    ensures
        (Node { kind, children: left + right }).texts() == (Node { kind, children: left }).texts()
            + (Node { kind, children: right }).texts(),
        (Node { kind, children: seq![child] }).texts() == (match child.kind {
            NodeKind::Text(content) => seq![content],
            _ => Seq::empty(),
        }) + child.texts(),
{
    let f = |node: Node| node.text();
    law_order_of_document(left, right, child);
    selection::lemma_filter_map_add(document::preorder(left), document::preorder(right), f);
    selection::lemma_filter_map_add(seq![child], document::preorder(child.children), f);
    selection::lemma_filter_map_push(Seq::<Node>::empty(), child, f);
    assert(Seq::<Node>::empty().push(child) == seq![child]);
    assert(seq![child].filter_map(f) == (match child.kind {
        NodeKind::Text(content) => seq![content],
        _ => Seq::empty(),
    }));
}

/// Each of an image's four attributes is read from the attribute of its name.
pub proof fn law_image(node: Node)
    requires
        node.kind is Element,
    ensures
        page::image_of(node).src is Some <==> node.kind->attributes.dom().contains("src"@),
        page::image_of(node).src is Some ==> page::image_of(node).src->0
            == node.kind->attributes["src"@],
        page::image_of(node).data_src is Some <==> node.kind->attributes.dom().contains(
            "data-src"@,
        ),
        page::image_of(node).data_src is Some ==> page::image_of(node).data_src->0
            == node.kind->attributes["data-src"@],
        page::image_of(node).srcset is Some <==> node.kind->attributes.dom().contains("srcset"@),
        page::image_of(node).srcset is Some ==> page::image_of(node).srcset->0
            == node.kind->attributes["srcset"@],
        page::image_of(node).alt is Some <==> node.kind->attributes.dom().contains("alt"@),
        page::image_of(node).alt is Some ==> page::image_of(node).alt->0
            == node.kind->attributes["alt"@],
{
}

/// A cell has all its texts, the texts of its first link, and as many images as
/// stand below it, each read from its element.
pub proof fn law_cell(node: Node)
    ensures
        page::cell_of(node).texts == node.texts(),
        page::cell_of(node).link_texts is Some <==> node.selected(named("a"@)).len() > 0,
        page::cell_of(node).link_texts is Some ==> page::cell_of(node).link_texts->0
            == node.selected(named("a"@))[0].texts(),
        page::cell_of(node).images.len() == node.selected(named("img"@)).len(),
        forall|i: int|
            0 <= i < node.selected(named("img"@)).len() ==> #[trigger] page::cell_of(node).images[i]
                == page::image_of(node.selected(named("img"@))[i]),
{
}

/// A row has one cell for each of its children that is a header cell or a data
/// cell, and no other, in their order, however many there are.
pub proof fn law_row(kind: NodeKind, children: Seq<Node>, child: Node)
    ensures
        page::row_of(Node { kind, children: Seq::empty() }).len() == 0,
        page::row_of(Node { kind, children: children.push(child) }) == page::row_of(
            Node { kind, children },
        ) + (if is_named(child, "th"@) || is_named(child, "td"@) {
            seq![page::cell_of(child)]
        } else {
            Seq::empty()
        }),
        page::cell_nodes(Node { kind, children: children.push(child) }) == page::cell_nodes(
            Node { kind, children },
        ) + (if is_named(child, "th"@) || is_named(child, "td"@) {
            seq![child]
        } else {
            Seq::empty()
        }),
{
    let element = |node: Node| node.is_element();
    let cell = |node: Node| page::is_cell(node);
    let read = |node: Node| page::cell_of(node);
    let empty = Node { kind, children: Seq::empty() };
    assert(page::row_of(empty).len() == 0) by {
        reveal(Seq::filter);
    }
    let before = Node { kind, children };
    let after = Node { kind, children: children.push(child) };
    selection::lemma_filter_push(children, child, element);
    let elements = before.child_elements();
    if child.is_element() {
        assert(after.child_elements() == elements.push(child));
        selection::lemma_filter_push(elements, child, cell);
    } else {
        assert(after.child_elements() == elements);
        assert(page::cell_nodes(after) == page::cell_nodes(before) + Seq::<Node>::empty());
    }
    let added = if is_named(child, "th"@) || is_named(child, "td"@) {
        seq![child]
    } else {
        Seq::empty()
    };
    assert(page::cell_nodes(after) == page::cell_nodes(before) + added);
    assert((page::cell_nodes(before) + added).map_values(read) == page::cell_nodes(
        before,
    ).map_values(read) + added.map_values(read));
    assert(added.map_values(read) == if is_named(child, "th"@) || is_named(child, "td"@) {
        seq![page::cell_of(child)]
    } else {
        Seq::empty()
    });
}

/// A table has as many rows as `tr` elements below it, each read from its
/// element.
pub proof fn law_table(node: Node)
    ensures
        page::table_of(node).len() == node.selected(named("tr"@)).len(),
        forall|i: int|
            0 <= i < node.selected(named("tr"@)).len() ==> #[trigger] page::table_of(node)[i]
                == page::row_of(node.selected(named("tr"@))[i]),
{
}

/// A block has the texts of its first summary, and as many tables as elements
/// `table` of the class `wikitable` below it, each read from its element.
pub proof fn law_block(node: Node)
    ensures
        ({
            let tables = node.selected(
                SimpleSelector { tag: Some("table"@), class: Some("wikitable"@) },
            );
            &&& page::block_of(node).tables.len() == tables.len()
            &&& forall|i: int|
                0 <= i < tables.len() ==> #[trigger] page::block_of(node).tables[i]
                    == page::table_of(tables[i])
        }),
        page::block_of(node).summary_texts is Some <==> node.selected(named("summary"@)).len() > 0,
        page::block_of(node).summary_texts is Some ==> page::block_of(node).summary_texts->0
            == node.selected(named("summary"@))[0].texts(),
{
}

/// A page without an element of the class `mw-parser-output` has no contents.
pub proof fn law_page_without_contents(elements: Seq<Node>)
    requires
        forall|i: int|
            0 <= i < elements.len() ==> !has_class(#[trigger] elements[i], "mw-parser-output"@),
    ensures
        page::blocks_of(elements) is None,
{
    lemma_no_contents(elements);
}

proof fn lemma_no_contents(elements: Seq<Node>)
    requires
        forall|i: int|
            0 <= i < elements.len() ==> !has_class(#[trigger] elements[i], "mw-parser-output"@),
    ensures
        page::content_selector().among(elements).len() == 0,
    decreases elements.len(),
{
    let selector = page::content_selector();
    if elements.len() == 0 {
        law_selection(selector, elements, arbitrary());
    } else {
        let start = elements.drop_last();
        assert forall|i: int| 0 <= i < start.len() implies !has_class(
            #[trigger] start[i],
            "mw-parser-output"@,
        ) by {
            assert(start[i] == elements[i]);
        }
        lemma_no_contents(start);
        law_selection(selector, start, elements.last());
        assert(start.push(elements.last()) == elements);
        assert(!has_class(elements.last(), "mw-parser-output"@));
    }
}

/// A page has as many blocks as `details` elements below the first of its
/// elements that has the class `mw-parser-output`, each read from its element.
pub proof fn law_page_with_contents(elements: Seq<Node>, first: int)
    requires
        0 <= first < elements.len(),
        has_class(elements[first], "mw-parser-output"@),
        forall|i: int|
            0 <= i < first ==> !has_class(#[trigger] elements[i], "mw-parser-output"@),
    ensures
        page::blocks_of(elements) is Some,
        page::blocks_of(elements)->0.len() == elements[first].selected(named("details"@)).len(),
        forall|i: int|
            0 <= i < elements[first].selected(named("details"@)).len()
                ==> #[trigger] page::blocks_of(elements)->0[i] == page::block_of(
                elements[first].selected(named("details"@))[i],
            ),
{
    let selector = page::content_selector();
    let wanted = |node: Node| selector.matches(node);
    let before = elements.take(first);
    let after = elements.skip(first + 1);
    lemma_no_contents(before);
    law_selection(selector, before, elements[first]);
    Seq::filter_distributes_over_add(before.push(elements[first]), after, wanted);
    assert(elements == before.push(elements[first]) + after);
    assert(selector.among(elements)[0] == elements[first]);
}

/// The model of each part of a page holds what the part holds: every field, and
/// as many cells, rows and tables.
pub proof fn law_views(image: Image, cell: Cell, row: Row, table: Table, block: Block)
    ensures
        image@.src is Some <==> image.src is Some,
        image@.src is Some ==> image@.src->0 == image.src->0@,
        image@.data_src is Some <==> image.data_src is Some,
        image@.data_src is Some ==> image@.data_src->0 == image.data_src->0@,
        image@.srcset is Some <==> image.srcset is Some,
        image@.srcset is Some ==> image@.srcset->0 == image.srcset->0@,
        image@.alt is Some <==> image.alt is Some,
        image@.alt is Some ==> image@.alt->0 == image.alt->0@,
        cell@.texts == text::views(cell.texts@),
        cell@.link_texts is Some <==> cell.link_texts is Some,
        cell@.link_texts is Some ==> cell@.link_texts->0 == text::views(cell.link_texts->0@),
        cell@.images.len() == cell.images@.len(),
        forall|i: int| 0 <= i < cell.images@.len() ==> #[trigger] cell@.images[i] == cell.images@[i]@,
        row@.len() == row.cells@.len(),
        forall|i: int| 0 <= i < row.cells@.len() ==> #[trigger] row@[i] == row.cells@[i]@,
        table@.len() == table.rows@.len(),
        forall|i: int| 0 <= i < table.rows@.len() ==> #[trigger] table@[i] == table.rows@[i]@,
        block@.tables.len() == block.tables@.len(),
        forall|i: int|
            0 <= i < block.tables@.len() ==> #[trigger] block@.tables[i] == block.tables@[i]@,
        block@.summary_texts is Some <==> block.summary_texts is Some,
        block@.summary_texts is Some ==> block@.summary_texts->0 == text::views(
            block.summary_texts->0@,
        ),
{
}

/// The model of a list of cells or blocks holds each of them.
pub proof fn law_list_views(cells: Seq<Cell>, blocks: Seq<Block>)
    ensures
        page::cell_views(cells).len() == cells.len(),
        forall|i: int| 0 <= i < cells.len() ==> #[trigger] page::cell_views(cells)[i] == cells[i]@,
        page::block_views(blocks).len() == blocks.len(),
        forall|i: int|
            0 <= i < blocks.len() ==> #[trigger] page::block_views(blocks)[i] == blocks[i]@,
{
}

} // verus!
