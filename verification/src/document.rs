//! HTML documents, as the crate `scraper` parses and searches them.

use scraper::{ElementRef, Html, Selector};
use vstd::prelude::*;

verus! {

/// What a node of a document is.
pub enum NodeKind {
    /// An element with its local name, the names of its classes and the values
    /// of those of its attributes that have no namespace.
    Element {
        name: Seq<char>,
        classes: Set<Seq<char>>,
        attributes: Map<Seq<char>, Seq<char>>,
    },
    /// A text.
    Text(Seq<char>),
    /// A document root, a fragment root, a doctype, a comment or a processing
    /// instruction.
    Other,
}

/// A node of a document with all that stands below it.
pub struct Node {
    pub kind: NodeKind,
    pub children: Seq<Node>,
}

impl Node {
    /// The node is an element.
    pub open spec fn is_element(self) -> bool {
        self.kind is Element
    }

    /// The local name of an element.
    pub open spec fn name(self) -> Seq<char> {
        self.kind->name
    }

    /// The value of an element's attribute `name`, where it has that attribute.
    pub open spec fn attribute(self, name: Seq<char>) -> Option<Seq<char>> {
        if self.kind->attributes.dom().contains(name) {
            Some(self.kind->attributes[name])
        } else {
            None
        }
    }

    /// The text of a text node.
    pub open spec fn text(self) -> Option<Seq<char>> {
        match self.kind {
            NodeKind::Text(text) => Some(text),
            _ => None,
        }
    }

    /// The texts below the node, in the order of the document.
    pub open spec fn texts(self) -> Seq<Seq<char>> {
        preorder(self.children).filter_map(|node: Node| node.text())
    }

    /// The children that are elements, in the order of the document.
    pub open spec fn child_elements(self) -> Seq<Node> {
        self.children.filter(|node: Node| node.is_element())
    }

    /// The elements below the node that `selector` matches, in the order of the
    /// document.
    pub open spec fn selected(self, selector: SimpleSelector) -> Seq<Node> {
        selector.among(preorder(self.children))
    }
}

/// Each of `nodes` followed by all that stands below it, in the order of the
/// document.
pub open spec fn preorder(nodes: Seq<Node>) -> Seq<Node>
    decreases nodes,
{
    if nodes.len() == 0 {
        Seq::empty()
    } else {
        seq![nodes[0]] + preorder(nodes[0].children) + preorder(nodes.subrange(1, nodes.len() as int))
    }
}

/// A CSS selector that asks for a tag name, a class or both.
pub struct SimpleSelector {
    pub tag: Option<Seq<char>>,
    pub class: Option<Seq<char>>,
}

impl SimpleSelector {
    /// The selector asks for something, in names of lower case ASCII letters and
    /// hyphens that begin with a letter.
    pub open spec fn well_formed(self) -> bool {
        &&& self.tag is Some || self.class is Some
        &&& self.tag is Some ==> is_css_name(self.tag->0)
        &&& self.class is Some ==> is_css_name(self.class->0)
    }

    /// The selector as CSS writes it.
    pub open spec fn css(self) -> Seq<char> {
        let tag = if self.tag is Some {
            self.tag->0
        } else {
            Seq::empty()
        };
        if self.class is Some {
            tag + seq!['.'] + self.class->0
        } else {
            tag
        }
    }

    /// The node is an element with the tag name and the class that are asked for.
    pub open spec fn matches(self, node: Node) -> bool {
        &&& node.is_element()
        &&& self.tag is Some ==> node.name() == self.tag->0
        &&& self.class is Some ==> node.kind->classes.contains(self.class->0)
    }

    /// Those of `nodes` that the selector matches.
    pub open spec fn among(self, nodes: Seq<Node>) -> Seq<Node> {
        nodes.filter(|node: Node| self.matches(node))
    }
}

/// A name of lower case ASCII letters and hyphens that begins with a letter.
pub open spec fn is_css_name(name: Seq<char>) -> bool {
    &&& name.len() > 0
    &&& 'a' <= name[0] && name[0] <= 'z'
    &&& forall|i: int|
        0 <= i < name.len() ==> ('a' <= #[trigger] name[i] && name[i] <= 'z') || name[i] == '-'
}

/// A parsed document of the crate `scraper`.
#[verifier::external_type_specification]
#[verifier::external_body]
pub struct ExHtml(scraper::Html);

/// A reference to an element of a parsed document of the crate `scraper`.
#[verifier::external_type_specification]
#[verifier::external_body]
pub struct ExElementRef<'a>(scraper::ElementRef<'a>);

/// The elements of `document` that have a parent, in the order in which the
/// parser made them.
pub uninterp spec fn document_elements(document: Html) -> Seq<Node>;

/// The element that `element` refers to, with all that stands below it.
pub uninterp spec fn element_node(element: ElementRef<'_>) -> Node;

/// The elements that `scraper::Html::parse_document` finds in `html`, as
/// `document_elements` lists them.
pub uninterp spec fn parsed_elements(html: Seq<char>) -> Seq<Node>;

/// The elements that `elements` refer to.
pub open spec fn nodes_of(elements: Seq<ElementRef<'_>>) -> Seq<Node> {
    elements.map_values(|element: ElementRef<'_>| element_node(element))
}

/// The number of bytes up to which the parser takes any document. The buffer of
/// a text grows by powers of two and no further than to half of what 32 bits
/// count, and the parser may replace a byte by a character of three.
pub const MAX_HTML_BYTES: usize = 715_827_882;

/// `scraper::Html::parse_document`: the elements of the document are determined
/// by `html`. Which they are is not stated.
#[verifier::external_body]
pub(crate) fn parse_document(html: &str) -> (document: Html)
    requires
        html.len() <= MAX_HTML_BYTES,
    ensures
        document_elements(document) == parsed_elements(html@),
{
    Html::parse_document(html)
}

/// `scraper::Html::select` with the selector that `scraper::Selector::parse`
/// reads from `css`: the matching elements of the document, in the order in
/// which the parser made them. A selector of a tag name and a class is read
/// without an error.
#[verifier::external_body]
pub(crate) fn select_in_document<'a>(document: &'a Html, css: &str) -> (elements: Vec<
    ElementRef<'a>,
>)
    requires
        exists|selector: SimpleSelector|
            selector.well_formed() && #[trigger] selector.css() == css@,
    ensures
        forall|selector: SimpleSelector|
            selector.well_formed() && #[trigger] selector.css() == css@ ==> nodes_of(elements@)
                == selector.among(document_elements(*document)),
{
    let selector = Selector::parse(css).expect("valid selector");
    document.select(&selector).collect()
}

/// `scraper::ElementRef::select` with the selector that
/// `scraper::Selector::parse` reads from `css`: the matching elements below
/// `element`, in the order of the document. A selector of a tag name and a class
/// is read without an error.
#[verifier::external_body]
pub(crate) fn select<'a>(element: &ElementRef<'a>, css: &str) -> (elements: Vec<ElementRef<'a>>)
    requires
        exists|selector: SimpleSelector|
            selector.well_formed() && #[trigger] selector.css() == css@,
    ensures
        forall|selector: SimpleSelector|
            selector.well_formed() && #[trigger] selector.css() == css@ ==> nodes_of(elements@)
                == element_node(*element).selected(selector),
{
    let selector = Selector::parse(css).expect("valid selector");
    element.select(&selector).collect()
}

/// `scraper::ElementRef::child_elements`: the children of `element` that are
/// elements, in the order of the document.
#[verifier::external_body]
pub(crate) fn child_elements<'a>(element: &ElementRef<'a>) -> (elements: Vec<ElementRef<'a>>)
    ensures
        nodes_of(elements@) == element_node(*element).child_elements(),
{
    element.child_elements().collect()
}

/// `scraper::ElementRef::text`: the texts below `element`, in the order of the
/// document.
#[verifier::external_body]
pub(crate) fn texts(element: &ElementRef<'_>) -> (texts: Vec<String>)
    ensures
        crate::text::views(texts@) == element_node(*element).texts(),
{
    element.text().map(String::from).collect()
}

/// `name` of the `scraper::node::Element` that `element` refers to: the local
/// name of the element.
#[verifier::external_body]
pub(crate) fn tag_name(element: &ElementRef<'_>) -> (name: String)
    ensures
        name@ == element_node(*element).name(),
{
    element.value().name().to_string()
}

/// `attr` of the `scraper::node::Element` that `element` refers to: the value of
/// the attribute `name` without a namespace, where the element has it.
#[verifier::external_body]
pub(crate) fn attribute(element: &ElementRef<'_>, name: &str) -> (value: Option<String>)
    ensures
        value is Some == element_node(*element).attribute(name@) is Some,
        value is Some ==> value->0@ == element_node(*element).attribute(name@)->0,
{
    element.value().attr(name).map(String::from)
}

} // verus!
