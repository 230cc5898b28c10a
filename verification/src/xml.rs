//! XML elements, built and written out by `simple_xml_builder`.
//!
//! An element is opaque to the verifier. What it holds is named by
//! [`tree_of`], and every operation says how it changes that tree.

use vstd::prelude::*;
use simple_xml_builder::XMLElement;

verus! {

/// `simple_xml_builder::XMLElement`, whose fields the verifier does not see.
#[verifier::external_type_specification]
#[verifier::external_body]
pub struct ExXmlElement(simple_xml_builder::XMLElement);

/// What an element holds: its tag, its attributes in the order in which they
/// were first added, and its content.
pub struct XmlTree {
    pub name: Seq<char>,
    pub attributes: Seq<(Seq<char>, Seq<char>)>,
    pub content: XmlContent,
}

/// The content of an element: nothing, text, or child elements.
pub enum XmlContent {
    Empty,
    Text(Seq<char>),
    Elements(Seq<XmlTree>),
}

/// The tree that an element holds, with names, values and text as they were
/// handed to it.
pub uninterp spec fn tree_of(element: XMLElement) -> XmlTree;

/// The document that `simple_xml_builder` writes for an element that holds
/// `tree`: the XML declaration, then the element, indented by tabs.
pub uninterp spec fn document_text(tree: XmlTree) -> Seq<char>;

/// The children of an element; none where it is empty or holds text.
pub open spec fn children_of(content: XmlContent) -> Seq<XmlTree> {
    match content {
        XmlContent::Elements(children) => children,
        _ => Seq::empty(),
    }
}

/// The content of an element with the given children.
pub open spec fn content_of(children: Seq<XmlTree>) -> XmlContent {
    if children.len() == 0 {
        XmlContent::Empty
    } else {
        XmlContent::Elements(children)
    }
}

/// Whether `i` is the position of the attribute `name`.
pub open spec fn is_attribute_at(
    attributes: Seq<(Seq<char>, Seq<char>)>,
    name: Seq<char>,
    i: int,
) -> bool {
    0 <= i < attributes.len() && attributes[i].0 == name
}

/// The attributes after `name` has been set to `value`: an attribute of that
/// name keeps its place and takes the value; a new one goes to the end.
pub open spec fn with_attribute(
    attributes: Seq<(Seq<char>, Seq<char>)>,
    name: Seq<char>,
    value: Seq<char>,
) -> Seq<(Seq<char>, Seq<char>)> {
    if exists|i: int| is_attribute_at(attributes, name, i) {
        attributes.update(choose|i: int| is_attribute_at(attributes, name, i), (name, value))
    } else {
        attributes.push((name, value))
    }
}

/// `XMLElement::new`: an element with the given tag, no attribute and no
/// content.
#[verifier::external_body]
pub(crate) fn new_element(name: &str) -> (element: XMLElement)
    ensures
        tree_of(element) == (XmlTree {
            name: name@,
            attributes: Seq::empty(),
            content: XmlContent::Empty,
        }),
{
    XMLElement::new(name)
}

/// `XMLElement::add_attribute`, which inserts into a map that keeps the order
/// of insertion: a name that is there keeps its place and gets the new value,
/// a new name goes to the end.
#[verifier::external_body]
pub(crate) fn add_attribute(element: &mut XMLElement, name: &str, value: &str)
    ensures
        tree_of(*final(element)) == (XmlTree {
            attributes: with_attribute(tree_of(*old(element)).attributes, name@, value@),
            ..tree_of(*old(element))
        }),
{
    element.add_attribute(name, value);
}

/// `XMLElement::add_text`, which panics unless the element is empty.
#[verifier::external_body]
pub(crate) fn add_text(element: &mut XMLElement, text: &str)
    requires
        tree_of(*old(element)).content is Empty,
    ensures
        tree_of(*final(element)) == (XmlTree {
            content: XmlContent::Text(text@),
            ..tree_of(*old(element))
        }),
{
    element.add_text(text);
}

/// `XMLElement::add_child`, which panics where the element holds text: the
/// child goes behind the children that are there.
#[verifier::external_body]
pub(crate) fn add_child(element: &mut XMLElement, child: XMLElement)
    requires
        !(tree_of(*old(element)).content is Text),
    ensures
        tree_of(*final(element)) == (XmlTree {
            content: XmlContent::Elements(
                children_of(tree_of(*old(element)).content).push(tree_of(child)),
            ),
            ..tree_of(*old(element))
        }),
{
    element.add_child(child);
}

/// `XMLElement`'s `to_string`, which writes the document into a string. The
/// contract only names the result.
#[verifier::external_body]
pub(crate) fn write_document(element: &XMLElement) -> (text: String)
    ensures
        text@ == document_text(tree_of(*element)),
{
    element.to_string()
}

/// Adding a child to an element with the given children gives it those
/// children and the new one behind them.
pub proof fn lemma_one_more_child(children: Seq<XmlTree>, child: XmlTree)
    ensures
        XmlContent::Elements(children_of(content_of(children)).push(child)) == content_of(
            children.push(child),
        ),
        !(content_of(children) is Text),
{
    assert(children_of(content_of(children)) =~= children);
}

/// Setting an attribute that the element does not have yet puts it at the
/// end.
pub proof fn lemma_new_attribute(
    attributes: Seq<(Seq<char>, Seq<char>)>,
    name: Seq<char>,
    value: Seq<char>,
)
    requires
        forall|i: int| 0 <= i < attributes.len() ==> (#[trigger] attributes[i]).0 != name,
    ensures
        with_attribute(attributes, name, value) == attributes.push((name, value)),
{
    assert forall|i: int| !is_attribute_at(attributes, name, i) by {
        if 0 <= i < attributes.len() {
            assert(attributes[i].0 != name);
        }
    }
}

} // verus!
