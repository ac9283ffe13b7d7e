//! The XML events that a dump is read as, and the names that the dump's
//! elements are recognised by.

use vstd::prelude::*;

verus! {

/// One event of an XML reader that resolves namespace prefixes and expands
/// empty elements into a start and an end tag.
#[derive(Debug)]
pub enum XmlEvent {
    /// A start tag, with the namespace URI that its name resolves to, if any.
    Start { namespace: Option<String>, local_name: String },
    /// An end tag.
    End,
    /// Character data, with the escapes already resolved.
    Text(String),
    /// A comment, a CDATA section, a declaration or a processing instruction.
    Other,
    /// The end of the input.
    Eof,
}

/// An event with its strings as sequences of characters.
pub enum EventView {
    Start { namespace: Option<Seq<char>>, local_name: Seq<char> },
    End,
    Text(Seq<char>),
    Other,
    Eof,
}

pub open spec fn opt_view(o: Option<String>) -> Option<Seq<char>> {
    match o {
        Some(s) => Some(s@),
        None => None,
    }
}

impl View for XmlEvent {
    type V = EventView;

    open spec fn view(&self) -> EventView {
        match self {
            XmlEvent::Start { namespace, local_name } => EventView::Start {
                namespace: opt_view(*namespace),
                local_name: local_name@,
            },
            XmlEvent::End => EventView::End,
            XmlEvent::Text(t) => EventView::Text(t@),
            XmlEvent::Other => EventView::Other,
            XmlEvent::Eof => EventView::Eof,
        }
    }
}

/// The namespace URI of the export schema.
pub open spec fn export_namespace() -> Seq<char> {
    "http://www.mediawiki.org/xml/export-0.10/"@
}

pub open spec fn root_name() -> Seq<char> {
    "mediawiki"@
}

pub open spec fn page_name() -> Seq<char> {
    "page"@
}

pub open spec fn ns_name() -> Seq<char> {
    "ns"@
}

pub open spec fn title_name() -> Seq<char> {
    "title"@
}

pub open spec fn revision_name() -> Seq<char> {
    "revision"@
}

pub open spec fn format_name() -> Seq<char> {
    "format"@
}

pub open spec fn model_name() -> Seq<char> {
    "model"@
}

pub open spec fn text_name() -> Seq<char> {
    "text"@
}

/// Whether `e` is the start tag of the element `name` of the export namespace.
pub open spec fn opens(e: EventView, name: Seq<char>) -> bool {
    match e {
        EventView::Start { namespace, local_name } => namespace == Some(export_namespace())
            && local_name == name,
        _ => false,
    }
}

/// Compares two strings character by character.
pub fn str_eq(a: &str, b: &str) -> (r: bool)
    ensures
        r == (a@ == b@),
{
    let n = a.unicode_len();
    if n != b.unicode_len() {
        return false;
    }
    let mut i: usize = 0;
    while i < n
        invariant
            n == a@.len() == b@.len(),
            i <= n,
            a@.subrange(0, i as int) == b@.subrange(0, i as int),
        decreases n - i,
    {
        if a.get_char(i) != b.get_char(i) {
            return false;
        }
        assert(a@.subrange(0, i + 1) == a@.subrange(0, i as int).push(a@[i as int]));
        assert(b@.subrange(0, i + 1) == b@.subrange(0, i as int).push(b@[i as int]));
        i = i + 1;
    }
    assert(a@ == a@.subrange(0, n as int));
    assert(b@ == b@.subrange(0, n as int));
    true
}

/// Whether a tag's namespace is the export namespace.
pub fn match_namespace(namespace: Option<&str>) -> (r: bool)
    ensures
        r == match namespace {
            Some(ns) => ns@ == export_namespace(),
            None => false,
        },
{
    match namespace {
        None => false,
        Some(ns) => str_eq(ns, "http://www.mediawiki.org/xml/export-0.10/"),
    }
}

/// Whether a start tag is that of the element `name` of the export namespace.
pub fn is_element(namespace: &Option<String>, local_name: &String, name: &str) -> (r: bool)
    ensures
        r == (opt_view(*namespace) == Some(export_namespace()) && local_name@ == name@),
{
    let in_scope = match namespace {
        Some(ns) => match_namespace(Some(ns.as_str())),
        None => match_namespace(None),
    };
    in_scope && str_eq(local_name.as_str(), name)
}

} // verus!
