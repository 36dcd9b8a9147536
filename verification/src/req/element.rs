//! Elements of a requirement diagram: external references such as
//! documents, keyed by name.

use vstd::prelude::*;

verus! {

/// An element of a requirement diagram: a named external reference with a
/// kind and an optional document reference.
#[must_use]
#[derive(Debug)]
pub struct Element {
    pub name: String,
    pub kind: String,
    pub docref: Option<String>,
}

/// The display form of an optional document reference: an indented line,
/// or nothing.
pub open spec fn spec_docref_part(o: Option<String>) -> Seq<char> {
    match o {
        Some(d) => "    docref: "@ + d@ + "\n"@,
        None => Seq::empty(),
    }
}

/// An element's notation text: a braced block holding its quoted kind and,
/// when present, its document reference.
pub open spec fn spec_render_element(e: Element) -> Seq<char> {
    "element "@ + e.name@ + " {\n"@ + "    type: \""@ + e.kind@ + "\"\n"@ + spec_docref_part(
        e.docref,
    ) + "}"@
}

impl Element {
    /// Create an element with its name and kind; no document reference is
    /// set.
    pub fn new(name: &str, kind: &str) -> (r: Self)
        ensures
            r.name@ == name@,
            r.kind@ == kind@,
            r.docref is None,
    {
        Element { name: String::from_str(name), kind: String::from_str(kind), docref: None }
    }

    /// Chain with [`Element::new`] to set a document reference.
    pub fn with_docref(self, docref: &str) -> (r: Self)
        ensures
            r.name == self.name,
            r.kind == self.kind,
            r.docref matches Some(d) && d@ == docref@,
    {
        Element {
            name: self.name,
            kind: self.kind,
            docref: Some(String::from_str(docref)),
        }
    }

    /// The element's notation text.
    pub fn render(&self) -> (r: String)
        ensures
            r@ == spec_render_element(*self),
    {
        let mut out = String::from_str("element ");
        out.append(self.name.as_str());
        out.append(" {\n");
        out.append("    type: \"");
        out.append(self.kind.as_str());
        out.append("\"\n");
        if let Some(docref) = &self.docref {
            out.append("    docref: ");
            out.append(docref.as_str());
            out.append("\n");
        }
        out.append("}");
        proof {
            assert(out@ =~= spec_render_element(*self));
        }
        out
    }
}

} // verus!
