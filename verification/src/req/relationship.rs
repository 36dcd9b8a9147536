//! Typed relationships between the named items of a requirement diagram.

use vstd::prelude::*;

verus! {

/// The kind of link between two items of a requirement diagram.
#[derive(Debug, PartialEq, Eq, Structural)]
pub enum RelationshipType {
    Contains,
    Copies,
    Derives,
    Satisfies,
    Verifies,
    Refines,
    Traces,
}

/// The fixed lower-case word for each relationship kind.
pub open spec fn spec_render_relationship_type(t: RelationshipType) -> Seq<char> {
    match t {
        RelationshipType::Contains => "contains"@,
        RelationshipType::Copies => "copies"@,
        RelationshipType::Derives => "derives"@,
        RelationshipType::Satisfies => "satisfies"@,
        RelationshipType::Verifies => "verifies"@,
        RelationshipType::Refines => "refines"@,
        RelationshipType::Traces => "traces"@,
    }
}

impl RelationshipType {
    /// The lower-case word for this relationship kind.
    pub fn render(&self) -> (r: String)
        ensures
            r@ == spec_render_relationship_type(*self),
    {
        match self {
            RelationshipType::Contains => String::from_str("contains"),
            RelationshipType::Copies => String::from_str("copies"),
            RelationshipType::Derives => String::from_str("derives"),
            RelationshipType::Satisfies => String::from_str("satisfies"),
            RelationshipType::Verifies => String::from_str("verifies"),
            RelationshipType::Refines => String::from_str("refines"),
            RelationshipType::Traces => String::from_str("traces"),
        }
    }
}

/// A typed edge between two named items of a requirement diagram.
#[must_use]
#[derive(Debug)]
pub struct Relationship {
    pub source: String,
    pub target: String,
    pub kind: RelationshipType,
}

/// A relationship line: `source - kind -> target`.
pub open spec fn spec_render_req_relationship(r: Relationship) -> Seq<char> {
    r.source@ + " - "@ + spec_render_relationship_type(r.kind) + " -> "@ + r.target@
}

impl Relationship {
    /// Create a relationship between two named items.
    pub fn new(source: &str, target: &str, kind: RelationshipType) -> (r: Self)
        ensures
            r.source@ == source@,
            r.target@ == target@,
            r.kind == kind,
    {
        Relationship { source: String::from_str(source), target: String::from_str(target), kind }
    }

    /// The relationship's notation text.
    pub fn render(&self) -> (r: String)
        ensures
            r@ == spec_render_req_relationship(*self),
    {
        let mut out = String::from_str(self.source.as_str());
        out.append(" - ");
        let kind = self.kind.render();
        out.append(kind.as_str());
        out.append(" -> ");
        out.append(self.target.as_str());
        proof {
            assert(out@ =~= spec_render_req_relationship(*self));
        }
        out
    }
}

} // verus!
