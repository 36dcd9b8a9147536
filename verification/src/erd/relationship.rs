//! Typed relationships between entities, with the cardinality symbol
//! table and the line rendering rules.

use crate::erd::EntityId;
use crate::erd::spec_upper;
use vstd::prelude::*;

verus! {

/// How many instances of one entity may relate to instances of another.
#[derive(Debug, PartialEq, Eq, Structural)]
pub enum Cardinality {
    ZeroOrOne,
    ExactlyOne,
    ZeroOrMore,
    OneOrMore,
}

/// Which end of a relationship a cardinality symbol is drawn on.
enum Direction {
    Left,
    Right,
}

/// The notation symbol for a cardinality on the left end of a line.
pub open spec fn spec_left_symbol(c: Cardinality) -> Seq<char> {
    match c {
        Cardinality::ZeroOrOne => "|o"@,
        Cardinality::ExactlyOne => "||"@,
        Cardinality::ZeroOrMore => "}o"@,
        Cardinality::OneOrMore => "}|"@,
    }
}

/// The notation symbol for a cardinality on the right end of a line.
pub open spec fn spec_right_symbol(c: Cardinality) -> Seq<char> {
    match c {
        Cardinality::ZeroOrOne => "o|"@,
        Cardinality::ExactlyOne => "||"@,
        Cardinality::ZeroOrMore => "o{"@,
        Cardinality::OneOrMore => "|{"@,
    }
}

impl Cardinality {
    /// The join symbol for this cardinality on the given end of the line.
    fn fmt_with_direction(&self, dir: Direction) -> (r: String)
        ensures
            r@ == match dir {
                Direction::Left => spec_left_symbol(*self),
                Direction::Right => spec_right_symbol(*self),
            },
    {
        match (self, dir) {
            (Cardinality::ZeroOrOne, Direction::Left) => String::from_str("|o"),
            (Cardinality::ExactlyOne, Direction::Left) => String::from_str("||"),
            (Cardinality::ZeroOrMore, Direction::Left) => String::from_str("}o"),
            (Cardinality::OneOrMore, Direction::Left) => String::from_str("}|"),
            (Cardinality::ZeroOrOne, Direction::Right) => String::from_str("o|"),
            (Cardinality::ExactlyOne, Direction::Right) => String::from_str("||"),
            (Cardinality::ZeroOrMore, Direction::Right) => String::from_str("o{"),
            (Cardinality::OneOrMore, Direction::Right) => String::from_str("|{"),
        }
    }

    /// The symbol shown for this cardinality on its own: the right-end form.
    pub fn render(&self) -> (r: String)
        ensures
            r@ == spec_right_symbol(*self),
    {
        self.fmt_with_direction(Direction::Right)
    }
}

/// A relationship between two entities of an entity-relationship diagram.
#[must_use]
#[derive(Debug)]
pub struct Relationship {
    pub left_id: EntityId,
    pub right_id: EntityId,
    pub left_cardinality: Cardinality,
    pub right_cardinality: Cardinality,
    pub is_identifying: bool,
    pub label: Option<String>,
}

/// The part of a relationship line before any label: both entity ids and
/// the cardinality symbols, joined by a solid line when the relationship
/// is identifying and a dashed one otherwise.
pub open spec fn spec_relationship_base(r: Relationship) -> Seq<char> {
    r.left_id@ + " "@ + spec_left_symbol(r.left_cardinality) + (if r.is_identifying {
        "--"@
    } else {
        ".."@
    }) + spec_right_symbol(r.right_cardinality) + " "@ + r.right_id@
}

/// A relationship on its own: the label suffix appears only when a label
/// is set.
pub open spec fn spec_render_relationship(r: Relationship) -> Seq<char> {
    spec_relationship_base(r) + match r.label {
        Some(l) => " : \""@ + l@ + "\""@,
        None => Seq::empty(),
    }
}

/// A relationship as a diagram line: the quoted label slot is always
/// present, and holds the empty string when no label is set.
pub open spec fn spec_relationship_line(r: Relationship) -> Seq<char> {
    spec_relationship_base(r) + " : \""@ + (match r.label {
        Some(l) => l@,
        None => Seq::<char>::empty(),
    }) + "\""@
}

impl Relationship {
    /// Create a relationship between two entity ids.
    ///
    /// Relationships are identifying by default, shown with a solid line,
    /// and carry no label.  Use [`Relationship::as_non_identifying`] for a
    /// dashed line and [`Relationship::with_label`] to add a label.
    pub fn new(
        left_id: &str,
        right_id: &str,
        left_cardinality: Cardinality,
        right_cardinality: Cardinality,
    ) -> (r: Self)
        ensures
            r.left_id@ == spec_upper(left_id@),
            r.right_id@ == spec_upper(right_id@),
            r.left_cardinality == left_cardinality,
            r.right_cardinality == right_cardinality,
            r.is_identifying,
            r.label is None,
    {
        Relationship {
            left_id: EntityId::new(String::from_str(left_id)),
            right_id: EntityId::new(String::from_str(right_id)),
            left_cardinality,
            right_cardinality,
            is_identifying: true,
            label: None,
        }
    }

    /// Make the relationship non-identifying, shown with a dashed line.
    pub fn as_non_identifying(self) -> (r: Self)
        ensures
            r.left_id == self.left_id,
            r.right_id == self.right_id,
            r.left_cardinality == self.left_cardinality,
            r.right_cardinality == self.right_cardinality,
            !r.is_identifying,
            r.label == self.label,
    {
        Relationship {
            left_id: self.left_id,
            right_id: self.right_id,
            left_cardinality: self.left_cardinality,
            right_cardinality: self.right_cardinality,
            is_identifying: false,
            label: self.label,
        }
    }

    /// Add a label to the relationship.
    pub fn with_label(self, label: &str) -> (r: Self)
        ensures
            r.left_id == self.left_id,
            r.right_id == self.right_id,
            r.left_cardinality == self.left_cardinality,
            r.right_cardinality == self.right_cardinality,
            r.is_identifying == self.is_identifying,
            r.label matches Some(l) && l@ == label@,
    {
        Relationship {
            left_id: self.left_id,
            right_id: self.right_id,
            left_cardinality: self.left_cardinality,
            right_cardinality: self.right_cardinality,
            is_identifying: self.is_identifying,
            label: Some(String::from_str(label)),
        }
    }

    /// The relationship's notation text on its own: no label suffix when
    /// no label is set.
    pub fn render(&self) -> (r: String)
        ensures
            r@ == spec_render_relationship(*self),
    {
        let mut out = self.render_base();
        if let Some(label) = &self.label {
            out.append(" : \"");
            out.append(label.as_str());
            out.append("\"");
        }
        proof {
            assert(out@ =~= spec_render_relationship(*self));
        }
        out
    }

    /// The relationship as a diagram line: the quoted label slot is always
    /// written, empty when no label is set.
    pub fn render_line(&self) -> (r: String)
        ensures
            r@ == spec_relationship_line(*self),
    {
        let mut out = self.render_base();
        out.append(" : \"");
        if let Some(label) = &self.label {
            out.append(label.as_str());
        }
        out.append("\"");
        proof {
            assert(out@ =~= spec_relationship_line(*self));
        }
        out
    }

    /// Both ends of the line with their cardinality symbols.
    fn render_base(&self) -> (r: String)
        ensures
            r@ == spec_relationship_base(*self),
    {
        let mut out = String::from_str(self.left_id.as_str());
        out.append(" ");
        let left = self.left_cardinality.fmt_with_direction(Direction::Left);
        out.append(left.as_str());
        if self.is_identifying {
            out.append("--");
        } else {
            out.append("..");
        }
        let right = self.right_cardinality.fmt_with_direction(Direction::Right);
        out.append(right.as_str());
        out.append(" ");
        out.append(self.right_id.as_str());
        proof {
            assert(out@ =~= spec_relationship_base(*self));
        }
        out
    }
}

} // verus!
