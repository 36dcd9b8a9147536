//! Requirement diagrams: named elements and requirements, typed
//! relationships between them, and the diagram container that renders
//! everything to notation text.

pub mod element;
pub mod relationship;
pub mod requirement;

pub use element::Element;
pub use relationship::Relationship;
pub use relationship::RelationshipType;
pub use requirement::Requirement;
pub use requirement::RequirementType;
pub use requirement::Risk;
pub use requirement::VerifyMethod;

use crate::erd::utils::spec_append_items;
use crate::erd::utils::texts_of;
use crate::req::element::spec_render_element;
use crate::req::relationship::spec_render_req_relationship;
use crate::req::requirement::spec_render_requirement;
use vstd::prelude::*;

verus! {

/// A requirement diagram: requirements and elements keyed by name in
/// insertion order, and an ordered list of relationships.
#[must_use]
#[derive(Debug)]
pub struct RequirementDiagram {
    pub requirements: Vec<Requirement>,
    pub elements: Vec<Element>,
    pub relationships: Vec<Relationship>,
}

/// Whether some element of the store carries the given name.
pub open spec fn spec_has_element(s: Seq<Element>, name: Seq<char>) -> bool {
    exists|i: int| 0 <= i < s.len() && s[i].name@ == name
}

/// The position of the first element carrying the given name.
pub open spec fn spec_element_index(s: Seq<Element>, name: Seq<char>) -> int
    decreases s.len(),
{
    if s.len() == 0 {
        0
    } else if s[0].name@ == name {
        0
    } else {
        1 + spec_element_index(s.drop_first(), name)
    }
}

/// Whether some requirement of the store carries the given name.
pub open spec fn spec_has_requirement(s: Seq<Requirement>, name: Seq<char>) -> bool {
    exists|i: int| 0 <= i < s.len() && s[i].name@ == name
}

/// The position of the first requirement carrying the given name.
pub open spec fn spec_requirement_index(s: Seq<Requirement>, name: Seq<char>) -> int
    decreases s.len(),
{
    if s.len() == 0 {
        0
    } else if s[0].name@ == name {
        0
    } else {
        1 + spec_requirement_index(s.drop_first(), name)
    }
}

/// Whether the given name is known to the diagram, as an element or as a
/// requirement.
pub open spec fn spec_found_in_diagram(d: RequirementDiagram, name: Seq<char>) -> bool {
    spec_has_element(d.elements@, name) || spec_has_requirement(d.requirements@, name)
}

/// No two elements of the store share a name.
pub open spec fn spec_unique_element_names(s: Seq<Element>) -> bool {
    forall|i: int, j: int| 0 <= i < j < s.len() ==> s[i].name@ != s[j].name@
}

/// No two requirements of the store share a name.
pub open spec fn spec_unique_requirement_names(s: Seq<Requirement>) -> bool {
    forall|i: int, j: int| 0 <= i < j < s.len() ==> s[i].name@ != s[j].name@
}

/// When a name occurs, `spec_element_index` names its first occurrence.
pub proof fn lemma_element_index(s: Seq<Element>, name: Seq<char>)
    requires
        spec_has_element(s, name),
    ensures
        0 <= spec_element_index(s, name) < s.len(),
        s[spec_element_index(s, name)].name@ == name,
        forall|m: int| 0 <= m < spec_element_index(s, name) ==> s[m].name@ != name,
    decreases s.len(),
{
    if s[0].name@ != name {
        assert(spec_has_element(s.drop_first(), name)) by {
            let i = choose|i: int| 0 <= i < s.len() && s[i].name@ == name;
            assert(s.drop_first()[i - 1] == s[i]);
        }
        lemma_element_index(s.drop_first(), name);
        let idx = spec_element_index(s, name);
        assert(s[idx] == s.drop_first()[idx - 1]);
        assert forall|m: int| 0 <= m < idx implies s[m].name@ != name by {
            if m >= 1 {
                assert(s.drop_first()[m - 1] == s[m]);
            }
        }
    }
}

/// When a name occurs, `spec_requirement_index` names its first
/// occurrence.
pub proof fn lemma_requirement_index(s: Seq<Requirement>, name: Seq<char>)
    requires
        spec_has_requirement(s, name),
    ensures
        0 <= spec_requirement_index(s, name) < s.len(),
        s[spec_requirement_index(s, name)].name@ == name,
        forall|m: int| 0 <= m < spec_requirement_index(s, name) ==> s[m].name@ != name,
    decreases s.len(),
{
    if s[0].name@ != name {
        assert(spec_has_requirement(s.drop_first(), name)) by {
            let i = choose|i: int| 0 <= i < s.len() && s[i].name@ == name;
            assert(s.drop_first()[i - 1] == s[i]);
        }
        lemma_requirement_index(s.drop_first(), name);
        let idx = spec_requirement_index(s, name);
        assert(s[idx] == s.drop_first()[idx - 1]);
        assert forall|m: int| 0 <= m < idx implies s[m].name@ != name by {
            if m >= 1 {
                assert(s.drop_first()[m - 1] == s[m]);
            }
        }
    }
}

impl RequirementDiagram {
    /// Create an empty diagram: no requirements, no elements, no
    /// relationships.
    pub fn new() -> (d: Self)
        ensures
            d.requirements@ == Seq::<Requirement>::empty(),
            d.elements@ == Seq::<Element>::empty(),
            d.relationships@ == Seq::<Relationship>::empty(),
    {
        RequirementDiagram {
            requirements: Vec::new(),
            elements: Vec::new(),
            relationships: Vec::new(),
        }
    }
}

impl Default for RequirementDiagram {
    /// The default diagram is the empty one.
    fn default() -> (d: Self)
        ensures
            d.requirements@ == Seq::<Requirement>::empty(),
            d.elements@ == Seq::<Element>::empty(),
            d.relationships@ == Seq::<Relationship>::empty(),
    {
        RequirementDiagram::new()
    }
}

impl RequirementDiagram {
    /// Insert an element, keyed by its name.  An element already stored
    /// under that name is replaced in place, so the last write for a given
    /// name wins and insertion order is kept.
    pub fn add_element(&mut self, element: Element)
        ensures
            final(self).requirements == old(self).requirements,
            final(self).relationships == old(self).relationships,
            final(self).elements@ == if spec_has_element(old(self).elements@, element.name@) {
                old(self).elements@.update(
                    spec_element_index(old(self).elements@, element.name@),
                    element,
                )
            } else {
                old(self).elements@.push(element)
            },
            spec_unique_element_names(old(self).elements@) ==> spec_unique_element_names(
                final(self).elements@,
            ),
    {
        let n = self.elements.len();
        let mut i: usize = 0;
        while i < n
            invariant
                i <= n,
                n == self.elements.len(),
                *self == *old(self),
                forall|m: int| 0 <= m < i ==> self.elements@[m].name@ != element.name@,
            decreases n - i,
        {
            if self.elements[i].name == element.name {
                proof {
                    assert(spec_has_element(self.elements@, element.name@));
                    lemma_element_index(self.elements@, element.name@);
                }
                self.elements[i] = element;
                proof {
                    let s_old = old(self).elements@;
                    let s_new = self.elements@;
                    if spec_unique_element_names(s_old) {
                        assert forall|p: int, q: int|
                            0 <= p < q < s_new.len() implies s_new[p].name@
                            != s_new[q].name@ by {
                            assert(s_new[i as int].name@ == s_old[i as int].name@);
                        }
                    }
                }
                return ;
            }
            i = i + 1;
        }
        proof {
            assert(!spec_has_element(self.elements@, element.name@));
        }
        self.elements.push(element);
        proof {
            let s_old = old(self).elements@;
            let s_new = self.elements@;
            if spec_unique_element_names(s_old) {
                assert forall|p: int, q: int|
                    0 <= p < q < s_new.len() implies s_new[p].name@ != s_new[q].name@ by {
                    if q < s_old.len() {
                        assert(s_new[p] == s_old[p] && s_new[q] == s_old[q]);
                    } else {
                        assert(s_new[q] == element && s_new[p] == s_old[p]);
                    }
                }
            }
        }
    }

    /// Add an element to the diagram on creation by chaining with
    /// [`RequirementDiagram::new`].
    pub fn with_element(self, element: Element) -> (d: Self)
        ensures
            d.requirements == self.requirements,
            d.relationships == self.relationships,
            d.elements@ == if spec_has_element(self.elements@, element.name@) {
                self.elements@.update(
                    spec_element_index(self.elements@, element.name@),
                    element,
                )
            } else {
                self.elements@.push(element)
            },
    {
        let mut updated = self;
        updated.add_element(element);
        updated
    }

    /// Try to find an element in the diagram using its name.
    #[must_use]
    pub fn get_element_by_name(&self, name: &str) -> (r: Option<&Element>)
        ensures
            match r {
                Some(e) => spec_has_element(self.elements@, name@) && *e == self.elements@[
                    spec_element_index(self.elements@, name@)
                ],
                None => !spec_has_element(self.elements@, name@),
            },
    {
        let key = String::from_str(name);
        let n = self.elements.len();
        let mut i: usize = 0;
        while i < n
            invariant
                i <= n,
                n == self.elements.len(),
                key@ == name@,
                forall|m: int| 0 <= m < i ==> self.elements@[m].name@ != name@,
            decreases n - i,
        {
            if self.elements[i].name == key {
                proof {
                    assert(spec_has_element(self.elements@, name@));
                    lemma_element_index(self.elements@, name@);
                }
                return Some(&self.elements[i]);
            }
            i = i + 1;
        }
        None
    }

    /// Insert a requirement, keyed by its name.  A requirement already
    /// stored under that name is replaced in place, so the last write for
    /// a given name wins and insertion order is kept.
    pub fn add_requirement(&mut self, req: Requirement)
        ensures
            final(self).elements == old(self).elements,
            final(self).relationships == old(self).relationships,
            final(self).requirements@ == if spec_has_requirement(
                old(self).requirements@,
                req.name@,
            ) {
                old(self).requirements@.update(
                    spec_requirement_index(old(self).requirements@, req.name@),
                    req,
                )
            } else {
                old(self).requirements@.push(req)
            },
            spec_unique_requirement_names(old(self).requirements@)
                ==> spec_unique_requirement_names(final(self).requirements@),
    {
        let n = self.requirements.len();
        let mut i: usize = 0;
        while i < n
            invariant
                i <= n,
                n == self.requirements.len(),
                *self == *old(self),
                forall|m: int| 0 <= m < i ==> self.requirements@[m].name@ != req.name@,
            decreases n - i,
        {
            if self.requirements[i].name == req.name {
                proof {
                    assert(spec_has_requirement(self.requirements@, req.name@));
                    lemma_requirement_index(self.requirements@, req.name@);
                }
                self.requirements[i] = req;
                proof {
                    let s_old = old(self).requirements@;
                    let s_new = self.requirements@;
                    if spec_unique_requirement_names(s_old) {
                        assert forall|p: int, q: int|
                            0 <= p < q < s_new.len() implies s_new[p].name@
                            != s_new[q].name@ by {
                            assert(s_new[i as int].name@ == s_old[i as int].name@);
                        }
                    }
                }
                return ;
            }
            i = i + 1;
        }
        proof {
            assert(!spec_has_requirement(self.requirements@, req.name@));
        }
        self.requirements.push(req);
        proof {
            let s_old = old(self).requirements@;
            let s_new = self.requirements@;
            if spec_unique_requirement_names(s_old) {
                assert forall|p: int, q: int|
                    0 <= p < q < s_new.len() implies s_new[p].name@ != s_new[q].name@ by {
                    if q < s_old.len() {
                        assert(s_new[p] == s_old[p] && s_new[q] == s_old[q]);
                    } else {
                        assert(s_new[q] == req && s_new[p] == s_old[p]);
                    }
                }
            }
        }
    }

    /// Add a requirement to the diagram on creation by chaining with
    /// [`RequirementDiagram::new`].
    pub fn with_requirement(self, req: Requirement) -> (d: Self)
        ensures
            d.elements == self.elements,
            d.relationships == self.relationships,
            d.requirements@ == if spec_has_requirement(self.requirements@, req.name@) {
                self.requirements@.update(
                    spec_requirement_index(self.requirements@, req.name@),
                    req,
                )
            } else {
                self.requirements@.push(req)
            },
    {
        let mut updated = self;
        updated.add_requirement(req);
        updated
    }

    /// Try to find a requirement in the diagram using its name.
    #[must_use]
    pub fn get_requirement_by_name(&self, name: &str) -> (r: Option<&Requirement>)
        ensures
            match r {
                Some(q) => spec_has_requirement(self.requirements@, name@) && *q
                    == self.requirements@[spec_requirement_index(self.requirements@, name@)],
                None => !spec_has_requirement(self.requirements@, name@),
            },
    {
        let key = String::from_str(name);
        let n = self.requirements.len();
        let mut i: usize = 0;
        while i < n
            invariant
                i <= n,
                n == self.requirements.len(),
                key@ == name@,
                forall|m: int| 0 <= m < i ==> self.requirements@[m].name@ != name@,
            decreases n - i,
        {
            if self.requirements[i].name == key {
                proof {
                    assert(spec_has_requirement(self.requirements@, name@));
                    lemma_requirement_index(self.requirements@, name@);
                }
                return Some(&self.requirements[i]);
            }
            i = i + 1;
        }
        None
    }

    /// Whether an element or requirement with the given name exists in the
    /// diagram.
    pub fn found_in_diagram(&self, name: &str) -> (r: bool)
        ensures
            r == spec_found_in_diagram(*self, name@),
    {
        if self.get_element_by_name(name).is_some() {
            true
        } else {
            self.get_requirement_by_name(name).is_some()
        }
    }

    /// Add a relationship to the diagram.
    ///
    /// Referencing a source or target that the diagram does not hold is a
    /// precondition violation: callers must first make both names known,
    /// as elements or requirements.
    pub fn add_relationship(&mut self, relationship: Relationship)
        requires
            spec_found_in_diagram(*old(self), relationship.source@),
            spec_found_in_diagram(*old(self), relationship.target@),
        ensures
            final(self).requirements == old(self).requirements,
            final(self).elements == old(self).elements,
            final(self).relationships@ == old(self).relationships@.push(relationship),
    {
        self.relationships.push(relationship);
    }

    /// Add a relationship to the diagram on creation by chaining with
    /// [`RequirementDiagram::new`].
    pub fn with_relationship(self, relationship: Relationship) -> (d: Self)
        requires
            spec_found_in_diagram(self, relationship.source@),
            spec_found_in_diagram(self, relationship.target@),
        ensures
            d.requirements == self.requirements,
            d.elements == self.elements,
            d.relationships@ == self.relationships@.push(relationship),
    {
        let mut updated = self;
        updated.add_relationship(relationship);
        updated
    }
}

/// A whole diagram's notation text: the fixed header token, then a
/// banner-delimited section for each non-empty store, in the order
/// Elements, Requirements, Relationships.  The empty diagram renders as
/// the bare header token.
pub open spec fn spec_render_requirement_diagram(d: RequirementDiagram) -> Seq<char> {
    let base = "requirementDiagram"@;
    let with_elements = if d.elements@.len() > 0 {
        spec_append_items(
            base,
            d.elements@.map_values(|e: Element| spec_render_element(e)),
            "Elements"@,
            4,
        )
    } else {
        base
    };
    let with_requirements = if d.requirements@.len() > 0 {
        spec_append_items(
            with_elements,
            d.requirements@.map_values(|q: Requirement| spec_render_requirement(q)),
            "Requirements"@,
            4,
        )
    } else {
        with_elements
    };
    if d.relationships@.len() > 0 {
        spec_append_items(
            with_requirements,
            d.relationships@.map_values(|r: Relationship| spec_render_req_relationship(r)),
            "Relationships"@,
            4,
        )
    } else {
        with_requirements
    }
}

impl RequirementDiagram {
    /// The diagram's notation text.
    pub fn render(&self) -> (r: String)
        ensures
            r@ == spec_render_requirement_diagram(*self),
    {
        let mut out = String::from_str("requirementDiagram");
        if self.elements.len() > 0 {
            let ghost targets = self.elements@.map_values(
                |e: Element| spec_render_element(e),
            );
            let mut rendered: Vec<String> = Vec::new();
            let mut i: usize = 0;
            while i < self.elements.len()
                invariant
                    i <= self.elements.len(),
                    targets == self.elements@.map_values(
                        |e: Element| spec_render_element(e),
                    ),
                    texts_of(rendered@) == targets.take(i as int),
                decreases self.elements.len() - i,
            {
                let element = &self.elements[i];
                let line = element.render();
                let ghost before = rendered@;
                rendered.push(line);
                proof {
                    assert(rendered@ == before.push(line));
                    assert(texts_of(before).len() == before.len());
                    assert(targets.take(i as int).len() == i as int);
                    assert(before.len() == i as int);
                    assert forall|j: int| 0 <= j < rendered@.len() implies texts_of(rendered@)[j]
                        == targets.take(i as int + 1)[j] by {
                        assert(texts_of(rendered@)[j] == rendered@[j]@);
                        if j < i as int {
                            assert(before.push(line)[j] == before[j]);
                            assert(texts_of(before)[j] == targets.take(i as int)[j]);
                            assert(texts_of(before)[j] == before[j]@);
                        } else {
                            assert(before.push(line)[j] == line);
                        }
                    }
                    assert(texts_of(rendered@) =~= targets.take(i as int + 1));
                }
                i = i + 1;
            }
            proof {
                assert(targets.take(self.elements@.len() as int) =~= targets);
            }
            out = crate::erd::utils::append_items(out, &rendered, "Elements", 4);
        }
        if self.requirements.len() > 0 {
            let ghost targets = self.requirements@.map_values(
                |q: Requirement| spec_render_requirement(q),
            );
            let mut rendered: Vec<String> = Vec::new();
            let mut i: usize = 0;
            while i < self.requirements.len()
                invariant
                    i <= self.requirements.len(),
                    targets == self.requirements@.map_values(
                        |q: Requirement| spec_render_requirement(q),
                    ),
                    texts_of(rendered@) == targets.take(i as int),
                decreases self.requirements.len() - i,
            {
                let requirement = &self.requirements[i];
                let line = requirement.render();
                let ghost before = rendered@;
                rendered.push(line);
                proof {
                    assert(rendered@ == before.push(line));
                    assert(texts_of(before).len() == before.len());
                    assert(targets.take(i as int).len() == i as int);
                    assert(before.len() == i as int);
                    assert forall|j: int| 0 <= j < rendered@.len() implies texts_of(rendered@)[j]
                        == targets.take(i as int + 1)[j] by {
                        assert(texts_of(rendered@)[j] == rendered@[j]@);
                        if j < i as int {
                            assert(before.push(line)[j] == before[j]);
                            assert(texts_of(before)[j] == targets.take(i as int)[j]);
                            assert(texts_of(before)[j] == before[j]@);
                        } else {
                            assert(before.push(line)[j] == line);
                        }
                    }
                    assert(texts_of(rendered@) =~= targets.take(i as int + 1));
                }
                i = i + 1;
            }
            proof {
                assert(targets.take(self.requirements@.len() as int) =~= targets);
            }
            out = crate::erd::utils::append_items(out, &rendered, "Requirements", 4);
        }
        if self.relationships.len() > 0 {
            let ghost targets = self.relationships@.map_values(
                |r: Relationship| spec_render_req_relationship(r),
            );
            let mut rendered: Vec<String> = Vec::new();
            let mut i: usize = 0;
            while i < self.relationships.len()
                invariant
                    i <= self.relationships.len(),
                    targets == self.relationships@.map_values(
                        |r: Relationship| spec_render_req_relationship(r),
                    ),
                    texts_of(rendered@) == targets.take(i as int),
                decreases self.relationships.len() - i,
            {
                let relationship = &self.relationships[i];
                let line = relationship.render();
                let ghost before = rendered@;
                rendered.push(line);
                proof {
                    assert(rendered@ == before.push(line));
                    assert(texts_of(before).len() == before.len());
                    assert(targets.take(i as int).len() == i as int);
                    assert(before.len() == i as int);
                    assert forall|j: int| 0 <= j < rendered@.len() implies texts_of(rendered@)[j]
                        == targets.take(i as int + 1)[j] by {
                        assert(texts_of(rendered@)[j] == rendered@[j]@);
                        if j < i as int {
                            assert(before.push(line)[j] == before[j]);
                            assert(texts_of(before)[j] == targets.take(i as int)[j]);
                            assert(texts_of(before)[j] == before[j]@);
                        } else {
                            assert(before.push(line)[j] == line);
                        }
                    }
                    assert(texts_of(rendered@) =~= targets.take(i as int + 1));
                }
                i = i + 1;
            }
            proof {
                assert(targets.take(self.relationships@.len() as int) =~= targets);
            }
            out = crate::erd::utils::append_items(out, &rendered, "Relationships", 4);
        }
        out
    }
}

} // verus!
