//! Entity-relationship diagrams: entities with attributes, typed
//! relationships between them, and the diagram container that renders
//! everything to notation text.

pub mod entity;
pub mod relationship;
pub mod utils;

pub use entity::Attribute;
pub use entity::Entity;
pub use entity::KeyConstraints;
pub use relationship::Cardinality;
pub use relationship::Relationship;

use crate::erd::entity::spec_render_entity;
use crate::erd::relationship::spec_relationship_line;
use crate::erd::utils::spec_append_items;
use crate::erd::utils::texts_of;
use vstd::prelude::*;

verus! {

// ==================================================================
// Identifier normalization
// ==================================================================
/// The uppercase form of an ASCII letter; any other character stands
/// unchanged.
pub open spec fn spec_upper_char(c: char) -> char {
    if c == 'a' {
        'A'
    } else if c == 'b' {
        'B'
    } else if c == 'c' {
        'C'
    } else if c == 'd' {
        'D'
    } else if c == 'e' {
        'E'
    } else if c == 'f' {
        'F'
    } else if c == 'g' {
        'G'
    } else if c == 'h' {
        'H'
    } else if c == 'i' {
        'I'
    } else if c == 'j' {
        'J'
    } else if c == 'k' {
        'K'
    } else if c == 'l' {
        'L'
    } else if c == 'm' {
        'M'
    } else if c == 'n' {
        'N'
    } else if c == 'o' {
        'O'
    } else if c == 'p' {
        'P'
    } else if c == 'q' {
        'Q'
    } else if c == 'r' {
        'R'
    } else if c == 's' {
        'S'
    } else if c == 't' {
        'T'
    } else if c == 'u' {
        'U'
    } else if c == 'v' {
        'V'
    } else if c == 'w' {
        'W'
    } else if c == 'x' {
        'X'
    } else if c == 'y' {
        'Y'
    } else if c == 'z' {
        'Z'
    } else {
        c
    }
}

/// The case-normalized (uppercase) form of an identifier.
pub open spec fn spec_upper(s: Seq<char>) -> Seq<char> {
    s.map_values(|c: char| spec_upper_char(c))
}

/// A sequence is normalized when uppercasing leaves it unchanged.
pub open spec fn is_normalized(s: Seq<char>) -> bool {
    spec_upper(s) == s
}

/// Uppercasing is idempotent, so every normalized form is itself
/// normalized.
pub proof fn lemma_upper_idempotent(s: Seq<char>)
    ensures
        spec_upper(spec_upper(s)) == spec_upper(s),
{
    assert(spec_upper(spec_upper(s)) =~= spec_upper(s));
}

/// The uppercase form of a string, character by character: a lowercase
/// ASCII letter becomes its uppercase literal, any other character is
/// carried over unchanged.
fn to_upper(s: &str) -> (r: String)
    ensures
        r@ == spec_upper(s@),
{
    let mut out = String::new();
    let n = s.unicode_len();
    let mut i: usize = 0;
    while i < n
        invariant
            i <= n,
            n == s@.len(),
            out@ == spec_upper(s@.take(i as int)),
        decreases n - i,
    {
        let c = s.get_char(i);
        let piece: &str = match c {
            'a' => "A",
            'b' => "B",
            'c' => "C",
            'd' => "D",
            'e' => "E",
            'f' => "F",
            'g' => "G",
            'h' => "H",
            'i' => "I",
            'j' => "J",
            'k' => "K",
            'l' => "L",
            'm' => "M",
            'n' => "N",
            'o' => "O",
            'p' => "P",
            'q' => "Q",
            'r' => "R",
            's' => "S",
            't' => "T",
            'u' => "U",
            'v' => "V",
            'w' => "W",
            'x' => "X",
            'y' => "Y",
            'z' => "Z",
            _ => s.substring_char(i, i + 1),
        };
        proof {
            reveal_strlit("A");
            reveal_strlit("B");
            reveal_strlit("C");
            reveal_strlit("D");
            reveal_strlit("E");
            reveal_strlit("F");
            reveal_strlit("G");
            reveal_strlit("H");
            reveal_strlit("I");
            reveal_strlit("J");
            reveal_strlit("K");
            reveal_strlit("L");
            reveal_strlit("M");
            reveal_strlit("N");
            reveal_strlit("O");
            reveal_strlit("P");
            reveal_strlit("Q");
            reveal_strlit("R");
            reveal_strlit("S");
            reveal_strlit("T");
            reveal_strlit("U");
            reveal_strlit("V");
            reveal_strlit("W");
            reveal_strlit("X");
            reveal_strlit("Y");
            reveal_strlit("Z");
            assert(piece@ =~= seq![spec_upper_char(c)]);
            assert(spec_upper(s@.take(i + 1 as int)) =~= spec_upper(s@.take(i as int)) + seq![
                spec_upper_char(s@[i as int]),
            ]);
        }
        out.append(piece);
        i = i + 1;
    }
    proof {
        assert(s@.take(n as int) =~= s@);
    }
    out
}

// ==================================================================
// EntityId
// ==================================================================
/// A case-normalized identifier that keys entities within a diagram.
///
/// Two ids built from strings that differ only in ASCII letter case are
/// equal.
#[must_use]
#[derive(Debug, Eq, Hash)]
pub struct EntityId(String);

impl View for EntityId {
    type V = Seq<char>;

    closed spec fn view(&self) -> Seq<char> {
        self.0@
    }
}

impl EntityId {
    /// Every id holds the uppercase form of the string it was built from.
    #[verifier::type_invariant]
    pub open spec fn wf(self) -> bool {
        is_normalized(self@)
    }

    /// Create an id from a string; the string is case-normalized.
    pub fn new(s: String) -> (r: Self)
        ensures
            r@ == spec_upper(s@),
    {
        let normalized = to_upper(s.as_str());
        proof {
            lemma_upper_idempotent(s@);
        }
        EntityId(normalized)
    }

    /// The normalized text of the id.
    #[must_use]
    pub fn as_str(&self) -> (r: &str)
        ensures
            r@ == self@,
    {
        self.0.as_str()
    }
}

impl Clone for EntityId {
    /// A clone keeps the id's text.
    fn clone(&self) -> (r: Self)
        ensures
            r@ == self@,
    {
        proof {
            use_type_invariant(self);
        }
        EntityId(self.0.clone())
    }
}

impl PartialEq for EntityId {
    /// Ids compare by their normalized text.
    fn eq(&self, other: &Self) -> (r: bool) {
        self.0 == other.0
    }
}

impl vstd::std_specs::cmp::PartialEqSpecImpl for EntityId {
    open spec fn obeys_eq_spec() -> bool {
        true
    }

    open spec fn eq_spec(&self, other: &EntityId) -> bool {
        self@ == other@
    }
}

impl From<&str> for EntityId {
    /// Create an id from a borrowed string; the string is case-normalized.
    fn from(s: &str) -> (r: Self)
        ensures
            r@ == spec_upper(s@),
    {
        EntityId::new(String::from_str(s))
    }
}

impl vstd::std_specs::convert::FromSpecImpl<&str> for EntityId {
    open spec fn obeys_from_spec() -> bool {
        false
    }

    open spec fn from_spec(s: &str) -> EntityId {
        arbitrary()
    }
}

// ==================================================================
// ERD
// ==================================================================
/// An entity-relationship diagram: entities keyed by their normalized id
/// in insertion order, and an ordered list of relationships.
#[must_use]
#[derive(Debug)]
pub struct ERD {
    pub title: Option<String>,
    pub entities: Vec<Entity>,
    pub relationships: Vec<Relationship>,
}

/// The key under which an entity is stored: the uppercase form of its id.
pub open spec fn spec_entity_key(e: Entity) -> Seq<char> {
    spec_upper(e.id@)
}

/// Whether some entity of the store carries the given key.
pub open spec fn spec_has_entity(s: Seq<Entity>, key: Seq<char>) -> bool {
    exists|i: int| 0 <= i < s.len() && spec_entity_key(s[i]) == key
}

/// The position of the first entity carrying the given key.
pub open spec fn spec_entity_index(s: Seq<Entity>, key: Seq<char>) -> int
    decreases s.len(),
{
    if s.len() == 0 {
        0
    } else if spec_entity_key(s[0]) == key {
        0
    } else {
        1 + spec_entity_index(s.drop_first(), key)
    }
}

/// An entity as `create_entity_if_missing` builds it: the given name as
/// its id, no alias and no attributes.
pub open spec fn spec_blank_entity(e: Entity, name: Seq<char>) -> bool {
    &&& e.id@ == name
    &&& e.alias is None
    &&& e.attributes@ == Seq::<Attribute>::empty()
}

/// The entity store is a map: no two entities share a key.
pub open spec fn spec_unique_keys(s: Seq<Entity>) -> bool {
    forall|i: int, j: int|
        0 <= i < j < s.len() ==> spec_entity_key(s[i]) != spec_entity_key(s[j])
}

/// When a key occurs, `spec_entity_index` names its first occurrence.
pub proof fn lemma_entity_index(s: Seq<Entity>, key: Seq<char>)
    requires
        spec_has_entity(s, key),
    ensures
        0 <= spec_entity_index(s, key) < s.len(),
        spec_entity_key(s[spec_entity_index(s, key)]) == key,
        forall|m: int|
            0 <= m < spec_entity_index(s, key) ==> spec_entity_key(s[m]) != key,
    decreases s.len(),
{
    if spec_entity_key(s[0]) != key {
        assert(spec_has_entity(s.drop_first(), key)) by {
            let i = choose|i: int| 0 <= i < s.len() && spec_entity_key(s[i]) == key;
            assert(s.drop_first()[i - 1] == s[i]);
        }
        lemma_entity_index(s.drop_first(), key);
        let idx = spec_entity_index(s, key);
        assert(s[idx] == s.drop_first()[idx - 1]);
        assert forall|m: int| 0 <= m < idx implies spec_entity_key(s[m]) != key by {
            if m >= 1 {
                assert(s.drop_first()[m - 1] == s[m]);
            }
        }
    }
}

/// Appending an entity adds exactly its key to the store.
proof fn lemma_has_entity_push(s: Seq<Entity>, e: Entity, key: Seq<char>)
    ensures
        spec_has_entity(s.push(e), key) == (spec_has_entity(s, key) || spec_entity_key(e)
            == key),
{
    if spec_has_entity(s, key) {
        let i = choose|i: int| 0 <= i < s.len() && spec_entity_key(s[i]) == key;
        assert(s.push(e)[i] == s[i]);
    }
    if spec_entity_key(e) == key {
        assert(s.push(e)[s.len() as int] == e);
    }
    if spec_has_entity(s.push(e), key) && spec_entity_key(e) != key {
        let i = choose|i: int|
            0 <= i < s.push(e).len() && spec_entity_key(s.push(e)[i]) == key;
        assert(s.push(e)[i] == s[i]);
    }
}

/// How `add_relationship` grows the entity store: each endpoint key that
/// is not yet present gains one blank entity, left before right.
pub open spec fn spec_entities_after(
    s_old: Seq<Entity>,
    s_new: Seq<Entity>,
    left_key: Seq<char>,
    right_key: Seq<char>,
) -> bool {
    if spec_has_entity(s_old, left_key) && spec_has_entity(s_old, right_key) {
        s_new == s_old
    } else if !spec_has_entity(s_old, left_key) && (spec_has_entity(s_old, right_key)
        || right_key == left_key) {
        &&& s_new.len() == s_old.len() + 1
        &&& s_new.take(s_old.len() as int) == s_old
        &&& spec_blank_entity(s_new.last(), left_key)
    } else if spec_has_entity(s_old, left_key) {
        &&& s_new.len() == s_old.len() + 1
        &&& s_new.take(s_old.len() as int) == s_old
        &&& spec_blank_entity(s_new.last(), right_key)
    } else {
        &&& s_new.len() == s_old.len() + 2
        &&& s_new.take(s_old.len() as int) == s_old
        &&& spec_blank_entity(s_new[s_old.len() as int], left_key)
        &&& spec_blank_entity(s_new.last(), right_key)
    }
}

impl ERD {
    /// Create an empty diagram: no title, no entities, no relationships.
    pub fn new() -> (d: Self)
        ensures
            d.title is None,
            d.entities@ == Seq::<Entity>::empty(),
            d.relationships@ == Seq::<Relationship>::empty(),
    {
        ERD { title: None, entities: Vec::new(), relationships: Vec::new() }
    }
}

impl Default for ERD {
    /// The default diagram is the empty one.
    fn default() -> (d: Self)
        ensures
            d.title is None,
            d.entities@ == Seq::<Entity>::empty(),
            d.relationships@ == Seq::<Relationship>::empty(),
    {
        ERD::new()
    }
}

impl ERD {
    /// Insert an entity, keyed by the uppercase form of its id.  An entity
    /// already stored under that key is replaced in place, so the last
    /// write for a given key wins and insertion order is kept.
    pub fn add_entity(&mut self, entity: Entity)
        ensures
            final(self).title == old(self).title,
            final(self).relationships == old(self).relationships,
            final(self).entities@ == if spec_has_entity(
                old(self).entities@,
                spec_entity_key(entity),
            ) {
                old(self).entities@.update(
                    spec_entity_index(old(self).entities@, spec_entity_key(entity)),
                    entity,
                )
            } else {
                old(self).entities@.push(entity)
            },
            spec_unique_keys(old(self).entities@) ==> spec_unique_keys(final(self).entities@),
    {
        let ghost key = spec_entity_key(entity);
        let key_string = to_upper(entity.id.as_str());
        let n = self.entities.len();
        let mut i: usize = 0;
        while i < n
            invariant
                i <= n,
                n == self.entities.len(),
                *self == *old(self),
                key_string@ == key,
                key == spec_entity_key(entity),
                forall|m: int| 0 <= m < i ==> spec_entity_key(self.entities@[m]) != key,
            decreases n - i,
        {
            let candidate = to_upper(self.entities[i].id.as_str());
            if candidate == key_string {
                proof {
                    assert(spec_has_entity(self.entities@, key));
                    lemma_entity_index(self.entities@, key);
                }
                self.entities[i] = entity;
                proof {
                    let s_old = old(self).entities@;
                    let s_new = self.entities@;
                    if spec_unique_keys(s_old) {
                        assert forall|p: int, q: int|
                            0 <= p < q < s_new.len() implies spec_entity_key(s_new[p])
                            != spec_entity_key(s_new[q]) by {
                            assert(spec_entity_key(s_new[i as int]) == spec_entity_key(
                                s_old[i as int],
                            ));
                        }
                    }
                }
                return ;
            }
            i = i + 1;
        }
        proof {
            assert(!spec_has_entity(self.entities@, key));
        }
        self.entities.push(entity);
        proof {
            let s_old = old(self).entities@;
            let s_new = self.entities@;
            if spec_unique_keys(s_old) {
                assert forall|p: int, q: int|
                    0 <= p < q < s_new.len() implies spec_entity_key(s_new[p])
                    != spec_entity_key(s_new[q]) by {
                    if q < s_old.len() {
                        assert(s_new[p] == s_old[p] && s_new[q] == s_old[q]);
                    } else {
                        assert(s_new[q] == entity && s_new[p] == s_old[p]);
                    }
                }
            }
        }
    }

    /// Add an entity to the diagram on creation by chaining with
    /// [`ERD::new`].
    pub fn with_entity(self, entity: Entity) -> (d: Self)
        ensures
            d.title == self.title,
            d.relationships == self.relationships,
            d.entities@ == if spec_has_entity(self.entities@, spec_entity_key(entity)) {
                self.entities@.update(
                    spec_entity_index(self.entities@, spec_entity_key(entity)),
                    entity,
                )
            } else {
                self.entities@.push(entity)
            },
    {
        let mut updated = self;
        updated.add_entity(entity);
        updated
    }

    /// Try to find an entity in the diagram using its id.
    #[must_use]
    pub fn get_entity_by_id(&self, id: &EntityId) -> (r: Option<&Entity>)
        ensures
            match r {
                Some(e) => spec_has_entity(self.entities@, id@) && *e == self.entities@[
                    spec_entity_index(self.entities@, id@)
                ],
                None => !spec_has_entity(self.entities@, id@),
            },
    {
        let n = self.entities.len();
        let mut i: usize = 0;
        while i < n
            invariant
                i <= n,
                n == self.entities.len(),
                forall|m: int| 0 <= m < i ==> spec_entity_key(self.entities@[m]) != id@,
            decreases n - i,
        {
            let candidate = to_upper(self.entities[i].id.as_str());
            if candidate == id.0 {
                proof {
                    assert(spec_has_entity(self.entities@, id@));
                    lemma_entity_index(self.entities@, id@);
                }
                return Some(&self.entities[i]);
            }
            i = i + 1;
        }
        None
    }

    /// If no entity of the diagram carries the id, insert a blank one.
    pub fn create_entity_if_missing(&mut self, id: &EntityId)
        ensures
            final(self).title == old(self).title,
            final(self).relationships == old(self).relationships,
            if spec_has_entity(old(self).entities@, id@) {
                final(self).entities@ == old(self).entities@
            } else {
                &&& final(self).entities@.len() == old(self).entities@.len() + 1
                &&& final(self).entities@.take(old(self).entities@.len() as int)
                    == old(self).entities@
                &&& spec_blank_entity(final(self).entities@.last(), id@)
            },
            spec_unique_keys(old(self).entities@) ==> spec_unique_keys(final(self).entities@),
    {
        proof {
            use_type_invariant(id);
        }
        if self.get_entity_by_id(id).is_none() {
            self.add_entity(Entity::new(id.as_str()));
            proof {
                let s_old = old(self).entities@;
                assert(self.entities@.take(s_old.len() as int) =~= s_old);
            }
        }
    }

    /// Add a relationship to the diagram.
    ///
    /// Any endpoint id that no stored entity carries is first created as a
    /// blank entity, so relationships never dangle.
    pub fn add_relationship(&mut self, relationship: Relationship)
        ensures
            final(self).title == old(self).title,
            final(self).relationships@ == old(self).relationships@.push(relationship),
            spec_entities_after(
                old(self).entities@,
                final(self).entities@,
                relationship.left_id@,
                relationship.right_id@,
            ),
            (spec_has_entity(old(self).entities@, relationship.left_id@) && spec_has_entity(
                old(self).entities@,
                relationship.right_id@,
            )) ==> final(self).entities@ == old(self).entities@,
            (!spec_has_entity(old(self).entities@, relationship.left_id@)
                && !spec_has_entity(old(self).entities@, relationship.right_id@)
                && relationship.left_id@ != relationship.right_id@)
                ==> final(self).entities@.len() == old(self).entities@.len() + 2,
            spec_unique_keys(old(self).entities@) ==> spec_unique_keys(final(self).entities@),
    {
        proof {
            use_type_invariant(&relationship.left_id);
            use_type_invariant(&relationship.right_id);
        }
        let ghost s_old = self.entities@;
        self.create_entity_if_missing(&relationship.left_id);
        let ghost s_mid = self.entities@;
        proof {
            if !spec_has_entity(s_old, relationship.left_id@) {
                assert(s_mid =~= s_old.push(s_mid.last()));
                lemma_has_entity_push(s_old, s_mid.last(), relationship.right_id@);
            }
        }
        self.create_entity_if_missing(&relationship.right_id);
        proof {
            let lk = relationship.left_id@;
            let rk = relationship.right_id@;
            let s_new = self.entities@;
            if !spec_has_entity(s_old, lk) && !spec_has_entity(s_mid, rk) {
                assert(s_new.take(s_old.len() as int) =~= s_old);
                assert(s_new[s_old.len() as int] == s_mid.last());
            }
        }
        self.relationships.push(relationship);
    }

    /// Add a relationship to the diagram on creation by chaining with
    /// [`ERD::new`].
    pub fn with_relationship(self, relationship: Relationship) -> (d: Self)
        ensures
            d.title == self.title,
            d.relationships@ == self.relationships@.push(relationship),
            spec_entities_after(
                self.entities@,
                d.entities@,
                relationship.left_id@,
                relationship.right_id@,
            ),
    {
        let mut updated = self;
        updated.add_relationship(relationship);
        updated
    }
}

/// A whole diagram's notation text: the fixed header token, then a
/// banner-delimited "Entities" section when any entity is stored, then a
/// banner-delimited "Relationships" section when any relationship is
/// stored.  The empty diagram renders as the bare header token.
pub open spec fn spec_render_erd(d: ERD) -> Seq<char> {
    let base = "erDiagram"@;
    let with_entities = if d.entities@.len() > 0 {
        spec_append_items(
            base,
            d.entities@.map_values(|e: Entity| spec_render_entity(e)),
            "Entities"@,
            4,
        )
    } else {
        base
    };
    if d.relationships@.len() > 0 {
        spec_append_items(
            with_entities,
            d.relationships@.map_values(|r: Relationship| spec_relationship_line(r)),
            "Relationships"@,
            4,
        )
    } else {
        with_entities
    }
}

impl ERD {
    /// The diagram's notation text.
    pub fn render(&self) -> (r: String)
        ensures
            r@ == spec_render_erd(*self),
    {
        let mut out = String::from_str("erDiagram");
        if self.entities.len() > 0 {
            let ghost targets = self.entities@.map_values(
                |e: Entity| spec_render_entity(e),
            );
            let mut rendered: Vec<String> = Vec::new();
            let mut i: usize = 0;
            while i < self.entities.len()
                invariant
                    i <= self.entities.len(),
                    targets == self.entities@.map_values(
                        |e: Entity| spec_render_entity(e),
                    ),
                    texts_of(rendered@) == targets.take(i as int),
                decreases self.entities.len() - i,
            {
                let entity = &self.entities[i];
                let line = entity.render();
                let ghost before = rendered@;
                rendered.push(line);
                proof {
                    assert(rendered@ == before.push(line));
                    assert(texts_of(before).len() == before.len());
                    assert(targets.take(i as int).len() == i as int);
                    assert(before.len() == i as int);
                    assert forall|j: int| 0 <= j < rendered@.len() implies texts_of(rendered@)[j]
                        == targets.take(i as int + 1)[j] by {
                        assert(texts_of(rendered@)[j] == rendered@[j]@);
                        if j < i as int {
                            assert(before.push(line)[j] == before[j]);
                            assert(texts_of(before)[j] == targets.take(i as int)[j]);
                            assert(texts_of(before)[j] == before[j]@);
                        } else {
                            assert(before.push(line)[j] == line);
                        }
                    }
                    assert(texts_of(rendered@) =~= targets.take(i as int + 1));
                }
                i = i + 1;
            }
            proof {
                assert(targets.take(self.entities@.len() as int) =~= targets);
            }
            out = crate::erd::utils::append_items(out, &rendered, "Entities", 4);
        }
        if self.relationships.len() > 0 {
            let ghost targets = self.relationships@.map_values(
                |r: Relationship| spec_relationship_line(r),
            );
            let mut rendered: Vec<String> = Vec::new();
            let mut i: usize = 0;
            while i < self.relationships.len()
                invariant
                    i <= self.relationships.len(),
                    targets == self.relationships@.map_values(
                        |r: Relationship| spec_relationship_line(r),
                    ),
                    texts_of(rendered@) == targets.take(i as int),
                decreases self.relationships.len() - i,
            {
                let relationship = &self.relationships[i];
                let line = relationship.render_line();
                let ghost before = rendered@;
                rendered.push(line);
                proof {
                    assert(rendered@ == before.push(line));
                    assert(texts_of(before).len() == before.len());
                    assert(targets.take(i as int).len() == i as int);
                    assert(before.len() == i as int);
                    assert forall|j: int| 0 <= j < rendered@.len() implies texts_of(rendered@)[j]
                        == targets.take(i as int + 1)[j] by {
                        assert(texts_of(rendered@)[j] == rendered@[j]@);
                        if j < i as int {
                            assert(before.push(line)[j] == before[j]);
                            assert(texts_of(before)[j] == targets.take(i as int)[j]);
                            assert(texts_of(before)[j] == before[j]@);
                        } else {
                            assert(before.push(line)[j] == line);
                        }
                    }
                    assert(texts_of(rendered@) =~= targets.take(i as int + 1));
                }
                i = i + 1;
            }
            proof {
                assert(targets.take(self.relationships@.len() as int) =~= targets);
            }
            out = crate::erd::utils::append_items(out, &rendered, "Relationships", 4);
        }
        out
    }
}

} // verus!
