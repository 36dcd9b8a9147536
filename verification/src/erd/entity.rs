//! Entities and their attributes, with key-constraint display rules.

use crate::erd::utils::Indent;
use crate::erd::utils::lemma_indent_chars_no_newline;
use crate::erd::utils::lemma_items_block_push;
use crate::erd::utils::lemma_substring_append;
use crate::erd::utils::lemma_substring_prepend;
use crate::erd::utils::spec_indent;
use crate::erd::utils::spec_is_substring_at;
use crate::erd::utils::spec_items_block;
use crate::erd::utils::spec_spaces;
use vstd::prelude::*;

verus! {

// ==================================================================
// KeyConstraints
// ==================================================================
/// The three key roles an attribute can carry.
#[derive(Debug)]
pub struct KeyConstraints {
    pub is_primary: bool,
    pub is_foreign: bool,
    pub is_unique: bool,
}

/// Whether at least one key role is set.
pub open spec fn spec_has_constraints(k: KeyConstraints) -> bool {
    k.is_primary || k.is_foreign || k.is_unique
}

/// The fixed abbreviation text for a combination of key roles, joined in
/// the order PK, FK, UK; the all-unset combination shows nothing.
pub open spec fn spec_render_key(k: KeyConstraints) -> Seq<char> {
    if k.is_primary && k.is_foreign && k.is_unique {
        "PK, FK, UK"@
    } else if k.is_primary && k.is_foreign {
        "PK, FK"@
    } else if k.is_primary && k.is_unique {
        "PK, UK"@
    } else if k.is_foreign && k.is_unique {
        "FK, UK"@
    } else if k.is_primary {
        "PK"@
    } else if k.is_foreign {
        "FK"@
    } else if k.is_unique {
        "UK"@
    } else {
        Seq::empty()
    }
}

/// Each meaningful combination of the three key roles.
#[derive(Debug, PartialEq, Eq, Structural)]
enum ConstraintCombo {
    NoKey,
    PrimaryKey,
    ForeignKey,
    UniqueKey,
    PrimaryForeignKey,
    PrimaryUniqueKey,
    ForeignUniqueKey,
    PrimaryForeignUniqueKey,
}

spec fn spec_combo(is_primary: bool, is_foreign: bool, is_unique: bool) -> ConstraintCombo {
    if is_primary && is_foreign && is_unique {
        ConstraintCombo::PrimaryForeignUniqueKey
    } else if is_primary && is_foreign {
        ConstraintCombo::PrimaryForeignKey
    } else if is_primary && is_unique {
        ConstraintCombo::PrimaryUniqueKey
    } else if is_foreign && is_unique {
        ConstraintCombo::ForeignUniqueKey
    } else if is_primary {
        ConstraintCombo::PrimaryKey
    } else if is_foreign {
        ConstraintCombo::ForeignKey
    } else if is_unique {
        ConstraintCombo::UniqueKey
    } else {
        ConstraintCombo::NoKey
    }
}

impl ConstraintCombo {
    fn from_bools(is_primary: bool, is_foreign: bool, is_unique: bool) -> (r: Self)
        ensures
            r == spec_combo(is_primary, is_foreign, is_unique),
    {
        match (is_primary, is_foreign, is_unique) {
            (false, false, false) => ConstraintCombo::NoKey,
            (true, false, false) => ConstraintCombo::PrimaryKey,
            (false, true, false) => ConstraintCombo::ForeignKey,
            (false, false, true) => ConstraintCombo::UniqueKey,
            (true, true, false) => ConstraintCombo::PrimaryForeignKey,
            (true, false, true) => ConstraintCombo::PrimaryUniqueKey,
            (false, true, true) => ConstraintCombo::ForeignUniqueKey,
            (true, true, true) => ConstraintCombo::PrimaryForeignUniqueKey,
        }
    }
}

impl KeyConstraints {
    fn default() -> (r: Self)
        ensures
            !r.is_primary,
            !r.is_foreign,
            !r.is_unique,
    {
        KeyConstraints { is_primary: false, is_foreign: false, is_unique: false }
    }

    fn to_combo(&self) -> (r: ConstraintCombo)
        ensures
            r == spec_combo(self.is_primary, self.is_foreign, self.is_unique),
    {
        ConstraintCombo::from_bools(self.is_primary, self.is_foreign, self.is_unique)
    }

    /// The abbreviation text for this combination of key roles.
    pub fn render(&self) -> (r: String)
        ensures
            r@ == spec_render_key(*self),
    {
        match self.to_combo() {
            ConstraintCombo::NoKey => String::new(),
            ConstraintCombo::PrimaryKey => String::from_str("PK"),
            ConstraintCombo::ForeignKey => String::from_str("FK"),
            ConstraintCombo::UniqueKey => String::from_str("UK"),
            ConstraintCombo::PrimaryForeignKey => String::from_str("PK, FK"),
            ConstraintCombo::PrimaryUniqueKey => String::from_str("PK, UK"),
            ConstraintCombo::ForeignUniqueKey => String::from_str("FK, UK"),
            ConstraintCombo::PrimaryForeignUniqueKey => String::from_str("PK, FK, UK"),
        }
    }
}

// ==================================================================
// Attribute
// ==================================================================
/// One attribute of an entity: a type, a name, optional key roles and an
/// optional comment.
#[derive(Debug)]
pub struct Attribute {
    pub attr_type: String,
    pub name: String,
    pub key: KeyConstraints,
    pub comment: Option<String>,
}

/// The display form of an optional trailing comment: a quoted suffix, or
/// nothing.
pub open spec fn spec_comment_part(o: Option<String>) -> Seq<char> {
    match o {
        Some(c) => " \""@ + c@ + "\""@,
        None => Seq::empty(),
    }
}

/// One attribute line: `type name`, a key-constraint suffix when any key
/// role is set, and a quoted comment when one is present.
pub open spec fn spec_render_attribute(a: Attribute) -> Seq<char> {
    a.attr_type@ + " "@ + a.name@ + (if spec_has_constraints(a.key) {
        " "@ + spec_render_key(a.key)
    } else {
        Seq::empty()
    }) + spec_comment_part(a.comment)
}

impl Attribute {
    /// Create an attribute with its required type and name; no key roles
    /// and no comment are set.
    pub fn new(attr_type: &str, name: &str) -> (r: Self)
        ensures
            r.attr_type@ == attr_type@,
            r.name@ == name@,
            !r.key.is_primary,
            !r.key.is_foreign,
            !r.key.is_unique,
            r.comment is None,
    {
        Attribute {
            attr_type: String::from_str(attr_type),
            name: String::from_str(name),
            key: KeyConstraints::default(),
            comment: None,
        }
    }

    /// Chain with [`Attribute::new`] to set the trailing comment.
    pub fn with_comment(self, comment: &str) -> (r: Self)
        ensures
            r.attr_type == self.attr_type,
            r.name == self.name,
            r.key == self.key,
            r.comment matches Some(c) && c@ == comment@,
    {
        Attribute {
            attr_type: self.attr_type,
            name: self.name,
            key: self.key,
            comment: Some(String::from_str(comment)),
        }
    }

    /// Mark the attribute as a primary key.
    pub fn as_primary_key(self) -> (r: Self)
        ensures
            r.attr_type == self.attr_type,
            r.name == self.name,
            r.comment == self.comment,
            r.key.is_primary,
            r.key.is_foreign == self.key.is_foreign,
            r.key.is_unique == self.key.is_unique,
    {
        Attribute {
            attr_type: self.attr_type,
            name: self.name,
            key: KeyConstraints {
                is_primary: true,
                is_foreign: self.key.is_foreign,
                is_unique: self.key.is_unique,
            },
            comment: self.comment,
        }
    }

    /// Mark the attribute as a foreign key.
    pub fn as_foreign_key(self) -> (r: Self)
        ensures
            r.attr_type == self.attr_type,
            r.name == self.name,
            r.comment == self.comment,
            r.key.is_primary == self.key.is_primary,
            r.key.is_foreign,
            r.key.is_unique == self.key.is_unique,
    {
        Attribute {
            attr_type: self.attr_type,
            name: self.name,
            key: KeyConstraints {
                is_primary: self.key.is_primary,
                is_foreign: true,
                is_unique: self.key.is_unique,
            },
            comment: self.comment,
        }
    }

    /// Mark the attribute as unique.
    pub fn as_unique(self) -> (r: Self)
        ensures
            r.attr_type == self.attr_type,
            r.name == self.name,
            r.comment == self.comment,
            r.key.is_primary == self.key.is_primary,
            r.key.is_foreign == self.key.is_foreign,
            r.key.is_unique,
    {
        Attribute {
            attr_type: self.attr_type,
            name: self.name,
            key: KeyConstraints {
                is_primary: self.key.is_primary,
                is_foreign: self.key.is_foreign,
                is_unique: true,
            },
            comment: self.comment,
        }
    }

    /// Whether any key role is set on this attribute.
    pub fn has_constraints(&self) -> (r: bool)
        ensures
            r == spec_has_constraints(self.key),
    {
        self.key.is_primary || self.key.is_foreign || self.key.is_unique
    }

    /// The attribute's line of notation text.
    pub fn render(&self) -> (r: String)
        ensures
            r@ == spec_render_attribute(*self),
    {
        let mut out = String::from_str(self.attr_type.as_str());
        out.append(" ");
        out.append(self.name.as_str());
        if self.has_constraints() {
            out.append(" ");
            let key = self.key.render();
            out.append(key.as_str());
        }
        if let Some(comment) = &self.comment {
            out.append(" \"");
            out.append(comment.as_str());
            out.append("\"");
        }
        proof {
            assert(out@ =~= spec_render_attribute(*self));
        }
        out
    }
}

// ==================================================================
// Entity
// ==================================================================
/// An entity of the diagram: an id, an optional display alias, and an
/// ordered list of attributes.
#[derive(Debug)]
pub struct Entity {
    /// The id for the entity in the diagram.
    ///
    /// The id is used to specify relationships between entities.  When the
    /// entity is inserted into a diagram it is keyed by the uppercased form
    /// of this id.  If no alias is given, the id is also the name shown in
    /// the rendered diagram.
    pub id: String,
    /// The name displayed in the rendered diagram.
    ///
    /// Unlike the id, the alias can be multiple words separated by spaces.
    pub alias: Option<String>,
    /// The entity's attributes, rendered in insertion order.
    pub attributes: Vec<Attribute>,
}

/// The display form of an optional alias: a bracketed, quoted suffix, or
/// nothing.
pub open spec fn spec_alias_part(o: Option<String>) -> Seq<char> {
    match o {
        Some(a) => "[\""@ + a@ + "\"]"@,
        None => Seq::empty(),
    }
}

/// The rendered lines of an entity's attributes, each on a fresh line and
/// indented by four spaces.
pub open spec fn spec_attr_lines(attrs: Seq<Attribute>) -> Seq<char> {
    spec_items_block(attrs.map_values(|a: Attribute| spec_render_attribute(a)), 4)
}

/// An entity's notation text: the id, the quoted alias when one is set,
/// and a braced block of attribute lines when any attribute is present.
pub open spec fn spec_render_entity(e: Entity) -> Seq<char> {
    e.id@ + spec_alias_part(e.alias) + (if e.attributes@.len() == 0 {
        Seq::empty()
    } else {
        " {"@ + spec_attr_lines(e.attributes@) + "\n}"@
    })
}

impl Entity {
    /// Create an entity with the given id, no alias and no attributes.
    pub fn new(id: &str) -> (r: Self)
        ensures
            r.id@ == id@,
            r.alias is None,
            r.attributes@ == Seq::<Attribute>::empty(),
    {
        Entity { id: String::from_str(id), alias: None, attributes: Vec::new() }
    }

    /// Chain with [`Entity::new`] to set a display alias.
    pub fn with_alias(self, alias: &str) -> (r: Self)
        ensures
            r.id == self.id,
            r.alias matches Some(a) && a@ == alias@,
            r.attributes == self.attributes,
    {
        Entity {
            id: self.id,
            alias: Some(String::from_str(alias)),
            attributes: self.attributes,
        }
    }

    /// Append an attribute to the entity.
    pub fn add_attribute(self, attribute: Attribute) -> (r: Self)
        ensures
            r.id == self.id,
            r.alias == self.alias,
            r.attributes@ == self.attributes@.push(attribute),
    {
        let mut updated = self;
        updated.attributes.push(attribute);
        updated
    }

    /// The entity's notation text.
    pub fn render(&self) -> (r: String)
        ensures
            r@ == spec_render_entity(*self),
    {
        proof {
            reveal_strlit("\n");
        }
        let mut out = String::from_str(self.id.as_str());
        if let Some(alias) = &self.alias {
            out.append("[\"");
            out.append(alias.as_str());
            out.append("\"]");
        }
        let ghost head = self.id@ + spec_alias_part(self.alias);
        assert(out@ =~= head);
        if self.attributes.len() > 0 {
            out.append(" {");
            let ghost lines = self.attributes@.map_values(
                |a: Attribute| spec_render_attribute(a),
            );
            let mut i: usize = 0;
            while i < self.attributes.len()
                invariant
                    i <= self.attributes.len(),
                    lines == self.attributes@.map_values(
                        |a: Attribute| spec_render_attribute(a),
                    ),
                    out@ == head + " {"@ + spec_items_block(lines.take(i as int), 4),
                    "\n"@ == seq!['\n'],
                decreases self.attributes.len() - i,
            {
                out.append("\n");
                let attr = &self.attributes[i];
                let line = attr.render();
                let indented = line.as_str().indent(4);
                out.append(indented.as_str());
                proof {
                    lemma_items_block_push(lines, 4, i as int);
                }
                i = i + 1;
            }
            proof {
                assert(lines.take(self.attributes@.len() as int) =~= lines);
            }
            out.append("\n}");
            proof {
                assert(out@ =~= spec_render_entity(*self));
            }
        } else {
            proof {
                assert(out@ =~= spec_render_entity(*self));
            }
        }
        out
    }
}

} // verus!

verus! {

/// Where the `i`-th attribute's rendering starts within the block of
/// attribute lines: each line opens with a newline and four spaces.
pub open spec fn spec_attr_block_pos(attrs: Seq<Attribute>, i: int) -> int
    decreases i,
{
    if i <= 0 {
        5
    } else {
        5 + spec_render_attribute(attrs[0]).len() + spec_attr_block_pos(attrs.drop_first(), i - 1)
    }
}

/// Where the `i`-th attribute's rendering starts within its entity's
/// rendering.
pub open spec fn spec_attr_pos(e: Entity, i: int) -> int {
    e.id@.len() + spec_alias_part(e.alias).len() + 2 + spec_attr_block_pos(e.attributes@, i)
}

proof fn lemma_attr_block_pos_lb(attrs: Seq<Attribute>, i: int)
    ensures
        spec_attr_block_pos(attrs, i) >= 5,
    decreases i,
{
    if i > 0 {
        lemma_attr_block_pos_lb(attrs.drop_first(), i - 1);
    }
}

proof fn lemma_attr_block_pos_mono(attrs: Seq<Attribute>, i: int, j: int)
    requires
        0 <= i < j,
    ensures
        spec_attr_block_pos(attrs, i) < spec_attr_block_pos(attrs, j),
    decreases i,
{
    if i == 0 {
        lemma_attr_block_pos_lb(attrs.drop_first(), j - 1);
    } else {
        lemma_attr_block_pos_mono(attrs.drop_first(), i - 1, j - 1);
    }
}

proof fn lemma_attr_block(attrs: Seq<Attribute>, i: int)
    requires
        0 <= i < attrs.len(),
        forall|k: int|
            0 <= k < attrs.len() ==> !spec_render_attribute(#[trigger] attrs[k]).contains('\n'),
    ensures
        spec_is_substring_at(
            spec_attr_lines(attrs),
            spec_render_attribute(attrs[i]),
            spec_attr_block_pos(attrs, i),
        ),
        spec_attr_lines(attrs).subrange(
            spec_attr_block_pos(attrs, i) - 5,
            spec_attr_block_pos(attrs, i),
        ) == seq!['\n'] + spec_spaces(4),
    decreases i,
{
    let targets = attrs.map_values(|a: Attribute| spec_render_attribute(a));
    let first = spec_render_attribute(attrs[0]);
    lemma_indent_chars_no_newline(first, 4);
    assert(spec_indent(targets[0], 4) == spec_spaces(4) + first);
    let head = seq!['\n'] + (spec_spaces(4) + first);
    let rest_block = spec_items_block(targets.drop_first(), 4);
    assert(spec_attr_lines(attrs) =~= head + rest_block);
    if i == 0 {
        assert(head.subrange(5, 5 + first.len() as int) =~= first);
        assert(spec_is_substring_at(head, first, 5));
        lemma_substring_append(head, rest_block, first, 5);
        assert((head + rest_block).subrange(0, 5) =~= seq!['\n'] + spec_spaces(4));
    } else {
        let rest = attrs.drop_first();
        assert(targets.drop_first() =~= rest.map_values(|a: Attribute| spec_render_attribute(a)));
        assert(forall|k: int|
            0 <= k < rest.len() ==> !spec_render_attribute(#[trigger] rest[k]).contains('\n'))
            by {
            assert(forall|k: int| 0 <= k < rest.len() ==> rest[k] == attrs[k + 1]);
        }
        lemma_attr_block(rest, i - 1);
        let p = spec_attr_block_pos(rest, i - 1);
        let x = spec_render_attribute(rest[i - 1]);
        assert(x == spec_render_attribute(attrs[i]));
        lemma_substring_prepend(head, rest_block, x, p);
        assert(head.len() == 5 + first.len());
        assert(spec_attr_block_pos(attrs, i) == head.len() + p);
        lemma_attr_block_pos_lb(rest, i - 1);
        assert((head + rest_block).subrange(head.len() + p - 5, head.len() + p) =~= rest_block
            .subrange(p - 5, p));
    }
}

/// Each attribute's rendering stands inside its entity's rendering, one
/// per line of the braced block, indented by four spaces, in insertion
/// order at strictly increasing positions.  This holds whenever no
/// attribute's own rendering spans several lines.
pub proof fn lemma_entity_render_contains_attributes(e: Entity)
    requires
        e.attributes@.len() > 0,
        forall|k: int|
            0 <= k < e.attributes@.len() ==> !spec_render_attribute(
                #[trigger] e.attributes@[k],
            ).contains('\n'),
    ensures
        forall|i: int|
            0 <= i < e.attributes@.len() ==> spec_is_substring_at(
                spec_render_entity(e),
                spec_render_attribute(#[trigger] e.attributes@[i]),
                spec_attr_pos(e, i),
            ),
        forall|i: int|
            0 <= i < e.attributes@.len() ==> #[trigger] spec_render_entity(e).subrange(
                spec_attr_pos(e, i) - 5,
                spec_attr_pos(e, i),
            ) == seq!['\n'] + spec_spaces(4),
        forall|i: int, j: int|
            0 <= i < j < e.attributes@.len() ==> spec_attr_pos(e, i) < spec_attr_pos(e, j),
{
    reveal_strlit(" {");
    let head = e.id@ + spec_alias_part(e.alias) + " {"@;
    let block = spec_attr_lines(e.attributes@);
    let tail = "\n}"@;
    assert(spec_render_entity(e) =~= (head + block) + tail);
    assert(head.len() == e.id@.len() + spec_alias_part(e.alias).len() + 2);
    assert forall|i: int| 0 <= i < e.attributes@.len() implies spec_is_substring_at(
        spec_render_entity(e),
        spec_render_attribute(#[trigger] e.attributes@[i]),
        spec_attr_pos(e, i),
    ) by {
        lemma_attr_block(e.attributes@, i);
        let x = spec_render_attribute(e.attributes@[i]);
        let p = spec_attr_block_pos(e.attributes@, i);
        lemma_substring_prepend(head, block, x, p);
        lemma_substring_append(head + block, tail, x, head.len() + p);
    }
    assert forall|i: int| 0 <= i < e.attributes@.len() implies #[trigger] spec_render_entity(
        e,
    ).subrange(spec_attr_pos(e, i) - 5, spec_attr_pos(e, i)) == seq!['\n'] + spec_spaces(4) by {
        lemma_attr_block(e.attributes@, i);
        let p = spec_attr_block_pos(e.attributes@, i);
        lemma_attr_block_pos_lb(e.attributes@, i);
        assert(spec_render_entity(e).subrange(head.len() + p - 5, head.len() + p) =~= block
            .subrange(p - 5, p));
    }
    assert forall|i: int, j: int|
        0 <= i < j < e.attributes@.len() implies spec_attr_pos(e, i) < spec_attr_pos(e, j) by {
        lemma_attr_block_pos_mono(e.attributes@, i, j);
    }
}

} // verus!
