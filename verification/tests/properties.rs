use mormaid::erd::utils::append_items;
use mormaid::erd::utils::spaces;
use mormaid::erd::utils::Indent;
use mormaid::erd::Attribute;
use mormaid::erd::Cardinality;
use mormaid::erd::Entity;
use mormaid::erd::EntityId;
use mormaid::erd::Relationship;
use mormaid::erd::ERD;
use mormaid::req;
use mormaid::req::RelationshipType;
use mormaid::req::RequirementDiagram;

// =========================
// Indentation helpers
// =========================
#[test]
fn indent_prefixes_every_line() {
    assert_eq!("foo\nbar".indent(2), "  foo\n  bar");
    assert_eq!("a\nb\nc".indent(4), "    a\n    b\n    c");
    assert_eq!("one line".indent(3), "   one line");
}

#[test]
fn indent_by_zero_keeps_the_text() {
    assert_eq!("foo\nbar".indent(0), "foo\nbar");
}

#[test]
fn indent_keeps_line_count_and_content() {
    let text = "alpha\nbeta\ngamma";
    let indented = text.indent(5);
    let plain: Vec<&str> = text.split('\n').collect();
    let shifted: Vec<&str> = indented.split('\n').collect();
    assert_eq!(plain.len(), shifted.len());
    for (before, after) in plain.iter().zip(shifted.iter()) {
        assert_eq!(*after, format!("     {before}"));
    }
}

#[test]
fn spaces_builds_a_run_of_spaces() {
    assert_eq!(spaces(0), "");
    assert_eq!(spaces(4), "    ");
}

#[test]
fn append_items_wraps_a_titled_section() {
    let out = append_items(
        String::from("header"),
        &vec![String::from("a"), String::from("b\nc")],
        "Items",
        2,
    );
    assert_eq!(
        out,
        "header\n  %% Items start\n  a\n  b\n  c\n  %% Items end"
    );
}

// =========================
// Entity rendering
// =========================
#[test]
fn entity_render_contains_attribute_lines_in_order() {
    let entity = Entity::new("ALBUM")
        .add_attribute(Attribute::new("int", "albumId").as_primary_key())
        .add_attribute(Attribute::new("str", "title"));
    let got = entity.render();
    assert_eq!(got, "ALBUM {\n    int albumId PK\n    str title\n}");
    let first = got.find("int albumId PK").expect("first attribute shown");
    let second = got.find("str title").expect("second attribute shown");
    assert!(first < second);
}

#[test]
fn attribute_pairwise_constraints_render_in_fixed_order() {
    let primary_foreign = Attribute::new("int", "x").as_primary_key().as_foreign_key();
    assert_eq!(primary_foreign.render(), "int x PK, FK");
    let primary_unique = Attribute::new("int", "x").as_primary_key().as_unique();
    assert_eq!(primary_unique.render(), "int x PK, UK");
    let foreign_unique = Attribute::new("int", "x").as_foreign_key().as_unique();
    assert_eq!(foreign_unique.render(), "int x FK, UK");
    assert!(!Attribute::new("int", "x").has_constraints());
    assert!(primary_foreign.has_constraints());
}

// =========================
// Identifier normalization
// =========================
#[test]
fn entity_ids_are_case_normalized() {
    assert_eq!(EntityId::from("album"), EntityId::from("ALBUM"));
    assert_eq!(EntityId::from("album").as_str(), "ALBUM");
    assert_eq!(EntityId::new(String::from("Mixed_Case9")).as_str(), "MIXED_CASE9");
}

#[test]
fn entity_lookup_goes_by_normalized_id() {
    let erd = ERD::new().with_entity(Entity::new("album"));
    assert!(erd.get_entity_by_id(&EntityId::from("ALBUM")).is_some());
    assert!(erd.get_entity_by_id(&EntityId::from("SONG")).is_none());
}

// =========================
// ERD container semantics
// =========================
#[test]
fn add_entity_with_same_id_replaces_in_place() {
    let mut erd = ERD::new();
    erd.add_entity(Entity::new("ALBUM"));
    erd.add_entity(Entity::new("SONG"));
    erd.add_entity(Entity::new("ALBUM").with_alias("replacement"));
    assert_eq!(erd.entities.len(), 2);
    assert_eq!(erd.entities[0].alias, Some("replacement".to_string()));
    assert_eq!(erd.entities[1].id, "SONG");
}

#[test]
fn add_relationship_between_equal_ids_creates_one_entity() {
    let mut erd = ERD::new();
    erd.add_relationship(Relationship::new(
        "NODE",
        "node",
        Cardinality::ExactlyOne,
        Cardinality::ExactlyOne,
    ));
    assert_eq!(erd.entities.len(), 1);
    assert_eq!(erd.relationships.len(), 1);
}

#[test]
fn cardinality_symbols_follow_the_table() {
    assert_eq!(Cardinality::ZeroOrOne.render(), "o|");
    assert_eq!(Cardinality::ExactlyOne.render(), "||");
    assert_eq!(Cardinality::ZeroOrMore.render(), "o{");
    assert_eq!(Cardinality::OneOrMore.render(), "|{");
}

#[test]
fn diagram_lines_always_carry_the_label_slot() {
    let plain = Relationship::new(
        "A",
        "B",
        Cardinality::ZeroOrOne,
        Cardinality::OneOrMore,
    );
    assert_eq!(plain.render(), "A |o--|{ B");
    assert_eq!(plain.render_line(), "A |o--|{ B : \"\"");
    let labeled = Relationship::new(
        "A",
        "B",
        Cardinality::ZeroOrOne,
        Cardinality::OneOrMore,
    )
    .with_label("owns");
    assert_eq!(labeled.render(), "A |o--|{ B : \"owns\"");
    assert_eq!(labeled.render_line(), "A |o--|{ B : \"owns\"");
}

// =========================
// Requirement diagram semantics
// =========================
#[test]
fn found_in_diagram_checks_elements_and_requirements() {
    let diagram = RequirementDiagram::new()
        .with_element(req::Element::new("doc", "brief"))
        .with_requirement(req::Requirement::new(
            req::RequirementType::Default,
            "goal",
            "1",
        ));
    assert!(diagram.found_in_diagram("doc"));
    assert!(diagram.found_in_diagram("goal"));
    assert!(!diagram.found_in_diagram("missing"));
    assert!(diagram.get_element_by_name("goal").is_none());
    assert!(diagram.get_requirement_by_name("doc").is_none());
}

#[test]
fn add_requirement_with_same_name_replaces_in_place() {
    let mut diagram = RequirementDiagram::new();
    diagram.add_requirement(req::Requirement::new(
        req::RequirementType::Default,
        "goal",
        "1",
    ));
    diagram.add_requirement(req::Requirement::new(
        req::RequirementType::Functional,
        "goal",
        "2",
    ));
    assert_eq!(diagram.requirements.len(), 1);
    assert_eq!(diagram.requirements[0].id, "2");
    assert_eq!(diagram.requirements[0].kind, req::RequirementType::Functional);
}

#[test]
fn relationship_kinds_render_as_lower_case_words() {
    assert_eq!(RelationshipType::Contains.render(), "contains");
    assert_eq!(RelationshipType::Copies.render(), "copies");
    assert_eq!(RelationshipType::Derives.render(), "derives");
    assert_eq!(RelationshipType::Satisfies.render(), "satisfies");
    assert_eq!(RelationshipType::Verifies.render(), "verifies");
    assert_eq!(RelationshipType::Refines.render(), "refines");
    assert_eq!(RelationshipType::Traces.render(), "traces");
}

#[test]
fn requirement_kind_keywords_are_fixed() {
    assert_eq!(req::RequirementType::Default.render(), "requirement");
    assert_eq!(req::RequirementType::Functional.render(), "functionalRequirement");
    assert_eq!(req::RequirementType::Interface.render(), "interfaceRequirement");
    assert_eq!(req::RequirementType::Performance.render(), "performanceRequirement");
    assert_eq!(req::RequirementType::Physical.render(), "physicalRequirement");
    assert_eq!(req::RequirementType::DesignConstraint.render(), "designConstraint");
    assert_eq!(req::Risk::Low.render(), "Low");
    assert_eq!(req::Risk::Medium.render(), "Medium");
    assert_eq!(req::Risk::High.render(), "High");
    assert_eq!(req::VerifyMethod::Analysis.render(), "Analysis");
    assert_eq!(req::VerifyMethod::Inspection.render(), "Inspection");
    assert_eq!(req::VerifyMethod::Test.render(), "Test");
    assert_eq!(req::VerifyMethod::Demo.render(), "Demonstration");
}
