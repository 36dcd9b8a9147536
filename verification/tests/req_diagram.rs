use mormaid::req::Element;
use mormaid::req::Relationship;
use mormaid::req::RelationshipType;
use mormaid::req::Requirement;
use mormaid::req::RequirementDiagram;
use mormaid::req::RequirementType;
use mormaid::req::Risk;

const ELEMENT_NAME: &str = "foo";
const ELEMENT_KIND: &str = "brief";
const REQ_ID: &str = "1.1.1";
const REQ_NAME: &str = "milestone";
const REQ_KIND: RequirementType = RequirementType::Default;

#[test]
fn create_empty_diagram() {
    // act
    let got = RequirementDiagram::new();
    // assert
    assert!(got.requirements.is_empty());
    assert!(got.elements.is_empty());
    assert!(got.relationships.is_empty());
}

#[test]
fn add_element_to_existing_diagram() {
    // arrange
    let mut diagram = RequirementDiagram::new();
    // act
    diagram.add_element(Element::new(ELEMENT_NAME, ELEMENT_KIND));
    // assert
    let element = diagram
        .get_element_by_name(ELEMENT_NAME)
        .expect("Expected element but got None");
    assert_eq!(element.name, ELEMENT_NAME);
}

#[test]
fn create_diagram_with_element() {
    // act
    let diagram = RequirementDiagram::new().with_element(Element::new(ELEMENT_NAME, ELEMENT_KIND));
    // assert
    let element = diagram
        .get_element_by_name(ELEMENT_NAME)
        .expect("Expected element but got None");
    assert_eq!(element.name, ELEMENT_NAME);
}

#[test]
fn add_requirement_to_existing_diagram() {
    // arrange
    let mut diagram = RequirementDiagram::new();
    // act
    diagram.add_requirement(Requirement::new(REQ_KIND, REQ_NAME, REQ_ID));
    // assert
    let requirement = diagram
        .get_requirement_by_name(REQ_NAME)
        .expect("Expected requirement but got None");
    assert_eq!(requirement.name, REQ_NAME);
}

#[test]
fn create_diagram_with_requirement() {
    // act
    let diagram =
        RequirementDiagram::new().with_requirement(Requirement::new(REQ_KIND, REQ_NAME, REQ_ID));
    // assert
    let requirement = diagram
        .get_requirement_by_name(REQ_NAME)
        .expect("Expected requirement but got None");
    assert_eq!(requirement.name, REQ_NAME);
}

#[test]
fn add_valid_relationship_to_existing_diagram() {
    // arrange
    let mut diagram = RequirementDiagram::new()
        .with_element(Element::new(ELEMENT_NAME, ELEMENT_KIND))
        .with_requirement(Requirement::new(REQ_KIND, REQ_NAME, REQ_ID));
    // act
    println!("{:?}", diagram.elements);
    diagram.add_relationship(Relationship::new(
        ELEMENT_NAME,
        REQ_NAME,
        RelationshipType::Satisfies,
    ));
    // assert
    assert_eq!(diagram.relationships.len(), 1);
}

#[test]
fn mod_display_empty_diagram() {
    // arrange
    let wanted = "requirementDiagram";
    // act
    let got = RequirementDiagram::new().render();
    // assert
    assert_eq!(got, wanted);
}

#[test]
fn display_diagram_with_element_and_requirement() {
    // arrange
    let wanted = "requirementDiagram\n    %% Elements start\n    element foo {\n        type: \"brief\"\n    }\n    %% Elements end\n    %% Requirements start\n    requirement milestone {\n        id: 1.1.1\n        risk: Low\n    }\n    %% Requirements end";
    // act
    let got = RequirementDiagram::new()
        .with_element(Element::new(ELEMENT_NAME, ELEMENT_KIND))
        .with_requirement(Requirement::new(REQ_KIND, REQ_NAME, REQ_ID).with_risk(Risk::Low))
        .render();
    // assert
    assert_eq!(got, wanted, "\n\nGot:\n{got}\n\nWanted:\n{wanted}");
}

#[test]
fn display_diagram_with_all_components() {
    // arrange
    let wanted = "requirementDiagram\n    %% Elements start\n    element foo {\n        type: \"brief\"\n    }\n    %% Elements end\n    %% Requirements start\n    requirement milestone {\n        id: 1.1.1\n        risk: Low\n    }\n    %% Requirements end\n    %% Relationships start\n    foo - copies -> milestone\n    %% Relationships end";
    // act
    let got = RequirementDiagram::new()
        .with_element(Element::new(ELEMENT_NAME, ELEMENT_KIND))
        .with_requirement(Requirement::new(REQ_KIND, REQ_NAME, REQ_ID).with_risk(Risk::Low))
        .with_relationship(Relationship::new(
            ELEMENT_NAME,
            REQ_NAME,
            RelationshipType::Copies,
        ))
        .render();
    // assert
    assert_eq!(got, wanted, "\n\nGot:\n{got}\n\nWanted:\n{wanted}");
}
