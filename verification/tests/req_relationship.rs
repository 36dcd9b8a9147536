use mormaid::req::Relationship;
use mormaid::req::RelationshipType;

const SOURCE: &str = "Foo";
const TARGET: &str = "Bar";
const KIND: RelationshipType = RelationshipType::Contains;

#[test]
fn create_relationship() {
    // act
    let got = Relationship::new(SOURCE, TARGET, KIND);
    // assert
    assert_eq!(got.source, SOURCE.to_string());
    assert_eq!(got.target, TARGET.to_string());
    assert_eq!(got.kind, KIND);
}

#[test]
fn display_relationship() {
    // arrange
    let wanted = "Foo - contains -> Bar";
    // act
    let got = Relationship::new(SOURCE, TARGET, KIND).render();
    // assert
    assert_eq!(got, wanted);
}
