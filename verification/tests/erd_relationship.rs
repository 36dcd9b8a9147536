use mormaid::erd::Cardinality;
use mormaid::erd::EntityId;
use mormaid::erd::Relationship;

const ALBUM_ID: &str = "ALBUM";
const SONG_ID: &str = "SONG";

#[test]
fn test_that_entity_ids_with_same_string_are_equal() {
    // act
    let relationship = Relationship::new(
        ALBUM_ID,
        SONG_ID,
        Cardinality::ExactlyOne,
        Cardinality::OneOrMore,
    );
    // assert
    assert_eq!(relationship.left_id, EntityId::from(ALBUM_ID));
    assert_eq!(relationship.right_id, EntityId::from(SONG_ID));
    assert_eq!(relationship.left_cardinality, Cardinality::ExactlyOne);
    assert_eq!(relationship.right_cardinality, Cardinality::OneOrMore);
}

#[test]
fn test_display_identifying_without_a_label() {
    // arrange
    let relationship = Relationship::new(
        ALBUM_ID,
        SONG_ID,
        Cardinality::ZeroOrOne,
        Cardinality::ZeroOrMore,
    );
    let wanted = "ALBUM |o--o{ SONG";
    // act
    let got = relationship.render();
    // assert
    assert_eq!(got, wanted);
}

#[test]
fn test_display_non_identifying_with_a_label() {
    // arrange
    let label = "includes";
    let relationship = Relationship::new(
        ALBUM_ID,
        SONG_ID,
        Cardinality::ExactlyOne,
        Cardinality::OneOrMore,
    )
    .as_non_identifying()
    .with_label(label);
    let wanted = "ALBUM ||..|{ SONG : \"includes\"";
    // act
    let got = relationship.render();
    // assert
    assert_eq!(got, wanted);
}
