use mormaid::erd::Attribute;
use mormaid::erd::Entity;

const ENTITY_ID: &str = "ALBUM";
const ALIAS: &str = "album_table";
const ATTR_NAME: &str = "title";
const ATTR_TYPE: &str = "string";

// =========================
// Entity tests
// =========================
#[test]
fn test_create_without_alias_or_attributes() {
    // act
    let entity = Entity::new(ENTITY_ID);
    // assert
    assert_eq!(entity.id, ENTITY_ID); // id is set correctly
    assert_eq!(entity.alias, None); // alias is unset
    assert_eq!(entity.attributes.len(), 0); // entity has no attributes
}

#[test]
fn test_create_with_alias() {
    // act
    let entity = Entity::new(ENTITY_ID).with_alias(ALIAS);
    // assert
    assert_eq!(entity.alias, Some(ALIAS.to_string()));
}

#[test]
fn test_add_attribute() {
    // act
    let entity = Entity::new(ENTITY_ID).add_attribute(Attribute::new(ATTR_TYPE, ATTR_NAME));
    // assert
    assert_eq!(entity.attributes.len(), 1); // entity has one attribute
    assert_eq!(entity.attributes[0].name, ATTR_NAME); // attr name matches
}

#[test]
fn test_display_without_attributes_or_alias() {
    // arrange
    let entity = Entity::new(ENTITY_ID);
    let wanted = ENTITY_ID;
    // act
    let got = entity.render();
    // assert
    assert_eq!(got, wanted);
}

#[test]
fn test_display_with_alias() {
    // arrange
    let entity = Entity::new(ENTITY_ID).with_alias(ALIAS);
    let wanted = format!("ALBUM[\"album_table\"]");
    // act
    let got = entity.render();
    // assert
    assert_eq!(got, wanted);
}

// =========================
// Attribute tests
// =========================
#[test]
fn test_create_without_comment_or_key_constraints() {
    // act
    let attr = Attribute::new(ATTR_TYPE, ATTR_NAME);
    // assert
    assert_eq!(attr.attr_type, ATTR_TYPE);
    assert_eq!(attr.name, ATTR_NAME);
    assert_eq!(attr.key.is_primary, false);
    assert_eq!(attr.key.is_foreign, false);
    assert_eq!(attr.key.is_unique, false);
}

#[test]
fn test_create_as_primary_key() {
    // act
    let attr = Attribute::new(ATTR_TYPE, ATTR_NAME).as_primary_key();
    // assert
    assert_eq!(attr.key.is_primary, true);
}

#[test]
fn test_create_as_foreign_key() {
    // act
    let attr = Attribute::new(ATTR_TYPE, ATTR_NAME).as_foreign_key();
    // assert
    assert_eq!(attr.key.is_foreign, true);
}

#[test]
fn test_create_as_unique() {
    // act
    let attr = Attribute::new(ATTR_TYPE, ATTR_NAME).as_unique();
    // assert
    assert_eq!(attr.key.is_unique, true);
}

#[test]
fn test_create_with_comment() {
    // arrange
    let comment = "Unique identifier for the product";
    // act
    let attr = Attribute::new(ATTR_TYPE, ATTR_NAME).with_comment(comment);
    // assert
    assert_eq!(attr.comment, Some(comment.to_string()));
}

#[test]
fn test_display_without_key_or_comment() {
    // arrange
    let wanted = format!("{ATTR_TYPE} {ATTR_NAME}");
    let attr = Attribute::new(ATTR_TYPE, ATTR_NAME);
    // act
    let got = attr.render();
    // assert
    assert_eq!(got, wanted)
}

#[test]
fn test_display_with_one_key_constraint() {
    // arrange
    let wanted = format!("{ATTR_TYPE} {ATTR_NAME} PK");
    let attr = Attribute::new(ATTR_TYPE, ATTR_NAME).as_primary_key();
    // act
    let got = attr.render();
    // assert
    assert_eq!(got, wanted)
}

#[test]
fn test_display_with_multiple_key_constraints() {
    // arrange
    let wanted = format!("{ATTR_TYPE} {ATTR_NAME} PK, FK, UK");
    let attr = Attribute::new(ATTR_TYPE, ATTR_NAME)
        .as_primary_key()
        .as_foreign_key()
        .as_unique();
    // act
    let got = attr.render();
    // assert
    assert_eq!(got, wanted)
}

#[test]
fn test_display_with_comment() {
    // arrange
    let comment = "comment about album";
    let wanted = format!("{ATTR_TYPE} {ATTR_NAME} \"{comment}\"");
    let attr = Attribute::new(ATTR_TYPE, ATTR_NAME).with_comment(comment);
    // act
    let got = attr.render();
    // assert
    assert_eq!(got, wanted)
}
