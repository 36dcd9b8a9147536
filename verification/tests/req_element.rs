use mormaid::req::Element;

const NAME: &str = "milestone";
const KIND: &str = "product brief";
const DOCREF: &str = "https://github.com/widal001/mORMaid/issues/8";

#[test]
fn create_element_without_docref() {
    // act
    let element = Element::new(NAME, KIND);
    // assert
    assert_eq!(element.name, NAME);
    assert_eq!(element.kind, KIND);
    assert_eq!(element.docref, None);
}

#[test]
fn create_element_with_docref() {
    // act
    let element = Element::new(NAME, KIND).with_docref(DOCREF);
    // assert
    assert_eq!(element.name, NAME);
    assert_eq!(element.kind, KIND);
    assert_eq!(element.docref, Some(DOCREF.to_string()));
}

#[test]
fn display_element_without_docref() {
    // arrange
    let wanted = "element milestone {\n    type: \"product brief\"\n}";
    // act
    let got = Element::new(NAME, KIND).render();
    // assert
    assert_eq!(got, wanted);
}

#[test]
fn display_element_with_docref() {
    // arrange
    let wanted = "element milestone {\n    type: \"product brief\"\n    docref: https://github.com/widal001/mORMaid/issues/8\n}";
    // act
    let got = Element::new(NAME, KIND).with_docref(DOCREF).render();
    // assert
    assert_eq!(got, wanted);
}
