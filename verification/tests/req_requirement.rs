use mormaid::req::Requirement;
use mormaid::req::RequirementType;
use mormaid::req::Risk;
use mormaid::req::VerifyMethod;

const ID: &str = "1.1.1";
const NAME: &str = "milestone";
const KIND: RequirementType = RequirementType::Default;

#[test]
fn create_requirement_without_optional_fields() {
    // act
    let got = Requirement::new(KIND, NAME, ID);
    // assert
    assert_eq!(got.name, NAME);
    assert_eq!(got.kind, KIND);
    assert_eq!(got.id, ID);
}

#[test]
fn create_specific_kind_of_requirement() {
    // act
    let got = Requirement::new(KIND, NAME, ID);
    // assert
    assert_eq!(got.name, NAME);
    assert_eq!(got.kind, KIND);
    assert_eq!(got.id, ID);
}

#[test]
fn create_requirement_with_risk() {
    // arrange
    const RISK_WANTED: Risk = Risk::High;
    // act
    let got = Requirement::new(KIND, NAME, ID).with_risk(RISK_WANTED);
    // assert
    assert_eq!(got.risk, Some(RISK_WANTED));
}

#[test]
fn create_requirement_with_text() {
    // arrange
    const TEXT_WANTED: &str = "Foo bar";
    // act
    let got = Requirement::new(KIND, NAME, ID).with_text(TEXT_WANTED);
    // assert
    assert_eq!(got.text, Some(TEXT_WANTED.to_string()));
}

#[test]
fn create_requirement_with_verify_method() {
    // arrange
    const METHOD_WANTED: VerifyMethod = VerifyMethod::Analysis;
    // act
    let got = Requirement::new(KIND, NAME, ID).with_verify_method(METHOD_WANTED);
    // assert
    assert_eq!(got.verify_method, Some(METHOD_WANTED));
}

#[test]
fn display_element_with_required_fields_only() {
    // arrange
    let wanted = "requirement milestone {\n    id: 1.1.1\n}";
    // act
    let got = Requirement::new(KIND, NAME, ID).render();
    // assert
    assert_eq!(got, wanted);
}

#[test]
fn display_element_with_all_fields() {
    // arrange
    let wanted = "functionalRequirement Foo {\n    id: Bar\n    risk: Low\n    text: \"Foo bar\"\n    verifymethod: Demonstration\n}";
    // act
    let got = Requirement::new(RequirementType::Functional, "Foo", "Bar")
        .with_risk(Risk::Low)
        .with_text("Foo bar")
        .with_verify_method(VerifyMethod::Demo)
        .render();
    // assert
    assert_eq!(got, wanted);
}
