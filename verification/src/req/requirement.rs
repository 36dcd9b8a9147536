//! Requirements of a requirement diagram: typed, named specification
//! items with optional risk, text and verification method.

use vstd::prelude::*;

verus! {

/// The kind of a requirement, shown as the keyword that opens its block.
#[derive(Debug, PartialEq, Eq, Structural)]
pub enum RequirementType {
    Default,
    Functional,
    Interface,
    Performance,
    Physical,
    DesignConstraint,
}

/// The fixed keyword for each requirement kind.
pub open spec fn spec_render_requirement_type(t: RequirementType) -> Seq<char> {
    match t {
        RequirementType::Default => "requirement"@,
        RequirementType::Functional => "functionalRequirement"@,
        RequirementType::Interface => "interfaceRequirement"@,
        RequirementType::Performance => "performanceRequirement"@,
        RequirementType::Physical => "physicalRequirement"@,
        RequirementType::DesignConstraint => "designConstraint"@,
    }
}

impl RequirementType {
    /// The keyword for this requirement kind.
    pub fn render(&self) -> (r: String)
        ensures
            r@ == spec_render_requirement_type(*self),
    {
        match self {
            RequirementType::Default => String::from_str("requirement"),
            RequirementType::Functional => String::from_str("functionalRequirement"),
            RequirementType::Interface => String::from_str("interfaceRequirement"),
            RequirementType::Performance => String::from_str("performanceRequirement"),
            RequirementType::Physical => String::from_str("physicalRequirement"),
            RequirementType::DesignConstraint => String::from_str("designConstraint"),
        }
    }
}

/// The risk level a requirement can carry.
#[derive(Debug, PartialEq, Eq, Structural)]
pub enum Risk {
    Low,
    Medium,
    High,
}

/// The fixed word for each risk level.
pub open spec fn spec_render_risk(r: Risk) -> Seq<char> {
    match r {
        Risk::Low => "Low"@,
        Risk::Medium => "Medium"@,
        Risk::High => "High"@,
    }
}

impl Risk {
    /// The word for this risk level.
    pub fn render(&self) -> (r: String)
        ensures
            r@ == spec_render_risk(*self),
    {
        match self {
            Risk::Low => String::from_str("Low"),
            Risk::Medium => String::from_str("Medium"),
            Risk::High => String::from_str("High"),
        }
    }
}

/// How a requirement is to be verified.
#[derive(Debug, PartialEq, Eq, Structural)]
pub enum VerifyMethod {
    Analysis,
    Inspection,
    Test,
    Demo,
}

/// The fixed word for each verification method; `Demo` is written out in
/// full.
pub open spec fn spec_render_verify_method(m: VerifyMethod) -> Seq<char> {
    match m {
        VerifyMethod::Analysis => "Analysis"@,
        VerifyMethod::Inspection => "Inspection"@,
        VerifyMethod::Test => "Test"@,
        VerifyMethod::Demo => "Demonstration"@,
    }
}

impl VerifyMethod {
    /// The word for this verification method.
    pub fn render(&self) -> (r: String)
        ensures
            r@ == spec_render_verify_method(*self),
    {
        match self {
            VerifyMethod::Analysis => String::from_str("Analysis"),
            VerifyMethod::Inspection => String::from_str("Inspection"),
            VerifyMethod::Test => String::from_str("Test"),
            VerifyMethod::Demo => String::from_str("Demonstration"),
        }
    }
}

/// A requirement: a kind, a name, an id, and optional risk, text and
/// verification method.
#[must_use]
#[derive(Debug)]
pub struct Requirement {
    pub kind: RequirementType,
    pub name: String,
    pub id: String,
    pub text: Option<String>,
    pub risk: Option<Risk>,
    pub verify_method: Option<VerifyMethod>,
}

/// The display form of an optional risk line.
pub open spec fn spec_risk_part(o: Option<Risk>) -> Seq<char> {
    match o {
        Some(r) => "\n    risk: "@ + spec_render_risk(r),
        None => Seq::empty(),
    }
}

/// The display form of an optional quoted text line.
pub open spec fn spec_text_part(o: Option<String>) -> Seq<char> {
    match o {
        Some(t) => "\n    text: \""@ + t@ + "\""@,
        None => Seq::empty(),
    }
}

/// The display form of an optional verification-method line.
pub open spec fn spec_verify_method_part(o: Option<VerifyMethod>) -> Seq<char> {
    match o {
        Some(m) => "\n    verifymethod: "@ + spec_render_verify_method(m),
        None => Seq::empty(),
    }
}

/// A requirement's notation text: its kind keyword and name open a braced
/// block holding the id line and, in this order when present, the risk,
/// text and verification-method lines.
pub open spec fn spec_render_requirement(r: Requirement) -> Seq<char> {
    spec_render_requirement_type(r.kind) + " "@ + r.name@ + " {"@ + "\n    id: "@ + r.id@
        + spec_risk_part(r.risk) + spec_text_part(r.text) + spec_verify_method_part(
        r.verify_method,
    ) + "\n}"@
}

impl Requirement {
    /// Create a requirement with its kind, name and id; no risk, text or
    /// verification method is set.
    pub fn new(kind: RequirementType, name: &str, id: &str) -> (r: Self)
        ensures
            r.kind == kind,
            r.name@ == name@,
            r.id@ == id@,
            r.text is None,
            r.risk is None,
            r.verify_method is None,
    {
        Requirement {
            kind,
            name: String::from_str(name),
            id: String::from_str(id),
            text: None,
            risk: None,
            verify_method: None,
        }
    }

    /// Chain with [`Requirement::new`] to set the descriptive text.
    pub fn with_text(self, text: &str) -> (r: Self)
        ensures
            r.kind == self.kind,
            r.name == self.name,
            r.id == self.id,
            r.text matches Some(t) && t@ == text@,
            r.risk == self.risk,
            r.verify_method == self.verify_method,
    {
        Requirement {
            kind: self.kind,
            name: self.name,
            id: self.id,
            text: Some(String::from_str(text)),
            risk: self.risk,
            verify_method: self.verify_method,
        }
    }

    /// Chain with [`Requirement::new`] to set the risk level.
    pub fn with_risk(self, risk: Risk) -> (r: Self)
        ensures
            r.kind == self.kind,
            r.name == self.name,
            r.id == self.id,
            r.text == self.text,
            r.risk == Some(risk),
            r.verify_method == self.verify_method,
    {
        Requirement {
            kind: self.kind,
            name: self.name,
            id: self.id,
            text: self.text,
            risk: Some(risk),
            verify_method: self.verify_method,
        }
    }

    /// Chain with [`Requirement::new`] to set the verification method.
    pub fn with_verify_method(self, method: VerifyMethod) -> (r: Self)
        ensures
            r.kind == self.kind,
            r.name == self.name,
            r.id == self.id,
            r.text == self.text,
            r.risk == self.risk,
            r.verify_method == Some(method),
    {
        Requirement {
            kind: self.kind,
            name: self.name,
            id: self.id,
            text: self.text,
            risk: self.risk,
            verify_method: Some(method),
        }
    }

    /// The requirement's notation text.
    pub fn render(&self) -> (r: String)
        ensures
            r@ == spec_render_requirement(*self),
    {
        let mut out = self.kind.render();
        out.append(" ");
        out.append(self.name.as_str());
        out.append(" {");
        out.append("\n    id: ");
        out.append(self.id.as_str());
        if let Some(risk) = &self.risk {
            out.append("\n    risk: ");
            let word = risk.render();
            out.append(word.as_str());
        }
        if let Some(text) = &self.text {
            out.append("\n    text: \"");
            out.append(text.as_str());
            out.append("\"");
        }
        if let Some(method) = &self.verify_method {
            out.append("\n    verifymethod: ");
            let word = method.render();
            out.append(word.as_str());
        }
        out.append("\n}");
        proof {
            assert(out@ =~= spec_render_requirement(*self));
        }
        out
    }
}

} // verus!
