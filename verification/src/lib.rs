//! Builders and text rendering for entity-relationship diagrams and
//! requirement diagrams.
//!
//! The library keeps two parallel subsystems: `erd` for entity-relationship
//! diagrams and `req` for requirement diagrams.  Each offers builder-style
//! model types, a diagram container that owns the models, and a `render`
//! method that produces the diagram notation text.

pub mod erd;
pub mod req;
