//! A parser, resolver and validator for an interface-definition language
//! describing remote-call interfaces, data-transfer records ("parcelables")
//! and enumerations.
//!
//! Text is parsed one compilation unit at a time into a position-accurate
//! tree together with a list of diagnostics; a project-wide resolution pass
//! then turns placeholder type references into resolved references, and an
//! independent rule-based validation pass appends further diagnostics.

pub mod ast;
pub mod diagnostic;
pub mod javadoc;
pub mod line_index;
pub mod parser;
pub mod rules;
pub mod symbol;
pub mod traverse;
pub mod validation;

pub use parser::ParseFileResult;
pub use parser::Parser;
