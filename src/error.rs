use vstd::prelude::*;

use crate::parser::TemplateError;

verus! {

/// Why a generation step failed.
#[derive(Debug, Clone)]
pub enum GenerationError {
    /// A template's pattern could not be read.
    TemplateParse(TemplateError),
    /// No template answers to a name, or none of a required category exists.
    TemplateNotFound { name: String },
    /// A room would not fit on the canvas.
    SizeConstraintViolation,
    /// The parameters do not describe a level: they belong to another kind of
    /// level, the grid is empty, the central span does not fit in it, or the
    /// canvas would hold more tiles than machine integers can count.
    InvalidParameters { reason: String },
    /// The kind of level is not implemented.
    GenerationFailure { reason: String },
}

} // verus!
