use vstd::prelude::*;

verus! {

/// Errors reported by the identifier engine.
#[derive(Debug, Clone, PartialEq, Eq)]
pub enum IdtError {
    InvalidFormat(String),
    UnknownType(String),
    ParseError(String),
    EncodingError(String),
    GenerationError(String),
    InvalidArgument(String),
    DetectionFailed,
    ValidationError(String),
    ConversionNotSupported { from: String, to: String },
}

pub type Result<T> = core::result::Result<T, IdtError>;

impl IdtError {
    /// The human-readable message of this error.
    pub fn message(&self) -> (r: String) {
        let mut out = String::new();
        match self {
            IdtError::InvalidFormat(m) => {
                out.append("Invalid ID format: ");
                out.append(m.as_str());
            },
            IdtError::UnknownType(m) => {
                out.append("Unknown ID type: ");
                out.append(m.as_str());
            },
            IdtError::ParseError(m) => {
                out.append("Parse error: ");
                out.append(m.as_str());
            },
            IdtError::EncodingError(m) => {
                out.append("Encoding error: ");
                out.append(m.as_str());
            },
            IdtError::GenerationError(m) => {
                out.append("Generation error: ");
                out.append(m.as_str());
            },
            IdtError::InvalidArgument(m) => {
                out.append("Invalid argument: ");
                out.append(m.as_str());
            },
            IdtError::DetectionFailed => {
                out.append("Detection failed: could not determine ID type");
            },
            IdtError::ValidationError(m) => {
                out.append("Validation error: ");
                out.append(m.as_str());
            },
            IdtError::ConversionNotSupported { from, to } => {
                out.append("Conversion not supported: ");
                out.append(from.as_str());
                out.append(" -> ");
                out.append(to.as_str());
            },
        }
        out
    }
}

} // verus!
