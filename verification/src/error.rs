//! The pipeline's error type.  The fatal batch-aborting condition (a
//! required external binary missing from the host) is reported as
//! `GenericError`; everything else is per-video or call-scoped.

use vstd::prelude::*;

use vstd::string::StringExecFns;

verus! {

/// An error of the pipeline.
#[derive(Debug)]
pub enum AspargusError {
    /// A read or write failed.
    Io(String),
    /// Text could not be parsed.
    ParseError(String),
    /// A condition outside any single video, such as a missing binary.
    GenericError(String),
    /// One video or one stage failed.
    ProcessingError(String),
}

impl AspargusError {
    /// The error's text, with its category named ahead.
    pub fn message(&self) -> (r: String)
        ensures
            r@ == (match self {
                AspargusError::Io(m) => "IO error: "@ + m@,
                AspargusError::ParseError(m) => "Parse error: "@ + m@,
                AspargusError::GenericError(m) => "Generic error: "@ + m@,
                AspargusError::ProcessingError(m) => "Processing error: "@ + m@,
            }),
    {
        match self {
            AspargusError::Io(m) => String::from_str("IO error: ").concat(m.as_str()),
            AspargusError::ParseError(m) => String::from_str("Parse error: ").concat(m.as_str()),
            AspargusError::GenericError(m) => String::from_str("Generic error: ").concat(
                m.as_str(),
            ),
            AspargusError::ProcessingError(m) => String::from_str("Processing error: ").concat(
                m.as_str(),
            ),
        }
    }
}

} // verus!
