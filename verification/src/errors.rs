use vstd::prelude::*;

verus! {

/// The error taxonomy of the library.
///
/// Every failure carries a complete, human-readable message naming the
/// offending input (tag name, ref name, identifier or URL), so that a
/// caller can diagnose the failure without re-running with added
/// instrumentation. Errors propagate unchanged to the caller: no stage
/// recovers locally, retries, or produces partial results.
#[derive(Debug)]
pub enum CliError {
    /// Bad input from the caller, e.g. an empty tag prefix.
    Configuration(String),
    /// A matching tag name whose suffix is not a valid unsigned integer.
    Parse(String),
    /// No tag matches the prefix, or identifiers remained unresolved after
    /// the listing ran out of pages.
    NotFound(String),
    /// A symbolic name that resolved through none of the lookup strategies.
    RefNotFound(String),
    /// The storage backend failed while listing tags or walking history.
    History(String),
    /// A request could not be built or sent.
    Transport(String),
    /// A response body could not be decoded.
    Decode(String),
}

impl CliError {
    /// The message carried by this error.
    pub open spec fn spec_message(&self) -> Seq<char> {
        match self {
            CliError::Configuration(m) => m@,
            CliError::Parse(m) => m@,
            CliError::NotFound(m) => m@,
            CliError::RefNotFound(m) => m@,
            CliError::History(m) => m@,
            CliError::Transport(m) => m@,
            CliError::Decode(m) => m@,
        }
    }

    /// Spells the error out for display.
    pub fn message(&self) -> (r: String)
        ensures
            r@ == self.spec_message(),
    {
        match self {
            CliError::Configuration(m) => m.clone(),
            CliError::Parse(m) => m.clone(),
            CliError::NotFound(m) => m.clone(),
            CliError::RefNotFound(m) => m.clone(),
            CliError::History(m) => m.clone(),
            CliError::Transport(m) => m.clone(),
            CliError::Decode(m) => m.clone(),
        }
    }
}

} // verus!
