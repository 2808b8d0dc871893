use vstd::prelude::*;

verus! {

/// The errors of the memory library.
#[derive(Debug)]
pub enum MemoryError {
    /// A request or a setting is out of its accepted bounds.
    Config(String),
    /// The extraction model could not produce a completion.
    ExtractionFailed(String),
    /// A call to a remote endpoint failed before an answer arrived.
    Request(String),
    /// Any other failure.
    Other(String),
}

impl MemoryError {
    /// The text that the error carries.
    pub open spec fn message_spec(&self) -> Seq<char> {
        match self {
            MemoryError::Config(m) => m@,
            MemoryError::ExtractionFailed(m) => m@,
            MemoryError::Request(m) => m@,
            MemoryError::Other(m) => m@,
        }
    }

    /// The text that the error carries.
    pub fn message(&self) -> (r: String)
        ensures
            r@ == self.message_spec(),
    {
        match self {
            MemoryError::Config(m) => m.clone(),
            MemoryError::ExtractionFailed(m) => m.clone(),
            MemoryError::Request(m) => m.clone(),
            MemoryError::Other(m) => m.clone(),
        }
    }
}

} // verus!
