use vstd::prelude::*;

verus! {

/// What went wrong in a pipeline operation. Each kind carries a message for
/// the caller; the kind itself says which stage failed.
#[derive(Clone, Debug)]
pub enum Error {
    /// The SQL text could not be parsed, or the statement is not a plain
    /// `SELECT`.
    Parse(String),
    /// The catalog could not be consulted while rewriting.
    Rewrite(String),
    /// The SQL engine failed to run a statement.
    Execution(String),
    /// A storage location has no recognised scheme.
    StorageClassification(String),
    /// A write or merge against table storage failed.
    Storage(String),
    /// The source file's format has no reader.
    UnsupportedFormat(String),
    /// An operation needed the current batch set and there was none.
    State(String),
}

impl Error {
    /// The message carried by the error, whatever its kind.
    pub open spec fn spec_message(&self) -> Seq<char> {
        match self {
            Error::Parse(m) => m@,
            Error::Rewrite(m) => m@,
            Error::Execution(m) => m@,
            Error::StorageClassification(m) => m@,
            Error::Storage(m) => m@,
            Error::UnsupportedFormat(m) => m@,
            Error::State(m) => m@,
        }
    }

    /// The message carried by the error, whatever its kind.
    pub fn message(&self) -> (r: &String)
        ensures
            r@ == self.spec_message(),
    {
        match self {
            Error::Parse(m) => m,
            Error::Rewrite(m) => m,
            Error::Execution(m) => m,
            Error::StorageClassification(m) => m,
            Error::Storage(m) => m,
            Error::UnsupportedFormat(m) => m,
            Error::State(m) => m,
        }
    }
}

} // verus!
