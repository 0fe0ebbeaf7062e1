use vstd::prelude::*;

verus! {

/// What can go wrong while loading a table.
#[derive(Debug, Clone, PartialEq, Eq)]
pub enum Error {
    /// No default spreadsheet has been configured for range reads.
    ConfigurationMissing,
    /// The remote service could not be reached.
    Transport(String),
    /// The remote service answered with an unexpected envelope.
    Protocol(String),
    /// A table's own transform rejected the fetched data.
    Transform(String),
}

} // verus!
