//! The kinds of failure that the agent tells apart.

use vstd::prelude::*;

verus! {

/// Why a step of the agent failed.
#[derive(Clone, Copy, Debug, PartialEq, Eq, Structural)]
pub enum IngestError {
    /// A startup parameter is missing or invalid. Fatal: the process ends
    /// before the first cycle.
    ConfigurationError,
    /// The node, the relational store or the cache cannot be reached at the
    /// start of a cycle. The cycle is abandoned; the loop goes on.
    ConnectionError,
    /// A query to the node failed while walking the chain or collecting
    /// metrics. The stage is abandoned; its sibling still runs.
    UpstreamUnavailable,
    /// A write to a store failed. The store keeps what an earlier cycle wrote.
    PersistenceError,
}

impl IngestError {
    /// The name of each kind, as it appears in logs.
    pub open spec fn label_text(self) -> Seq<char> {
        match self {
            IngestError::ConfigurationError => "ConfigurationError"@,
            IngestError::ConnectionError => "ConnectionError"@,
            IngestError::UpstreamUnavailable => "UpstreamUnavailable"@,
            IngestError::PersistenceError => "PersistenceError"@,
        }
    }

    /// The name of this kind of failure.
    pub fn label(&self) -> (text: String)
        ensures
            text@ == self.label_text(),
    {
        match self {
            IngestError::ConfigurationError => String::from_str("ConfigurationError"),
            IngestError::ConnectionError => String::from_str("ConnectionError"),
            IngestError::UpstreamUnavailable => String::from_str("UpstreamUnavailable"),
            IngestError::PersistenceError => String::from_str("PersistenceError"),
        }
    }

    /// Whether this kind of failure ends the process. Only a configuration
    /// error does; every other failure is logged and the loop continues.
    pub fn is_fatal(&self) -> (fatal: bool)
        ensures
            fatal == (*self == IngestError::ConfigurationError),
    {
        match self {
            IngestError::ConfigurationError => true,
            _ => false,
        }
    }
}

} // verus!
