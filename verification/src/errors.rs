use vstd::prelude::*;

verus! {

/// Closed error taxonomy of the updater.
///
/// - `InvalidDomain`: a domain name with fewer than two dot-separated labels.
/// - `NotFound`: the provider lists no zone for the queried base domain.
/// - `Protocol`: a provider response that does not have the expected envelope
///   shape.
/// - `Provider`: the provider reported failure; `message` aggregates the
///   messages of its error list.
/// - `Network`: a transport-level failure of an outbound call; `message`
///   carries the transport's description.
#[derive(Debug, Clone, PartialEq, Eq)]
pub enum DynDnsError {
    InvalidDomain,
    NotFound,
    Protocol,
    Provider { message: String },
    Network { message: String },
}

} // verus!
