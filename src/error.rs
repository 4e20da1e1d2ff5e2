//! The errors that the core reports.

use vstd::prelude::*;

verus! {

/// What went wrong while producing an artifact.
#[derive(Debug)]
pub enum IptvError {
    /// The network, DNS or TLS layer failed; the text says how.
    Transport(String),
    /// The backend answered with a non-success HTTP status.
    UpstreamStatus(u16),
    /// A body that should have had a known structure did not.
    Decode(String),
    /// The credential cipher could not be set up.
    Crypto,
    /// A date or URL could not be read; the text is the input.
    Parse(String),
    /// No channel matches the lookup key given.
    NotFound(String),
}

} // verus!
