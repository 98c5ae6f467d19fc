//! Error taxonomy of the SDK.

use vstd::prelude::*;

verus! {

/// A typed failure returned by the engines. Engines never recover
/// internally; every failure is surfaced to the caller as one of these.
#[derive(Debug, Clone)]
pub enum Error {
    /// A schema or business-rule violation.
    ValidationError(String),
    /// Malformed configuration input.
    ConfigError(String),
    /// An unsupported compilation target.
    CompilationError(String),
    /// A network failure at an adapter boundary.
    NetworkError(String),
    /// A chain-adapter failure during deployment.
    DeploymentError(String),
    /// A payment-adapter failure.
    PaymentError(String),
    /// An unknown contract id on load.
    NotFoundError(String),
    /// A malformed persisted contract file.
    SerializationError(String),
}

impl Error {
    /// The detail message carried by the error.
    pub fn detail(&self) -> (r: &String)
        ensures
            r@ == self.spec_detail(),
    {
        match self {
            Error::ValidationError(m) => m,
            Error::ConfigError(m) => m,
            Error::CompilationError(m) => m,
            Error::NetworkError(m) => m,
            Error::DeploymentError(m) => m,
            Error::PaymentError(m) => m,
            Error::NotFoundError(m) => m,
            Error::SerializationError(m) => m,
        }
    }

    /// The detail message, as a sequence of characters.
    pub open spec fn spec_detail(&self) -> Seq<char> {
        match self {
            Error::ValidationError(m) => m@,
            Error::ConfigError(m) => m@,
            Error::CompilationError(m) => m@,
            Error::NetworkError(m) => m@,
            Error::DeploymentError(m) => m@,
            Error::PaymentError(m) => m@,
            Error::NotFoundError(m) => m@,
            Error::SerializationError(m) => m@,
        }
    }
}

} // verus!
