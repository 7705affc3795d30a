//! Error types for the fatal startup failures the service can report.

use vstd::prelude::*;

verus! {

/// A fatal error carrying a human-readable message, reported once at the
/// process boundary before a non-zero exit.
pub struct ServiceError {
    message: String,
}

impl ServiceError {
    /// The message the error carries, as contracts see it.
    pub closed spec fn spec_message(self) -> Seq<char> {
        self.message@
    }

    /// The message the error carries.
    pub fn message(&self) -> (r: &String)
        ensures
            r@ == self.spec_message(),
    {
        &self.message
    }
}

/// Builds a fatal error from a message.
pub fn error(err: String) -> (r: ServiceError)
    ensures
        r.spec_message() == err@,
{
    ServiceError { message: err }
}

/// A malformed bind address: fatal, aborts startup before any listener runs.
#[derive(Clone, Copy, Debug, PartialEq, Eq, Structural)]
pub enum ConfigError {
    /// The string looked like an address with an embedded port but did not
    /// parse as one.
    InvalidAddressWithPort,
    /// The string parsed neither as a bare IPv4 nor as a bare IPv6 address.
    InvalidAddress,
}

/// A certificate file that yields no usable chain: fatal, aborts startup.
#[derive(Clone, Copy, Debug, PartialEq, Eq, Structural)]
pub enum CertificateLoadError {
    /// The PEM framing or base64 payload of the file is malformed.
    ParseFailed,
    /// The file holds no certificate section at all.
    NoCertificates,
}

/// A key file that does not yield exactly one private key: fatal.
#[derive(Clone, Copy, Debug, PartialEq, Eq, Structural)]
pub enum KeyLoadError {
    /// The file could not be scanned for SEC1 EC private keys.
    EcParseFailed,
    /// The file could not be scanned for PKCS8 private keys.
    Pkcs8ParseFailed,
    /// The file could not be scanned for RSA private keys.
    RsaParseFailed,
    /// No private key was found under any recognized encoding.
    NoKey,
    /// More than one private key was found across the encodings combined;
    /// the service never guesses which one to use.
    MultipleKeys,
}

} // verus!
