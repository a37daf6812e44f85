//! The relaunch shim: on platforms that need it, the application relaunches
//! itself from an application bundle; elsewhere it runs as it is.

use vstd::prelude::*;

verus! {

/// `std::io::Error`, the error type of the relaunch step; opaque here.
#[verifier::external_type_specification]
#[verifier::external_body]
pub struct ExIoError(std::io::Error);

/// Makes sure the application runs from a proper bundle.
pub struct Trampoline;

/// The application as launched.
pub struct Application;

impl Trampoline {
    /// Prepares the application `name`, bundle identifier `ident`, at
    /// `version`. Where no bundle is needed the application runs as it is,
    /// and this always succeeds.
    pub fn new(name: &str, ident: &str, version: &str) -> (r: Result<Application, std::io::Error>)
        ensures
            r is Ok,
    {
        Ok(Application)
    }
}

} // verus!
