//! Client configuration: the identity name and the delivery service
//! address.  Persisting the configuration to disk is left to the
//! surrounding application; the engine only owns the values.

use vstd::prelude::*;
use vstd::string::StringExecFns;

verus! {

/// Configuration a client runs with.  Immutable while a session is
/// driven, except through the settings workflow.
#[derive(Debug)]
pub struct Config {
    pub username: String,
    pub delivery_service_address: String,
}

impl Config {
    /// A fieldwise copy.
    pub fn duplicate(&self) -> (r: Config)
        ensures
            r.username@ == self.username@,
            r.delivery_service_address@ == self.delivery_service_address@,
    {
        Config {
            username: self.username.clone(),
            delivery_service_address: self.delivery_service_address.clone(),
        }
    }
}

impl Default for Config {
    /// The defaults a fresh client starts with.
    fn default() -> (r: Config)
        ensures
            r.username@ == "user"@,
            r.delivery_service_address@ == "127.0.0.1:8080"@,
    {
        Config {
            username: String::from_str("user"),
            delivery_service_address: String::from_str("127.0.0.1:8080"),
        }
    }
}

} // verus!
