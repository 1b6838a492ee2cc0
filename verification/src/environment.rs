//! The endpoints the deployment client talks to, resolved once at startup
//! and passed by reference from then on.

use vstd::prelude::*;

verus! {

/// The three service URLs: upload API, general API, and the socket API the
/// status channel connects to.
#[derive(Debug)]
pub struct EnvironmentInner {
    pub deployment_api: String,
    pub general_purpose_api: String,
    pub ws_general_purpose_api: String,
}

/// The resolved environment a run works against.
#[derive(Debug)]
pub struct Environment {
    pub inner: EnvironmentInner,
}

impl Environment {
    /// The default upload API endpoint.
    pub fn deployment_api() -> (r: String)
        ensures
            r@ == "https://deploy.zugriff.eu"@,
    {
        String::from_str("https://deploy.zugriff.eu")
    }

    /// The default general-purpose API endpoint.
    pub fn general_purpose_api() -> (r: String)
        ensures
            r@ == "https://api.zugriff.eu"@,
    {
        String::from_str("https://api.zugriff.eu")
    }

    /// The default status-socket endpoint.
    pub fn ws_general_purpose_api() -> (r: String)
        ensures
            r@ == "wss://api.zugriff.eu"@,
    {
        String::from_str("wss://api.zugriff.eu")
    }

    /// An environment pointing at the default endpoints.
    pub fn with_defaults() -> (r: Environment)
        ensures
            r.inner.deployment_api@ == "https://deploy.zugriff.eu"@,
            r.inner.general_purpose_api@ == "https://api.zugriff.eu"@,
            r.inner.ws_general_purpose_api@ == "wss://api.zugriff.eu"@,
    {
        Environment {
            inner: EnvironmentInner {
                deployment_api: Environment::deployment_api(),
                general_purpose_api: Environment::general_purpose_api(),
                ws_general_purpose_api: Environment::ws_general_purpose_api(),
            },
        }
    }

    pub fn inner(&self) -> (r: &EnvironmentInner)
        ensures
            r == self.inner,
    {
        &self.inner
    }
}

} // verus!
