//! Anomaly model handle and the client of the ML service.

use vstd::prelude::*;

verus! {

/// The isolation-forest anomaly model (currently carries no parameters).
#[derive(Debug, Clone, Copy)]
pub struct IsolationForest;

impl IsolationForest {
    /// Loads the model.
    pub fn fit() -> (m: Self) {
        IsolationForest
    }
}

/// Client of the ML service; it keeps the endpoint and connects on each request.
#[derive(Debug, Clone)]
pub struct MlClient {
    endpoint: String,
}

impl MlClient {
    pub closed spec fn endpoint_view(&self) -> Seq<char> {
        self.endpoint@
    }

    /// A client for the service at `endpoint`.
    pub fn connect(endpoint: &str) -> (c: Self)
        ensures
            c.endpoint_view() == endpoint@,
    {
        MlClient { endpoint: endpoint.to_owned() }
    }

    /// The endpoint requests go to.
    pub fn endpoint(&self) -> (e: &str)
        ensures
            e@ == self.endpoint_view(),
    {
        self.endpoint.as_str()
    }
}

} // verus!
