//! The platform adapter pair: a layer that wraps the routing service so
//! the backend can also run behind a serverless gateway, whose envelope
//! differs from a plain HTTP request. The wrapping itself is held here;
//! the envelope translation is transport glue and lives with the runtime,
//! which drives the wrapped service.

use vstd::prelude::*;

verus! {

/// Marker layer that wraps a routing service in a [`LambdaService`].
#[derive(Clone, Copy)]
pub struct LambdaLayer;

/// A routing service wrapped for the serverless gateway: requests are
/// translated into plain HTTP requests for the inner service and its
/// responses back into envelope responses.
pub struct LambdaService<S> {
    pub inner: S,
}

impl LambdaLayer {
    /// Wrap a service; the service itself is held unchanged.
    pub fn layer<S>(&self, inner: S) -> (r: LambdaService<S>)
        ensures
            r.inner == inner,
    {
        LambdaService { inner }
    }
}

impl Default for LambdaLayer {
    fn default() -> (r: Self)
        ensures
            r == LambdaLayer,
    {
        LambdaLayer
    }
}

} // verus!
