//! Descriptions of the REST API's endpoints.
use vstd::prelude::*;
use core::marker::PhantomData;

verus! {

/// The HTTP methods the API uses.
#[derive(Debug, Clone, Copy, PartialEq, Eq, Structural)]
pub enum ApiMethod {
    Get,
    Post,
    Put,
    Delete,
}

/// An endpoint: its method and path template, typed by the request body
/// `Req` and the response data `Resp`.
pub struct Endpoint<Req, Resp> {
    pub method: ApiMethod,
    pub path: &'static str,
    pub marker: PhantomData<(Req, Resp)>,
}

impl<Req, Resp> Endpoint<Req, Resp> {
    /// An endpoint with the given method and path.
    pub fn new(method: ApiMethod, path: &'static str) -> (r: Self)
        ensures
            r.method == method,
            r.path == path,
    {
        Endpoint { method, path, marker: PhantomData }
    }
}

} // verus!
