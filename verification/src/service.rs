//! The service interface of the RPC layer.

use vstd::prelude::*;

use crate::resources::Resources;
use crate::rpc::{RpcError, RpcRequest, RpcResponse};

verus! {

/// What one call hands a service: the shared resources, borrowed from
/// their owner for the call's duration, and the request itself.
pub struct ServiceContext<'a, R> {
    pub resources: &'a Resources<R>,
    pub request: RpcRequest,
}

/// A handler the dispatcher can call for one method name.  Implementors
/// decide what the request's parameter bytes mean.
pub trait Service<R> {
    fn call(&self, ctx: ServiceContext<R>) -> Result<RpcResponse, RpcError>;
}

} // verus!
