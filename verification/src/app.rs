//! The application shell of the RPC service: resources plus dispatch.

use vstd::prelude::*;

use crate::dispatch::Dispatch;
use crate::resources::Resources;
use crate::rpc::{RpcError, RpcErrorCode, RpcRequest, RpcResponse};
use crate::service::{Service, ServiceContext};
use vstd::string::StringExecFns;

verus! {

/// The assembled service application: the shared resources and the method
/// table, generic in the resource type and the handler type.
pub struct App<R, S> {
    pub resources: Resources<R>,
    pub dispatch: Dispatch<S>,
}

impl<R, S: Service<R>> App<R, S> {
    pub fn new() -> (r: Self)
        ensures
            r.resources.stored() is None,
            r.dispatch.wf(),
            r.dispatch.name_views() =~= Seq::<Seq<char>>::empty(),
    {
        Self { resources: Resources::new(), dispatch: Dispatch::new() }
    }

    /// Registers a handler under a method name.
    pub fn add_service(&mut self, name: String, service: S)
        requires
            old(self).dispatch.wf(),
        ensures
            final(self).dispatch.wf(),
            final(self).dispatch.has_method(name@),
            final(self).resources == old(self).resources,
    {
        self.dispatch.add_service(name, service);
    }

    /// Stores a resource, replacing any held one.
    pub fn insert_resource(&mut self, resource: R)
        ensures
            final(self).resources.stored() == Some(resource),
            final(self).dispatch == old(self).dispatch,
    {
        self.resources.insert(resource);
    }

    /// Reads the held resource.
    pub fn resource(&self) -> (r: Option<&R>)
        ensures
            match r {
                Some(x) => self.resources.stored() == Some(*x),
                None => self.resources.stored() is None,
            },
    {
        self.resources.get()
    }

    /// Borrows the held resource for mutation.
    pub fn resource_mut(&mut self) -> (r: Option<&mut R>)
        ensures
            old(self).resources.stored() is None ==> r is None && final(self).resources.stored()
                is None,
            old(self).resources.stored() is Some ==> (r matches Some(x) && *x == old(
                self,
            ).resources.stored()->0 && final(self).resources.stored() == Some(*final(x))),
            final(self).dispatch == old(self).dispatch,
    {
        self.resources.get_mut()
    }

    /// Whether a resource is held.
    pub fn has_resource(&self) -> (r: bool)
        ensures
            r == (self.resources.stored() is Some),
    {
        self.resources.contains()
    }

    /// Serves one request: the handler registered under the request's
    /// method decides the response; an unregistered method is answered
    /// with a method-not-found error carrying the request's id.
    pub fn run(&mut self, request: RpcRequest) -> (r: RpcResponse)
        requires
            old(self).dispatch.wf(),
        ensures
            *final(self) == *old(self),
            !old(self).dispatch.has_method(request.method@) ==> {
                &&& r.result is None
                &&& r.id == request.id
                &&& (r.error matches Some(e) && e.code == RpcErrorCode::MethodNotFound.code_spec()
                    && e.message@ == "Method '"@ + request.method@ + "' not found"@ && e.data
                    is None)
            },
    {
        let id = request.id;
        let found = self.dispatch.find(&request.method);
        match found {
            Some(i) => {
                let service = self.dispatch.get(i);
                let ctx = ServiceContext { resources: &self.resources, request };
                match service.call(ctx) {
                    Ok(response) => response,
                    Err(error) => RpcResponse { result: None, error: Some(error), id },
                }
            },
            None => {
                let mut message = "Method '".to_owned();
                message.append(request.method.as_str());
                message.append("' not found");
                RpcResponse {
                    result: None,
                    error: Some(RpcError::new(RpcErrorCode::MethodNotFound, message)),
                    id,
                }
            },
        }
    }
}

} // verus!
