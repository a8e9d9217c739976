//! The resource container a service reads shared state from.
//!
//! Shared resources are held in one owned container and handed to services
//! by reference, so no reference ever outlives the data it borrows.

use vstd::prelude::*;

verus! {

/// Marks the types that can be stored as a resource.
pub trait Resource: Send + Sync {

}

impl<T: Send + Sync> Resource for T {

}

/// Holds at most one resource of the container's type.
pub struct Resources<R> {
    slot: Option<R>,
}

impl<R> Resources<R> {
    /// What the container holds.
    pub closed spec fn stored(self) -> Option<R> {
        self.slot
    }

    pub fn new() -> (r: Self)
        ensures
            r.stored() is None,
    {
        Self { slot: None }
    }

    /// Stores a resource, replacing any held one.
    pub fn insert(&mut self, resource: R)
        ensures
            final(self).stored() == Some(resource),
    {
        self.slot = Some(resource);
    }

    /// Reads the held resource.
    pub fn get(&self) -> (r: Option<&R>)
        ensures
            match r {
                Some(x) => self.stored() == Some(*x),
                None => self.stored() is None,
            },
    {
        match &self.slot {
            Some(x) => Some(x),
            None => None,
        }
    }

    /// Borrows the held resource for mutation.
    pub fn get_mut(&mut self) -> (r: Option<&mut R>)
        ensures
            old(self).stored() is None ==> r is None && final(self).stored() is None,
            old(self).stored() is Some ==> (r matches Some(x) && *x == old(self).stored()->0
                && final(self).stored() == Some(*final(x))),
    {
        match &mut self.slot {
            Some(x) => Some(x),
            None => None,
        }
    }

    /// Whether a resource is held.
    pub fn contains(&self) -> (r: bool)
        ensures
            r == (self.stored() is Some),
    {
        match &self.slot {
            Some(_) => true,
            None => false,
        }
    }

    /// Takes the held resource out.
    pub fn remove(&mut self) -> (r: Option<R>)
        ensures
            r == old(self).stored(),
            final(self).stored() is None,
    {
        self.slot.take()
    }

    /// Runs a closure on the held resource, if any, and hands its result
    /// back.
    pub fn resource_scope<Out, F: FnOnce(&R) -> Out>(&self, f: F) -> (r: Option<Out>)
        requires
            self.stored() is Some ==> call_requires(f, (&self.stored()->0,)),
        ensures
            r is Some <==> self.stored() is Some,
            r matches Some(out) ==> call_ensures(f, (&self.stored()->0,), out),
    {
        match self.get() {
            Some(x) => {
                let out = f(x);
                Some(out)
            },
            None => None,
        }
    }

    /// Runs a closure on the held resource for mutation, if any, and hands
    /// its result back.
    pub fn resource_scope_mut<Out, F: FnOnce(&mut R) -> Out>(&mut self, f: F) -> (r: Option<
        Out,
    >)
        requires
            forall|x: &mut R| old(self).stored() == Some(*x) ==> #[trigger] call_requires(
                f,
                (x,),
            ),
        ensures
            r is Some <==> old(self).stored() is Some,
            old(self).stored() is None ==> final(self).stored() == old(self).stored(),
            final(self).stored() is Some <==> old(self).stored() is Some,
    {
        match self.get_mut() {
            Some(x) => {
                let out = f(x);
                Some(out)
            },
            None => None,
        }
    }
}

} // verus!
