//! The method table: service handlers by method name.

use vstd::prelude::*;

verus! {

/// The registered services, looked up by method name.  Names and handlers
/// line up by position; registering a name again replaces its handler.
pub struct Dispatch<S> {
    names: Vec<String>,
    services: Vec<S>,
}

impl<S> Dispatch<S> {
    /// The registered method names, as texts.
    pub closed spec fn name_views(self) -> Seq<Seq<char>> {
        self.names@.map_values(|s: String| s@)
    }

    /// The handlers, by the same positions as `name_views`.
    pub closed spec fn service_views(self) -> Seq<S> {
        self.services@
    }

    /// Names and handlers line up, and no name is registered twice.
    pub closed spec fn wf(self) -> bool {
        &&& self.names@.len() == self.services@.len()
        &&& forall|i: int, j: int|
            0 <= i < j < self.names@.len() ==> (#[trigger] self.names@[i])@ != (
            #[trigger] self.names@[j])@
    }

    pub open spec fn has_method(self, name: Seq<char>) -> bool {
        self.name_views().contains(name)
    }

    pub fn new() -> (r: Self)
        ensures
            r.wf(),
            r.name_views() =~= Seq::<Seq<char>>::empty(),
    {
        Self { names: Vec::new(), services: Vec::new() }
    }

    /// Position of a registered method name.
    pub fn find(&self, name: &String) -> (r: Option<usize>)
        requires
            self.wf(),
        ensures
            match r {
                Some(i) => {
                    &&& i < self.name_views().len()
                    &&& i < self.service_views().len()
                    &&& self.name_views()[i as int] == name@
                    &&& self.has_method(name@)
                },
                None => !self.has_method(name@),
            },
    {
        let n = self.names.len();
        let mut i: usize = 0;
        while i < n
            invariant
                n == self.names@.len(),
                self.names@.len() == self.services@.len(),
                i <= n,
                forall|j: int| 0 <= j < i ==> (#[trigger] self.names@[j])@ != name@,
            decreases n - i,
        {
            if self.names[i] == *name {
                return Some(i);
            }
            i = i + 1;
        }
        proof {
            assert forall|j: int| 0 <= j < self.name_views().len() implies (
            #[trigger] self.name_views()[j]) != name@ by {
                assert(self.name_views()[j] == self.names@[j]@);
            }
        }
        None
    }

    /// The handler registered at a position `find` returned.
    pub fn get(&self, i: usize) -> (r: &S)
        requires
            self.wf(),
            i < self.service_views().len(),
        ensures
            *r == self.service_views()[i as int],
    {
        &self.services[i]
    }

    /// Registers a handler under a method name.  A name registered before
    /// keeps its position and gets the new handler; a new name is appended.
    pub fn add_service(&mut self, name: String, service: S)
        requires
            old(self).wf(),
        ensures
            final(self).wf(),
            old(self).has_method(name@) ==> {
                let i = old(self).name_views().index_of(name@);
                &&& final(self).name_views() =~= old(self).name_views()
                &&& final(self).service_views() =~= old(self).service_views().update(i, service)
            },
            !old(self).has_method(name@) ==> {
                &&& final(self).name_views() =~= old(self).name_views().push(name@)
                &&& final(self).service_views() =~= old(self).service_views().push(service)
            },
            final(self).has_method(name@),
    {
        let found = self.find(&name);
        match found {
            Some(i) => {
                self.services[i] = service;
                proof {
                    lemma_distinct_name_index(self.names@, name@, i as int);
                    assert(final(self).name_views() =~= old(self).name_views());
                }
            },
            None => {
                let ghost names0 = self.name_views();
                self.names.push(name);
                self.services.push(service);
                proof {
                    assert(self.name_views() =~= names0.push(self.names@.last()@));
                    assert forall|i: int, j: int|
                        0 <= i < j < self.names@.len() implies (#[trigger] self.names@[i])@ != (
                    #[trigger] self.names@[j])@ by {
                        if j == names0.len() {
                            assert(!names0.contains(self.names@[j]@));
                            assert(names0[i] == self.names@[i]@);
                        }
                    }
                    assert(self.name_views()[names0.len() as int] == self.names@.last()@);
                }
            },
        }
    }
}

/// On distinct names, `index_of` finds exactly the matching position.
pub proof fn lemma_distinct_name_index(names: Seq<String>, name: Seq<char>, i: int)
    requires
        forall|a: int, b: int|
            0 <= a < b < names.len() ==> (#[trigger] names[a])@ != (#[trigger] names[b])@,
        0 <= i < names.len(),
        names[i]@ == name,
    ensures
        names.map_values(|s: String| s@).contains(name),
        names.map_values(|s: String| s@).index_of(name) == i,
{
    let views = names.map_values(|s: String| s@);
    assert(views[i] == name);
    assert(views.contains(name));
    let j = views.index_of(name);
    if i < j {
        assert(names[i]@ != names[j]@);
        assert(views[j] == names[j]@);
    } else if j < i {
        assert(names[j]@ != names[i]@);
        assert(views[j] == names[j]@);
    }
}

} // verus!
