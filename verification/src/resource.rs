//! Named resources that are loaded once and then found by their name or
//! their id.

use vstd::prelude::*;
use vstd::std_specs::convert::FromSpec;

verus! {

/// Errors that can occur managing resources
#[derive(Clone, Copy, Debug, PartialEq, Eq, Structural)]
pub enum Error {
    /// A resource with this name already exists
    Duplicate,
}

/// A generic set of static resources
#[derive(Debug)]
pub struct Resources<T> {
    /// The resource buffer
    buffer: Vec<T>,
    /// The names of the resources, each one under the id of its resource
    names: Vec<String>,
}

/// The names as sequences of characters.
pub open spec fn texts(names: Seq<String>) -> Seq<Seq<char>> {
    names.map_values(|name: String| name@)
}

/// The id of the resource with the name: the place of the name among the
/// names, or `None` where it is not among them.
pub open spec fn id_of(names: Seq<Seq<char>>, name: Seq<char>) -> Option<usize> {
    if names.contains(name) {
        Some(names.index_of(name) as usize)
    } else {
        None
    }
}

impl<T> Resources<T> {
    /// The resources, each one under its id.
    pub closed spec fn resources(&self) -> Seq<T> {
        self.buffer@
    }

    /// The names of the resources, each one under the id of its resource.
    pub closed spec fn names(&self) -> Seq<Seq<char>> {
        texts(self.names@)
    }

    /// The invariant of the set: each resource has a name, and no two have
    /// the same.
    pub open spec fn wf(&self) -> bool {
        &&& self.names().len() == self.resources().len()
        &&& self.names().no_duplicates()
    }

    /// Creates a new set of resources
    pub fn new() -> (resources: Resources<T>)
        ensures
            resources.wf(),
            resources.resources() == Seq::<T>::empty(),
            resources.names() == Seq::<Seq<char>>::empty(),
    {
        let resources = Resources { buffer: Vec::new(), names: Vec::new() };
        assert(resources.names() =~= Seq::<Seq<char>>::empty());
        resources
    }

    /// Finds the id of the resource with the name
    pub fn id_by_name(&self, name: &str) -> (id: Option<usize>)
        requires
            self.wf(),
        ensures
            id == id_of(self.names(), name@),
            id.is_some() ==> id.unwrap() < self.resources().len(),
    {
        let wanted = name.to_owned();
        let mut i: usize = 0;
        while i < self.names.len()
            invariant
                i <= self.names@.len(),
                self.wf(),
                wanted@ == name@,
                forall|j: int| 0 <= j < i ==> self.names()[j] != name@,
            decreases self.names@.len() - i,
        {
            if self.names[i] == wanted {
                proof {
                    let names = self.names();
                    assert(names[i as int] == name@);
                    assert(names.contains(name@));
                    let k = names.index_of(name@);
                    assert(0 <= k < names.len() && names[k] == name@);
                    assert(k == i);
                }
                return Some(i);
            }
            i += 1;
        }
        assert(!self.names().contains(name@));
        None
    }

    /// Gets a reference to the resource with the id
    pub fn get(&self, id: usize) -> (r: Option<&T>)
        ensures
            r == (if id < self.resources().len() {
                Some(&self.resources()[id as int])
            } else {
                None
            }),
    {
        if id < self.buffer.len() {
            Some(&self.buffer[id])
        } else {
            None
        }
    }

    /// Add a resource to the set, under the next id; fails where the set
    /// has a resource with the name already
    pub fn insert(&mut self, name: String, resource: T) -> (r: Result<usize, Error>)
        requires
            old(self).wf(),
        ensures
            final(self).wf(),
            r == (if old(self).names().contains(name@) {
                Err::<usize, Error>(Error::Duplicate)
            } else {
                Ok(old(self).resources().len() as usize)
            }),
            final(self).resources() == (if r.is_ok() {
                old(self).resources().push(resource)
            } else {
                old(self).resources()
            }),
            final(self).names() == (if r.is_ok() {
                old(self).names().push(name@)
            } else {
                old(self).names()
            }),
    {
        match self.id_by_name(name.as_str()) {
            Some(_) => Err(Error::Duplicate),
            None => {
                let id = self.buffer.len();
                self.buffer.push(resource);
                self.names.push(name);
                assert(self.names() =~= old(self).names().push(name@));
                Ok(id)
            },
        }
    }

    /// Adds the resource that `create` makes to the set, under the next id.
    /// Fails where the set has a resource with the name already, and then
    /// does not call `create`; fails with the error of `create` where that
    /// fails
    pub fn insert_from<E: From<Error>, F: FnOnce() -> Result<T, E>>(
        &mut self,
        name: String,
        create: F,
    ) -> (r: Result<usize, E>)
        requires
            old(self).wf(),
            create.requires(()),
        ensures
            final(self).wf(),
            old(self).names().contains(name@) ==> {
                &&& r.is_err()
                &&& E::obeys_from_spec() ==> r == Err::<usize, E>(E::from_spec(Error::Duplicate))
                &&& final(self).resources() == old(self).resources()
                &&& final(self).names() == old(self).names()
            },
            !old(self).names().contains(name@) ==> match r {
                Ok(id) => {
                    &&& id == old(self).resources().len()
                    &&& final(self).names() == old(self).names().push(name@)
                    &&& final(self).resources().len() == id + 1
                    &&& final(self).resources().drop_last() == old(self).resources()
                    &&& create.ensures((), Ok(final(self).resources().last()))
                },
                Err(error) => {
                    &&& create.ensures((), Err(error))
                    &&& final(self).resources() == old(self).resources()
                    &&& final(self).names() == old(self).names()
                },
            },
    {
        match self.id_by_name(name.as_str()) {
            Some(_) => Err(E::from(Error::Duplicate)),
            None => {
                let id = self.buffer.len();
                match create() {
                    Ok(resource) => {
                        self.buffer.push(resource);
                        self.names.push(name);
                        assert(self.names() =~= old(self).names().push(name@));
                        assert(self.resources().drop_last() =~= old(self).resources());
                        Ok(id)
                    },
                    Err(error) => Err(error),
                }
            },
        }
    }
}

} // verus!
