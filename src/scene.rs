use vstd::prelude::*;

verus! {

/// The objects of a scene, in the order they were added, with the counter
/// from which each new object takes its id. Objects are added and changed
/// in place, never removed.
#[derive(Clone, Debug)]
pub struct ObjectArena<O> {
    next_id: usize,
    objs: Vec<O>,
}

impl<O> ObjectArena<O> {
    /// The objects, in the order they were added.
    pub closed spec fn view(&self) -> Seq<O> {
        self.objs@
    }

    /// The id the next new object gets.
    pub closed spec fn spec_next_id(&self) -> nat {
        self.next_id as nat
    }

    /// An arena with no objects, whose first id is 0.
    pub fn new() -> (arena: Self)
        ensures
            arena@ == Seq::<O>::empty(),
            arena.spec_next_id() == 0,
    {
        ObjectArena { next_id: 0, objs: Vec::new() }
    }

    pub fn next_id(&self) -> (id: usize)
        ensures
            id == self.spec_next_id(),
    {
        self.next_id
    }

    /// Hands out a fresh id: every call returns the id after the one before,
    /// so ids are unique and increasing.
    pub fn new_id(&mut self) -> (id: usize)
        requires
            old(self).spec_next_id() < usize::MAX,
        ensures
            id == old(self).spec_next_id(),
            final(self).spec_next_id() == old(self).spec_next_id() + 1,
            final(self)@ == old(self)@,
    {
        let id = self.next_id;
        self.next_id = self.next_id + 1;
        id
    }

    pub fn objects(&self) -> (objs: &Vec<O>)
        ensures
            objs@ == self@,
    {
        &self.objs
    }

    /// Appends an object.
    pub fn add_object(&mut self, obj: O)
        ensures
            final(self)@ == old(self)@.push(obj),
            final(self).spec_next_id() == old(self).spec_next_id(),
    {
        self.objs.push(obj);
    }

    /// The object at `index`, to change in place.
    pub fn get_object_mut(&mut self, index: usize) -> (obj: &mut O)
        requires
            index < old(self)@.len(),
        ensures
            *obj == old(self)@[index as int],
            final(self)@ == old(self)@.update(index as int, *final(obj)),
            final(self).spec_next_id() == old(self).spec_next_id(),
    {
        &mut self.objs[index]
    }
}

} // verus!
