//! Append-only arenas and the typed handles that index them.
//!
//! Type definitions refer to one another through handles, so the handle
//! type sits inside a recursive datatype; it is defined here, as a plain
//! position, so that Verus can see through it.
use vstd::prelude::*;
use std::marker::PhantomData;

verus! {

/// Position `i` moved `off` places along, wrapping past the largest
/// position.
pub open spec fn shift_index(i: nat, off: nat) -> nat {
    if i + off <= usize::MAX {
        i + off
    } else {
        (i + off - usize::MAX - 1) as nat
    }
}

/// A handle to the item at a fixed position of an [`Arena`].
#[derive(Debug)]
pub struct Id<T> {
    idx: usize,
    marker: PhantomData<T>,
}

impl<T> Id<T> {
    /// The position this handle refers to.
    pub closed spec fn spec_index(&self) -> nat {
        self.idx as nat
    }

    pub fn index(&self) -> (r: usize)
        ensures
            r == self.spec_index(),
    {
        self.idx
    }

    /// The handle of position `idx`.
    pub fn from_index(idx: usize) -> (r: Id<T>)
        ensures
            r.spec_index() == idx,
    {
        Id { idx, marker: PhantomData }
    }

    /// This handle moved `off` positions along, wrapping past the largest
    /// position; for handles inside an arena this is plain addition.
    pub fn shifted(&self, off: usize) -> (r: Id<T>)
        ensures
            r.spec_index() == shift_index(self.spec_index(), off as nat),
    {
        let idx = if self.idx <= usize::MAX - off {
            self.idx + off
        } else {
            self.idx - (usize::MAX - off) - 1
        };
        Id { idx, marker: PhantomData }
    }

    /// Handles are equal exactly when their positions are.
    pub broadcast proof fn lemma_index_injective(a: Id<T>, b: Id<T>)
        ensures
            #[trigger] a.spec_index() == #[trigger] b.spec_index() <==> a == b,
    {
        if a.spec_index() == b.spec_index() {
            assert(a.marker == b.marker);
        }
    }
}

impl<T> Clone for Id<T> {
    fn clone(&self) -> (r: Self)
        ensures
            r == *self,
    {
        Id { idx: self.idx, marker: PhantomData }
    }
}

impl<T> Copy for Id<T> {
}

impl<T> PartialEq for Id<T> {
    fn eq(&self, o: &Id<T>) -> (r: bool) {
        self.idx == o.idx
    }
}

impl<T> vstd::std_specs::cmp::PartialEqSpecImpl for Id<T> {
    open spec fn obeys_eq_spec() -> bool {
        true
    }

    open spec fn eq_spec(&self, o: &Id<T>) -> bool {
        self.spec_index() == o.spec_index()
    }
}

impl<T> Eq for Id<T> {
}

/// An append-only collection; the handle of an item is its position, so a
/// clone of the arena keeps every handle valid.
#[derive(Debug, Clone)]
pub struct Arena<T> {
    items: Vec<T>,
}

impl<T> View for Arena<T> {
    type V = Seq<T>;

    closed spec fn view(&self) -> Seq<T> {
        self.items@
    }
}

impl<T> Arena<T> {
    pub fn new() -> (r: Arena<T>)
        ensures
            r@ == Seq::<T>::empty(),
    {
        Arena { items: Vec::new() }
    }

    /// Appends `item` and returns its handle.
    pub fn allocate(&mut self, item: T) -> (r: Id<T>)
        ensures
            final(self)@ == old(self)@.push(item),
            r.spec_index() == old(self)@.len(),
    {
        let idx = self.items.len();
        self.items.push(item);
        Id::from_index(idx)
    }

    /// The item of `id`, or `None` when `id` lies past the end.
    pub fn get(&self, id: Id<T>) -> (r: Option<&T>)
        ensures
            r == (if id.spec_index() < self@.len() {
                Some(&self@[id.spec_index() as int])
            } else {
                None::<&T>
            }),
    {
        if id.idx < self.items.len() {
            Some(&self.items[id.idx])
        } else {
            None
        }
    }

    /// Puts `item` at the position of `id` and returns what was there.
    pub fn replace(&mut self, id: Id<T>, item: T) -> (r: T)
        requires
            id.spec_index() < old(self)@.len(),
        ensures
            final(self)@ == old(self)@.update(id.spec_index() as int, item),
            r == old(self)@[id.spec_index() as int],
    {
        let mut item = item;
        self.items.set_and_swap(id.idx, &mut item);
        item
    }

    /// The items of this arena, in order.
    pub fn into_items(self) -> (r: Vec<T>)
        ensures
            r@ == self@,
    {
        self.items
    }

    pub fn len(&self) -> (r: usize)
        ensures
            r == self@.len(),
    {
        self.items.len()
    }
}

impl<T> Default for Arena<T> {
    fn default() -> (r: Arena<T>)
        ensures
            r@ == Seq::<T>::empty(),
    {
        Arena::new()
    }
}

} // verus!
