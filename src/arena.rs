use vstd::prelude::*;

verus! {

/// A handle into an [`Arena`].
pub type Node = usize;

/// An append-only store of values addressed by [`Node`] handles.
pub struct Arena<T> {
    items: Vec<T>,
}

impl<T> View for Arena<T> {
    type V = Seq<T>;

    closed spec fn view(&self) -> Seq<T> {
        self.items@
    }
}

impl<T> Arena<T> {
    pub fn new() -> (r: Self)
        ensures
            r@ == Seq::<T>::empty(),
    {
        Arena { items: Vec::new() }
    }

    pub fn len(&self) -> (r: usize)
        ensures
            r == self@.len(),
    {
        self.items.len()
    }

    pub fn get(&self, node: Node) -> (r: &T)
        requires
            node < self@.len(),
        ensures
            *r == self@[node as int],
    {
        &self.items[node]
    }

    /// Stores `value` under a fresh handle, the next one in order.
    pub fn add(&mut self, value: T) -> (r: Node)
        ensures
            r == old(self)@.len(),
            final(self)@ == old(self)@.push(value),
    {
        let r = self.items.len();
        self.items.push(value);
        r
    }

    /// Puts `value` under `node` and hands back what was there.
    pub fn replace(&mut self, node: Node, value: T) -> (r: T)
        requires
            node < old(self)@.len(),
        ensures
            r == old(self)@[node as int],
            final(self)@ == old(self)@.update(node as int, value),
    {
        let mut v = value;
        self.items.set_and_swap(node, &mut v);
        v
    }
}

} // verus!
