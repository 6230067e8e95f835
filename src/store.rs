use vstd::prelude::*;

verus! {

/// An opaque identifier: a join key across component tables.
#[derive(Clone, Copy, Debug, PartialEq, Eq, Structural)]
pub struct Entity {
    pub id: usize,
}

/// Dense storage for one component type, indexed by entity id.
pub struct ComponentTable<T> {
    pub registered: bool,
    pub slots: Vec<Option<T>>,
}

/// What a table holds: whether it was registered, and the row of each entity id.
pub ghost struct TableView<T> {
    pub registered: bool,
    pub rows: Map<usize, T>,
}

impl<T: Copy> ComponentTable<T> {
    pub open spec fn view(&self) -> TableView<T> {
        TableView { registered: self.registered, rows: self.contents() }
    }

    /// The table's contents: the component attached to each entity id.
    pub open spec fn contents(&self) -> Map<usize, T> {
        Map::new(
            |k: usize| (k as int) < self.slots@.len() && self.slots@[k as int] is Some,
            |k: usize| self.slots@[k as int]->Some_0,
        )
    }

    pub open spec fn has(&self, e: Entity) -> bool {
        self.contents().dom().contains(e.id)
    }

    pub fn new() -> (r: Self)
        ensures
            !r.registered,
            r.contents() == Map::<usize, T>::empty(),
    {
        let r = ComponentTable { registered: false, slots: Vec::new() };
        assert(r.contents() =~= Map::<usize, T>::empty());
        r
    }

    /// Allocates the table if absent; a second registration changes nothing.
    pub fn register(&mut self)
        ensures
            final(self).registered,
            final(self).contents() == old(self).contents(),
    {
        self.registered = true;
    }

    /// Inserts or overwrites the component of entity `e`.
    pub fn attach(&mut self, e: Entity, c: T)
        requires
            old(self).registered,
        ensures
            final(self).registered,
            final(self).contents() == old(self).contents().insert(e.id, c),
    {
        let ghost before = self.contents();
        let target: usize = e.id;
        while self.slots.len() <= target
            invariant
                self.contents() == before,
                self.registered,
            decreases target + 1 - self.slots.len(),
        {
            self.slots.push(None);
            assert(self.contents() =~= before);
        }
        self.slots.set(target, Some(c));
        assert(self.contents() =~= before.insert(e.id, c));
    }

    pub fn get(&self, e: Entity) -> (r: Option<T>)
        ensures
            r == (if self.has(e) { Some(self.contents()[e.id]) } else { None::<T> }),
    {
        let k: usize = e.id;
        if k < self.slots.len() {
            self.slots[k]
        } else {
            None
        }
    }

    /// Removes the component of entity `e`, if any.
    pub fn remove(&mut self, e: Entity)
        ensures
            final(self).registered == old(self).registered,
            final(self).contents() == old(self).contents().remove(e.id),
    {
        let ghost before = self.contents();
        let k: usize = e.id;
        if k < self.slots.len() {
            self.slots.set(k, None);
        }
        assert(self.contents() =~= before.remove(e.id));
    }
}

} // verus!

verus! {

/// The table after registering it and attaching `c` to entity id `e`.
pub open spec fn put<T>(t: TableView<T>, e: usize, c: T) -> TableView<T> {
    TableView { registered: true, rows: t.rows.insert(e, c) }
}

} // verus!
