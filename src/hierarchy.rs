use vstd::prelude::*;
use crate::components::Parent;
use crate::store::{Entity, TableView};
use crate::world::{World, WorldView};

verus! {

/// Following child-of links from `e` at most `steps` times reaches `root`.
pub open spec fn reaches(parents: Map<usize, Parent>, e: usize, root: usize, steps: nat) -> bool
    decreases steps,
{
    e == root || (steps > 0 && parents.dom().contains(e) && reaches(
        parents,
        parents[e].parent.id,
        root,
        (steps - 1) as nat,
    ))
}

/// `e` is `root` or hangs, directly or through other entities, under `root`.
pub open spec fn in_subtree(parents: Map<usize, Parent>, e: usize, root: usize) -> bool {
    exists|steps: nat| reaches(parents, e, root, steps)
}

/// A table without the rows of the entities in the subtree of `root`.
pub open spec fn without_subtree<T>(t: TableView<T>, parents: Map<usize, Parent>, root: usize) -> TableView<T> {
    TableView {
        registered: t.registered,
        rows: t.rows.restrict(t.rows.dom().filter(|k: usize| !in_subtree(parents, k, root))),
    }
}

/// The store after deleting `root` and every entity that hangs under it.
pub open spec fn delete_subtree(v: WorldView, root: usize) -> WorldView {
    let p = v.parents.rows;
    WorldView {
        next_id: v.next_id,
        transforms: without_subtree(v.transforms, p, root),
        sprites: without_subtree(v.sprites, p, root),
        tints: without_subtree(v.tints, p, root),
        cameras: without_subtree(v.cameras, p, root),
        parents: without_subtree(v.parents, p, root),
        platforms: without_subtree(v.platforms, p, root),
        resources: without_subtree(v.resources, p, root),
        units: without_subtree(v.units, p, root),
    }
}

/// Why a subtree could not be deleted.
#[derive(Clone, Copy, Debug, PartialEq, Eq, Structural)]
pub enum HierarchyError {
    /// The root was never created.
    UnknownEntity,
}

pub open spec fn count_true(s: Seq<bool>) -> nat
    decreases s.len(),
{
    if s.len() == 0 {
        0
    } else {
        count_true(s.drop_last()) + (if s.last() { 1nat } else { 0nat })
    }
}

proof fn lemma_count_true_bound(s: Seq<bool>)
    ensures
        count_true(s) <= s.len(),
    decreases s.len(),
{
    if s.len() > 0 {
        lemma_count_true_bound(s.drop_last());
    }
}

proof fn lemma_count_true_set(s: Seq<bool>, i: int)
    requires
        0 <= i < s.len(),
        !s[i],
    ensures
        count_true(s.update(i, true)) == count_true(s) + 1,
    decreases s.len(),
{
    if i < s.len() - 1 {
        lemma_count_true_set(s.drop_last(), i);
        assert(s.update(i, true).drop_last() =~= s.drop_last().update(i, true));
    } else {
        assert(s.update(i, true).drop_last() =~= s.drop_last());
    }
}

/// Along a chain of `steps` links from a marked-closed set, every entity that
/// reaches `root` is marked.
proof fn lemma_closed_marks_subtree(
    parents: Map<usize, Parent>,
    marked: Seq<bool>,
    root: usize,
    e: usize,
    steps: nat,
)
    requires
        (root as int) < marked.len(),
        marked[root as int],
        forall|k: usize| #[trigger] parents.dom().contains(k) ==> (k as int) < marked.len(),
        forall|k: usize|
            (k as int) < marked.len() && parents.dom().contains(k) && (parents[k].parent.id as int)
                < marked.len() && marked[parents[k].parent.id as int] ==> #[trigger] marked[k as int],
        reaches(parents, e, root, steps),
    ensures
        (e as int) < marked.len() && marked[e as int],
    decreases steps,
{
    if e != root {
        lemma_closed_marks_subtree(parents, marked, root, parents[e].parent.id, (steps - 1) as nat);
    }
}

/// A table without the rows of the marked entities below id `k`.
pub open spec fn without_marked<T>(t: TableView<T>, marked: Seq<bool>, k: int) -> TableView<T> {
    TableView {
        registered: t.registered,
        rows: t.rows.restrict(t.rows.dom().filter(|e: usize| !((e as int) < k && marked[e as int]))),
    }
}

proof fn lemma_without_marked_step<T>(t: TableView<T>, marked: Seq<bool>, k: int)
    requires
        0 <= k < marked.len(),
        marked.len() <= usize::MAX,
    ensures
        marked[k] ==> without_marked(t, marked, k + 1) == (TableView {
            registered: t.registered,
            rows: without_marked(t, marked, k).rows.remove(k as usize),
        }),
        !marked[k] ==> without_marked(t, marked, k + 1) == without_marked(t, marked, k),
{
    if marked[k] {
        assert(without_marked(t, marked, k + 1).rows =~= without_marked(t, marked, k).rows.remove(k as usize));
    } else {
        assert(without_marked(t, marked, k + 1).rows =~= without_marked(t, marked, k).rows);
    }
}

proof fn lemma_without_marked_none<T>(t: TableView<T>, marked: Seq<bool>)
    ensures
        without_marked(t, marked, 0) == t,
{
    assert(without_marked(t, marked, 0).rows =~= t.rows);
}

proof fn lemma_without_marked_done<T>(
    t: TableView<T>,
    marked: Seq<bool>,
    n: nat,
    parents: Map<usize, Parent>,
    root: usize,
)
    requires
        marked.len() == n,
        crate::world::rows_below(t, n),
        forall|e: usize| in_subtree(parents, e, root) ==> (e as int) < n && #[trigger] marked[e as int],
        forall|e: usize| (e as int) < n && #[trigger] marked[e as int] ==> in_subtree(parents, e, root),
    ensures
        without_marked(t, marked, n as int) == without_subtree(t, parents, root),
{
    assert(without_marked(t, marked, n as int).rows =~= without_subtree(t, parents, root).rows);
}

impl World {
    /// Deletes `root` and every entity that hangs under it through child-of
    /// links: all their components are removed. Fails, changing nothing, when
    /// `root` was never created.
    pub fn delete_hierarchy(&mut self, root: Entity) -> (r: Result<(), HierarchyError>)
        requires
            old(self).wf(),
        ensures
            final(self).wf(),
            (root.id as int) < old(self)@.next_id <==> r is Ok,
            r is Ok ==> final(self)@ == delete_subtree(old(self)@, root.id),
            r is Err ==> final(self)@ == old(self)@,
    {
        let n = self.next_id;
        if root.id >= n {
            return Err(HierarchyError::UnknownEntity);
        }
        let ghost p = self@.parents.rows;
        let mut marked: Vec<bool> = Vec::new();
        let mut i: usize = 0;
        while i < n
            invariant
                i <= n,
                marked@.len() == i,
                forall|j: int| 0 <= j < i ==> marked@[j] == (j == root.id),
            decreases n - i,
        {
            marked.push(i == root.id);
            i = i + 1;
        }
        assert(reaches(p, root.id, root.id, 0));
        loop
            invariant
                n == self.next_id,
                p == self@.parents.rows,
                self@ == old(self)@,
                self.wf(),
                (root.id as int) < n,
                marked@.len() == n,
                marked@[root.id as int],
                forall|k: usize| (k as int) < n && #[trigger] marked@[k as int] ==> in_subtree(p, k, root.id),
            ensures
                marked@.len() == n,
                self@ == old(self)@,
                self.wf(),
                forall|e: usize| in_subtree(p, e, root.id) ==> (e as int) < n && #[trigger] marked@[e as int],
                forall|e: usize| (e as int) < n && #[trigger] marked@[e as int] ==> in_subtree(p, e, root.id),
            decreases n - count_true(marked@),
        {
            proof { lemma_count_true_bound(marked@); }
            let mut changed: bool = false;
            let ghost count0 = count_true(marked@);
            let mut k: usize = 0;
            while k < n
                invariant
                    n == self.next_id,
                    p == self@.parents.rows,
                    self@ == old(self)@,
                    self.wf(),
                    (root.id as int) < n,
                    k <= n,
                    marked@.len() == n,
                    marked@[root.id as int],
                    forall|j: usize| (j as int) < n && #[trigger] marked@[j as int] ==> in_subtree(p, j, root.id),
                    changed ==> count_true(marked@) > count0,
                    !changed ==> count_true(marked@) == count0,
                    !changed ==> forall|j: usize|
                        (j as int) < k && p.dom().contains(j) && (p[j].parent.id as int) < n
                            && marked@[p[j].parent.id as int] ==> #[trigger] marked@[j as int],
                decreases n - k,
            {
                if !marked[k] {
                    match self.parents.get(Entity { id: k }) {
                        Some(par) => {
                            if par.parent.id < n && marked[par.parent.id] {
                                proof {
                                    let s = choose|s: nat| reaches(p, par.parent.id, root.id, s);
                                    assert(reaches(p, k, root.id, s + 1));
                                    lemma_count_true_set(marked@, k as int);
                                }
                                marked.set(k, true);
                                changed = true;
                            }
                        },
                        None => {},
                    }
                }
                k = k + 1;
            }
            if !changed {
                proof {
                    assert forall|e: usize| in_subtree(p, e, root.id) implies (e as int) < n
                        && #[trigger] marked@[e as int] by {
                        let s = choose|s: nat| reaches(p, e, root.id, s);
                        lemma_closed_marks_subtree(p, marked@, root.id, e, s);
                    }
                }
                break;
            }
            proof { lemma_count_true_bound(marked@); }
        }
        proof {
            let o = old(self)@;
            lemma_without_marked_none(o.transforms, marked@);
            lemma_without_marked_none(o.sprites, marked@);
            lemma_without_marked_none(o.tints, marked@);
            lemma_without_marked_none(o.cameras, marked@);
            lemma_without_marked_none(o.parents, marked@);
            lemma_without_marked_none(o.platforms, marked@);
            lemma_without_marked_none(o.resources, marked@);
            lemma_without_marked_none(o.units, marked@);
        }
        let mut k: usize = 0;
        while k < n
            invariant
                n == self.next_id,
                k <= n,
                marked@.len() == n,
                self.wf(),
                forall|e: usize| in_subtree(p, e, root.id) ==> (e as int) < n && #[trigger] marked@[e as int],
                forall|e: usize| (e as int) < n && #[trigger] marked@[e as int] ==> in_subtree(p, e, root.id),
                self@.next_id == old(self)@.next_id,
                self@.transforms == without_marked(old(self)@.transforms, marked@, k as int),
                self@.sprites == without_marked(old(self)@.sprites, marked@, k as int),
                self@.tints == without_marked(old(self)@.tints, marked@, k as int),
                self@.cameras == without_marked(old(self)@.cameras, marked@, k as int),
                self@.parents == without_marked(old(self)@.parents, marked@, k as int),
                self@.platforms == without_marked(old(self)@.platforms, marked@, k as int),
                self@.resources == without_marked(old(self)@.resources, marked@, k as int),
                self@.units == without_marked(old(self)@.units, marked@, k as int),
            decreases n - k,
        {
            proof {
                lemma_without_marked_step(old(self)@.transforms, marked@, k as int);
                lemma_without_marked_step(old(self)@.sprites, marked@, k as int);
                lemma_without_marked_step(old(self)@.tints, marked@, k as int);
                lemma_without_marked_step(old(self)@.cameras, marked@, k as int);
                lemma_without_marked_step(old(self)@.parents, marked@, k as int);
                lemma_without_marked_step(old(self)@.platforms, marked@, k as int);
                lemma_without_marked_step(old(self)@.resources, marked@, k as int);
                lemma_without_marked_step(old(self)@.units, marked@, k as int);
            }
            if marked[k] {
                let e = Entity { id: k };
                self.transforms.remove(e);
                self.sprites.remove(e);
                self.tints.remove(e);
                self.cameras.remove(e);
                self.parents.remove(e);
                self.platforms.remove(e);
                self.resources.remove(e);
                self.units.remove(e);
            }
            k = k + 1;
        }
        proof {
            let m = marked@;
            let nn = n as nat;
            let o = old(self)@;
            lemma_without_marked_done(o.transforms, m, nn, p, root.id);
            lemma_without_marked_done(o.sprites, m, nn, p, root.id);
            lemma_without_marked_done(o.tints, m, nn, p, root.id);
            lemma_without_marked_done(o.cameras, m, nn, p, root.id);
            lemma_without_marked_done(o.parents, m, nn, p, root.id);
            lemma_without_marked_done(o.platforms, m, nn, p, root.id);
            lemma_without_marked_done(o.resources, m, nn, p, root.id);
            lemma_without_marked_done(o.units, m, nn, p, root.id);
        }
        Ok(())
    }
}

} // verus!
