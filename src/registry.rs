//! The in-memory registry of plants: an ordered sequence whose identifiers
//! are unique.
use vstd::prelude::*;
use crate::models::{Plant, PlantView};

verus! {

/// No two plants share an identifier.
pub open spec fn ids_unique(s: Seq<PlantView>) -> bool {
    forall|i: int, j: int|
        0 <= i < s.len() && 0 <= j < s.len() && #[trigger] s[i].id == #[trigger] s[j].id ==> i
            == j
}

/// Some plant has identifier `id`.
pub open spec fn has_id(s: Seq<PlantView>, id: u128) -> bool {
    exists|i: int| 0 <= i < s.len() && #[trigger] s[i].id == id
}

/// The position of the plant with identifier `id` (meaningful when
/// `has_id(s, id)`).
pub open spec fn index_of(s: Seq<PlantView>, id: u128) -> int {
    choose|i: int| 0 <= i < s.len() && #[trigger] s[i].id == id
}

/// With unique identifiers, the plant found at `i` is the one `index_of` names.
pub proof fn lemma_index_of(s: Seq<PlantView>, id: u128, i: int)
    requires
        ids_unique(s),
        0 <= i < s.len(),
        s[i].id == id,
    ensures
        has_id(s, id),
        index_of(s, id) == i,
{
    assert(has_id(s, id));
    let k = index_of(s, id);
    assert(s[k].id == s[i].id);
}

pub open spec fn plant_views(v: Seq<Plant>) -> Seq<PlantView> {
    v.map_values(|p: Plant| p@)
}

/// All plants of the running process, in insertion order.
pub struct Registry {
    plants: Vec<Plant>,
}

impl View for Registry {
    type V = Seq<PlantView>;

    closed spec fn view(&self) -> Seq<PlantView> {
        plant_views(self.plants@)
    }
}

impl Registry {
    /// The registry's invariant: identifiers are unique.
    pub open spec fn wf(&self) -> bool {
        ids_unique(self@)
    }

    /// An empty registry.
    pub fn new() -> (r: Registry)
        ensures
            r.wf(),
            r@ == Seq::<PlantView>::empty(),
    {
        let r = Registry { plants: Vec::new() };
        assert(r@ =~= Seq::<PlantView>::empty());
        r
    }

    /// Builds a registry from a loaded collection; `None` when two plants
    /// share an identifier.
    pub fn from_plants(plants: Vec<Plant>) -> (r: Option<Registry>)
        ensures
            r is Some <==> ids_unique(plant_views(plants@)),
            r is Some ==> r->0.wf() && r->0@ == plant_views(plants@),
    {
        let n = plants.len();
        let mut i: usize = 0;
        while i < n
            invariant
                n == plants.len(),
                i <= n,
                ids_unique(plant_views(plants@.take(i as int))),
            decreases n - i,
        {
            let mut j: usize = 0;
            while j < i
                invariant
                    n == plants.len(),
                    j <= i < n,
                    forall|k: int| 0 <= k < j ==> plants@[k].id != plants@[i as int].id,
                decreases i - j,
            {
                if plants[j].id == plants[i].id {
                    proof {
                        let s = plant_views(plants@);
                        assert(s[j as int].id == s[i as int].id);
                    }
                    return None;
                }
                j += 1;
            }
            proof {
                let s = plant_views(plants@.take(i + 1));
                let t = plant_views(plants@.take(i as int));
                assert forall|a: int, b: int|
                    0 <= a < s.len() && 0 <= b < s.len() && #[trigger] s[a].id
                        == #[trigger] s[b].id implies a == b by {
                    if a < i && b < i {
                        assert(s[a] == t[a] && s[b] == t[b]);
                    }
                }
            }
            i += 1;
        }
        assert(plants@.take(n as int) =~= plants@);
        let r = Registry { plants };
        Some(r)
    }

    /// Number of plants.
    pub fn len(&self) -> (r: usize)
        ensures
            r == self@.len(),
    {
        self.plants.len()
    }

    /// Position of the plant with identifier `id` (a linear scan).
    pub fn find_index(&self, id: u128) -> (r: Option<usize>)
        requires
            self.wf(),
        ensures
            r is Some <==> has_id(self@, id),
            r is Some ==> r->0 < self@.len() && self@[r->0 as int].id == id && r->0 == index_of(
                self@,
                id,
            ),
    {
        let mut i: usize = 0;
        while i < self.plants.len()
            invariant
                self.wf(),
                i <= self.plants.len(),
                forall|k: int| 0 <= k < i ==> self@[k].id != id,
            decreases self.plants.len() - i,
        {
            if self.plants[i].id == id {
                proof {
                    lemma_index_of(self@, id, i as int);
                }
                return Some(i);
            }
            i += 1;
        }
        None
    }

    /// The plant at position `i`.
    pub fn get(&self, i: usize) -> (r: &Plant)
        requires
            i < self@.len(),
        ensures
            r@ == self@[i as int],
    {
        &self.plants[i]
    }

    /// Appends a plant.
    pub fn push(&mut self, p: Plant)
        requires
            old(self).wf(),
            !has_id(old(self)@, p.id),
        ensures
            final(self).wf(),
            final(self)@ == old(self)@.push(p@),
    {
        let ghost pv = p@;
        self.plants.push(p);
        assert(self@ =~= old(self)@.push(pv));
    }

    /// Replaces the plant at position `i` by one with the same identifier.
    pub fn set(&mut self, i: usize, p: Plant)
        requires
            old(self).wf(),
            i < old(self)@.len(),
            p.id == old(self)@[i as int].id,
        ensures
            final(self).wf(),
            final(self)@ == old(self)@.update(i as int, p@),
    {
        let ghost pv = p@;
        self.plants.set(i, p);
        assert(self@ =~= old(self)@.update(i as int, pv));
        assert(self.wf()) by {
            let s = self@;
            assert forall|a: int, b: int|
                0 <= a < s.len() && 0 <= b < s.len() && #[trigger] s[a].id == #[trigger] s[b].id implies a
                    == b by {
                assert(old(self)@[a].id == s[a].id && old(self)@[b].id == s[b].id);
            }
        }
    }

    /// Removes the plant at position `i`.
    pub fn remove(&mut self, i: usize)
        requires
            old(self).wf(),
            i < old(self)@.len(),
        ensures
            final(self).wf(),
            final(self)@ == old(self)@.remove(i as int),
    {
        self.plants.remove(i);
        assert(self@ =~= old(self)@.remove(i as int));
        assert(self.wf()) by {
            let s = self@;
            let o = old(self)@;
            assert forall|a: int, b: int|
                0 <= a < s.len() && 0 <= b < s.len() && #[trigger] s[a].id == #[trigger] s[b].id implies a
                    == b by {
                let a2 = if a < i { a } else { a + 1 };
                let b2 = if b < i { b } else { b + 1 };
                assert(o[a2].id == s[a].id && o[b2].id == s[b].id);
            }
        }
    }

    /// A copy of every plant, in order.
    pub fn snapshot(&self) -> (r: Vec<Plant>)
        ensures
            plant_views(r@) == self@,
    {
        let mut r: Vec<Plant> = Vec::new();
        let mut i: usize = 0;
        while i < self.plants.len()
            invariant
                i <= self.plants.len(),
                r.len() == i,
                forall|j: int| 0 <= j < i ==> (#[trigger] r@[j])@ == self@[j],
            decreases self.plants.len() - i,
        {
            r.push(self.plants[i].clone());
            i += 1;
        }
        assert(plant_views(r@) =~= self@);
        r
    }
}

} // verus!
