//! The `World`: columnar storage for entities and their components, and
//! position-aligned join queries over the columns.

use vstd::prelude::*;
use crate::component::Health;
use crate::component::Name;

verus! {

/// The positions, in ascending order, at which both the health slot and the
/// name slot are present. These are exactly the entities a join over
/// `{Health, Name}` yields.
pub open spec fn joined_indices(h: Seq<Option<Health>>, n: Seq<Option<Name>>) -> Seq<int>
    decreases h.len(),
{
    if h.len() == 0 {
        Seq::empty()
    } else {
        let prefix = joined_indices(h.drop_last(), n.drop_last());
        if h.last() is Some && n.last() is Some {
            prefix.push(h.len() - 1)
        } else {
            prefix
        }
    }
}

/// The result of joining the health and name columns by position: one pair
/// per entity whose slots are present in both columns, in ascending entity
/// order, holding the stored values.
pub open spec fn joined_pairs(h: Seq<Option<Health>>, n: Seq<Option<Name>>) -> Seq<(Health, Name)>
    decreases h.len(),
{
    if h.len() == 0 {
        Seq::empty()
    } else {
        let prefix = joined_pairs(h.drop_last(), n.drop_last());
        if h.last() is Some && n.last() is Some {
            prefix.push((h.last()->0, n.last()->0))
        } else {
            prefix
        }
    }
}

/// The positions, in ascending order, at which a single column's slot is
/// present: the entities a join of arity one on that column yields.
pub open spec fn present_indices<T>(c: Seq<Option<T>>) -> Seq<int>
    decreases c.len(),
{
    if c.len() == 0 {
        Seq::empty()
    } else {
        let prefix = present_indices(c.drop_last());
        if c.last() is Some {
            prefix.push(c.len() - 1)
        } else {
            prefix
        }
    }
}

/// The values present in a single column, in ascending entity order: what a
/// join of arity one yields.
pub open spec fn present_values<T>(c: Seq<Option<T>>) -> Seq<T>
    decreases c.len(),
{
    if c.len() == 0 {
        Seq::empty()
    } else {
        let prefix = present_values(c.drop_last());
        if c.last() is Some {
            prefix.push(c.last()->0)
        } else {
            prefix
        }
    }
}

/// Collects the present values of one column, in ascending entity order.
fn collect_present<T: Copy>(c: &Vec<Option<T>>) -> (r: Vec<T>)
    ensures
        r@ == present_values(c@),
{
    let ghost cs = c@;
    let mut r: Vec<T> = Vec::new();
    let mut i: usize = 0;
    let count = c.len();
    while i < count
        invariant
            i <= count,
            count == cs.len(),
            cs == c@,
            r@ == present_values(cs.take(i as int)),
        decreases count - i,
    {
        proof {
            assert(cs.take(i + 1).drop_last() =~= cs.take(i as int));
        }
        if let Some(v) = c[i] {
            r.push(v);
        }
        i = i + 1;
    }
    proof {
        assert(cs.take(count as int) =~= cs);
    }
    r
}

/// The aggregate owner of all component columns.
///
/// Each column holds one slot per entity: entity `i` is the `i`-th slot of
/// every column. All columns always have the same length ([`World::wf`]),
/// growing in lockstep through [`World::new_entity`] alone.
pub struct World {
    pub health_components: Vec<Option<Health>>,
    pub name_components: Vec<Option<Name>>,
}

impl World {
    /// The central invariant: every column has one slot per entity, so all
    /// columns have equal length.
    pub open spec fn wf(self) -> bool {
        self.health_components@.len() == self.name_components@.len()
    }

    /// How many entities have been created.
    pub open spec fn entity_count(self) -> nat {
        self.health_components@.len()
    }

    /// Returns a store with zero entities: every column is empty.
    pub fn new() -> (w: World)
        ensures
            w.wf(),
            w.entity_count() == 0,
            w.health_components@.len() == 0,
            w.name_components@.len() == 0,
    {
        World { health_components: Vec::new(), name_components: Vec::new() }
    }

    /// Creates one entity: appends exactly one slot, present or absent as
    /// supplied, to every column. Cannot fail; `None` is a first-class slot
    /// state, so an entity may lack any subset of component types.
    pub fn new_entity(&mut self, health: Option<Health>, name: Option<Name>)
        ensures
            final(self).health_components@ == old(self).health_components@.push(health),
            final(self).name_components@ == old(self).name_components@.push(name),
            final(self).entity_count() == old(self).entity_count() + 1,
            old(self).wf() ==> final(self).wf(),
    {
        self.health_components.push(health);
        self.name_components.push(name);
    }

    /// Joins the health and name columns by position: yields, in ascending
    /// entity order, one `(Health, Name)` pair for each entity that has both
    /// components present. Entities lacking either component are excluded
    /// entirely. Read-only; an empty result is valid, not an error.
    pub fn query_health_name(&self) -> (r: Vec<(Health, Name)>)
        requires
            self.wf(),
        ensures
            r@ == joined_pairs(self.health_components@, self.name_components@),
    {
        let ghost hs = self.health_components@;
        let ghost ns = self.name_components@;
        let mut r: Vec<(Health, Name)> = Vec::new();
        let mut i: usize = 0;
        let count = self.health_components.len();
        while i < count
            invariant
                i <= count,
                count == hs.len(),
                hs == self.health_components@,
                ns == self.name_components@,
                hs.len() == ns.len(),
                r@ == joined_pairs(hs.take(i as int), ns.take(i as int)),
            decreases count - i,
        {
            let hslot = self.health_components[i];
            let nslot = self.name_components[i];
            proof {
                assert(hs.take(i + 1).drop_last() =~= hs.take(i as int));
                assert(ns.take(i + 1).drop_last() =~= ns.take(i as int));
            }
            if let (Some(h), Some(nm)) = (hslot, nslot) {
                r.push((h, nm));
            }
            i = i + 1;
        }
        proof {
            assert(hs.take(count as int) =~= hs);
            assert(ns.take(count as int) =~= ns);
        }
        r
    }

    /// The join of arity one on the health column: yields, in ascending
    /// entity order, the health value of every entity that has one.
    pub fn query_health(&self) -> (r: Vec<Health>)
        ensures
            r@ == present_values(self.health_components@),
    {
        collect_present(&self.health_components)
    }

    /// The join of arity one on the name column: yields, in ascending
    /// entity order, the name of every entity that has one.
    pub fn query_name(&self) -> (r: Vec<Name>)
        ensures
            r@ == present_values(self.name_components@),
    {
        collect_present(&self.name_components)
    }
}

/// Join correctness and order. An entity appears in the join over
/// `{Health, Name}` if and only if both of its slots are present; the pair
/// yielded for it holds exactly the stored values; and the yielded pairs are
/// ordered by strictly ascending entity index.
pub proof fn lemma_join_characterization(h: Seq<Option<Health>>, n: Seq<Option<Name>>)
    requires
        h.len() == n.len(),
    ensures
        joined_pairs(h, n).len() == joined_indices(h, n).len(),
        joined_pairs(h, n).len() <= h.len(),
        forall|k: int|
            0 <= k < joined_indices(h, n).len() ==> {
                let i = #[trigger] joined_indices(h, n)[k];
                &&& 0 <= i < h.len()
                &&& h[i] is Some
                &&& n[i] is Some
                &&& joined_pairs(h, n)[k] == (h[i]->0, n[i]->0)
            },
        forall|i: int|
            0 <= i < h.len() && h[i] is Some && n[i] is Some ==> joined_indices(h, n).contains(
                i,
            ),
        forall|k1: int, k2: int|
            0 <= k1 < k2 < joined_indices(h, n).len() ==> #[trigger] joined_indices(h, n)[k1]
                < #[trigger] joined_indices(h, n)[k2],
    decreases h.len(),
{
    broadcast use vstd::seq_lib::lemma_seq_contains_after_push;

    if h.len() == 0 {
    } else {
        let hp = h.drop_last();
        let np = n.drop_last();
        lemma_join_characterization(hp, np);
        assert(forall|i: int| 0 <= i < hp.len() ==> hp[i] == h[i]);
        assert(forall|i: int| 0 <= i < np.len() ==> np[i] == n[i]);
    }
}

/// Join correctness for a join of arity one. An entity appears in the query
/// on one column if and only if its slot there is present; the value yielded
/// for it is exactly the stored value; and the yielded values are ordered by
/// strictly ascending entity index.
pub proof fn lemma_present_characterization<T>(c: Seq<Option<T>>)
    ensures
        present_values(c).len() == present_indices(c).len(),
        present_values(c).len() <= c.len(),
        forall|k: int|
            0 <= k < present_indices(c).len() ==> {
                let i = #[trigger] present_indices(c)[k];
                &&& 0 <= i < c.len()
                &&& c[i] is Some
                &&& present_values(c)[k] == c[i]->0
            },
        forall|i: int| 0 <= i < c.len() && c[i] is Some ==> present_indices(c).contains(i),
        forall|k1: int, k2: int|
            0 <= k1 < k2 < present_indices(c).len() ==> #[trigger] present_indices(c)[k1]
                < #[trigger] present_indices(c)[k2],
    decreases c.len(),
{
    broadcast use vstd::seq_lib::lemma_seq_contains_after_push;

    if c.len() == 0 {
    } else {
        let cp = c.drop_last();
        lemma_present_characterization(cp);
        assert(forall|i: int| 0 <= i < cp.len() ==> cp[i] == c[i]);
    }
}

/// Idempotence of read: a query is a function of the stored columns alone,
/// so two reads of the same store without an intervening mutation yield the
/// same sequence, in the same order, with the same values.
pub proof fn lemma_query_idempotent(
    w: World,
    r1: Seq<(Health, Name)>,
    r2: Seq<(Health, Name)>,
)
    requires
        r1 == joined_pairs(w.health_components@, w.name_components@),
        r2 == joined_pairs(w.health_components@, w.name_components@),
    ensures
        r1 == r2,
{
}

/// Boundary: a store with zero entities yields an empty sequence for every
/// query, of any arity.
pub proof fn lemma_empty_world_queries(w: World)
    requires
        w.wf(),
        w.entity_count() == 0,
    ensures
        joined_pairs(w.health_components@, w.name_components@).len() == 0,
        present_values(w.health_components@).len() == 0,
        present_values(w.name_components@).len() == 0,
{
}

} // verus!
