//! The store: entity registry, ownership indexes, and the genealogy graph.
//!
//! Entities are identified by dense IDs `0, 1, 2, ...`, so the registry is an
//! arena: per-entity data lives in vectors indexed by ID. The two relations
//! keyed by sparse values — holdings per owner account, and children per
//! parent pair — live in hash maps.

use std::collections::HashMap;
use vstd::prelude::*;

use crate::events::Error;
use crate::genes::Kitty;

verus! {

broadcast use vstd::std_specs::hash::group_hash_axioms;

/// The key under which the children of the parent pair `(father, mother)`
/// are stored: the pair packed into one integer, high half the father.
pub open spec fn pair_key(father: u32, mother: u32) -> u64 {
    (father as u64 * 0x1_0000_0000 + mother as u64) as u64
}

/// Packing an ordered pair of IDs into a key loses nothing: equal keys mean
/// equal pairs.
pub proof fn lemma_pair_key_injective(f1: u32, m1: u32, f2: u32, m2: u32)
    ensures
        pair_key(f1, m1) == pair_key(f2, m2) ==> f1 == f2 && m1 == m2,
{
    assert(pair_key(f1, m1) == pair_key(f2, m2) ==> f1 == f2 && m1 == m2) by (nonlinear_arith);
}

/// `s` with every occurrence of `id` deleted: exact-match removal, keeping
/// everything else in order.
pub open spec fn sans(s: Seq<u32>, id: u32) -> Seq<u32> {
    s.filter(|x: u32| x != id)
}

/// Extending a sequence by one element extends its exact-match removal by
/// that element exactly when the element is not the one removed.
pub proof fn lemma_sans_push(s: Seq<u32>, x: u32, id: u32)
    ensures
        sans(s.push(x), id) == if x != id {
            sans(s, id).push(x)
        } else {
            sans(s, id)
        },
{
    reveal_with_fuel(Seq::filter, 2);
    assert(s.push(x).drop_last() =~= s);
    assert(s.push(x).last() == x);
    if x != id {
        assert(sans(s.push(x), id) =~= sans(s, id).push(x));
    } else {
        assert(sans(s.push(x), id) =~= sans(s, id));
    }
}

/// Exact-match removal of an element that does not occur leaves the
/// sequence as it was.
pub proof fn lemma_sans_noop(s: Seq<u32>, id: u32)
    requires
        forall|i: int| 0 <= i < s.len() ==> #[trigger] s[i] != id,
    ensures
        sans(s, id) == s,
    decreases s.len(),
{
    if s.len() == 0 {
        reveal_with_fuel(Seq::filter, 1);
        assert(sans(s, id) =~= s);
    } else {
        assert forall|i: int| 0 <= i < s.drop_last().len() implies #[trigger] s.drop_last()[i]
            != id by {
            assert(s[i] != id);
        }
        lemma_sans_noop(s.drop_last(), id);
        lemma_sans_push(s.drop_last(), s.last(), id);
        assert(s.drop_last().push(s.last()) =~= s);
    }
}

/// Entities existing in `pre` keep their genetic codes and owners in `post`.
pub open spec fn unchanged_entities(pre: Module, post: Module) -> bool {
    &&& forall|id: int| 0 <= id < pre.count() ==> #[trigger] post.dna_of(id) == pre.dna_of(id)
    &&& forall|id: int|
        0 <= id < pre.count() ==> #[trigger] post.owner_of(id) == pre.owner_of(id)
}

/// Every owner holds in `post` exactly what it held in `pre`.
pub open spec fn unchanged_holdings(pre: Module, post: Module) -> bool {
    forall|o: u64| #[trigger] post.holdings_of(o) == pre.holdings_of(o)
}

/// Entities existing in `pre` keep their parent pairs in `post`.
pub open spec fn unchanged_parents(pre: Module, post: Module) -> bool {
    forall|id: int| 0 <= id < pre.count() ==> #[trigger] post.parents_of(id) == pre.parents_of(id)
}

/// Every parent pair has in `post` exactly the children it had in `pre`.
pub open spec fn unchanged_children(pre: Module, post: Module) -> bool {
    forall|f: u32, m: u32| #[trigger] post.children_of(f, m) == pre.children_of(f, m)
}

/// Entities existing in `pre` keep their sibling snapshots in `post`.
pub open spec fn unchanged_siblings(pre: Module, post: Module) -> bool {
    forall|id: int| 0 <= id < pre.count() ==> #[trigger] post.siblings_of(id) == pre.siblings_of(id)
}

/// Entities existing in `pre` keep their partner lists in `post`.
pub open spec fn unchanged_partners(pre: Module, post: Module) -> bool {
    forall|id: int| 0 <= id < pre.count() ==> #[trigger] post.partners_of(id) == pre.partners_of(id)
}

/// The whole genealogy of the entities existing in `pre` is the same in
/// `post`: parent pairs, children lists, sibling snapshots, partner lists.
pub open spec fn unchanged_genealogy(pre: Module, post: Module) -> bool {
    &&& unchanged_parents(pre, post)
    &&& unchanged_children(pre, post)
    &&& unchanged_siblings(pre, post)
    &&& unchanged_partners(pre, post)
}

/// The whole ledger state: entity store, ownership index, genealogy graph,
/// and the monotonic ID counter. Threaded explicitly through every
/// operation so each transition acts on one owned state.
pub struct Module {
    /// The next ID to assign; equals the number of entities ever created.
    pub(crate) kitties_count: u32,
    /// Genetic code per entity, indexed by ID.
    pub(crate) kitties: Vec<Kitty>,
    /// Current owner per entity, indexed by ID.
    pub(crate) owners: Vec<u64>,
    /// Owner account -> IDs currently held, in insertion order.
    pub(crate) holdings: HashMap<u64, Vec<u32>>,
    /// Parent pair per entity, indexed by ID; `None` for created entities.
    pub(crate) parents: Vec<Option<(u32, u32)>>,
    /// Packed parent pair -> IDs bred from that exact ordered pair.
    pub(crate) children: HashMap<u64, Vec<u32>>,
    /// Sibling snapshot per entity, indexed by ID, taken at its birth.
    pub(crate) siblings: Vec<Vec<u32>>,
    /// Entities this entity has bred with, indexed by ID, no duplicates.
    pub(crate) partners: Vec<Vec<u32>>,
}

impl Module {
    /// How many entities exist; IDs `0 .. count` are exactly the live ones.
    pub open(crate) spec fn count(self) -> nat {
        self.kitties@.len()
    }

    /// The genetic code of entity `id`.
    pub open(crate) spec fn dna_of(self, id: int) -> Seq<u8> {
        self.kitties@[id].0@
    }

    /// The current owner of entity `id`.
    pub open(crate) spec fn owner_of(self, id: int) -> u64 {
        self.owners@[id]
    }

    /// The IDs held by `owner`, in insertion order; empty if none was ever
    /// recorded.
    pub open(crate) spec fn holdings_of(self, owner: u64) -> Seq<u32> {
        if self.holdings@.contains_key(owner) {
            self.holdings@[owner]@
        } else {
            Seq::empty()
        }
    }

    /// The parent pair of entity `id`: `Some((father, mother))` iff it was
    /// produced by breeding.
    pub open(crate) spec fn parents_of(self, id: int) -> Option<(u32, u32)> {
        self.parents@[id]
    }

    /// The entities bred from the exact ordered pair `(father, mother)`, in
    /// order of birth; empty if that pair never bred.
    pub open(crate) spec fn children_of(self, father: u32, mother: u32) -> Seq<u32> {
        if self.children@.contains_key(pair_key(father, mother)) {
            self.children@[pair_key(father, mother)]@
        } else {
            Seq::empty()
        }
    }

    /// The sibling snapshot of entity `id`: the other children recorded
    /// under its parent pair at the moment of its birth.
    pub open(crate) spec fn siblings_of(self, id: int) -> Seq<u32> {
        self.siblings@[id]@
    }

    /// The entities `id` has bred with, in order of first breeding.
    pub open(crate) spec fn partners_of(self, id: int) -> Seq<u32> {
        self.partners@[id]@
    }

    /// Well-formedness: every per-entity index has exactly one entry per
    /// existing entity, the counter equals the number of entities, and every
    /// recorded child exists and carries the parent pair it is filed under.
    pub open(crate) spec fn wf(self) -> bool {
        &&& self.owners@.len() == self.count()
        &&& self.parents@.len() == self.count()
        &&& self.siblings@.len() == self.count()
        &&& self.partners@.len() == self.count()
        &&& self.kitties_count as nat == self.count()
        &&& forall|f: u32, m: u32, i: int|
            0 <= i < self.children_of(f, m).len() ==> {
                let c = #[trigger] self.children_of(f, m)[i];
                c < self.kitties_count && self.parents_of(c as int) == Some((f, m))
            }
    }

    /// An empty ledger: no entities, no holdings, no genealogy.
    pub fn new() -> (m: Module)
        ensures
            m.wf(),
            m.count() == 0,
            forall|o: u64| #[trigger] m.holdings_of(o) == Seq::<u32>::empty(),
            forall|f: u32, mo: u32| #[trigger] m.children_of(f, mo) == Seq::<u32>::empty(),
    {
        Module {
            kitties_count: 0,
            kitties: Vec::new(),
            owners: Vec::new(),
            holdings: HashMap::new(),
            parents: Vec::new(),
            children: HashMap::new(),
            siblings: Vec::new(),
            partners: Vec::new(),
        }
    }

    /// The ID the next entity will get, or `CountOverflow` once the ID space
    /// is exhausted.
    pub fn next_kitty_id(&self) -> (r: Result<u32, Error>)
        requires
            self.wf(),
        ensures
            match r {
                Ok(id) => id == self.count() && self.count() < u32::MAX,
                Err(e) => e == Error::CountOverflow && self.count() == u32::MAX,
            },
    {
        if self.kitties_count == u32::MAX {
            Err(Error::CountOverflow)
        } else {
            Ok(self.kitties_count)
        }
    }

    /// Append `kitty_id` to `owner`'s list of holdings, creating the list if
    /// the owner held nothing yet.
    pub(crate) fn add_to_holdings(&mut self, owner: u64, kitty_id: u32)
        ensures
            final(self).holdings_of(owner) == old(self).holdings_of(owner).push(kitty_id),
            forall|o: u64|
                o != owner ==> #[trigger] final(self).holdings_of(o) == old(self).holdings_of(o),
            final(self).kitties_count == old(self).kitties_count,
            final(self).kitties == old(self).kitties,
            final(self).owners == old(self).owners,
            final(self).parents == old(self).parents,
            final(self).children == old(self).children,
            final(self).siblings == old(self).siblings,
            final(self).partners == old(self).partners,
    {
        let mut list = match self.holdings.remove(&owner) {
            Some(l) => l,
            None => Vec::new(),
        };
        list.push(kitty_id);
        self.holdings.insert(owner, list);
    }

    /// Delete every occurrence of `kitty_id` from `owner`'s list of
    /// holdings: exact-match removal, keeping everything else in order.
    pub(crate) fn remove_from_holdings(&mut self, owner: u64, kitty_id: u32)
        ensures
            final(self).holdings_of(owner) == sans(old(self).holdings_of(owner), kitty_id),
            forall|o: u64|
                o != owner ==> #[trigger] final(self).holdings_of(o) == old(self).holdings_of(o),
            final(self).kitties_count == old(self).kitties_count,
            final(self).kitties == old(self).kitties,
            final(self).owners == old(self).owners,
            final(self).parents == old(self).parents,
            final(self).children == old(self).children,
            final(self).siblings == old(self).siblings,
            final(self).partners == old(self).partners,
    {
        let list = match self.holdings.remove(&owner) {
            Some(l) => l,
            None => Vec::new(),
        };
        let kept = filtered_without(&list, kitty_id);
        self.holdings.insert(owner, kept);
    }

    /// Record a freshly allocated entity: its genetic code, its owner, empty
    /// genealogy entries, and the advanced ID counter; the ID must be the
    /// one the counter just handed out.
    pub fn insert_kitty(&mut self, owner: u64, kitty_id: u32, kitty: Kitty)
        requires
            old(self).wf(),
            kitty_id as nat == old(self).count(),
            old(self).count() < u32::MAX as nat,
        ensures
            final(self).wf(),
            final(self).count() == old(self).count() + 1,
            final(self).dna_of(kitty_id as int) == kitty.0@,
            final(self).owner_of(kitty_id as int) == owner,
            final(self).parents_of(kitty_id as int) is None,
            final(self).siblings_of(kitty_id as int) == Seq::<u32>::empty(),
            final(self).partners_of(kitty_id as int) == Seq::<u32>::empty(),
            final(self).holdings_of(owner) == old(self).holdings_of(owner).push(kitty_id),
            forall|o: u64|
                o != owner ==> #[trigger] final(self).holdings_of(o) == old(self).holdings_of(o),
            unchanged_entities(*old(self), *final(self)),
            unchanged_genealogy(*old(self), *final(self)),
    {
        self.kitties.push(kitty);
        self.kitties_count = kitty_id + 1;
        self.owners.push(owner);
        self.parents.push(None);
        self.siblings.push(Vec::new());
        self.partners.push(Vec::new());
        self.add_to_holdings(owner, kitty_id);
        proof {
            assert forall|f: u32, m: u32, i: int|
                0 <= i < self.children_of(f, m).len() implies {
                let c = #[trigger] self.children_of(f, m)[i];
                c < self.kitties_count && self.parents_of(c as int) == Some((f, m))
            } by {
                assert(self.children_of(f, m) == old(self).children_of(f, m));
                assert(old(self).children_of(f, m)[i] < old(self).kitties_count);
            }
        }
    }

    /// Record the parent pair of a bred entity. The entity must not already
    /// stand in any children list, since those lists are keyed by the very
    /// pair this overwrites.
    pub fn update_kitties_parents(&mut self, children: u32, father: u32, mother: u32)
        requires
            old(self).wf(),
            (children as nat) < old(self).count(),
            forall|f: u32, m: u32, i: int|
                0 <= i < old(self).children_of(f, m).len() ==> #[trigger] old(self).children_of(
                    f,
                    m,
                )[i] != children,
        ensures
            final(self).wf(),
            final(self).count() == old(self).count(),
            final(self).parents_of(children as int) == Some((father, mother)),
            forall|id: int|
                0 <= id < old(self).count() && id != children ==> #[trigger] final(self).parents_of(
                    id,
                ) == old(self).parents_of(id),
            unchanged_entities(*old(self), *final(self)),
            unchanged_holdings(*old(self), *final(self)),
            unchanged_children(*old(self), *final(self)),
            unchanged_siblings(*old(self), *final(self)),
            unchanged_partners(*old(self), *final(self)),
    {
        self.parents[children as usize] = Some((father, mother));
        proof {
            assert forall|f: u32, m: u32, i: int|
                0 <= i < self.children_of(f, m).len() implies {
                let c = #[trigger] self.children_of(f, m)[i];
                c < self.kitties_count && self.parents_of(c as int) == Some((f, m))
            } by {
                assert(self.children_of(f, m) == old(self).children_of(f, m));
                assert(old(self).children_of(f, m)[i] != children);
                assert(old(self).children_of(f, m)[i] < old(self).kitties_count);
            }
        }
    }

    /// Append a freshly bred entity to the children list kept for its exact
    /// ordered parent pair, creating the list the first time that pair
    /// breeds. The entity's parent pair must already name that pair.
    pub fn update_kitties_children(&mut self, children: u32, father: u32, mother: u32)
        requires
            old(self).wf(),
            (children as nat) < old(self).count(),
            old(self).parents_of(children as int) == Some((father, mother)),
        ensures
            final(self).wf(),
            final(self).count() == old(self).count(),
            final(self).children_of(father, mother) == old(self).children_of(
                father,
                mother,
            ).push(children),
            forall|f: u32, m: u32|
                !(f == father && m == mother) ==> #[trigger] final(self).children_of(f, m) == old(
                    self,
                ).children_of(f, m),
            unchanged_entities(*old(self), *final(self)),
            unchanged_holdings(*old(self), *final(self)),
            unchanged_parents(*old(self), *final(self)),
            unchanged_siblings(*old(self), *final(self)),
            unchanged_partners(*old(self), *final(self)),
    {
        let key = pack_pair(father, mother);
        let mut list = match self.children.remove(&key) {
            Some(l) => l,
            None => Vec::new(),
        };
        list.push(children);
        self.children.insert(key, list);
        proof {
            assert forall|f: u32, m: u32|
                !(f == father && m == mother) implies #[trigger] self.children_of(f, m) == old(
                self,
            ).children_of(f, m) by {
                lemma_pair_key_injective(f, m, father, mother);
            }
            assert forall|f: u32, m: u32, i: int|
                0 <= i < self.children_of(f, m).len() implies {
                let c = #[trigger] self.children_of(f, m)[i];
                c < self.kitties_count && self.parents_of(c as int) == Some((f, m))
            } by {
                lemma_pair_key_injective(f, m, father, mother);
                if f == father && m == mother {
                    assert(self.children_of(f, m) == old(self).children_of(f, m).push(children));
                    if i < old(self).children_of(f, m).len() {
                        assert(old(self).children_of(f, m)[i] < old(self).kitties_count);
                    }
                } else {
                    assert(self.children_of(f, m) == old(self).children_of(f, m));
                    assert(old(self).children_of(f, m)[i] < old(self).kitties_count);
                }
            }
        }
    }

    /// Take the sibling snapshot of a bred entity: every other entity
    /// recorded under its exact parent pair at this moment. Computed once,
    /// at birth, and never updated when later siblings are born.
    pub fn update_kitties_sibling(&mut self, kitty_id: u32)
        requires
            old(self).wf(),
            (kitty_id as nat) < old(self).count(),
            old(self).parents_of(kitty_id as int) is Some,
        ensures
            final(self).wf(),
            final(self).count() == old(self).count(),
            ({
                let (f, m) = old(self).parents_of(kitty_id as int)->0;
                final(self).siblings_of(kitty_id as int) == sans(
                    old(self).children_of(f, m),
                    kitty_id,
                )
            }),
            forall|id: int|
                0 <= id < old(self).count() && id != kitty_id
                    ==> #[trigger] final(self).siblings_of(id) == old(self).siblings_of(id),
            unchanged_entities(*old(self), *final(self)),
            unchanged_holdings(*old(self), *final(self)),
            unchanged_parents(*old(self), *final(self)),
            unchanged_children(*old(self), *final(self)),
            unchanged_partners(*old(self), *final(self)),
    {
        let pair = self.parents[kitty_id as usize];
        let (father, mother) = match pair {
            Some(p) => p,
            // never taken: the entity was bred, so its parent pair is present
            None => (0, 0),
        };
        let key = pack_pair(father, mother);
        let list = match self.children.remove(&key) {
            Some(l) => l,
            None => Vec::new(),
        };
        let snapshot = filtered_without(&list, kitty_id);
        self.children.insert(key, list);
        self.siblings[kitty_id as usize] = snapshot;
        proof {
            assert forall|f: u32, m: u32| #[trigger] self.children_of(f, m) == old(
                self,
            ).children_of(f, m) by {
                lemma_pair_key_injective(f, m, father, mother);
            }
            assert forall|f: u32, m: u32, i: int|
                0 <= i < self.children_of(f, m).len() implies {
                let c = #[trigger] self.children_of(f, m)[i];
                c < self.kitties_count && self.parents_of(c as int) == Some((f, m))
            } by {
                assert(self.children_of(f, m) == old(self).children_of(f, m));
                assert(old(self).children_of(f, m)[i] < old(self).kitties_count);
            }
        }
    }

    /// Record that `partner1` has bred with `partner2`: a set-like append,
    /// adding `partner2` to `partner1`'s partner list only if it is not
    /// already there. Each direction of the relation is a separate call.
    pub fn update_kitties_partner(&mut self, partner1: u32, partner2: u32)
        requires
            old(self).wf(),
            (partner1 as nat) < old(self).count(),
        ensures
            final(self).wf(),
            final(self).count() == old(self).count(),
            final(self).partners_of(partner1 as int) == (if old(self).partners_of(
                partner1 as int,
            ).contains(partner2) {
                old(self).partners_of(partner1 as int)
            } else {
                old(self).partners_of(partner1 as int).push(partner2)
            }),
            forall|id: int|
                0 <= id < old(self).count() && id != partner1
                    ==> #[trigger] final(self).partners_of(id) == old(self).partners_of(id),
            unchanged_entities(*old(self), *final(self)),
            unchanged_holdings(*old(self), *final(self)),
            unchanged_parents(*old(self), *final(self)),
            unchanged_children(*old(self), *final(self)),
            unchanged_siblings(*old(self), *final(self)),
    {
        let ghost whole = self.partners@[partner1 as int]@;
        let n = self.partners[partner1 as usize].len();
        let mut found = false;
        let mut i: usize = 0;
        while i < n
            invariant
                i <= n,
                *self == *old(self),
                (partner1 as nat) < self.partners@.len(),
                n == self.partners@[partner1 as int]@.len(),
                whole == self.partners@[partner1 as int]@,
                found == whole.take(i as int).contains(partner2),
            decreases n - i,
        {
            proof {
                assert(whole.take(i + 1) =~= whole.take(i as int).push(whole[i as int]));
            }
            if self.partners[partner1 as usize][i] == partner2 {
                found = true;
                proof {
                    assert(whole.take(i + 1)[i as int] == partner2);
                }
            } else {
                proof {
                    if whole.take(i + 1).contains(partner2) {
                        let j = choose|j: int|
                            0 <= j < i + 1 && #[trigger] whole.take(i + 1)[j] == partner2;
                        assert(whole.take(i as int)[j] == partner2);
                    }
                }
            }
            i += 1;
        }
        proof {
            assert(whole.take(n as int) =~= whole);
        }
        if !found {
            self.partners[partner1 as usize].push(partner2);
        }
        proof {
            assert forall|f: u32, m: u32, i: int|
                0 <= i < self.children_of(f, m).len() implies {
                let c = #[trigger] self.children_of(f, m)[i];
                c < self.kitties_count && self.parents_of(c as int) == Some((f, m))
            } by {
                assert(self.children_of(f, m) == old(self).children_of(f, m));
                assert(old(self).children_of(f, m)[i] < old(self).kitties_count);
            }
        }
    }

    /// The genetic code of entity `kitty_id`, if it exists.
    pub fn kitties(&self, kitty_id: u32) -> (r: Option<Kitty>)
        requires
            self.wf(),
        ensures
            match r {
                Some(k) => (kitty_id as nat) < self.count() && k.0@ == self.dna_of(kitty_id as int),
                None => (kitty_id as nat) >= self.count(),
            },
    {
        if kitty_id < self.kitties_count {
            Some(self.kitties[kitty_id as usize])
        } else {
            None
        }
    }

    /// The number of entities created so far, which is also the next ID.
    pub fn kitties_count(&self) -> (n: u32)
        requires
            self.wf(),
        ensures
            n as nat == self.count(),
    {
        self.kitties_count
    }

    /// The current owner of entity `kitty_id`, if it exists.
    pub fn kitties_owner(&self, kitty_id: u32) -> (r: Option<u64>)
        requires
            self.wf(),
        ensures
            match r {
                Some(o) => (kitty_id as nat) < self.count() && o == self.owner_of(kitty_id as int),
                None => (kitty_id as nat) >= self.count(),
            },
    {
        if kitty_id < self.kitties_count {
            Some(self.owners[kitty_id as usize])
        } else {
            None
        }
    }

    /// The IDs currently held by `owner`, in insertion order.
    pub fn kitty_total(&self, owner: u64) -> (r: Vec<u32>)
        ensures
            r@ == self.holdings_of(owner),
    {
        match self.holdings.get(&owner) {
            Some(list) => copy_list(list),
            None => Vec::new(),
        }
    }

    /// The parent pair of entity `kitty_id`: `Some` exactly for entities
    /// produced by breeding.
    pub fn kitty_parents(&self, kitty_id: u32) -> (r: Option<(u32, u32)>)
        requires
            self.wf(),
            (kitty_id as nat) < self.count(),
        ensures
            r == self.parents_of(kitty_id as int),
    {
        self.parents[kitty_id as usize]
    }

    /// The entities bred from the exact ordered pair `(father, mother)`, in
    /// order of birth.
    pub fn kitty_children(&self, father: u32, mother: u32) -> (r: Vec<u32>)
        ensures
            r@ == self.children_of(father, mother),
    {
        let key = pack_pair(father, mother);
        match self.children.get(&key) {
            Some(list) => copy_list(list),
            None => Vec::new(),
        }
    }

    /// The sibling snapshot taken when entity `kitty_id` was born.
    pub fn kitty_sibling(&self, kitty_id: u32) -> (r: Vec<u32>)
        requires
            self.wf(),
            (kitty_id as nat) < self.count(),
        ensures
            r@ == self.siblings_of(kitty_id as int),
    {
        copy_list(&self.siblings[kitty_id as usize])
    }

    /// The entities `kitty_id` has bred with, in order of first breeding.
    pub fn kitty_partner(&self, kitty_id: u32) -> (r: Vec<u32>)
        requires
            self.wf(),
            (kitty_id as nat) < self.count(),
        ensures
            r@ == self.partners_of(kitty_id as int),
    {
        copy_list(&self.partners[kitty_id as usize])
    }
}

/// The packed ordered-pair key under which a parent pair's children are
/// stored.
fn pack_pair(father: u32, mother: u32) -> (k: u64)
    ensures
        k == pair_key(father, mother),
{
    father as u64 * 0x1_0000_0000 + mother as u64
}

/// An element-by-element copy of a list of IDs.
fn copy_list(list: &Vec<u32>) -> (r: Vec<u32>)
    ensures
        r@ == list@,
{
    let mut r: Vec<u32> = Vec::new();
    let mut i: usize = 0;
    while i < list.len()
        invariant
            i <= list.len(),
            r@ == list@.take(i as int),
        decreases list.len() - i,
    {
        proof {
            assert(list@.take(i + 1) =~= list@.take(i as int).push(list@[i as int]));
        }
        r.push(list[i]);
        i += 1;
    }
    proof {
        assert(list@.take(list@.len() as int) =~= list@);
    }
    r
}

/// A copy of `list` with every occurrence of `id` deleted, in order.
fn filtered_without(list: &Vec<u32>, id: u32) -> (kept: Vec<u32>)
    ensures
        kept@ == sans(list@, id),
{
    let mut kept: Vec<u32> = Vec::new();
    let mut i: usize = 0;
    while i < list.len()
        invariant
            i <= list.len(),
            kept@ == sans(list@.take(i as int), id),
        decreases list.len() - i,
    {
        proof {
            assert(list@.take(i + 1) =~= list@.take(i as int).push(list@[i as int]));
            lemma_sans_push(list@.take(i as int), list@[i as int], id);
        }
        if list[i] != id {
            kept.push(list[i]);
        }
        i += 1;
    }
    proof {
        assert(list@.take(list@.len() as int) =~= list@);
    }
    kept
}

} // verus!
