//! The three public state transitions: Create, Transfer, Breed.
//!
//! Each transition takes the outcomes of the runtime collaborators as plain
//! values: the caller's account (already authenticated by the runtime), the
//! 16 random bytes drawn for it, and whether the fixed stake could be
//! reserved against its account. Validation order, and so the error
//! reported, is part of the contract.

use vstd::prelude::*;

use crate::events::Error;
use crate::events::Event;
use crate::genes::combine_byte;
use crate::genes::combine_codes;
use crate::genes::Kitty;
use crate::state::lemma_sans_noop;
use crate::state::lemma_sans_push;
use crate::state::sans;
use crate::state::unchanged_entities;
use crate::state::unchanged_genealogy;
use crate::state::Module;

verus! {

/// When a Create by a caller whose stake reservation came out as `stake_ok`
/// succeeds: the ID space must not be exhausted and the stake must be
/// reserved — in that order of checking.
pub open spec fn create_allowed(pre: Module, stake_ok: bool) -> bool {
    &&& pre.count() < u32::MAX as nat
    &&& stake_ok
}

/// The error a rejected Create reports: ID exhaustion is checked before the
/// stake.
pub open spec fn create_error(pre: Module, stake_ok: bool, e: Error) -> bool {
    if pre.count() == u32::MAX as nat {
        e == Error::CountOverflow
    } else {
        !stake_ok && e == Error::InsufficientStake
    }
}

/// Everything a successful Create does to the state: the new entity takes
/// the next ID, carries the drawn code `dna`, belongs to `sender` and is
/// appended to `sender`'s holdings, with no genealogy entries. Nothing else
/// moves.
pub open spec fn create_outcome(
    pre: Module,
    post: Module,
    sender: u64,
    dna: Seq<u8>,
    new_id: u32,
) -> bool {
    &&& new_id as nat == pre.count()
    &&& post.count() == pre.count() + 1
    &&& post.dna_of(new_id as int) == dna
    &&& post.owner_of(new_id as int) == sender
    &&& post.parents_of(new_id as int) is None
    &&& post.siblings_of(new_id as int) == Seq::<u32>::empty()
    &&& post.partners_of(new_id as int) == Seq::<u32>::empty()
    &&& post.holdings_of(sender) == pre.holdings_of(sender).push(new_id)
    &&& forall|o: u64| o != sender ==> #[trigger] post.holdings_of(o) == pre.holdings_of(o)
    &&& unchanged_entities(pre, post)
    &&& unchanged_genealogy(pre, post)
}

/// IDs are assigned consecutively, with no gaps and no repeats: whatever
/// two successful creations follow one another, the second entity's ID is
/// the successor of the first one's — so a run of successful creations
/// from an empty ledger is numbered 0, 1, 2, and so on.
pub proof fn lemma_create_ids_consecutive(
    s0: Module,
    s1: Module,
    s2: Module,
    sender1: u64,
    sender2: u64,
    dna1: Seq<u8>,
    dna2: Seq<u8>,
    id1: u32,
    id2: u32,
)
    requires
        create_outcome(s0, s1, sender1, dna1, id1),
        create_outcome(s1, s2, sender2, dna2, id2),
    ensures
        id2 == id1 + 1,
        s0.count() == 0 ==> id1 == 0,
{
}

/// When a Transfer of `kitty_id` from `sender` to `to` succeeds: the entity
/// exists, the caller owns it, and the recipient is someone else.
pub open spec fn transfer_allowed(pre: Module, sender: u64, to: u64, kitty_id: u32) -> bool {
    &&& (kitty_id as nat) < pre.count()
    &&& pre.owner_of(kitty_id as int) == sender
    &&& to != sender
}

/// The error a rejected Transfer reports: existence is checked before
/// ownership, ownership before the self-transfer guard.
pub open spec fn transfer_error(pre: Module, sender: u64, to: u64, kitty_id: u32, e: Error) -> bool {
    if (kitty_id as nat) >= pre.count() {
        e == Error::EntityNotFound
    } else if pre.owner_of(kitty_id as int) != sender {
        e == Error::NotOwner
    } else {
        to == sender && e == Error::SelfTransfer
    }
}

/// Everything a successful Transfer does to the state: the ownership entry
/// of `kitty_id` now names `to`, the ID has left `sender`'s holdings by
/// exact-match removal and is appended to `to`'s. Nothing else moves.
pub open spec fn transfer_outcome(
    pre: Module,
    post: Module,
    sender: u64,
    to: u64,
    kitty_id: u32,
) -> bool {
    &&& post.count() == pre.count()
    &&& post.owner_of(kitty_id as int) == to
    &&& forall|id: int|
        0 <= id < pre.count() && id != kitty_id
            ==> #[trigger] post.owner_of(id) == pre.owner_of(id)
    &&& forall|id: int| 0 <= id < pre.count() ==> #[trigger] post.dna_of(id) == pre.dna_of(id)
    &&& post.holdings_of(sender) == sans(pre.holdings_of(sender), kitty_id)
    &&& post.holdings_of(to) == pre.holdings_of(to).push(kitty_id)
    &&& forall|o: u64|
        o != sender && o != to ==> #[trigger] post.holdings_of(o) == pre.holdings_of(o)
    &&& unchanged_genealogy(pre, post)
}

/// When a Breed by `sender` of the parents `id1` and `id2` succeeds: the
/// parents are distinct, the stake is reserved, both parents exist and are
/// owned by the caller, and the ID space is not exhausted.
pub open spec fn breed_allowed(
    pre: Module,
    sender: u64,
    id1: u32,
    id2: u32,
    stake_ok: bool,
) -> bool {
    &&& id1 != id2
    &&& stake_ok
    &&& (id1 as nat) < pre.count()
    &&& (id2 as nat) < pre.count()
    &&& pre.owner_of(id1 as int) == sender
    &&& pre.owner_of(id2 as int) == sender
    &&& pre.count() < u32::MAX as nat
}

/// The error a rejected Breed reports, following the checking order:
/// identical parents, then the stake, then existence, then ownership, then
/// ID exhaustion.
pub open spec fn breed_error(
    pre: Module,
    sender: u64,
    id1: u32,
    id2: u32,
    stake_ok: bool,
    e: Error,
) -> bool {
    if id1 == id2 {
        e == Error::IdenticalParents
    } else if !stake_ok {
        e == Error::InsufficientStake
    } else if (id1 as nat) >= pre.count() || (id2 as nat) >= pre.count() {
        e == Error::EntityNotFound
    } else if pre.owner_of(id1 as int) != sender || pre.owner_of(id2 as int) != sender {
        e == Error::NotOwner
    } else {
        pre.count() == u32::MAX as nat && e == Error::CountOverflow
    }
}

/// Everything a successful Breed does to the state: the child `new_id` is
/// the next ID, carries the bitwise combination of its parents' codes,
/// belongs to `sender`, and the genealogy indexes are extended — parents
/// written, child appended, the sibling snapshot taken before the child was
/// appended, and both partner lists extended set-like. Nothing else moves.
pub open spec fn breed_outcome(
    pre: Module,
    post: Module,
    sender: u64,
    id1: u32,
    id2: u32,
    selector: Seq<u8>,
    new_id: u32,
) -> bool {
    &&& new_id as nat == pre.count()
    &&& post.count() == pre.count() + 1
    &&& post.dna_of(new_id as int) == combine_codes(
        pre.dna_of(id1 as int),
        pre.dna_of(id2 as int),
        selector,
    )
    &&& post.owner_of(new_id as int) == sender
    &&& post.parents_of(new_id as int) == Some((id1, id2))
    &&& post.children_of(id1, id2) == pre.children_of(id1, id2).push(new_id)
    &&& forall|f: u32, m: u32|
        !(f == id1 && m == id2) ==> #[trigger] post.children_of(f, m) == pre.children_of(f, m)
    &&& post.siblings_of(new_id as int) == pre.children_of(id1, id2)
    &&& post.partners_of(id1 as int) == (if pre.partners_of(id1 as int).contains(id2) {
        pre.partners_of(id1 as int)
    } else {
        pre.partners_of(id1 as int).push(id2)
    })
    &&& post.partners_of(id2 as int) == (if pre.partners_of(id2 as int).contains(id1) {
        pre.partners_of(id2 as int)
    } else {
        pre.partners_of(id2 as int).push(id1)
    })
    &&& post.partners_of(new_id as int) == Seq::<u32>::empty()
    &&& post.holdings_of(sender) == pre.holdings_of(sender).push(new_id)
    &&& forall|o: u64| o != sender ==> #[trigger] post.holdings_of(o) == pre.holdings_of(o)
    &&& unchanged_entities(pre, post)
    &&& forall|id: int| 0 <= id < pre.count() ==> #[trigger] post.parents_of(id) == pre.parents_of(id)
    &&& forall|id: int|
        0 <= id < pre.count() ==> #[trigger] post.siblings_of(id) == pre.siblings_of(id)
    &&& forall|id: int|
        0 <= id < pre.count() && id != id1 && id != id2 ==> #[trigger] post.partners_of(id)
            == pre.partners_of(id)
}

/// What a successful breed guarantees of the genealogy: the child's parent
/// pair names the two parents, the child stands in their children list,
/// each parent stands in the other's partner list, and the child's sibling
/// snapshot excludes the child itself.
pub proof fn lemma_breed_genealogy(
    pre: Module,
    post: Module,
    sender: u64,
    id1: u32,
    id2: u32,
    selector: Seq<u8>,
    new_id: u32,
)
    requires
        pre.wf(),
        breed_outcome(pre, post, sender, id1, id2, selector, new_id),
    ensures
        post.parents_of(new_id as int) == Some((id1, id2)),
        post.children_of(id1, id2).contains(new_id),
        post.partners_of(id1 as int).contains(id2),
        post.partners_of(id2 as int).contains(id1),
        !post.siblings_of(new_id as int).contains(new_id),
{
    let children = post.children_of(id1, id2);
    assert(children[children.len() - 1] == new_id);
    if !pre.partners_of(id1 as int).contains(id2) {
        let p1 = post.partners_of(id1 as int);
        assert(p1[p1.len() - 1] == id2);
    }
    if !pre.partners_of(id2 as int).contains(id1) {
        let p2 = post.partners_of(id2 as int);
        assert(p2[p2.len() - 1] == id1);
    }
    assert forall|i: int| 0 <= i < post.siblings_of(new_id as int).len() implies #[trigger] post
        .siblings_of(new_id as int)[i] != new_id by {
        assert(pre.children_of(id1, id2)[i] < pre.kitties_count);
    }
}

impl Module {
    /// One byte of the genetic combination: each selector bit picks the
    /// corresponding bit of `dna1` when set, of `dna2` when clear.
    pub fn combine_dna(dna1: u8, dna2: u8, selector: u8) -> (r: u8)
        ensures
            r == combine_byte(dna1, dna2, selector),
    {
        (selector & dna1) | (!selector & dna2)
    }

    /// Create a new entity for `sender` with the genetic code `dna` (the 16
    /// random bytes the runtime drew for this call). `stake_ok` is the
    /// outcome of reserving the fixed stake against `sender`'s account; the
    /// runtime must have attempted that reservation before any state of a
    /// successful call is kept.
    pub fn create(&mut self, sender: u64, dna: [u8; 16], stake_ok: bool) -> (r: Result<
        Event,
        Error,
    >)
        requires
            old(self).wf(),
        ensures
            final(self).wf(),
            r is Ok <==> create_allowed(*old(self), stake_ok),
            match r {
                Ok(ev) => ev == Event::Created(sender, old(self).count() as u32)
                    && create_outcome(
                    *old(self),
                    *final(self),
                    sender,
                    dna@,
                    old(self).count() as u32,
                ),
                Err(e) => *final(self) == *old(self) && create_error(*old(self), stake_ok, e),
            },
    {
        let kitty_id = match self.next_kitty_id() {
            Ok(id) => id,
            Err(e) => {
                return Err(e);
            },
        };
        let kitty = Kitty(dna);
        if !stake_ok {
            return Err(Error::InsufficientStake);
        }
        self.insert_kitty(sender, kitty_id, kitty);
        Ok(Event::Created(sender, kitty_id))
    }

    /// Give entity `kitty_id`, currently owned by `sender`, to `to`: the
    /// ownership entry is overwritten, the ID leaves `sender`'s holdings by
    /// exact-match removal, and is appended to `to`'s.
    pub fn transfer(&mut self, sender: u64, to: u64, kitty_id: u32) -> (r: Result<Event, Error>)
        requires
            old(self).wf(),
        ensures
            final(self).wf(),
            r is Ok <==> transfer_allowed(*old(self), sender, to, kitty_id),
            match r {
                Ok(ev) => ev == Event::Transferred(sender, to, kitty_id) && transfer_outcome(
                    *old(self),
                    *final(self),
                    sender,
                    to,
                    kitty_id,
                ),
                Err(e) => *final(self) == *old(self) && transfer_error(
                    *old(self),
                    sender,
                    to,
                    kitty_id,
                    e,
                ),
            },
    {
        if kitty_id >= self.kitties_count {
            return Err(Error::EntityNotFound);
        }
        let owner = self.owners[kitty_id as usize];
        if owner != sender {
            return Err(Error::NotOwner);
        }
        if to == sender {
            return Err(Error::SelfTransfer);
        }
        self.owners[kitty_id as usize] = to;
        self.remove_from_holdings(sender, kitty_id);
        self.add_to_holdings(to, kitty_id);
        proof {
            assert forall|f: u32, m: u32, i: int|
                0 <= i < self.children_of(f, m).len() implies {
                let c = #[trigger] self.children_of(f, m)[i];
                c < self.kitties_count && self.parents_of(c as int) == Some((f, m))
            } by {
                assert(self.children_of(f, m) == old(self).children_of(f, m));
                assert(old(self).children_of(f, m)[i] < old(self).kitties_count);
            }
        }
        Ok(Event::Transferred(sender, to, kitty_id))
    }

    /// Breed a new entity for `sender` from the parents `kitty_id_1` and
    /// `kitty_id_2`, combining their genetic codes bit by bit under
    /// `selector` (the 16 random bytes the runtime drew for this call).
    /// `stake_ok` is the outcome of reserving the fixed stake, attempted by
    /// the runtime after the identical-parents guard and before anything
    /// else.
    pub fn do_breed(
        &mut self,
        sender: u64,
        kitty_id_1: u32,
        kitty_id_2: u32,
        selector: [u8; 16],
        stake_ok: bool,
    ) -> (r: Result<u32, Error>)
        requires
            old(self).wf(),
        ensures
            final(self).wf(),
            r is Ok <==> breed_allowed(*old(self), sender, kitty_id_1, kitty_id_2, stake_ok),
            match r {
                Ok(id) => breed_outcome(
                    *old(self),
                    *final(self),
                    sender,
                    kitty_id_1,
                    kitty_id_2,
                    selector@,
                    id,
                ),
                Err(e) => *final(self) == *old(self) && breed_error(
                    *old(self),
                    sender,
                    kitty_id_1,
                    kitty_id_2,
                    stake_ok,
                    e,
                ),
            },
    {
        if kitty_id_1 == kitty_id_2 {
            return Err(Error::IdenticalParents);
        }
        if !stake_ok {
            return Err(Error::InsufficientStake);
        }
        if kitty_id_1 >= self.kitties_count || kitty_id_2 >= self.kitties_count {
            return Err(Error::EntityNotFound);
        }
        let kitty1 = self.kitties[kitty_id_1 as usize];
        let kitty2 = self.kitties[kitty_id_2 as usize];
        let owner1 = self.owners[kitty_id_1 as usize];
        let owner2 = self.owners[kitty_id_2 as usize];
        if owner1 != sender {
            return Err(Error::NotOwner);
        }
        if owner2 != sender {
            return Err(Error::NotOwner);
        }
        let kitty_id = match self.next_kitty_id() {
            Ok(id) => id,
            Err(e) => {
                return Err(e);
            },
        };
        let kitty1_dna = kitty1.0;
        let kitty2_dna = kitty2.0;
        let mut new_dna = [0u8; 16];
        let mut i: usize = 0;
        while i < 16
            invariant
                i <= 16,
                forall|j: int|
                    0 <= j < i ==> #[trigger] new_dna@[j] == combine_byte(
                        kitty1_dna@[j],
                        kitty2_dna@[j],
                        selector@[j],
                    ),
            decreases 16 - i,
        {
            new_dna[i] = Module::combine_dna(kitty1_dna[i], kitty2_dna[i], selector[i]);
            i += 1;
        }
        proof {
            assert(new_dna@ =~= combine_codes(kitty1_dna@, kitty2_dna@, selector@));
        }
        self.insert_kitty(sender, kitty_id, Kitty(new_dna));
        let ghost s1 = *self;
        self.update_kitties_partner(kitty_id_1, kitty_id_2);
        let ghost s2 = *self;
        self.update_kitties_partner(kitty_id_2, kitty_id_1);
        proof {
            assert forall|f: u32, m: u32, i2: int|
                0 <= i2 < self.children_of(f, m).len() implies #[trigger] self.children_of(f, m)[i2]
                != kitty_id by {
                assert(self.children_of(f, m) == s2.children_of(f, m));
                assert(s2.children_of(f, m) == s1.children_of(f, m));
                assert(s1.children_of(f, m) == old(self).children_of(f, m));
                assert(old(self).children_of(f, m)[i2] < old(self).kitties_count);
            }
        }
        self.update_kitties_parents(kitty_id, kitty_id_1, kitty_id_2);
        let ghost s4 = *self;
        self.update_kitties_children(kitty_id, kitty_id_1, kitty_id_2);
        let ghost s5 = *self;
        self.update_kitties_sibling(kitty_id);
        proof {
            assert(s4.children_of(kitty_id_1, kitty_id_2) == old(self).children_of(
                kitty_id_1,
                kitty_id_2,
            ));
            assert(s5.children_of(kitty_id_1, kitty_id_2) == s4.children_of(
                kitty_id_1,
                kitty_id_2,
            ).push(kitty_id));
            lemma_sans_push(s4.children_of(kitty_id_1, kitty_id_2), kitty_id, kitty_id);
            assert forall|i2: int|
                0 <= i2 < old(self).children_of(kitty_id_1, kitty_id_2).len()
                implies #[trigger] old(self).children_of(kitty_id_1, kitty_id_2)[i2] != kitty_id
                by {
                assert(old(self).children_of(kitty_id_1, kitty_id_2)[i2]
                    < old(self).kitties_count);
            }
            lemma_sans_noop(old(self).children_of(kitty_id_1, kitty_id_2), kitty_id);
            assert(self.siblings_of(kitty_id as int) == old(self).children_of(
                kitty_id_1,
                kitty_id_2,
            ));
        }
        Ok(kitty_id)
    }

    /// Breed as the runtime dispatches it: on success the notification
    /// record `Bred(sender, kitty_id_1, kitty_id_2, new_id)` is returned for
    /// the event sink.
    pub fn breed(
        &mut self,
        sender: u64,
        kitty_id_1: u32,
        kitty_id_2: u32,
        selector: [u8; 16],
        stake_ok: bool,
    ) -> (r: Result<Event, Error>)
        requires
            old(self).wf(),
        ensures
            final(self).wf(),
            r is Ok <==> breed_allowed(*old(self), sender, kitty_id_1, kitty_id_2, stake_ok),
            match r {
                Ok(ev) => ev == Event::Bred(
                    sender,
                    kitty_id_1,
                    kitty_id_2,
                    old(self).count() as u32,
                ) && breed_outcome(
                    *old(self),
                    *final(self),
                    sender,
                    kitty_id_1,
                    kitty_id_2,
                    selector@,
                    old(self).count() as u32,
                ),
                Err(e) => *final(self) == *old(self) && breed_error(
                    *old(self),
                    sender,
                    kitty_id_1,
                    kitty_id_2,
                    stake_ok,
                    e,
                ),
            },
    {
        let new_kitty_id = match self.do_breed(sender, kitty_id_1, kitty_id_2, selector, stake_ok) {
            Ok(id) => id,
            Err(e) => {
                return Err(e);
            },
        };
        Ok(Event::Bred(sender, kitty_id_1, kitty_id_2, new_kitty_id))
    }
}

} // verus!
