//! The ledger: the keyed storage slots, the units that were issued and the audit
//! log, held in memory.
//!
//! A slot is written once, when it is allocated. An address with no slot holds no
//! bytes.

use crate::instructions::handle_incoming::{CrossChainMintEvent, EventView};
use crate::codec::same32;
use crate::pda::Address;
use vstd::prelude::*;

verus! {

/// A storage slot: its address and what it holds.
struct Slot {
    key: Address,
    data: Vec<u8>,
}

/// A request to the token program: issue `amount` units of `mint` to the account
/// `to`, on the word of `authority`.
#[derive(Clone, Copy, Debug, PartialEq, Eq)]
pub struct MintTo {
    pub mint: Address,
    pub to: Address,
    pub authority: Address,
    pub amount: u64,
}

/// A request to the token program, as a value.
pub struct MintToView {
    pub mint: Seq<u8>,
    pub to: Seq<u8>,
    pub authority: Seq<u8>,
    pub amount: u64,
}

impl View for MintTo {
    type V = MintToView;

    open spec fn view(&self) -> MintToView {
        MintToView {
            mint: self.mint@,
            to: self.to@,
            authority: self.authority@,
            amount: self.amount,
        }
    }
}

/// A request to the system program: allocate `space` bytes at the address `key`,
/// paid for by `payer` and owned by `owner`. `bump` is the bump seed of the
/// address, with which the program signs for it.
#[derive(Clone, Copy, Debug, PartialEq, Eq)]
pub struct CreateAccount {
    pub payer: Address,
    pub key: Address,
    pub space: u64,
    pub owner: Address,
    pub bump: u8,
}

/// A request to the system program, as a value.
pub struct CreateAccountView {
    pub payer: Seq<u8>,
    pub key: Seq<u8>,
    pub space: u64,
    pub owner: Seq<u8>,
    pub bump: u8,
}

impl View for CreateAccount {
    type V = CreateAccountView;

    open spec fn view(&self) -> CreateAccountView {
        CreateAccountView {
            payer: self.payer@,
            key: self.key@,
            space: self.space,
            owner: self.owner@,
            bump: self.bump,
        }
    }
}

/// The ledger as a value: what each allocated address holds, the issuances in the
/// order they were made, and the audit events in the order they were published.
pub struct LedgerView {
    pub slots: Map<Seq<u8>, Seq<u8>>,
    pub issued: Seq<MintToView>,
    pub events: Seq<EventView>,
}

impl LedgerView {
    /// What the address holds: the bytes of its slot, or none where no slot was
    /// allocated there.
    pub open spec fn data(self, key: Seq<u8>) -> Seq<u8> {
        if self.slots.dom().contains(key) {
            self.slots[key]
        } else {
            Seq::empty()
        }
    }

    /// Every allocated slot holds at least one byte.
    pub open spec fn wf(self) -> bool {
        forall|key: Seq<u8>| #[trigger] self.slots.dom().contains(key) ==> self.slots[key].len() > 0
    }

    /// The ledger with `data` in the slot of `key`.
    pub open spec fn with_slot(self, key: Seq<u8>, data: Seq<u8>) -> LedgerView {
        LedgerView { slots: self.slots.insert(key, data), ..self }
    }

    /// The ledger with no slot at `key`.
    pub open spec fn without_slot(self, key: Seq<u8>) -> LedgerView {
        LedgerView { slots: self.slots.remove(key), ..self }
    }

    /// The ledger with one more issuance.
    pub open spec fn with_issuance(self, request: MintToView) -> LedgerView {
        LedgerView { issued: self.issued.push(request), ..self }
    }

    /// The ledger with one more audit event.
    pub open spec fn with_event(self, event: EventView) -> LedgerView {
        LedgerView { events: self.events.push(event), ..self }
    }
}

/// The ledger in memory. No address has two slots, and no slot is empty.
pub struct Ledger {
    slots: Vec<Slot>,
    issued: Vec<MintTo>,
    events: Vec<CrossChainMintEvent>,
}

spec fn holds_at(slots: Seq<Slot>, key: Seq<u8>, i: int) -> bool {
    0 <= i < slots.len() && slots[i].key@ == key
}

spec fn holds(slots: Seq<Slot>, key: Seq<u8>) -> bool {
    exists|i: int| holds_at(slots, key, i)
}

spec fn place(slots: Seq<Slot>, key: Seq<u8>) -> int {
    choose|i: int| holds_at(slots, key, i)
}

spec fn slots_map(slots: Seq<Slot>) -> Map<Seq<u8>, Seq<u8>> {
    Map::new(|key: Seq<u8>| holds(slots, key), |key: Seq<u8>| slots[place(slots, key)].data@)
}

spec fn distinct(slots: Seq<Slot>) -> bool {
    forall|i: int, j: int|
        0 <= i < slots.len() && 0 <= j < slots.len() && #[trigger] slots[i].key@
            == #[trigger] slots[j].key@ ==> i == j
}

spec fn filled(slots: Seq<Slot>) -> bool {
    forall|i: int| 0 <= i < slots.len() ==> (#[trigger] slots[i]).data@.len() > 0
}

proof fn lemma_place(slots: Seq<Slot>, i: int)
    requires
        distinct(slots),
        0 <= i < slots.len(),
    ensures
        holds(slots, slots[i].key@),
        place(slots, slots[i].key@) == i,
        slots_map(slots).dom().contains(slots[i].key@),
        slots_map(slots)[slots[i].key@] == slots[i].data@,
{
    assert(holds_at(slots, slots[i].key@, i));
}

proof fn lemma_push(slots: Seq<Slot>, slot: Slot)
    requires
        distinct(slots),
        !holds(slots, slot.key@),
    ensures
        distinct(slots.push(slot)),
        slots_map(slots.push(slot)) == slots_map(slots).insert(slot.key@, slot.data@),
{
    let after = slots.push(slot);
    let last = slots.len() as int;
    assert forall|i: int, j: int|
        0 <= i < after.len() && 0 <= j < after.len() && #[trigger] after[i].key@
            == #[trigger] after[j].key@ implies i == j by {
        if i < last && j < last {
            assert(slots[i].key@ == slots[j].key@);
        } else if i < last {
            assert(holds_at(slots, slot.key@, i));
        } else if j < last {
            assert(holds_at(slots, slot.key@, j));
        }
    }
    assert forall|key: Seq<u8>| holds(after, key) <==> (holds(slots, key) || key == slot.key@) by {
        if holds(after, key) {
            let i = place(after, key);
            assert(holds_at(after, key, i));
            if i < last {
                assert(holds_at(slots, key, i));
            }
        }
        if holds(slots, key) {
            let i = place(slots, key);
            assert(holds_at(slots, key, i));
            assert(holds_at(after, key, i));
        }
        if key == slot.key@ {
            assert(holds_at(after, key, last));
        }
    }
    assert forall|key: Seq<u8>| holds(after, key) implies #[trigger] slots_map(after)[key]
        == slots_map(slots).insert(slot.key@, slot.data@)[key] by {
        let i = place(after, key);
        assert(holds_at(after, key, i));
        if key == slot.key@ {
            assert(holds_at(after, key, last));
            assert(i == last);
        } else {
            assert(i < last);
            lemma_place(slots, i);
        }
    }
    assert(slots_map(after) =~= slots_map(slots).insert(slot.key@, slot.data@));
}

proof fn lemma_remove(slots: Seq<Slot>, at: int)
    requires
        distinct(slots),
        0 <= at < slots.len(),
    ensures
        distinct(slots.remove(at)),
        slots_map(slots.remove(at)) == slots_map(slots).remove(slots[at].key@),
{
    let after = slots.remove(at);
    let gone = slots[at].key@;
    assert forall|i: int, j: int|
        0 <= i < after.len() && 0 <= j < after.len() && #[trigger] after[i].key@
            == #[trigger] after[j].key@ implies i == j by {
        let si = if i < at { i } else { i + 1 };
        let sj = if j < at { j } else { j + 1 };
        assert(slots[si].key@ == slots[sj].key@);
    }
    assert forall|key: Seq<u8>| holds(after, key) <==> (holds(slots, key) && key != gone) by {
        if holds(after, key) {
            let i = place(after, key);
            assert(holds_at(after, key, i));
            let si = if i < at { i } else { i + 1 };
            assert(holds_at(slots, key, si));
            assert(slots[si].key@ == key);
            if key == gone {
                assert(slots[si].key@ == slots[at].key@);
            }
        }
        if holds(slots, key) && key != gone {
            let si = place(slots, key);
            assert(holds_at(slots, key, si));
            let i = if si < at { si } else { si - 1 };
            assert(holds_at(after, key, i));
        }
    }
    assert forall|key: Seq<u8>| holds(after, key) implies #[trigger] slots_map(after)[key]
        == slots_map(slots).remove(gone)[key] by {
        let i = place(after, key);
        assert(holds_at(after, key, i));
        let si = if i < at { i } else { i + 1 };
        lemma_place(slots, si);
    }
    assert(slots_map(after) =~= slots_map(slots).remove(gone));
}

impl View for Ledger {
    type V = LedgerView;

    closed spec fn view(&self) -> LedgerView {
        LedgerView {
            slots: slots_map(self.slots@),
            issued: self.issued@.map_values(|request: MintTo| request@),
            events: self.events@.map_values(|event: CrossChainMintEvent| event@),
        }
    }
}

proof fn lemma_filled(slots: Seq<Slot>)
    requires
        filled(slots),
    ensures
        forall|key: Seq<u8>| #[trigger]
            slots_map(slots).dom().contains(key) ==> slots_map(slots)[key].len() > 0,
{
    assert forall|key: Seq<u8>| #[trigger]
        slots_map(slots).dom().contains(key) implies slots_map(slots)[key].len() > 0 by {
        assert(holds_at(slots, key, place(slots, key)));
    }
}

impl Ledger {
    /// No address has two slots, and no slot is empty.
    #[verifier::type_invariant]
    spec fn wf(&self) -> bool {
        distinct(self.slots@) && filled(self.slots@)
    }

    /// A ledger with no slot, no issuance and no event.
    pub fn new() -> (r: Ledger)
        ensures
            r@.wf(),
            r@.slots == Map::<Seq<u8>, Seq<u8>>::empty(),
            r@.issued == Seq::<MintToView>::empty(),
            r@.events == Seq::<EventView>::empty(),
    {
        let r = Ledger { slots: Vec::new(), issued: Vec::new(), events: Vec::new() };
        assert(r@.slots =~= Map::<Seq<u8>, Seq<u8>>::empty()) by {
            assert forall|key: Seq<u8>| !holds(r.slots@, key) by {
                if holds(r.slots@, key) {
                    assert(holds_at(r.slots@, key, place(r.slots@, key)));
                }
            }
        }
        assert(r@.issued =~= Seq::<MintToView>::empty());
        assert(r@.events =~= Seq::<EventView>::empty());
        r
    }

    fn find(&self, key: &Address) -> (r: Option<usize>)
        ensures
            match r {
                Some(i) => holds_at(self.slots@, key@, i as int),
                None => !holds(self.slots@, key@),
            },
    {
        let mut i: usize = 0;
        while i < self.slots.len()
            invariant
                i <= self.slots.len(),
                forall|j: int| 0 <= j < i ==> !holds_at(self.slots@, key@, j),
            decreases self.slots.len() - i,
        {
            if same32(&self.slots[i].key, key) {
                return Some(i);
            }
            i = i + 1;
        }
        assert(!holds(self.slots@, key@)) by {
            if holds(self.slots@, key@) {
                assert(holds_at(self.slots@, key@, place(self.slots@, key@)));
            }
        }
        None
    }

    /// What the address holds: the bytes of its slot, or none where it has no slot.
    pub fn data(&self, key: &Address) -> (r: Vec<u8>)
        ensures
            self@.wf(),
            r@ == self@.data(key@),
    {
        proof {
            use_type_invariant(self);
            lemma_filled(self.slots@);
        }
        match self.find(key) {
            Some(i) => {
                proof {
                    lemma_place(self.slots@, i as int);
                }
                self.slots[i].data.clone()
            },
            None => Vec::new(),
        }
    }

    /// Allocates the slot of `key` and writes `data` to it, unless the address has
    /// a slot already or there is nothing to write.
    pub fn allocate(&mut self, key: Address, data: Vec<u8>) -> (done: bool)
        ensures
            done == (!old(self)@.slots.dom().contains(key@) && data@.len() > 0),
            final(self)@ == if done {
                old(self)@.with_slot(key@, data@)
            } else {
                old(self)@
            },
            final(self)@.wf(),
    {
        proof {
            use_type_invariant(&*self);
            lemma_filled(self.slots@);
        }
        if data.len() == 0 {
            return false;
        }
        match self.find(&key) {
            Some(i) => {
                false
            },
            None => {
                let slot = Slot { key, data };
                let mut slots: Vec<Slot> = Vec::new();
                std::mem::swap(&mut slots, &mut self.slots);
                proof {
                    lemma_push(slots@, slot);
                }
                slots.push(slot);
                self.slots = slots;
                proof {
                    lemma_filled(self.slots@);
                }
                true
            },
        }
    }

    /// Gives up the slot of `key`, if it has one.
    pub(crate) fn release(&mut self, key: &Address)
        ensures
            final(self)@ == old(self)@.without_slot(key@),
            final(self)@.wf(),
    {
        proof {
            use_type_invariant(&*self);
            lemma_filled(self.slots@);
        }
        match self.find(key) {
            Some(i) => {
                let mut slots: Vec<Slot> = Vec::new();
                std::mem::swap(&mut slots, &mut self.slots);
                proof {
                    lemma_remove(slots@, i as int);
                }
                let _ = slots.remove(i);
                self.slots = slots;
                proof {
                    lemma_filled(self.slots@);
                }
            },
            None => {
                assert(old(self)@.slots.remove(key@) =~= old(self)@.slots);
            },
        }
    }

    /// Notes that the token program carried out `request`.
    pub(crate) fn record_issuance(&mut self, request: MintTo)
        ensures
            final(self)@ == old(self)@.with_issuance(request@),
    {
        proof {
            use_type_invariant(&*self);
        }
        let mut issued: Vec<MintTo> = Vec::new();
        std::mem::swap(&mut issued, &mut self.issued);
        issued.push(request);
        self.issued = issued;
        assert(self@.issued =~= old(self)@.issued.push(request@));
    }

    /// Appends `event` to the audit log.
    pub(crate) fn publish(&mut self, event: CrossChainMintEvent)
        ensures
            final(self)@ == old(self)@.with_event(event@),
    {
        proof {
            use_type_invariant(&*self);
        }
        let mut events: Vec<CrossChainMintEvent> = Vec::new();
        std::mem::swap(&mut events, &mut self.events);
        events.push(event);
        self.events = events;
        assert(self@.events =~= old(self)@.events.push(event@));
    }

    /// The issuances so far, oldest first.
    pub fn issued(&self) -> (r: &Vec<MintTo>)
        ensures
            r@.map_values(|request: MintTo| request@) == self@.issued,
    {
        &self.issued
    }

    /// The audit log, oldest event first.
    pub fn events(&self) -> (r: &Vec<CrossChainMintEvent>)
        ensures
            r@.map_values(|event: CrossChainMintEvent| event@) == self@.events,
    {
        &self.events
    }
}

} // verus!
