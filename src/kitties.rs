//! The unit registry and the operations on it: create, transfer and breed,
//! each all-or-nothing, keeping ownership, collateral and genealogy in step.
use vstd::prelude::*;
use crate::balances::{AccountData, BalanceError, Balances};
use crate::dna::{combine, combine_spec, Kitty};
use crate::random::{random_dna, random_value, MockRandom};

verus! {

/// Why an operation was refused. A refused operation changes nothing.
#[derive(Clone, Copy, Debug, PartialEq, Eq, Structural)]
pub enum Error {
    /// Every identifier has been issued.
    KittiesCountOverflow,
    /// The caller does not own the unit named.
    InvalidaKittyId,
    /// Both parents named are the same unit.
    RequireDifferentParent,
    /// A free balance does not cover the stake or amount.
    BalanceNotEnough,
    /// A receiving account's total would not fit in a balance.
    BalanceOverflow,
}

/// What the store reports of each operation.
#[derive(Clone, Copy, Debug, PartialEq, Eq, Structural)]
pub enum Event {
    /// A unit was created: owner, id.
    Created(u64, u32),
    /// A unit changed hands: from, to, id.
    Transfered(u64, u64, u32),
    /// Funds were reserved: account, amount, block number.
    LockFunds(u64, u128, u64),
    /// Reserved funds were released and moved: from, to, amount, block number.
    TransferFunds(u64, u64, u128, u64),
}

/// A unit's place in the genealogy: its parents, if it was bred, and the
/// children bred from it so far, oldest first.
#[derive(Clone, Debug, PartialEq, Eq)]
pub struct KittyNode {
    pub kitty_id: u32,
    pub companion: Option<(u32, u32)>,
    pub children: Vec<u32>,
}

/// The settings a store runs with: the stake every unit holds, and the
/// source of random seeds.
#[derive(Clone, Copy, Debug, PartialEq, Eq)]
pub struct Test {
    pub kitty_reserve_funds: u128,
    pub randomness: MockRandom,
}

/// The whole state: the ledger, and for the unit with id `i` (ids run from
/// 1) its owner, DNA, stake and genealogy node at index `i - 1`.
pub struct Module {
    pub config: Test,
    pub balances: Balances,
    pub owners: Vec<u64>,
    pub kitties: Vec<Kitty>,
    pub lock_amounts: Vec<u128>,
    pub nodes: Vec<KittyNode>,
    pub events: Vec<Event>,
    pub block_number: u64,
    pub extrinsic_index: Option<u32>,
}

/// The inventory of `owner`: `(id, unit)` for each unit it owns, by id.
pub open spec fn inventory(owners: Seq<u64>, kitties: Seq<Kitty>, owner: u64) -> Seq<(u32, Kitty)>
    decreases owners.len(),
{
    if owners.len() == 0 {
        seq![]
    } else {
        let prev = inventory(owners.drop_last(), kitties, owner);
        if owners.last() == owner {
            prev.push((owners.len() as u32, kitties[owners.len() - 1]))
        } else {
            prev
        }
    }
}

impl Module {
    /// The number of units issued, which is also the highest id.
    pub open spec fn count(self) -> nat {
        self.owners@.len()
    }

    /// The stake each unit holds.
    pub open spec fn stake(self) -> u128 {
        self.config.kitty_reserve_funds
    }

    /// The ids issued so far: 1 up to the count.
    pub open spec fn issued(self) -> Set<u32> {
        Set::new(|id: u32| 1 <= id && id <= self.count())
    }

    /// Whether `who` owns the unit `id`.
    pub open spec fn owns(self, who: u64, id: u32) -> bool {
        1 <= id <= self.count() && self.owners@[id - 1] == who
    }

    /// Tables agree in length, every unit holds the stake, every node
    /// names its own unit, and the ledger is well formed.
    pub open spec fn wf(self) -> bool {
        &&& self.count() <= u32::MAX
        &&& self.kitties@.len() == self.count()
        &&& self.lock_amounts@.len() == self.count()
        &&& self.nodes@.len() == self.count()
        &&& forall|i: int| 0 <= i < self.count() ==> #[trigger] self.lock_amounts@[i] == self.stake()
        &&& forall|i: int| 0 <= i < self.count() ==> #[trigger] self.nodes@[i].kitty_id == i + 1
        &&& self.balances.wf()
    }

    /// Settings, block number and call index are as in `before`.
    pub open spec fn same_context(self, before: Module) -> bool {
        &&& self.config == before.config
        &&& self.block_number == before.block_number
        &&& self.extrinsic_index == before.extrinsic_index
    }

    /// `self` is `before` with one more unit, owned by `owner` and carrying
    /// `dna`, whose stake has been reserved from `owner`; a `LockFunds` and a
    /// `Created` event were recorded, and the unit's node has no children.
    pub open spec fn unit_added(self, before: Module, owner: u64, dna: Seq<u8>) -> bool {
        let id = (before.count() + 1) as u32;
        let d = before.balances.account(owner);
        &&& self.same_context(before)
        &&& self.owners@ == before.owners@.push(owner)
        &&& self.kitties@.drop_last() == before.kitties@
        &&& self.kitties@.len() == before.kitties@.len() + 1
        &&& self.kitties@.last().0@ == dna
        &&& self.lock_amounts@ == before.lock_amounts@.push(before.stake())
        &&& self.balances.account(owner) == (AccountData {
            free: (d.free - before.stake()) as u128,
            reserved: (d.reserved + before.stake()) as u128,
        })
        &&& self.balances.others_unchanged(before.balances, owner)
        &&& self.events@ == before.events@ + seq![
            Event::LockFunds(owner, before.stake(), before.block_number),
            Event::Created(owner, id),
        ]
        &&& self.nodes@.len() == before.nodes@.len() + 1
        &&& self.nodes@.last().kitty_id == id
        &&& self.nodes@.last().children@ == Seq::<u32>::empty()
    }

    /// The outcome of `create_with_dna(caller, dna)` from `before`.
    pub open spec fn create_outcome(
        self,
        before: Module,
        caller: u64,
        dna: Seq<u8>,
        r: Result<(), Error>,
    ) -> bool {
        &&& before.count() == u32::MAX ==> r == Err::<(), Error>(Error::KittiesCountOverflow)
        &&& before.count() < u32::MAX && before.balances.account(caller).free < before.stake()
            ==> r == Err::<(), Error>(Error::BalanceNotEnough)
        &&& r is Ok <==> before.count() < u32::MAX && before.balances.account(caller).free
            >= before.stake()
        &&& r is Err ==> self == before
        &&& r is Ok ==> {
            &&& self.unit_added(before, caller, dna)
            &&& self.nodes@.drop_last() == before.nodes@
            &&& self.nodes@.last().companion == None::<(u32, u32)>
        }
    }

    /// The outcome of `breed_with_selector(caller, id1, id2, selector)`.
    pub open spec fn breed_outcome(
        self,
        before: Module,
        caller: u64,
        id1: u32,
        id2: u32,
        selector: Seq<u8>,
        r: Result<(), Error>,
    ) -> bool {
        let child = (before.count() + 1) as u32;
        &&& id1 == id2 ==> r == Err::<(), Error>(Error::RequireDifferentParent)
        &&& id1 != id2 && !(before.owns(caller, id1) && before.owns(caller, id2)) ==> r == Err::<
            (),
            Error,
        >(Error::InvalidaKittyId)
        &&& id1 != id2 && before.owns(caller, id1) && before.owns(caller, id2) && before.count()
            == u32::MAX ==> r == Err::<(), Error>(Error::KittiesCountOverflow)
        &&& id1 != id2 && before.owns(caller, id1) && before.owns(caller, id2) && before.count()
            < u32::MAX && before.balances.account(caller).free < before.stake() ==> r == Err::<
            (),
            Error,
        >(Error::BalanceNotEnough)
        &&& r is Ok <==> id1 != id2 && before.owns(caller, id1) && before.owns(caller, id2)
            && before.count() < u32::MAX && before.balances.account(caller).free >= before.stake()
        &&& r is Err ==> self == before
        &&& r is Ok ==> {
            &&& self.unit_added(
                before,
                caller,
                combine_spec(
                    before.kitties@[id1 - 1].0@,
                    before.kitties@[id2 - 1].0@,
                    selector,
                ),
            )
            &&& self.nodes@.last().companion == Some((id1, id2))
            &&& forall|i: int|
                0 <= i < before.count() && i != id1 - 1 && i != id2 - 1 ==> #[trigger] self.nodes@[i]
                    == before.nodes@[i]
            &&& self.nodes@[id1 - 1].companion == before.nodes@[id1 - 1].companion
            &&& self.nodes@[id1 - 1].children@ == before.nodes@[id1 - 1].children@.push(child)
            &&& self.nodes@[id2 - 1].companion == before.nodes@[id2 - 1].companion
            &&& self.nodes@[id2 - 1].children@ == before.nodes@[id2 - 1].children@.push(child)
        }
    }
}

/// Appends `child` to the children of the node at index `i`.
fn append_child(nodes: &mut Vec<KittyNode>, i: usize, child: u32)
    requires
        i < old(nodes)@.len(),
    ensures
        final(nodes)@.len() == old(nodes)@.len(),
        final(nodes)@[i as int].kitty_id == old(nodes)@[i as int].kitty_id,
        final(nodes)@[i as int].companion == old(nodes)@[i as int].companion,
        final(nodes)@[i as int].children@ == old(nodes)@[i as int].children@.push(child),
        forall|j: int| 0 <= j < old(nodes)@.len() && j != i ==> #[trigger] final(nodes)@[j] == old(nodes)@[j],
{
    let mut node = nodes.remove(i);
    node.children.push(child);
    nodes.insert(i, node);
}

impl Module {
    /// An empty registry over a ledger funded by `genesis`.
    pub fn new(config: Test, genesis: &Vec<(u64, u128)>, block_number: u64) -> (r: Module)
        ensures
            r.wf(),
            r.count() == 0,
            r.config == config,
            r.block_number == block_number,
            r.extrinsic_index == None::<u32>,
            r.events@.len() == 0,
            forall|a: u64| #[trigger] r.balances.account(a) == (AccountData {
                free: crate::balances::genesis_free(genesis@, a),
                reserved: 0,
            }),
    {
        Module {
            config,
            balances: Balances::from_genesis(genesis),
            owners: Vec::new(),
            kitties: Vec::new(),
            lock_amounts: Vec::new(),
            nodes: Vec::new(),
            events: Vec::new(),
            block_number,
            extrinsic_index: None,
        }
    }

    /// Reserves `amount` of `locker`'s free balance. This moves funds of any
    /// account: callers must have authorised it.
    pub fn reserve_funds(&mut self, locker: u64, amount: u128) -> (r: Result<(), Error>)
        requires
            old(self).wf(),
        ensures
            final(self).wf(),
            r is Ok <==> old(self).balances.account(locker).free >= amount,
            r is Err ==> r == Err::<(), Error>(Error::BalanceNotEnough) && *final(self) == *old(self),
            r is Ok ==> {
                let d = old(self).balances.account(locker);
                &&& final(self).balances.account(locker) == (AccountData {
                    free: (d.free - amount) as u128,
                    reserved: (d.reserved + amount) as u128,
                })
                &&& final(self).balances.others_unchanged(old(self).balances, locker)
                &&& final(self).events@ == old(self).events@.push(
                    Event::LockFunds(locker, amount, old(self).block_number),
                )
                &&& final(self).same_context(*old(self))
                &&& final(self).owners@ == old(self).owners@
                &&& final(self).kitties@ == old(self).kitties@
                &&& final(self).lock_amounts@ == old(self).lock_amounts@
                &&& final(self).nodes@ == old(self).nodes@
            },
    {
        if self.balances.free_balance(locker) < amount {
            return Err(Error::BalanceNotEnough);
        }
        let _ = self.balances.reserve(locker, amount);
        self.events.push(Event::LockFunds(locker, amount, self.block_number));
        Ok(())
    }

    /// Releases up to `collateral` of `to_punish`'s reserved balance and
    /// moves what was released to `dest`'s free balance; a shortfall in the
    /// reserve is dropped, not refused. This moves funds of any account:
    /// callers must have authorised it.
    pub fn unreserve_and_transfer(&mut self, to_punish: u64, dest: u64, collateral: u128) -> (r:
        Result<(), Error>)
        requires
            old(self).wf(),
        ensures
            final(self).wf(),
            ({
                let p = old(self).balances.account(to_punish);
                let q = old(self).balances.account(dest);
                let moved = if collateral <= p.reserved { collateral } else { p.reserved };
                &&& r is Ok <==> to_punish == dest || q.free + q.reserved + moved <= u128::MAX
                &&& r is Err ==> r == Err::<(), Error>(Error::BalanceOverflow) && *final(self)
                    == *old(self)
                &&& r is Ok && to_punish != dest ==> final(self).balances.account(to_punish) == (
                AccountData { free: p.free, reserved: (p.reserved - moved) as u128 })
                &&& r is Ok && to_punish != dest ==> final(self).balances.account(dest) == (
                AccountData { free: (q.free + moved) as u128, reserved: q.reserved })
                &&& r is Ok && to_punish == dest ==> final(self).balances.account(to_punish) == (
                AccountData { free: (p.free + moved) as u128, reserved: (p.reserved - moved) as u128 })
                &&& r is Ok ==> final(self).events@ == old(self).events@.push(
                    Event::TransferFunds(to_punish, dest, moved, old(self).block_number),
                )
            }),
            r is Ok ==> forall|a: u64|
                a != to_punish && a != dest ==> #[trigger] final(self).balances.account(a)
                    == old(self).balances.account(a),
            r is Ok ==> final(self).same_context(*old(self)),
            r is Ok ==> final(self).owners@ == old(self).owners@,
            r is Ok ==> final(self).kitties@ == old(self).kitties@,
            r is Ok ==> final(self).lock_amounts@ == old(self).lock_amounts@,
            r is Ok ==> final(self).nodes@ == old(self).nodes@,
    {
        let reserved = self.balances.reserved_balance(to_punish);
        let moved: u128 = if collateral <= reserved { collateral } else { reserved };
        if to_punish != dest {
            let free = self.balances.free_balance(dest);
            let held = self.balances.reserved_balance(dest);
            if held > u128::MAX - free || moved > u128::MAX - free - held {
                return Err(Error::BalanceOverflow);
            }
        }
        let overdraft = self.balances.unreserve(to_punish, collateral);
        let _ = self.balances.transfer(to_punish, dest, collateral - overdraft);
        self.events.push(Event::TransferFunds(to_punish, dest, collateral - overdraft, self.block_number));
        Ok(())
    }

    /// Registers a new unit with DNA `kitty` for `caller`, reserves its
    /// stake from `caller` and roots it in the genealogy. Fails, changing
    /// nothing, when every id is issued or the stake is not covered.
    pub fn create_with_dna(&mut self, caller: u64, kitty: Kitty) -> (r: Result<(), Error>)
        requires
            old(self).wf(),
        ensures
            final(self).wf(),
            final(self).create_outcome(*old(self), caller, kitty.0@, r),
    {
        let id = self.next_kitty_id()?;
        let stake = self.config.kitty_reserve_funds;
        if self.balances.free_balance(caller) < stake {
            return Err(Error::BalanceNotEnough);
        }
        let ghost before = *self;
        let _ = self.balances.reserve(caller, stake);
        self.events.push(Event::LockFunds(caller, stake, self.block_number));
        self.insert_kitty(caller, id, kitty);
        self.lock_amounts.push(stake);
        self.nodes.push(KittyNode { kitty_id: id, companion: None, children: Vec::new() });
        self.events.push(Event::Created(caller, id));
        proof {
            assert(self.kitties@.drop_last() =~= before.kitties@);
            assert(self.nodes@.drop_last() =~= before.nodes@);
            assert(self.events@ =~= before.events@ + seq![
                Event::LockFunds(caller, stake, before.block_number),
                Event::Created(caller, id),
            ]);
        }
        Ok(())
    }

    /// Creates a unit for `caller` with DNA drawn from the seed, `caller` and
    /// the call index.
    pub fn create(&mut self, caller: u64) -> (r: Result<(), Error>)
        requires
            old(self).wf(),
        ensures
            final(self).wf(),
            final(self).create_outcome(
                *old(self),
                caller,
                random_dna(old(self).config.randomness.payload@, caller, old(self).extrinsic_index),
                r,
            ),
    {
        let seed = self.config.randomness.random_seed();
        let dna = random_value(&seed, caller, self.extrinsic_index);
        self.create_with_dna(caller, Kitty(dna))
    }

    /// Breeds a child of `id1` and `id2`, both owned by `caller`, whose DNA
    /// takes each bit from `id1` where `selector` has it set and from `id2`
    /// elsewhere; reserves its stake from `caller` and records it as a child
    /// of both. Identical parents are refused before anything else.
    pub fn breed_with_selector(&mut self, caller: u64, id1: u32, id2: u32, selector: [u8; 16]) -> (r:
        Result<(), Error>)
        requires
            old(self).wf(),
        ensures
            final(self).wf(),
            final(self).breed_outcome(*old(self), caller, id1, id2, selector@, r),
    {
        if id1 == id2 {
            return Err(Error::RequireDifferentParent);
        }
        let k1 = self.kitties(caller, id1);
        let k2 = self.kitties(caller, id2);
        let (k1, k2) = match (k1, k2) {
            (Some(a), Some(b)) => (a, b),
            _ => { return Err(Error::InvalidaKittyId); },
        };
        let id = self.next_kitty_id()?;
        let stake = self.config.kitty_reserve_funds;
        if self.balances.free_balance(caller) < stake {
            return Err(Error::BalanceNotEnough);
        }
        let ghost before = *self;
        let new_dna = combine(&k1.0, &k2.0, &selector);
        let _ = self.balances.reserve(caller, stake);
        self.events.push(Event::LockFunds(caller, stake, self.block_number));
        self.insert_kitty(caller, id, Kitty(new_dna));
        self.lock_amounts.push(stake);
        append_child(&mut self.nodes, (id1 - 1) as usize, id);
        append_child(&mut self.nodes, (id2 - 1) as usize, id);
        self.nodes.push(KittyNode { kitty_id: id, companion: Some((id1, id2)), children: Vec::new() });
        self.events.push(Event::Created(caller, id));
        proof {
            assert(self.kitties@.drop_last() =~= before.kitties@);
            assert(self.events@ =~= before.events@ + seq![
                Event::LockFunds(caller, stake, before.block_number),
                Event::Created(caller, id),
            ]);
        }
        Ok(())
    }

    /// Breeds a child of `id1` and `id2` with a selector drawn from the seed,
    /// `caller` and the call index.
    pub fn breed(&mut self, caller: u64, id1: u32, id2: u32) -> (r: Result<(), Error>)
        requires
            old(self).wf(),
        ensures
            final(self).wf(),
            final(self).breed_outcome(
                *old(self),
                caller,
                id1,
                id2,
                random_dna(old(self).config.randomness.payload@, caller, old(self).extrinsic_index),
                r,
            ),
    {
        let seed = self.config.randomness.random_seed();
        let selector = random_value(&seed, caller, self.extrinsic_index);
        self.breed_with_selector(caller, id1, id2, selector)
    }

    /// The id the next unit gets; fails when every id is issued.
    fn next_kitty_id(&self) -> (r: Result<u32, Error>)
        requires
            self.wf(),
        ensures
            self.count() < u32::MAX ==> r == Ok::<u32, Error>((self.count() + 1) as u32),
            self.count() == u32::MAX ==> r == Err::<u32, Error>(Error::KittiesCountOverflow),
    {
        let n = self.owners.len();
        if n >= 0xffff_ffff {
            Err(Error::KittiesCountOverflow)
        } else {
            Ok((n + 1) as u32)
        }
    }

    /// Records `kitty` as unit `id` of `owner`; stake records are left alone.
    fn insert_kitty(&mut self, owner: u64, id: u32, kitty: Kitty)
        requires
            old(self).count() < u32::MAX,
            id == old(self).count() + 1,
        ensures
            final(self).owners@ == old(self).owners@.push(owner),
            final(self).kitties@ == old(self).kitties@.push(kitty),
            final(self).lock_amounts@ == old(self).lock_amounts@,
            final(self).nodes@ == old(self).nodes@,
            final(self).events@ == old(self).events@,
            final(self).balances == old(self).balances,
            final(self).same_context(*old(self)),
    {
        self.owners.push(owner);
        self.kitties.push(kitty);
    }

    /// The unit `id` if `owner` owns it.
    pub fn kitties(&self, owner: u64, id: u32) -> (r: Option<Kitty>)
        requires
            self.wf(),
        ensures
            r == (if self.owns(owner, id) {
                Some(self.kitties@[id - 1])
            } else {
                None::<Kitty>
            }),
    {
        if id == 0 || id as usize > self.owners.len() {
            return None;
        }
        if self.owners[(id - 1) as usize] == owner {
            Some(self.kitties[(id - 1) as usize])
        } else {
            None
        }
    }

    /// Moves unit `id` from `caller` to `to`, together with its stake:
    /// `caller`'s reserve for it (as much of the stake as is reserved) is
    /// released and paid to `to`, and `to` then reserves the full stake.
    /// Fails, changing nothing, when `caller` does not own `id` or `to`
    /// cannot hold the stake.
    pub fn transfer(&mut self, caller: u64, to: u64, id: u32) -> (r: Result<(), Error>)
        requires
            old(self).wf(),
        ensures
            final(self).wf(),
            ({
                let stake = old(self).stake();
                let d = old(self).balances.account(caller);
                let t = old(self).balances.account(to);
                let moved = if stake <= d.reserved { stake } else { d.reserved };
                let overflows = caller != to && t.free + t.reserved + moved > u128::MAX;
                let covered = if caller == to { d.free + moved >= stake } else { t.free + moved >= stake };
                &&& !old(self).owns(caller, id) ==> r == Err::<(), Error>(Error::InvalidaKittyId)
                &&& old(self).owns(caller, id) && overflows ==> r == Err::<(), Error>(Error::BalanceOverflow)
                &&& old(self).owns(caller, id) && !overflows && !covered ==> r == Err::<(), Error>(
                    Error::BalanceNotEnough,
                )
                &&& r is Ok <==> old(self).owns(caller, id) && !overflows && covered
                &&& r is Err ==> *final(self) == *old(self)
                &&& r is Ok && caller != to ==> final(self).balances.account(caller) == (AccountData {
                    free: d.free,
                    reserved: (d.reserved - moved) as u128,
                })
                &&& r is Ok && caller != to ==> final(self).balances.account(to) == (AccountData {
                    free: (t.free + moved - stake) as u128,
                    reserved: (t.reserved + stake) as u128,
                })
                &&& r is Ok && caller == to ==> final(self).balances.account(caller) == (AccountData {
                    free: (d.free + moved - stake) as u128,
                    reserved: (d.reserved - moved + stake) as u128,
                })
                &&& r is Ok ==> final(self).events@ == old(self).events@ + seq![
                    Event::TransferFunds(caller, to, moved, old(self).block_number),
                    Event::LockFunds(to, stake, old(self).block_number),
                    Event::Transfered(caller, to, id),
                ]
            }),
            r is Ok ==> forall|a: u64|
                a != caller && a != to ==> #[trigger] final(self).balances.account(a)
                    == old(self).balances.account(a),
            r is Ok ==> final(self).owners@ == old(self).owners@.update(id - 1, to),
            r is Ok ==> final(self).kitties@ == old(self).kitties@,
            r is Ok ==> final(self).lock_amounts@ == old(self).lock_amounts@,
            r is Ok ==> final(self).nodes@ == old(self).nodes@,
            r is Ok ==> final(self).same_context(*old(self)),
    {
        if id == 0 || id as usize > self.owners.len() || self.owners[(id - 1) as usize] != caller {
            return Err(Error::InvalidaKittyId);
        }
        let amount = self.lock_amounts[(id - 1) as usize];
        let reserved = self.balances.reserved_balance(caller);
        let moved: u128 = if amount <= reserved { amount } else { reserved };
        if caller != to {
            let free = self.balances.free_balance(to);
            let held = self.balances.reserved_balance(to);
            if held > u128::MAX - free || moved > u128::MAX - free - held {
                return Err(Error::BalanceOverflow);
            }
            if moved < amount && free < amount - moved {
                return Err(Error::BalanceNotEnough);
            }
        } else {
            let free = self.balances.free_balance(caller);
            if moved < amount && free < amount - moved {
                return Err(Error::BalanceNotEnough);
            }
        }
        let ghost before = *self;
        self.owners.set((id - 1) as usize, to);
        let _ = self.unreserve_and_transfer(caller, to, amount);
        let _ = self.reserve_funds(to, amount);
        self.events.push(Event::Transfered(caller, to, id));
        proof {
            assert(self.events@ =~= before.events@ + seq![
                Event::TransferFunds(caller, to, moved, before.block_number),
                Event::LockFunds(to, amount, before.block_number),
                Event::Transfered(caller, to, id),
            ]);
        }
        Ok(())
    }

    /// The number of units issued, which is the highest id issued.
    pub fn kitties_count(&self) -> (r: u32)
        requires
            self.wf(),
        ensures
            r == self.count(),
    {
        self.owners.len() as u32
    }

    /// The owner of unit `id`, if it was issued.
    pub fn kitty_owner(&self, id: u32) -> (r: Option<u64>)
        ensures
            r == (if 1 <= id <= self.count() {
                Some(self.owners@[id - 1])
            } else {
                None::<u64>
            }),
    {
        if id == 0 || id as usize > self.owners.len() {
            None
        } else {
            Some(self.owners[(id - 1) as usize])
        }
    }

    /// The stake held for unit `id`, if it was issued.
    pub fn lock_amount(&self, id: u32) -> (r: Option<u128>)
        requires
            self.wf(),
        ensures
            r == (if 1 <= id <= self.count() {
                Some(self.stake())
            } else {
                None::<u128>
            }),
    {
        if id == 0 || id as usize > self.lock_amounts.len() {
            None
        } else {
            Some(self.lock_amounts[(id - 1) as usize])
        }
    }

    /// The units `owner` holds, as `(id, unit)` pairs by id.
    pub fn account_kitties(&self, owner: u64) -> (r: Vec<(u32, Kitty)>)
        requires
            self.wf(),
        ensures
            r@ == inventory(self.owners@, self.kitties@, owner),
    {
        let mut r: Vec<(u32, Kitty)> = Vec::new();
        let mut i: usize = 0;
        while i < self.owners.len()
            invariant
                self.wf(),
                i <= self.owners@.len(),
                r@ == inventory(self.owners@.subrange(0, i as int), self.kitties@, owner),
            decreases self.owners@.len() - i,
        {
            if self.owners[i] == owner {
                r.push(((i + 1) as u32, self.kitties[i]));
            }
            assert(self.owners@.subrange(0, i + 1).drop_last() =~= self.owners@.subrange(0, i as int));
            i = i + 1;
        }
        assert(self.owners@.subrange(0, i as int) =~= self.owners@);
        r
    }

    /// The genealogy: the node of unit `i + 1` at index `i`.
    pub fn get_kitty_from_node(&self) -> (r: &Vec<KittyNode>)
        ensures
            r@ == self.nodes@,
    {
        &self.nodes
    }
}

/// The most recent event.
pub fn last_event(ext: &Module) -> (r: Event)
    requires
        ext.events@.len() > 0,
    ensures
        r == ext.events@.last(),
{
    ext.events[ext.events.len() - 1]
}

/// A fresh store at block 1, call index 0, with a stake of 100 and an
/// all-zero seed, over
/// accounts 1 to 5 holding 10000, 11000, 12000, 13000 and 14000.
pub fn new_test_ext() -> (r: Module)
    ensures
        r.wf(),
        r.count() == 0,
        r.stake() == 100,
        r.config.randomness.payload@ == Seq::new(32, |i: int| 0u8),
        r.block_number == 1,
        r.extrinsic_index == Some(0u32),
        r.events@.len() == 0,
        r.balances.account(1) == (AccountData { free: 10000, reserved: 0 }),
        r.balances.account(2) == (AccountData { free: 11000, reserved: 0 }),
        r.balances.account(3) == (AccountData { free: 12000, reserved: 0 }),
        r.balances.account(4) == (AccountData { free: 13000, reserved: 0 }),
        r.balances.account(5) == (AccountData { free: 14000, reserved: 0 }),
        forall|a: u64| #[trigger] r.balances.account(a).reserved == 0,
        forall|a: u64| (a < 1 || a > 5) ==> #[trigger] r.balances.account(a) == (AccountData {
            free: 0,
            reserved: 0,
        }),
        r.nodes@.len() == 0,
{
    let genesis: Vec<(u64, u128)> = vec![(1, 10000), (2, 11000), (3, 12000), (4, 13000), (5, 14000)];
    let config = Test { kitty_reserve_funds: 100, randomness: MockRandom { payload: [0u8; 32] } };
    proof {
        assert(config.randomness.payload@ =~= Seq::new(32, |i: int| 0u8));
        reveal_with_fuel(crate::balances::genesis_free, 6);
    }
    let mut ext = Module::new(config, &genesis, 1);
    ext.extrinsic_index = Some(0);
    ext
}

/// An entry `(id, unit)` is in the inventory of `owner` exactly when `id`
/// is issued, `owner` owns it and `unit` is its DNA.
pub proof fn lemma_inventory_member(owners: Seq<u64>, kitties: Seq<Kitty>, owner: u64, e: (u32, Kitty))
    requires
        owners.len() <= u32::MAX,
        kitties.len() >= owners.len(),
    ensures
        inventory(owners, kitties, owner).contains(e) <==> 1 <= e.0 <= owners.len() && owners[e.0 - 1]
            == owner && e.1 == kitties[e.0 - 1],
    decreases owners.len(),
{
    if owners.len() > 0 {
        let prev = inventory(owners.drop_last(), kitties, owner);
        lemma_inventory_member(owners.drop_last(), kitties, owner, e);
        if owners.last() == owner {
            let last = (owners.len() as u32, kitties[owners.len() - 1]);
            assert(prev.push(last).contains(e) <==> prev.contains(e) || e == last) by {
                if prev.push(last).contains(e) {
                    let k = choose|k: int| 0 <= k < prev.push(last).len() && prev.push(last)[k] == e;
                    if k < prev.len() {
                        assert(prev[k] == e);
                    }
                }
                if prev.contains(e) {
                    let k = choose|k: int| 0 <= k < prev.len() && prev[k] == e;
                    assert(prev.push(last)[k] == e);
                }
                if e == last {
                    assert(prev.push(last)[prev.len() as int] == e);
                }
            }
        }
    }
}

/// Ownership and inventories agree: an issued unit is in the inventory of
/// its owner and of no other account, and holds the stake.
pub proof fn lemma_ownership_consistent(m: Module, id: u32)
    requires
        m.wf(),
        m.issued().contains(id),
    ensures
        inventory(m.owners@, m.kitties@, m.owners@[id - 1]).contains((id, m.kitties@[id - 1])),
        forall|other: u64, k: Kitty|
            other != m.owners@[id - 1] ==> !(#[trigger] inventory(m.owners@, m.kitties@, other).contains((id, k))),
        m.lock_amounts@[id - 1] == m.stake(),
{
    lemma_inventory_member(m.owners@, m.kitties@, m.owners@[id - 1], (id, m.kitties@[id - 1]));
    assert forall|other: u64, k: Kitty|
        other != m.owners@[id - 1] implies !(#[trigger] inventory(m.owners@, m.kitties@, other).contains((id, k))) by {
        lemma_inventory_member(m.owners@, m.kitties@, other, (id, k));
    }
}

/// A create or breed issues the id just above every issued one: that id
/// was not issued before, and afterwards the issued ids are again exactly
/// 1 up to the count.
pub proof fn lemma_fresh_contiguous_ids(before: Module, after: Module, owner: u64, dna: Seq<u8>)
    requires
        after.wf(),
        after.unit_added(before, owner, dna),
    ensures
        after.count() == before.count() + 1,
        !before.issued().contains(after.count() as u32),
        after.issued() == before.issued().insert(after.count() as u32),
{
    assert(after.issued() =~= before.issued().insert(after.count() as u32));
}

} // verus!
