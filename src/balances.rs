//! An in-memory reservable-currency ledger: every account has a free and a
//! reserved balance, and funds move between the two or between accounts.
use vstd::prelude::*;
use vstd::hash_map::HashMapWithView;

verus! {

broadcast use vstd::std_specs::hash::group_hash_axioms;

/// The balances of one account.
#[derive(Clone, Copy, Debug, PartialEq, Eq, Structural)]
pub struct AccountData {
    pub free: u128,
    pub reserved: u128,
}

/// Why the ledger refused an operation.
#[derive(Clone, Copy, Debug, PartialEq, Eq, Structural)]
pub enum BalanceError {
    /// The free balance does not cover the amount.
    InsufficientBalance,
    /// The receiving account's total would not fit in a balance.
    Overflow,
}

/// Free balance of `who` after a genesis list: the last entry for `who`
/// counts, and an account with no entry holds nothing.
pub open spec fn genesis_free(genesis: Seq<(u64, u128)>, who: u64) -> u128
    decreases genesis.len(),
{
    if genesis.len() == 0 {
        0
    } else if genesis.last().0 == who {
        genesis.last().1
    } else {
        genesis_free(genesis.drop_last(), who)
    }
}

/// The ledger. An account that was never touched holds nothing.
pub struct Balances {
    accounts: HashMapWithView<u64, AccountData>,
}

impl View for Balances {
    type V = Map<u64, AccountData>;

    closed spec fn view(&self) -> Map<u64, AccountData> {
        self.accounts@
    }
}

impl Balances {
    /// The balances of `who`, zero for an account never touched.
    pub open spec fn account(self, who: u64) -> AccountData {
        if self@.contains_key(who) {
            self@[who]
        } else {
            AccountData { free: 0, reserved: 0 }
        }
    }

    /// Every account's total (free plus reserved) fits in a balance.
    pub open spec fn wf(self) -> bool {
        forall|a: u64| #[trigger] self@.contains_key(a) ==> self@[a].free + self@[a].reserved <= u128::MAX
    }

    /// Every account other than `who` is as in `before`.
    pub open spec fn others_unchanged(self, before: Balances, who: u64) -> bool {
        forall|a: u64| a != who ==> #[trigger] self.account(a) == before.account(a)
    }

    /// Whether `transfer(from, to, value)` succeeds.
    pub open spec fn can_transfer(self, from: u64, to: u64, value: u128) -> bool {
        from == to || (self.account(from).free >= value && self.account(to).free
            + self.account(to).reserved + value <= u128::MAX)
    }

    /// A ledger whose accounts hold the genesis amounts as free balance.
    pub fn from_genesis(genesis: &Vec<(u64, u128)>) -> (r: Balances)
        ensures
            r.wf(),
            forall|a: u64| #[trigger] r.account(a) == (AccountData { free: genesis_free(genesis@, a), reserved: 0 }),
    {
        let mut accounts: HashMapWithView<u64, AccountData> = HashMapWithView::new();
        let mut i: usize = 0;
        while i < genesis.len()
            invariant
                i <= genesis@.len(),
                forall|a: u64| #[trigger] accounts@.contains_key(a) ==> accounts@[a].reserved == 0,
                forall|a: u64|
                    #[trigger] genesis_free(genesis@.subrange(0, i as int), a) == (if accounts@.contains_key(a) {
                        accounts@[a].free
                    } else {
                        0
                    }),
            decreases genesis@.len() - i,
        {
            let (who, amount) = genesis[i];
            accounts.insert(who, AccountData { free: amount, reserved: 0 });
            let ghost next = genesis@.subrange(0, i + 1);
            assert(next.drop_last() =~= genesis@.subrange(0, i as int));
            assert(next.last() == (who, amount));
            assert forall|a: u64| #[trigger] genesis_free(next, a) == (if accounts@.contains_key(a) {
                accounts@[a].free
            } else {
                0
            }) by {
                if a != who {
                    assert(genesis_free(next, a) == genesis_free(genesis@.subrange(0, i as int), a));
                }
            }
            i = i + 1;
        }
        assert(genesis@.subrange(0, i as int) =~= genesis@);
        Balances { accounts }
    }

    fn get(&self, who: u64) -> (r: AccountData)
        ensures
            r == self.account(who),
    {
        match self.accounts.get(&who) {
            Some(d) => *d,
            None => AccountData { free: 0, reserved: 0 },
        }
    }

    fn put(&mut self, who: u64, d: AccountData)
        requires
            old(self).wf(),
            d.free + d.reserved <= u128::MAX,
        ensures
            final(self).wf(),
            final(self).account(who) == d,
            final(self).others_unchanged(*old(self), who),
    {
        self.accounts.insert(who, d);
        assert forall|a: u64| #[trigger] self@.contains_key(a) implies self@[a].free
            + self@[a].reserved <= u128::MAX by {
            if a != who {
                assert(old(self)@.contains_key(a));
            }
        }
    }

    /// The free balance of `who`.
    pub fn free_balance(&self, who: u64) -> (r: u128)
        ensures
            r == self.account(who).free,
    {
        self.get(who).free
    }

    /// The reserved balance of `who`.
    pub fn reserved_balance(&self, who: u64) -> (r: u128)
        ensures
            r == self.account(who).reserved,
    {
        self.get(who).reserved
    }

    /// Moves `value` from the free to the reserved balance of `who`; fails,
    /// changing nothing, when the free balance does not cover it.
    pub fn reserve(&mut self, who: u64, value: u128) -> (r: Result<(), BalanceError>)
        requires
            old(self).wf(),
        ensures
            final(self).wf(),
            r is Ok <==> old(self).account(who).free >= value,
            r is Err ==> r == Err::<(), BalanceError>(BalanceError::InsufficientBalance) && final(self)@ == old(self)@,
            r is Ok ==> final(self).account(who) == (AccountData {
                free: (old(self).account(who).free - value) as u128,
                reserved: (old(self).account(who).reserved + value) as u128,
            }),
            r is Ok ==> final(self).others_unchanged(*old(self), who),
    {
        let d = self.get(who);
        if d.free < value {
            return Err(BalanceError::InsufficientBalance);
        }
        proof {
            if self@.contains_key(who) {
                assert(self@[who].free + self@[who].reserved <= u128::MAX);
            }
        }
        self.put(who, AccountData { free: d.free - value, reserved: d.reserved + value });
        Ok(())
    }

    /// Moves up to `value` from the reserved back to the free balance of
    /// `who`, and returns the part of `value` that was not reserved.
    pub fn unreserve(&mut self, who: u64, value: u128) -> (overdraft: u128)
        requires
            old(self).wf(),
        ensures
            final(self).wf(),
            ({
                let d = old(self).account(who);
                let actual = if value <= d.reserved { value } else { d.reserved };
                &&& overdraft == value - actual
                &&& final(self).account(who) == (AccountData {
                    free: (d.free + actual) as u128,
                    reserved: (d.reserved - actual) as u128,
                })
            }),
            final(self).others_unchanged(*old(self), who),
    {
        let d = self.get(who);
        let actual: u128 = if value <= d.reserved { value } else { d.reserved };
        proof {
            if self@.contains_key(who) {
                assert(self@[who].free + self@[who].reserved <= u128::MAX);
            }
        }
        self.put(who, AccountData { free: d.free + actual, reserved: d.reserved - actual });
        value - actual
    }

    /// Moves `value` from the free balance of `from` to that of `to`. A
    /// transfer to oneself changes nothing. Fails, changing nothing, when
    /// `from` cannot cover it or `to`'s total would overflow.
    pub fn transfer(&mut self, from: u64, to: u64, value: u128) -> (r: Result<(), BalanceError>)
        requires
            old(self).wf(),
        ensures
            final(self).wf(),
            r is Ok <==> old(self).can_transfer(from, to, value),
            r is Err ==> final(self)@ == old(self)@,
            r == Err::<(), BalanceError>(BalanceError::InsufficientBalance) <==> from != to
                && old(self).account(from).free < value,
            r is Ok && from == to ==> final(self)@ == old(self)@,
            r is Ok && from != to ==> final(self).account(from) == (AccountData {
                free: (old(self).account(from).free - value) as u128,
                reserved: old(self).account(from).reserved,
            }),
            r is Ok && from != to ==> final(self).account(to) == (AccountData {
                free: (old(self).account(to).free + value) as u128,
                reserved: old(self).account(to).reserved,
            }),
            r is Ok ==> forall|a: u64| a != from && a != to ==> #[trigger] final(self).account(a) == old(self).account(a),
    {
        if from == to {
            return Ok(());
        }
        let f = self.get(from);
        let t = self.get(to);
        if f.free < value {
            return Err(BalanceError::InsufficientBalance);
        }
        if t.reserved > u128::MAX - t.free || value > u128::MAX - t.free - t.reserved {
            return Err(BalanceError::Overflow);
        }
        proof {
            if self@.contains_key(from) {
                assert(self@[from].free + self@[from].reserved <= u128::MAX);
            }
        }
        self.put(from, AccountData { free: f.free - value, reserved: f.reserved });
        self.put(to, AccountData { free: t.free + value, reserved: t.reserved });
        Ok(())
    }
}

} // verus!
