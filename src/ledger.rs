//! The escrow ledger that holds the players' funds: each account has a free
//! balance and a locked (reserved) balance.
use vstd::prelude::*;

use std::collections::BTreeMap;

use crate::{AccountId, Balance};

verus! {

/// Why a ledger refused an operation.
#[derive(Debug, Clone, Copy, PartialEq, Eq, Structural)]
pub enum LedgerError {
    /// The account does not hold enough funds of the kind needed.
    InsufficientBalance,
    /// The account's total balance would no longer fit in a `Balance`.
    Overflow,
}

/// The smaller of two amounts.
pub open spec fn min_nat(a: nat, b: nat) -> nat {
    if a <= b {
        a
    } else {
        b
    }
}

/// The funds of every account but `a` and `b` are the same in `pre` and `post`.
pub open spec fn others_unchanged<L: EscrowLedger>(
    pre: L,
    post: L,
    a: AccountId,
    b: AccountId,
) -> bool {
    forall|x: AccountId|
        #![trigger post.free_balance(x)]
        #![trigger post.reserved_balance(x)]
        x != a && x != b ==> {
            &&& post.free_balance(x) == pre.free_balance(x)
            &&& post.reserved_balance(x) == pre.reserved_balance(x)
        }
}

/// `post` is `pre` after `amount` of `who`'s free funds were locked.
pub open spec fn locked<L: EscrowLedger>(pre: L, post: L, who: AccountId, amount: nat) -> bool {
    &&& pre.free_balance(who) >= amount
    &&& post.free_balance(who) == pre.free_balance(who) - amount
    &&& post.reserved_balance(who) == pre.reserved_balance(who) + amount
    &&& others_unchanged(pre, post, who, who)
}

/// The ledger that the game locks, moves and releases stakes through.
pub trait EscrowLedger: Sized {
    /// The ledger's own consistency condition, kept by every operation.
    spec fn inv(&self) -> bool;

    /// Funds of `who` that are free to spend.
    spec fn free_balance(&self, who: AccountId) -> nat;

    /// Funds of `who` that are locked.
    spec fn reserved_balance(&self, who: AccountId) -> nat;

    /// Whether the ledger accepts to lock `amount` of `who`'s free funds.
    spec fn can_lock(&self, who: AccountId, amount: nat) -> bool;

    /// Whether the ledger accepts to move `amount` of `from`'s locked funds to
    /// `to`'s locked funds.
    spec fn can_transfer_locked(&self, from: AccountId, to: AccountId, amount: nat) -> bool;

    /// Locks `amount` of `who`'s free funds. Fails, changing nothing, when the
    /// free funds fall short, and may fail for reasons of the ledger's own.
    fn lock(&mut self, who: AccountId, amount: Balance) -> (r: Result<(), LedgerError>)
        requires
            old(self).inv(),
        ensures
            final(self).inv(),
            r is Ok ==> {
                &&& old(self).free_balance(who) >= amount
                &&& final(self).free_balance(who) == old(self).free_balance(who) - amount
                &&& final(self).reserved_balance(who) == old(self).reserved_balance(who) + amount
                &&& forall|x: AccountId|
                    #![trigger final(self).free_balance(x)]
                    #![trigger final(self).reserved_balance(x)]
                    x != who ==> {
                        &&& final(self).free_balance(x) == old(self).free_balance(x)
                        &&& final(self).reserved_balance(x) == old(self).reserved_balance(x)
                    }
            },
            r is Err ==> *final(self) == *old(self),
            r is Ok <==> old(self).can_lock(who, amount as nat),
            old(self).free_balance(who) < amount ==> r is Err,
    ;

    /// Moves `amount` of `from`'s locked funds into `to`'s locked funds. Fails,
    /// changing nothing, when `from` has less than `amount` locked, and may
    /// fail for reasons of the ledger's own.
    fn transfer_locked(&mut self, from: AccountId, to: AccountId, amount: Balance) -> (r: Result<
        (),
        LedgerError,
    >)
        requires
            old(self).inv(),
            from != to,
        ensures
            final(self).inv(),
            r is Ok ==> {
                &&& old(self).reserved_balance(from) >= amount
                &&& final(self).reserved_balance(from) == old(self).reserved_balance(from) - amount
                &&& final(self).reserved_balance(to) == old(self).reserved_balance(to) + amount
                &&& final(self).free_balance(from) == old(self).free_balance(from)
                &&& final(self).free_balance(to) == old(self).free_balance(to)
                &&& forall|x: AccountId|
                    #![trigger final(self).free_balance(x)]
                    #![trigger final(self).reserved_balance(x)]
                    x != from && x != to ==> {
                        &&& final(self).free_balance(x) == old(self).free_balance(x)
                        &&& final(self).reserved_balance(x) == old(self).reserved_balance(x)
                    }
            },
            r is Err ==> *final(self) == *old(self),
            r is Ok <==> old(self).can_transfer_locked(from, to, amount as nat),
            old(self).reserved_balance(from) < amount ==> r is Err,
    ;

    /// Frees up to `amount` of `who`'s locked funds: all of `amount` when that
    /// much is locked.
    fn release(&mut self, who: AccountId, amount: Balance)
        requires
            old(self).inv(),
        ensures
            final(self).inv(),
            ({
                let moved = if amount <= old(self).reserved_balance(who) {
                    amount as nat
                } else {
                    old(self).reserved_balance(who)
                };
                &&& final(self).free_balance(who) == old(self).free_balance(who) + moved
                &&& final(self).reserved_balance(who) == old(self).reserved_balance(who) - moved
                &&& forall|x: AccountId|
                    #![trigger final(self).free_balance(x)]
                    #![trigger final(self).reserved_balance(x)]
                    x != who ==> {
                        &&& final(self).free_balance(x) == old(self).free_balance(x)
                        &&& final(self).reserved_balance(x) == old(self).reserved_balance(x)
                    }
            }),
    ;
}

/// The funds of one account.
#[derive(Debug, Clone, Copy, PartialEq, Eq, Structural)]
pub struct AccountData {
    pub free: Balance,
    pub reserved: Balance,
}

/// An in-memory ledger. An account it has never seen holds nothing, and the
/// total of each account's free and locked funds fits in a `Balance`.
pub struct Balances {
    accounts: BTreeMap<AccountId, AccountData>,
}

impl Balances {
    /// Every account's total of free and locked funds fits in a `Balance`.
    pub closed spec fn totals_fit(&self) -> bool {
        forall|who: AccountId| #[trigger]
            self.accounts@.contains_key(who) ==> self.accounts@[who].free
                + self.accounts@[who].reserved <= u64::MAX
    }

    /// The funds of `who`.
    pub closed spec fn account(&self, who: AccountId) -> AccountData {
        if self.accounts@.contains_key(who) {
            self.accounts@[who]
        } else {
            AccountData { free: 0, reserved: 0 }
        }
    }

    /// A ledger in which every account is empty.
    pub fn new() -> (r: Self)
        ensures
            r.totals_fit(),
            forall|who: AccountId| #[trigger] r.account(who) == (AccountData { free: 0, reserved: 0 }),
    {
        Balances { accounts: BTreeMap::new() }
    }

    /// The funds of `who`.
    pub fn account_data(&self, who: AccountId) -> (r: AccountData)
        ensures
            r == self.account(who),
    {
        match self.accounts.get(&who) {
            Some(data) => *data,
            None => AccountData { free: 0, reserved: 0 },
        }
    }

    /// Sets the free funds of `who` to `amount`, keeping its locked funds.
    pub fn set_free_balance(&mut self, who: AccountId, amount: Balance)
        requires
            old(self).totals_fit(),
            amount + old(self).account(who).reserved <= u64::MAX,
        ensures
            final(self).totals_fit(),
            final(self).account(who) == (AccountData {
                free: amount,
                reserved: old(self).account(who).reserved,
            }),
            forall|x: AccountId| x != who ==> #[trigger] final(self).account(x) == old(self).account(x),
    {
        let data = self.account_data(who);
        self.put(who, AccountData { free: amount, reserved: data.reserved });
    }

    fn put(&mut self, who: AccountId, data: AccountData)
        requires
            old(self).totals_fit(),
            data.free + data.reserved <= u64::MAX,
        ensures
            final(self).totals_fit(),
            final(self).account(who) == data,
            forall|x: AccountId| x != who ==> #[trigger] final(self).account(x) == old(self).account(x),
    {
        self.accounts.insert(who, data);
    }
}

impl EscrowLedger for Balances {
    open spec fn inv(&self) -> bool {
        self.totals_fit()
    }

    open spec fn free_balance(&self, who: AccountId) -> nat {
        self.account(who).free as nat
    }

    open spec fn reserved_balance(&self, who: AccountId) -> nat {
        self.account(who).reserved as nat
    }

    /// Locking fails only when the free funds fall short.
    open spec fn can_lock(&self, who: AccountId, amount: nat) -> bool {
        self.account(who).free >= amount
    }

    /// Moving locked funds fails only when `from` has too little locked, or
    /// when `to`'s total would no longer fit in a `Balance`.
    open spec fn can_transfer_locked(&self, from: AccountId, to: AccountId, amount: nat) -> bool {
        &&& self.account(from).reserved >= amount
        &&& self.account(to).free + self.account(to).reserved + amount <= u64::MAX
    }

    fn lock(&mut self, who: AccountId, amount: Balance) -> (r: Result<(), LedgerError>) {
        let data = self.account_data(who);
        if data.free < amount {
            return Err(LedgerError::InsufficientBalance);
        }
        self.put(who, AccountData { free: data.free - amount, reserved: data.reserved + amount });
        Ok(())
    }

    fn transfer_locked(&mut self, from: AccountId, to: AccountId, amount: Balance) -> (r: Result<
        (),
        LedgerError,
    >) {
        let source = self.account_data(from);
        if source.reserved < amount {
            return Err(LedgerError::InsufficientBalance);
        }
        let target = self.account_data(to);
        if amount > u64::MAX - target.free - target.reserved {
            return Err(LedgerError::Overflow);
        }
        self.put(from, AccountData { free: source.free, reserved: source.reserved - amount });
        self.put(to, AccountData { free: target.free, reserved: target.reserved + amount });
        Ok(())
    }

    fn release(&mut self, who: AccountId, amount: Balance) {
        let data = self.account_data(who);
        let moved = if amount <= data.reserved {
            amount
        } else {
            data.reserved
        };
        self.put(who, AccountData { free: data.free + moved, reserved: data.reserved - moved });
    }
}

impl Balances {
    /// The free funds of `who`.
    pub fn free(&self, who: AccountId) -> (r: Balance)
        ensures
            r == self.free_balance(who),
    {
        self.account_data(who).free
    }

    /// The locked funds of `who`.
    pub fn reserved(&self, who: AccountId) -> (r: Balance)
        ensures
            r == self.reserved_balance(who),
    {
        self.account_data(who).reserved
    }
}

} // verus!
