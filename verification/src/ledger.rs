//! The ledger collaborator: account balances of the bound token, the total
//! issued amount, per-(owner, spender) allowances, and the weights that its
//! dispatches report. Absent accounts and absent allowance entries hold zero.

use crate::codec::{addr_eq, Address};
use vstd::prelude::*;

verus! {

/// Why a ledger dispatch rejected a mutation.
#[derive(Clone, Copy, Debug, PartialEq, Eq)]
pub enum LedgerError {
    InsufficientBalance,
    BalanceOverflow,
}

/// First-match balance lookup; an account without an entry holds zero.
pub open spec fn lookup_balance(s: Seq<(Address, u128)>, a: Seq<u8>) -> u128
    decreases s.len(),
{
    if s.len() == 0 {
        0
    } else if s[0].0@ == a {
        s[0].1
    } else {
        lookup_balance(s.drop_first(), a)
    }
}

/// First-match allowance lookup; an absent pair holds zero.
pub open spec fn lookup_allowance(s: Seq<(Address, Address, u128)>, o: Seq<u8>, p: Seq<u8>) -> u128
    decreases s.len(),
{
    if s.len() == 0 {
        0
    } else if s[0].0@ == o && s[0].1@ == p {
        s[0].2
    } else {
        lookup_allowance(s.drop_first(), o, p)
    }
}

/// Ledger state for one bound token. Balance and allowance entries are kept
/// newest first, so a fresh entry shadows any older one for the same key.
pub struct Ledger {
    pub balances: Vec<(Address, u128)>,
    pub allowances: Vec<(Address, Address, u128)>,
    pub total_issuance: u128,
    pub transfer_weight: u64,
    pub approve_weight: u64,
}

/// How a credit changes the ledger: the credited account gains `amount`,
/// the total issuance grows by `amount`, and nothing else moves.
pub open spec fn credit_transition(l0: Ledger, l1: Ledger, who: Seq<u8>, amount: u128) -> bool {
    &&& l1.spec_balance(who) == l0.spec_balance(who) + amount
    &&& (forall|x: Seq<u8>| x != who ==> l1.spec_balance(x) == l0.spec_balance(x))
    &&& l1.total_issuance == l0.total_issuance + amount
    &&& l1.allowances == l0.allowances
    &&& l1.transfer_weight == l0.transfer_weight
    &&& l1.approve_weight == l0.approve_weight
}

/// How an approval changes the ledger: the (owner, spender) allowance is
/// overwritten with `amount`, and nothing else moves.
pub open spec fn approve_transition(
    l0: Ledger,
    l1: Ledger,
    owner: Seq<u8>,
    spender: Seq<u8>,
    amount: u128,
) -> bool {
    &&& l1.spec_allowance(owner, spender) == amount
    &&& (forall|o: Seq<u8>, p: Seq<u8>|
        !(o == owner && p == spender) ==> l1.spec_allowance(o, p) == l0.spec_allowance(o, p))
    &&& l1.balances == l0.balances
    &&& l1.total_issuance == l0.total_issuance
    &&& l1.transfer_weight == l0.transfer_weight
    &&& l1.approve_weight == l0.approve_weight
}

/// How a successful transfer changes the ledger: `amount` moves from `from`
/// to `to`, total issuance and everything else stay put.
pub open spec fn transfer_transition(
    l0: Ledger,
    l1: Ledger,
    from: Seq<u8>,
    to: Seq<u8>,
    amount: u128,
) -> bool {
    &&& amount <= l0.spec_balance(from)
    &&& if from == to {
        l1.spec_balance(from) == l0.spec_balance(from)
    } else {
        &&& l1.spec_balance(from) == l0.spec_balance(from) - amount
        &&& l1.spec_balance(to) == l0.spec_balance(to) + amount
    }
    &&& (forall|x: Seq<u8>| x != from && x != to ==> l1.spec_balance(x) == l0.spec_balance(x))
    &&& l1.total_issuance == l0.total_issuance
    &&& l1.allowances == l0.allowances
    &&& l1.transfer_weight == l0.transfer_weight
    &&& l1.approve_weight == l0.approve_weight
}

/// Crediting an account with `x` and then an account with `y` raises the
/// total issued amount by exactly `x + y`.
pub proof fn lemma_total_supply_after_credits(
    l0: Ledger,
    l1: Ledger,
    l2: Ledger,
    a: Seq<u8>,
    b: Seq<u8>,
    x: u128,
    y: u128,
)
    requires
        credit_transition(l0, l1, a, x),
        credit_transition(l1, l2, b, y),
    ensures
        l2.total_issuance == l0.total_issuance + x + y,
{
}

/// An approval overwrites the stored allowance absolutely: the pair reads
/// back exactly the amount last approved, and a second approval discards the
/// first amount rather than adding to it.
pub proof fn lemma_approve_overwrites(
    l0: Ledger,
    l1: Ledger,
    l2: Ledger,
    owner: Seq<u8>,
    spender: Seq<u8>,
    x: u128,
    y: u128,
)
    requires
        approve_transition(l0, l1, owner, spender, x),
        approve_transition(l1, l2, owner, spender, y),
    ensures
        l1.spec_allowance(owner, spender) == x,
        l2.spec_allowance(owner, spender) == y,
{
}

/// A successful transfer between distinct accounts decreases the sender's
/// balance by exactly the moved amount, increases the recipient's by the
/// same, and leaves the total issued amount and every other balance as they
/// were.
pub proof fn lemma_transfer_moves_amount(
    l0: Ledger,
    l1: Ledger,
    from: Seq<u8>,
    to: Seq<u8>,
    amount: u128,
)
    requires
        transfer_transition(l0, l1, from, to, amount),
        from != to,
    ensures
        l1.spec_balance(from) == l0.spec_balance(from) - amount,
        l1.spec_balance(to) == l0.spec_balance(to) + amount,
        l1.total_issuance == l0.total_issuance,
        forall|x: Seq<u8>| x != from && x != to ==> l1.spec_balance(x) == l0.spec_balance(x),
{
}

impl Ledger {
    /// The balance of the account with address bytes `a`.
    pub open spec fn spec_balance(&self, a: Seq<u8>) -> u128 {
        lookup_balance(self.balances@, a)
    }

    /// The allowance granted by `o` to `p`.
    pub open spec fn spec_allowance(&self, o: Seq<u8>, p: Seq<u8>) -> u128 {
        lookup_allowance(self.allowances@, o, p)
    }

    /// An empty ledger: no balances, no allowances, nothing issued.
    pub fn new(transfer_weight: u64, approve_weight: u64) -> (r: Ledger)
        ensures
            r.total_issuance == 0,
            r.transfer_weight == transfer_weight,
            r.approve_weight == approve_weight,
            forall|a: Seq<u8>| r.spec_balance(a) == 0,
            forall|o: Seq<u8>, p: Seq<u8>| r.spec_allowance(o, p) == 0,
    {
        Ledger {
            balances: Vec::new(),
            allowances: Vec::new(),
            total_issuance: 0,
            transfer_weight,
            approve_weight,
        }
    }

    /// The aggregate issued amount of the bound token.
    pub fn total_supply(&self) -> (r: u128)
        ensures
            r == self.total_issuance,
    {
        self.total_issuance
    }

    /// The balance of `who`; an account never seen resolves to zero.
    pub fn balance_of(&self, who: &Address) -> (r: u128)
        ensures
            r == self.spec_balance(who@),
    {
        let n = self.balances.len();
        let mut i: usize = 0;
        proof {
            assert(self.balances@.skip(0) =~= self.balances@);
        }
        while i < n
            invariant
                0 <= i <= n,
                n == self.balances@.len(),
                lookup_balance(self.balances@, who@) == lookup_balance(
                    self.balances@.skip(i as int),
                    who@,
                ),
            decreases n - i,
        {
            let entry = &self.balances[i];
            proof {
                assert(self.balances@.skip(i as int)[0] == self.balances@[i as int]);
            }
            if addr_eq(&entry.0, who) {
                return entry.1;
            }
            proof {
                assert(self.balances@.skip(i as int).drop_first() =~= self.balances@.skip(
                    i as int + 1));
            }
            i = i + 1;
        }
        proof {
            assert(self.balances@.skip(n as int) =~= Seq::<(Address, u128)>::empty());
        }
        0
    }

    /// The allowance of `(owner, spender)`; an absent entry resolves to zero.
    pub fn allowance(&self, owner: &Address, spender: &Address) -> (r: u128)
        ensures
            r == self.spec_allowance(owner@, spender@),
    {
        let n = self.allowances.len();
        let mut i: usize = 0;
        proof {
            assert(self.allowances@.skip(0) =~= self.allowances@);
        }
        while i < n
            invariant
                0 <= i <= n,
                n == self.allowances@.len(),
                lookup_allowance(self.allowances@, owner@, spender@) == lookup_allowance(
                    self.allowances@.skip(i as int),
                    owner@,
                    spender@,
                ),
            decreases n - i,
        {
            let entry = &self.allowances[i];
            proof {
                assert(self.allowances@.skip(i as int)[0] == self.allowances@[i as int]);
            }
            if addr_eq(&entry.0, owner) && addr_eq(&entry.1, spender) {
                return entry.2;
            }
            proof {
                assert(self.allowances@.skip(i as int).drop_first() =~= self.allowances@.skip(
                    i as int + 1));
            }
            i = i + 1;
        }
        proof {
            assert(self.allowances@.skip(n as int) =~= Seq::<(Address, Address, u128)>::empty());
        }
        0
    }

    /// Issue `amount` new units to `who`.
    pub fn credit(&mut self, who: &Address, amount: u128)
        requires
            old(self).total_issuance + amount <= u128::MAX,
            old(self).spec_balance(who@) + amount <= u128::MAX,
        ensures
            credit_transition(*old(self), *final(self), who@, amount),
    {
        let bal = self.balance_of(who);
        let ghost s0 = self.balances@;
        self.balances.insert(0, (*who, bal + amount));
        self.total_issuance = self.total_issuance + amount;
        proof {
            assert(self.balances@.drop_first() =~= s0);
            assert(self.balances@[0] == (*who, (bal + amount) as u128));
        }
    }

    /// Overwrite the allowance of `(owner, spender)` with `amount`; always
    /// succeeds and reports the configured approval weight.
    pub fn set_allowance(&mut self, owner: &Address, spender: &Address, amount: u128) -> (w: u64)
        ensures
            approve_transition(*old(self), *final(self), owner@, spender@, amount),
            w == old(self).approve_weight,
    {
        let ghost s0 = self.allowances@;
        self.allowances.insert(0, (*owner, *spender, amount));
        proof {
            assert(self.allowances@.drop_first() =~= s0);
            assert(self.allowances@[0] == (*owner, *spender, amount));
        }
        self.approve_weight
    }

    /// Move `amount` from `from` to `to`, reporting the transfer weight, or
    /// reject the mutation and leave every balance unchanged.
    pub fn transfer(&mut self, from: &Address, to: &Address, amount: u128) -> (r: Result<
        u64,
        LedgerError,
    >)
        ensures
            ({
                let l0 = *old(self);
                if amount > l0.spec_balance(from@) {
                    &&& r == Err::<u64, LedgerError>(LedgerError::InsufficientBalance)
                    &&& *final(self) == l0
                } else if from@ != to@ && l0.spec_balance(to@) + amount > u128::MAX {
                    &&& r == Err::<u64, LedgerError>(LedgerError::BalanceOverflow)
                    &&& *final(self) == l0
                } else {
                    &&& r == Ok::<u64, LedgerError>(l0.transfer_weight)
                    &&& transfer_transition(l0, *final(self), from@, to@, amount)
                }
            }),
    {
        let bal_from = self.balance_of(from);
        if amount > bal_from {
            return Err(LedgerError::InsufficientBalance);
        }
        if addr_eq(from, to) {
            return Ok(self.transfer_weight);
        }
        let bal_to = self.balance_of(to);
        if u128::MAX - bal_to < amount {
            return Err(LedgerError::BalanceOverflow);
        }
        let ghost s0 = self.balances@;
        self.balances.insert(0, (*from, bal_from - amount));
        let ghost s1 = self.balances@;
        self.balances.insert(0, (*to, bal_to + amount));
        proof {
            assert(s1.drop_first() =~= s0);
            assert(s1[0] == (*from, (bal_from - amount) as u128));
            assert(self.balances@.drop_first() =~= s1);
            assert(self.balances@[0] == (*to, (bal_to + amount) as u128));
            assert(lookup_balance(self.balances@, to@) == bal_to + amount);
            assert(lookup_balance(self.balances@, from@) == lookup_balance(s1, from@));
            assert(lookup_balance(s1, from@) == bal_from - amount);
            assert forall|x: Seq<u8>| x != from@ && x != to@ implies lookup_balance(
                self.balances@,
                x,
            ) == lookup_balance(s0, x) by {
                assert(lookup_balance(self.balances@, x) == lookup_balance(s1, x));
                assert(lookup_balance(s1, x) == lookup_balance(s0, x));
            }
        }
        Ok(self.transfer_weight)
    }
}

} // verus!
