use vstd::prelude::*;

use crate::errors::ErrorCode;
use crate::records::Authority;
use crate::store::{distinct_keys, has_key, lemma_lookup_at, lemma_lookup_push, lemma_lookup_update, lemma_no_key, lookup};

verus! {

/// One fungible-balance account of the value-transfer sub-ledger: a holding
/// of `amount` units of `mint`, movable only by `owner`.
#[derive(Clone, Copy, Debug, PartialEq, Eq, Structural)]
pub struct TokenAccount {
    pub id: u64,
    pub mint: u64,
    pub owner: Authority,
    pub amount: u64,
}

/// What one completed movement of `amount` units from `from` to `to` does
/// to the ledger: the source drops and the destination rises by exactly
/// `amount`, a self-transfer moves nothing, and no other account changes.
pub open spec fn transfer_effect(
    pre: TokenLedger,
    post: TokenLedger,
    from: u64,
    to: u64,
    amount: u64,
) -> bool {
    &&& from != to ==> post.account(from) == Some(
        TokenAccount {
            amount: (pre.account(from).unwrap().amount - amount) as u64,
            ..pre.account(from).unwrap()
        },
    )
    &&& from != to ==> post.account(to) == Some(
        TokenAccount {
            amount: (pre.account(to).unwrap().amount + amount) as u64,
            ..pre.account(to).unwrap()
        },
    )
    &&& from == to ==> post == pre
    &&& forall|other: u64|
        other != from && other != to ==> post.account(other) == pre.account(other)
}

/// The key function addressing the ledger's backing sequence.
pub open spec fn account_id() -> spec_fn(TokenAccount) -> u64 {
    |a: TokenAccount| a.id
}

/// The value-transfer sub-ledger: token accounts addressed by id. Transfers
/// are atomic and all-or-nothing; a failed movement changes no balance.
#[derive(Debug)]
pub struct TokenLedger {
    accounts: Vec<TokenAccount>,
}

impl TokenLedger {
    /// Every account id addresses at most one account.
    pub closed spec fn wf(self) -> bool {
        distinct_keys(self.accounts@, account_id())
    }

    /// The account at `id`, if any.
    pub closed spec fn account(self, id: u64) -> Option<TokenAccount> {
        lookup(self.accounts@, account_id(), id)
    }

    /// The balance at `id`; zero for an absent account.
    pub open spec fn balance(self, id: u64) -> nat {
        match self.account(id) {
            Some(a) => a.amount as nat,
            None => 0,
        }
    }

    /// A movement of `amount` from `from` to `to` can complete: both
    /// accounts exist, the authority owns the source, the mints agree, the
    /// source is funded, and the destination does not overflow.
    pub open spec fn can_transfer(self, from: u64, to: u64, amount: u64, auth: Authority) -> bool {
        &&& self.account(from) is Some
        &&& self.account(to) is Some
        &&& self.account(from).unwrap().owner == auth
        &&& self.account(from).unwrap().mint == self.account(to).unwrap().mint
        &&& self.account(from).unwrap().amount >= amount
        &&& (from == to || self.account(to).unwrap().amount + amount <= u64::MAX)
    }

    pub fn new() -> (ledger: TokenLedger)
        ensures
            ledger.wf(),
            forall|id: u64| ledger.account(id) is None,
    {
        let ledger = TokenLedger { accounts: Vec::new() };
        proof {
            assert forall|id: u64| ledger.account(id) is None by {
                lemma_no_key(ledger.accounts@, account_id(), id);
            }
        }
        ledger
    }

    /// The index of the account at `id`, if any.
    fn find(&self, id: u64) -> (r: Option<usize>)
        ensures
            match r {
                Some(i) => i < self.accounts@.len() && self.accounts@[i as int].id == id,
                None => !has_key(self.accounts@, account_id(), id),
            },
    {
        let n = self.accounts.len();
        for i in 0..n
            invariant
                n == self.accounts@.len(),
                forall|j: int| 0 <= j < i ==> self.accounts@[j].id != id,
        {
            if self.accounts[i].id == id {
                return Some(i);
            }
        }
        proof {
            lemma_no_key(self.accounts@, account_id(), id);
        }
        None
    }

    /// Opens a fresh account. Fails with DuplicateRecord when the id is
    /// taken; on success the account holds exactly the opening amount and
    /// every other id is untouched.
    pub fn create_account(&mut self, id: u64, mint: u64, owner: Authority, amount: u64) -> (r:
        Result<(), ErrorCode>)
        requires
            old(self).wf(),
        ensures
            final(self).wf(),
            r is Ok <==> old(self).account(id) is None,
            r is Err ==> *final(self) == *old(self) && r == Err::<(), ErrorCode>(
                ErrorCode::DuplicateRecord,
            ),
            r is Ok ==> final(self).account(id) == Some(
                TokenAccount { id, mint, owner, amount },
            ),
            r is Ok ==> forall|other: u64|
                other != id ==> final(self).account(other) == old(self).account(other),
    {
        match self.find(id) {
            Some(i) => {
                proof {
                    assert(account_id()(self.accounts@[i as int]) == id);
                    assert(has_key(self.accounts@, account_id(), id));
                }
                Err(ErrorCode::DuplicateRecord)
            },
            None => {
                let account = TokenAccount { id, mint, owner, amount };
                proof {
                    lemma_lookup_push(self.accounts@, account_id(), account);
                }
                self.accounts.push(account);
                Ok(())
            },
        }
    }

    /// Moves `amount` units from `from` to `to` on `auth`'s authority.
    /// All-or-nothing: on failure no balance moves; on success the source
    /// drops and the destination rises by exactly `amount` (a self-transfer
    /// moves nothing), and every other account is untouched.
    pub fn transfer(&mut self, from: u64, to: u64, amount: u64, auth: Authority) -> (r: Result<
        (),
        ErrorCode,
    >)
        requires
            old(self).wf(),
        ensures
            final(self).wf(),
            r is Ok <==> old(self).can_transfer(from, to, amount, auth),
            r is Err ==> *final(self) == *old(self) && r == Err::<(), ErrorCode>(
                ErrorCode::TransferFailed,
            ),
            r is Ok ==> transfer_effect(*old(self), *final(self), from, to, amount),
    {
        let from_idx = match self.find(from) {
            Some(i) => i,
            None => {
                return Err(ErrorCode::TransferFailed);
            },
        };
        let to_idx = match self.find(to) {
            Some(i) => i,
            None => {
                return Err(ErrorCode::TransferFailed);
            },
        };
        proof {
            lemma_lookup_at(self.accounts@, account_id(), from_idx as int);
            lemma_lookup_at(self.accounts@, account_id(), to_idx as int);
        }
        let source = self.accounts[from_idx];
        let dest = self.accounts[to_idx];
        if !(source.owner == auth) {
            return Err(ErrorCode::TransferFailed);
        }
        if source.mint != dest.mint {
            return Err(ErrorCode::TransferFailed);
        }
        if source.amount < amount {
            return Err(ErrorCode::TransferFailed);
        }
        if from_idx == to_idx {
            return Ok(());
        }
        if dest.amount > u64::MAX - amount {
            return Err(ErrorCode::TransferFailed);
        }
        let ghost pre = self.accounts@;
        self.accounts[from_idx].amount = source.amount - amount;
        proof {
            lemma_lookup_update(
                pre,
                account_id(),
                from_idx as int,
                self.accounts@[from_idx as int],
            );
        }
        let ghost mid = self.accounts@;
        self.accounts[to_idx].amount = dest.amount + amount;
        proof {
            lemma_lookup_update(mid, account_id(), to_idx as int, self.accounts@[to_idx as int]);
        }
        Ok(())
    }

    /// The balance at `id`, or None for an absent account.
    pub fn balance_of(&self, id: u64) -> (r: Option<u64>)
        requires
            self.wf(),
        ensures
            match r {
                Some(amount) => self.account(id) is Some && amount == self.balance(id),
                None => self.account(id) is None,
            },
    {
        match self.find(id) {
            Some(i) => {
                proof {
                    lemma_lookup_at(self.accounts@, account_id(), i as int);
                }
                Some(self.accounts[i].amount)
            },
            None => None,
        }
    }

    /// A copy of the account at `id`, or None for an absent one.
    pub fn account_of(&self, id: u64) -> (r: Option<TokenAccount>)
        requires
            self.wf(),
        ensures
            r == self.account(id),
    {
        match self.find(id) {
            Some(i) => {
                proof {
                    lemma_lookup_at(self.accounts@, account_id(), i as int);
                }
                Some(self.accounts[i])
            },
            None => None,
        }
    }
}

} // verus!
