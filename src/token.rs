use std::collections::HashMap;
use vstd::prelude::*;

verus! {

broadcast use vstd::std_specs::hash::group_hash_axioms;

/// Identifies an account of the ledger.
pub type Account = u64;

/// A fungible token: its supply, the balances held in it, and the account
/// that owns it.
pub struct Token {
    pub total_supply: i128,
    pub balances: HashMap<Account, i128>,
    pub owner: Account,
}

impl Token {
    /// The balances sum to the supply: issuance and minting credit the owner
    /// alone, so the owner's balance is the whole supply.
    pub open spec fn wf(&self) -> bool {
        self.balances@ == map![self.owner => self.total_supply]
    }

    /// The balance recorded for `account`, zero where none is.
    pub open spec fn balance_of(&self, account: Account) -> int {
        if self.balances@.contains_key(account) {
            self.balances@[account] as int
        } else {
            0
        }
    }

    /// A token whose whole initial supply belongs to `owner`.
    pub fn new(owner: Account, initial_supply: i128) -> (t: Token)
        ensures
            t.owner == owner,
            t.total_supply == initial_supply,
            t.balances@ == map![owner => initial_supply],
            t.wf(),
    {
        let mut balances: HashMap<Account, i128> = HashMap::new();
        balances.insert(owner, initial_supply);
        proof {
            assert(balances@ =~= map![owner => initial_supply]);
        }
        Token { total_supply: initial_supply, balances, owner }
    }

    /// The balance recorded for `account`, zero where none is.
    pub fn balance(&self, account: Account) -> (r: i128)
        ensures
            r == self.balance_of(account),
    {
        match self.balances.get(&account) {
            Some(b) => *b,
            None => 0,
        }
    }
}

} // verus!
