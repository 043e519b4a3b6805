use std::collections::HashMap;
use vstd::prelude::*;
use crate::auth::AuthContext;
use crate::error::LumiFiError;
use crate::pool::{
    PoolKey, lemma_swap_product, reserves_of, swap_amount, swap_out, with_liquidity,
};
use crate::token::{Account, Token};

verus! {

broadcast use vstd::std_specs::hash::group_hash_axioms;

/// Identifies a crowd-sale.
pub type IcoId = u64;

/// The identifier every sale opened by `start_ico` is stored under: successive
/// sales share this one slot.
pub const FIXED_ICO_ID: IcoId = 0;

/// A crowd-sale for `token`, open until `deadline` (inclusive).
#[derive(Clone, Copy, Debug, PartialEq, Eq, Structural)]
pub struct Ico {
    pub token: Account,
    pub target_amount: i128,
    pub deadline: u64,
}

/// A movement of `amount` of the asset `token` from `from` to `to`, for the
/// asset-transfer collaborator to carry out.
#[derive(Clone, Copy, Debug, PartialEq, Eq, Structural)]
pub struct Transfer {
    pub token: Account,
    pub from: Account,
    pub to: Account,
    pub amount: i128,
}

/// The key space of the ledger: each key names one record.
#[derive(Clone, Copy, Debug, PartialEq, Eq, Structural)]
pub enum DataKey {
    Token(Account),
    ICO(IcoId),
    User(Account),
    LiquidityPool(PoolKey),
}

/// The whole state of the ledger. `contract` is the account that holds the
/// assets paid into the sales.
pub struct LumiFi {
    pub contract: Account,
    pub tokens: HashMap<Account, Token>,
    pub icos: HashMap<IcoId, Ico>,
    pub contributions: HashMap<Account, i128>,
    pub pools: HashMap<PoolKey, (i128, i128)>,
}

/// Every token is stored under its owner and keeps its supply with the owner.
pub open spec fn tokens_wf(tokens: Map<Account, Token>) -> bool {
    forall|k: Account| #[trigger] tokens.contains_key(k) ==> tokens[k].wf() && tokens[k].owner == k
}

/// Every pool holds non-negative reserves.
pub open spec fn pools_wf(pools: Map<PoolKey, (i128, i128)>) -> bool {
    forall|k: PoolKey| #[trigger] pools.contains_key(k) ==> pools[k].0 >= 0 && pools[k].1 >= 0
}

/// The cumulative contribution recorded for `account`, zero where none is.
pub open spec fn contribution_of(contributions: Map<Account, i128>, account: Account) -> int {
    if contributions.contains_key(account) {
        contributions[account] as int
    } else {
        0
    }
}

impl LumiFi {
    pub open spec fn wf(&self) -> bool {
        tokens_wf(self.tokens@) && pools_wf(self.pools@)
    }

    /// `self` and `other` hold the same records.
    pub open spec fn same_records(&self, other: &LumiFi) -> bool {
        &&& self.contract == other.contract
        &&& self.tokens@ == other.tokens@
        &&& self.icos@ == other.icos@
        &&& self.contributions@ == other.contributions@
        &&& self.pools@ == other.pools@
    }

    /// `self` and `other` differ at most in their tokens.
    pub open spec fn same_but_tokens(&self, other: &LumiFi) -> bool {
        &&& self.contract == other.contract
        &&& self.icos@ == other.icos@
        &&& self.contributions@ == other.contributions@
        &&& self.pools@ == other.pools@
    }

    /// An empty ledger whose assets are held by `contract`.
    pub fn new(contract: Account) -> (r: LumiFi)
        ensures
            r.contract == contract,
            r.tokens@ == Map::<Account, Token>::empty(),
            r.icos@ == Map::<IcoId, Ico>::empty(),
            r.contributions@ == Map::<Account, i128>::empty(),
            r.pools@ == Map::<PoolKey, (i128, i128)>::empty(),
            r.wf(),
    {
        LumiFi {
            contract,
            tokens: HashMap::new(),
            icos: HashMap::new(),
            contributions: HashMap::new(),
            pools: HashMap::new(),
        }
    }

    /// Issues a token owned by `owner` with `initial_supply`, all of it held by
    /// the owner, and returns the owner as the token's identity. A token that
    /// `owner` issued before is replaced.
    pub fn create_token(&mut self, auth: &AuthContext, owner: Account, initial_supply: i128) -> (r:
        Result<Account, LumiFiError>)
        requires
            old(self).wf(),
        ensures
            final(self).wf(),
            !auth.authorizes(owner) ==> r == Err::<Account, LumiFiError>(LumiFiError::Unauthorized),
            auth.authorizes(owner) && initial_supply < 0 ==> r == Err::<Account, LumiFiError>(
                LumiFiError::InvalidAmount,
            ),
            auth.authorizes(owner) && initial_supply >= 0 ==> r == Ok::<Account, LumiFiError>(owner),
            r.is_err() ==> final(self).same_records(old(self)),
            r.is_ok() ==> {
                &&& final(self).same_but_tokens(old(self))
                &&& final(self).tokens@ == old(self).tokens@.insert(owner, final(self).tokens@[owner])
                &&& final(self).tokens@[owner].owner == owner
                &&& final(self).tokens@[owner].total_supply == initial_supply
                &&& final(self).tokens@[owner].balances@ == map![owner => initial_supply]
            },
    {
        if !auth.require_auth(owner) {
            return Err(LumiFiError::Unauthorized);
        }
        if initial_supply < 0 {
            return Err(LumiFiError::InvalidAmount);
        }
        let token = Token::new(owner, initial_supply);
        self.tokens.insert(owner, token);
        Ok(owner)
    }

    /// Adds `amount` to the supply of the token under `token_address` and to
    /// its owner's balance; the owner must authorize. A negative amount burns.
    pub fn mint(&mut self, auth: &AuthContext, token_address: Account, amount: i128) -> (r: Result<
        (),
        LumiFiError,
    >)
        requires
            old(self).wf(),
            old(self).tokens@.contains_key(token_address) && auth.authorizes(
                old(self).tokens@[token_address].owner,
            ) ==> i128::MIN <= old(self).tokens@[token_address].total_supply + amount
                <= i128::MAX,
        ensures
            final(self).wf(),
            !old(self).tokens@.contains_key(token_address) ==> r == Err::<(), LumiFiError>(
                LumiFiError::TokenNotFound,
            ),
            old(self).tokens@.contains_key(token_address) ==> {
                let t = old(self).tokens@[token_address];
                &&& !auth.authorizes(t.owner) ==> r == Err::<(), LumiFiError>(
                    LumiFiError::Unauthorized,
                )
                &&& auth.authorizes(t.owner) ==> r == Ok::<(), LumiFiError>(())
            },
            r.is_err() ==> final(self).same_records(old(self)),
            r.is_ok() ==> {
                let t = old(self).tokens@[token_address];
                let n = final(self).tokens@[token_address];
                &&& final(self).same_but_tokens(old(self))
                &&& final(self).tokens@ == old(self).tokens@.insert(token_address, n)
                &&& n.owner == t.owner
                &&& n.total_supply == t.total_supply + amount
                &&& n.balance_of(n.owner) == t.balance_of(t.owner) + amount
                &&& n.balances@ == t.balances@.insert(t.owner, n.total_supply)
            },
    {
        let token = match self.tokens.remove(&token_address) {
            Some(t) => t,
            None => {
                proof {
                    assert(self.tokens@ =~= old(self).tokens@);
                }
                return Err(LumiFiError::TokenNotFound);
            },
        };
        if !auth.require_auth(token.owner) {
            self.tokens.insert(token_address, token);
            proof {
                assert(self.tokens@ =~= old(self).tokens@);
            }
            return Err(LumiFiError::Unauthorized);
        }
        let Token { total_supply, mut balances, owner } = token;
        let new_supply: i128 = total_supply + amount;
        let owner_balance: i128 = match balances.get(&owner) {
            Some(b) => *b,
            None => 0,
        };
        balances.insert(owner, owner_balance + amount);
        proof {
            assert(balances@ =~= map![owner => new_supply]);
        }
        self.tokens.insert(token_address, Token { total_supply: new_supply, balances, owner });
        proof {
            assert(self.tokens@ =~= old(self).tokens@.insert(token_address, self.tokens@[token_address]));
        }
        Ok(())
    }

    /// Opens a sale of `token` with a target and a deadline under the fixed
    /// identifier, replacing any sale stored there, and returns the identifier.
    pub fn start_ico(&mut self, token: Account, target_amount: i128, deadline: u64) -> (r: Result<
        IcoId,
        LumiFiError,
    >)
        requires
            old(self).wf(),
        ensures
            final(self).wf(),
            r == Ok::<IcoId, LumiFiError>(FIXED_ICO_ID),
            final(self).tokens@ == old(self).tokens@,
            final(self).contract == old(self).contract,
            final(self).icos@ == old(self).icos@.insert(
                FIXED_ICO_ID,
                (Ico { token, target_amount, deadline }),
            ),
            final(self).contributions@ == old(self).contributions@,
            final(self).pools@ == old(self).pools@,
    {
        self.start_ico_with_id(FIXED_ICO_ID, token, target_amount, deadline)
    }

    /// Opens a sale under an identifier chosen by the caller, replacing any sale
    /// stored there, and returns the identifier.
    pub fn start_ico_with_id(
        &mut self,
        ico_id: IcoId,
        token: Account,
        target_amount: i128,
        deadline: u64,
    ) -> (r: Result<IcoId, LumiFiError>)
        requires
            old(self).wf(),
        ensures
            final(self).wf(),
            r == Ok::<IcoId, LumiFiError>(ico_id),
            final(self).tokens@ == old(self).tokens@,
            final(self).contract == old(self).contract,
            final(self).icos@ == old(self).icos@.insert(ico_id, (Ico { token, target_amount, deadline })),
            final(self).contributions@ == old(self).contributions@,
            final(self).pools@ == old(self).pools@,
    {
        self.icos.insert(ico_id, Ico { token, target_amount, deadline });
        Ok(ico_id)
    }

    /// Buys into the sale `ico_id` for `amount` at time `now`. On success the
    /// buyer's cumulative contribution grows by `amount`, and the one transfer
    /// returned, of `amount` from the buyer to the contract, must be carried out
    /// for the call to stand.
    pub fn buy_token(
        &mut self,
        auth: &AuthContext,
        now: u64,
        ico_id: IcoId,
        buyer: Account,
        amount: i128,
    ) -> (r: Result<Transfer, LumiFiError>)
        requires
            old(self).wf(),
            auth.authorizes(buyer) && amount > 0 && old(self).icos@.contains_key(ico_id) && now
                <= old(self).icos@[ico_id].deadline ==> contribution_of(
                old(self).contributions@,
                buyer,
            ) + amount <= i128::MAX,
        ensures
            final(self).wf(),
            !auth.authorizes(buyer) ==> r == Err::<Transfer, LumiFiError>(LumiFiError::Unauthorized),
            auth.authorizes(buyer) && amount <= 0 ==> r == Err::<Transfer, LumiFiError>(
                LumiFiError::InvalidAmount,
            ),
            auth.authorizes(buyer) && amount > 0 && !old(self).icos@.contains_key(ico_id) ==> r
                == Err::<Transfer, LumiFiError>(LumiFiError::ICONotFound),
            auth.authorizes(buyer) && amount > 0 && old(self).icos@.contains_key(ico_id) && now
                > old(self).icos@[ico_id].deadline ==> r == Err::<Transfer, LumiFiError>(
                LumiFiError::ICOExpired,
            ),
            auth.authorizes(buyer) && amount > 0 && old(self).icos@.contains_key(ico_id) && now
                <= old(self).icos@[ico_id].deadline ==> r == Ok::<Transfer, LumiFiError>(
                (Transfer {
                    token: old(self).icos@[ico_id].token,
                    from: buyer,
                    to: old(self).contract,
                    amount,
                }),
            ),
            r.is_err() ==> final(self).same_records(old(self)),
            r.is_ok() ==> {
                &&& final(self).contract == old(self).contract
                &&& final(self).tokens@ == old(self).tokens@
                &&& final(self).icos@ == old(self).icos@
                &&& final(self).pools@ == old(self).pools@
                &&& final(self).contributions@ == old(self).contributions@.insert(
                    buyer,
                    (contribution_of(old(self).contributions@, buyer) + amount) as i128,
                )
            },
    {
        if !auth.require_auth(buyer) {
            return Err(LumiFiError::Unauthorized);
        }
        if amount <= 0 {
            return Err(LumiFiError::InvalidAmount);
        }
        let ico: Ico = match self.icos.get(&ico_id) {
            Some(i) => *i,
            None => {
                return Err(LumiFiError::ICONotFound);
            },
        };
        if now > ico.deadline {
            return Err(LumiFiError::ICOExpired);
        }
        let transfer = Transfer { token: ico.token, from: buyer, to: self.contract, amount };
        let paid: i128 = self.contribution(buyer);
        self.contributions.insert(buyer, paid + amount);
        Ok(transfer)
    }

    /// Pays `amount` of `token` out of the contract to `recipient`, who must
    /// authorize, given the contract's live balance `contract_balance` of it.
    /// The ledger's records are not touched: the transfer returned is the
    /// whole effect.
    pub fn withdraw(
        &self,
        auth: &AuthContext,
        contract_balance: i128,
        token: Account,
        recipient: Account,
        amount: i128,
    ) -> (r: Result<Transfer, LumiFiError>)
        ensures
            !auth.authorizes(recipient) ==> r == Err::<Transfer, LumiFiError>(
                LumiFiError::Unauthorized,
            ),
            auth.authorizes(recipient) && amount > contract_balance ==> r == Err::<
                Transfer,
                LumiFiError,
            >(LumiFiError::InsufficientFunds),
            auth.authorizes(recipient) && amount <= contract_balance ==> r == Ok::<
                Transfer,
                LumiFiError,
            >((Transfer { token, from: self.contract, to: recipient, amount })),
            auth.authorizes(recipient) && amount == contract_balance ==> (r matches Ok(t)
                && contract_balance - t.amount == 0),
    {
        if !auth.require_auth(recipient) {
            return Err(LumiFiError::Unauthorized);
        }
        if amount > contract_balance {
            return Err(LumiFiError::InsufficientFunds);
        }
        Ok(Transfer { token, from: self.contract, to: recipient, amount })
    }

    /// Adds `amount_token` tokens and `amount_reference` units of the
    /// reference asset to the pool under `pool_symbol`, opening it if absent.
    pub fn add_liquidity(
        &mut self,
        auth: &AuthContext,
        pool_symbol: PoolKey,
        provider: Account,
        amount_token: i128,
        amount_reference: i128,
    ) -> (r: Result<(), LumiFiError>)
        requires
            old(self).wf(),
            auth.authorizes(provider) && amount_token > 0 && amount_reference > 0 ==> {
                &&& reserves_of(old(self).pools@, pool_symbol).0 + amount_token <= i128::MAX
                &&& reserves_of(old(self).pools@, pool_symbol).1 + amount_reference <= i128::MAX
            },
        ensures
            final(self).wf(),
            !auth.authorizes(provider) ==> r == Err::<(), LumiFiError>(LumiFiError::Unauthorized),
            auth.authorizes(provider) && (amount_token <= 0 || amount_reference <= 0) ==> r
                == Err::<(), LumiFiError>(LumiFiError::InvalidAmount),
            auth.authorizes(provider) && amount_token > 0 && amount_reference > 0 ==> r == Ok::<
                (),
                LumiFiError,
            >(()),
            r.is_err() ==> final(self).same_records(old(self)),
            r.is_ok() ==> {
                &&& final(self).contract == old(self).contract
                &&& final(self).tokens@ == old(self).tokens@
                &&& final(self).icos@ == old(self).icos@
                &&& final(self).contributions@ == old(self).contributions@
                &&& final(self).pools@ == with_liquidity(
                    old(self).pools@,
                    pool_symbol,
                    amount_token as int,
                    amount_reference as int,
                )
            },
    {
        if !auth.require_auth(provider) {
            return Err(LumiFiError::Unauthorized);
        }
        if amount_token <= 0 || amount_reference <= 0 {
            return Err(LumiFiError::InvalidAmount);
        }
        let (token_reserve, reference_reserve) = match self.pools.get(&pool_symbol) {
            Some(p) => *p,
            None => (0, 0),
        };
        self.pools.insert(
            pool_symbol,
            (token_reserve + amount_token, reference_reserve + amount_reference),
        );
        Ok(())
    }

    /// Swaps `amount_in` units of the reference asset for tokens of the pool
    /// under `pool_symbol` at the fee-less constant-product rate, rounded
    /// toward zero, and returns the tokens paid out. An output above the token
    /// reserve is refused. So is a negative input whose output fits: carried
    /// out, it could lower the product of the reserves or leave one negative.
    pub fn swap(&mut self, pool_symbol: PoolKey, amount_in: i128) -> (r: Result<i128, LumiFiError>)
        requires
            old(self).wf(),
            old(self).pools@.contains_key(pool_symbol) ==> {
                let (t, res) = old(self).pools@[pool_symbol];
                &&& res + amount_in != 0
                &&& i128::MIN <= amount_in * t <= i128::MAX
                &&& res + amount_in <= i128::MAX
                &&& !(amount_in * t == i128::MIN && res + amount_in == -1)
            },
        ensures
            final(self).wf(),
            !old(self).pools@.contains_key(pool_symbol) ==> r == Err::<i128, LumiFiError>(
                LumiFiError::TokenNotFound,
            ),
            old(self).pools@.contains_key(pool_symbol) ==> {
                let (t, res) = old(self).pools@[pool_symbol];
                let out = swap_out(t as int, res as int, amount_in as int);
                &&& out > t ==> r == Err::<i128, LumiFiError>(LumiFiError::InsufficientFunds)
                &&& out <= t && amount_in < 0 ==> r == Err::<i128, LumiFiError>(
                    LumiFiError::InvalidAmount,
                )
                &&& out <= t && amount_in >= 0 ==> r == Ok::<i128, LumiFiError>(out as i128)
            },
            r.is_err() ==> final(self).same_records(old(self)),
            r matches Ok(out) ==> {
                let (t, res) = old(self).pools@[pool_symbol];
                &&& final(self).contract == old(self).contract
                &&& final(self).tokens@ == old(self).tokens@
                &&& final(self).icos@ == old(self).icos@
                &&& final(self).contributions@ == old(self).contributions@
                &&& amount_in >= 0
                &&& 0 <= out <= t
                &&& t * res <= (t - out) * (res + amount_in)
                &&& final(self).pools@ == old(self).pools@.insert(
                    pool_symbol,
                    ((t - out) as i128, (res + amount_in) as i128),
                )
            },
    {
        let (token_reserve, reference_reserve) = match self.pools.get(&pool_symbol) {
            Some(p) => *p,
            None => {
                return Err(LumiFiError::TokenNotFound);
            },
        };
        let token_out = swap_amount(token_reserve, reference_reserve, amount_in);
        if token_out > token_reserve {
            return Err(LumiFiError::InsufficientFunds);
        }
        if amount_in < 0 {
            return Err(LumiFiError::InvalidAmount);
        }
        proof {
            lemma_swap_product(token_reserve as int, reference_reserve as int, amount_in as int);
        }
        self.pools.insert(
            pool_symbol,
            (token_reserve - token_out, reference_reserve + amount_in),
        );
        Ok(token_out)
    }

    /// The cumulative contribution recorded for `account`, zero where none is.
    pub fn contribution(&self, account: Account) -> (r: i128)
        ensures
            r == contribution_of(self.contributions@, account),
    {
        match self.contributions.get(&account) {
            Some(c) => *c,
            None => 0,
        }
    }

    /// The token issued by `owner`, if any.
    pub fn token(&self, owner: Account) -> (r: Option<&Token>)
        ensures
            match r {
                Some(t) => self.tokens@.contains_key(owner) && *t == self.tokens@[owner],
                None => !self.tokens@.contains_key(owner),
            },
    {
        self.tokens.get(&owner)
    }

    /// The sale stored under `ico_id`, if any.
    pub fn ico(&self, ico_id: IcoId) -> (r: Option<Ico>)
        ensures
            match r {
                Some(i) => self.icos@.contains_key(ico_id) && i == self.icos@[ico_id],
                None => !self.icos@.contains_key(ico_id),
            },
    {
        match self.icos.get(&ico_id) {
            Some(i) => Some(*i),
            None => None,
        }
    }

    /// The reserves `(token, reference)` of the pool under `pool_symbol`, if any.
    pub fn pool(&self, pool_symbol: PoolKey) -> (r: Option<(i128, i128)>)
        ensures
            match r {
                Some(p) => self.pools@.contains_key(pool_symbol) && p == self.pools@[pool_symbol],
                None => !self.pools@.contains_key(pool_symbol),
            },
    {
        match self.pools.get(&pool_symbol) {
            Some(p) => Some(*p),
            None => None,
        }
    }

    /// Whether a record is stored under `key`.
    pub fn contains(&self, key: &DataKey) -> (r: bool)
        ensures
            r == match *key {
                DataKey::Token(a) => self.tokens@.contains_key(a),
                DataKey::ICO(i) => self.icos@.contains_key(i),
                DataKey::User(a) => self.contributions@.contains_key(a),
                DataKey::LiquidityPool(p) => self.pools@.contains_key(p),
            },
    {
        match *key {
            DataKey::Token(a) => self.tokens.contains_key(&a),
            DataKey::ICO(i) => self.icos.contains_key(&i),
            DataKey::User(a) => self.contributions.contains_key(&a),
            DataKey::LiquidityPool(p) => self.pools.contains_key(&p),
        }
    }
}

} // verus!
