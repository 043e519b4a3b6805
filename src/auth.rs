use vstd::prelude::*;
use crate::token::Account;

verus! {

/// The accounts whose control the invoking context has proved for one call.
pub struct AuthContext {
    pub signers: Vec<Account>,
}

impl AuthContext {
    /// Whether the context proves control of `account`.
    pub open spec fn authorizes(&self, account: Account) -> bool {
        self.signers@.contains(account)
    }

    pub fn new(signers: Vec<Account>) -> (r: AuthContext)
        ensures
            r.signers@ == signers@,
    {
        AuthContext { signers }
    }

    /// The capability check: true exactly when `account` has signed.
    pub fn require_auth(&self, account: Account) -> (r: bool)
        ensures
            r == self.authorizes(account),
    {
        let mut i: usize = 0;
        while i < self.signers.len()
            invariant
                0 <= i <= self.signers@.len(),
                forall|j: int| 0 <= j < i ==> self.signers@[j] != account,
            decreases self.signers@.len() - i,
        {
            if self.signers[i] == account {
                return true;
            }
            i = i + 1;
        }
        false
    }
}

} // verus!
