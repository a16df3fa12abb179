//! Who may administer the locker.

use vstd::prelude::*;
use crate::account::{account_view, AccountId};
use crate::error::Error;

verus! {

/// Whether `caller` may administer what `owner` owns: only the owner may,
/// and nobody once there is no owner.
pub open spec fn authorized(owner: Option<Seq<u8>>, caller: Seq<u8>) -> Result<(), Error> {
    if owner == Some(caller) {
        Ok(())
    } else {
        Err(Error::AuthorizationError)
    }
}

/// Who may administer the locker: one owner, or nobody.
pub struct AccessControl {
    owner: Option<AccountId>,
}

impl View for AccessControl {
    type V = Option<Seq<u8>>;

    closed spec fn view(&self) -> Option<Seq<u8>> {
        match self.owner {
            Some(owner) => Some(owner@),
            None => None,
        }
    }
}

impl AccessControl {
    /// Access for `owner` alone.
    pub fn new(owner: AccountId) -> (access: AccessControl)
        ensures
            access@ == Some(owner@),
    {
        AccessControl { owner: Some(owner) }
    }

    /// Access for `owner` alone, or for nobody where there is none.
    pub fn with_owner(owner: Option<AccountId>) -> (access: AccessControl)
        ensures
            access@ == account_view(owner),
    {
        AccessControl { owner }
    }

    /// The owner, if there is one.
    pub fn owner(&self) -> (owner: Option<AccountId>)
        ensures
            account_view(owner) == self@,
    {
        match &self.owner {
            Some(owner) => Some(owner.clone()),
            None => None,
        }
    }

    /// Lets `caller` pass if it is the owner.
    pub fn authorize(&self, caller: &AccountId) -> (passed: Result<(), Error>)
        ensures
            passed == authorized(self@, caller@),
    {
        match &self.owner {
            Some(owner) => {
                if owner.same(caller) {
                    Ok(())
                } else {
                    Err(Error::AuthorizationError)
                }
            },
            None => Err(Error::AuthorizationError),
        }
    }

    /// Makes `new_owner` the owner, if the owner asks for it.
    pub fn transfer_ownership(&mut self, caller: &AccountId, new_owner: AccountId) -> (done: Result<
        (),
        Error,
    >)
        ensures
            done == authorized(old(self)@, caller@),
            final(self)@ == if done is Ok {
                Some(new_owner@)
            } else {
                old(self)@
            },
    {
        self.authorize(caller)?;
        self.owner = Some(new_owner);
        Ok(())
    }

    /// Leaves the locker without an owner, if the owner asks for it. Nobody
    /// is authorized afterwards, and so nobody can name an owner again.
    pub fn renounce_ownership(&mut self, caller: &AccountId) -> (done: Result<(), Error>)
        ensures
            done == authorized(old(self)@, caller@),
            final(self)@ == if done is Ok {
                None
            } else {
                old(self)@
            },
    {
        self.authorize(caller)?;
        self.owner = None;
        Ok(())
    }
}

} // verus!
