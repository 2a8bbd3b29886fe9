use vstd::prelude::*;

use crate::account::AccountId;

verus! {

/// Errors that a mutating request can end in.
#[derive(Clone, Copy, Debug, PartialEq, Eq, Structural)]
pub enum Error {
    /// The target account has not opted in to filtering.
    NotOptedIn,
    /// The caller is not the account whose settings it tried to change.
    CallerIsNotOwner,
}

/// Notification that an account changed its opt-in status.
#[derive(Clone, Copy, Debug, PartialEq, Eq)]
pub struct OptIn {
    pub id: AccountId,
    pub status: bool,
}

/// What is known of one account: its two flags and its allow-list.
pub struct AccountState {
    pub opted_in: bool,
    pub global_filter: bool,
    pub allowed: Seq<AccountId>,
}

impl AccountState {
    /// The state of an account that has never written anything.
    pub open spec fn initial() -> AccountState {
        AccountState { opted_in: false, global_filter: false, allowed: Seq::empty() }
    }
}

/// The whole store: the accounts that hold a record, and the notifications
/// emitted so far, oldest first.
pub struct FilterModel {
    pub accounts: Map<AccountId, AccountState>,
    pub events: Seq<OptIn>,
}

/// The ownership guard: only an account may change its own settings.
pub open spec fn is_owner(id: AccountId, caller: AccountId) -> bool {
    id == caller
}

impl FilterModel {
    /// The store as it is created: no record, no notification.
    pub open spec fn empty() -> FilterModel {
        FilterModel { accounts: Map::empty(), events: Seq::empty() }
    }

    /// The state of `id`, with the defaults where it has no record.
    pub open spec fn state(self, id: AccountId) -> AccountState {
        if self.accounts.contains_key(id) {
            self.accounts[id]
        } else {
            AccountState::initial()
        }
    }

    /// Outcome of `change_optin_status` asked by `caller`.
    pub open spec fn change_optin_result(self, caller: AccountId, status: bool, id: AccountId) -> Result<(), Error> {
        if !is_owner(id, caller) {
            Err(Error::CallerIsNotOwner)
        } else {
            Ok(())
        }
    }

    /// Store after `change_optin_status` asked by `caller`.
    pub open spec fn change_optin_next(self, caller: AccountId, status: bool, id: AccountId) -> FilterModel {
        if !is_owner(id, caller) {
            self
        } else {
            FilterModel {
                accounts: self.accounts.insert(id, AccountState { opted_in: status, ..self.state(id) }),
                events: self.events.push(OptIn { id, status }),
            }
        }
    }

    /// Outcome of a request that needs the owner and, after that, an opted-in account.
    pub open spec fn guarded_result(self, caller: AccountId, id: AccountId) -> Result<(), Error> {
        if !is_owner(id, caller) {
            Err(Error::CallerIsNotOwner)
        } else if !self.state(id).opted_in {
            Err(Error::NotOptedIn)
        } else {
            Ok(())
        }
    }

    /// Store after `change_global_filter` asked by `caller`.
    pub open spec fn change_global_filter_next(self, caller: AccountId, id: AccountId, status: bool) -> FilterModel {
        if self.guarded_result(caller, id) is Ok {
            FilterModel {
                accounts: self.accounts.insert(id, AccountState { global_filter: status, ..self.state(id) }),
                events: self.events,
            }
        } else {
            self
        }
    }

    /// Store after `add_to_allowed` asked by `caller`.
    pub open spec fn add_to_allowed_next(self, caller: AccountId, id: AccountId, id_to_add: AccountId) -> FilterModel {
        if self.guarded_result(caller, id) is Ok {
            FilterModel {
                accounts: self.accounts.insert(
                    id,
                    AccountState { allowed: self.state(id).allowed.push(id_to_add), ..self.state(id) },
                ),
                events: self.events,
            }
        } else {
            self
        }
    }
}

} // verus!
