use vstd::prelude::*;

use crate::account::AccountId;
use crate::model::{Error, FilterModel, OptIn};

verus! {

/// A mutating request as the store receives it: who asks, and what.
pub enum Request {
    ChangeOptinStatus { caller: AccountId, status: bool, id: AccountId },
    ChangeGlobalFilter { caller: AccountId, id: AccountId, status: bool },
    AddToAllowed { caller: AccountId, id: AccountId, id_to_add: AccountId },
}

impl Request {
    /// The account whose settings the request is about.
    pub open spec fn target(self) -> AccountId {
        match self {
            Request::ChangeOptinStatus { id, .. } => id,
            Request::ChangeGlobalFilter { id, .. } => id,
            Request::AddToAllowed { id, .. } => id,
        }
    }

    /// The account that sent the request.
    pub open spec fn sender(self) -> AccountId {
        match self {
            Request::ChangeOptinStatus { caller, .. } => caller,
            Request::ChangeGlobalFilter { caller, .. } => caller,
            Request::AddToAllowed { caller, .. } => caller,
        }
    }
}

impl FilterModel {
    /// Outcome of one request.
    pub open spec fn result_of(self, req: Request) -> Result<(), Error> {
        match req {
            Request::ChangeOptinStatus { caller, status, id } => self.change_optin_result(caller, status, id),
            Request::ChangeGlobalFilter { caller, id, .. } => self.guarded_result(caller, id),
            Request::AddToAllowed { caller, id, .. } => self.guarded_result(caller, id),
        }
    }

    /// Store after one request.
    pub open spec fn apply(self, req: Request) -> FilterModel {
        match req {
            Request::ChangeOptinStatus { caller, status, id } => self.change_optin_next(caller, status, id),
            Request::ChangeGlobalFilter { caller, id, status } => self.change_global_filter_next(caller, id, status),
            Request::AddToAllowed { caller, id, id_to_add } => self.add_to_allowed_next(caller, id, id_to_add),
        }
    }

    /// Store after the requests in order, first to last.
    pub open spec fn apply_all(self, reqs: Seq<Request>) -> FilterModel
        decreases reqs.len(),
    {
        if reqs.len() == 0 {
            self
        } else {
            self.apply(reqs[0]).apply_all(reqs.drop_first())
        }
    }
}

/// Before any write, every account reads as not opted in, with a global
/// filter that denies contact and an empty allow-list.
pub proof fn lemma_fresh_store_defaults(a: AccountId)
    ensures
        FilterModel::empty().state(a).opted_in == false,
        FilterModel::empty().state(a).global_filter == false,
        FilterModel::empty().state(a).allowed == Seq::<AccountId>::empty(),
{
}

/// A request about account `a` sent by another account `b` fails with
/// `CallerIsNotOwner` and leaves the whole store, `a`'s record included, as it was.
pub proof fn lemma_non_owner_rejected(m: FilterModel, req: Request)
    requires
        req.target() != req.sender(),
    ensures
        m.result_of(req) == Err::<(), Error>(Error::CallerIsNotOwner),
        m.apply(req) == m,
        m.apply(req).state(req.target()) == m.state(req.target()),
{
}

/// Opting in twice succeeds twice, leaves the account opted in after each
/// call, and emits one notification per call.
pub proof fn lemma_optin_idempotent(m: FilterModel, a: AccountId)
    ensures
        m.change_optin_result(a, true, a) == Ok::<(), Error>(()),
        m.change_optin_next(a, true, a).change_optin_result(a, true, a) == Ok::<(), Error>(()),
        m.change_optin_next(a, true, a).state(a).opted_in,
        m.change_optin_next(a, true, a).change_optin_next(a, true, a).state(a).opted_in,
        m.change_optin_next(a, true, a).change_optin_next(a, true, a).accounts == m.change_optin_next(
            a,
            true,
            a,
        ).accounts,
        m.change_optin_next(a, true, a).events == m.events.push(OptIn { id: a, status: true }),
        m.change_optin_next(a, true, a).change_optin_next(a, true, a).events == m.events.push(
            OptIn { id: a, status: true },
        ).push(OptIn { id: a, status: true }),
{
    let m1 = m.change_optin_next(a, true, a);
    let m2 = m1.change_optin_next(a, true, a);
    assert(m2.accounts =~= m1.accounts);
}

/// For an opted-in owner, two additions to its allow-list both succeed and
/// land at its end in the order they were made, repeats included; from an
/// empty list the result is exactly the two of them.
pub proof fn lemma_allow_list_appends(m: FilterModel, a: AccountId, x1: AccountId, x2: AccountId)
    requires
        m.state(a).opted_in,
    ensures
        m.guarded_result(a, a) == Ok::<(), Error>(()),
        m.add_to_allowed_next(a, a, x1).guarded_result(a, a) == Ok::<(), Error>(()),
        m.add_to_allowed_next(a, a, x1).add_to_allowed_next(a, a, x2).state(a).allowed == m.state(
            a,
        ).allowed.push(x1).push(x2),
        m.state(a).allowed.len() == 0 ==> m.add_to_allowed_next(a, a, x1).add_to_allowed_next(
            a,
            a,
            x2,
        ).state(a).allowed == seq![x1, x2],
{
    let m1 = m.add_to_allowed_next(a, a, x1);
    let m2 = m1.add_to_allowed_next(a, a, x2);
    if m.state(a).allowed.len() == 0 {
        assert(m2.state(a).allowed =~= seq![x1, x2]);
    }
}

/// A request about one account never changes the record of another.
pub proof fn lemma_request_isolated(m: FilterModel, req: Request, b: AccountId)
    requires
        req.target() != b,
    ensures
        m.apply(req).state(b) == m.state(b),
{
}

/// However many requests about other accounts are applied, in any order and
/// from any sender, the record of `b` stays as it was.
pub proof fn lemma_requests_isolated(m: FilterModel, reqs: Seq<Request>, b: AccountId)
    requires
        forall|i: int| 0 <= i < reqs.len() ==> (#[trigger] reqs[i]).target() != b,
    ensures
        m.apply_all(reqs).state(b) == m.state(b),
    decreases reqs.len(),
{
    if reqs.len() > 0 {
        lemma_request_isolated(m, reqs[0], b);
        let rest = reqs.drop_first();
        assert forall|i: int| 0 <= i < rest.len() implies (#[trigger] rest[i]).target() != b by {
            assert(rest[i] == reqs[i + 1]);
        }
        lemma_requests_isolated(m.apply(reqs[0]), rest, b);
    }
}

} // verus!
