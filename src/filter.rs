use vstd::prelude::*;

use crate::account::AccountId;
use crate::model::{is_owner, AccountState, Error, FilterModel, OptIn};

verus! {

/// The settings of one account that has written at least once.
struct AccountRecord {
    id: AccountId,
    opted_in: bool,
    global_filter: bool,
    allowed: Vec<AccountId>,
}

impl AccountRecord {
    spec fn state(self) -> AccountState {
        AccountState { opted_in: self.opted_in, global_filter: self.global_filter, allowed: self.allowed@ }
    }
}

/// The permission store: one record per account that has written, and the
/// opt-in notifications emitted and not yet taken.
pub struct UkeAccountFilter {
    records: Vec<AccountRecord>,
    events: Vec<OptIn>,
}

impl View for UkeAccountFilter {
    type V = FilterModel;

    /// The store as a map from account to state, with the notifications.
    closed spec fn view(&self) -> FilterModel {
        FilterModel {
            accounts: Map::new(
                |id: AccountId| self.has_record(id),
                |id: AccountId| self.records@[self.index_of(id)].state(),
            ),
            events: self.events@,
        }
    }
}

impl UkeAccountFilter {
    /// Whether some record belongs to `id`.
    spec fn has_record(self, id: AccountId) -> bool {
        exists|i: int| 0 <= i < self.records@.len() && #[trigger] self.records@[i].id == id
    }

    /// Position of the record of `id`, if it has one.
    spec fn index_of(self, id: AccountId) -> int {
        choose|i: int| 0 <= i < self.records@.len() && #[trigger] self.records@[i].id == id
    }

    /// No two records belong to the same account.
    pub closed spec fn wf(self) -> bool {
        forall|i: int, j: int|
            0 <= i < self.records@.len() && 0 <= j < self.records@.len() && i != j
                ==> #[trigger] self.records@[i].id != #[trigger] self.records@[j].id
    }

    proof fn lemma_index_of(self, id: AccountId, i: int)
        requires
            self.wf(),
            0 <= i < self.records@.len(),
            self.records@[i].id == id,
        ensures
            self.has_record(id),
            self.index_of(id) == i,
            self@.accounts.contains_key(id),
            self@.accounts[id] == self.records@[i].state(),
    {
        assert(self.has_record(id));
        let k = self.index_of(id);
        assert(self.records@[k].id == id);
    }

    proof fn lemma_same_records(a: Self, b: Self)
        requires
            a.records@ == b.records@,
        ensures
            a@.accounts == b@.accounts,
    {
        assert forall|x: AccountId| #[trigger] a.has_record(x) == b.has_record(x) by {
            if a.has_record(x) {
                assert(b.records@[a.index_of(x)].id == x);
            }
            if b.has_record(x) {
                assert(a.records@[b.index_of(x)].id == x);
            }
        }
        assert(a@.accounts =~= b@.accounts);
    }

    proof fn lemma_replace_record(old_s: Self, new_s: Self, i: int)
        requires
            old_s.wf(),
            0 <= i < old_s.records@.len(),
            new_s.records@.len() == old_s.records@.len(),
            forall|k: int| 0 <= k < old_s.records@.len() && k != i ==> new_s.records@[k] == old_s.records@[k],
            new_s.records@[i].id == old_s.records@[i].id,
        ensures
            new_s.wf(),
            new_s@.accounts == old_s@.accounts.insert(
                new_s.records@[i].id,
                new_s.records@[i].state(),
            ),
    {
        let id = new_s.records@[i].id;
        assert forall|a: int, b: int|
            0 <= a < new_s.records@.len() && 0 <= b < new_s.records@.len() && a != b
                implies #[trigger] new_s.records@[a].id != #[trigger] new_s.records@[b].id by {
            assert(old_s.records@[a].id == new_s.records@[a].id);
            assert(old_s.records@[b].id == new_s.records@[b].id);
        }
        new_s.lemma_index_of(id, i);
        assert forall|x: AccountId| x != id implies #[trigger] new_s.has_record(x) == old_s.has_record(x) by {
            if new_s.has_record(x) {
                let k = new_s.index_of(x);
                assert(old_s.records@[k].id == x);
            }
            if old_s.has_record(x) {
                let k = old_s.index_of(x);
                assert(new_s.records@[k].id == x);
            }
        }
        assert forall|x: AccountId| x != id && #[trigger] old_s.has_record(x) implies new_s@.accounts[x]
            == old_s@.accounts[x] by {
            let k = old_s.index_of(x);
            old_s.lemma_index_of(x, k);
            assert(new_s.records@[k].id == x);
            new_s.lemma_index_of(x, k);
        }
        assert(new_s@.accounts =~= old_s@.accounts.insert(id, new_s.records@[i].state()));
    }

    proof fn lemma_append_record(old_s: Self, new_s: Self)
        requires
            old_s.wf(),
            new_s.records@.len() == old_s.records@.len() + 1,
            forall|k: int| 0 <= k < old_s.records@.len() ==> new_s.records@[k] == old_s.records@[k],
            !old_s@.accounts.contains_key(new_s.records@.last().id),
        ensures
            new_s.wf(),
            new_s@.accounts == old_s@.accounts.insert(
                new_s.records@.last().id,
                new_s.records@.last().state(),
            ),
    {
        let n = old_s.records@.len() as int;
        let id = new_s.records@[n].id;
        assert forall|a: int, b: int|
            0 <= a < new_s.records@.len() && 0 <= b < new_s.records@.len() && a != b
                implies #[trigger] new_s.records@[a].id != #[trigger] new_s.records@[b].id by {
            if a < n && b < n {
                assert(old_s.records@[a].id == new_s.records@[a].id);
                assert(old_s.records@[b].id == new_s.records@[b].id);
            } else if a < n {
                assert(old_s.records@[a].id == new_s.records@[a].id);
                assert(!old_s.has_record(id));
            } else {
                assert(old_s.records@[b].id == new_s.records@[b].id);
                assert(!old_s.has_record(id));
            }
        }
        new_s.lemma_index_of(id, n);
        assert forall|x: AccountId| x != id implies #[trigger] new_s.has_record(x) == old_s.has_record(x) by {
            if new_s.has_record(x) {
                let k = new_s.index_of(x);
                assert(old_s.records@[k].id == x);
            }
            if old_s.has_record(x) {
                let k = old_s.index_of(x);
                assert(new_s.records@[k].id == x);
            }
        }
        assert forall|x: AccountId| x != id && #[trigger] old_s.has_record(x) implies new_s@.accounts[x]
            == old_s@.accounts[x] by {
            let k = old_s.index_of(x);
            old_s.lemma_index_of(x, k);
            assert(new_s.records@[k].id == x);
            new_s.lemma_index_of(x, k);
        }
        assert(new_s@.accounts =~= old_s@.accounts.insert(id, new_s.records@[n].state()));
    }

    /// Position of the record of `id`, made with the defaults where it had none.
    fn record_for_write(&mut self, id: AccountId) -> (i: usize)
        requires
            old(self).wf(),
        ensures
            final(self).wf(),
            i < final(self).records@.len(),
            final(self).records@[i as int].id == id,
            final(self).records@[i as int].state() == old(self)@.state(id),
            final(self)@.accounts == old(self)@.accounts.insert(id, old(self)@.state(id)),
            final(self).events@ == old(self).events@,
    {
        match self.find_record(id) {
            Some(i) => {
                proof {
                    assert(self@.accounts.insert(id, self@.state(id)) =~= self@.accounts);
                }
                i
            },
            None => {
                let ghost before = *self;
                let fresh = AccountRecord { id, opted_in: false, global_filter: false, allowed: Vec::new() };
                self.records.push(fresh);
                proof {
                    assert(self.records@.last().state() =~= AccountState::initial());
                    Self::lemma_append_record(before, *self);
                }
                self.records.len() - 1
            },
        }
    }

    /// Position of the record of `id`, or `None` when it has none.
    fn find_record(&self, id: AccountId) -> (r: Option<usize>)
        requires
            self.wf(),
        ensures
            match r {
                Some(i) => i < self.records@.len() && self.records@[i as int].id == id
                    && self@.accounts[id] == self.records@[i as int].state(),
                None => !self@.accounts.contains_key(id),
            },
            r is Some <==> self@.accounts.contains_key(id),
    {
        let mut i: usize = 0;
        while i < self.records.len()
            invariant
                self.wf(),
                i <= self.records@.len(),
                forall|k: int| 0 <= k < i ==> #[trigger] self.records@[k].id != id,
            decreases self.records@.len() - i,
        {
            if self.records[i].id.same_as(&id) {
                proof {
                    self.lemma_index_of(id, i as int);
                }
                return Some(i);
            }
            i = i + 1;
        }
        None
    }
}

impl UkeAccountFilter {
    /// Appends `id_to_add` to the allow-list of `id`, as asked by `caller`.
    /// Only the owner may do so, and only once opted in; the list keeps its
    /// order and accepts repeats and the owner itself.
    pub fn add_to_allowed(&mut self, caller: AccountId, id: AccountId, id_to_add: AccountId) -> (r: Result<(), Error>)
        requires
            old(self).wf(),
        ensures
            final(self).wf(),
            r == old(self)@.guarded_result(caller, id),
            final(self)@ == old(self)@.add_to_allowed_next(caller, id, id_to_add),
    {
        if !Self::is_caller_owner(id, caller) {
            return Err(Error::CallerIsNotOwner);
        }
        if !self.get_optin_status_or_default(id) {
            return Err(Error::NotOptedIn);
        }
        let ghost start = self@;
        let i = self.record_for_write(id);
        let ghost before = *self;
        self.records[i].allowed.push(id_to_add);
        proof {
            Self::lemma_replace_record(before, *self, i as int);
            assert(self@.accounts =~= start.add_to_allowed_next(caller, id, id_to_add).accounts);
        }
        Ok(())
    }

    /// Sets the global filter of `id` to `status`, as asked by `caller`.
    /// Only the owner may do so, and only once opted in.
    pub fn change_global_filter(&mut self, caller: AccountId, id: AccountId, status: bool) -> (r: Result<(), Error>)
        requires
            old(self).wf(),
        ensures
            final(self).wf(),
            r == old(self)@.guarded_result(caller, id),
            final(self)@ == old(self)@.change_global_filter_next(caller, id, status),
    {
        if !Self::is_caller_owner(id, caller) {
            return Err(Error::CallerIsNotOwner);
        }
        if !self.get_optin_status_or_default(id) {
            return Err(Error::NotOptedIn);
        }
        let ghost start = self@;
        let i = self.record_for_write(id);
        let ghost before = *self;
        self.records[i].global_filter = status;
        proof {
            Self::lemma_replace_record(before, *self, i as int);
            assert(self@.accounts =~= start.change_global_filter_next(caller, id, status).accounts);
        }
        Ok(())
    }

    /// Sets the opt-in status of `id` to `status`, as asked by `caller`, and
    /// records an `OptIn` notification. Only the owner may do so.
    pub fn change_optin_status(&mut self, caller: AccountId, status: bool, id: AccountId) -> (r: Result<(), Error>)
        requires
            old(self).wf(),
        ensures
            final(self).wf(),
            r == old(self)@.change_optin_result(caller, status, id),
            final(self)@ == old(self)@.change_optin_next(caller, status, id),
    {
        if !Self::is_caller_owner(id, caller) {
            return Err(Error::CallerIsNotOwner);
        }
        let ghost start = self@;
        let i = self.record_for_write(id);
        let ghost before = *self;
        self.records[i].opted_in = status;
        proof {
            Self::lemma_replace_record(before, *self, i as int);
        }
        let ghost updated = *self;
        self.events.push(OptIn { id, status });
        proof {
            Self::lemma_same_records(updated, *self);
            assert(self@.accounts =~= start.change_optin_next(caller, status, id).accounts);
        }
        Ok(())
    }

    /// A store in which no account has written anything.
    pub fn new() -> (r: UkeAccountFilter)
        ensures
            r.wf(),
            r@ == FilterModel::empty(),
    {
        let r = UkeAccountFilter { records: Vec::new(), events: Vec::new() };
        proof {
            assert(r@.accounts =~= Map::empty());
        }
        r
    }

    /// The opt-in status of `id`; `false` until it writes one.
    pub fn get_optin_status(&self, id: AccountId) -> (r: bool)
        requires
            self.wf(),
        ensures
            r == self@.state(id).opted_in,
    {
        self.get_optin_status_or_default(id)
    }

    /// The global filter of `id`; `false` until it writes one.
    pub fn get_global_filter(&self, id: AccountId) -> (r: bool)
        requires
            self.wf(),
        ensures
            r == self@.state(id).global_filter,
    {
        self.get_global_status_or_default(id)
    }

    /// The allow-list of `id` in insertion order; empty until it adds one.
    pub fn get_allowed_accounts(&self, id: AccountId) -> (r: Vec<AccountId>)
        requires
            self.wf(),
        ensures
            r@ == self@.state(id).allowed,
    {
        self.get_allowed_list_or_default(id)
    }

    /// The opt-in notifications emitted so far, oldest first.
    pub fn emitted_events(&self) -> (r: &Vec<OptIn>)
        ensures
            r@ == self@.events,
    {
        &self.events
    }

    /// Hands out the opt-in notifications emitted so far, oldest first, and
    /// forgets them; the accounts are left as they are.
    pub fn take_events(&mut self) -> (r: Vec<OptIn>)
        requires
            old(self).wf(),
        ensures
            final(self).wf(),
            r@ == old(self)@.events,
            final(self)@ == (FilterModel { events: Seq::empty(), ..old(self)@ }),
    {
        let mut r: Vec<OptIn> = Vec::new();
        std::mem::swap(&mut self.events, &mut r);
        proof {
            assert(self@.accounts =~= old(self)@.accounts);
        }
        r
    }

    /// Whether `caller` may change the settings of `id`.
    fn is_caller_owner(id: AccountId, caller: AccountId) -> (r: bool)
        ensures
            r == is_owner(id, caller),
    {
        id.same_as(&caller)
    }

    fn get_optin_status_or_default(&self, id: AccountId) -> (r: bool)
        requires
            self.wf(),
        ensures
            r == self@.state(id).opted_in,
    {
        match self.find_record(id) {
            Some(i) => self.records[i].opted_in,
            None => false,
        }
    }

    fn get_global_status_or_default(&self, id: AccountId) -> (r: bool)
        requires
            self.wf(),
        ensures
            r == self@.state(id).global_filter,
    {
        match self.find_record(id) {
            Some(i) => self.records[i].global_filter,
            None => false,
        }
    }

    fn get_allowed_list_or_default(&self, id: AccountId) -> (r: Vec<AccountId>)
        requires
            self.wf(),
        ensures
            r@ == self@.state(id).allowed,
    {
        match self.find_record(id) {
            Some(i) => self.records[i].allowed.clone(),
            None => Vec::new(),
        }
    }
}

} // verus!
