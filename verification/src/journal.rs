//! The journal aggregate: a book of accounts rebuilt from its events.

use crate::accounts::AccountBook;
use crate::errors::{ErrorModel, KnownErrors};
use crate::event::{domain_event_models, AggregateType, DomainEvent, DomainEventModel, EventType};
use crate::ids::AggregateId;
use crate::permissions::Permissions;
use crate::store::{
    lemma_selection_has_kind, new_record, payloads, payloads_of, selection, well_formed_log,
    EventStore, RecordModel,
};
use std::collections::HashMap;
use vstd::prelude::*;

verus! {

/// One line of a transaction: an account and the cents its balance changes by.
#[derive(Debug, PartialEq, Eq)]
pub struct BalanceUpdate {
    pub account_name: String,
    pub changed_by: i64,
}

impl Clone for BalanceUpdate {
    fn clone(&self) -> (copy: BalanceUpdate)
        ensures
            copy@ == self@,
    {
        BalanceUpdate { account_name: self.account_name.clone(), changed_by: self.changed_by }
    }
}

/// A [`BalanceUpdate`] as a mathematical value.
pub struct UpdateModel {
    pub account_name: Seq<char>,
    pub changed_by: int,
}

impl View for BalanceUpdate {
    type V = UpdateModel;

    open spec fn view(&self) -> UpdateModel {
        UpdateModel { account_name: self.account_name@, changed_by: self.changed_by as int }
    }
}

/// The views of a list of updates.
pub open spec fn update_models(updates: Seq<BalanceUpdate>) -> Seq<UpdateModel> {
    updates.map_values(|u: BalanceUpdate| u@)
}

/// A copy of `updates`.
pub fn clone_updates(updates: &Vec<BalanceUpdate>) -> (copy: Vec<BalanceUpdate>)
    ensures
        update_models(copy@) == update_models(updates@),
{
    let mut copy: Vec<BalanceUpdate> = Vec::new();
    let mut i: usize = 0;
    while i < updates.len()
        invariant
            i <= updates.len(),
            copy@.len() == i,
            forall|k: int| 0 <= k < i ==> (#[trigger] copy@[k])@ == updates@[k]@,
        decreases updates.len() - i,
    {
        copy.push(updates[i].clone());
        i += 1;
    }
    assert(update_models(copy@) =~= update_models(updates@));
    copy
}

/// A recorded entry: who wrote it and the balance changes it makes.
#[derive(Debug, PartialEq, Eq)]
pub struct Transaction {
    pub author: AggregateId,
    pub updates: Vec<BalanceUpdate>,
}

/// A [`Transaction`] as a mathematical value.
pub struct TransactionModel {
    pub author: AggregateId,
    pub updates: Seq<UpdateModel>,
}

impl View for Transaction {
    type V = TransactionModel;

    open spec fn view(&self) -> TransactionModel {
        TransactionModel { author: self.author, updates: update_models(self.updates@) }
    }
}

impl Clone for Transaction {
    fn clone(&self) -> (copy: Transaction)
        ensures
            copy@ == self@,
    {
        Transaction { author: self.author, updates: clone_updates(&self.updates) }
    }
}

/// The views of a list of transactions.
pub open spec fn transaction_models(transactions: Seq<Transaction>) -> Seq<TransactionModel> {
    transactions.map_values(|t: Transaction| t@)
}

/// The sum of the changes of `updates`.
pub open spec fn total_change(updates: Seq<UpdateModel>) -> int
    decreases updates.len(),
{
    if updates.len() == 0 {
        0
    } else {
        total_change(updates.drop_last()) + updates.last().changed_by
    }
}

/// Whether `value` is a balance that an account can hold.
pub open spec fn is_balance(value: int) -> bool {
    i64::MIN <= value <= i64::MAX
}

/// The balance of `name` in `accounts`; an account that is not there counts as empty.
pub open spec fn balance_in(accounts: Map<Seq<char>, int>, name: Seq<char>) -> int {
    if accounts.contains_key(name) {
        accounts[name]
    } else {
        0
    }
}

/// `accounts` after one update: the change is added to the named account, which
/// is opened with the change as its balance where it did not exist.
pub open spec fn post_update(accounts: Map<Seq<char>, int>, update: UpdateModel) -> Map<
    Seq<char>,
    int,
> {
    accounts.insert(
        update.account_name,
        balance_in(accounts, update.account_name) + update.changed_by,
    )
}

/// `accounts` after each of `updates` in turn.
pub open spec fn post_updates(accounts: Map<Seq<char>, int>, updates: Seq<UpdateModel>) -> Map<
    Seq<char>,
    int,
>
    decreases updates.len(),
{
    if updates.len() == 0 {
        accounts
    } else {
        post_update(post_updates(accounts, updates.drop_last()), updates.last())
    }
}

/// Whether every balance that arises while `updates` are posted one by one can be held.
pub open spec fn updates_fit(accounts: Map<Seq<char>, int>, updates: Seq<UpdateModel>) -> bool
    decreases updates.len(),
{
    updates.len() == 0 || (updates_fit(accounts, updates.drop_last()) && is_balance(
        post_updates(accounts, updates)[updates.last().account_name],
    ))
}

/// What can happen to a journal.
#[derive(Debug, PartialEq, Eq)]
pub enum JournalEvent {
    Created { name: String, owner: AggregateId },
    Renamed { name: String },
    CreatedAccount { account_name: String },
    DeletedAccount { account_name: String },
    AddedEntry { transaction: Transaction },
    Deleted,
}

impl JournalEvent {
    /// Records a copy of the event as the next event of the journal `id` and
    /// returns the number that it got. A store that has run out of numbers
    /// refuses with `StoreError` and stays as it was.
    pub fn push_db(
        &self,
        id: &AggregateId,
        store: &mut EventStore,
        clock: i64,
    ) -> (event_id: Result<i64, KnownErrors>)
        requires
            old(store).wf(),
        ensures
            final(store).wf(),
            event_id is Ok <==> old(store)@.len() < i64::MAX,
            event_id matches Ok(number) ==> number == old(store)@.len() + 1 && final(store)@
                == old(store)@.push(
                new_record(old(store)@, *id, DomainEventModel::Journal(self@), clock as int),
            ),
            event_id matches Err(error) ==> error@ == ErrorModel::StoreError && final(store)@
                == old(store)@,
    {
        store.append(*id, DomainEvent::Journal(self.clone()), clock)
    }
}

/// A [`JournalEvent`] as a mathematical value.
pub enum JournalEventModel {
    Created { name: Seq<char>, owner: AggregateId },
    Renamed { name: Seq<char> },
    CreatedAccount { account_name: Seq<char> },
    DeletedAccount { account_name: Seq<char> },
    AddedEntry { transaction: TransactionModel },
    Deleted,
}

impl View for JournalEvent {
    type V = JournalEventModel;

    open spec fn view(&self) -> JournalEventModel {
        match *self {
            JournalEvent::Created { name, owner } => JournalEventModel::Created {
                name: name@,
                owner,
            },
            JournalEvent::Renamed { name } => JournalEventModel::Renamed { name: name@ },
            JournalEvent::CreatedAccount { account_name } => JournalEventModel::CreatedAccount {
                account_name: account_name@,
            },
            JournalEvent::DeletedAccount { account_name } => JournalEventModel::DeletedAccount {
                account_name: account_name@,
            },
            JournalEvent::AddedEntry { transaction } => JournalEventModel::AddedEntry {
                transaction: transaction@,
            },
            JournalEvent::Deleted => JournalEventModel::Deleted,
        }
    }
}

impl Clone for JournalEvent {
    fn clone(&self) -> (copy: JournalEvent)
        ensures
            copy@ == self@,
    {
        match self {
            JournalEvent::Created { name, owner } => JournalEvent::Created {
                name: name.clone(),
                owner: *owner,
            },
            JournalEvent::Renamed { name } => JournalEvent::Renamed { name: name.clone() },
            JournalEvent::CreatedAccount { account_name } => JournalEvent::CreatedAccount {
                account_name: account_name.clone(),
            },
            JournalEvent::DeletedAccount { account_name } => JournalEvent::DeletedAccount {
                account_name: account_name.clone(),
            },
            JournalEvent::AddedEntry { transaction } => JournalEvent::AddedEntry {
                transaction: transaction.clone(),
            },
            JournalEvent::Deleted => JournalEvent::Deleted,
        }
    }
}

/// The state of a journal as a mathematical value.
pub struct JournalModel {
    pub id: AggregateId,
    pub name: Seq<char>,
    pub owner: AggregateId,
    pub accounts: Map<Seq<char>, int>,
    pub transactions: Seq<TransactionModel>,
    pub deleted: bool,
}

impl JournalModel {
    /// The journal `id` before any event: no name, no accounts, no entries.
    pub open spec fn new(id: AggregateId) -> JournalModel {
        JournalModel {
            id,
            name: Seq::empty(),
            owner: 0,
            accounts: Map::empty(),
            transactions: Seq::empty(),
            deleted: false,
        }
    }

    /// Whether every balance that `event` gives rise to can be held. Only an
    /// entry can fail this.
    pub open spec fn admits(self, event: JournalEventModel) -> bool {
        match event {
            JournalEventModel::AddedEntry { transaction } => updates_fit(
                self.accounts,
                transaction.updates,
            ),
            _ => true,
        }
    }

    /// The journal after `event`.
    ///
    /// Creating an account that exists resets its balance to zero. Deleting an
    /// account drops it whatever its balance. An entry that names an unknown
    /// account opens it. The tombstone of `Deleted` blocks no later event.
    pub open spec fn apply(self, event: JournalEventModel) -> JournalModel {
        match event {
            JournalEventModel::Created { name, owner } => JournalModel { name, owner, ..self },
            JournalEventModel::Renamed { name } => JournalModel { name, ..self },
            JournalEventModel::CreatedAccount { account_name } => JournalModel {
                accounts: self.accounts.insert(account_name, 0),
                ..self
            },
            JournalEventModel::DeletedAccount { account_name } => JournalModel {
                accounts: self.accounts.remove(account_name),
                ..self
            },
            JournalEventModel::AddedEntry { transaction } => JournalModel {
                accounts: post_updates(self.accounts, transaction.updates),
                transactions: self.transactions.push(transaction),
                ..self
            },
            JournalEventModel::Deleted => JournalModel { deleted: true, ..self },
        }
    }

    /// The journal after each of the stored `events` in turn.
    ///
    /// The first event that belongs to a user ends the replay with
    /// `TypeMismatch`, the first entry that the journal does not admit with
    /// `InvalidInput`.
    pub open spec fn replay_stored(
        self,
        events: Seq<DomainEventModel>,
    ) -> Result<JournalModel, ErrorModel>
        decreases events.len(),
    {
        if events.len() == 0 {
            Ok(self)
        } else {
            match self.replay_stored(events.drop_last()) {
                Ok(state) => match events.last() {
                    DomainEventModel::Journal(event) => if state.admits(event) {
                        Ok(state.apply(event))
                    } else {
                        Err(ErrorModel::InvalidInput)
                    },
                    DomainEventModel::User(_) => Err(ErrorModel::TypeMismatch),
                },
                Err(error) => Err(error),
            }
        }
    }
}

/// What an invitation grants, and who stands behind it.
#[derive(Clone, Copy, Debug, PartialEq, Eq)]
pub struct JournalTenantInfo {
    pub tenant_permissions: Permissions,
    pub inviting_user: AggregateId,
    pub journal_owner: AggregateId,
}

/// A journal that a user shares, with what the user's invitation grants.
#[derive(Clone, Copy, Debug, PartialEq, Eq)]
pub struct SharedJournal {
    pub id: AggregateId,
    pub info: JournalTenantInfo,
}

/// The invitations of a user by journal: those that the user has accepted and
/// those that wait for an answer.
#[derive(Clone, Debug, PartialEq, Eq)]
pub struct SharedAndPendingJournals {
    pub shared: HashMap<AggregateId, JournalTenantInfo>,
    pub pending: HashMap<AggregateId, JournalTenantInfo>,
}

/// The state of a journal, rebuilt from its events.
#[derive(Debug)]
pub struct JournalState {
    pub id: AggregateId,
    pub name: String,
    pub owner: AggregateId,
    pub accounts: AccountBook,
    pub transactions: Vec<Transaction>,
    pub deleted: bool,
}

impl View for JournalState {
    type V = JournalModel;

    open spec fn view(&self) -> JournalModel {
        JournalModel {
            id: self.id,
            name: self.name@,
            owner: self.owner,
            accounts: self.accounts@,
            transactions: transaction_models(self.transactions@),
            deleted: self.deleted,
        }
    }
}

proof fn lemma_fit_prefix(accounts: Map<Seq<char>, int>, updates: Seq<UpdateModel>, n: int)
    requires
        0 <= n <= updates.len(),
        updates_fit(accounts, updates),
    ensures
        updates_fit(accounts, updates.take(n)),
    decreases updates.len(),
{
    if n == updates.len() {
        assert(updates.take(n) =~= updates);
    } else {
        lemma_fit_prefix(accounts, updates.drop_last(), n);
        assert(updates.drop_last().take(n) =~= updates.take(n));
    }
}

/// The types of event that tell a journal's name.
pub open spec fn journal_name_types() -> Seq<EventType> {
    seq![EventType::JournalCreated, EventType::JournalRenamed]
}

/// The journal `id` as the events of the given types in `log` tell it.
pub open spec fn journal_in_log(
    log: Seq<RecordModel>,
    id: AggregateId,
    event_types: Seq<EventType>,
) -> Result<JournalModel, ErrorModel> {
    JournalModel::new(id).replay_stored(
        payloads_of(selection(log, id, AggregateType::Journal, event_types)),
    )
}

/// A replay that has failed on a prefix fails in the same way on the whole.
pub proof fn lemma_replay_stops_at_first_error(
    start: JournalModel,
    events: Seq<DomainEventModel>,
    n: int,
)
    requires
        0 <= n <= events.len(),
        start.replay_stored(events.take(n)) is Err,
    ensures
        start.replay_stored(events) == start.replay_stored(events.take(n)),
    decreases events.len(),
{
    if n == events.len() {
        assert(events.take(n) =~= events);
    } else {
        assert(events.drop_last().take(n) =~= events.take(n));
        lemma_replay_stops_at_first_error(start, events.drop_last(), n);
    }
}

/// A replay of journal events without entries does not fail.
pub proof fn lemma_replay_without_entries_succeeds(
    start: JournalModel,
    events: Seq<DomainEventModel>,
)
    requires
        forall|i: int|
            0 <= i < events.len() ==> (#[trigger] events[i]) is Journal && !(
            events[i]->Journal_0 is AddedEntry),
    ensures
        start.replay_stored(events) is Ok,
    decreases events.len(),
{
    if events.len() > 0 {
        lemma_replay_without_entries_succeeds(start, events.drop_last());
        assert(events.last() == events[events.len() - 1]);
    }
}

/// A journal that is built from a well-formed log without its entries is
/// built without fail.
pub proof fn lemma_build_without_entries_succeeds(
    log: Seq<RecordModel>,
    id: AggregateId,
    event_types: Seq<EventType>,
)
    requires
        well_formed_log(log),
        !event_types.contains(EventType::JournalAddedEntry),
    ensures
        journal_in_log(log, id, event_types) is Ok,
{
    let found = selection(log, id, AggregateType::Journal, event_types);
    lemma_selection_has_kind(log, id, AggregateType::Journal, event_types);
    let events = payloads_of(found);
    assert forall|i: int| 0 <= i < events.len() implies (#[trigger] events[i]) is Journal && !(
    events[i]->Journal_0 is AddedEntry) by {
        let record = found[i];
        assert(record.payload.aggregate_type() == AggregateType::Journal);
        assert(event_types.contains(record.payload.event_type()));
    }
    lemma_replay_without_entries_succeeds(JournalModel::new(id), events);
}

impl Default for JournalState {
    /// The journal without an identifier, before any event.
    fn default() -> (state: JournalState)
        ensures
            state.wf(),
            state@ == JournalModel::new(0),
    {
        JournalState::new(0)
    }
}

impl JournalState {
    /// The account book holds no name twice.
    pub open spec fn wf(&self) -> bool {
        self.accounts.wf()
    }

    /// The journal `id` before any event.
    pub fn new(id: AggregateId) -> (state: JournalState)
        ensures
            state.wf(),
            state@ == JournalModel::new(id),
    {
        let state = JournalState {
            id,
            name: String::new(),
            owner: 0,
            accounts: AccountBook::new(),
            transactions: Vec::new(),
            deleted: false,
        };
        assert(transaction_models(state.transactions@) =~= Seq::<TransactionModel>::empty());
        state
    }

    /// Posts `updates` one by one; stops at the first balance that cannot be held.
    fn post(&mut self, updates: &Vec<BalanceUpdate>) -> (done: bool)
        requires
            old(self).wf(),
        ensures
            final(self).wf(),
            done == updates_fit(old(self)@.accounts, update_models(updates@)),
            done ==> final(self)@ == (JournalModel {
                accounts: post_updates(old(self)@.accounts, update_models(updates@)),
                ..old(self)@
            }),
    {
        let ghost before = self@.accounts;
        let ghost lines = update_models(updates@);
        let mut i: usize = 0;
        assert(lines.take(0) =~= Seq::<UpdateModel>::empty());
        while i < updates.len()
            invariant
                i <= updates.len(),
                lines == update_models(updates@),
                before == old(self)@.accounts,
                self.wf(),
                updates_fit(before, lines.take(i as int)),
                self@ == (JournalModel {
                    accounts: post_updates(before, lines.take(i as int)),
                    ..old(self)@
                }),
            decreases updates.len() - i,
        {
            let update = &updates[i];
            let held: i64 = match self.accounts.get(&update.account_name) {
                Some(balance) => balance,
                None => 0,
            };
            proof {
                let posted = post_updates(before, lines.take(i as int));
                assert(lines.take(i + 1).drop_last() =~= lines.take(i as int));
                assert(lines.take(i + 1).last() == update@);
                assert(post_updates(before, lines.take(i + 1)) == post_update(posted, update@));
                assert(post_update(posted, update@)[update@.account_name] == held
                    + update.changed_by);
            }
            match held.checked_add(update.changed_by) {
                Some(balance) => {
                    self.accounts.insert(update.account_name.clone(), balance);
                },
                None => {
                    proof {
                        if updates_fit(before, lines) {
                            lemma_fit_prefix(before, lines, i + 1);
                        }
                    }
                    return false;
                },
            }
            i += 1;
        }
        assert(lines.take(i as int) =~= lines);
        true
    }

    /// Applies `event` where the journal admits it; says whether it did. Where
    /// it did not, the state is left half-written.
    fn apply_admitted(&mut self, event: JournalEvent) -> (done: bool)
        requires
            old(self).wf(),
        ensures
            final(self).wf(),
            done == old(self)@.admits(event@),
            done ==> final(self)@ == old(self)@.apply(event@),
    {
        match event {
            JournalEvent::Created { name, owner } => {
                self.name = name;
                self.owner = owner;
                true
            },
            JournalEvent::Renamed { name } => {
                self.name = name;
                true
            },
            JournalEvent::CreatedAccount { account_name } => {
                self.accounts.insert(account_name, 0);
                true
            },
            JournalEvent::DeletedAccount { account_name } => {
                let _ = self.accounts.remove(&account_name);
                true
            },
            JournalEvent::AddedEntry { transaction } => {
                let done = self.post(&transaction.updates);
                if done {
                    let ghost entries = self.transactions@;
                    self.transactions.push(transaction);
                    assert(transaction_models(self.transactions@) =~= transaction_models(
                        entries,
                    ).push(transaction@));
                }
                done
            },
            JournalEvent::Deleted => {
                self.deleted = true;
                true
            },
        }
    }

    /// The journal `id` after each of the stored `events` in turn.
    pub fn from_events(id: AggregateId, events: Vec<DomainEvent>) -> (journal: Result<
        JournalState,
        KnownErrors,
    >)
        ensures
            match JournalModel::new(id).replay_stored(domain_event_models(events@)) {
                Ok(model) => journal matches Ok(state) && state.wf() && state@ == model,
                Err(error) => journal matches Err(e) && e@ == error,
            },
    {
        let mut state = JournalState::new(id);
        let ghost all = domain_event_models(events@);
        let ghost start = JournalModel::new(id);
        assert(all.take(0) =~= Seq::<DomainEventModel>::empty());
        for stored in it: events.into_iter()
            invariant
                state.wf(),
                start == JournalModel::new(id),
                all == domain_event_models(it.seq()),
                all == domain_event_models(events@),
                start.replay_stored(all.take(it.index() as int)) == Ok::<JournalModel, ErrorModel>(
                    state@,
                ),
        {
            proof {
                let n = it.index() as int;
                assert(all.take(n + 1).drop_last() =~= all.take(n));
                assert(all.take(n + 1).last() == stored@);
            }
            match stored.to_journal_event() {
                Ok(event) => {
                    if !state.apply_admitted(event) {
                        proof {
                            lemma_replay_stops_at_first_error(start, all, it.index() + 1);
                        }
                        return Err(KnownErrors::InvalidInput);
                    }
                },
                Err(error) => {
                    proof {
                        lemma_replay_stops_at_first_error(start, all, it.index() + 1);
                    }
                    return Err(error);
                },
            }
        }
        assert(all.take(all.len() as int) =~= all);
        Ok(state)
    }

    /// The journal `id` as the events of the given types in `store` tell it.
    pub fn build(
        id: &AggregateId,
        event_types: Vec<EventType>,
        store: &EventStore,
    ) -> (journal: Result<JournalState, KnownErrors>)
        requires
            store.wf(),
        ensures
            match journal_in_log(store@, *id, event_types@) {
                Ok(model) => journal matches Ok(state) && state.wf() && state@ == model,
                Err(error) => journal matches Err(e) && e@ == error,
            },
    {
        let found = store.query(*id, AggregateType::Journal, &event_types);
        JournalState::from_events(*id, payloads(found))
    }

    /// The journal after `event`, or `None` where the journal does not admit
    /// the event: where an entry gives rise to a balance that cannot be held.
    pub fn checked_apply(self, event: JournalEvent) -> (after: Option<JournalState>)
        requires
            self.wf(),
        ensures
            after is Some <==> self@.admits(event@),
            after matches Some(state) ==> state.wf() && state@ == self@.apply(event@),
    {
        let mut state = self;
        if state.apply_admitted(event) {
            Some(state)
        } else {
            None
        }
    }

    /// Folds one event into the journal.
    pub fn apply(&mut self, event: JournalEvent)
        requires
            old(self).wf(),
            old(self)@.admits(event@),
        ensures
            final(self).wf(),
            final(self)@ == old(self)@.apply(event@),
    {
        let _ = self.apply_admitted(event);
    }
}

/// The name of the journal `id`, or `None` where no event gave it one.
pub fn get_name_from_id(id: &AggregateId, store: &EventStore) -> (name: Result<
    Option<String>,
    KnownErrors,
>)
    requires
        store.wf(),
    ensures
        journal_in_log(store@, *id, journal_name_types()) matches Ok(journal) && name matches Ok(
            found,
        ) && match found {
            Some(text) => text@ == journal.name && text@.len() > 0,
            None => journal.name.len() == 0,
        },
{
    let event_types = vec![EventType::JournalCreated, EventType::JournalRenamed];
    proof {
        assert(event_types@ =~= journal_name_types());
        lemma_build_without_entries_succeeds(store@, *id, journal_name_types());
    }
    match JournalState::build(id, event_types, store) {
        Ok(journal) => {
            if journal.name.as_str().is_empty() {
                Ok(None)
            } else {
                Ok(Some(journal.name))
            }
        },
        Err(error) => Err(error),
    }
}

} // verus!
