//! The user aggregate: identity, credentials, sessions and journal memberships,
//! rebuilt from the user's events.

use crate::errors::{ErrorModel, KnownErrors};
use crate::event::{domain_event_models, AggregateType, DomainEvent, DomainEventModel, EventType};
use crate::ids::AggregateId;
use crate::journal::{JournalTenantInfo, SharedAndPendingJournals, SharedJournal};
use crate::permissions::Permissions;
use crate::sessions::SessionSet;
use crate::store::{
    lemma_front_is_well_formed, lemma_selection_has_kind, new_record, payloads, payloads_of,
    precedes, record_models, selection, well_formed_log, EventStore, RecordModel,
};
use std::collections::HashMap;
use std::collections::HashSet;
use vstd::prelude::*;
use vstd::std_specs::iter::IteratorSpec;

verus! {

broadcast use vstd::std_specs::hash::group_hash_axioms;

/// What can happen to a user.
#[derive(Debug, PartialEq, Eq)]
pub enum UserEvent {
    Created { username: String, hashed_password: String },
    UsernameUpdated { username: String },
    PasswordUpdated { hashed_password: String },
    LoggedIn { session_id: String },
    LoggedOut { session_id: String },
    CreatedJournal { id: AggregateId },
    InvitedToJournal {
        id: AggregateId,
        permissions: Permissions,
        inviting_user: AggregateId,
        owner: AggregateId,
    },
    AcceptedJournalInvite { id: AggregateId },
    DeclinedJournalInvite { id: AggregateId },
    RemovedFromJournal { id: AggregateId },
    Deleted,
}

impl UserEvent {
    /// Records a copy of the event as the next event of the user `id` and
    /// returns the number that it got. A store that has run out of numbers
    /// refuses with `StoreError` and stays as it was.
    pub fn push_db(
        &self,
        id: &AggregateId,
        store: &mut EventStore,
        clock: i64,
    ) -> (event_id: Result<i64, KnownErrors>)
        requires
            old(store).wf(),
        ensures
            final(store).wf(),
            event_id is Ok <==> old(store)@.len() < i64::MAX,
            event_id matches Ok(number) ==> number == old(store)@.len() + 1 && final(store)@
                == old(store)@.push(
                new_record(old(store)@, *id, DomainEventModel::User(self@), clock as int),
            ),
            event_id matches Err(error) ==> error@ == ErrorModel::StoreError && final(store)@
                == old(store)@,
    {
        store.append(*id, DomainEvent::User(self.clone()), clock)
    }
}

/// A [`UserEvent`] as a mathematical value.
pub enum UserEventModel {
    Created { username: Seq<char>, hashed_password: Seq<char> },
    UsernameUpdated { username: Seq<char> },
    PasswordUpdated { hashed_password: Seq<char> },
    LoggedIn { session_id: Seq<char> },
    LoggedOut { session_id: Seq<char> },
    CreatedJournal { id: AggregateId },
    InvitedToJournal {
        id: AggregateId,
        permissions: Permissions,
        inviting_user: AggregateId,
        owner: AggregateId,
    },
    AcceptedJournalInvite { id: AggregateId },
    DeclinedJournalInvite { id: AggregateId },
    RemovedFromJournal { id: AggregateId },
    Deleted,
}

impl View for UserEvent {
    type V = UserEventModel;

    open spec fn view(&self) -> UserEventModel {
        match *self {
            UserEvent::Created { username, hashed_password } => UserEventModel::Created {
                username: username@,
                hashed_password: hashed_password@,
            },
            UserEvent::UsernameUpdated { username } => UserEventModel::UsernameUpdated {
                username: username@,
            },
            UserEvent::PasswordUpdated { hashed_password } => UserEventModel::PasswordUpdated {
                hashed_password: hashed_password@,
            },
            UserEvent::LoggedIn { session_id } => UserEventModel::LoggedIn {
                session_id: session_id@,
            },
            UserEvent::LoggedOut { session_id } => UserEventModel::LoggedOut {
                session_id: session_id@,
            },
            UserEvent::CreatedJournal { id } => UserEventModel::CreatedJournal { id },
            UserEvent::InvitedToJournal {
                id,
                permissions,
                inviting_user,
                owner,
            } => UserEventModel::InvitedToJournal { id, permissions, inviting_user, owner },
            UserEvent::AcceptedJournalInvite { id } => UserEventModel::AcceptedJournalInvite { id },
            UserEvent::DeclinedJournalInvite { id } => UserEventModel::DeclinedJournalInvite { id },
            UserEvent::RemovedFromJournal { id } => UserEventModel::RemovedFromJournal { id },
            UserEvent::Deleted => UserEventModel::Deleted,
        }
    }
}

impl Clone for UserEvent {
    fn clone(&self) -> (copy: UserEvent)
        ensures
            copy@ == self@,
    {
        match self {
            UserEvent::Created { username, hashed_password } => UserEvent::Created {
                username: username.clone(),
                hashed_password: hashed_password.clone(),
            },
            UserEvent::UsernameUpdated { username } => UserEvent::UsernameUpdated {
                username: username.clone(),
            },
            UserEvent::PasswordUpdated { hashed_password } => UserEvent::PasswordUpdated {
                hashed_password: hashed_password.clone(),
            },
            UserEvent::LoggedIn { session_id } => UserEvent::LoggedIn {
                session_id: session_id.clone(),
            },
            UserEvent::LoggedOut { session_id } => UserEvent::LoggedOut {
                session_id: session_id.clone(),
            },
            UserEvent::CreatedJournal { id } => UserEvent::CreatedJournal { id: *id },
            UserEvent::InvitedToJournal {
                id,
                permissions,
                inviting_user,
                owner,
            } => UserEvent::InvitedToJournal {
                id: *id,
                permissions: *permissions,
                inviting_user: *inviting_user,
                owner: *owner,
            },
            UserEvent::AcceptedJournalInvite { id } => UserEvent::AcceptedJournalInvite { id: *id },
            UserEvent::DeclinedJournalInvite { id } => UserEvent::DeclinedJournalInvite { id: *id },
            UserEvent::RemovedFromJournal { id } => UserEvent::RemovedFromJournal { id: *id },
            UserEvent::Deleted => UserEvent::Deleted,
        }
    }
}

/// The views of a list of user events.
pub open spec fn user_event_models(events: Seq<UserEvent>) -> Seq<UserEventModel> {
    events.map_values(|e: UserEvent| e@)
}

/// The state of a user as a mathematical value.
pub struct UserModel {
    pub id: AggregateId,
    pub username: Seq<char>,
    pub hashed_password: Seq<char>,
    pub authenticated_sessions: Set<Seq<char>>,
    pub pending_journal_invites: Map<AggregateId, JournalTenantInfo>,
    pub accepted_journal_invites: Map<AggregateId, JournalTenantInfo>,
    pub owned_journals: Set<AggregateId>,
    pub deleted: bool,
}

impl UserModel {
    /// The user `id` before any event.
    pub open spec fn new(id: AggregateId) -> UserModel {
        UserModel {
            id,
            username: Seq::empty(),
            hashed_password: Seq::empty(),
            authenticated_sessions: Set::empty(),
            pending_journal_invites: Map::empty(),
            accepted_journal_invites: Map::empty(),
            owned_journals: Set::empty(),
            deleted: false,
        }
    }

    /// The user after `event`.
    ///
    /// Accepting an invitation moves it from the pending ones to the accepted
    /// ones; accepting one that is not pending changes nothing. The tombstone
    /// of `Deleted` blocks no later event.
    pub open spec fn apply(self, event: UserEventModel) -> UserModel {
        match event {
            UserEventModel::Created { username, hashed_password } => UserModel {
                username,
                hashed_password,
                ..self
            },
            UserEventModel::UsernameUpdated { username } => UserModel { username, ..self },
            UserEventModel::PasswordUpdated { hashed_password } => UserModel {
                hashed_password,
                ..self
            },
            UserEventModel::LoggedIn { session_id } => UserModel {
                authenticated_sessions: self.authenticated_sessions.insert(session_id),
                ..self
            },
            UserEventModel::LoggedOut { session_id } => UserModel {
                authenticated_sessions: self.authenticated_sessions.remove(session_id),
                ..self
            },
            UserEventModel::CreatedJournal { id } => UserModel {
                owned_journals: self.owned_journals.insert(id),
                ..self
            },
            UserEventModel::InvitedToJournal {
                id,
                permissions,
                inviting_user,
                owner,
            } => UserModel {
                pending_journal_invites: self.pending_journal_invites.insert(
                    id,
                    JournalTenantInfo {
                        tenant_permissions: permissions,
                        inviting_user,
                        journal_owner: owner,
                    },
                ),
                ..self
            },
            UserEventModel::AcceptedJournalInvite {
                id,
            } => if self.pending_journal_invites.contains_key(id) {
                UserModel {
                    pending_journal_invites: self.pending_journal_invites.remove(id),
                    accepted_journal_invites: self.accepted_journal_invites.insert(
                        id,
                        self.pending_journal_invites[id],
                    ),
                    ..self
                }
            } else {
                self
            },
            UserEventModel::DeclinedJournalInvite { id } => UserModel {
                pending_journal_invites: self.pending_journal_invites.remove(id),
                ..self
            },
            UserEventModel::RemovedFromJournal { id } => UserModel {
                accepted_journal_invites: self.accepted_journal_invites.remove(id),
                ..self
            },
            UserEventModel::Deleted => UserModel { deleted: true, ..self },
        }
    }

    /// The user after each of `events` in turn.
    pub open spec fn replay(self, events: Seq<UserEventModel>) -> UserModel
        decreases events.len(),
    {
        if events.len() == 0 {
            self
        } else {
            self.replay(events.drop_last()).apply(events.last())
        }
    }
}

impl UserModel {
    /// The user after each of the stored `events` in turn. The first event
    /// that belongs to a journal ends the replay with `TypeMismatch`.
    pub open spec fn replay_stored(self, events: Seq<DomainEventModel>) -> Result<
        UserModel,
        ErrorModel,
    >
        decreases events.len(),
    {
        if events.len() == 0 {
            Ok(self)
        } else {
            match self.replay_stored(events.drop_last()) {
                Ok(state) => match events.last() {
                    DomainEventModel::User(event) => Ok(state.apply(event)),
                    DomainEventModel::Journal(_) => Err(ErrorModel::TypeMismatch),
                },
                Err(error) => Err(error),
            }
        }
    }
}

/// A replay that has failed on a prefix fails in the same way on the whole.
pub proof fn lemma_user_replay_stops_at_first_error(
    start: UserModel,
    events: Seq<DomainEventModel>,
    n: int,
)
    requires
        0 <= n <= events.len(),
        start.replay_stored(events.take(n)) is Err,
    ensures
        start.replay_stored(events) == start.replay_stored(events.take(n)),
    decreases events.len(),
{
    if n == events.len() {
        assert(events.take(n) =~= events);
    } else {
        assert(events.drop_last().take(n) =~= events.take(n));
        lemma_user_replay_stops_at_first_error(start, events.drop_last(), n);
    }
}

/// A replay of nothing but user events does not fail.
pub proof fn lemma_user_replay_succeeds(start: UserModel, events: Seq<DomainEventModel>)
    requires
        forall|i: int| 0 <= i < events.len() ==> (#[trigger] events[i]) is User,
    ensures
        start.replay_stored(events) is Ok,
    decreases events.len(),
{
    if events.len() > 0 {
        lemma_user_replay_succeeds(start, events.drop_last());
        assert(events.last() == events[events.len() - 1]);
    }
}

/// The types of event that tell a user's name.
pub open spec fn name_types() -> Seq<EventType> {
    seq![EventType::UserCreated, EventType::UsernameUpdated]
}

/// The types of event that tell a user's credentials.
pub open spec fn password_types() -> Seq<EventType> {
    seq![EventType::UserCreated, EventType::UserPasswordUpdated]
}

/// The types of event that tell a user's sessions.
pub open spec fn session_types() -> Seq<EventType> {
    seq![EventType::UserLoggedIn, EventType::UserLoggedOut]
}

/// The types of event that tell which journals a user owns and shares.
pub open spec fn membership_types() -> Seq<EventType> {
    seq![
        EventType::UserCreatedJournal,
        EventType::UserInvitedToJournal,
        EventType::UserAcceptedJournalInvite,
        EventType::UserDeclinedJournalInvite,
        EventType::UserRemovedFromJournal,
    ]
}

/// The user `id` as the events of the given types in `log` tell it.
pub open spec fn user_in_log(
    log: Seq<RecordModel>,
    id: AggregateId,
    event_types: Seq<EventType>,
) -> Result<UserModel, ErrorModel> {
    UserModel::new(id).replay_stored(
        payloads_of(selection(log, id, AggregateType::User, event_types)),
    )
}

/// A user is rebuilt from a well-formed log without fail.
pub proof fn lemma_user_in_log_is_built(
    log: Seq<RecordModel>,
    id: AggregateId,
    event_types: Seq<EventType>,
)
    requires
        well_formed_log(log),
    ensures
        user_in_log(log, id, event_types) is Ok,
{
    let found = selection(log, id, AggregateType::User, event_types);
    lemma_selection_has_kind(log, id, AggregateType::User, event_types);
    let events = payloads_of(found);
    assert forall|i: int| 0 <= i < events.len() implies (#[trigger] events[i]) is User by {
        assert(found[i].payload.aggregate_type() == AggregateType::User);
    }
    lemma_user_replay_succeeds(UserModel::new(id), events);
}

/// Whether `record` gives a user the name `username`.
pub open spec fn names_user(record: RecordModel, username: Seq<char>) -> bool {
    match record.payload {
        DomainEventModel::User(UserEventModel::Created { username: name, .. }) => name == username,
        DomainEventModel::User(UserEventModel::UsernameUpdated { username: name }) => name
            == username,
        _ => false,
    }
}

/// Whether `record` logs a user in under the session `session_id`.
pub open spec fn starts_session(record: RecordModel, session_id: Seq<char>) -> bool {
    match record.payload {
        DomainEventModel::User(UserEventModel::LoggedIn { session_id: session }) => session
            == session_id,
        _ => false,
    }
}

/// Whether `record` is looked for: one that starts the session `text`, or
/// one that gives a user the name `text`.
pub open spec fn is_sought(record: RecordModel, text: Seq<char>, by_session: bool) -> bool {
    if by_session {
        starts_session(record, text)
    } else {
        names_user(record, text)
    }
}

/// The aggregate of the last record of those looked for, if there is one.
pub open spec fn latest_sought(log: Seq<RecordModel>, text: Seq<char>, by_session: bool) -> Option<
    AggregateId,
>
    decreases log.len(),
{
    if log.len() == 0 {
        None
    } else if is_sought(log.last(), text, by_session) {
        Some(log.last().aggregate_id)
    } else {
        latest_sought(log.drop_last(), text, by_session)
    }
}

/// Whether the record `k` of `log` is one of those looked for and none of
/// them is later.
pub open spec fn is_latest_sought(
    log: Seq<RecordModel>,
    k: int,
    text: Seq<char>,
    by_session: bool,
) -> bool {
    &&& 0 <= k < log.len()
    &&& is_sought(log[k], text, by_session)
    &&& forall|j: int|
        0 <= j < log.len() && j != k && is_sought(#[trigger] log[j], text, by_session) ==> precedes(
            log[j],
            log[k],
        )
}

/// In a well-formed log the last record of those looked for is the latest in
/// time, and where none is found, none is there.
pub proof fn lemma_latest_sought_is_latest_in_time(
    log: Seq<RecordModel>,
    text: Seq<char>,
    by_session: bool,
)
    requires
        well_formed_log(log),
    ensures
        match latest_sought(log, text, by_session) {
            Some(id) => exists|k: int| #[trigger]
                is_latest_sought(log, k, text, by_session) && log[k].aggregate_id == id,
            None => forall|k: int|
                0 <= k < log.len() ==> !is_sought(#[trigger] log[k], text, by_session),
        },
    decreases log.len(),
{
    if log.len() > 0 {
        let n = log.len() - 1;
        let front = log.drop_last();
        if is_sought(log.last(), text, by_session) {
            assert forall|j: int|
                0 <= j < log.len() && j != n && is_sought(
                    #[trigger] log[j],
                    text,
                    by_session,
                ) implies precedes(log[j], log[n]) by {
                assert(log[j].id == j + 1);
                assert(log[n].id == n + 1);
                assert(log[j].created_at <= log[n].created_at);
            }
            assert(is_latest_sought(log, n, text, by_session));
        } else {
            lemma_front_is_well_formed(log);
            lemma_latest_sought_is_latest_in_time(front, text, by_session);
            match latest_sought(front, text, by_session) {
                Some(id) => {
                    let k = choose|k: int| #[trigger]
                        is_latest_sought(front, k, text, by_session) && front[k].aggregate_id
                            == id;
                    assert(log[k] == front[k]);
                    assert forall|j: int|
                        0 <= j < log.len() && j != k && is_sought(
                            #[trigger] log[j],
                            text,
                            by_session,
                        ) implies precedes(log[j], log[k]) by {
                        assert(front[j] == log[j]);
                    }
                    assert(is_latest_sought(log, k, text, by_session));
                },
                None => {
                    assert forall|k: int| 0 <= k < log.len() implies !is_sought(
                        #[trigger] log[k],
                        text,
                        by_session,
                    ) by {
                        if k < n {
                            assert(front[k] == log[k]);
                        }
                    }
                },
            }
        }
    }
}

/// The state of a user, rebuilt from the user's events.
#[derive(Debug)]
pub struct UserState {
    pub id: AggregateId,
    pub authenticated_sessions: SessionSet,
    pub username: String,
    pub hashed_password: String,
    pub pending_journal_invites: HashMap<AggregateId, JournalTenantInfo>,
    pub accepted_journal_invites: HashMap<AggregateId, JournalTenantInfo>,
    pub owned_journals: HashSet<AggregateId>,
    pub deleted: bool,
}

impl View for UserState {
    type V = UserModel;

    open spec fn view(&self) -> UserModel {
        UserModel {
            id: self.id,
            username: self.username@,
            hashed_password: self.hashed_password@,
            authenticated_sessions: self.authenticated_sessions@,
            pending_journal_invites: self.pending_journal_invites@,
            accepted_journal_invites: self.accepted_journal_invites@,
            owned_journals: self.owned_journals@,
            deleted: self.deleted,
        }
    }
}

impl Default for UserState {
    /// The user without an identifier, before any event.
    fn default() -> (state: UserState)
        ensures
            state.wf(),
            state@ == UserModel::new(0),
    {
        UserState::new(0)
    }
}

impl UserState {
    /// The session set holds no token twice.
    pub open spec fn wf(&self) -> bool {
        self.authenticated_sessions.wf()
    }

    /// The user `id` before any event.
    pub fn new(id: AggregateId) -> (state: UserState)
        ensures
            state.wf(),
            state@ == UserModel::new(id),
    {
        UserState {
            id,
            authenticated_sessions: SessionSet::new(),
            username: String::new(),
            hashed_password: String::new(),
            pending_journal_invites: HashMap::new(),
            accepted_journal_invites: HashMap::new(),
            owned_journals: HashSet::new(),
            deleted: false,
        }
    }

    /// The journals that the user owns, each once, in no particular order.
    pub fn owned_journal_ids(&self) -> (ids: Vec<AggregateId>)
        ensures
            ids@.no_duplicates(),
            ids@.to_set() == self@.owned_journals,
    {
        let mut ids: Vec<AggregateId> = Vec::new();
        let ghost walk = self.owned_journals.iter().remaining();
        for id in it: self.owned_journals.iter()
            invariant
                it.seq() == walk,
                ids@.len() == it.index(),
                forall|k: int| 0 <= k < ids@.len() ==> ids@[k] == *walk[k],
        {
            ids.push(*id);
        }
        proof {
            assert(ids@ =~= walk.unref());
            assert forall|i: int, j: int| 0 <= i < j < ids@.len() implies ids@[i] != ids@[j] by {
                assert(walk[i] != walk[j]);
            }
        }
        ids
    }

    /// The journals that the user shares, each once, in no particular order.
    pub fn accepted_invites(&self) -> (invites: Vec<SharedJournal>)
        ensures
            invites@.map_values(|shared: SharedJournal| shared.id).no_duplicates(),
            invites@.map_values(|shared: SharedJournal| (shared.id, shared.info)).to_set()
                == self@.accepted_journal_invites.kv_pairs(),
    {
        let mut invites: Vec<SharedJournal> = Vec::new();
        let ghost walk = self.accepted_journal_invites.iter().remaining();
        for pair in it: self.accepted_journal_invites.iter()
            invariant
                it.seq() == walk,
                invites@.len() == it.index(),
                forall|k: int|
                    0 <= k < invites@.len() ==> invites@[k] == (SharedJournal {
                        id: *walk[k].0,
                        info: *walk[k].1,
                    }),
        {
            invites.push(SharedJournal { id: *pair.0, info: *pair.1 });
        }
        proof {
            let pairs = invites@.map_values(|shared: SharedJournal| (shared.id, shared.info));
            assert(pairs =~= walk.unref());
            let keys = invites@.map_values(|shared: SharedJournal| shared.id);
            assert forall|i: int, j: int| 0 <= i < j < keys.len() implies keys[i] != keys[j] by {
                assert(walk[i] != walk[j]);
                assert(self@.accepted_journal_invites.contains_key(*walk[i].0));
                assert(self@.accepted_journal_invites[*walk[i].0] == *walk[i].1);
                assert(self@.accepted_journal_invites.contains_key(*walk[j].0));
                assert(self@.accepted_journal_invites[*walk[j].0] == *walk[j].1);
            }
        }
        invites
    }

    /// The invitations of the user: the accepted ones and the pending ones.
    pub fn journal_invites(&self) -> (invites: SharedAndPendingJournals)
        ensures
            invites.shared@ == self@.accepted_journal_invites,
            invites.pending@ == self@.pending_journal_invites,
    {
        SharedAndPendingJournals {
            shared: self.accepted_journal_invites.clone(),
            pending: self.pending_journal_invites.clone(),
        }
    }

    /// Folds one event into the user.
    pub fn apply(&mut self, event: UserEvent)
        requires
            old(self).wf(),
        ensures
            final(self).wf(),
            final(self)@ == old(self)@.apply(event@),
    {
        match event {
            UserEvent::Created { username, hashed_password } => {
                self.username = username;
                self.hashed_password = hashed_password;
            },
            UserEvent::UsernameUpdated { username } => {
                self.username = username;
            },
            UserEvent::PasswordUpdated { hashed_password } => {
                self.hashed_password = hashed_password;
            },
            UserEvent::LoggedIn { session_id } => {
                let _ = self.authenticated_sessions.insert(session_id);
            },
            UserEvent::LoggedOut { session_id } => {
                let _ = self.authenticated_sessions.remove(&session_id);
            },
            UserEvent::CreatedJournal { id } => {
                let _ = self.owned_journals.insert(id);
            },
            UserEvent::InvitedToJournal { id, permissions, inviting_user, owner } => {
                let _ = self.pending_journal_invites.insert(
                    id,
                    JournalTenantInfo {
                        tenant_permissions: permissions,
                        inviting_user,
                        journal_owner: owner,
                    },
                );
            },
            UserEvent::DeclinedJournalInvite { id } => {
                let _ = self.pending_journal_invites.remove(&id);
            },
            UserEvent::AcceptedJournalInvite { id } => {
                match self.pending_journal_invites.remove(&id) {
                    Some(info) => {
                        let _ = self.accepted_journal_invites.insert(id, info);
                    },
                    None => {
                        assert(self.pending_journal_invites@ =~= old(
                            self,
                        ).pending_journal_invites@);
                    },
                }
            },
            UserEvent::RemovedFromJournal { id } => {
                let _ = self.accepted_journal_invites.remove(&id);
            },
            UserEvent::Deleted => {
                self.deleted = true;
            },
        }
    }

    /// The user `id` after each of the stored `events` in turn.
    pub fn from_stored_events(id: AggregateId, events: Vec<DomainEvent>) -> (user: Result<
        UserState,
        KnownErrors,
    >)
        ensures
            match UserModel::new(id).replay_stored(domain_event_models(events@)) {
                Ok(model) => user matches Ok(state) && state.wf() && state@ == model,
                Err(error) => user matches Err(e) && e@ == error,
            },
    {
        let mut state = UserState::new(id);
        let ghost all = domain_event_models(events@);
        let ghost start = UserModel::new(id);
        assert(all.take(0) =~= Seq::<DomainEventModel>::empty());
        for stored in it: events.into_iter()
            invariant
                state.wf(),
                start == UserModel::new(id),
                all == domain_event_models(it.seq()),
                all == domain_event_models(events@),
                start.replay_stored(all.take(it.index() as int)) == Ok::<UserModel, ErrorModel>(
                    state@,
                ),
        {
            proof {
                let n = it.index() as int;
                assert(all.take(n + 1).drop_last() =~= all.take(n));
                assert(all.take(n + 1).last() == stored@);
            }
            match stored.to_user_event() {
                Ok(event) => {
                    state.apply(event);
                },
                Err(error) => {
                    proof {
                        lemma_user_replay_stops_at_first_error(start, all, it.index() + 1);
                    }
                    return Err(error);
                },
            }
        }
        assert(all.take(all.len() as int) =~= all);
        Ok(state)
    }

    /// The user `id` as the events of the given types in `store` tell it.
    pub fn build(
        id: &AggregateId,
        event_types: Vec<EventType>,
        store: &EventStore,
    ) -> (user: Result<UserState, KnownErrors>)
        requires
            store.wf(),
        ensures
            user matches Ok(state) && state.wf() && Ok::<UserModel, ErrorModel>(state@)
                == user_in_log(store@, *id, event_types@),
    {
        let found = store.query(*id, AggregateType::User, &event_types);
        proof {
            lemma_user_in_log_is_built(store@, *id, event_types@);
        }
        UserState::from_stored_events(*id, payloads(found))
    }

    /// The user `id` after each of `events` in turn.
    pub fn from_events(id: AggregateId, events: Vec<UserEvent>) -> (state: UserState)
        ensures
            state.wf(),
            state@ == UserModel::new(id).replay(user_event_models(events@)),
    {
        let mut state = UserState::new(id);
        let ghost all = user_event_models(events@);
        assert(all.take(0) =~= Seq::<UserEventModel>::empty());
        for event in it: events.into_iter()
            invariant
                state.wf(),
                all == user_event_models(it.seq()),
                state@ == UserModel::new(id).replay(all.take(it.index() as int)),
        {
            proof {
                let n = it.index() as int;
                assert(all.take(n + 1).drop_last() =~= all.take(n));
                assert(all.take(n + 1).last() == event@);
            }
            state.apply(event);
        }
        assert(all.take(all.len() as int) =~= all);
        state
    }
}

/// The user that was last given the name `username`, if any event gives a
/// user that name.
pub open spec fn user_named(log: Seq<RecordModel>, username: Seq<char>) -> Option<AggregateId> {
    latest_sought(log, username, false)
}

/// The user who is logged in under the session `session_id`: the user who
/// last logged in under it, if that user has not logged out of it since.
pub open spec fn session_user(log: Seq<RecordModel>, session_id: Seq<char>) -> Option<
    AggregateId,
> {
    match latest_sought(log, session_id, true) {
        Some(user_id) => if user_in_log(
            log,
            user_id,
            session_types(),
        )->Ok_0.authenticated_sessions.contains(session_id) {
            Some(user_id)
        } else {
            None
        },
        None => None,
    }
}

fn find_latest(store: &EventStore, text: &String, by_session: bool) -> (found: Option<AggregateId>)
    ensures
        found == latest_sought(store@, text@, by_session),
{
    let events = store.events();
    let mut found: Option<AggregateId> = None;
    let mut i: usize = 0;
    assert(store@.take(0) =~= Seq::<RecordModel>::empty());
    while i < events.len()
        invariant
            record_models(events@) == store@,
            i <= events.len(),
            found == latest_sought(store@.take(i as int), text@, by_session),
        decreases events.len() - i,
    {
        let record = &events[i];
        proof {
            assert(record@ == store@[i as int]);
            assert(store@.take(i + 1).drop_last() =~= store@.take(i as int));
            assert(store@.take(i + 1).last() == store@[i as int]);
        }
        let sought = match &record.payload {
            DomainEvent::User(UserEvent::Created { username, .. }) => !by_session && *username
                == *text,
            DomainEvent::User(UserEvent::UsernameUpdated { username }) => !by_session && *username
                == *text,
            DomainEvent::User(UserEvent::LoggedIn { session_id }) => by_session && *session_id
                == *text,
            _ => false,
        };
        if sought {
            found = Some(record.aggregate_id);
        }
        i += 1;
    }
    assert(store@.take(i as int) =~= store@);
    found
}

/// The user that was last given the name `username`, or `UsernameNotFound`
/// where no event gives a user that name.
pub fn fetch_id(username: String, store: &EventStore) -> (id: Result<AggregateId, KnownErrors>)
    ensures
        match user_named(store@, username@) {
            Some(found) => id == Ok::<AggregateId, KnownErrors>(found),
            None => id matches Err(error) && error@ == (ErrorModel::UsernameNotFound {
                username: username@,
            }),
        },
{
    match find_latest(store, &username, false) {
        Some(id) => Ok(id),
        None => Err(KnownErrors::UsernameNotFound { username }),
    }
}

/// The user who is logged in under the session `session_id`, or `NotLoggedIn`
/// where nobody is.
pub fn get_id_from_session(session_id: &String, store: &EventStore) -> (id: Result<
    AggregateId,
    KnownErrors,
>)
    requires
        store.wf(),
    ensures
        match session_user(store@, session_id@) {
            Some(found) => id == Ok::<AggregateId, KnownErrors>(found),
            None => id matches Err(error) && error@ == ErrorModel::NotLoggedIn,
        },
{
    match find_latest(store, session_id, true) {
        Some(user_id) => match is_authenticated(session_id.clone(), user_id, store) {
            Ok(true) => Ok(user_id),
            _ => Err(KnownErrors::NotLoggedIn),
        },
        None => Err(KnownErrors::NotLoggedIn),
    }
}

/// The name of the user `user_id`, or `UserDoesntExist` where no event gives the user a name.
pub fn fetch_username(user_id: AggregateId, store: &EventStore) -> (username: Result<
    String,
    KnownErrors,
>)
    requires
        store.wf(),
    ensures
        user_in_log(store@, user_id, name_types()) matches Ok(user) && match username {
            Ok(name) => name@ == user.username && name@.len() > 0,
            Err(error) => error@ == ErrorModel::UserDoesntExist && user.username.len() == 0,
        },
{
    let event_types = vec![EventType::UserCreated, EventType::UsernameUpdated];
    assert(event_types@ =~= name_types());
    match UserState::build(&user_id, event_types, store) {
        Ok(user) => {
            if !user.username.as_str().is_empty() {
                Ok(user.username)
            } else {
                Err(KnownErrors::UserDoesntExist)
            }
        },
        Err(error) => Err(error),
    }
}

/// The stored credentials of the user `user_id`; empty where no event gave any.
pub fn get_hashed_pw(user_id: &AggregateId, store: &EventStore) -> (hashed: Result<
    String,
    KnownErrors,
>)
    requires
        store.wf(),
    ensures
        user_in_log(store@, *user_id, password_types()) matches Ok(user) && hashed matches Ok(
            hash,
        ) && hash@ == user.hashed_password,
{
    let event_types = vec![EventType::UserCreated, EventType::UserPasswordUpdated];
    assert(event_types@ =~= password_types());
    match UserState::build(user_id, event_types, store) {
        Ok(user) => Ok(user.hashed_password),
        Err(error) => Err(error),
    }
}

/// Whether the user `user_id` is logged in under the session `session_id`.
pub fn is_authenticated(
    session_id: String,
    user_id: AggregateId,
    store: &EventStore,
) -> (logged_in: Result<bool, KnownErrors>)
    requires
        store.wf(),
    ensures
        user_in_log(store@, user_id, session_types()) matches Ok(user) && logged_in matches Ok(
            yes,
        ) && yes == user.authenticated_sessions.contains(session_id@),
{
    let event_types = vec![EventType::UserLoggedIn, EventType::UserLoggedOut];
    assert(event_types@ =~= session_types());
    match UserState::build(&user_id, event_types, store) {
        Ok(user) => Ok(user.authenticated_sessions.contains(&session_id)),
        Err(error) => Err(error),
    }
}

} // verus!
