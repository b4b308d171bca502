//! The envelope around every stored event, and the codes under which the log
//! files events.

use crate::errors::KnownErrors;
use crate::journal::{JournalEvent, JournalEventModel};
use crate::user::{UserEvent, UserEventModel};
use vstd::prelude::*;

verus! {

/// The kinds of aggregate that share the log.
#[derive(Clone, Copy, Debug, PartialEq, Eq, Hash, Structural)]
pub enum AggregateType {
    User,
    Journal,
}

impl AggregateType {
    /// The number that the log files this kind under.
    pub open spec fn code_of(self) -> int {
        match self {
            AggregateType::User => 1,
            AggregateType::Journal => 2,
        }
    }

    /// The number that the log files this kind under.
    pub fn code(&self) -> (code: i16)
        ensures
            code == self.code_of(),
    {
        match self {
            AggregateType::User => 1,
            AggregateType::Journal => 2,
        }
    }

    /// The kind that the log files under `code`.
    pub fn from_code(code: i16) -> (kind: Option<AggregateType>)
        ensures
            kind matches Some(k) ==> k.code_of() == code,
            kind is None ==> code != 1 && code != 2,
    {
        if code == 1 {
            Some(AggregateType::User)
        } else if code == 2 {
            Some(AggregateType::Journal)
        } else {
            None
        }
    }
}

/// The types of event. Each has a code; the codes 1 to 99 belong to users and
/// the codes 100 to 199 to journals.
#[derive(Clone, Copy, Debug, PartialEq, Eq, Hash, Structural)]
pub enum EventType {
    UserCreated,
    UsernameUpdated,
    UserPasswordUpdated,
    UserLoggedIn,
    UserLoggedOut,
    UserCreatedJournal,
    UserInvitedToJournal,
    UserAcceptedJournalInvite,
    UserDeclinedJournalInvite,
    UserRemovedFromJournal,
    UserDeleted,
    JournalCreated,
    JournalRenamed,
    JournalAccountCreated,
    JournalAccountDeleted,
    JournalAddedEntry,
    JournalDeleted,
}

/// The kind of aggregate that the code range of `code` belongs to.
pub open spec fn kind_of_code(code: int) -> Option<AggregateType> {
    if 1 <= code <= 99 {
        Some(AggregateType::User)
    } else if 100 <= code <= 199 {
        Some(AggregateType::Journal)
    } else {
        None
    }
}

impl EventType {
    /// The code of this type of event.
    pub open spec fn code_of(self) -> int {
        match self {
            EventType::UserCreated => 1,
            EventType::UsernameUpdated => 2,
            EventType::UserPasswordUpdated => 3,
            EventType::UserLoggedIn => 4,
            EventType::UserLoggedOut => 5,
            EventType::UserCreatedJournal => 6,
            EventType::UserInvitedToJournal => 7,
            EventType::UserAcceptedJournalInvite => 8,
            EventType::UserDeclinedJournalInvite => 9,
            EventType::UserRemovedFromJournal => 10,
            EventType::UserDeleted => 11,
            EventType::JournalCreated => 100,
            EventType::JournalRenamed => 101,
            EventType::JournalAccountCreated => 102,
            EventType::JournalAccountDeleted => 103,
            EventType::JournalAddedEntry => 104,
            EventType::JournalDeleted => 105,
        }
    }

    /// The type of event that a user event is filed under.
    pub open spec fn of_user_event(event: UserEventModel) -> EventType {
        match event {
            UserEventModel::Created { .. } => EventType::UserCreated,
            UserEventModel::UsernameUpdated { .. } => EventType::UsernameUpdated,
            UserEventModel::PasswordUpdated { .. } => EventType::UserPasswordUpdated,
            UserEventModel::LoggedIn { .. } => EventType::UserLoggedIn,
            UserEventModel::LoggedOut { .. } => EventType::UserLoggedOut,
            UserEventModel::CreatedJournal { .. } => EventType::UserCreatedJournal,
            UserEventModel::InvitedToJournal { .. } => EventType::UserInvitedToJournal,
            UserEventModel::AcceptedJournalInvite { .. } => EventType::UserAcceptedJournalInvite,
            UserEventModel::DeclinedJournalInvite { .. } => EventType::UserDeclinedJournalInvite,
            UserEventModel::RemovedFromJournal { .. } => EventType::UserRemovedFromJournal,
            UserEventModel::Deleted => EventType::UserDeleted,
        }
    }

    /// The type of event that a journal event is filed under.
    pub open spec fn of_journal_event(event: JournalEventModel) -> EventType {
        match event {
            JournalEventModel::Created { .. } => EventType::JournalCreated,
            JournalEventModel::Renamed { .. } => EventType::JournalRenamed,
            JournalEventModel::CreatedAccount { .. } => EventType::JournalAccountCreated,
            JournalEventModel::DeletedAccount { .. } => EventType::JournalAccountDeleted,
            JournalEventModel::AddedEntry { .. } => EventType::JournalAddedEntry,
            JournalEventModel::Deleted => EventType::JournalDeleted,
        }
    }

    /// The code of this type of event.
    pub fn code(&self) -> (code: i16)
        ensures
            code == self.code_of(),
    {
        match self {
            EventType::UserCreated => 1,
            EventType::UsernameUpdated => 2,
            EventType::UserPasswordUpdated => 3,
            EventType::UserLoggedIn => 4,
            EventType::UserLoggedOut => 5,
            EventType::UserCreatedJournal => 6,
            EventType::UserInvitedToJournal => 7,
            EventType::UserAcceptedJournalInvite => 8,
            EventType::UserDeclinedJournalInvite => 9,
            EventType::UserRemovedFromJournal => 10,
            EventType::UserDeleted => 11,
            EventType::JournalCreated => 100,
            EventType::JournalRenamed => 101,
            EventType::JournalAccountCreated => 102,
            EventType::JournalAccountDeleted => 103,
            EventType::JournalAddedEntry => 104,
            EventType::JournalDeleted => 105,
        }
    }

    /// The type of event with the code `code`, if there is one.
    pub fn from_code(code: i16) -> (event_type: Option<EventType>)
        ensures
            event_type matches Some(t) ==> t.code_of() == code,
            event_type is None ==> forall|t: EventType| t.code_of() != code,
    {
        match code {
            1 => Some(EventType::UserCreated),
            2 => Some(EventType::UsernameUpdated),
            3 => Some(EventType::UserPasswordUpdated),
            4 => Some(EventType::UserLoggedIn),
            5 => Some(EventType::UserLoggedOut),
            6 => Some(EventType::UserCreatedJournal),
            7 => Some(EventType::UserInvitedToJournal),
            8 => Some(EventType::UserAcceptedJournalInvite),
            9 => Some(EventType::UserDeclinedJournalInvite),
            10 => Some(EventType::UserRemovedFromJournal),
            11 => Some(EventType::UserDeleted),
            100 => Some(EventType::JournalCreated),
            101 => Some(EventType::JournalRenamed),
            102 => Some(EventType::JournalAccountCreated),
            103 => Some(EventType::JournalAccountDeleted),
            104 => Some(EventType::JournalAddedEntry),
            105 => Some(EventType::JournalDeleted),
            _ => None,
        }
    }

    /// The kind of aggregate whose events have this type.
    pub fn aggregate_type(&self) -> (kind: AggregateType)
        ensures
            Some(kind) == kind_of_code(self.code_of()),
    {
        if self.code() < 100 {
            AggregateType::User
        } else {
            AggregateType::Journal
        }
    }

    /// The type that `user_event` is filed under.
    pub fn from_user_event(user_event: &UserEvent) -> (event_type: EventType)
        ensures
            event_type == EventType::of_user_event(user_event@),
    {
        match user_event {
            UserEvent::Created { .. } => EventType::UserCreated,
            UserEvent::UsernameUpdated { .. } => EventType::UsernameUpdated,
            UserEvent::PasswordUpdated { .. } => EventType::UserPasswordUpdated,
            UserEvent::LoggedIn { .. } => EventType::UserLoggedIn,
            UserEvent::LoggedOut { .. } => EventType::UserLoggedOut,
            UserEvent::CreatedJournal { .. } => EventType::UserCreatedJournal,
            UserEvent::InvitedToJournal { .. } => EventType::UserInvitedToJournal,
            UserEvent::AcceptedJournalInvite { .. } => EventType::UserAcceptedJournalInvite,
            UserEvent::DeclinedJournalInvite { .. } => EventType::UserDeclinedJournalInvite,
            UserEvent::RemovedFromJournal { .. } => EventType::UserRemovedFromJournal,
            UserEvent::Deleted => EventType::UserDeleted,
        }
    }

    /// The type that `journal_event` is filed under.
    pub fn from_journal_event(journal_event: &JournalEvent) -> (event_type: EventType)
        ensures
            event_type == EventType::of_journal_event(journal_event@),
    {
        match journal_event {
            JournalEvent::Created { .. } => EventType::JournalCreated,
            JournalEvent::Renamed { .. } => EventType::JournalRenamed,
            JournalEvent::CreatedAccount { .. } => EventType::JournalAccountCreated,
            JournalEvent::DeletedAccount { .. } => EventType::JournalAccountDeleted,
            JournalEvent::AddedEntry { .. } => EventType::JournalAddedEntry,
            JournalEvent::Deleted => EventType::JournalDeleted,
        }
    }
}

/// A stored payload: an event of one of the two kinds of aggregate.
#[derive(Debug, PartialEq, Eq)]
pub enum DomainEvent {
    User(UserEvent),
    Journal(JournalEvent),
}

/// A [`DomainEvent`] as a mathematical value.
pub enum DomainEventModel {
    User(UserEventModel),
    Journal(JournalEventModel),
}

impl View for DomainEvent {
    type V = DomainEventModel;

    open spec fn view(&self) -> DomainEventModel {
        match *self {
            DomainEvent::User(event) => DomainEventModel::User(event@),
            DomainEvent::Journal(event) => DomainEventModel::Journal(event@),
        }
    }
}

impl Clone for DomainEvent {
    fn clone(&self) -> (copy: DomainEvent)
        ensures
            copy@ == self@,
    {
        match self {
            DomainEvent::User(event) => DomainEvent::User(event.clone()),
            DomainEvent::Journal(event) => DomainEvent::Journal(event.clone()),
        }
    }
}

/// The views of a list of payloads.
pub open spec fn domain_event_models(events: Seq<DomainEvent>) -> Seq<DomainEventModel> {
    events.map_values(|e: DomainEvent| e@)
}

impl DomainEventModel {
    /// The kind of aggregate that the payload belongs to.
    pub open spec fn aggregate_type(self) -> AggregateType {
        match self {
            DomainEventModel::User(_) => AggregateType::User,
            DomainEventModel::Journal(_) => AggregateType::Journal,
        }
    }

    /// The type of event that the payload is filed under.
    pub open spec fn event_type(self) -> EventType {
        match self {
            DomainEventModel::User(event) => EventType::of_user_event(event),
            DomainEventModel::Journal(event) => EventType::of_journal_event(event),
        }
    }
}

impl DomainEvent {
    /// The user event inside, or `TypeMismatch` where the payload belongs to a journal.
    pub fn to_user_event(self) -> (event: Result<UserEvent, KnownErrors>)
        ensures
            match self@ {
                DomainEventModel::User(inner) => event matches Ok(e) && e@ == inner,
                DomainEventModel::Journal(_) => event matches Err(KnownErrors::TypeMismatch),
            },
    {
        match self {
            DomainEvent::User(event) => Ok(event),
            DomainEvent::Journal(_) => Err(KnownErrors::TypeMismatch),
        }
    }

    /// The journal event inside, or `TypeMismatch` where the payload belongs to a user.
    pub fn to_journal_event(self) -> (event: Result<JournalEvent, KnownErrors>)
        ensures
            match self@ {
                DomainEventModel::Journal(inner) => event matches Ok(e) && e@ == inner,
                DomainEventModel::User(_) => event matches Err(KnownErrors::TypeMismatch),
            },
    {
        match self {
            DomainEvent::Journal(event) => Ok(event),
            DomainEvent::User(_) => Err(KnownErrors::TypeMismatch),
        }
    }

    /// The kind of aggregate that the payload belongs to.
    pub fn aggregate_type(&self) -> (kind: AggregateType)
        ensures
            kind == self@.aggregate_type(),
    {
        match self {
            DomainEvent::User(_) => AggregateType::User,
            DomainEvent::Journal(_) => AggregateType::Journal,
        }
    }

    /// The type of event that the payload is filed under.
    pub fn event_type(&self) -> (event_type: EventType)
        ensures
            event_type == self@.event_type(),
    {
        match self {
            DomainEvent::User(event) => EventType::from_user_event(event),
            DomainEvent::Journal(event) => EventType::from_journal_event(event),
        }
    }
}

/// Two types of event with one code are one type, and the code of a type
/// lies in the range of its kind of aggregate.
pub proof fn event_codes_are_partitioned(a: EventType, b: EventType)
    ensures
        a.code_of() == b.code_of() ==> a == b,
        kind_of_code(a.code_of()) is Some,
{
}

/// The type of a payload lies in the code range of the payload's kind of
/// aggregate: user events in 1 to 99, journal events in 100 to 199.
pub proof fn payload_type_matches_kind(event: DomainEventModel)
    ensures
        kind_of_code(event.event_type().code_of()) == Some(event.aggregate_type()),
{
}

} // verus!
