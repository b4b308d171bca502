//! The commands of the ledger.
//!
//! A command reads the store, rebuilds the aggregates it needs, checks what
//! the caller may do and what the request must obey, and then appends its
//! events or leaves the store as it was. The caller is named by an identifier
//! that was resolved before the command runs.
//!
//! A command that writes takes the store by exclusive reference. Nobody else
//! can read or write the log between the command's checks and its append, so
//! what it checked still holds of the log that it appends to. A command
//! appends all of its events or none.

use crate::accounts::{balances_of, distinct_names, Account};
use crate::credentials::{bcrypt_verdict, hash_password, verify_password};
use crate::entry::{balance_entry, entry_decision, texts};
use crate::errors::{ErrorModel, KnownErrors};
use crate::event::{AggregateType, DomainEvent, DomainEventModel, EventType};
use crate::gate::{authorize, authorize_invitation, grant, may};
use crate::ids::{random_id, AggregateId, V4_MARK, V4_MASK};
use crate::journal::{
    journal_in_log, lemma_build_without_entries_succeeds, JournalEvent, JournalEventModel,
    JournalState, SharedJournal, TransactionModel,
};
use crate::return_types::{
    associated_models, timed_models, AssociatedJournal, AssociatedJournalModel,
    TimedTransactionModel, TransactionWithTimeStamp,
};
use crate::permissions::{Permissions, ADDACCOUNT, APPENDTRANSACTION, READ};
use crate::store::{
    aggregate_exists, lemma_selection_has_kind, new_record, record_models, selection, EventStore,
    RecordModel,
};
use crate::user::{
    fetch_id, get_hashed_pw, is_authenticated, membership_types, password_types, session_types,
    user_in_log, user_named, UserEvent, UserEventModel, UserModel, UserState,
};
use vstd::prelude::*;

verus! {

/// The types of event that tell a journal's accounts.
pub open spec fn account_types() -> Seq<EventType> {
    seq![
        EventType::JournalCreated,
        EventType::JournalAccountCreated,
        EventType::JournalAccountDeleted,
        EventType::JournalAddedEntry,
    ]
}

/// The journals that the user `user_id` owns and shares, as `log` tells it.
pub open spec fn member_in_log(log: Seq<RecordModel>, user_id: AggregateId) -> UserModel {
    user_in_log(log, user_id, membership_types())->Ok_0
}

/// Whether a command that had one event to record at the time `now` did so:
/// the event stands at the end of the log and the command succeeded, or the
/// store had no number left, the command failed with `StoreError` and the log
/// is as it was.
pub open spec fn recorded(
    before: Seq<RecordModel>,
    after: Seq<RecordModel>,
    done: Result<(), KnownErrors>,
    aggregate_id: AggregateId,
    payload: DomainEventModel,
    now: int,
) -> bool {
    if before.len() < i64::MAX {
        done is Ok && after == before.push(new_record(before, aggregate_id, payload, now))
    } else {
        done matches Err(error) && error@ == ErrorModel::StoreError && after == before
    }
}

/// `log` with two events appended at the time `now`, one behind the other.
pub open spec fn both_recorded(
    log: Seq<RecordModel>,
    first: (AggregateId, DomainEventModel),
    second: (AggregateId, DomainEventModel),
    now: int,
) -> Seq<RecordModel> {
    let middle = log.push(new_record(log, first.0, first.1, now));
    middle.push(new_record(middle, second.0, second.1, now))
}

/// Whether a command that had two events to record at the time `now` did so:
/// both stand at the end of the log in their order and the command succeeded,
/// or the store had no two numbers left, the command failed with `StoreError`
/// and the log is as it was.
pub open spec fn recorded_both(
    before: Seq<RecordModel>,
    after: Seq<RecordModel>,
    done: Result<(), KnownErrors>,
    first: (AggregateId, DomainEventModel),
    second: (AggregateId, DomainEventModel),
    now: int,
) -> bool {
    if before.len() + 1 < i64::MAX {
        done is Ok && after == both_recorded(before, first, second, now)
    } else {
        done matches Err(error) && error@ == ErrorModel::StoreError && after == before
    }
}

/// Whether a command that was refused left the log as it was.
pub open spec fn refused(
    before: Seq<RecordModel>,
    after: Seq<RecordModel>,
    done: Result<(), KnownErrors>,
    error: ErrorModel,
) -> bool {
    done matches Err(e) && e@ == error && after == before
}

fn record(
    store: &mut EventStore,
    aggregate_id: AggregateId,
    payload: DomainEvent,
    now: i64,
) -> (done: Result<(), KnownErrors>)
    requires
        old(store).wf(),
    ensures
        final(store).wf(),
        recorded(old(store)@, final(store)@, done, aggregate_id, payload@, now as int),
{
    match store.append(aggregate_id, payload, now) {
        Ok(_) => Ok(()),
        Err(error) => Err(error),
    }
}

fn record_both(
    store: &mut EventStore,
    first_id: AggregateId,
    first: DomainEvent,
    second_id: AggregateId,
    second: DomainEvent,
    now: i64,
) -> (done: Result<(), KnownErrors>)
    requires
        old(store).wf(),
    ensures
        final(store).wf(),
        recorded_both(
            old(store)@,
            final(store)@,
            done,
            (first_id, first@),
            (second_id, second@),
            now as int,
        ),
{
    if store.version() >= 0x7fff_ffff_ffff_fffe {
        return Err(KnownErrors::StoreError);
    }
    let _ = store.append(first_id, first, now);
    let _ = store.append(second_id, second, now);
    Ok(())
}

/// The types of event that tell which journals a user owns and shares.
pub fn membership_event_types() -> (event_types: Vec<EventType>)
    ensures
        event_types@ == membership_types(),
{
    let event_types = vec![
        EventType::UserCreatedJournal,
        EventType::UserInvitedToJournal,
        EventType::UserAcceptedJournalInvite,
        EventType::UserDeclinedJournalInvite,
        EventType::UserRemovedFromJournal,
    ];
    assert(event_types@ =~= membership_types());
    event_types
}

/// What becomes of a request to record an entry: the transaction, or the
/// reason why nothing is recorded.
///
/// The caller's right is checked first and the double-entry rule second. Last
/// the journal as it stands must admit the entry: a transaction that would
/// leave an account with a balance that cannot be held is refused with
/// `InvalidInput`, and so is every entry to a journal that cannot be rebuilt.
pub open spec fn transact_decision(
    log: Seq<RecordModel>,
    user_id: AggregateId,
    journal_id: AggregateId,
    names: Seq<Seq<char>>,
    added: Seq<Seq<char>>,
    removed: Seq<Seq<char>>,
) -> Result<TransactionModel, ErrorModel> {
    if !may(member_in_log(log, user_id), journal_id, APPENDTRANSACTION) {
        Err(ErrorModel::PermissionError { required_permissions: APPENDTRANSACTION })
    } else {
        match entry_decision(user_id, names, added, removed) {
            Ok(transaction) => match journal_in_log(log, journal_id, account_types()) {
                Ok(journal) => if journal.admits(
                    JournalEventModel::AddedEntry { transaction },
                ) {
                    Ok(transaction)
                } else {
                    Err(ErrorModel::InvalidInput)
                },
                Err(error) => Err(error),
            },
            Err(error) => Err(error),
        }
    }
}

/// The types of event that tell a journal's accounts.
pub fn account_event_types() -> (event_types: Vec<EventType>)
    ensures
        event_types@ == account_types(),
{
    let event_types = vec![
        EventType::JournalCreated,
        EventType::JournalAccountCreated,
        EventType::JournalAccountDeleted,
        EventType::JournalAddedEntry,
    ];
    assert(event_types@ =~= account_types());
    event_types
}

/// Records an entry in the journal `journal_id` on behalf of the user `user_id`.
///
/// The request is three lists of one length: account names, amounts added and
/// amounts removed. Where the caller may append to the journal, the lines of
/// the request sum to zero and the journal admits them, one `AddedEntry` event
/// with all the lines is appended. In every other case nothing is appended.
pub fn transact(
    store: &mut EventStore,
    user_id: AggregateId,
    journal_id: AggregateId,
    account_names: Vec<String>,
    balance_add_cents: Vec<String>,
    balance_remove_cents: Vec<String>,
    now: i64,
) -> (done: Result<(), KnownErrors>)
    requires
        old(store).wf(),
    ensures
        final(store).wf(),
        match transact_decision(
            old(store)@,
            user_id,
            journal_id,
            texts(account_names@),
            texts(balance_add_cents@),
            texts(balance_remove_cents@),
        ) {
            Ok(transaction) => recorded(
                old(store)@,
                final(store)@,
                done,
                journal_id,
                DomainEventModel::Journal(JournalEventModel::AddedEntry { transaction }),
                now as int,
            ),
            Err(error) => refused(old(store)@, final(store)@, done, error),
        },
{
    let user = match UserState::build(&user_id, membership_event_types(), store) {
        Ok(user) => user,
        Err(error) => { return Err(error); },
    };
    match authorize(&user, journal_id, Permissions::append_transaction()) {
        Ok(()) => {},
        Err(error) => { return Err(error); },
    }
    let transaction = match balance_entry(
        user_id,
        &account_names,
        &balance_add_cents,
        &balance_remove_cents,
    ) {
        Ok(transaction) => transaction,
        Err(error) => { return Err(error); },
    };
    let journal = match JournalState::build(&journal_id, account_event_types(), store) {
        Ok(journal) => journal,
        Err(error) => { return Err(error); },
    };
    let event = JournalEvent::AddedEntry { transaction };
    match journal.checked_apply(event.clone()) {
        Some(_) => record(store, journal_id, DomainEvent::Journal(event), now),
        None => Err(KnownErrors::InvalidInput),
    }
}

/// Adds the account `account_name` to the journal `journal_id` on behalf of
/// the user `user_id`.
///
/// Where the caller may add accounts to the journal, one `CreatedAccount`
/// event is appended. Otherwise the command is refused with `PermissionError`,
/// which carries the capability to add accounts, and nothing is appended.
pub fn add_account(
    store: &mut EventStore,
    user_id: AggregateId,
    account_name: String,
    journal_id: AggregateId,
    now: i64,
) -> (done: Result<(), KnownErrors>)
    requires
        old(store).wf(),
    ensures
        final(store).wf(),
        if may(member_in_log(old(store)@, user_id), journal_id, ADDACCOUNT) {
            recorded(
                old(store)@,
                final(store)@,
                done,
                journal_id,
                DomainEventModel::Journal(
                    JournalEventModel::CreatedAccount { account_name: account_name@ },
                ),
                now as int,
            )
        } else {
            refused(
                old(store)@,
                final(store)@,
                done,
                ErrorModel::PermissionError { required_permissions: ADDACCOUNT },
            )
        },
{
    let user = match UserState::build(&user_id, membership_event_types(), store) {
        Ok(user) => user,
        Err(error) => { return Err(error); },
    };
    match authorize(&user, journal_id, Permissions::add_account()) {
        Ok(()) => record(
            store,
            journal_id,
            DomainEvent::Journal(JournalEvent::CreatedAccount { account_name }),
            now,
        ),
        Err(error) => Err(error),
    }
}

/// The accounts of the journal `journal_id` with their balances, for the user
/// `user_id`.
///
/// A caller who may not read the journal is refused with `PermissionError`,
/// which carries the capability to read. A journal whose entries give rise to
/// a balance that cannot be held is reported with `InvalidInput`. Otherwise
/// each account of the journal is listed once.
pub fn get_accounts(store: &EventStore, user_id: AggregateId, journal_id: AggregateId) -> (accounts:
    Result<Vec<Account>, KnownErrors>)
    requires
        store.wf(),
    ensures
        if !may(member_in_log(store@, user_id), journal_id, READ) {
            accounts matches Err(e) && e@ == (ErrorModel::PermissionError {
                required_permissions: READ,
            })
        } else {
            match journal_in_log(store@, journal_id, account_types()) {
                Ok(journal) => accounts matches Ok(list) && distinct_names(list@) && balances_of(
                    list@,
                ) == journal.accounts && list@.len() == journal.accounts.dom().len(),
                Err(error) => accounts matches Err(e) && e@ == error,
            }
        },
{
    let user = match UserState::build(&user_id, membership_event_types(), store) {
        Ok(user) => user,
        Err(error) => { return Err(error); },
    };
    match authorize(&user, journal_id, Permissions::read()) {
        Ok(()) => {},
        Err(error) => { return Err(error); },
    }
    match JournalState::build(&journal_id, account_event_types(), store) {
        Ok(journal) => Ok(journal.accounts.accounts()),
        Err(error) => Err(error),
    }
}

/// Invites the user called `invitee_username` to the journal `journal_id`
/// with the capabilities `permissions`, on behalf of the user `user_id`.
///
/// Where nobody goes by the name, the command is refused with
/// `UserDoesntExist`. The journal's owner may grant anything. Another caller
/// may grant what an accepted invitation to the journal gives the caller; one
/// who asks to grant more is refused with `PermissionError`, which carries
/// the lowest capability that is asked for and not held. Otherwise one
/// `InvitedToJournal` event is appended to the invited user; it names the
/// caller and the journal's owner.
pub fn invite_to_journal(
    store: &mut EventStore,
    user_id: AggregateId,
    journal_id: AggregateId,
    invitee_username: String,
    permissions: Permissions,
    now: i64,
) -> (done: Result<(), KnownErrors>)
    requires
        old(store).wf(),
    ensures
        final(store).wf(),
        match user_named(old(store)@, invitee_username@) {
            None => refused(old(store)@, final(store)@, done, ErrorModel::UserDoesntExist),
            Some(invitee) => match grant(
                member_in_log(old(store)@, user_id),
                journal_id,
                permissions@,
            ) {
                Ok(owner) => recorded(
                    old(store)@,
                    final(store)@,
                    done,
                    invitee,
                    DomainEventModel::User(
                        UserEventModel::InvitedToJournal {
                            id: journal_id,
                            permissions,
                            inviting_user: user_id,
                            owner,
                        },
                    ),
                    now as int,
                ),
                Err(error) => refused(old(store)@, final(store)@, done, error),
            },
        },
{
    let invitee = match fetch_id(invitee_username, store) {
        Ok(id) => id,
        Err(_) => { return Err(KnownErrors::UserDoesntExist); },
    };
    let user = match UserState::build(&user_id, membership_event_types(), store) {
        Ok(user) => user,
        Err(error) => { return Err(error); },
    };
    match authorize_invitation(&user, journal_id, permissions) {
        Ok(owner) => record(
            store,
            invitee,
            DomainEvent::User(
                UserEvent::InvitedToJournal {
                    id: journal_id,
                    permissions,
                    inviting_user: user_id,
                    owner,
                },
            ),
            now,
        ),
        Err(error) => Err(error),
    }
}

/// Accepts the pending invitation of the user `user_id` to the journal `journal_id`.
///
/// Where the invitation is pending, one `AcceptedJournalInvite` event is
/// appended to the user. Otherwise the command is refused with `NoInvitation`
/// and nothing is appended.
pub fn accept_journal_invite(
    store: &mut EventStore,
    user_id: AggregateId,
    journal_id: AggregateId,
    now: i64,
) -> (done: Result<(), KnownErrors>)
    requires
        old(store).wf(),
    ensures
        final(store).wf(),
        if member_in_log(old(store)@, user_id).pending_journal_invites.contains_key(journal_id) {
            recorded(
                old(store)@,
                final(store)@,
                done,
                user_id,
                DomainEventModel::User(UserEventModel::AcceptedJournalInvite { id: journal_id }),
                now as int,
            )
        } else {
            refused(old(store)@, final(store)@, done, ErrorModel::NoInvitation)
        },
{
    let user = match UserState::build(&user_id, membership_event_types(), store) {
        Ok(user) => user,
        Err(error) => { return Err(error); },
    };
    if user.pending_journal_invites.contains_key(&journal_id) {
        record(
            store,
            user_id,
            DomainEvent::User(UserEvent::AcceptedJournalInvite { id: journal_id }),
            now,
        )
    } else {
        Err(KnownErrors::NoInvitation)
    }
}

/// Declines the pending invitation of the user `user_id` to the journal `journal_id`.
///
/// Where the invitation is pending, one `DeclinedJournalInvite` event is
/// appended to the user. Otherwise the command is refused with `NoInvitation`
/// and nothing is appended.
pub fn decline_journal_invite(
    store: &mut EventStore,
    user_id: AggregateId,
    journal_id: AggregateId,
    now: i64,
) -> (done: Result<(), KnownErrors>)
    requires
        old(store).wf(),
    ensures
        final(store).wf(),
        if member_in_log(old(store)@, user_id).pending_journal_invites.contains_key(journal_id) {
            recorded(
                old(store)@,
                final(store)@,
                done,
                user_id,
                DomainEventModel::User(UserEventModel::DeclinedJournalInvite { id: journal_id }),
                now as int,
            )
        } else {
            refused(old(store)@, final(store)@, done, ErrorModel::NoInvitation)
        },
{
    let user = match UserState::build(&user_id, membership_event_types(), store) {
        Ok(user) => user,
        Err(error) => { return Err(error); },
    };
    if user.pending_journal_invites.contains_key(&journal_id) {
        record(
            store,
            user_id,
            DomainEvent::User(UserEvent::DeclinedJournalInvite { id: journal_id }),
            now,
        )
    } else {
        Err(KnownErrors::NoInvitation)
    }
}

/// Creates the journal `journal_id` with the name `journal_name` for the user
/// `user_id`, who becomes its owner.
///
/// The identifier must be new to the store: where an event of it exists, the
/// command is refused with `StoreError`. Otherwise a `Created` event is
/// appended to the journal and a `CreatedJournal` event to the user.
pub fn create_journal_with_id(
    store: &mut EventStore,
    user_id: AggregateId,
    journal_id: AggregateId,
    journal_name: String,
    now: i64,
) -> (done: Result<(), KnownErrors>)
    requires
        old(store).wf(),
    ensures
        final(store).wf(),
        if aggregate_exists(old(store)@, journal_id) {
            refused(old(store)@, final(store)@, done, ErrorModel::StoreError)
        } else {
            recorded_both(
                old(store)@,
                final(store)@,
                done,
                (
                    journal_id,
                    DomainEventModel::Journal(
                        JournalEventModel::Created { name: journal_name@, owner: user_id },
                    ),
                ),
                (
                    user_id,
                    DomainEventModel::User(UserEventModel::CreatedJournal { id: journal_id }),
                ),
                now as int,
            )
        },
{
    if store.holds_aggregate(journal_id) {
        return Err(KnownErrors::StoreError);
    }
    record_both(
        store,
        journal_id,
        DomainEvent::Journal(JournalEvent::Created { name: journal_name, owner: user_id }),
        user_id,
        DomainEvent::User(UserEvent::CreatedJournal { id: journal_id }),
        now,
    )
}

/// Whether an identifier that carries the marks of a random identifier is in
/// use in `log`.
pub open spec fn a_random_id_is_taken(log: Seq<RecordModel>) -> bool {
    exists|id: AggregateId| id & V4_MASK == V4_MARK && #[trigger] aggregate_exists(log, id)
}

/// Creates a journal with the name `journal_name` for the user `user_id`
/// under a fresh random identifier, and returns the identifier.
///
/// Whatever identifier was drawn, the store is as
/// [`create_journal_with_id`] leaves it for that identifier. The command
/// fails only where the store has no two numbers left or the identifier that
/// was drawn is in use.
pub fn create_journal(
    store: &mut EventStore,
    user_id: AggregateId,
    journal_name: String,
    now: i64,
) -> (created: Result<AggregateId, KnownErrors>)
    requires
        old(store).wf(),
    ensures
        final(store).wf(),
        match created {
            Ok(journal_id) => journal_id & V4_MASK == V4_MARK && !aggregate_exists(
                old(store)@,
                journal_id,
            ) && recorded_both(
                old(store)@,
                final(store)@,
                Ok::<(), KnownErrors>(()),
                (
                    journal_id,
                    DomainEventModel::Journal(
                        JournalEventModel::Created { name: journal_name@, owner: user_id },
                    ),
                ),
                (
                    user_id,
                    DomainEventModel::User(UserEventModel::CreatedJournal { id: journal_id }),
                ),
                now as int,
            ),
            Err(error) => error@ == ErrorModel::StoreError && final(store)@ == old(store)@,
        },
        created is Err ==> old(store)@.len() + 1 >= i64::MAX || a_random_id_is_taken(old(store)@),
{
    let journal_id = random_id();
    match create_journal_with_id(store, user_id, journal_id, journal_name, now) {
        Ok(()) => Ok(journal_id),
        Err(error) => Err(error),
    }
}

/// Lets the caller pass who is logged in as the user `user_id` under the
/// session `session_id`; refuses with `NotLoggedIn` otherwise.
pub fn is_logged_in(store: &EventStore, session_id: String, user_id: AggregateId) -> (pass: Result<
    (),
    KnownErrors,
>)
    requires
        store.wf(),
    ensures
        pass is Ok <==> user_in_log(
            store@,
            user_id,
            session_types(),
        )->Ok_0.authenticated_sessions.contains(session_id@),
        pass matches Err(error) ==> error@ == ErrorModel::NotLoggedIn,
{
    match is_authenticated(session_id, user_id, store) {
        Ok(true) => Ok(()),
        _ => Err(KnownErrors::NotLoggedIn),
    }
}

/// Ends the session `session_id` of the user `user_id`.
///
/// Where the user is logged in under the session, one `LoggedOut` event is
/// appended to the user. Otherwise nothing is appended and the command
/// succeeds all the same.
pub fn log_out(store: &mut EventStore, session_id: String, user_id: AggregateId, now: i64) -> (done:
    Result<(), KnownErrors>)
    requires
        old(store).wf(),
    ensures
        final(store).wf(),
        if user_in_log(
            old(store)@,
            user_id,
            session_types(),
        )->Ok_0.authenticated_sessions.contains(session_id@) {
            recorded(
                old(store)@,
                final(store)@,
                done,
                user_id,
                DomainEventModel::User(UserEventModel::LoggedOut { session_id: session_id@ }),
                now as int,
            )
        } else {
            done is Ok && final(store)@ == old(store)@
        },
{
    match is_authenticated(session_id.clone(), user_id, store) {
        Ok(true) => record(
            store,
            user_id,
            DomainEvent::User(UserEvent::LoggedOut { session_id }),
            now,
        ),
        _ => Ok(()),
    }
}

/// Logs the user `user_id` in under the session `session_id`, given what the
/// credential hasher said of the password: `Some(true)` for a match,
/// `Some(false)` for none, `None` where it could not read the stored hash.
///
/// On a match one `LoggedIn` event is appended to the user and `true` comes
/// back. Without a match nothing is appended and `false` comes back. Where the
/// hasher failed, the command is refused with `CredentialError`.
pub fn authenticate_with_verdict(
    session_id: String,
    user_id: AggregateId,
    verdict: Option<bool>,
    store: &mut EventStore,
    now: i64,
) -> (verified: Result<bool, KnownErrors>)
    requires
        old(store).wf(),
    ensures
        final(store).wf(),
        match verdict {
            Some(true) => if old(store)@.len() < i64::MAX {
                verified == Ok::<bool, KnownErrors>(true) && final(store)@ == old(store)@.push(
                    new_record(
                        old(store)@,
                        user_id,
                        DomainEventModel::User(
                            UserEventModel::LoggedIn { session_id: session_id@ },
                        ),
                        now as int,
                    ),
                )
            } else {
                verified matches Err(e) && e@ == ErrorModel::StoreError && final(store)@ == old(
                    store,
                )@
            },
            Some(false) => verified == Ok::<bool, KnownErrors>(false) && final(store)@ == old(
                store,
            )@,
            None => verified matches Err(e) && e@ == ErrorModel::CredentialError && final(store)@
                == old(store)@,
        },
{
    match verdict {
        Some(true) => {
            match record(
                store,
                user_id,
                DomainEvent::User(UserEvent::LoggedIn { session_id }),
                now,
            ) {
                Ok(()) => Ok(true),
                Err(error) => Err(error),
            }
        },
        Some(false) => Ok(false),
        None => Err(KnownErrors::CredentialError),
    }
}

/// What the credential hasher says of `password` for the user `user_id`, whose
/// stored hash `log` tells.
pub open spec fn verdict_in_log(
    log: Seq<RecordModel>,
    user_id: AggregateId,
    password: Seq<char>,
) -> Option<bool> {
    bcrypt_verdict(password, user_in_log(log, user_id, password_types())->Ok_0.hashed_password)
}

fn check_password(store: &EventStore, user_id: AggregateId, password: &String) -> (verdict: Option<
    bool,
>)
    requires
        store.wf(),
    ensures
        verdict == verdict_in_log(store@, user_id, password@),
{
    match get_hashed_pw(&user_id, store) {
        Ok(hashed) => match verify_password(password.as_str(), hashed.as_str()) {
            Ok(matched) => Some(matched),
            Err(_) => None,
        },
        Err(_) => None,
    }
}

/// Checks `password` against the stored credentials of the user `user_id` and
/// logs the user in under the session `session_id` where it matches.
///
/// The store is left as [`authenticate_with_verdict`] leaves it for what the
/// credential hasher says of the password and the stored hash.
pub fn authenticate(
    session_id: String,
    user_id: AggregateId,
    password: String,
    store: &mut EventStore,
    now: i64,
) -> (verified: Result<bool, KnownErrors>)
    requires
        old(store).wf(),
    ensures
        final(store).wf(),
        match verdict_in_log(old(store)@, user_id, password@) {
            Some(true) => if old(store)@.len() < i64::MAX {
                verified == Ok::<bool, KnownErrors>(true) && final(store)@ == old(store)@.push(
                    new_record(
                        old(store)@,
                        user_id,
                        DomainEventModel::User(
                            UserEventModel::LoggedIn { session_id: session_id@ },
                        ),
                        now as int,
                    ),
                )
            } else {
                verified matches Err(e) && e@ == ErrorModel::StoreError && final(store)@ == old(
                    store,
                )@
            },
            Some(false) => verified == Ok::<bool, KnownErrors>(false) && final(store)@ == old(
                store,
            )@,
            None => verified matches Err(e) && e@ == ErrorModel::CredentialError && final(store)@
                == old(store)@,
        },
{
    let verdict = check_password(store, user_id, &password);
    authenticate_with_verdict(session_id, user_id, verdict, store, now)
}

/// Logs the user called `username` in under the session `session_id`.
///
/// Where nobody goes by the name, the command is refused with
/// `UserDoesntExist`; where the password does not match the user's stored
/// credentials, with `LoginFailed`, which carries name and password; where the
/// credential hasher cannot read the stored hash, with `CredentialError`.
/// Otherwise one `LoggedIn` event is appended to the user.
pub fn login(
    store: &mut EventStore,
    username: String,
    password: String,
    session_id: String,
    now: i64,
) -> (done: Result<(), KnownErrors>)
    requires
        old(store).wf(),
    ensures
        final(store).wf(),
        match user_named(old(store)@, username@) {
            None => refused(old(store)@, final(store)@, done, ErrorModel::UserDoesntExist),
            Some(user_id) => match verdict_in_log(old(store)@, user_id, password@) {
                Some(true) => recorded(
                    old(store)@,
                    final(store)@,
                    done,
                    user_id,
                    DomainEventModel::User(UserEventModel::LoggedIn { session_id: session_id@ }),
                    now as int,
                ),
                Some(false) => refused(
                    old(store)@,
                    final(store)@,
                    done,
                    ErrorModel::LoginFailed { username: username@, password: password@ },
                ),
                None => refused(old(store)@, final(store)@, done, ErrorModel::CredentialError),
            },
        },
{
    let user_id = match fetch_id(username.clone(), store) {
        Ok(id) => id,
        Err(_) => { return Err(KnownErrors::UserDoesntExist); },
    };
    let verdict = check_password(store, user_id, &password);
    match authenticate_with_verdict(session_id, user_id, verdict, store, now) {
        Ok(true) => Ok(()),
        Ok(false) => Err(KnownErrors::LoginFailed { username, password }),
        Err(error) => Err(error),
    }
}

/// Signs up the user `user_id` under the name `username` with the hashed
/// password `hashed_password`, and logs the user in under the session
/// `session_id`.
///
/// Where a user goes by the name already, the command is refused with
/// `UserExists`; where the identifier is not new to the store, with
/// `StoreError`. Otherwise a `Created` event and a `LoggedIn` event are
/// appended to the user.
pub fn sign_up(
    store: &mut EventStore,
    user_id: AggregateId,
    username: String,
    hashed_password: String,
    session_id: String,
    now: i64,
) -> (done: Result<(), KnownErrors>)
    requires
        old(store).wf(),
    ensures
        final(store).wf(),
        if user_named(old(store)@, username@) is Some {
            refused(
                old(store)@,
                final(store)@,
                done,
                ErrorModel::UserExists { username: username@ },
            )
        } else if aggregate_exists(old(store)@, user_id) {
            refused(old(store)@, final(store)@, done, ErrorModel::StoreError)
        } else {
            recorded_both(
                old(store)@,
                final(store)@,
                done,
                (
                    user_id,
                    DomainEventModel::User(
                        UserEventModel::Created {
                            username: username@,
                            hashed_password: hashed_password@,
                        },
                    ),
                ),
                (
                    user_id,
                    DomainEventModel::User(UserEventModel::LoggedIn { session_id: session_id@ }),
                ),
                now as int,
            )
        },
{
    if fetch_id(username.clone(), store).is_ok() {
        return Err(KnownErrors::UserExists { username });
    }
    if store.holds_aggregate(user_id) {
        return Err(KnownErrors::StoreError);
    }
    record_both(
        store,
        user_id,
        DomainEvent::User(UserEvent::Created { username, hashed_password }),
        user_id,
        DomainEvent::User(UserEvent::LoggedIn { session_id }),
        now,
    )
}

/// `log` after the user `user_id` has signed up under the name `username`
/// with the hashed password `hashed_password` and was logged in under the
/// session `session_id`.
pub open spec fn signed_up(
    log: Seq<RecordModel>,
    user_id: AggregateId,
    username: Seq<char>,
    hashed_password: Seq<char>,
    session_id: Seq<char>,
    now: int,
) -> Seq<RecordModel> {
    both_recorded(
        log,
        (user_id, DomainEventModel::User(UserEventModel::Created { username, hashed_password })),
        (user_id, DomainEventModel::User(UserEventModel::LoggedIn { session_id })),
        now,
    )
}

/// Signs up a new user under the name `username` and logs the user in under
/// the session `session_id`; returns the user's fresh identifier.
///
/// Where the two passwords differ, the command is refused with
/// `SignupPasswordMismatch`; where a user goes by the name already, with
/// `UserExists`; both carry the name. Where the credential hasher fails, it is
/// refused with `CredentialError`. Otherwise the store is as [`sign_up`]
/// leaves it for the identifier that was drawn and the hash that was made of
/// the password: a hash that the password matches. There the command fails
/// only where the store has no two numbers left or the identifier that was
/// drawn is in use.
pub fn create_account(
    store: &mut EventStore,
    username: String,
    password: String,
    confirm_password: String,
    session_id: String,
    now: i64,
) -> (created: Result<AggregateId, KnownErrors>)
    requires
        old(store).wf(),
    ensures
        final(store).wf(),
        created is Err ==> final(store)@ == old(store)@,
        if password@ != confirm_password@ {
            created matches Err(e) && e@ == (ErrorModel::SignupPasswordMismatch {
                username: username@,
            })
        } else if user_named(old(store)@, username@) is Some {
            created matches Err(e) && e@ == (ErrorModel::UserExists { username: username@ })
        } else {
            match created {
                Ok(user_id) => {
                    &&& user_id & V4_MASK == V4_MARK
                    &&& !aggregate_exists(old(store)@, user_id)
                    &&& old(store)@.len() + 1 < i64::MAX
                    &&& exists|hash: Seq<char>|
                        bcrypt_verdict(password@, hash) == Some(true) && final(store)@
                            == #[trigger] signed_up(
                            old(store)@,
                            user_id,
                            username@,
                            hash,
                            session_id@,
                            now as int,
                        )
                },
                Err(error) => error@ == ErrorModel::CredentialError || (error@
                    == ErrorModel::StoreError && (old(store)@.len() + 1 >= i64::MAX
                    || a_random_id_is_taken(old(store)@))),
            }
        },
{
    if password != confirm_password {
        return Err(KnownErrors::SignupPasswordMismatch { username });
    }
    if fetch_id(username.clone(), store).is_ok() {
        return Err(KnownErrors::UserExists { username });
    }
    let hashed_password = match hash_password(password.as_str()) {
        Ok(hashed) => hashed,
        Err(_) => { return Err(KnownErrors::CredentialError); },
    };
    let user_id = random_id();
    let ghost hash = hashed_password@;
    match sign_up(store, user_id, username, hashed_password, session_id, now) {
        Ok(()) => {
            assert(store@ == signed_up(
                old(store)@,
                user_id,
                username@,
                hash,
                session_id@,
                now as int,
            ));
            Ok(user_id)
        },
        Err(error) => Err(error),
    }
}

/// The types of event that tell a journal's name and whether it was deleted.
pub open spec fn listing_types() -> Seq<EventType> {
    seq![EventType::JournalCreated, EventType::JournalDeleted]
}

/// The name of the journal `id` as a listing shows it, or `None` for a
/// journal that was deleted.
pub open spec fn listed_name(log: Seq<RecordModel>, id: AggregateId) -> Option<Seq<char>> {
    match journal_in_log(log, id, listing_types()) {
        Ok(journal) => if journal.deleted {
            None
        } else {
            Some(journal.name)
        },
        Err(_) => None,
    }
}

/// The listing of the owned journals `ids`, in their order, without those
/// that were deleted.
pub open spec fn owned_listing(log: Seq<RecordModel>, ids: Seq<AggregateId>) -> Seq<
    AssociatedJournalModel,
>
    decreases ids.len(),
{
    if ids.len() == 0 {
        Seq::empty()
    } else {
        let front = owned_listing(log, ids.drop_last());
        match listed_name(log, ids.last()) {
            Some(name) => front.push(AssociatedJournalModel::Owned { id: ids.last(), name }),
            None => front,
        }
    }
}

/// The listing of the journals of the accepted invitations `invites`, in
/// their order, without those that were deleted.
pub open spec fn shared_listing(log: Seq<RecordModel>, invites: Seq<SharedJournal>) -> Seq<
    AssociatedJournalModel,
>
    decreases invites.len(),
{
    if invites.len() == 0 {
        Seq::empty()
    } else {
        let front = shared_listing(log, invites.drop_last());
        match listed_name(log, invites.last().id) {
            Some(name) => front.push(
                AssociatedJournalModel::Shared {
                    id: invites.last().id,
                    name,
                    tenant_info: invites.last().info,
                },
            ),
            None => front,
        }
    }
}

/// Whether `ids` and `invites` walk through what `user` owns and has
/// accepted: each journal once, in whatever order.
pub open spec fn walks_memberships(
    user: UserModel,
    ids: Seq<AggregateId>,
    invites: Seq<SharedJournal>,
) -> bool {
    &&& ids.no_duplicates()
    &&& ids.to_set() == user.owned_journals
    &&& invites.map_values(|shared: SharedJournal| shared.id).no_duplicates()
    &&& invites.map_values(|shared: SharedJournal| (shared.id, shared.info)).to_set()
        == user.accepted_journal_invites.kv_pairs()
}

fn listed_journal_name(store: &EventStore, id: AggregateId) -> (name: Option<String>)
    requires
        store.wf(),
    ensures
        match listed_name(store@, id) {
            Some(text) => name matches Some(n) && n@ == text,
            None => name is None,
        },
{
    let event_types = vec![EventType::JournalCreated, EventType::JournalDeleted];
    proof {
        assert(event_types@ =~= listing_types());
        lemma_build_without_entries_succeeds(store@, id, listing_types());
    }
    match JournalState::build(&id, event_types, store) {
        Ok(journal) => {
            if journal.deleted {
                None
            } else {
                Some(journal.name)
            }
        },
        Err(_) => None,
    }
}

/// The journals that the user `user_id` owns, followed by those that the user
/// was invited to and accepted; deleted journals are left out.
///
/// Each of the two parts lists its journals once. Their order within a part
/// is that in which the user's memberships happen to be walked.
pub fn get_associated_journals(store: &EventStore, user_id: AggregateId) -> (journals: Result<
    Vec<AssociatedJournal>,
    KnownErrors,
>)
    requires
        store.wf(),
    ensures
        journals matches Ok(list) && exists|ids: Seq<AggregateId>, invites: Seq<SharedJournal>|
            walks_memberships(member_in_log(store@, user_id), ids, invites) && associated_models(
                list@,
            ) == #[trigger] owned_listing(store@, ids) + #[trigger] shared_listing(store@, invites),
{
    let user = match UserState::build(&user_id, membership_event_types(), store) {
        Ok(user) => user,
        Err(error) => { return Err(error); },
    };
    let ids = user.owned_journal_ids();
    let invites = user.accepted_invites();
    let mut list: Vec<AssociatedJournal> = Vec::new();
    let mut i: usize = 0;
    proof {
        assert(ids@.take(0) =~= Seq::<AggregateId>::empty());
        assert(associated_models(list@) =~= Seq::<AssociatedJournalModel>::empty());
    }
    while i < ids.len()
        invariant
            store.wf(),
            i <= ids.len(),
            associated_models(list@) == owned_listing(store@, ids@.take(i as int)),
        decreases ids.len() - i,
    {
        let id = ids[i];
        proof {
            assert(ids@.take(i + 1).drop_last() =~= ids@.take(i as int));
            assert(ids@.take(i + 1).last() == id);
        }
        match listed_journal_name(store, id) {
            Some(name) => {
                let ghost before = associated_models(list@);
                let entry = AssociatedJournal::Owned { id, name };
                list.push(entry);
                assert(associated_models(list@) =~= before.push(entry@));
            },
            None => {},
        }
        i += 1;
    }
    let ghost owned = associated_models(list@);
    let mut k: usize = 0;
    proof {
        assert(ids@.take(i as int) =~= ids@);
        assert(invites@.take(0) =~= Seq::<SharedJournal>::empty());
        assert(owned + Seq::<AssociatedJournalModel>::empty() =~= owned);
    }
    while k < invites.len()
        invariant
            store.wf(),
            k <= invites.len(),
            associated_models(list@) == owned + shared_listing(store@, invites@.take(k as int)),
        decreases invites.len() - k,
    {
        let id = invites[k].id;
        let tenant_info = invites[k].info;
        proof {
            assert(invites@.take(k + 1).drop_last() =~= invites@.take(k as int));
            assert(invites@.take(k + 1).last() == invites@[k as int]);
        }
        match listed_journal_name(store, id) {
            Some(name) => {
                let ghost before = associated_models(list@);
                let ghost shared = shared_listing(store@, invites@.take(k as int));
                let entry = AssociatedJournal::Shared { id, name, tenant_info };
                list.push(entry);
                assert(associated_models(list@) =~= before.push(entry@));
                assert((owned + shared).push(entry@) =~= owned + shared.push(entry@));
            },
            None => {},
        }
        k += 1;
    }
    proof {
        assert(invites@.take(k as int) =~= invites@);
        assert(walks_memberships(member_in_log(store@, user_id), ids@, invites@));
    }
    Ok(list)
}

/// The types of event that tell a journal's entries.
pub open spec fn entry_types() -> Seq<EventType> {
    seq![EventType::JournalAddedEntry]
}

/// Whether the payload of `record` is an entry.
pub open spec fn holds_entry(record: RecordModel) -> bool {
    record.payload matches DomainEventModel::Journal(JournalEventModel::AddedEntry { .. })
}

/// The entry that `record` holds, with the time of the record.
pub open spec fn timed_entry(record: RecordModel) -> TimedTransactionModel {
    TimedTransactionModel {
        transaction: record.payload->Journal_0->transaction,
        timestamp: record.created_at,
    }
}

/// The entries of the journal `journal_id` as `log` holds them, earliest
/// first, each with the time at which it was recorded.
pub open spec fn timed_entries(log: Seq<RecordModel>, journal_id: AggregateId) -> Seq<
    TimedTransactionModel,
> {
    selection(log, journal_id, AggregateType::Journal, entry_types()).map_values(
        |record: RecordModel| timed_entry(record),
    )
}

/// The entries of the journal `journal_id`, earliest first, each with the time
/// at which it was recorded, for the user `user_id`.
///
/// A caller who may not read the journal is refused with `PermissionError`,
/// which carries the capability to read.
pub fn get_transactions(
    store: &EventStore,
    user_id: AggregateId,
    journal_id: &AggregateId,
) -> (entries: Result<Vec<TransactionWithTimeStamp>, KnownErrors>)
    requires
        store.wf(),
    ensures
        if may(member_in_log(store@, user_id), *journal_id, READ) {
            entries matches Ok(list) && timed_models(list@) == timed_entries(store@, *journal_id)
        } else {
            entries matches Err(e) && e@ == (ErrorModel::PermissionError {
                required_permissions: READ,
            })
        },
{
    let user = match UserState::build(&user_id, membership_event_types(), store) {
        Ok(user) => user,
        Err(error) => { return Err(error); },
    };
    match authorize(&user, *journal_id, Permissions::read()) {
        Ok(()) => {},
        Err(error) => { return Err(error); },
    }
    let event_types = vec![EventType::JournalAddedEntry];
    assert(event_types@ =~= entry_types());
    let found = store.query(*journal_id, AggregateType::Journal, &event_types);
    let ghost records = record_models(found@);
    let mut list: Vec<TransactionWithTimeStamp> = Vec::new();
    proof {
        lemma_selection_has_kind(store@, *journal_id, AggregateType::Journal, entry_types());
        assert forall|i: int| 0 <= i < records.len() implies holds_entry(
            #[trigger] records[i],
        ) by {
            let types = entry_types();
            let record = records[i];
            assert(types.contains(record.payload.event_type()));
            let t = choose|t: int| 0 <= t < types.len() && types[t] == record.payload.event_type();
            assert(record.payload.event_type() == EventType::JournalAddedEntry);
        }
    }
    for record in it: found.into_iter()
        invariant
            records == record_models(it.seq()),
            forall|i: int| 0 <= i < records.len() ==> holds_entry(#[trigger] records[i]),
            list@.len() == it.index(),
            forall|k: int|
                0 <= k < list@.len() ==> (#[trigger] list@[k])@ == timed_entry(records[k]),
    {
        assert(record@ == records[it.index() as int]);
        assert(holds_entry(records[it.index() as int]));
        let timestamp = record.created_at;
        if let DomainEvent::Journal(JournalEvent::AddedEntry { transaction }) = record.payload {
            list.push(TransactionWithTimeStamp { transaction, timestamp });
        }
    }
    assert(timed_models(list@) =~= timed_entries(store@, *journal_id));
    Ok(list)
}

} // verus!
