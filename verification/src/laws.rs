//! What holds of the engine as a whole, proved from the contracts of its parts.

use crate::amounts::parsed_amount;
use crate::commands::{
    account_types, member_in_log, recorded, recorded_both, refused, signed_up,
    transact_decision, verdict_in_log,
};
use crate::credentials::bcrypt_verdict;
use crate::entry::net_lines;
use crate::errors::{ErrorModel, KnownErrors};
use crate::event::{
    domain_event_models, AggregateType, DomainEvent, DomainEventModel, EventType,
};
use crate::gate::{grant, may, owns};
use crate::ids::AggregateId;
use crate::journal::{
    balance_in, journal_in_log, post_updates, total_change, JournalEventModel, JournalModel,
    JournalTenantInfo, TransactionModel, UpdateModel,
};
use crate::permissions::{
    covers, first_missing_is_lacking, first_missing_none_iff_covered, is_capability, known_bits,
    lacks, Permissions, APPENDTRANSACTION,
};
use crate::store::{
    aggregate_exists, lemma_log_grows, lemma_unused_id_selects_nothing, new_record, payloads_of,
    selection, selects, well_formed_log, RecordModel,
};
use crate::user::{
    is_sought, latest_sought, lemma_user_in_log_is_built, membership_types, password_types,
    session_types, session_user, user_in_log, user_named, UserEventModel, UserModel,
};
use vstd::prelude::*;

verus! {

/// Replay is a function of what the events say: two lists of stored events
/// that say the same, replayed from the empty state of one aggregate, give
/// the same journal, the same user, or the same failure.
pub proof fn replay_is_deterministic(
    id: AggregateId,
    first: Seq<DomainEvent>,
    second: Seq<DomainEvent>,
)
    requires
        domain_event_models(first) == domain_event_models(second),
    ensures
        JournalModel::new(id).replay_stored(domain_event_models(first)) == JournalModel::new(
            id,
        ).replay_stored(domain_event_models(second)),
        UserModel::new(id).replay_stored(domain_event_models(first)) == UserModel::new(
            id,
        ).replay_stored(domain_event_models(second)),
{
}

/// Replay is a fold: the journal after two lists of events, one behind the
/// other, is the journal after the second list, replayed from where the first
/// list led.
pub proof fn journal_replay_continues(
    start: JournalModel,
    first: Seq<DomainEventModel>,
    second: Seq<DomainEventModel>,
)
    ensures
        start.replay_stored(first + second) == match start.replay_stored(first) {
            Ok(state) => state.replay_stored(second),
            Err(error) => Err(error),
        },
    decreases second.len(),
{
    if second.len() == 0 {
        assert(first + second =~= first);
    } else {
        assert((first + second).drop_last() =~= first + second.drop_last());
        assert((first + second).last() == second.last());
        journal_replay_continues(start, first, second.drop_last());
    }
}

/// Replay is a fold for users as it is for journals.
pub proof fn user_replay_continues(
    start: UserModel,
    first: Seq<DomainEventModel>,
    second: Seq<DomainEventModel>,
)
    ensures
        start.replay_stored(first + second) == match start.replay_stored(first) {
            Ok(state) => state.replay_stored(second),
            Err(error) => Err(error),
        },
    decreases second.len(),
{
    if second.len() == 0 {
        assert(first + second =~= first);
    } else {
        assert((first + second).drop_last() =~= first + second.drop_last());
        assert((first + second).last() == second.last());
        user_replay_continues(start, first, second.drop_last());
    }
}

/// No event changes the identity of an aggregate: a replay ends with the
/// identifier it began with.
pub proof fn replay_keeps_identity(
    journal: JournalModel,
    user: UserModel,
    events: Seq<DomainEventModel>,
)
    ensures
        journal.replay_stored(events) matches Ok(state) ==> state.id == journal.id,
        user.replay_stored(events) matches Ok(state) ==> state.id == user.id,
    decreases events.len(),
{
    if events.len() > 0 {
        replay_keeps_identity(journal, user, events.drop_last());
    }
}

/// The sum of the amounts that `amounts` write; an amount that cannot be read
/// counts as nothing.
pub open spec fn amount_sum(amounts: Seq<Seq<char>>) -> int
    decreases amounts.len(),
{
    if amounts.len() == 0 {
        0
    } else {
        amount_sum(amounts.drop_last()) + match parsed_amount(amounts.last()) {
            Some(value) => value,
            None => 0,
        }
    }
}

/// The lines of a request sum to what the request adds less what it removes.
pub proof fn lines_sum_to_added_less_removed(
    names: Seq<Seq<char>>,
    added: Seq<Seq<char>>,
    removed: Seq<Seq<char>>,
)
    ensures
        net_lines(names, added, removed) matches Some(lines) ==> total_change(lines) == amount_sum(
            added,
        ) - amount_sum(removed),
    decreases names.len(),
{
    if names.len() == added.len() && names.len() == removed.len() && names.len() > 0 {
        lines_sum_to_added_less_removed(
            names.drop_last(),
            added.drop_last(),
            removed.drop_last(),
        );
        match net_lines(names, added, removed) {
            Some(lines) => {
                let front = net_lines(
                    names.drop_last(),
                    added.drop_last(),
                    removed.drop_last(),
                )->Some_0;
                let plus = parsed_amount(added.last())->Some_0;
                let minus = parsed_amount(removed.last())->Some_0;
                if plus != minus {
                    let line = UpdateModel { account_name: names.last(), changed_by: plus - minus };
                    assert(lines == front.push(line));
                    assert(lines.drop_last() =~= front);
                }
            },
            None => {},
        }
    }
}

/// A request whose amounts can all be read, and which adds another sum than it
/// removes, is never recorded: the command refuses it, and where the caller
/// may append to the journal, it refuses it with `BalanceMismatch`, which
/// carries the lines of the request.
pub proof fn unbalanced_entry_is_refused(
    log: Seq<RecordModel>,
    user_id: AggregateId,
    journal_id: AggregateId,
    names: Seq<Seq<char>>,
    added: Seq<Seq<char>>,
    removed: Seq<Seq<char>>,
)
    requires
        net_lines(names, added, removed) is Some,
        amount_sum(added) - amount_sum(removed) != 0,
    ensures
        transact_decision(log, user_id, journal_id, names, added, removed) is Err,
        may(member_in_log(log, user_id), journal_id, APPENDTRANSACTION) ==> transact_decision(
            log,
            user_id,
            journal_id,
            names,
            added,
            removed,
        ) == Err::<TransactionModel, ErrorModel>(
            ErrorModel::BalanceMismatch {
                attempted_transaction: net_lines(names, added, removed)->Some_0,
            },
        ),
{
    lines_sum_to_added_less_removed(names, added, removed);
}

/// The lines of every transaction that the command lets through sum to zero.
pub proof fn recorded_entry_is_balanced(
    log: Seq<RecordModel>,
    user_id: AggregateId,
    journal_id: AggregateId,
    names: Seq<Seq<char>>,
    added: Seq<Seq<char>>,
    removed: Seq<Seq<char>>,
)
    ensures
        transact_decision(log, user_id, journal_id, names, added, removed) matches Ok(entry)
            ==> total_change(entry.updates) == 0 && amount_sum(added) == amount_sum(removed),
{
    lines_sum_to_added_less_removed(names, added, removed);
}

/// An entry that the command lets through leaves a journal that can be
/// rebuilt: once the entry is recorded, the journal is the former journal
/// after the entry.
pub proof fn recorded_entry_keeps_the_journal_readable(
    log: Seq<RecordModel>,
    user_id: AggregateId,
    journal_id: AggregateId,
    names: Seq<Seq<char>>,
    added: Seq<Seq<char>>,
    removed: Seq<Seq<char>>,
    now: int,
)
    requires
        well_formed_log(log),
        log.len() < i64::MAX,
        transact_decision(log, user_id, journal_id, names, added, removed) is Ok,
    ensures
        ({
            let entry = transact_decision(log, user_id, journal_id, names, added, removed)->Ok_0;
            let event = JournalEventModel::AddedEntry { transaction: entry };
            let after = log.push(
                new_record(log, journal_id, DomainEventModel::Journal(event), now),
            );
            &&& journal_in_log(log, journal_id, account_types()) is Ok
            &&& journal_in_log(after, journal_id, account_types()) == Ok::<
                JournalModel,
                ErrorModel,
            >(journal_in_log(log, journal_id, account_types())->Ok_0.apply(event))
        }),
{
    let entry = transact_decision(log, user_id, journal_id, names, added, removed)->Ok_0;
    let event = JournalEventModel::AddedEntry { transaction: entry };
    assert(account_types()[3] == EventType::JournalAddedEntry);
    recorded_event_shows_in_journal(log, journal_id, event, now, account_types());
}

/// A request whose amounts can all be read and which adds the sum that it
/// removes, from a caller who may append to the journal, is let through with
/// the one transaction that holds its lines, written by the caller, where the
/// journal admits those lines; it is refused with `InvalidInput` where a
/// balance would leave what an account can hold. The event that records the
/// transaction belongs to the journal and is filed under the code 104.
pub proof fn balanced_entry_is_recorded(
    log: Seq<RecordModel>,
    user_id: AggregateId,
    journal_id: AggregateId,
    names: Seq<Seq<char>>,
    added: Seq<Seq<char>>,
    removed: Seq<Seq<char>>,
    now: int,
)
    requires
        may(member_in_log(log, user_id), journal_id, APPENDTRANSACTION),
        net_lines(names, added, removed) is Some,
        amount_sum(added) == amount_sum(removed),
        journal_in_log(log, journal_id, account_types()) is Ok,
    ensures
        ({
            let entry = TransactionModel {
                author: user_id,
                updates: net_lines(names, added, removed)->Some_0,
            };
            let event = JournalEventModel::AddedEntry { transaction: entry };
            let record = new_record(log, journal_id, DomainEventModel::Journal(event), now);
            let decision = transact_decision(log, user_id, journal_id, names, added, removed);
            &&& decision == if journal_in_log(log, journal_id, account_types())->Ok_0.admits(
                event,
            ) {
                Ok::<TransactionModel, ErrorModel>(entry)
            } else {
                Err::<TransactionModel, ErrorModel>(ErrorModel::InvalidInput)
            }
            &&& record.id == log.len() + 1
            &&& record.aggregate_id == journal_id
            &&& record.aggregate_type == AggregateType::Journal
            &&& record.event_type.code_of() == 104
            &&& record.payload == DomainEventModel::Journal(event)
        }),
{
    lines_sum_to_added_less_removed(names, added, removed);
}

/// The sum of the changes that `updates` make to the account `name`.
pub open spec fn change_of(updates: Seq<UpdateModel>, name: Seq<char>) -> int
    decreases updates.len(),
{
    if updates.len() == 0 {
        0
    } else {
        change_of(updates.drop_last(), name) + if updates.last().account_name == name {
            updates.last().changed_by
        } else {
            0
        }
    }
}

/// Whether one of `updates` names the account `name`.
pub open spec fn touches(updates: Seq<UpdateModel>, name: Seq<char>) -> bool {
    exists|i: int| 0 <= i < updates.len() && (#[trigger] updates[i]).account_name == name
}

/// Posting updates changes each account by the sum of the changes made to it,
/// opens the accounts that are named and did not exist, and leaves the others alone.
pub proof fn posting_adds_the_changes(
    accounts: Map<Seq<char>, int>,
    updates: Seq<UpdateModel>,
    name: Seq<char>,
)
    ensures
        balance_in(post_updates(accounts, updates), name) == balance_in(accounts, name)
            + change_of(updates, name),
        post_updates(accounts, updates).contains_key(name) <==> accounts.contains_key(name)
            || touches(updates, name),
    decreases updates.len(),
{
    if updates.len() > 0 {
        let front = updates.drop_last();
        posting_adds_the_changes(accounts, front, name);
        if touches(updates, name) && updates.last().account_name != name {
            let i = choose|i: int| 0 <= i < updates.len() && (#[trigger] updates[i]).account_name
                == name;
            assert(front[i].account_name == name);
        }
        if touches(front, name) {
            let i = choose|i: int| 0 <= i < front.len() && (#[trigger] front[i]).account_name
                == name;
            assert(updates[i].account_name == name);
        }
        if updates.last().account_name == name {
            assert(updates[updates.len() - 1].account_name == name);
        }
    }
}

/// After an entry each account stands at its former balance plus the
/// changes that the entry makes to it, and the history is the former history
/// with that one transaction behind it.
pub proof fn entry_changes_exactly_its_accounts(
    journal: JournalModel,
    entry: TransactionModel,
    name: Seq<char>,
)
    ensures
        ({
            let after = journal.apply(JournalEventModel::AddedEntry { transaction: entry });
            &&& balance_in(after.accounts, name) == balance_in(journal.accounts, name) + change_of(
                entry.updates,
                name,
            )
            &&& !touches(entry.updates, name) ==> after.accounts.contains_key(name)
                == journal.accounts.contains_key(name) && balance_in(after.accounts, name)
                == balance_in(journal.accounts, name)
            &&& after.transactions == journal.transactions.push(entry)
            &&& after.transactions.len() == journal.transactions.len() + 1
            &&& after.name == journal.name && after.owner == journal.owner && after.id
                == journal.id && after.deleted == journal.deleted
        }),
{
    posting_adds_the_changes(journal.accounts, entry.updates, name);
    if !touches(entry.updates, name) {
        lemma_untouched_change_is_zero(entry.updates, name);
    }
}

proof fn lemma_untouched_change_is_zero(updates: Seq<UpdateModel>, name: Seq<char>)
    requires
        !touches(updates, name),
    ensures
        change_of(updates, name) == 0,
    decreases updates.len(),
{
    if updates.len() > 0 {
        let front = updates.drop_last();
        assert(updates[updates.len() - 1].account_name != name);
        if touches(front, name) {
            let i = choose|i: int| 0 <= i < front.len() && (#[trigger] front[i]).account_name
                == name;
            assert(updates[i].account_name == name);
        }
        lemma_untouched_change_is_zero(front, name);
    }
}

/// The selections follow the log: an appended event comes last in the
/// selections that take it, and leaves the other selections as they were.
pub proof fn selection_follows_the_log(
    log: Seq<RecordModel>,
    record: RecordModel,
    aggregate_id: AggregateId,
    aggregate_type: AggregateType,
    event_types: Seq<EventType>,
)
    ensures
        selection(log.push(record), aggregate_id, aggregate_type, event_types) == if selects(
            record,
            aggregate_id,
            aggregate_type,
            event_types,
        ) {
            selection(log, aggregate_id, aggregate_type, event_types).push(record)
        } else {
            selection(log, aggregate_id, aggregate_type, event_types)
        },
{
    assert(log.push(record).drop_last() =~= log);
}

/// A journal event that is recorded shows in the journal as rebuilt from the
/// store: the journal is the former journal after the event, or the
/// rebuilding fails with `InvalidInput` where the former journal does not
/// admit the event.
pub proof fn recorded_event_shows_in_journal(
    log: Seq<RecordModel>,
    journal_id: AggregateId,
    event: JournalEventModel,
    now: int,
    event_types: Seq<EventType>,
)
    requires
        well_formed_log(log),
        log.len() < i64::MAX,
        event_types.contains(EventType::of_journal_event(event)),
    ensures
        ({
            let after = log.push(
                new_record(log, journal_id, DomainEventModel::Journal(event), now),
            );
            &&& well_formed_log(after)
            &&& journal_in_log(after, journal_id, event_types) == match journal_in_log(
                log,
                journal_id,
                event_types,
            ) {
                Ok(journal) => if journal.admits(event) {
                    Ok(journal.apply(event))
                } else {
                    Err(ErrorModel::InvalidInput)
                },
                Err(error) => Err(error),
            }
        }),
{
    let record = new_record(log, journal_id, DomainEventModel::Journal(event), now);
    lemma_log_grows(log, journal_id, DomainEventModel::Journal(event), now);
    selection_follows_the_log(log, record, journal_id, AggregateType::Journal, event_types);
    let found = selection(log, journal_id, AggregateType::Journal, event_types);
    assert(payloads_of(found.push(record)) =~= payloads_of(found).push(record.payload));
    assert(payloads_of(found).push(record.payload).drop_last() =~= payloads_of(found));
}

/// A user event that is recorded shows in the user as rebuilt from the store:
/// the user is the former user after the event.
pub proof fn recorded_event_shows_in_user(
    log: Seq<RecordModel>,
    user_id: AggregateId,
    event: UserEventModel,
    now: int,
    event_types: Seq<EventType>,
)
    requires
        well_formed_log(log),
        log.len() < i64::MAX,
        event_types.contains(EventType::of_user_event(event)),
    ensures
        ({
            let after = log.push(new_record(log, user_id, DomainEventModel::User(event), now));
            &&& well_formed_log(after)
            &&& user_in_log(after, user_id, event_types) == match user_in_log(
                log,
                user_id,
                event_types,
            ) {
                Ok(user) => Ok(user.apply(event)),
                Err(error) => Err(error),
            }
        }),
{
    let record = new_record(log, user_id, DomainEventModel::User(event), now);
    lemma_log_grows(log, user_id, DomainEventModel::User(event), now);
    selection_follows_the_log(log, record, user_id, AggregateType::User, event_types);
    let found = selection(log, user_id, AggregateType::User, event_types);
    assert(payloads_of(found.push(record)) =~= payloads_of(found).push(record.payload));
    assert(payloads_of(found).push(record.payload).drop_last() =~= payloads_of(found));
}

/// An event that is recorded for one aggregate leaves every other aggregate
/// as it was, and so does an event of a type that a rebuilding does not ask for.
pub proof fn recorded_event_leaves_the_others(
    log: Seq<RecordModel>,
    aggregate_id: AggregateId,
    payload: DomainEventModel,
    now: int,
    other_id: AggregateId,
    event_types: Seq<EventType>,
)
    requires
        other_id != aggregate_id || !event_types.contains(payload.event_type()),
    ensures
        ({
            let after = log.push(new_record(log, aggregate_id, payload, now));
            &&& journal_in_log(after, other_id, event_types) == journal_in_log(
                log,
                other_id,
                event_types,
            )
            &&& user_in_log(after, other_id, event_types) == user_in_log(
                log,
                other_id,
                event_types,
            )
        }),
{
    let record = new_record(log, aggregate_id, payload, now);
    selection_follows_the_log(log, record, other_id, AggregateType::Journal, event_types);
    selection_follows_the_log(log, record, other_id, AggregateType::User, event_types);
}

/// The log only grows: whatever a command did, the events that the store
/// held stand where they stood, and at most two events were added.
pub proof fn commands_only_append(
    before: Seq<RecordModel>,
    after: Seq<RecordModel>,
    done: Result<(), KnownErrors>,
    first: (AggregateId, DomainEventModel),
    second: (AggregateId, DomainEventModel),
    error: ErrorModel,
    now: int,
)
    requires
        recorded(before, after, done, first.0, first.1, now) || recorded_both(
            before,
            after,
            done,
            first,
            second,
            now,
        ) || refused(before, after, done, error),
    ensures
        before.len() <= after.len() <= before.len() + 2,
        after.take(before.len() as int) == before,
        done is Err ==> after == before,
{
    assert(after.take(before.len() as int) =~= before);
}

/// An invitation that is recorded is pending for the invited user, with what
/// it grants and who stands behind it.
pub proof fn recorded_invitation_is_pending(
    log: Seq<RecordModel>,
    invitee: AggregateId,
    journal_id: AggregateId,
    permissions: Permissions,
    inviting_user: AggregateId,
    owner: AggregateId,
    now: int,
)
    requires
        well_formed_log(log),
        log.len() < i64::MAX,
    ensures
        ({
            let event = UserEventModel::InvitedToJournal {
                id: journal_id,
                permissions,
                inviting_user,
                owner,
            };
            let after = log.push(new_record(log, invitee, DomainEventModel::User(event), now));
            let pending = member_in_log(after, invitee).pending_journal_invites;
            pending.contains_key(journal_id) && pending[journal_id] == (JournalTenantInfo {
                tenant_permissions: permissions,
                inviting_user,
                journal_owner: owner,
            })
        }),
{
    let event = UserEventModel::InvitedToJournal {
        id: journal_id,
        permissions,
        inviting_user,
        owner,
    };
    assert(membership_types()[1] == EventType::UserInvitedToJournal);
    lemma_user_in_log_is_built(log, invitee, membership_types());
    recorded_event_shows_in_user(log, invitee, event, now, membership_types());
}

/// A pending invitation that is accepted grants what it names: the
/// invitation is pending no longer, and the user, unless the user owns the
/// journal, may do to the journal exactly what takes capabilities that the
/// invitation holds.
pub proof fn accepted_invitation_grants_what_it_names(
    log: Seq<RecordModel>,
    user_id: AggregateId,
    journal_id: AggregateId,
    now: int,
    required: u16,
)
    requires
        well_formed_log(log),
        log.len() < i64::MAX,
        member_in_log(log, user_id).pending_journal_invites.contains_key(journal_id),
    ensures
        ({
            let granted = member_in_log(log, user_id).pending_journal_invites[journal_id];
            let event = UserEventModel::AcceptedJournalInvite { id: journal_id };
            let after = member_in_log(
                log.push(new_record(log, user_id, DomainEventModel::User(event), now)),
                user_id,
            );
            &&& !after.pending_journal_invites.contains_key(journal_id)
            &&& after.accepted_journal_invites.contains_key(journal_id)
            &&& after.accepted_journal_invites[journal_id] == granted
            &&& !owns(after, journal_id) ==> (may(after, journal_id, required) <==> covers(
                granted.tenant_permissions@,
                required,
            ))
        }),
{
    let event = UserEventModel::AcceptedJournalInvite { id: journal_id };
    assert(membership_types()[2] == EventType::UserAcceptedJournalInvite);
    lemma_user_in_log_is_built(log, user_id, membership_types());
    recorded_event_shows_in_user(log, user_id, event, now, membership_types());
}

/// The lookups follow the log: a record that is appended is the one found
/// where it is one of those looked for, and leaves what is found as it was
/// where it is none.
pub proof fn latest_sought_follows_the_log(
    log: Seq<RecordModel>,
    record: RecordModel,
    text: Seq<char>,
    by_session: bool,
)
    ensures
        latest_sought(log.push(record), text, by_session) == if is_sought(
            record,
            text,
            by_session,
        ) {
            Some(record.aggregate_id)
        } else {
            latest_sought(log, text, by_session)
        },
{
    assert(log.push(record).drop_last() =~= log);
}

/// A user who has signed up is found by name.
pub proof fn signed_up_user_is_found_by_name(
    log: Seq<RecordModel>,
    user_id: AggregateId,
    username: Seq<char>,
    hashed_password: Seq<char>,
    session_id: Seq<char>,
    now: int,
)
    ensures
        user_named(signed_up(log, user_id, username, hashed_password, session_id, now), username)
            == Some(user_id),
{
    let created = DomainEventModel::User(UserEventModel::Created { username, hashed_password });
    let logged_in = DomainEventModel::User(UserEventModel::LoggedIn { session_id });
    let middle = log.push(new_record(log, user_id, created, now));
    latest_sought_follows_the_log(log, new_record(log, user_id, created, now), username, false);
    latest_sought_follows_the_log(
        middle,
        new_record(middle, user_id, logged_in, now),
        username,
        false,
    );
}

/// A user who has signed up under a new identifier is logged in under the
/// session of the sign-up, and the stored credentials are the hash that the
/// sign-up was made with: what the credential hasher says of a password for
/// the user is what it says of the password and that hash.
pub proof fn signed_up_user_can_log_in(
    log: Seq<RecordModel>,
    user_id: AggregateId,
    username: Seq<char>,
    hashed_password: Seq<char>,
    session_id: Seq<char>,
    now: int,
    password: Seq<char>,
)
    requires
        well_formed_log(log),
        log.len() + 1 < i64::MAX,
        !aggregate_exists(log, user_id),
    ensures
        ({
            let after = signed_up(log, user_id, username, hashed_password, session_id, now);
            &&& well_formed_log(after)
            &&& session_user(after, session_id) == Some(user_id)
            &&& user_in_log(after, user_id, password_types()) matches Ok(user)
                && user.hashed_password == hashed_password
            &&& verdict_in_log(after, user_id, password) == bcrypt_verdict(
                password,
                hashed_password,
            )
        }),
{
    let created = UserEventModel::Created { username, hashed_password };
    let logged_in = UserEventModel::LoggedIn { session_id };
    let first = new_record(log, user_id, DomainEventModel::User(created), now);
    let middle = log.push(first);
    let second = new_record(middle, user_id, DomainEventModel::User(logged_in), now);
    let after = middle.push(second);
    assert(after == signed_up(log, user_id, username, hashed_password, session_id, now));
    lemma_log_grows(log, user_id, DomainEventModel::User(created), now);
    lemma_log_grows(middle, user_id, DomainEventModel::User(logged_in), now);

    lemma_unused_id_selects_nothing(log, user_id, AggregateType::User, password_types());
    lemma_unused_id_selects_nothing(log, user_id, AggregateType::User, session_types());
    assert(payloads_of(Seq::<RecordModel>::empty()) =~= Seq::<DomainEventModel>::empty());

    assert(password_types()[0] == EventType::UserCreated);
    recorded_event_shows_in_user(log, user_id, created, now, password_types());
    recorded_event_leaves_the_others(
        middle,
        user_id,
        DomainEventModel::User(logged_in),
        now,
        user_id,
        password_types(),
    );

    recorded_event_leaves_the_others(
        log,
        user_id,
        DomainEventModel::User(created),
        now,
        user_id,
        session_types(),
    );
    assert(session_types()[0] == EventType::UserLoggedIn);
    recorded_event_shows_in_user(middle, user_id, logged_in, now, session_types());
    latest_sought_follows_the_log(middle, second, session_id, true);
}

/// A tenant may pass on what the tenant holds and nothing else: a tenant who
/// asks to grant only capabilities that the tenant's invitation holds may
/// invite, and the owner that the invitation names is passed on; a tenant who
/// asks for more is refused with one capability that is asked for and not
/// held. Whoever is neither owner nor tenant is refused.
pub proof fn tenant_grants_what_the_tenant_holds(
    user: UserModel,
    journal_id: AggregateId,
    requested: u16,
)
    requires
        !owns(user, journal_id),
        known_bits(requested),
    ensures
        ({
            let held = user.accepted_journal_invites[journal_id];
            if !user.accepted_journal_invites.contains_key(journal_id) {
                grant(user, journal_id, requested) is Err
            } else if covers(held.tenant_permissions@, requested) {
                grant(user, journal_id, requested) == Ok::<AggregateId, ErrorModel>(
                    held.journal_owner,
                )
            } else {
                grant(user, journal_id, requested) matches Err(
                    ErrorModel::PermissionError { required_permissions: flag },
                ) && is_capability(flag) && lacks(held.tenant_permissions@, requested, flag)
            }
        }),
{
    let held = user.accepted_journal_invites[journal_id];
    first_missing_none_iff_covered(held.tenant_permissions@, requested);
    first_missing_is_lacking(held.tenant_permissions@, requested);
}

/// Whether no journal is both among the pending and among the accepted
/// invitations of `user`.
pub open spec fn invitations_are_exclusive(user: UserModel) -> bool {
    forall|id: AggregateId|
        !(#[trigger] user.pending_journal_invites.contains_key(id)
            && user.accepted_journal_invites.contains_key(id))
}

/// An invitation is pending or accepted, never both: this holds of a new
/// user, and every event keeps it but an invitation to a journal whose
/// invitation the user has accepted already.
pub proof fn invitations_stay_exclusive(user: UserModel, event: UserEventModel, id: AggregateId)
    requires
        invitations_are_exclusive(user),
        event matches UserEventModel::InvitedToJournal { id: journal, .. }
            ==> !user.accepted_journal_invites.contains_key(journal),
    ensures
        invitations_are_exclusive(UserModel::new(id)),
        invitations_are_exclusive(user.apply(event)),
{
    let after = user.apply(event);
    assert forall|j: AggregateId|
        !(#[trigger] after.pending_journal_invites.contains_key(j)
            && after.accepted_journal_invites.contains_key(j)) by {
        assert(!(user.pending_journal_invites.contains_key(j)
            && user.accepted_journal_invites.contains_key(j)));
    }
}

/// To accept a pending invitation is to move it: it is pending no longer,
/// and it is accepted with what it granted. To accept or decline what is not
/// pending changes nothing.
pub proof fn accepting_moves_the_invitation(user: UserModel, journal: AggregateId)
    ensures
        ({
            let accepted = user.apply(UserEventModel::AcceptedJournalInvite { id: journal });
            let declined = user.apply(UserEventModel::DeclinedJournalInvite { id: journal });
            if user.pending_journal_invites.contains_key(journal) {
                &&& !accepted.pending_journal_invites.contains_key(journal)
                &&& accepted.accepted_journal_invites.contains_key(journal)
                &&& accepted.accepted_journal_invites[journal]
                    == user.pending_journal_invites[journal]
                &&& !declined.pending_journal_invites.contains_key(journal)
            } else {
                accepted == user && declined == user
            }
        }),
{
    if !user.pending_journal_invites.contains_key(journal) {
        assert(user.pending_journal_invites.remove(journal) =~= user.pending_journal_invites);
    }
}

} // verus!
