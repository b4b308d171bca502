use ledger_core::accounts::Account;
use ledger_core::commands::{
    accept_journal_invite, add_account, authenticate, authenticate_with_verdict, create_account,
    create_journal, create_journal_with_id, decline_journal_invite, get_accounts,
    get_associated_journals, get_transactions, invite_to_journal, is_logged_in, log_out, login,
    membership_event_types, sign_up, transact,
};
use ledger_core::errors::KnownErrors;
use ledger_core::event::{AggregateType, DomainEvent, EventType};
use ledger_core::ids::{V4_MARK, V4_MASK};
use ledger_core::journal::{BalanceUpdate, JournalEvent, JournalState, JournalTenantInfo, Transaction};
use ledger_core::permissions::Permissions;
use ledger_core::return_types::{AssociatedJournal, TransactionWithTimeStamp};
use ledger_core::store::EventStore;
use ledger_core::user::{UserEvent, UserState};

const PASSWORD_HASH: &str = "$2a$04$UuTkLRZZ6QofpDOlMz32MuuxEHA43WOemOYHPz6.SjsVsyO1tDU96";

const ANN: u128 = 1;
const BOB: u128 = 2;
const BOOKS: u128 = 100;

fn text(s: &str) -> String {
    s.to_string()
}

fn texts(list: &[&str]) -> Vec<String> {
    list.iter().map(|s| s.to_string()).collect()
}

fn line(account: &str, cents: i64) -> BalanceUpdate {
    BalanceUpdate { account_name: text(account), changed_by: cents }
}

fn journal_types() -> Vec<EventType> {
    vec![
        EventType::JournalCreated,
        EventType::JournalRenamed,
        EventType::JournalAccountCreated,
        EventType::JournalAccountDeleted,
        EventType::JournalAddedEntry,
        EventType::JournalDeleted,
    ]
}

fn journal(store: &EventStore, id: u128) -> JournalState {
    JournalState::build(&id, journal_types(), store).unwrap()
}

fn balance(store: &EventStore, id: u128, account: &str) -> Option<i64> {
    journal(store, id).accounts.get(&text(account))
}

/// Ann and Bob are signed up, Ann owns the journal BOOKS.
fn world() -> EventStore {
    let mut store = EventStore::new();
    sign_up(&mut store, ANN, text("ann"), text(PASSWORD_HASH), text("ann-session"), 1).unwrap();
    sign_up(&mut store, BOB, text("bob"), text(PASSWORD_HASH), text("bob-session"), 2).unwrap();
    create_journal_with_id(&mut store, ANN, BOOKS, text("Books"), 3).unwrap();
    store
}

/// As `world`, with the accounts Cash at 1000 and Revenue at -1000.
fn world_with_balances() -> EventStore {
    let mut store = world();
    add_account(&mut store, ANN, text("Cash"), BOOKS, 4).unwrap();
    add_account(&mut store, ANN, text("Revenue"), BOOKS, 5).unwrap();
    transact(
        &mut store,
        ANN,
        BOOKS,
        texts(&["Cash", "Revenue"]),
        texts(&["1000", "0"]),
        texts(&["0", "1000"]),
        6,
    )
    .unwrap();
    store
}

#[test]
fn a_balanced_entry_moves_the_balances() {
    let mut store = world_with_balances();
    assert_eq!(balance(&store, BOOKS, "Cash"), Some(1000));
    assert_eq!(balance(&store, BOOKS, "Revenue"), Some(-1000));
    let before = store.len();
    let entries = journal(&store, BOOKS).transactions.len();
    let done = transact(
        &mut store,
        ANN,
        BOOKS,
        texts(&["Cash", "Revenue"]),
        texts(&["500", "0"]),
        texts(&["0", "500"]),
        7,
    );
    assert_eq!(done, Ok(()));
    assert_eq!(store.len(), before + 1);
    assert_eq!(balance(&store, BOOKS, "Cash"), Some(1500));
    assert_eq!(balance(&store, BOOKS, "Revenue"), Some(-1500));
    let after = journal(&store, BOOKS);
    assert_eq!(after.transactions.len(), entries + 1);
    assert_eq!(
        after.transactions[entries],
        Transaction { author: ANN, updates: vec![line("Cash", 500), line("Revenue", -500)] }
    );
    let last = &store.events()[before];
    assert_eq!(last.aggregate_id, BOOKS);
    assert_eq!(last.aggregate_type, AggregateType::Journal);
    assert_eq!(last.event_type, EventType::JournalAddedEntry);
    assert_eq!(last.created_at, 7);
}

#[test]
fn an_unbalanced_entry_is_refused_and_nothing_is_appended() {
    let mut store = world_with_balances();
    let before = store.events().clone();
    let done = transact(&mut store, ANN, BOOKS, texts(&["Cash"]), texts(&["100"]), texts(&["0"]), 7);
    assert_eq!(
        done,
        Err(KnownErrors::BalanceMismatch { attempted_transaction: vec![line("Cash", 100)] })
    );
    assert_eq!(store.events(), &before);
    assert_eq!(balance(&store, BOOKS, "Cash"), Some(1000));
    assert_eq!(balance(&store, BOOKS, "Revenue"), Some(-1000));
}

#[test]
fn an_entry_with_an_unreadable_amount_is_refused() {
    let mut store = world_with_balances();
    let before = store.len();
    let done = transact(
        &mut store,
        ANN,
        BOOKS,
        texts(&["Cash", "Revenue"]),
        texts(&["five", "0"]),
        texts(&["0", "5"]),
        7,
    );
    assert_eq!(done, Err(KnownErrors::InvalidInput));
    assert_eq!(store.len(), before);
}

#[test]
fn a_tenant_without_the_capability_may_not_add_an_account() {
    let mut store = world();
    let grant = Permissions::read().union(Permissions::append_transaction());
    invite_to_journal(&mut store, ANN, BOOKS, text("bob"), grant, 10).unwrap();
    accept_journal_invite(&mut store, BOB, BOOKS, 11).unwrap();
    let before = store.events().clone();
    let done = add_account(&mut store, BOB, text("Rent"), BOOKS, 12);
    assert_eq!(
        done,
        Err(KnownErrors::PermissionError { required_permissions: Permissions::add_account() })
    );
    assert_eq!(store.events(), &before);
    assert_eq!(balance(&store, BOOKS, "Rent"), None);
}

#[test]
fn a_tenant_with_the_capability_may_record_an_entry() {
    let mut store = world();
    let grant = Permissions::read().union(Permissions::append_transaction());
    assert_eq!(invite_to_journal(&mut store, ANN, BOOKS, text("bob"), grant, 10), Ok(()));
    assert_eq!(accept_journal_invite(&mut store, BOB, BOOKS, 11), Ok(()));
    assert_eq!(
        add_account(&mut store, BOB, text("Rent"), BOOKS, 12),
        Err(KnownErrors::PermissionError { required_permissions: Permissions::add_account() })
    );
    let done = transact(
        &mut store,
        BOB,
        BOOKS,
        texts(&["Cash", "Revenue"]),
        texts(&["25", "0"]),
        texts(&["0", "25"]),
        13,
    );
    assert_eq!(done, Ok(()));
    assert_eq!(balance(&store, BOOKS, "Cash"), Some(25));
    assert_eq!(balance(&store, BOOKS, "Revenue"), Some(-25));
    assert_eq!(journal(&store, BOOKS).transactions[0].author, BOB);
}

#[test]
fn a_stranger_may_do_nothing_to_a_journal() {
    let mut store = world();
    let before = store.len();
    assert_eq!(
        transact(&mut store, BOB, BOOKS, texts(&["Cash"]), texts(&["0"]), texts(&["0"]), 10),
        Err(KnownErrors::PermissionError {
            required_permissions: Permissions::append_transaction()
        })
    );
    assert_eq!(
        add_account(&mut store, BOB, text("Rent"), BOOKS, 10),
        Err(KnownErrors::PermissionError { required_permissions: Permissions::add_account() })
    );
    assert_eq!(
        get_accounts(&store, BOB, BOOKS),
        Err(KnownErrors::PermissionError { required_permissions: Permissions::read() })
    );
    assert_eq!(
        invite_to_journal(&mut store, BOB, BOOKS, text("ann"), Permissions::read(), 10),
        Err(KnownErrors::PermissionError { required_permissions: Permissions::read() })
    );
    assert_eq!(
        invite_to_journal(&mut store, BOB, BOOKS, text("ann"), Permissions::all(), 10),
        Err(KnownErrors::PermissionError { required_permissions: Permissions::read() })
    );
    assert_eq!(store.len(), before);
}

#[test]
fn the_right_is_checked_before_the_balance() {
    let mut store = world();
    let done = transact(&mut store, BOB, BOOKS, texts(&["Cash"]), texts(&["100"]), texts(&["0"]), 10);
    assert_eq!(
        done,
        Err(KnownErrors::PermissionError {
            required_permissions: Permissions::append_transaction()
        })
    );
}

#[test]
fn a_pending_invitation_grants_nothing_until_accepted() {
    let mut store = world();
    invite_to_journal(&mut store, ANN, BOOKS, text("bob"), Permissions::all(), 10).unwrap();
    assert_eq!(
        add_account(&mut store, BOB, text("Rent"), BOOKS, 11),
        Err(KnownErrors::PermissionError { required_permissions: Permissions::add_account() })
    );
    accept_journal_invite(&mut store, BOB, BOOKS, 12).unwrap();
    assert_eq!(add_account(&mut store, BOB, text("Rent"), BOOKS, 13), Ok(()));
    assert_eq!(balance(&store, BOOKS, "Rent"), Some(0));
}

#[test]
fn accepting_without_an_invitation_is_refused() {
    let mut store = world();
    let before = store.events().clone();
    assert_eq!(accept_journal_invite(&mut store, BOB, BOOKS, 10), Err(KnownErrors::NoInvitation));
    assert_eq!(decline_journal_invite(&mut store, BOB, BOOKS, 10), Err(KnownErrors::NoInvitation));
    assert_eq!(store.events(), &before);
    let user = UserState::build(&BOB, membership_event_types(), &store).unwrap();
    assert!(user.pending_journal_invites.is_empty());
    assert!(user.accepted_journal_invites.is_empty());
}

#[test]
fn an_invitation_can_be_accepted_once() {
    let mut store = world();
    invite_to_journal(&mut store, ANN, BOOKS, text("bob"), Permissions::read(), 10).unwrap();
    assert_eq!(accept_journal_invite(&mut store, BOB, BOOKS, 11), Ok(()));
    assert_eq!(accept_journal_invite(&mut store, BOB, BOOKS, 12), Err(KnownErrors::NoInvitation));
    assert_eq!(decline_journal_invite(&mut store, BOB, BOOKS, 12), Err(KnownErrors::NoInvitation));
    let user = UserState::build(&BOB, membership_event_types(), &store).unwrap();
    assert!(user.pending_journal_invites.is_empty());
    assert_eq!(
        user.accepted_journal_invites.get(&BOOKS),
        Some(&JournalTenantInfo {
            tenant_permissions: Permissions::read(),
            inviting_user: ANN,
            journal_owner: ANN
        })
    );
}

#[test]
fn a_declined_invitation_grants_nothing() {
    let mut store = world();
    invite_to_journal(&mut store, ANN, BOOKS, text("bob"), Permissions::all(), 10).unwrap();
    assert_eq!(decline_journal_invite(&mut store, BOB, BOOKS, 11), Ok(()));
    assert_eq!(accept_journal_invite(&mut store, BOB, BOOKS, 12), Err(KnownErrors::NoInvitation));
    assert_eq!(
        get_accounts(&store, BOB, BOOKS),
        Err(KnownErrors::PermissionError { required_permissions: Permissions::read() })
    );
}

#[test]
fn inviting_an_unknown_user_is_refused() {
    let mut store = world();
    let before = store.len();
    assert_eq!(
        invite_to_journal(&mut store, ANN, BOOKS, text("carl"), Permissions::read(), 10),
        Err(KnownErrors::UserDoesntExist)
    );
    assert_eq!(store.len(), before);
}

#[test]
fn a_tenant_passes_on_no_more_than_the_tenant_holds() {
    let mut store = world();
    sign_up(&mut store, 3, text("carl"), text(PASSWORD_HASH), text("carl-session"), 9).unwrap();
    let grant = Permissions::read().union(Permissions::append_transaction());
    invite_to_journal(&mut store, ANN, BOOKS, text("bob"), grant, 10).unwrap();
    accept_journal_invite(&mut store, BOB, BOOKS, 11).unwrap();
    let before = store.events().clone();
    assert_eq!(
        invite_to_journal(
            &mut store,
            BOB,
            BOOKS,
            text("carl"),
            Permissions::read().union(Permissions::delete()),
            12
        ),
        Err(KnownErrors::PermissionError { required_permissions: Permissions::delete() })
    );
    assert_eq!(
        invite_to_journal(&mut store, BOB, BOOKS, text("carl"), Permissions::invite(), 12),
        Err(KnownErrors::PermissionError { required_permissions: Permissions::invite() })
    );
    assert_eq!(store.events(), &before);
    assert_eq!(
        invite_to_journal(&mut store, BOB, BOOKS, text("carl"), Permissions::read(), 13),
        Ok(())
    );
    assert_eq!(store.len(), before.len() + 1);
    let last = &store.events()[before.len()];
    assert_eq!(last.aggregate_id, 3);
    assert_eq!(
        last.payload,
        DomainEvent::User(UserEvent::InvitedToJournal {
            id: BOOKS,
            permissions: Permissions::read(),
            inviting_user: BOB,
            owner: ANN
        })
    );
    let carl = UserState::build(&3, membership_event_types(), &store).unwrap();
    assert_eq!(
        carl.pending_journal_invites.get(&BOOKS),
        Some(&JournalTenantInfo {
            tenant_permissions: Permissions::read(),
            inviting_user: BOB,
            journal_owner: ANN
        })
    );
}

#[test]
fn an_invitation_passed_on_names_the_owner_of_the_journal() {
    let mut store = world();
    sign_up(&mut store, 3, text("carl"), text(PASSWORD_HASH), text("carl-session"), 9).unwrap();
    sign_up(&mut store, 4, text("dora"), text(PASSWORD_HASH), text("dora-session"), 9).unwrap();
    invite_to_journal(&mut store, ANN, BOOKS, text("bob"), Permissions::all(), 10).unwrap();
    accept_journal_invite(&mut store, BOB, BOOKS, 11).unwrap();
    invite_to_journal(&mut store, BOB, BOOKS, text("carl"), Permissions::read(), 12).unwrap();
    accept_journal_invite(&mut store, 3, BOOKS, 13).unwrap();
    invite_to_journal(&mut store, 3, BOOKS, text("dora"), Permissions::read(), 14).unwrap();
    let dora = UserState::build(&4, membership_event_types(), &store).unwrap();
    assert_eq!(
        dora.pending_journal_invites.get(&BOOKS),
        Some(&JournalTenantInfo {
            tenant_permissions: Permissions::read(),
            inviting_user: 3,
            journal_owner: ANN
        })
    );
}

#[test]
fn get_accounts_lists_the_accounts_with_their_balances() {
    let mut store = world_with_balances();
    let mut accounts = get_accounts(&store, ANN, BOOKS).unwrap();
    accounts.sort_by(|a, b| a.name.cmp(&b.name));
    assert_eq!(
        accounts,
        vec![
            Account { name: text("Cash"), balance: 1000 },
            Account { name: text("Revenue"), balance: -1000 }
        ]
    );
    invite_to_journal(&mut store, ANN, BOOKS, text("bob"), Permissions::read(), 10).unwrap();
    accept_journal_invite(&mut store, BOB, BOOKS, 11).unwrap();
    assert_eq!(get_accounts(&store, BOB, BOOKS).unwrap().len(), 2);
}

#[test]
fn an_entry_that_the_journal_cannot_hold_is_refused() {
    let mut store = world();
    let huge = text("9223372036854775807");
    let request = |store: &mut EventStore, now: i64| {
        transact(
            store,
            ANN,
            BOOKS,
            texts(&["Cash", "Revenue"]),
            vec![huge.clone(), text("0")],
            vec![text("0"), huge.clone()],
            now,
        )
    };
    assert_eq!(request(&mut store, 10), Ok(()));
    let before = store.events().clone();
    assert_eq!(request(&mut store, 11), Err(KnownErrors::InvalidInput));
    assert_eq!(store.events(), &before);
    assert_eq!(balance(&store, BOOKS, "Cash"), Some(i64::MAX));
    assert_eq!(balance(&store, BOOKS, "Revenue"), Some(-i64::MAX));
    let back = transact(
        &mut store,
        ANN,
        BOOKS,
        texts(&["Cash", "Revenue"]),
        texts(&["0", "5"]),
        texts(&["5", "0"]),
        12,
    );
    assert_eq!(back, Ok(()));
    assert_eq!(balance(&store, BOOKS, "Cash"), Some(i64::MAX - 5));
}

#[test]
fn a_journal_that_cannot_be_rebuilt_is_reported() {
    let mut store = world();
    let poison = || {
        DomainEvent::Journal(JournalEvent::AddedEntry {
            transaction: Transaction { author: ANN, updates: vec![line("Cash", i64::MAX)] },
        })
    };
    store.append(BOOKS, poison(), 10).unwrap();
    store.append(BOOKS, poison(), 11).unwrap();
    assert_eq!(get_accounts(&store, ANN, BOOKS), Err(KnownErrors::InvalidInput));
    let before = store.len();
    let done = transact(
        &mut store,
        ANN,
        BOOKS,
        texts(&["Cash", "Revenue"]),
        texts(&["1", "0"]),
        texts(&["0", "1"]),
        12,
    );
    assert_eq!(done, Err(KnownErrors::InvalidInput));
    assert_eq!(store.len(), before);
}

#[test]
fn creating_a_journal_makes_the_caller_its_owner() {
    let mut store = world();
    let id = create_journal(&mut store, BOB, text("Side"), 10).unwrap();
    assert_eq!(id & V4_MASK, V4_MARK);
    assert_ne!(id, BOOKS);
    let created = journal(&store, id);
    assert_eq!(created.name, "Side");
    assert_eq!(created.owner, BOB);
    let bob = UserState::build(&BOB, membership_event_types(), &store).unwrap();
    assert!(bob.owned_journals.contains(&id));
    assert_eq!(add_account(&mut store, BOB, text("Cash"), id, 11), Ok(()));
    let other = create_journal(&mut store, BOB, text("Side"), 12).unwrap();
    assert_ne!(other, id);
}

#[test]
fn a_journal_cannot_be_created_under_an_identifier_in_use() {
    let mut store = world();
    let before = store.events().clone();
    assert_eq!(
        create_journal_with_id(&mut store, BOB, BOOKS, text("Mine now"), 10),
        Err(KnownErrors::StoreError)
    );
    assert_eq!(
        create_journal_with_id(&mut store, BOB, ANN, text("Mine now"), 10),
        Err(KnownErrors::StoreError)
    );
    assert_eq!(store.events(), &before);
    assert_eq!(journal(&store, BOOKS).owner, ANN);
}

#[test]
fn create_journal_with_id_appends_to_journal_and_owner() {
    let mut store = EventStore::new();
    assert_eq!(create_journal_with_id(&mut store, ANN, BOOKS, text("Books"), 5), Ok(()));
    assert_eq!(store.len(), 2);
    assert_eq!(store.events()[0].aggregate_id, BOOKS);
    assert_eq!(
        store.events()[0].payload,
        DomainEvent::Journal(JournalEvent::Created { name: text("Books"), owner: ANN })
    );
    assert_eq!(store.events()[1].aggregate_id, ANN);
    assert_eq!(
        store.events()[1].payload,
        DomainEvent::User(UserEvent::CreatedJournal { id: BOOKS })
    );
    assert_eq!(store.events()[0].created_at, 5);
    assert_eq!(store.events()[1].created_at, 5);
}

#[test]
fn sign_up_refuses_a_name_that_is_taken() {
    let mut store = world();
    let before = store.len();
    assert_eq!(
        sign_up(&mut store, 9, text("ann"), text("h"), text("s"), 10),
        Err(KnownErrors::UserExists { username: text("ann") })
    );
    assert_eq!(
        sign_up(&mut store, ANN, text("zoe"), text("h"), text("s"), 10),
        Err(KnownErrors::StoreError)
    );
    assert_eq!(store.len(), before);
    assert_eq!(sign_up(&mut store, 9, text("zoe"), text("h"), text("s"), 10), Ok(()));
    assert_eq!(is_logged_in(&store, text("s"), 9), Ok(()));
}

#[test]
fn login_checks_the_password_against_the_stored_hash() {
    let mut store = world();
    let before = store.len();
    assert_eq!(
        login(&mut store, text("ann"), text("wrong"), text("s2"), 10),
        Err(KnownErrors::LoginFailed { username: text("ann"), password: text("wrong") })
    );
    assert_eq!(store.len(), before);
    assert_eq!(is_logged_in(&store, text("s2"), ANN), Err(KnownErrors::NotLoggedIn));
    assert_eq!(login(&mut store, text("ann"), text("password"), text("s2"), 11), Ok(()));
    assert_eq!(store.len(), before + 1);
    assert_eq!(is_logged_in(&store, text("s2"), ANN), Ok(()));
    assert_eq!(is_logged_in(&store, text("s2"), BOB), Err(KnownErrors::NotLoggedIn));
}

#[test]
fn login_of_an_unknown_user_is_refused() {
    let mut store = world();
    assert_eq!(
        login(&mut store, text("carl"), text("password"), text("s"), 10),
        Err(KnownErrors::UserDoesntExist)
    );
}

#[test]
fn login_against_an_unreadable_hash_is_a_credential_error() {
    let mut store = EventStore::new();
    sign_up(&mut store, ANN, text("ann"), text("no hash at all"), text("s"), 1).unwrap();
    assert_eq!(
        login(&mut store, text("ann"), text("password"), text("s2"), 2),
        Err(KnownErrors::CredentialError)
    );
    assert_eq!(
        authenticate(text("s2"), ANN, text("password"), &mut store, 3),
        Err(KnownErrors::CredentialError)
    );
    assert_eq!(store.len(), 2);
}

#[test]
fn authenticate_logs_in_on_a_match_only() {
    let mut store = world();
    let before = store.len();
    assert_eq!(authenticate(text("s3"), BOB, text("nope"), &mut store, 10), Ok(false));
    assert_eq!(store.len(), before);
    assert_eq!(authenticate(text("s3"), BOB, text("password"), &mut store, 11), Ok(true));
    assert_eq!(store.len(), before + 1);
    assert_eq!(is_logged_in(&store, text("s3"), BOB), Ok(()));
}

#[test]
fn authenticate_with_verdict_follows_the_verdict() {
    let mut store = EventStore::new();
    assert_eq!(authenticate_with_verdict(text("s"), ANN, Some(false), &mut store, 1), Ok(false));
    assert_eq!(
        authenticate_with_verdict(text("s"), ANN, None, &mut store, 1),
        Err(KnownErrors::CredentialError)
    );
    assert_eq!(store.len(), 0);
    assert_eq!(authenticate_with_verdict(text("s"), ANN, Some(true), &mut store, 1), Ok(true));
    assert_eq!(store.len(), 1);
    assert_eq!(
        store.events()[0].payload,
        DomainEvent::User(UserEvent::LoggedIn { session_id: text("s") })
    );
    assert_eq!(store.events()[0].aggregate_id, ANN);
}

#[test]
fn create_account_signs_up_and_logs_in() {
    let mut store = EventStore::new();
    let id =
        create_account(&mut store, text("ann"), text("hunter2"), text("hunter2"), text("s"), 1)
            .unwrap();
    assert_eq!(id & V4_MASK, V4_MARK);
    assert_eq!(store.len(), 2);
    assert_eq!(is_logged_in(&store, text("s"), id), Ok(()));
    let user = UserState::build(&id, vec![EventType::UserCreated], &store).unwrap();
    assert_eq!(user.username, "ann");
    assert_ne!(user.hashed_password, "hunter2");
    assert_eq!(login(&mut store, text("ann"), text("hunter2"), text("s2"), 2), Ok(()));
    assert_eq!(
        login(&mut store, text("ann"), text("hunter3"), text("s3"), 3),
        Err(KnownErrors::LoginFailed { username: text("ann"), password: text("hunter3") })
    );
}

#[test]
fn create_account_refuses_passwords_that_differ() {
    let mut store = EventStore::new();
    assert_eq!(
        create_account(&mut store, text("ann"), text("one"), text("two"), text("s"), 1),
        Err(KnownErrors::SignupPasswordMismatch { username: text("ann") })
    );
    assert_eq!(store.len(), 0);
}

#[test]
fn create_account_refuses_a_name_that_is_taken() {
    let mut store = world();
    let before = store.len();
    assert_eq!(
        create_account(&mut store, text("bob"), text("pw"), text("pw"), text("s"), 10),
        Err(KnownErrors::UserExists { username: text("bob") })
    );
    assert_eq!(
        create_account(&mut store, text("bob"), text("pw"), text("other"), text("s"), 10),
        Err(KnownErrors::SignupPasswordMismatch { username: text("bob") })
    );
    assert_eq!(store.len(), before);
}

#[test]
fn log_out_ends_the_session() {
    let mut store = world();
    assert_eq!(is_logged_in(&store, text("ann-session"), ANN), Ok(()));
    assert_eq!(log_out(&mut store, text("ann-session"), ANN, 10), Ok(()));
    assert_eq!(is_logged_in(&store, text("ann-session"), ANN), Err(KnownErrors::NotLoggedIn));
    let before = store.len();
    assert_eq!(log_out(&mut store, text("ann-session"), ANN, 11), Ok(()));
    assert_eq!(log_out(&mut store, text("bob-session"), ANN, 11), Ok(()));
    assert_eq!(store.len(), before);
    assert_eq!(is_logged_in(&store, text("bob-session"), BOB), Ok(()));
}

#[test]
fn associated_journals_lists_owned_and_shared() {
    let mut store = world();
    create_journal_with_id(&mut store, BOB, 200, text("Bob's"), 10).unwrap();
    create_journal_with_id(&mut store, BOB, 201, text("Gone"), 11).unwrap();
    store.append(201, DomainEvent::Journal(JournalEvent::Deleted), 12).unwrap();
    invite_to_journal(&mut store, ANN, BOOKS, text("bob"), Permissions::read(), 13).unwrap();
    let pending = get_associated_journals(&store, BOB).unwrap();
    assert_eq!(pending, vec![AssociatedJournal::Owned { id: 200, name: text("Bob's") }]);
    accept_journal_invite(&mut store, BOB, BOOKS, 14).unwrap();
    let listed = get_associated_journals(&store, BOB).unwrap();
    assert_eq!(
        listed,
        vec![
            AssociatedJournal::Owned { id: 200, name: text("Bob's") },
            AssociatedJournal::Shared {
                id: BOOKS,
                name: text("Books"),
                tenant_info: JournalTenantInfo {
                    tenant_permissions: Permissions::read(),
                    inviting_user: ANN,
                    journal_owner: ANN
                }
            }
        ]
    );
    assert_eq!(
        get_associated_journals(&store, ANN).unwrap(),
        vec![AssociatedJournal::Owned { id: BOOKS, name: text("Books") }]
    );
    assert_eq!(get_associated_journals(&store, 77).unwrap(), vec![]);
}

#[test]
fn associated_journals_lists_every_owned_journal_once() {
    let mut store = world();
    for n in 0..20u128 {
        create_journal_with_id(&mut store, ANN, 1000 + n, format!("J{}", n), 10).unwrap();
    }
    let listed = get_associated_journals(&store, ANN).unwrap();
    let mut ids: Vec<u128> = listed
        .iter()
        .map(|j| match j {
            AssociatedJournal::Owned { id, .. } => *id,
            AssociatedJournal::Shared { .. } => panic!("nothing is shared"),
        })
        .collect();
    ids.sort();
    let mut expected: Vec<u128> = (0..20u128).map(|n| 1000 + n).collect();
    expected.insert(0, BOOKS);
    assert_eq!(ids, expected);
}

#[test]
fn transactions_come_in_the_order_of_time() {
    let mut store = world();
    for (amount, now) in [("2", 10), ("3", 20), ("1", 30)] {
        transact(
            &mut store,
            ANN,
            BOOKS,
            texts(&["Cash", "Revenue"]),
            texts(&[amount, "0"]),
            texts(&["0", amount]),
            now,
        )
        .unwrap();
    }
    let entries = get_transactions(&store, ANN, &BOOKS).unwrap();
    let times: Vec<i64> = entries.iter().map(|e| e.timestamp).collect();
    assert_eq!(times, vec![10, 20, 30]);
    assert_eq!(
        entries[0],
        TransactionWithTimeStamp {
            transaction: Transaction {
                author: ANN,
                updates: vec![line("Cash", 2), line("Revenue", -2)]
            },
            timestamp: 10
        }
    );
    assert_eq!(
        get_transactions(&store, BOB, &BOOKS),
        Err(KnownErrors::PermissionError { required_permissions: Permissions::read() })
    );
    assert_eq!(
        get_transactions(&store, ANN, &999),
        Err(KnownErrors::PermissionError { required_permissions: Permissions::read() })
    );
    create_journal_with_id(&mut store, ANN, 999, text("Empty"), 40).unwrap();
    assert_eq!(get_transactions(&store, ANN, &999).unwrap(), vec![]);
}

#[test]
fn an_entry_under_a_lagging_clock_is_recorded_last() {
    let mut store = world();
    add_account(&mut store, ANN, text("Cash"), BOOKS, 50).unwrap();
    transact(
        &mut store,
        ANN,
        BOOKS,
        texts(&["Cash", "Revenue"]),
        texts(&["10", "0"]),
        texts(&["0", "10"]),
        40,
    )
    .unwrap();
    assert_eq!(balance(&store, BOOKS, "Cash"), Some(10));
    assert_eq!(balance(&store, BOOKS, "Revenue"), Some(-10));
    assert_eq!(get_transactions(&store, ANN, &BOOKS).unwrap()[0].timestamp, 50);
}
