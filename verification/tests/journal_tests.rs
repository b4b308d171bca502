use ledger_core::errors::KnownErrors;
use ledger_core::event::DomainEvent;
use ledger_core::journal::{BalanceUpdate, JournalEvent, JournalState, Transaction};
use ledger_core::user::UserEvent;

fn text(s: &str) -> String {
    s.to_string()
}

fn line(account: &str, cents: i64) -> BalanceUpdate {
    BalanceUpdate { account_name: text(account), changed_by: cents }
}

fn entry(author: u128, lines: Vec<BalanceUpdate>) -> JournalEvent {
    JournalEvent::AddedEntry { transaction: Transaction { author, updates: lines } }
}

fn stored(events: Vec<JournalEvent>) -> Vec<DomainEvent> {
    events.into_iter().map(DomainEvent::Journal).collect()
}

#[test]
fn a_new_journal_is_empty() {
    let journal = JournalState::new(9);
    assert_eq!(journal.id, 9);
    assert_eq!(journal.name, "");
    assert_eq!(journal.owner, 0);
    assert_eq!(journal.accounts.len(), 0);
    assert!(journal.transactions.is_empty());
    assert!(!journal.deleted);
}

#[test]
fn created_sets_name_and_owner() {
    let mut journal = JournalState::new(9);
    journal.apply(JournalEvent::Created { name: text("Household"), owner: 4 });
    assert_eq!(journal.id, 9);
    assert_eq!(journal.name, "Household");
    assert_eq!(journal.owner, 4);
    journal.apply(JournalEvent::Renamed { name: text("Home") });
    assert_eq!(journal.name, "Home");
    assert_eq!(journal.owner, 4);
}

#[test]
fn an_entry_changes_each_named_account() {
    let mut journal = JournalState::new(1);
    journal.apply(JournalEvent::CreatedAccount { account_name: text("Cash") });
    journal.apply(JournalEvent::CreatedAccount { account_name: text("Revenue") });
    journal.apply(entry(7, vec![line("Cash", 1000), line("Revenue", -1000)]));
    journal.apply(entry(7, vec![line("Cash", 500), line("Revenue", -500)]));
    assert_eq!(journal.accounts.get(&text("Cash")), Some(1500));
    assert_eq!(journal.accounts.get(&text("Revenue")), Some(-1500));
    assert_eq!(journal.transactions.len(), 2);
    assert_eq!(
        journal.transactions[1],
        Transaction { author: 7, updates: vec![line("Cash", 500), line("Revenue", -500)] }
    );
}

#[test]
fn an_entry_may_name_one_account_twice() {
    let mut journal = JournalState::new(1);
    journal.apply(entry(7, vec![line("Cash", 10), line("Cash", 5), line("Rent", -15)]));
    assert_eq!(journal.accounts.get(&text("Cash")), Some(15));
    assert_eq!(journal.accounts.get(&text("Rent")), Some(-15));
}

#[test]
fn creating_an_account_again_resets_its_balance() {
    let mut journal = JournalState::new(1);
    journal.apply(JournalEvent::CreatedAccount { account_name: text("Cash") });
    journal.apply(entry(7, vec![line("Cash", 40), line("Rent", -40)]));
    journal.apply(JournalEvent::CreatedAccount { account_name: text("Cash") });
    assert_eq!(journal.accounts.get(&text("Cash")), Some(0));
    assert_eq!(journal.accounts.get(&text("Rent")), Some(-40));
    assert_eq!(journal.accounts.len(), 2);
}

#[test]
fn deleting_an_account_drops_it_whatever_its_balance() {
    let mut journal = JournalState::new(1);
    journal.apply(entry(7, vec![line("Cash", 40), line("Rent", -40)]));
    journal.apply(JournalEvent::DeletedAccount { account_name: text("Cash") });
    assert_eq!(journal.accounts.get(&text("Cash")), None);
    assert_eq!(journal.accounts.get(&text("Rent")), Some(-40));
    journal.apply(JournalEvent::DeletedAccount { account_name: text("Nowhere") });
    assert_eq!(journal.accounts.len(), 1);
}

#[test]
fn an_entry_opens_an_account_that_is_unknown() {
    let mut journal = JournalState::new(1);
    journal.apply(entry(7, vec![line("Cash", 25), line("Gifts", -25)]));
    assert_eq!(journal.accounts.get(&text("Cash")), Some(25));
    assert_eq!(journal.accounts.get(&text("Gifts")), Some(-25));
    assert_eq!(journal.accounts.len(), 2);
}

#[test]
fn the_tombstone_blocks_no_later_event() {
    let mut journal = JournalState::new(1);
    journal.apply(JournalEvent::Deleted);
    assert!(journal.deleted);
    journal.apply(JournalEvent::Renamed { name: text("Still here") });
    journal.apply(entry(7, vec![line("Cash", 1), line("Rent", -1)]));
    assert!(journal.deleted);
    assert_eq!(journal.name, "Still here");
    assert_eq!(journal.accounts.get(&text("Cash")), Some(1));
    assert_eq!(journal.transactions.len(), 1);
}

#[test]
fn journal_from_events_folds_in_order() {
    let events = stored(vec![
        JournalEvent::Created { name: text("Books"), owner: 3 },
        JournalEvent::CreatedAccount { account_name: text("Cash") },
        entry(3, vec![line("Cash", 1000), line("Revenue", -1000)]),
        JournalEvent::Renamed { name: text("Ledger") },
        entry(3, vec![line("Cash", 500), line("Revenue", -500)]),
    ]);
    let journal = JournalState::from_events(12, events).unwrap();
    assert_eq!(journal.id, 12);
    assert_eq!(journal.name, "Ledger");
    assert_eq!(journal.owner, 3);
    assert_eq!(journal.accounts.get(&text("Cash")), Some(1500));
    assert_eq!(journal.accounts.get(&text("Revenue")), Some(-1500));
    assert_eq!(journal.transactions.len(), 2);
}

#[test]
fn from_events_of_nothing_is_the_new_journal() {
    let journal = JournalState::from_events(5, Vec::new()).unwrap();
    assert_eq!(journal.id, 5);
    assert_eq!(journal.name, "");
    assert_eq!(journal.accounts.len(), 0);
}

#[test]
fn folding_twice_gives_the_same_journal() {
    let events = || {
        stored(vec![
            JournalEvent::Created { name: text("Books"), owner: 3 },
            entry(3, vec![line("Cash", 10), line("Rent", -10)]),
            JournalEvent::DeletedAccount { account_name: text("Rent") },
            JournalEvent::Deleted,
        ])
    };
    let first = JournalState::from_events(1, events()).unwrap();
    let second = JournalState::from_events(1, events()).unwrap();
    assert_eq!(first.id, second.id);
    assert_eq!(first.name, second.name);
    assert_eq!(first.owner, second.owner);
    assert_eq!(first.deleted, second.deleted);
    assert_eq!(first.transactions, second.transactions);
    assert_eq!(first.accounts.accounts(), second.accounts.accounts());
    assert_eq!(first.accounts.get(&text("Cash")), Some(10));
    assert_eq!(first.accounts.get(&text("Rent")), None);
}

#[test]
fn a_user_event_in_a_journal_replay_is_a_type_mismatch() {
    let events = vec![
        DomainEvent::Journal(JournalEvent::Created { name: text("Books"), owner: 3 }),
        DomainEvent::User(UserEvent::Deleted),
        DomainEvent::Journal(JournalEvent::Deleted),
    ];
    match JournalState::from_events(1, events) {
        Err(error) => assert_eq!(error, KnownErrors::TypeMismatch),
        Ok(_) => panic!("the replay must fail"),
    }
}

#[test]
fn a_balance_that_cannot_be_held_ends_the_replay() {
    let events = stored(vec![
        entry(3, vec![line("Cash", i64::MAX), line("Rent", -i64::MAX)]),
        entry(3, vec![line("Cash", 1), line("Rent", -1)]),
    ]);
    match JournalState::from_events(1, events) {
        Err(error) => assert_eq!(error, KnownErrors::InvalidInput),
        Ok(_) => panic!("the replay must fail"),
    }
    let fits = stored(vec![
        entry(3, vec![line("Cash", i64::MAX), line("Rent", -i64::MAX)]),
        entry(3, vec![line("Cash", -1), line("Rent", 1)]),
    ]);
    let journal = JournalState::from_events(1, fits).unwrap();
    assert_eq!(journal.accounts.get(&text("Cash")), Some(i64::MAX - 1));
    assert_eq!(journal.accounts.get(&text("Rent")), Some(-i64::MAX + 1));
}

#[test]
fn the_first_failure_decides_the_error() {
    let events = vec![
        DomainEvent::Journal(entry(3, vec![line("Cash", i64::MAX)])),
        DomainEvent::Journal(entry(3, vec![line("Cash", 1)])),
        DomainEvent::User(UserEvent::Deleted),
    ];
    match JournalState::from_events(1, events) {
        Err(error) => assert_eq!(error, KnownErrors::InvalidInput),
        Ok(_) => panic!("the replay must fail"),
    }
}

#[test]
fn clones_of_events_are_equal() {
    let event = entry(3, vec![line("Cash", 10), line("Rent", -10)]);
    assert_eq!(event.clone(), event);
    let plain = JournalEvent::Created { name: text("Books"), owner: 3 };
    assert_eq!(plain.clone(), plain);
}

#[test]
fn checked_apply_gives_the_journal_after_the_event() {
    let journal = JournalState::new(1);
    let journal = journal
        .checked_apply(entry(7, vec![line("Cash", i64::MAX), line("Rent", i64::MIN)]))
        .unwrap();
    assert_eq!(journal.accounts.get(&text("Cash")), Some(i64::MAX));
    assert_eq!(journal.accounts.get(&text("Rent")), Some(i64::MIN));
    let journal = journal
        .checked_apply(JournalEvent::Renamed { name: text("Books") })
        .unwrap();
    assert_eq!(journal.name, "Books");
    assert!(journal.checked_apply(entry(7, vec![line("Cash", 1)])).is_none());
}

#[test]
fn checked_apply_refuses_a_balance_that_cannot_be_held_on_the_way() {
    let journal = JournalState::new(1)
        .checked_apply(entry(7, vec![line("Cash", i64::MAX)]))
        .unwrap();
    let refused = journal.checked_apply(entry(7, vec![line("Cash", 1), line("Cash", -5)]));
    assert!(refused.is_none());
    let journal = JournalState::new(1)
        .checked_apply(entry(7, vec![line("Cash", i64::MAX)]))
        .unwrap();
    let fine = journal.checked_apply(entry(7, vec![line("Cash", -5), line("Cash", 1)])).unwrap();
    assert_eq!(fine.accounts.get(&text("Cash")), Some(i64::MAX - 4));
}
