use ledger_core::errors::KnownErrors;
use ledger_core::event::DomainEvent;
use ledger_core::journal::{JournalEvent, JournalTenantInfo, SharedJournal};
use ledger_core::permissions::Permissions;
use ledger_core::user::{UserEvent, UserState};

fn text(s: &str) -> String {
    s.to_string()
}

fn invited(id: u128, permissions: Permissions, inviting_user: u128, owner: u128) -> UserEvent {
    UserEvent::InvitedToJournal { id, permissions, inviting_user, owner }
}

#[test]
fn a_new_user_is_empty() {
    let user = UserState::new(3);
    assert_eq!(user.id, 3);
    assert_eq!(user.username, "");
    assert_eq!(user.hashed_password, "");
    assert!(user.pending_journal_invites.is_empty());
    assert!(user.accepted_journal_invites.is_empty());
    assert!(user.owned_journals.is_empty());
    assert!(!user.deleted);
}

#[test]
fn created_sets_name_and_credentials() {
    let mut user = UserState::new(3);
    user.apply(UserEvent::Created { username: text("ann"), hashed_password: text("h1") });
    assert_eq!(user.username, "ann");
    assert_eq!(user.hashed_password, "h1");
    user.apply(UserEvent::UsernameUpdated { username: text("anna") });
    assert_eq!(user.username, "anna");
    assert_eq!(user.hashed_password, "h1");
    user.apply(UserEvent::PasswordUpdated { hashed_password: text("h2") });
    assert_eq!(user.username, "anna");
    assert_eq!(user.hashed_password, "h2");
    assert_eq!(user.id, 3);
}

#[test]
fn sessions_come_and_go() {
    let mut user = UserState::new(3);
    user.apply(UserEvent::LoggedIn { session_id: text("s1") });
    user.apply(UserEvent::LoggedIn { session_id: text("s2") });
    user.apply(UserEvent::LoggedIn { session_id: text("s1") });
    assert!(user.authenticated_sessions.contains(&text("s1")));
    assert!(user.authenticated_sessions.contains(&text("s2")));
    user.apply(UserEvent::LoggedOut { session_id: text("s1") });
    assert!(!user.authenticated_sessions.contains(&text("s1")));
    assert!(user.authenticated_sessions.contains(&text("s2")));
    user.apply(UserEvent::LoggedOut { session_id: text("s9") });
    assert!(user.authenticated_sessions.contains(&text("s2")));
}

#[test]
fn an_invitation_is_pending_until_it_is_accepted() {
    let mut user = UserState::new(3);
    let grant = Permissions::read().union(Permissions::append_transaction());
    user.apply(invited(40, grant, 8, 9));
    let info = JournalTenantInfo { tenant_permissions: grant, inviting_user: 8, journal_owner: 9 };
    assert_eq!(user.pending_journal_invites.get(&40), Some(&info));
    assert_eq!(user.accepted_journal_invites.get(&40), None);
    user.apply(UserEvent::AcceptedJournalInvite { id: 40 });
    assert_eq!(user.pending_journal_invites.get(&40), None);
    assert_eq!(user.accepted_journal_invites.get(&40), Some(&info));
    user.apply(UserEvent::RemovedFromJournal { id: 40 });
    assert_eq!(user.pending_journal_invites.get(&40), None);
    assert_eq!(user.accepted_journal_invites.get(&40), None);
}

#[test]
fn accepting_what_is_not_pending_changes_nothing() {
    let mut user = UserState::new(3);
    user.apply(invited(40, Permissions::read(), 8, 9));
    user.apply(UserEvent::AcceptedJournalInvite { id: 41 });
    assert_eq!(user.pending_journal_invites.len(), 1);
    assert!(user.pending_journal_invites.contains_key(&40));
    assert!(user.accepted_journal_invites.is_empty());
}

#[test]
fn declining_removes_the_pending_invitation() {
    let mut user = UserState::new(3);
    user.apply(invited(40, Permissions::read(), 8, 9));
    user.apply(invited(41, Permissions::all(), 8, 9));
    user.apply(UserEvent::DeclinedJournalInvite { id: 40 });
    assert!(!user.pending_journal_invites.contains_key(&40));
    assert!(user.pending_journal_invites.contains_key(&41));
    assert!(user.accepted_journal_invites.is_empty());
    user.apply(UserEvent::AcceptedJournalInvite { id: 40 });
    assert!(user.accepted_journal_invites.is_empty());
}

#[test]
fn a_later_invitation_overwrites_the_pending_one() {
    let mut user = UserState::new(3);
    user.apply(invited(40, Permissions::read(), 8, 9));
    user.apply(invited(40, Permissions::all(), 7, 9));
    user.apply(UserEvent::AcceptedJournalInvite { id: 40 });
    assert_eq!(
        user.accepted_journal_invites.get(&40),
        Some(&JournalTenantInfo {
            tenant_permissions: Permissions::all(),
            inviting_user: 7,
            journal_owner: 9
        })
    );
}

#[test]
fn created_journals_are_owned() {
    let mut user = UserState::new(3);
    user.apply(UserEvent::CreatedJournal { id: 50 });
    user.apply(UserEvent::CreatedJournal { id: 51 });
    user.apply(UserEvent::CreatedJournal { id: 50 });
    assert_eq!(user.owned_journals.len(), 2);
    let mut ids = user.owned_journal_ids();
    ids.sort();
    assert_eq!(ids, vec![50, 51]);
}

#[test]
fn accepted_invites_are_listed_once_each() {
    let mut user = UserState::new(3);
    user.apply(invited(40, Permissions::read(), 8, 9));
    user.apply(invited(41, Permissions::all(), 8, 10));
    user.apply(invited(42, Permissions::invite(), 8, 10));
    user.apply(UserEvent::AcceptedJournalInvite { id: 40 });
    user.apply(UserEvent::AcceptedJournalInvite { id: 41 });
    let mut invites = user.accepted_invites();
    invites.sort_by_key(|shared| shared.id);
    assert_eq!(
        invites,
        vec![
            SharedJournal {
                id: 40,
                info: JournalTenantInfo {
                    tenant_permissions: Permissions::read(),
                    inviting_user: 8,
                    journal_owner: 9
                }
            },
            SharedJournal {
                id: 41,
                info: JournalTenantInfo {
                    tenant_permissions: Permissions::all(),
                    inviting_user: 8,
                    journal_owner: 10
                }
            },
        ]
    );
    let both = user.journal_invites();
    assert_eq!(both.shared, user.accepted_journal_invites);
    assert_eq!(both.pending, user.pending_journal_invites);
    assert_eq!(both.shared.len(), 2);
    assert_eq!(both.pending.len(), 1);
    assert!(both.pending.contains_key(&42));
}

#[test]
fn the_default_states_are_the_new_states_without_identifier() {
    let user = UserState::default();
    assert_eq!(user.id, 0);
    assert_eq!(user.username, "");
    assert!(user.owned_journals.is_empty());
    let journal = ledger_core::journal::JournalState::default();
    assert_eq!(journal.id, 0);
    assert_eq!(journal.accounts.len(), 0);
    assert_eq!(Permissions::default(), Permissions::empty());
}

#[test]
fn the_tombstone_of_a_user_blocks_no_later_event() {
    let mut user = UserState::new(3);
    user.apply(UserEvent::Deleted);
    assert!(user.deleted);
    user.apply(UserEvent::UsernameUpdated { username: text("late") });
    assert!(user.deleted);
    assert_eq!(user.username, "late");
}

#[test]
fn user_from_events_folds_in_order() {
    let user = UserState::from_events(
        3,
        vec![
            UserEvent::Created { username: text("ann"), hashed_password: text("h1") },
            UserEvent::LoggedIn { session_id: text("s1") },
            UserEvent::UsernameUpdated { username: text("anna") },
            UserEvent::LoggedOut { session_id: text("s1") },
            UserEvent::LoggedIn { session_id: text("s2") },
        ],
    );
    assert_eq!(user.id, 3);
    assert_eq!(user.username, "anna");
    assert!(!user.authenticated_sessions.contains(&text("s1")));
    assert!(user.authenticated_sessions.contains(&text("s2")));
}

#[test]
fn folding_twice_gives_the_same_user() {
    let events = || {
        vec![
            UserEvent::Created { username: text("ann"), hashed_password: text("h1") },
            invited(40, Permissions::read(), 8, 9),
            UserEvent::AcceptedJournalInvite { id: 40 },
            UserEvent::CreatedJournal { id: 50 },
            UserEvent::LoggedIn { session_id: text("s1") },
        ]
    };
    let first = UserState::from_events(3, events());
    let second = UserState::from_events(3, events());
    assert_eq!(first.id, second.id);
    assert_eq!(first.username, second.username);
    assert_eq!(first.hashed_password, second.hashed_password);
    assert_eq!(first.pending_journal_invites, second.pending_journal_invites);
    assert_eq!(first.accepted_journal_invites, second.accepted_journal_invites);
    assert_eq!(first.owned_journals, second.owned_journals);
    assert_eq!(first.deleted, second.deleted);
    assert_eq!(
        first.authenticated_sessions.contains(&text("s1")),
        second.authenticated_sessions.contains(&text("s1"))
    );
}

#[test]
fn a_journal_event_in_a_user_replay_is_a_type_mismatch() {
    let events = vec![
        DomainEvent::User(UserEvent::LoggedIn { session_id: text("s1") }),
        DomainEvent::Journal(JournalEvent::Deleted),
    ];
    match UserState::from_stored_events(3, events) {
        Err(error) => assert_eq!(error, KnownErrors::TypeMismatch),
        Ok(_) => panic!("the replay must fail"),
    }
    let fine = vec![DomainEvent::User(UserEvent::LoggedIn { session_id: text("s1") })];
    let user = UserState::from_stored_events(3, fine).unwrap();
    assert!(user.authenticated_sessions.contains(&text("s1")));
}
