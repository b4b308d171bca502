use ledger_core::permissions::Permissions;

#[test]
fn each_capability_has_its_own_bit() {
    assert_eq!(Permissions::read().bits(), 1);
    assert_eq!(Permissions::add_account().bits(), 2);
    assert_eq!(Permissions::append_transaction().bits(), 4);
    assert_eq!(Permissions::invite().bits(), 8);
    assert_eq!(Permissions::delete().bits(), 16);
    assert_eq!(Permissions::empty().bits(), 0);
    assert_eq!(Permissions::all().bits(), 31);
}

#[test]
fn union_holds_both_capabilities() {
    let both = Permissions::read().union(Permissions::append_transaction());
    assert_eq!(both.bits(), 5);
    assert!(both.contains(Permissions::read()));
    assert!(both.contains(Permissions::append_transaction()));
    assert!(!both.contains(Permissions::add_account()));
    assert!(both.contains(Permissions::empty()));
    assert!(!both.contains(Permissions::all()));
}

#[test]
fn intersection_keeps_what_both_hold() {
    let left = Permissions::read().union(Permissions::invite());
    let right = Permissions::invite().union(Permissions::delete());
    assert_eq!(left.intersection(right), Permissions::invite());
    assert!(Permissions::read().intersection(Permissions::delete()).is_empty());
}

#[test]
fn from_bits_refuses_unknown_bits() {
    assert_eq!(Permissions::from_bits(5).map(|p| p.bits()), Some(5));
    assert_eq!(Permissions::from_bits(31), Some(Permissions::all()));
    assert_eq!(Permissions::from_bits(32), None);
    assert_eq!(Permissions::from_bits(0xffff), None);
    assert_eq!(Permissions::from_bits_truncate(0xffff), Permissions::all());
    assert_eq!(Permissions::from_bits_truncate(36), Permissions::append_transaction());
}

#[test]
fn first_missing_names_the_lowest_capability_not_held() {
    let held = Permissions::read().union(Permissions::append_transaction());
    let wanted = Permissions::all();
    assert_eq!(held.first_missing(wanted), Some(Permissions::add_account()));
    assert_eq!(held.first_missing(held), None);
    assert_eq!(held.first_missing(Permissions::empty()), None);
    assert_eq!(
        Permissions::all().first_missing(Permissions::delete()),
        None
    );
    assert_eq!(
        Permissions::empty().first_missing(Permissions::delete().union(Permissions::invite())),
        Some(Permissions::invite())
    );
}

#[test]
fn flags_lists_single_capabilities_lowest_first() {
    let set = Permissions::delete()
        .union(Permissions::read())
        .union(Permissions::append_transaction());
    assert_eq!(
        set.flags(),
        vec![
            Permissions::read(),
            Permissions::append_transaction(),
            Permissions::delete()
        ]
    );
    assert_eq!(Permissions::empty().flags(), Vec::<Permissions>::new());
    assert_eq!(Permissions::all().flags().len(), 5);
}
