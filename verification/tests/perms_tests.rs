use authcore::perms::{
    AccessControlStore, CREATE, CUSTOM1, CUSTOM2, DEFAULT, FETCH, LIST, MODIFY, NONE, NOTIFY,
    Permissions, READ, ROOT, WRITE, effective_permissions, grant, revoke,
};

#[test]
fn composite_bits_are_literal_unions() {
    assert_eq!(READ, FETCH | LIST | NOTIFY);
    assert_eq!(WRITE, CREATE | MODIFY | READ);
    assert_eq!(ROOT, READ | WRITE | CUSTOM1 | CUSTOM2);
    assert_eq!(DEFAULT, NONE);
    assert_eq!(READ, 7);
    assert_eq!(WRITE, 31);
    assert_eq!(ROOT, 127);
}

#[test]
fn effective_permissions_is_the_union_of_matching_entries() {
    let mut store = AccessControlStore::new();
    grant(&mut store, Permissions::from_bits(FETCH), vec!["alice".to_string()], 10);
    grant(&mut store, Permissions::from_bits(CREATE), vec!["staff".to_string()], 20);
    grant(&mut store, Permissions::from_bits(CUSTOM1), vec!["bob".to_string()], 30);
    assert_eq!(store.last_mod_date, 30);

    let groups = vec!["staff".to_string()];
    let eff = effective_permissions(&store, "alice", &groups);
    assert_eq!(eff.bits, FETCH | CREATE);

    // No matching entry at all yields NONE.
    let none = effective_permissions(&store, "mallory", &Vec::new());
    assert_eq!(none.bits, NONE);
}

#[test]
fn repeated_grants_are_idempotent_and_commutative() {
    let alice = || vec!["alice".to_string()];
    let no_groups: Vec<String> = Vec::new();

    let mut once = AccessControlStore::new();
    grant(&mut once, Permissions::from_bits(CREATE), alice(), 1);
    let mut twice = AccessControlStore::new();
    grant(&mut twice, Permissions::from_bits(CREATE), alice(), 1);
    grant(&mut twice, Permissions::from_bits(CREATE), alice(), 2);
    assert_eq!(
        effective_permissions(&once, "alice", &no_groups).bits,
        effective_permissions(&twice, "alice", &no_groups).bits,
    );

    let mut ab = AccessControlStore::new();
    grant(&mut ab, Permissions::from_bits(CREATE), alice(), 1);
    grant(&mut ab, Permissions::from_bits(NOTIFY), alice(), 2);
    let mut ba = AccessControlStore::new();
    grant(&mut ba, Permissions::from_bits(NOTIFY), alice(), 1);
    grant(&mut ba, Permissions::from_bits(CREATE), alice(), 2);
    assert_eq!(
        effective_permissions(&ab, "alice", &no_groups).bits,
        effective_permissions(&ba, "alice", &no_groups).bits,
    );
}

#[test]
fn separate_grants_match_composite_restricted_to_requested_bits() {
    let alice = || vec!["alice".to_string()];
    let no_groups: Vec<String> = Vec::new();

    let mut separate = AccessControlStore::new();
    grant(&mut separate, Permissions::from_bits(CREATE), alice(), 1);
    grant(&mut separate, Permissions::from_bits(MODIFY), alice(), 2);

    let mut composite = AccessControlStore::new();
    grant(&mut composite, Permissions::from_bits(WRITE), alice(), 1);

    let eff_separate = effective_permissions(&separate, "alice", &no_groups).bits;
    let eff_composite = effective_permissions(&composite, "alice", &no_groups).bits;
    assert_eq!(eff_separate, eff_composite & (CREATE | MODIFY));
    assert_eq!(eff_separate, CREATE | MODIFY);
}

#[test]
fn revoke_removes_exactly_the_matching_entries() {
    let alice = || vec!["alice".to_string()];
    let no_groups: Vec<String> = Vec::new();

    let mut store = AccessControlStore::new();
    grant(&mut store, Permissions::from_bits(CREATE), alice(), 1);
    grant(&mut store, Permissions::from_bits(NOTIFY), alice(), 2);
    grant(&mut store, Permissions::from_bits(CREATE), alice(), 3);

    revoke(&mut store, Permissions::from_bits(CREATE), &alice(), 4);
    assert_eq!(store.last_mod_date, 4);
    assert_eq!(store.list.len(), 1);
    assert_eq!(effective_permissions(&store, "alice", &no_groups).bits, NOTIFY);

    // Revoking an entry granted to someone else changes nothing.
    revoke(&mut store, Permissions::from_bits(NOTIFY), &vec!["bob".to_string()], 5);
    assert_eq!(store.list.len(), 1);
}

#[test]
fn permission_set_operations() {
    let read = Permissions::from_bits(READ);
    let fetch = Permissions::from_bits(FETCH);
    assert!(read.contains(fetch));
    assert!(!fetch.contains(read));
    assert_eq!(fetch.union(Permissions::from_bits(LIST)).bits, FETCH | LIST);
    assert!(Permissions::empty().is_empty());
    assert!(!read.is_empty());
    assert_eq!(Permissions::default().bits, NONE);
}

#[test]
fn group_membership_grants_apply_to_the_subject() {
    let mut store = AccessControlStore::new();
    grant(&mut store, Permissions::from_bits(READ), vec!["admins".to_string()], 1);
    let eff = effective_permissions(&store, "dave", &vec!["admins".to_string()]);
    assert_eq!(eff.bits, READ);
    let eff_outside = effective_permissions(&store, "dave", &vec!["users".to_string()]);
    assert_eq!(eff_outside.bits, NONE);
}
