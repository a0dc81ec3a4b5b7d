use pkdump_db::clock::Clock;
use pkdump_db::error::DbError;
use pkdump_db::paths::validate_tenant_name;
use pkdump_db::registry::{
    delete, detach, find, from_rows, identity_add, identity_delete_all, identity_list,
    identity_remove, identity_roster, insert, insert_user, list, lookup, normalise_email, rename,
    unregister, IdentityBinding, Registry, User, UserState,
};

fn registry() -> (Registry, Clock) {
    (Registry::new(), Clock::wall())
}

#[test]
fn insert_then_lookup() {
    let (mut reg, mut clock) = registry();
    let created = insert(&mut reg, "alice", &mut clock).unwrap();
    assert_eq!(created.handle, "alice");
    assert_eq!(created.state, UserState::Active);
    assert_eq!(created.database_id.len(), 26);
    assert!(created
        .database_id
        .chars()
        .all(|c| c.is_ascii_uppercase() || c.is_ascii_digit()));
    assert_eq!(lookup(&reg, "alice"), Some(created));
    assert_eq!(lookup(&reg, "bob"), None);
}

#[test]
fn the_handle_never_names_a_file() {
    let (mut reg, mut clock) = registry();
    insert(&mut reg, "alice", &mut clock).unwrap();
    for hostile in ["../../etc/passwd", "../alice", "alice/../bob", "/etc/shadow", "alice\0"] {
        assert_eq!(lookup(&reg, hostile), None, "{hostile:?}");
        assert!(insert(&mut reg, hostile, &mut clock).is_err(), "{hostile:?}");
    }
}

#[test]
fn one_active_user_per_handle_by_schema() {
    let (mut reg, mut clock) = registry();
    insert(&mut reg, "alice", &mut clock).unwrap();
    let err = insert(&mut reg, "alice", &mut clock).unwrap_err();
    assert!(matches!(err, DbError::Conflict(_)), "{err:?}");
    // Bypassing the clock and the minting: a second active alice is still refused.
    assert!(insert_user(&mut reg, "alice", "SOMEOTHERID".into(), "2026-08-08T00:00:00Z".into()).is_err());
}

#[test]
fn a_database_id_is_the_primary_key() {
    let (mut reg, mut clock) = registry();
    let alice = insert(&mut reg, "alice", &mut clock).unwrap();
    assert!(
        insert_user(&mut reg, "bob", alice.database_id.clone(), "2026-08-08T00:00:00Z".into()).is_err(),
        "the schema must enforce database_id uniqueness"
    );
}

#[test]
fn state_is_constrained_by_schema() {
    let rows = vec![(
        "SOMEID".to_string(),
        "alice".to_string(),
        "2026-08-08T00:00:00Z".to_string(),
        "banished".to_string(),
        None,
    )];
    assert!(from_rows(rows, vec![]).is_err(), "state must be constrained to the two values");
}

#[test]
fn the_check_and_the_validator_agree() {
    let (mut reg, _clock) = registry();
    let cases: Vec<(&str, bool)> = vec![
        ("collection", true),
        ("alice", true),
        ("a", true),
        ("tenant-2", true),
        ("tenant_2", true),
        ("9lives", true),
        ("", false),
        ("Alice", false),
        ("../escape", false),
        ("a/b", false),
        ("a\\b", false),
        ("-flag", false),
        ("_leading", false),
        ("has space", false),
        ("dot.sqlite", false),
        ("ünïcode", false),
        ("aaaaaaaaaaaaaaaaaaaaaaaaaaaaaaaaa", false),
    ];
    for (i, (handle, valid)) in cases.iter().enumerate() {
        let written = insert_user(&mut reg, handle, format!("ID{i:024}"), "2026-08-08T00:00:00Z".into());
        assert_eq!(written.is_ok(), *valid, "{handle:?}: {written:?}");
        assert_eq!(validate_tenant_name(handle).is_ok(), *valid, "{handle:?}");
        if let Err(e) = written {
            assert!(matches!(e, DbError::Env(_)), "{handle:?} must be refused as a bad name: {e:?}");
        }
    }
}

#[test]
fn rename_does_not_touch_the_database_id() {
    let (mut reg, mut clock) = registry();
    let before = insert(&mut reg, "alice", &mut clock).unwrap();
    let after = rename(&mut reg, "alice", "alicia").unwrap();
    assert_eq!(after.handle, "alicia");
    assert_eq!(after.database_id, before.database_id);
    assert_eq!(after.created_at, before.created_at);
    assert_eq!(after.state, before.state);
    assert_eq!(lookup(&reg, "alice"), None);
    assert_eq!(lookup(&reg, "alicia"), Some(after));
}

#[test]
fn rename_rejects_a_taken_or_missing_handle() {
    let (mut reg, mut clock) = registry();
    insert(&mut reg, "alice", &mut clock).unwrap();
    insert(&mut reg, "bob", &mut clock).unwrap();
    let taken = rename(&mut reg, "alice", "bob").unwrap_err();
    assert!(matches!(taken, DbError::Conflict(_)), "{taken:?}");
    let missing = rename(&mut reg, "carol", "carla").unwrap_err();
    assert!(matches!(missing, DbError::NotFound(_)), "{missing:?}");
    assert!(lookup(&reg, "alice").is_some());
    assert!(lookup(&reg, "bob").is_some());
    assert!(rename(&mut reg, "alice", "../bob").is_err());
}

#[test]
fn detach_keeps_the_row_and_releases_the_handle() {
    let (mut reg, mut clock) = registry();
    let alice = insert(&mut reg, "alice", &mut clock).unwrap();
    assert_eq!(alice.retired_at, None);
    let detached = detach(&mut reg, "alice", &mut clock).unwrap();
    assert_eq!(detached.state, UserState::Detached);
    assert_eq!(detached.database_id, alice.database_id);
    assert_eq!(detached.created_at, alice.created_at);
    assert!(detached.retired_at.is_some(), "{detached:?}");
    assert_eq!(lookup(&reg, "alice"), None);
    assert_eq!(detached.handle, "alice");
    assert_eq!(find(&reg, &alice.database_id), Some(detached));
    assert!(matches!(detach(&mut reg, "alice", &mut clock).unwrap_err(), DbError::NotFound(_)));
}

#[test]
fn handle_is_reusable_and_gets_new_storage() {
    let (mut reg, mut clock) = registry();
    let first = insert(&mut reg, "alice", &mut clock).unwrap();
    detach(&mut reg, "alice", &mut clock).unwrap();
    let second = insert(&mut reg, "alice", &mut clock).unwrap();
    assert_ne!(second.database_id, first.database_id);
    assert_eq!(second.state, UserState::Active);
    assert_eq!(lookup(&reg, "alice"), Some(second.clone()));
    let all = list(&reg);
    assert_eq!(all.len(), 2);
    assert_eq!(all.iter().filter(|u| u.state == UserState::Active).count(), 1);
    assert!(all.iter().any(|u| u.state == UserState::Detached
        && u.database_id == first.database_id
        && u.handle == "alice"));
}

#[test]
fn a_handle_may_be_retired_any_number_of_times() {
    let (mut reg, mut clock) = registry();
    insert(&mut reg, "alice", &mut clock).unwrap();
    detach(&mut reg, "alice", &mut clock).unwrap();
    insert(&mut reg, "alice", &mut clock).unwrap();
    detach(&mut reg, "alice", &mut clock).unwrap();
    let live = insert(&mut reg, "alice", &mut clock).unwrap();
    let all = list(&reg);
    assert_eq!(all.len(), 3);
    assert!(all.iter().all(|u| u.handle == "alice"), "{all:?}");
    assert_eq!(
        all.iter().filter(|u| u.state == UserState::Active).collect::<Vec<_>>(),
        vec![&live]
    );
    for u in all.iter().filter(|u| u.state == UserState::Detached) {
        validate_tenant_name(&u.handle).unwrap();
        assert!(u.retired_at.is_some(), "{u:?}");
    }
    let ids: std::collections::HashSet<&str> = all.iter().map(|u| u.database_id.as_str()).collect();
    assert_eq!(ids.len(), 3);
}

#[test]
fn find_maps_a_database_back_to_its_owner() {
    let (mut reg, mut clock) = registry();
    let alice = insert(&mut reg, "alice", &mut clock).unwrap();
    assert_eq!(find(&reg, &alice.database_id), Some(alice));
    assert_eq!(find(&reg, "NOSUCHDATABASE"), None);
}

#[test]
fn delete_refuses_an_active_user() {
    let (mut reg, mut clock) = registry();
    let alice = insert(&mut reg, "alice", &mut clock).unwrap();
    let err = delete(&mut reg, &alice.database_id).unwrap_err();
    assert!(matches!(err, DbError::Conflict(_)), "{err:?}");
    assert_eq!(lookup(&reg, "alice"), Some(alice.clone()));
    detach(&mut reg, "alice", &mut clock).unwrap();
    let gone = delete(&mut reg, &alice.database_id).unwrap();
    assert_eq!(gone.database_id, alice.database_id);
    assert_eq!(gone.state, UserState::Detached);
    assert_eq!(find(&reg, &alice.database_id), None);
    assert_eq!(list(&reg), Vec::<User>::new());
    assert!(matches!(delete(&mut reg, &alice.database_id).unwrap_err(), DbError::NotFound(_)));
}

#[test]
fn unregister_drops_an_active_row() {
    let (mut reg, mut clock) = registry();
    let alice = insert(&mut reg, "alice", &mut clock).unwrap();
    assert!(delete(&mut reg, &alice.database_id).is_err());
    let gone = unregister(&mut reg, &alice.database_id).unwrap();
    assert_eq!(gone, alice);
    assert_eq!(lookup(&reg, "alice"), None);
    assert_eq!(find(&reg, &alice.database_id), None);
    assert_eq!(list(&reg), Vec::<User>::new());
    assert!(insert(&mut reg, "alice", &mut clock).is_ok());
    assert!(matches!(unregister(&mut reg, &alice.database_id).unwrap_err(), DbError::NotFound(_)));
}

#[test]
fn list_is_in_creation_order() {
    let (mut reg, mut clock) = registry();
    let a = insert(&mut reg, "alice", &mut clock).unwrap();
    let b = insert(&mut reg, "bob", &mut clock).unwrap();
    let ids: Vec<String> = list(&reg).into_iter().map(|u| u.database_id).collect();
    let mut sorted = vec![a.database_id, b.database_id];
    sorted.sort();
    assert_eq!(ids, sorted);
}

const EMAIL_CASES: &[(&str, bool)] = &[
    ("alice@example.com", true),
    ("user@domain.org", true),
    ("a@b", true),
    ("Alice@example.com", false),
    ("ALICE@EXAMPLE.COM", false),
    ("alice@EXAMPLE.COM", false),
    ("aliceB@example.com", false),
    ("", false),
];

#[test]
fn normalise_email_produces_check_passing_values() {
    for (email, already) in EMAIL_CASES.iter() {
        match normalise_email(email) {
            None => assert!(email.is_empty()),
            Some(n) => {
                assert!(!n.is_empty());
                assert_eq!(n, n.to_lowercase());
                assert_eq!(n == *email, *already, "{email:?}");
            }
        }
    }
    assert!(normalise_email("").is_none(), "empty email must return None");
}

#[test]
fn identity_add_binds_email_to_active_tenant() {
    let (mut reg, mut clock) = registry();
    let alice = insert(&mut reg, "alice", &mut clock).unwrap();
    let binding = identity_add(&mut reg, &alice.database_id, "Alice@Example.com", None, None, &mut clock).unwrap();
    assert_eq!(binding.email, "alice@example.com");
    assert_eq!(binding.database_id, alice.database_id);
    assert_eq!(binding.sub, None);
    let listed = identity_list(&reg, &alice.database_id);
    assert_eq!(listed, vec![binding]);
}

#[test]
fn identity_add_refuses_a_second_active_tenant_for_one_email() {
    let (mut reg, mut clock) = registry();
    let alice = insert(&mut reg, "alice", &mut clock).unwrap();
    let bob = insert(&mut reg, "bob", &mut clock).unwrap();
    identity_add(&mut reg, &alice.database_id, "shared@example.com", None, None, &mut clock).unwrap();
    let err = identity_add(&mut reg, &bob.database_id, "shared@example.com", None, None, &mut clock).unwrap_err();
    assert!(matches!(err, DbError::Conflict(_)), "{err:?}");
}

#[test]
fn identity_email_freed_after_detach() {
    let (mut reg, mut clock) = registry();
    let alice = insert(&mut reg, "alice", &mut clock).unwrap();
    identity_add(&mut reg, &alice.database_id, "alice@example.com", None, None, &mut clock).unwrap();
    detach(&mut reg, "alice", &mut clock).unwrap();
    let alice2 = insert(&mut reg, "alice", &mut clock).unwrap();
    identity_add(&mut reg, &alice2.database_id, "alice@example.com", None, None, &mut clock)
        .expect("same email must be bindable after the first tenant is detached");
}

#[test]
fn identity_add_allows_several_emails_per_tenant() {
    let (mut reg, mut clock) = registry();
    let alice = insert(&mut reg, "alice", &mut clock).unwrap();
    identity_add(&mut reg, &alice.database_id, "alice@example.com", None, None, &mut clock).unwrap();
    identity_add(&mut reg, &alice.database_id, "alice@work.example.com", None, None, &mut clock).unwrap();
    assert_eq!(identity_list(&reg, &alice.database_id).len(), 2);
}

#[test]
fn identity_remove_deletes_one_binding() {
    let (mut reg, mut clock) = registry();
    let alice = insert(&mut reg, "alice", &mut clock).unwrap();
    identity_add(&mut reg, &alice.database_id, "alice@example.com", None, None, &mut clock).unwrap();
    identity_add(&mut reg, &alice.database_id, "alice@work.com", None, None, &mut clock).unwrap();
    let removed = identity_remove(&mut reg, &alice.database_id, "alice@example.com").unwrap();
    assert_eq!(removed.email, "alice@example.com");
    let remaining = identity_list(&reg, &alice.database_id);
    assert_eq!(remaining.len(), 1);
    assert_eq!(remaining[0].email, "alice@work.com");
    assert!(matches!(
        identity_remove(&mut reg, &alice.database_id, "alice@example.com").unwrap_err(),
        DbError::NotFound(_)
    ));
}

#[test]
fn identity_roster_lists_all_tenants() {
    let (mut reg, mut clock) = registry();
    let alice = insert(&mut reg, "alice", &mut clock).unwrap();
    let bob = insert(&mut reg, "bob", &mut clock).unwrap();
    identity_add(&mut reg, &alice.database_id, "alice@example.com", None, None, &mut clock).unwrap();
    identity_add(&mut reg, &bob.database_id, "bob@example.com", None, None, &mut clock).unwrap();
    assert_eq!(identity_roster(&reg).len(), 2);
}

#[test]
fn identity_delete_all_clears_a_tenants_bindings() {
    let (mut reg, mut clock) = registry();
    let alice = insert(&mut reg, "alice", &mut clock).unwrap();
    identity_add(&mut reg, &alice.database_id, "alice@example.com", None, None, &mut clock).unwrap();
    identity_add(&mut reg, &alice.database_id, "alice@work.com", None, None, &mut clock).unwrap();
    assert_eq!(identity_delete_all(&mut reg, &alice.database_id), 2);
    assert!(identity_list(&reg, &alice.database_id).is_empty());
    assert_eq!(identity_delete_all(&mut reg, &alice.database_id), 0);
}

#[test]
fn registry_delete_removes_identity_rows() {
    let (mut reg, mut clock) = registry();
    let alice = insert(&mut reg, "alice", &mut clock).unwrap();
    identity_add(&mut reg, &alice.database_id, "alice@example.com", None, None, &mut clock).unwrap();
    detach(&mut reg, "alice", &mut clock).unwrap();
    delete(&mut reg, &alice.database_id).unwrap();
    assert!(identity_list(&reg, &alice.database_id).is_empty());
}

#[test]
fn unregister_is_refused_while_bindings_remain() {
    let (mut reg, mut clock) = registry();
    let alice = insert(&mut reg, "alice", &mut clock).unwrap();
    identity_add(&mut reg, &alice.database_id, "alice@example.com", None, None, &mut clock).unwrap();
    assert!(matches!(unregister(&mut reg, &alice.database_id).unwrap_err(), DbError::Sqlite(_)));
    assert!(find(&reg, &alice.database_id).is_some());
}

#[test]
fn identity_add_refuses_unknown_detached_and_empty() {
    let (mut reg, mut clock) = registry();
    assert!(matches!(
        identity_add(&mut reg, "NOSUCH", "a@b", None, None, &mut clock).unwrap_err(),
        DbError::NotFound(_)
    ));
    let alice = insert(&mut reg, "alice", &mut clock).unwrap();
    assert!(matches!(
        identity_add(&mut reg, &alice.database_id, "", None, None, &mut clock).unwrap_err(),
        DbError::Env(_)
    ));
    detach(&mut reg, "alice", &mut clock).unwrap();
    assert!(matches!(
        identity_add(&mut reg, &alice.database_id, "a@b", Some("sub"), Some("iss"), &mut clock).unwrap_err(),
        DbError::Conflict(_)
    ));
}

#[test]
fn rows_load_back_into_a_registry() {
    let rows = vec![
        ("01ARZ3NDEKTSV4RRFFQ69G5FAV".to_string(), "alice".to_string(), "t0".to_string(), "active".to_string(), None),
        ("01ARZ3NDEKTSV4RRFFQ69G5FAW".to_string(), "alice".to_string(), "t1".to_string(), "detached".to_string(), Some("t2".to_string())),
    ];
    let ids = vec![IdentityBinding {
        database_id: "01ARZ3NDEKTSV4RRFFQ69G5FAV".into(),
        email: "alice@example.com".into(),
        sub: None,
        issuer: None,
        created_at: "t3".into(),
    }];
    let reg = from_rows(rows.clone(), ids).unwrap();
    assert_eq!(lookup(&reg, "alice").unwrap().database_id, "01ARZ3NDEKTSV4RRFFQ69G5FAV");
    // Two active alices break the schema.
    let mut two = rows;
    two[1].3 = "active".into();
    two[1].4 = None;
    assert!(from_rows(two, vec![]).is_err());
}

#[test]
fn registry_messages_name_what_they_refer_to() {
    let (mut reg, mut clock) = registry();
    let alice = insert(&mut reg, "alice", &mut clock).unwrap();
    assert!(pkdump_db::paths::validate_database_id(&alice.database_id).is_ok());
    assert_eq!(
        insert(&mut reg, "alice", &mut clock).unwrap_err(),
        DbError::Conflict("handle \"alice\" is already registered".into())
    );
    assert_eq!(
        detach(&mut reg, "bob", &mut clock).unwrap_err(),
        DbError::NotFound("no user with handle \"bob\"".into())
    );
    assert_eq!(
        delete(&mut reg, &alice.database_id).unwrap_err(),
        DbError::Conflict("user \"alice\" is still active — detach them before forgetting the mapping".into())
    );
    assert_eq!(
        find(&reg, "NOPE").map(|u| u.handle),
        None
    );
    assert_eq!(
        unregister(&mut reg, "NOPE").unwrap_err(),
        DbError::NotFound("no user with database id \"NOPE\"".into())
    );
    assert_eq!(
        identity_remove(&mut reg, &alice.database_id, "Nobody@Example.com").unwrap_err(),
        DbError::NotFound(format!("no identity binding for \"nobody@example.com\" on database {:?}", alice.database_id))
    );
}
