use pkdump_db::error::DbError;
use pkdump_db::paths::{
    legacy_user_db_path, shared_db_path, tenant_db_file, tenant_db_path, tenant_db_path_for_id,
    pkdump_home, user_db_path, validate_database_id, validate_tenant_name, DATABASE_ID_LEN,
};
use pkdump_db::registry::mint_database_id;

const HOME: &str = "/home/u/.pkdump";

#[test]
fn tenant_names_are_validated() {
    for good in ["collection", "alice", "a", "tenant-2", "tenant_2", "9lives"] {
        assert!(validate_tenant_name(good).is_ok(), "{good} should be valid");
    }
    for bad in [
        "",
        "Alice",
        "../escape",
        "a/b",
        "a\\b",
        "-flag",
        "_leading",
        "has space",
        "dot.sqlite",
        "ünïcode",
        "aaaaaaaaaaaaaaaaaaaaaaaaaaaaaaaaa",
    ] {
        assert!(validate_tenant_name(bad).is_err(), "{bad:?} should be rejected");
    }
}

#[test]
fn tenant_db_lives_under_tenants_dir() {
    assert_eq!(
        tenant_db_path(HOME, "alice").unwrap(),
        format!("{HOME}/tenants/alice.sqlite")
    );
    assert_eq!(shared_db_path(HOME), format!("{HOME}/shared.sqlite"));
}

#[test]
fn only_an_issued_database_id_becomes_a_path() {
    let dir = "/data/tenants";
    let id = mint_database_id();
    assert_eq!(tenant_db_file(dir, &id).unwrap(), format!("{dir}/{id}.sqlite"));
    for not_an_id in [
        "alice",
        "collection",
        "../../etc/passwd",
        "../shared",
        "a/b",
        "alice\0",
        "",
        &id.to_lowercase(),
        &id[..25],
        &format!("{id}X"),
        &format!("{}I{}", &id[..13], &id[14..]),
        &format!("{}/{}", &id[..13], &id[14..]),
    ] {
        assert!(
            validate_database_id(not_an_id).is_err(),
            "{not_an_id:?} was accepted as a database id"
        );
        assert!(tenant_db_file(dir, not_an_id).is_err(), "{not_an_id:?}");
    }
}

#[test]
fn traversal_cannot_escape_the_tenants_dir() {
    assert!(tenant_db_path(HOME, "../../etc/passwd").is_err());
    assert!(legacy_user_db_path(HOME, "../../etc/passwd").is_err());
    assert!(tenant_db_path_for_id(HOME, "../../etc/passwd").is_err());
}

#[test]
fn a_database_id_names_a_file_under_tenants() {
    let id = mint_database_id();
    assert_eq!(
        tenant_db_path_for_id(HOME, &id).unwrap(),
        format!("{HOME}/tenants/{id}.sqlite")
    );
}

#[test]
fn database_ids_are_validated() {
    let good = mint_database_id();
    assert_eq!(good.len(), DATABASE_ID_LEN);
    assert!(validate_database_id(&good).is_ok());
    let pad = |s: &str| format!("{s}{}", "0".repeat(DATABASE_ID_LEN - s.len()));
    for bad in [
        String::new(),
        "0".repeat(DATABASE_ID_LEN - 1),
        "0".repeat(DATABASE_ID_LEN + 1),
        good.to_lowercase(),
        pad("01I"),
        pad("01U"),
        pad("../../etc/passwd"),
        pad("01J."),
        pad("01J/"),
        pad("alice"),
    ] {
        let e = validate_database_id(&bad).unwrap_err();
        assert!(matches!(e, DbError::Env(_)), "{bad:?}");
    }
}

#[test]
fn user_db_path_refuses_an_unadopted_legacy_database() {
    // Nothing anywhere: the tenant path is returned as-is.
    assert_eq!(
        user_db_path(HOME, "collection", false, false).unwrap(),
        format!("{HOME}/tenants/collection.sqlite")
    );
    // A pre-tenants database beside the catalog is not silently shadowed.
    match user_db_path(HOME, "collection", false, true).unwrap_err() {
        DbError::Env(msg) => assert!(msg.contains("pkdump tenant adopt"), "unhelpful error: {msg}"),
        other => panic!("expected an environment error, got {other:?}"),
    }
    // Once adopted, the guard goes quiet.
    assert!(user_db_path(HOME, "collection", true, true).is_ok());
}

fn env_message(e: DbError) -> String {
    match e {
        DbError::Env(m) => m,
        other => panic!("expected an environment error, got {other:?}"),
    }
}

#[test]
fn database_id_of_multibyte_letters_is_refused() {
    // Thirteen two-byte characters make 26 bytes but no Crockford letter.
    let id = "\u{130}".repeat(13);
    assert_eq!(id.len(), DATABASE_ID_LEN);
    let m = env_message(validate_database_id(&id).unwrap_err());
    assert_eq!(m, format!("database id {id:?} contains '\u{130}'; expected Crockford base32"));
}

#[test]
fn database_id_messages_name_the_id_and_the_character() {
    let short = "01J";
    assert_eq!(
        env_message(validate_database_id(short).unwrap_err()),
        "database id \"01J\" is not 26 characters"
    );
    let lower = "01jabcdefghjkmnpqrstvwxyz0";
    assert_eq!(lower.len(), DATABASE_ID_LEN);
    assert_eq!(
        env_message(validate_database_id(lower).unwrap_err()),
        format!("database id {lower:?} contains 'j'; expected Crockford base32")
    );
    let quote = format!("{}\"", "0".repeat(DATABASE_ID_LEN - 1));
    assert_eq!(
        env_message(validate_database_id(&quote).unwrap_err()),
        format!("database id {quote:?} contains '\"'; expected Crockford base32")
    );
}

#[test]
fn tenant_name_messages_name_the_name_and_the_character() {
    assert_eq!(env_message(validate_tenant_name("").unwrap_err()), "tenant name is empty");
    let long = "a".repeat(33);
    assert_eq!(
        env_message(validate_tenant_name(&long).unwrap_err()),
        format!("tenant name {long:?} is longer than 32 characters")
    );
    assert_eq!(
        env_message(validate_tenant_name("-x").unwrap_err()),
        "tenant name \"-x\" must start with a lowercase letter or digit"
    );
    assert_eq!(
        env_message(validate_tenant_name("ab.c").unwrap_err()),
        "tenant name \"ab.c\" contains '.'; allowed: a-z 0-9 - _"
    );
    assert_eq!(
        env_message(validate_tenant_name("a\"b").unwrap_err()),
        "tenant name \"a\\\"b\" contains '\"'; allowed: a-z 0-9 - _"
    );
}

#[test]
fn unadopted_legacy_message_names_both_places_and_the_command() {
    let m = env_message(user_db_path(HOME, "collection", false, true).unwrap_err());
    assert_eq!(
        m,
        format!(
            "collection database for tenant \"collection\" is still at the pre-tenants location \
             {HOME}/collection.sqlite and has not been adopted into {HOME}/tenants. \
             Run `pkdump tenant adopt collection` (see deploy/TENANTS.md)."
        )
    );
}

#[test]
fn a_minted_id_is_a_valid_database_id() {
    for _ in 0..20 {
        let id = mint_database_id();
        assert!(validate_database_id(&id).is_ok(), "{id}");
    }
}

#[test]
fn pkdump_home_prefers_the_variable_then_home() {
    assert_eq!(pkdump_home(Some("/data/pk".to_string()), Some("/home/u".to_string())).unwrap(), "/data/pk");
    assert_eq!(pkdump_home(None, Some("/home/u".to_string())).unwrap(), "/home/u/.pkdump");
    match pkdump_home(None, None).unwrap_err() {
        DbError::Env(m) => assert_eq!(m, "neither PKDUMP_HOME nor HOME is set"),
        other => panic!("expected an environment error, got {other:?}"),
    }
}
