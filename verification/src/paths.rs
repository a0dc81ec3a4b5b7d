//! Filesystem paths for PokeDumpster's databases.
//!
//! ```text
//! $PKDUMP_HOME/                     # default ~/.pkdump
//!   shared.sqlite                   # the catalog, ATTACHed by every tenant
//!   registry.sqlite                 # handle → database_id
//!   tenants/
//!     collection.sqlite             # tenant `collection` (the single-user default)
//!     <database_id>.sqlite          # one file per registered user, named by ULID
//! ```
//!
//! The data directory itself is read from the environment by the caller and
//! handed in as `home`; everything here is a calculation on strings. A
//! *handle* (a name a person chose) is validated by [`validate_tenant_name`];
//! a *database id* (an id the registry minted) by [`validate_database_id`],
//! and only a value that passes becomes a path component.

use vstd::prelude::*;
use crate::error::DbError;
use vstd::string::StringSliceAdditionalSpecFns;
use vstd::utf8::encode_utf8;
use crate::text::{cat, cat3, chars_of, owned, join_exec, join, is_ascii_lower, is_ascii_digit, is_ascii_upper, debug_str, debug_char, debug_text, debug_char_text};

verus! {

/// Directory under the data dir holding one database per tenant.
pub const TENANTS_DIR: &'static str = "tenants";

/// Maximum tenant-name length, in bytes.
pub const MAX_TENANT_NAME: usize = 32;

/// A canonical ULID is 26 characters of Crockford base32.
pub const DATABASE_ID_LEN: usize = 26;

/// A character a tenant name may contain: `a-z 0-9 - _`.
pub open spec fn handle_char(c: char) -> bool {
    is_ascii_lower(c) || is_ascii_digit(c) || c == '-' || c == '_'
}

/// A byte that may start a tenant name: `a-z 0-9`.
pub open spec fn handle_first_byte(b: u8) -> bool {
    (97 <= b && b <= 122) || (48 <= b && b <= 57)
}

/// A valid handle: non-empty, at most 32 bytes of UTF-8, starting with a
/// lowercase letter or digit, and made only of `a-z 0-9 - _`.
pub open spec fn valid_handle(s: Seq<char>) -> bool {
    let b = encode_utf8(s);
    &&& 0 < b.len() <= 32
    &&& handle_first_byte(b[0])
    &&& forall|i: int| 0 <= i < s.len() ==> handle_char(#[trigger] s[i])
}

/// A valid tenant name: see [`valid_handle`].
pub open spec fn valid_tenant_name(name: &str) -> bool {
    valid_handle(name@)
}

/// Crockford base32: the digits and the uppercase letters minus `I L O U`.
pub open spec fn crockford_byte(b: u8) -> bool {
    ||| 48 <= b && b <= 57
    ||| 65 <= b && b <= 72
    ||| b == 74 || b == 75
    ||| b == 77 || b == 78
    ||| 80 <= b && b <= 84
    ||| 86 <= b && b <= 90
}

/// A character of Crockford base32 as a ULID is spelt: `0-9` and the
/// uppercase letters without `I L O U`.
pub open spec fn crockford_char(c: char) -> bool {
    (c as u32) < 128 && crockford_byte(c as u8)
}

/// A canonical ULID: 26 characters, every one of them in the Crockford
/// alphabet.
pub open spec fn valid_id_chars(s: Seq<char>) -> bool {
    &&& s.len() == 26
    &&& forall|i: int| 0 <= i < s.len() ==> crockford_char(#[trigger] s[i])
}

/// A valid database id: a canonical ULID.
pub open spec fn valid_database_id(id: &str) -> bool {
    valid_id_chars(id@)
}

/// `name` followed by `.sqlite`.
pub open spec fn sqlite_file(name: Seq<char>) -> Seq<char> {
    name + ".sqlite"@
}

/// The shared catalog's path under `home`.
pub open spec fn spec_shared_db_path(home: Seq<char>) -> Seq<char> {
    join(home, "shared.sqlite"@)
}

/// The tenants directory under `home`.
pub open spec fn spec_tenants_dir(home: Seq<char>) -> Seq<char> {
    join(home, "tenants"@)
}

/// The registry database's path under `home`.
pub open spec fn spec_registry_db_path(home: Seq<char>) -> Seq<char> {
    join(home, "registry.sqlite"@)
}

/// The path of the collection named by `name` under `dir`.
pub open spec fn spec_db_file(dir: Seq<char>, name: Seq<char>) -> Seq<char> {
    join(dir, sqlite_file(name))
}

fn is_handle_char(c: char) -> (r: bool)
    ensures
        r == handle_char(c),
{
    let u = c as u32;
    (97 <= u && u <= 122) || (48 <= u && u <= 57) || c == '-' || c == '_'
}

fn is_crockford(b: u8) -> (r: bool)
    ensures
        r == crockford_byte(b),
{
    (48 <= b && b <= 57) || (65 <= b && b <= 72) || b == 74 || b == 75 || b == 77 || b == 78 || (
    80 <= b && b <= 84) || (86 <= b && b <= 90)
}

/// `prefix`, the `{:?}` form of `name`, then `suffix`.
fn env_err(prefix: &str, name: &str, suffix: &str) -> (e: DbError)
    ensures
        e is Env && e->Env_0@ == prefix@ + debug_text(name@) + suffix@,
{
    let quoted = debug_str(name);
    DbError::Env(cat3(prefix, quoted.as_str(), suffix))
}

/// `prefix`, the `{:?}` form of `name`, ` contains `, the `{:?}` form of
/// `bad`, then `suffix`.
fn contains_err(prefix: &str, name: &str, bad: char, suffix: &str) -> (e: DbError)
    ensures
        e is Env && e->Env_0@ == prefix@ + debug_text(name@) + " contains "@ + debug_char_text(bad) + suffix@,
{
    let quoted = debug_str(name);
    let mut m = cat3(prefix, quoted.as_str(), " contains ");
    let c = debug_char(bad);
    m.append(c.as_str());
    m.append(suffix);
    DbError::Env(m)
}

/// Reject anything that would not be safe as both a filename and an S3
/// replica-path component: `[a-z0-9][a-z0-9_-]{0,31}`.
pub fn validate_tenant_name(name: &str) -> (r: Result<(), DbError>)
    ensures
        r is Ok <==> valid_tenant_name(name),
        r matches Err(e) ==> e is Env,
        name.spec_bytes().len() == 0 ==> (r matches Err(e) && e->Env_0@ == "tenant name is empty"@),
        name.spec_bytes().len() > 32 ==> (r matches Err(e) && e->Env_0@ == "tenant name "@ + debug_text(name@)
            + " is longer than 32 characters"@),
        0 < name.spec_bytes().len() <= 32 && !handle_first_byte(name.spec_bytes()[0]) ==> (r matches Err(e)
            && e->Env_0@ == "tenant name "@ + debug_text(name@) + " must start with a lowercase letter or digit"@),
        0 < name.spec_bytes().len() <= 32 && handle_first_byte(name.spec_bytes()[0]) && r is Err ==> (r matches Err(
            e,
        ) && exists|i: int|
            0 <= i < name@.len() && !handle_char(#[trigger] name@[i]) && (forall|j: int|
                0 <= j < i ==> handle_char(name@[j])) && e->Env_0@ == "tenant name "@ + debug_text(name@)
                + " contains "@ + debug_char_text(name@[i]) + "; allowed: a-z 0-9 - _"@),
{
    let bytes = name.as_bytes();
    if bytes.len() == 0 {
        return Err(DbError::Env(owned("tenant name is empty")));
    }
    if bytes.len() > MAX_TENANT_NAME {
        return Err(env_err("tenant name ", name, " is longer than 32 characters"));
    }
    let first = bytes[0];
    if !((97 <= first && first <= 122) || (48 <= first && first <= 57)) {
        return Err(
            env_err("tenant name ", name, " must start with a lowercase letter or digit"),
        );
    }
    let chars = chars_of(name);
    let mut i: usize = 0;
    while i < chars.len()
        invariant
            chars@ == name@,
            0 < name.spec_bytes().len() <= 32,
            handle_first_byte(name.spec_bytes()[0]),
            i <= chars@.len(),
            forall|j: int| 0 <= j < i ==> handle_char(#[trigger] name@[j]),
        decreases chars.len() - i,
    {
        if !is_handle_char(chars[i]) {
            return Err(contains_err("tenant name ", name, chars[i], "; allowed: a-z 0-9 - _"));
        }
        i = i + 1;
    }
    Ok(())
}

fn is_crockford_char(c: char) -> (r: bool)
    ensures
        r == crockford_char(c),
{
    let u = c as u32;
    u < 128 && is_crockford(u as u8)
}

proof fn lemma_ascii_char(c: char)
    requires
        (c as u32) < 128,
    ensures
        '\0' <= c <= '\u{7f}',
{
    assert((c as int) < 128);
    assert(('\u{7f}' as int) == 127);
    assert(('\0' as int) == 0);
}

/// Ids whose characters are all Crockford letters are ASCII: as many bytes
/// as characters.
proof fn lemma_crockford_bytes(id: &str)
    requires
        forall|i: int| 0 <= i < id@.len() ==> crockford_char(#[trigger] id@[i]),
    ensures
        id.spec_bytes().len() == id@.len(),
{
    assert(vstd::utf8::is_ascii_chars(id@)) by {
        assert forall|i: int| 0 <= i < id@.len() implies '\0' <= #[trigger] id@[i] <= '\u{7f}' by {
            assert(crockford_char(id@[i]));
            lemma_ascii_char(id@[i]);
        }
    }
    vstd::utf8::is_ascii_chars_encode_utf8(id@);
}

/// Reject anything that is not a canonical ULID as the registry mints them:
/// first a length other than 26 bytes, then the first character outside
/// the Crockford alphabet, each an environment error naming the id.
pub fn validate_database_id(id: &str) -> (r: Result<(), DbError>)
    ensures
        r is Ok <==> valid_database_id(id),
        r matches Err(e) ==> e is Env,
        id.spec_bytes().len() != 26 ==> (r matches Err(e) && e->Env_0@ == "database id "@ + debug_text(id@)
            + " is not 26 characters"@),
        id.spec_bytes().len() == 26 && r is Err ==> (r matches Err(e) && exists|i: int|
            0 <= i < id@.len() && !crockford_char(#[trigger] id@[i]) && (forall|j: int|
                0 <= j < i ==> crockford_char(id@[j])) && e->Env_0@ == "database id "@ + debug_text(id@)
                + " contains "@ + debug_char_text(id@[i]) + "; expected Crockford base32"@),
{
    if id.as_bytes().len() != DATABASE_ID_LEN {
        proof {
            if forall|i: int| 0 <= i < id@.len() ==> crockford_char(#[trigger] id@[i]) {
                lemma_crockford_bytes(id);
            }
        }
        return Err(env_err("database id ", id, " is not 26 characters"));
    }
    let chars = chars_of(id);
    let mut i: usize = 0;
    while i < chars.len()
        invariant
            chars@ == id@,
            id.spec_bytes().len() == 26,
            i <= chars@.len(),
            forall|j: int| 0 <= j < i ==> crockford_char(#[trigger] id@[j]),
        decreases chars.len() - i,
    {
        if !is_crockford_char(chars[i]) {
            return Err(contains_err("database id ", id, chars[i], "; expected Crockford base32"));
        }
        i = i + 1;
    }
    proof {
        lemma_crockford_bytes(id);
    }
    Ok(())
}

/// The data directory, from the values of `$PKDUMP_HOME` and `$HOME`
/// (`None` where unset): `$PKDUMP_HOME` if set, else `$HOME/.pkdump`, else
/// an environment error.
pub fn pkdump_home(pkdump_home_var: Option<String>, home_var: Option<String>) -> (r: Result<String, DbError>)
    ensures
        pkdump_home_var matches Some(d) ==> r == Ok::<String, DbError>(d),
        pkdump_home_var is None && home_var is Some ==> (r matches Ok(p) && p@ == join(home_var.unwrap()@, ".pkdump"@)),
        pkdump_home_var is None && home_var is None ==> (r matches Err(e) && e is Env && e->Env_0@
            == "neither PKDUMP_HOME nor HOME is set"@),
{
    match pkdump_home_var {
        Some(d) => Ok(d),
        None => match home_var {
            Some(h) => Ok(join_exec(h.as_str(), ".pkdump")),
            None => Err(DbError::Env(owned("neither PKDUMP_HOME nor HOME is set"))),
        },
    }
}

/// Path to the shared catalog database under the data dir `home`.
pub fn shared_db_path(home: &str) -> (r: String)
    ensures
        r@ == spec_shared_db_path(home@),
{
    join_exec(home, "shared.sqlite")
}

/// The directory holding every tenant's collection database.
pub fn tenants_dir(home: &str) -> (r: String)
    ensures
        r@ == spec_tenants_dir(home@),
{
    join_exec(home, TENANTS_DIR)
}

/// Path to the user registry database, at the data root.
pub fn registry_db_path(home: &str) -> (r: String)
    ensures
        r@ == spec_registry_db_path(home@),
{
    join_exec(home, "registry.sqlite")
}

fn db_file(dir: &str, name: &str) -> (r: String)
    ensures
        r@ == spec_db_file(dir@, name@),
{
    let f = cat(name, ".sqlite");
    join_exec(dir, f.as_str())
}

/// Path to a tenant's collection database, named by *handle*: validates
/// the name, touches nothing.
pub fn tenant_db_path(home: &str, name: &str) -> (r: Result<String, DbError>)
    ensures
        r is Ok <==> valid_tenant_name(name),
        r matches Ok(p) ==> p@ == spec_db_file(spec_tenants_dir(home@), name@),
        r matches Err(e) ==> e is Env,
{
    validate_tenant_name(name)?;
    let dir = tenants_dir(home);
    Ok(db_file(dir.as_str(), name))
}

/// A tenant directory plus an issued `database_id` → that user's collection
/// database. The only way a tenant database path is built at request time.
pub fn tenant_db_file(dir: &str, database_id: &str) -> (r: Result<String, DbError>)
    ensures
        r is Ok <==> valid_database_id(database_id),
        r matches Ok(p) ==> p@ == spec_db_file(dir@, database_id@),
        r matches Err(e) ==> e is Env,
{
    validate_database_id(database_id)?;
    Ok(db_file(dir, database_id))
}

/// Path to the collection database named by an opaque `database_id`, under
/// the tenants directory of `home`.
pub fn tenant_db_path_for_id(home: &str, database_id: &str) -> (r: Result<String, DbError>)
    ensures
        r is Ok <==> valid_database_id(database_id),
        r matches Ok(p) ==> p@ == spec_db_file(spec_tenants_dir(home@), database_id@),
        r matches Err(e) ==> e is Env,
{
    let dir = tenants_dir(home);
    tenant_db_file(dir.as_str(), database_id)
}

/// Where a tenant's collection database lived before the `tenants/`
/// layout: `<home>/<name>.sqlite`, beside the catalog.
pub fn legacy_user_db_path(home: &str, name: &str) -> (r: Result<String, DbError>)
    ensures
        r is Ok <==> valid_tenant_name(name),
        r matches Ok(p) ==> p@ == spec_db_file(home@, name@),
        r matches Err(e) ==> e is Env,
{
    validate_tenant_name(name)?;
    Ok(db_file(home, name))
}

/// Path to the collection database the application should open for `name`.
///
/// `tenant_file_exists` and `legacy_file_exists` report whether the file at
/// [`tenant_db_path`] and at [`legacy_user_db_path`] exist. If the tenant
/// path has no file but the legacy one does, the database has not been
/// adopted and this fails rather than returning a path SQLite would create
/// as an empty database.
pub fn user_db_path(
    home: &str,
    name: &str,
    tenant_file_exists: bool,
    legacy_file_exists: bool,
) -> (r: Result<String, DbError>)
    ensures
        r is Ok <==> valid_tenant_name(name) && (tenant_file_exists || !legacy_file_exists),
        r matches Ok(p) ==> p@ == spec_db_file(spec_tenants_dir(home@), name@),
        r matches Err(e) ==> e is Env,
        valid_tenant_name(name) && !tenant_file_exists && legacy_file_exists ==> (r matches Err(e)
            && e->Env_0@ == "collection database for tenant "@ + debug_text(name@)
            + " is still at the pre-tenants location "@ + spec_db_file(home@, name@)
            + " and has not been adopted into "@ + spec_tenants_dir(home@) + ". Run `pkdump tenant adopt "@
            + name@ + "` (see deploy/TENANTS.md)."@),
{
    let path = tenant_db_path(home, name)?;
    if !tenant_file_exists && legacy_file_exists {
        let legacy = legacy_user_db_path(home, name)?;
        let quoted = debug_str(name);
        let mut msg = cat3("collection database for tenant ", quoted.as_str(), " is still at the pre-tenants location ");
        msg.append(legacy.as_str());
        msg.append(" and has not been adopted into ");
        let dir = tenants_dir(home);
        msg.append(dir.as_str());
        msg.append(". Run `pkdump tenant adopt ");
        msg.append(name);
        msg.append("` (see deploy/TENANTS.md).");
        return Err(DbError::Env(msg));
    }
    Ok(path)
}

/// A valid tenant name contains no path separator, no dot, no uppercase
/// letter, and does not start with `-` or `_`: it can only ever name a file
/// directly inside the directory it is joined to.
pub proof fn lemma_valid_tenant_name_is_a_plain_component(name: &str)
    requires
        valid_tenant_name(name),
    ensures
        forall|i: int|
            0 <= i < name@.len() ==> {
                let c = #[trigger] name@[i];
                c != '/' && c != '\\' && c != '.' && !is_ascii_upper(c)
            },
        name.spec_bytes()[0] != 45u8 && name.spec_bytes()[0] != 95u8,
{
    assert forall|i: int| 0 <= i < name@.len() implies {
        let c = #[trigger] name@[i];
        c != '/' && c != '\\' && c != '.' && !is_ascii_upper(c)
    } by {
        assert(handle_char(name@[i]));
    }
}

/// A valid database id contains no path separator and no dot: the alphabet
/// holds none, so a value that passes can only name a sibling inside the
/// tenants directory.
pub proof fn lemma_valid_database_id_is_a_plain_component(id: &str)
    requires
        valid_database_id(id),
    ensures
        forall|i: int|
            0 <= i < id@.len() ==> {
                let c = #[trigger] id@[i];
                c != '/' && c != '\\' && c != '.'
            },
{
    assert forall|i: int| 0 <= i < id@.len() implies {
        let c = #[trigger] id@[i];
        c != '/' && c != '\\' && c != '.'
    } by {
        assert(crockford_char(id@[i]));
    }
}

} // verus!
