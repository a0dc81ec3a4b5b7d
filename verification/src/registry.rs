//! The user registry — the table that joins a *handle* to a *database*.
//!
//! A handle is what a request names and a person types; a `database_id` is
//! an opaque ULID, the stem of `tenants/<id>.sqlite`, minted here and never
//! derived from the handle. A released handle recreated later gets a fresh
//! id, so it can never inherit its predecessor's file or replica.
//!
//! [`Registry`] holds the two tables — `user` and `user_identity` — as rows,
//! and [`Registry::wf`] states the constraints the schema puts on them:
//! `database_id` is the primary key, a handle is a valid tenant name, one
//! *active* user per handle, identity bindings point at a user, are keyed by
//! `(database_id, email)`, carry a non-empty email, and one email is bound
//! to at most one active tenant. Every operation keeps them, and refuses —
//! with the error the storage engine's constraint would have produced — what
//! would break them.

use vstd::prelude::*;
use crate::clock::{Clock, now_rfc3339, readable, advanced, spec_rfc3339_of};
use crate::error::DbError;
use crate::paths::{valid_handle, validate_tenant_name, valid_id_chars};
use crate::text::{owned, str_eq, to_lowercase, unicode_lower, chars_of, quoted, debug_text};
use crate::order::{sort_by_key, sorted_by};
use crate::seqs::{lemma_filter_push, lemma_take_push};

verus! {

// ── users ────────────────────────────────────────────────────────────────

/// Whether a registered user is live, or has released their handle.
#[derive(Debug, Clone, Copy, PartialEq, Eq, Structural)]
pub enum UserState {
    /// A live user: resolvable, and their handle is taken.
    Active,
    /// The handle was released; the database and its replica were kept.
    Detached,
}

/// The text stored in `user.state`.
pub open spec fn state_text(s: UserState) -> Seq<char> {
    match s {
        UserState::Active => seq!['a', 'c', 't', 'i', 'v', 'e'],
        UserState::Detached => seq!['d', 'e', 't', 'a', 'c', 'h', 'e', 'd'],
    }
}

impl UserState {
    /// The value stored in `user.state`.
    pub fn as_str(self) -> (r: &'static str)
        ensures
            r@ == state_text(self),
    {
        match self {
            UserState::Active => {
                proof {
                    reveal_strlit("active");
                }
                "active"
            },
            UserState::Detached => {
                proof {
                    reveal_strlit("detached");
                }
                "detached"
            },
        }
    }

    /// Read a stored state back; anything else is an environment error.
    pub fn parse(s: &str) -> (r: Result<UserState, DbError>)
        ensures
            r matches Ok(st) ==> state_text(st) == s@,
            r is Err <==> (s@ != state_text(UserState::Active) && s@ != state_text(
                UserState::Detached,
            )),
            r matches Err(e) ==> e is Env,
    {
        proof {
            reveal_strlit("active");
            reveal_strlit("detached");
            assert("active"@ =~= state_text(UserState::Active));
            assert("detached"@ =~= state_text(UserState::Detached));
        }
        if str_eq(s, "active") {
            Ok(UserState::Active)
        } else if str_eq(s, "detached") {
            Ok(UserState::Detached)
        } else {
            Err(DbError::Env(owned("registry: unknown user state")))
        }
    }
}

/// One row of the registry: who they are, and where their collection lives.
#[derive(Debug, Clone, PartialEq, Eq)]
pub struct User {
    pub database_id: String,
    pub handle: String,
    pub created_at: String,
    pub state: UserState,
    /// When the handle was released. `None` while active.
    pub retired_at: Option<String>,
}

/// A copy of a user row.
pub fn copy_user(u: &User) -> (r: User)
    ensures
        r == *u,
{
    User {
        database_id: u.database_id.clone(),
        handle: u.handle.clone(),
        created_at: u.created_at.clone(),
        state: u.state,
        retired_at: match &u.retired_at {
            Some(s) => Some(s.clone()),
            None => None,
        },
    }
}

/// The columns of a `user` row, as the storage engine hands them over.
pub type UserRow = (String, String, String, String, Option<String>);

/// Turn a stored row into a [`User`]; an unknown state is an error.
pub fn into_user(row: UserRow) -> (r: Result<User, DbError>)
    ensures
        r is Ok <==> (row.3@ == state_text(UserState::Active) || row.3@ == state_text(
            UserState::Detached,
        )),
        r matches Ok(u) ==> u.database_id == row.0 && u.handle == row.1 && u.created_at == row.2
            && state_text(u.state) == row.3@ && u.retired_at == row.4,
        r matches Err(e) ==> e is Env,
{
    let (database_id, handle, created_at, state, retired_at) = row;
    match UserState::parse(state.as_str()) {
        Ok(st) => Ok(User { database_id, handle, created_at, state: st, retired_at }),
        Err(e) => Err(e),
    }
}

/// Row `i` is the active user holding handle `h`.
pub open spec fn active_at(users: Seq<User>, i: int, h: Seq<char>) -> bool {
    0 <= i < users.len() && users[i].state == UserState::Active && users[i].handle@ == h
}

/// Row `i` is the user whose database is `id`.
pub open spec fn id_at(users: Seq<User>, i: int, id: Seq<char>) -> bool {
    0 <= i < users.len() && users[i].database_id@ == id
}

/// Some user's database is `id`.
pub open spec fn has_user(users: Seq<User>, id: Seq<char>) -> bool {
    exists|i: int| id_at(users, i, id)
}

/// The user whose database is `id` is active.
pub open spec fn is_active_user(users: Seq<User>, id: Seq<char>) -> bool {
    exists|i: int| id_at(users, i, id) && users[i].state == UserState::Active
}

/// The active user registered under `h`, if any.
pub open spec fn spec_lookup(users: Seq<User>, h: Seq<char>) -> Option<User> {
    if exists|i: int| active_at(users, i, h) {
        Some(users[choose|i: int| active_at(users, i, h)])
    } else {
        None
    }
}

/// The user whose database is `id`, if any.
pub open spec fn spec_find(users: Seq<User>, id: Seq<char>) -> Option<User> {
    if has_user(users, id) {
        Some(users[choose|i: int| id_at(users, i, id)])
    } else {
        None
    }
}

/// The constraints of the `user` table: `database_id` is the primary key,
/// every handle is a valid tenant name, and no two active users share one.
pub open spec fn users_wf(users: Seq<User>) -> bool {
    &&& forall|i: int, j: int|
        0 <= i < j < users.len() ==> (#[trigger] users[i]).database_id@ != (
        #[trigger] users[j]).database_id@
    &&& forall|i: int| 0 <= i < users.len() ==> valid_handle((#[trigger] users[i]).handle@)
    &&& forall|i: int, j: int|
        0 <= i < j < users.len() && (#[trigger] users[i]).state == UserState::Active && (
        #[trigger] users[j]).state == UserState::Active ==> users[i].handle@ != users[j].handle@
}

// ── identity bindings ────────────────────────────────────────────────────

/// One row of `user_identity`: a verified identity bound to a tenant.
#[derive(Debug, Clone, PartialEq, Eq)]
pub struct IdentityBinding {
    pub database_id: String,
    pub email: String,
    pub sub: Option<String>,
    pub issuer: Option<String>,
    pub created_at: String,
}

/// A copy of a binding.
pub fn copy_binding(b: &IdentityBinding) -> (r: IdentityBinding)
    ensures
        r == *b,
{
    IdentityBinding {
        database_id: b.database_id.clone(),
        email: b.email.clone(),
        sub: match &b.sub {
            Some(s) => Some(s.clone()),
            None => None,
        },
        issuer: match &b.issuer {
            Some(s) => Some(s.clone()),
            None => None,
        },
        created_at: b.created_at.clone(),
    }
}

/// The constraints of `user_identity`: each binding names a registered
/// user, carries a non-empty email, `(database_id, email)` is the key, and
/// an email is bound to at most one active tenant.
pub open spec fn bindings_wf(users: Seq<User>, b: Seq<IdentityBinding>) -> bool {
    &&& forall|k: int| 0 <= k < b.len() ==> has_user(users, (#[trigger] b[k]).database_id@)
    &&& forall|k: int| 0 <= k < b.len() ==> (#[trigger] b[k]).email@.len() > 0
    &&& forall|k: int, l: int|
        0 <= k < l < b.len() ==> !((#[trigger] b[k]).database_id@ == (#[trigger] b[l]).database_id@
            && b[k].email@ == b[l].email@)
    &&& forall|k: int, l: int|
        0 <= k < l < b.len() && (#[trigger] b[k]).email@ == (#[trigger] b[l]).email@
            && is_active_user(users, b[k].database_id@) ==> !is_active_user(users, b[l].database_id@)
}

// ── the registry ─────────────────────────────────────────────────────────

/// The two registry tables.
#[derive(Debug, Clone)]
pub struct Registry {
    pub users: Vec<User>,
    pub identities: Vec<IdentityBinding>,
}

impl Registry {
    /// The schema's constraints hold.
    pub open spec fn wf(&self) -> bool {
        users_wf(self.users@) && bindings_wf(self.users@, self.identities@)
    }

    /// An empty registry.
    pub fn new() -> (r: Registry)
        ensures
            r.wf(),
            r.users@.len() == 0,
            r.identities@.len() == 0,
    {
        Registry { users: Vec::new(), identities: Vec::new() }
    }
}

/// The position of the user whose database is `id`.
fn position_of_id(users: &Vec<User>, id: &str) -> (r: Option<usize>)
    ensures
        r matches Some(i) ==> id_at(users@, i as int, id@),
        r is None ==> !has_user(users@, id@),
{
    let mut i: usize = 0;
    while i < users.len()
        invariant
            i <= users@.len(),
            forall|j: int| 0 <= j < i ==> !id_at(users@, j, id@),
        decreases users.len() - i,
    {
        if str_eq(users[i].database_id.as_str(), id) {
            return Some(i);
        }
        i = i + 1;
    }
    None
}

/// The position of the active user holding `handle`.
fn position_of_active(users: &Vec<User>, handle: &str) -> (r: Option<usize>)
    ensures
        r matches Some(i) ==> active_at(users@, i as int, handle@),
        r is None ==> forall|i: int| !active_at(users@, i, handle@),
{
    let mut i: usize = 0;
    while i < users.len()
        invariant
            i <= users@.len(),
            forall|j: int| 0 <= j < i ==> !active_at(users@, j, handle@),
        decreases users.len() - i,
    {
        if users[i].state == UserState::Active && str_eq(users[i].handle.as_str(), handle) {
            return Some(i);
        }
        i = i + 1;
    }
    None
}

/// With unique ids, the user found at `i` is the one `spec_find` names.
proof fn lemma_found_id(users: Seq<User>, i: int, id: Seq<char>)
    requires
        users_wf(users),
        id_at(users, i, id),
    ensures
        spec_find(users, id) == Some(users[i]),
{
    let c = choose|c: int| id_at(users, c, id);
    assert(id_at(users, c, id));
    if c < i {
        assert(users[c].database_id@ != users[i].database_id@);
    } else if i < c {
        assert(users[i].database_id@ != users[c].database_id@);
    }
}

/// With one active user per handle, the user found at `i` is the one
/// `spec_lookup` names.
proof fn lemma_found_active(users: Seq<User>, i: int, h: Seq<char>)
    requires
        users_wf(users),
        active_at(users, i, h),
    ensures
        spec_lookup(users, h) == Some(users[i]),
{
    let c = choose|c: int| active_at(users, c, h);
    assert(active_at(users, c, h));
    if c < i {
        assert(users[c].handle@ != users[i].handle@);
    } else if i < c {
        assert(users[i].handle@ != users[c].handle@);
    }
}

/// The **active** user registered under `handle`, if any. Detached rows keep
/// their holder's handle but never answer to it.
pub fn lookup(reg: &Registry, handle: &str) -> (r: Option<User>)
    requires
        reg.wf(),
    ensures
        r == spec_lookup(reg.users@, handle@),
{
    match position_of_active(&reg.users, handle) {
        Some(i) => {
            proof {
                lemma_found_active(reg.users@, i as int, handle@);
            }
            Some(copy_user(&reg.users[i]))
        },
        None => None,
    }
}

/// The user whose collection lives in `database_id`, if any.
pub fn find(reg: &Registry, database_id: &str) -> (r: Option<User>)
    requires
        reg.wf(),
    ensures
        r == spec_find(reg.users@, database_id@),
{
    match position_of_id(&reg.users, database_id) {
        Some(i) => {
            proof {
                lemma_found_id(reg.users@, i as int, database_id@);
            }
            Some(copy_user(&reg.users[i]))
        },
        None => None,
    }
}


/// Some active user holds `h`.
pub open spec fn handle_taken(users: Seq<User>, h: Seq<char>) -> bool {
    exists|i: int| active_at(users, i, h)
}

/// A user pushed with an id other than `id` changes nothing about `id`.
proof fn lemma_push_user(users: Seq<User>, u: User, id: Seq<char>)
    requires
        id != u.database_id@,
    ensures
        has_user(users.push(u), id) == has_user(users, id),
        is_active_user(users.push(u), id) == is_active_user(users, id),
{
    let n = users.push(u);
    if has_user(users, id) {
        let i = choose|i: int| id_at(users, i, id);
        assert(id_at(n, i, id));
    }
    if has_user(n, id) {
        let i = choose|i: int| id_at(n, i, id);
        assert(id_at(users, i, id));
    }
    if is_active_user(users, id) {
        let i = choose|i: int| id_at(users, i, id) && users[i].state == UserState::Active;
        assert(id_at(n, i, id) && n[i].state == UserState::Active);
    }
    if is_active_user(n, id) {
        let i = choose|i: int| id_at(n, i, id) && n[i].state == UserState::Active;
        assert(id_at(users, i, id) && users[i].state == UserState::Active);
    }
}

/// Rewriting row `i` without changing its id keeps who has a row; whether
/// the user at `i` is active is whatever the new row says.
proof fn lemma_update_user(users: Seq<User>, i: int, u: User, id: Seq<char>)
    requires
        users_wf(users),
        0 <= i < users.len(),
        u.database_id@ == users[i].database_id@,
    ensures
        has_user(users.update(i, u), id) == has_user(users, id),
        is_active_user(users.update(i, u), id) == (if id == users[i].database_id@ {
            u.state == UserState::Active
        } else {
            is_active_user(users, id)
        }),
{
    let n = users.update(i, u);
    if has_user(users, id) {
        let j = choose|j: int| id_at(users, j, id);
        assert(id_at(n, j, id));
    }
    if has_user(n, id) {
        let j = choose|j: int| id_at(n, j, id);
        assert(id_at(users, j, id));
    }
    if id == users[i].database_id@ {
        assert(id_at(n, i, id));
        if is_active_user(n, id) {
            let j = choose|j: int| id_at(n, j, id) && n[j].state == UserState::Active;
            if j != i {
                assert(users[j].database_id@ == users[i].database_id@);
                if j < i {
                    assert(users[j].database_id@ != users[i].database_id@);
                } else {
                    assert(users[i].database_id@ != users[j].database_id@);
                }
            }
        }
    } else {
        if is_active_user(users, id) {
            let j = choose|j: int| id_at(users, j, id) && users[j].state == UserState::Active;
            assert(j != i);
            assert(id_at(n, j, id) && n[j].state == UserState::Active);
        }
        if is_active_user(n, id) {
            let j = choose|j: int| id_at(n, j, id) && n[j].state == UserState::Active;
            assert(j != i);
            assert(id_at(users, j, id) && users[j].state == UserState::Active);
        }
    }
}

/// The row a successful registration adds.
pub open spec fn new_user(handle: Seq<char>, database_id: String, created_at: String, u: User) -> bool {
    &&& u.handle@ == handle
    &&& u.database_id == database_id
    &&& u.created_at == created_at
    &&& u.state == UserState::Active
    &&& u.retired_at is None
}

/// Register `handle` under the database `database_id`, created at
/// `created_at`. Returns the new row.
///
/// An invalid handle is an environment error. A handle held by an active
/// user, or an id already in the table, is a conflict — the partial unique
/// index and the primary key refuse the row. A handle held only by detached
/// rows is free.
pub fn insert_user(reg: &mut Registry, handle: &str, database_id: String, created_at: String) -> (r: Result<User, DbError>)
    requires
        old(reg).wf(),
    ensures
        final(reg).wf(),
        !valid_handle(handle@) ==> (r matches Err(e) && e is Env),
        valid_handle(handle@) && (handle_taken(old(reg).users@, handle@) || has_user(
            old(reg).users@,
            database_id@,
        )) ==> (r matches Err(e) && e is Conflict),
        r is Ok <==> valid_handle(handle@) && !handle_taken(old(reg).users@, handle@) && !has_user(
            old(reg).users@,
            database_id@,
        ),
        r is Err ==> *final(reg) == *old(reg),
        r matches Ok(u) ==> new_user(handle@, database_id, created_at, u) && final(reg).users@
            == old(reg).users@.push(u) && final(reg).identities@ == old(reg).identities@,
{
    match validate_tenant_name(handle) {
        Err(e) => {
            return Err(e);
        },
        Ok(()) => {},
    }
    if position_of_active(&reg.users, handle).is_some() {
        return Err(DbError::Conflict(quoted("handle ", handle, " is already registered")));
    }
    if position_of_id(&reg.users, database_id.as_str()).is_some() {
        return Err(DbError::Conflict(quoted("handle ", handle, " is already registered")));
    }
    let user = User {
        database_id,
        handle: owned(handle),
        created_at,
        state: UserState::Active,
        retired_at: None,
    };
    let ghost old_users = reg.users@;
    let ghost b = reg.identities@;
    reg.users.push(copy_user(&user));
    proof {
        let n = reg.users@;
        assert(n == old_users.push(user));
        assert forall|k: int| 0 <= k < b.len() implies b[k].database_id@ != user.database_id@ by {
            if b[k].database_id@ == user.database_id@ {
                assert(has_user(old_users, b[k].database_id@));
            }
        }
        assert forall|k: int| 0 <= k < b.len() implies has_user(n, (#[trigger] b[k]).database_id@)
            && is_active_user(n, b[k].database_id@) == is_active_user(old_users, b[k].database_id@) by {
            lemma_push_user(old_users, user, b[k].database_id@);
        }
        assert forall|i: int, j: int|
            0 <= i < j < n.len() && (#[trigger] n[i]).state == UserState::Active && (
            #[trigger] n[j]).state == UserState::Active implies n[i].handle@ != n[j].handle@ by {
            if j == old_users.len() {
                assert(!active_at(old_users, i, handle@));
            }
        }
        assert forall|i: int, j: int|
            0 <= i < j < n.len() implies (#[trigger] n[i]).database_id@ != (#[trigger] n[j]).database_id@ by {
            if j == old_users.len() {
                assert(!id_at(old_users, i, user.database_id@));
            }
        }
    }
    Ok(user)
}

/// Rename the active user holding `from` to `to`. Returns the renamed row.
///
/// Only the handle changes; the row is addressed by its `database_id`, so
/// the database, its replica and the user's history stay where they are.
/// An invalid `to` is an environment error, an unknown `from` is not found,
/// and a `to` held by another active user is a conflict.
pub fn rename(reg: &mut Registry, from: &str, to: &str) -> (r: Result<User, DbError>)
    requires
        old(reg).wf(),
    ensures
        final(reg).wf(),
        r is Err ==> *final(reg) == *old(reg),
        !valid_handle(to@) ==> (r matches Err(e) && e is Env),
        valid_handle(to@) && spec_lookup(old(reg).users@, from@) is None ==> (r matches Err(e) && e is NotFound),
        valid_handle(to@) && (spec_lookup(old(reg).users@, from@) matches Some(f)
            && spec_lookup(old(reg).users@, to@) matches Some(t) && t.database_id@
            != f.database_id@) ==> (r matches Err(e) && e is Conflict),
        r is Ok <==> valid_handle(to@) && (spec_lookup(old(reg).users@, from@) matches Some(f)
            && !(spec_lookup(old(reg).users@, to@) matches Some(t) && t.database_id@
            != f.database_id@)),
        r matches Ok(u) ==> {
            &&& spec_lookup(old(reg).users@, from@) matches Some(f)
            &&& u == (User { handle: u.handle, ..f })
            &&& u.handle@ == to@
            &&& exists|i: int|
                active_at(old(reg).users@, i, from@) && final(reg).users@ == old(
                    reg,
                ).users@.update(i, u)
            &&& final(reg).identities@ == old(reg).identities@
        },
{
    match validate_tenant_name(to) {
        Err(e) => {
            return Err(e);
        },
        Ok(()) => {},
    }
    let i = match position_of_active(&reg.users, from) {
        Some(i) => i,
        None => {
            proof {
                assert(!(exists|i: int| active_at(old(reg).users@, i, from@)));
            }
            return Err(DbError::NotFound(quoted("no user with handle ", from, "")));
        },
    };
    proof {
        lemma_found_active(reg.users@, i as int, from@);
    }
    match position_of_active(&reg.users, to) {
        Some(j) => {
            proof {
                lemma_found_active(reg.users@, j as int, to@);
            }
            if j != i {
                assert(reg.users@[j as int].database_id@ != reg.users@[i as int].database_id@) by {
                    if j < i {
                    } else {
                    }
                }
                return Err(DbError::Conflict(quoted("handle ", to, " is already registered")));
            }
        },
        None => {
            proof {
                assert(!(exists|k: int| active_at(old(reg).users@, k, to@)));
            }
        },
    }
    let old_row = copy_user(&reg.users[i]);
    let renamed = User { handle: owned(to), ..old_row };
    let ghost old_users = reg.users@;
    let ghost b = reg.identities@;
    reg.users.set(i, copy_user(&renamed));
    proof {
        let n = reg.users@;
        assert(n == old_users.update(i as int, renamed));
        assert forall|k: int| 0 <= k < b.len() implies has_user(n, (#[trigger] b[k]).database_id@)
            && is_active_user(n, b[k].database_id@) == is_active_user(old_users, b[k].database_id@) by {
            lemma_update_user(old_users, i as int, renamed, b[k].database_id@);
        }
        assert forall|p: int, q: int|
            0 <= p < q < n.len() && (#[trigger] n[p]).state == UserState::Active && (
            #[trigger] n[q]).state == UserState::Active implies n[p].handle@ != n[q].handle@ by {
            if p == i as int {
                assert(!active_at(old_users, q, to@));
            } else if q == i as int {
                assert(!active_at(old_users, p, to@));
            } else {
                assert(old_users[p].handle@ != old_users[q].handle@);
            }
        }
        assert forall|p: int, q: int|
            0 <= p < q < n.len() implies (#[trigger] n[p]).database_id@ != (#[trigger] n[q]).database_id@ by {
            assert(old_users[p].database_id@ != old_users[q].database_id@);
        }
        assert(active_at(old_users, i as int, from@));
    }
    Ok(renamed)
}

/// The row a detach leaves: the same user, released at `retired_at`.
pub open spec fn detached(f: User, retired_at: String) -> User {
    User { state: UserState::Detached, retired_at: Some(retired_at), ..f }
}

/// Release `handle` and keep the database: the row goes to `Detached`,
/// stamped `retired_at`, and keeps the holder's real handle. Returns the
/// detached row. An unknown handle is not found.
pub fn detach_user(reg: &mut Registry, handle: &str, retired_at: String) -> (r: Result<User, DbError>)
    requires
        old(reg).wf(),
    ensures
        final(reg).wf(),
        r is Err ==> *final(reg) == *old(reg),
        r is Ok <==> spec_lookup(old(reg).users@, handle@) is Some,
        r matches Err(e) ==> e is NotFound,
        r matches Ok(u) ==> {
            &&& spec_lookup(old(reg).users@, handle@) matches Some(f)
            &&& u == detached(f, retired_at)
            &&& exists|i: int|
                active_at(old(reg).users@, i, handle@) && final(reg).users@ == old(
                    reg,
                ).users@.update(i, u)
            &&& final(reg).identities@ == old(reg).identities@
            &&& spec_lookup(final(reg).users@, handle@) is None
        },
{
    let i = match position_of_active(&reg.users, handle) {
        Some(i) => i,
        None => {
            proof {
                assert(!(exists|i: int| active_at(old(reg).users@, i, handle@)));
            }
            return Err(DbError::NotFound(quoted("no user with handle ", handle, "")));
        },
    };
    proof {
        lemma_found_active(reg.users@, i as int, handle@);
    }
    let old_row = copy_user(&reg.users[i]);
    let gone = User { state: UserState::Detached, retired_at: Some(retired_at), ..old_row };
    let ghost old_users = reg.users@;
    let ghost b = reg.identities@;
    reg.users.set(i, copy_user(&gone));
    proof {
        let n = reg.users@;
        assert(n == old_users.update(i as int, gone));
        assert forall|k: int| 0 <= k < b.len() implies has_user(n, (#[trigger] b[k]).database_id@)
            && (is_active_user(n, b[k].database_id@) ==> is_active_user(old_users, b[k].database_id@)) by {
            lemma_update_user(old_users, i as int, gone, b[k].database_id@);
        }
        assert forall|p: int, q: int|
            0 <= p < q < n.len() && (#[trigger] n[p]).state == UserState::Active && (
            #[trigger] n[q]).state == UserState::Active implies n[p].handle@ != n[q].handle@ by {
            assert(old_users[p].handle@ != old_users[q].handle@);
        }
        assert forall|p: int, q: int|
            0 <= p < q < n.len() implies (#[trigger] n[p]).database_id@ != (#[trigger] n[q]).database_id@ by {
            assert(old_users[p].database_id@ != old_users[q].database_id@);
        }
        assert forall|k: int, l: int|
            0 <= k < l < b.len() && (#[trigger] b[k]).email@ == (#[trigger] b[l]).email@
                && is_active_user(n, b[k].database_id@) implies !is_active_user(n, b[l].database_id@) by {
            lemma_update_user(old_users, i as int, gone, b[k].database_id@);
            lemma_update_user(old_users, i as int, gone, b[l].database_id@);
        }
        assert forall|j: int| !active_at(n, j, handle@) by {
            if active_at(n, j, handle@) {
                assert(j != i);
                if j < i {
                    assert(old_users[j].handle@ != old_users[i as int].handle@);
                } else {
                    assert(old_users[i as int].handle@ != old_users[j].handle@);
                }
            }
        }
        assert(active_at(old_users, i as int, handle@));
    }
    Ok(gone)
}

/// Calls `ulid::Ulid::generate` and renders it with `Ulid::to_string`,
/// which encodes the 128 bits as 26 characters of the Crockford alphabet
/// `0123456789ABCDEFGHJKMNPQRSTVWXYZ`. The value itself is random and
/// time-prefixed; nothing more is claimed of it.
#[verifier::external_body]
pub fn mint_database_id() -> (r: String)
    ensures
        valid_id_chars(r@),
{
    ulid::Ulid::generate().to_string()
}

/// Register a new user: validate the handle, mint their `database_id`,
/// stamp the creation time from `clock`, and insert the row (see
/// [`insert_user`]). The handle is validated before anything is minted or
/// read from the clock.
pub fn insert(reg: &mut Registry, handle: &str, clock: &mut Clock) -> (r: Result<User, DbError>)
    requires
        old(reg).wf(),
        readable(*old(clock)),
    ensures
        final(reg).wf(),
        r is Err ==> *final(reg) == *old(reg),
        !valid_handle(handle@) ==> (r matches Err(e) && e is Env) && *final(clock) == *old(clock),
        valid_handle(handle@) ==> *final(clock) == advanced(*old(clock)),
        valid_handle(handle@) && handle_taken(old(reg).users@, handle@) ==> (r matches Err(e)
            && e is Conflict),
        r matches Ok(u) ==> {
            &&& u.handle@ == handle@
            &&& u.state == UserState::Active
            &&& u.retired_at is None
            &&& valid_id_chars(u.database_id@)
            &&& !has_user(old(reg).users@, u.database_id@)
            &&& old(clock).pinned matches Some(p) ==> u.created_at@ == spec_rfc3339_of(p.next)
            &&& final(reg).users@ == old(reg).users@.push(u)
            &&& final(reg).identities@ == old(reg).identities@
        },
{
    match validate_tenant_name(handle) {
        Err(e) => {
            return Err(e);
        },
        Ok(()) => {},
    }
    let database_id = mint_database_id();
    let created_at = now_rfc3339(clock);
    insert_user(reg, handle, database_id, created_at)
}

/// Release `handle` now: [`detach_user`] stamped from `clock`, which is
/// read only when the handle names an active user.
pub fn detach(reg: &mut Registry, handle: &str, clock: &mut Clock) -> (r: Result<User, DbError>)
    requires
        old(reg).wf(),
        readable(*old(clock)),
    ensures
        final(reg).wf(),
        r is Err ==> *final(reg) == *old(reg) && *final(clock) == *old(clock),
        r is Ok <==> spec_lookup(old(reg).users@, handle@) is Some,
        r matches Err(e) ==> e is NotFound,
        r matches Ok(u) ==> {
            &&& spec_lookup(old(reg).users@, handle@) matches Some(f)
            &&& u == (User { state: UserState::Detached, retired_at: u.retired_at, ..f })
            &&& u.retired_at is Some
            &&& old(clock).pinned matches Some(p) ==> u.retired_at.unwrap()@ == spec_rfc3339_of(p.next)
            &&& *final(clock) == advanced(*old(clock))
            &&& exists|i: int|
                active_at(old(reg).users@, i, handle@) && final(reg).users@ == old(
                    reg,
                ).users@.update(i, u)
            &&& final(reg).identities@ == old(reg).identities@
            &&& spec_lookup(final(reg).users@, handle@) is None
        },
{
    if position_of_active(&reg.users, handle).is_none() {
        proof {
            assert(!(exists|i: int| active_at(old(reg).users@, i, handle@)));
        }
        return Err(DbError::NotFound(quoted("no user with handle ", handle, "")));
    }
    let retired_at = now_rfc3339(clock);
    detach_user(reg, handle, retired_at)
}

/// Removing row `i` keeps every other id's row and state.
proof fn lemma_remove_user(users: Seq<User>, i: int, id: Seq<char>)
    requires
        0 <= i < users.len(),
        id != users[i].database_id@,
    ensures
        has_user(users.remove(i), id) == has_user(users, id),
        is_active_user(users.remove(i), id) == is_active_user(users, id),
{
    let n = users.remove(i);
    if has_user(users, id) {
        let j = choose|j: int| id_at(users, j, id);
        if j < i {
            assert(id_at(n, j, id));
        } else {
            assert(id_at(n, j - 1, id));
        }
    }
    if has_user(n, id) {
        let j = choose|j: int| id_at(n, j, id);
        if j < i {
            assert(id_at(users, j, id));
        } else {
            assert(id_at(users, j + 1, id));
        }
    }
    if is_active_user(users, id) {
        let j = choose|j: int| id_at(users, j, id) && users[j].state == UserState::Active;
        if j < i {
            assert(id_at(n, j, id) && n[j].state == UserState::Active);
        } else {
            assert(id_at(n, j - 1, id) && n[j - 1].state == UserState::Active);
        }
    }
    if is_active_user(n, id) {
        let j = choose|j: int| id_at(n, j, id) && n[j].state == UserState::Active;
        if j < i {
            assert(id_at(users, j, id) && users[j].state == UserState::Active);
        } else {
            assert(id_at(users, j + 1, id) && users[j + 1].state == UserState::Active);
        }
    }
}

/// The user table without row `i` still satisfies its constraints.
proof fn lemma_users_wf_remove(users: Seq<User>, i: int)
    requires
        users_wf(users),
        0 <= i < users.len(),
    ensures
        users_wf(users.remove(i)),
{
    let n = users.remove(i);
    assert forall|p: int, q: int| 0 <= p < q < n.len() implies (#[trigger] n[p]).database_id@
        != (#[trigger] n[q]).database_id@ by {
        let pp = if p < i { p } else { p + 1 };
        let qq = if q < i { q } else { q + 1 };
        assert(n[p] == users[pp] && n[q] == users[qq]);
        assert(users[pp].database_id@ != users[qq].database_id@);
    }
    assert forall|p: int| 0 <= p < n.len() implies valid_handle((#[trigger] n[p]).handle@) by {
        let pp = if p < i { p } else { p + 1 };
        assert(n[p] == users[pp]);
    }
    assert forall|p: int, q: int|
        0 <= p < q < n.len() && (#[trigger] n[p]).state == UserState::Active && (
        #[trigger] n[q]).state == UserState::Active implies n[p].handle@ != n[q].handle@ by {
        let pp = if p < i { p } else { p + 1 };
        let qq = if q < i { q } else { q + 1 };
        assert(n[p] == users[pp] && n[q] == users[qq]);
        assert(users[pp].handle@ != users[qq].handle@);
    }
}

/// The bindings of every database but `id`.
pub open spec fn not_of(id: Seq<char>) -> spec_fn(IdentityBinding) -> bool {
    |b: IdentityBinding| b.database_id@ != id
}

/// The bindings of `id`.
pub open spec fn of(id: Seq<char>) -> spec_fn(IdentityBinding) -> bool {
    |b: IdentityBinding| b.database_id@ == id
}

/// Keep the bindings whose database is not `id`, in order. Also hands back,
/// as a ghost, the position in `b` each kept binding came from.
fn keep_bindings_not_of(b: &Vec<IdentityBinding>, id: &str) -> (r: (Vec<IdentityBinding>, Ghost<Seq<int>>))
    ensures
        r.0@ == b@.filter(not_of(id@)),
        r.1@.len() == r.0@.len(),
        forall|k: int| 0 <= k < r.0@.len() ==> 0 <= #[trigger] r.1@[k] < b@.len() && r.0@[k] == b@[r.1@[k]],
        forall|k: int, l: int| 0 <= k < l < r.0@.len() ==> #[trigger] r.1@[k] < #[trigger] r.1@[l],
{
    let mut out: Vec<IdentityBinding> = Vec::new();
    let ghost mut src: Seq<int> = Seq::empty();
    let mut i: usize = 0;
    while i < b.len()
        invariant
            i <= b@.len(),
            out@ == b@.take(i as int).filter(not_of(id@)),
            src.len() == out@.len(),
            forall|k: int| 0 <= k < out@.len() ==> 0 <= #[trigger] src[k] < i && out@[k] == b@[src[k]],
            forall|k: int, l: int| 0 <= k < l < out@.len() ==> #[trigger] src[k] < #[trigger] src[l],
        decreases b.len() - i,
    {
        proof {
            lemma_take_push(b@, i as int);
            lemma_filter_push(b@.take(i as int), b@[i as int], not_of(id@));
        }
        if !str_eq(b[i].database_id.as_str(), id) {
            out.push(copy_binding(&b[i]));
            proof {
                src = src.push(i as int);
            }
        }
        i = i + 1;
    }
    assert(b@.take(b@.len() as int) =~= b@);
    (out, Ghost(src))
}

/// Bindings taken, in order, from a table that satisfied its constraints
/// satisfy them too, against a user table in which each kept binding's user
/// is still present with the same state.
proof fn lemma_bindings_wf_subseq(
    users: Seq<User>,
    b: Seq<IdentityBinding>,
    users2: Seq<User>,
    out: Seq<IdentityBinding>,
    src: Seq<int>,
)
    requires
        bindings_wf(users, b),
        src.len() == out.len(),
        forall|k: int| 0 <= k < out.len() ==> 0 <= #[trigger] src[k] < b.len() && out[k] == b[src[k]],
        forall|k: int, l: int| 0 <= k < l < out.len() ==> #[trigger] src[k] < #[trigger] src[l],
        forall|k: int| 0 <= k < out.len() ==> has_user(users2, (#[trigger] out[k]).database_id@)
            && is_active_user(users2, out[k].database_id@) == is_active_user(users, out[k].database_id@),
    ensures
        bindings_wf(users2, out),
{
    assert forall|k: int| 0 <= k < out.len() implies (#[trigger] out[k]).email@.len() > 0 by {
        assert(out[k] == b[src[k]]);
    }
    assert forall|k: int, l: int| 0 <= k < l < out.len() implies !((#[trigger] out[k]).database_id@
        == (#[trigger] out[l]).database_id@ && out[k].email@ == out[l].email@) by {
        assert(src[k] < src[l]);
        assert(out[k] == b[src[k]] && out[l] == b[src[l]]);
    }
    assert forall|k: int, l: int|
        0 <= k < l < out.len() && (#[trigger] out[k]).email@ == (#[trigger] out[l]).email@
            && is_active_user(users2, out[k].database_id@) implies !is_active_user(
        users2,
        out[l].database_id@,
    ) by {
        assert(src[k] < src[l]);
        assert(out[k] == b[src[k]] && out[l] == b[src[l]]);
    }
}

/// Delete every identity binding of `database_id` — the deletion obligation:
/// identity rows are personal data that must not outlive the decision to
/// remove a tenant. Returns how many were removed; none is not an error.
pub fn identity_delete_all(reg: &mut Registry, database_id: &str) -> (r: usize)
    requires
        old(reg).wf(),
    ensures
        final(reg).wf(),
        final(reg).users@ == old(reg).users@,
        final(reg).identities@ == old(reg).identities@.filter(not_of(database_id@)),
        r + final(reg).identities@.len() == old(reg).identities@.len(),
{
    let (kept, Ghost(src)) = keep_bindings_not_of(&reg.identities, database_id);
    let ghost b = reg.identities@;
    let ghost users = reg.users@;
    proof {
        assert forall|k: int| 0 <= k < kept@.len() implies has_user(users, (#[trigger] kept@[k]).database_id@)
            && is_active_user(users, kept@[k].database_id@) == is_active_user(users, kept@[k].database_id@) by {
            assert(kept@[k] == b[src[k]]);
        }
        lemma_bindings_wf_subseq(users, b, users, kept@, src);
        broadcast use vstd::seq_lib::group_filter_ensures;
    }
    let removed = reg.identities.len() - kept.len();
    reg.identities = kept;
    removed
}

/// Forget a detached user entirely — the registry half of a hard delete.
/// Returns the row removed, and their identity bindings go with it.
///
/// An unknown id is not found; an active user is a conflict: their row is
/// what makes a database reachable, so they must be detached first.
pub fn delete(reg: &mut Registry, database_id: &str) -> (r: Result<User, DbError>)
    requires
        old(reg).wf(),
    ensures
        final(reg).wf(),
        r is Err ==> *final(reg) == *old(reg),
        spec_find(old(reg).users@, database_id@) is None ==> (r matches Err(e) && e is NotFound),
        (spec_find(old(reg).users@, database_id@) matches Some(f) && f.state == UserState::Active)
            ==> (r matches Err(e) && e is Conflict),
        r is Ok <==> (spec_find(old(reg).users@, database_id@) matches Some(f) && f.state
            == UserState::Detached),
        r matches Ok(u) ==> {
            &&& spec_find(old(reg).users@, database_id@) == Some(u)
            &&& exists|i: int|
                id_at(old(reg).users@, i, database_id@) && final(reg).users@ == old(
                    reg,
                ).users@.remove(i)
            &&& final(reg).identities@ == old(reg).identities@.filter(not_of(database_id@))
            &&& spec_find(final(reg).users@, database_id@) is None
        },
{
    let i = match position_of_id(&reg.users, database_id) {
        Some(i) => i,
        None => {
            return Err(DbError::NotFound(quoted("no user with database id ", database_id, "")));
        },
    };
    proof {
        lemma_found_id(reg.users@, i as int, database_id@);
    }
    if reg.users[i].state == UserState::Active {
        return Err(DbError::Conflict(quoted("user ", reg.users[i].handle.as_str(), " is still active — detach them before forgetting the mapping")));
    }
    let ghost users = reg.users@;
    identity_delete_all(reg, database_id);
    let ghost b = reg.identities@;
    let gone = reg.users.remove(i);
    proof {
        let n = reg.users@;
        assert(n == users.remove(i as int));
        lemma_users_wf_remove(users, i as int);
        assert forall|k: int| 0 <= k < b.len() implies has_user(n, (#[trigger] b[k]).database_id@)
            && is_active_user(n, b[k].database_id@) == is_active_user(users, b[k].database_id@) by {
            broadcast use vstd::seq_lib::group_filter_ensures;
            assert(b == old(reg).identities@.filter(not_of(database_id@)));
            assert(not_of(database_id@)(b[k]));
            lemma_remove_user(users, i as int, b[k].database_id@);
        }
        let src = Seq::new(b.len(), |k: int| k);
        lemma_bindings_wf_subseq(users, b, n, b, src);
        assert forall|j: int| !id_at(n, j, database_id@) by {
            if id_at(n, j, database_id@) {
                let jj = if j < i { j } else { j + 1 };
                assert(n[j] == users[jj]);
                assert(jj != i);
                if jj < i {
                    assert(users[jj].database_id@ != users[i as int].database_id@);
                } else {
                    assert(users[i as int].database_id@ != users[jj].database_id@);
                }
            }
        }
    }
    Ok(gone)
}

/// Drop a user's row without touching their database — the registry half
/// of a rollback, and the one path that may drop an *active* user. Returns
/// the row removed.
///
/// An unknown id is not found. A user who still has identity bindings
/// cannot be dropped: the bindings' foreign key refuses it, and the storage
/// engine's error is reported.
pub fn unregister(reg: &mut Registry, database_id: &str) -> (r: Result<User, DbError>)
    requires
        old(reg).wf(),
    ensures
        final(reg).wf(),
        r is Err ==> *final(reg) == *old(reg),
        spec_find(old(reg).users@, database_id@) is None ==> (r matches Err(e) && e is NotFound),
        spec_find(old(reg).users@, database_id@) is Some && (exists|k: int|
            0 <= k < old(reg).identities@.len() && (#[trigger] old(reg).identities@[k]).database_id@
                == database_id@) ==> (r matches Err(e) && e is Sqlite),
        r is Ok <==> spec_find(old(reg).users@, database_id@) is Some && !(exists|k: int|
            0 <= k < old(reg).identities@.len() && (#[trigger] old(reg).identities@[k]).database_id@
                == database_id@),
        r matches Ok(u) ==> {
            &&& spec_find(old(reg).users@, database_id@) == Some(u)
            &&& exists|i: int|
                id_at(old(reg).users@, i, database_id@) && final(reg).users@ == old(
                    reg,
                ).users@.remove(i)
            &&& final(reg).identities@ == old(reg).identities@
            &&& spec_find(final(reg).users@, database_id@) is None
        },
{
    let i = match position_of_id(&reg.users, database_id) {
        Some(i) => i,
        None => {
            return Err(DbError::NotFound(quoted("no user with database id ", database_id, "")));
        },
    };
    proof {
        lemma_found_id(reg.users@, i as int, database_id@);
    }
    let mut k: usize = 0;
    while k < reg.identities.len()
        invariant
            k <= reg.identities@.len(),
            *reg == *old(reg),
            reg.wf(),
            spec_find(reg.users@, database_id@) == Some(reg.users@[i as int]),
            forall|t: int| 0 <= t < k ==> (#[trigger] reg.identities@[t]).database_id@ != database_id@,
        decreases reg.identities.len() - k,
    {
        if str_eq(reg.identities[k].database_id.as_str(), database_id) {
            return Err(DbError::Sqlite(owned("FOREIGN KEY constraint failed")));
        }
        k = k + 1;
    }
    let ghost users = reg.users@;
    let ghost b = reg.identities@;
    let gone = reg.users.remove(i);
    proof {
        let n = reg.users@;
        lemma_users_wf_remove(users, i as int);
        assert forall|t: int| 0 <= t < b.len() implies has_user(n, (#[trigger] b[t]).database_id@)
            && is_active_user(n, b[t].database_id@) == is_active_user(users, b[t].database_id@) by {
            lemma_remove_user(users, i as int, b[t].database_id@);
        }
        let src = Seq::new(b.len(), |t: int| t);
        lemma_bindings_wf_subseq(users, b, n, b, src);
        assert forall|j: int| !id_at(n, j, database_id@) by {
            if id_at(n, j, database_id@) {
                let jj = if j < i { j } else { j + 1 };
                assert(n[j] == users[jj]);
                if jj < i {
                    assert(users[jj].database_id@ != users[i as int].database_id@);
                } else {
                    assert(users[i as int].database_id@ != users[jj].database_id@);
                }
            }
        }
    }
    Ok(gone)
}

/// Every registered user, detached ones included, in `database_id` order —
/// creation order, ULIDs being time-prefixed.
pub fn list(reg: &Registry) -> (r: Vec<User>)
    ensures
        sorted_by(reg.users@, |u: User| u.database_id@, r@),
{
    let mut rows: Vec<User> = Vec::new();
    let mut keys: Vec<Vec<char>> = Vec::new();
    let mut i: usize = 0;
    while i < reg.users.len()
        invariant
            i <= reg.users@.len(),
            rows@ == reg.users@.take(i as int),
            keys@.len() == i,
            forall|k: int| 0 <= k < i ==> (#[trigger] keys@[k])@ == reg.users@[k].database_id@,
        decreases reg.users.len() - i,
    {
        proof {
            lemma_take_push(reg.users@, i as int);
        }
        rows.push(copy_user(&reg.users[i]));
        keys.push(chars_of(reg.users[i].database_id.as_str()));
        i = i + 1;
    }
    assert(reg.users@.take(reg.users@.len() as int) =~= reg.users@);
    sort_by_key(rows, &keys, Ghost(|u: User| u.database_id@))
}

// ── identity bindings: operations ────────────────────────────────────────

/// Normalise an email address for storage and comparison: `None` for the
/// empty string, its lowercase form otherwise.
pub fn normalise_email(email: &str) -> (r: Option<String>)
    ensures
        r is None <==> email@.len() == 0,
        r matches Some(s) ==> s@ == unicode_lower(email@) && s@.len() > 0,
{
    let chars = chars_of(email);
    if chars.len() == 0 {
        None
    } else {
        Some(to_lowercase(email))
    }
}

/// With unique ids, whether `id`'s user is active is what row `j` says.
proof fn lemma_active_by_index(users: Seq<User>, j: int, id: Seq<char>)
    requires
        users_wf(users),
        id_at(users, j, id),
    ensures
        is_active_user(users, id) == (users[j].state == UserState::Active),
{
    if is_active_user(users, id) {
        let t = choose|t: int| id_at(users, t, id) && users[t].state == UserState::Active;
        if t < j {
            assert(users[t].database_id@ != users[j].database_id@);
        } else if j < t {
            assert(users[j].database_id@ != users[t].database_id@);
        }
    }
}

/// Some binding holds email `e` for a tenant that is active.
pub open spec fn email_taken(users: Seq<User>, b: Seq<IdentityBinding>, e: Seq<char>) -> bool {
    exists|k: int| 0 <= k < b.len() && (#[trigger] b[k]).email@ == e && is_active_user(users, b[k].database_id@)
}

/// Binding `k` is `(id, e)`.
pub open spec fn bound_at(b: Seq<IdentityBinding>, k: int, id: Seq<char>, e: Seq<char>) -> bool {
    0 <= k < b.len() && b[k].database_id@ == id && b[k].email@ == e
}

/// An optional owned string holds what an optional slice held.
pub open spec fn same_opt(a: Option<String>, b: Option<&str>) -> bool {
    match (a, b) {
        (Some(x), Some(y)) => x@ == y@,
        (None, None) => true,
        _ => false,
    }
}

fn own_opt(o: Option<&str>) -> (r: Option<String>)
    ensures
        same_opt(r, o),
{
    match o {
        Some(s) => Some(owned(s)),
        None => None,
    }
}

/// Whether the email `e` is bound to some active tenant.
fn email_bound_to_active(reg: &Registry, e: &str) -> (r: bool)
    requires
        reg.wf(),
    ensures
        r == email_taken(reg.users@, reg.identities@, e@),
{
    let mut k: usize = 0;
    while k < reg.identities.len()
        invariant
            reg.wf(),
            k <= reg.identities@.len(),
            forall|t: int| 0 <= t < k ==> !((#[trigger] reg.identities@[t]).email@ == e@
                && is_active_user(reg.users@, reg.identities@[t].database_id@)),
        decreases reg.identities.len() - k,
    {
        if str_eq(reg.identities[k].email.as_str(), e) {
            let ghost bid = reg.identities@[k as int].database_id@;
            assert(has_user(reg.users@, bid));
            match position_of_id(&reg.users, reg.identities[k].database_id.as_str()) {
                Some(j) => {
                    proof {
                        lemma_active_by_index(reg.users@, j as int, bid);
                    }
                    if reg.users[j].state == UserState::Active {
                        return true;
                    }
                },
                None => {},
            }
        }
        k = k + 1;
    }
    false
}

/// Bind a verified identity to an active tenant, created at `created_at`.
/// `email` is stored normalised. Returns the row inserted.
///
/// An unknown id is not found; a detached tenant is a conflict; an empty
/// email is an environment error; an email already bound to an active
/// tenant (this one included) is a conflict — one email, one active tenant.
pub fn identity_bind(
    reg: &mut Registry,
    database_id: &str,
    email: &str,
    sub: Option<&str>,
    issuer: Option<&str>,
    created_at: String,
) -> (r: Result<IdentityBinding, DbError>)
    requires
        old(reg).wf(),
    ensures
        final(reg).wf(),
        r is Err ==> *final(reg) == *old(reg),
        spec_find(old(reg).users@, database_id@) is None ==> (r matches Err(e) && e is NotFound),
        (spec_find(old(reg).users@, database_id@) matches Some(f) && f.state == UserState::Detached)
            ==> (r matches Err(e) && e is Conflict),
        (spec_find(old(reg).users@, database_id@) matches Some(f) && f.state == UserState::Active
            && email@.len() == 0) ==> (r matches Err(e) && e is Env),
        (spec_find(old(reg).users@, database_id@) matches Some(f) && f.state == UserState::Active
            && email@.len() > 0 && email_taken(old(reg).users@, old(reg).identities@, unicode_lower(email@)))
            ==> (r matches Err(e) && e is Conflict),
        r is Ok <==> (spec_find(old(reg).users@, database_id@) matches Some(f) && f.state
            == UserState::Active && email@.len() > 0 && !email_taken(
            old(reg).users@,
            old(reg).identities@,
            unicode_lower(email@),
        )),
        r matches Ok(x) ==> {
            &&& x.database_id@ == database_id@
            &&& x.email@ == unicode_lower(email@)
            &&& same_opt(x.sub, sub)
            &&& same_opt(x.issuer, issuer)
            &&& x.created_at == created_at
            &&& final(reg).identities@ == old(reg).identities@.push(x)
            &&& final(reg).users@ == old(reg).users@
        },
{
    let i = match position_of_id(&reg.users, database_id) {
        Some(i) => i,
        None => {
            return Err(DbError::NotFound(quoted("no user with database id ", database_id, "")));
        },
    };
    proof {
        lemma_found_id(reg.users@, i as int, database_id@);
        lemma_active_by_index(reg.users@, i as int, database_id@);
    }
    if reg.users[i].state != UserState::Active {
        return Err(DbError::Conflict(quoted("user ", reg.users[i].handle.as_str(), " is detached — identity bindings require an active tenant")));
    }
    let normalised = match normalise_email(email) {
        Some(n) => n,
        None => {
            return Err(DbError::Env(owned("email must not be empty")));
        },
    };
    if email_bound_to_active(reg, normalised.as_str()) {
        return Err(DbError::Conflict(quoted("email ", normalised.as_str(), " is already bound to an active tenant")));
    }
    let x = IdentityBinding {
        database_id: owned(database_id),
        email: normalised,
        sub: own_opt(sub),
        issuer: own_opt(issuer),
        created_at,
    };
    let ghost b = reg.identities@;
    let ghost users = reg.users@;
    reg.identities.push(copy_binding(&x));
    proof {
        let n = reg.identities@;
        assert(n == b.push(x));
        assert(id_at(users, i as int, x.database_id@));
        assert forall|k: int| 0 <= k < n.len() implies has_user(users, (#[trigger] n[k]).database_id@) by {
            if k == b.len() {
                assert(id_at(users, i as int, n[k].database_id@));
            }
        }
        assert forall|k: int| 0 <= k < n.len() implies (#[trigger] n[k]).email@.len() > 0 by {
        }
        assert forall|k: int, l: int| 0 <= k < l < n.len() implies !((#[trigger] n[k]).database_id@
            == (#[trigger] n[l]).database_id@ && n[k].email@ == n[l].email@) by {
            if l == b.len() && n[k].database_id@ == x.database_id@ && n[k].email@ == x.email@ {
                assert(b[k].email@ == x.email@ && is_active_user(users, b[k].database_id@));
            }
        }
        assert forall|k: int, l: int|
            0 <= k < l < n.len() && (#[trigger] n[k]).email@ == (#[trigger] n[l]).email@
                && is_active_user(users, n[k].database_id@) implies !is_active_user(users, n[l].database_id@) by {
            if l == b.len() {
                assert(b[k].email@ == x.email@ && is_active_user(users, b[k].database_id@));
            }
        }
    }
    Ok(x)
}

/// Bind a verified identity to an active tenant now: [`identity_bind`]
/// stamped from `clock`, which is read only once the tenant is known to be
/// active and the email non-empty.
pub fn identity_add(
    reg: &mut Registry,
    database_id: &str,
    email: &str,
    sub: Option<&str>,
    issuer: Option<&str>,
    clock: &mut Clock,
) -> (r: Result<IdentityBinding, DbError>)
    requires
        old(reg).wf(),
        readable(*old(clock)),
    ensures
        final(reg).wf(),
        r is Err ==> *final(reg) == *old(reg),
        spec_find(old(reg).users@, database_id@) is None ==> (r matches Err(e) && e is NotFound),
        (spec_find(old(reg).users@, database_id@) matches Some(f) && f.state == UserState::Detached)
            ==> (r matches Err(e) && e is Conflict),
        (spec_find(old(reg).users@, database_id@) matches Some(f) && f.state == UserState::Active
            && email@.len() == 0) ==> (r matches Err(e) && e is Env),
        (spec_find(old(reg).users@, database_id@) matches Some(f) && f.state == UserState::Active
            && email@.len() > 0 && email_taken(old(reg).users@, old(reg).identities@, unicode_lower(email@)))
            ==> (r matches Err(e) && e is Conflict),
        r is Ok <==> (spec_find(old(reg).users@, database_id@) matches Some(f) && f.state
            == UserState::Active && email@.len() > 0 && !email_taken(
            old(reg).users@,
            old(reg).identities@,
            unicode_lower(email@),
        )),
        *final(clock) == (if (spec_find(old(reg).users@, database_id@) matches Some(f) && f.state
            == UserState::Active && email@.len() > 0) {
            advanced(*old(clock))
        } else {
            *old(clock)
        }),
        r matches Ok(x) ==> {
            &&& x.database_id@ == database_id@
            &&& x.email@ == unicode_lower(email@)
            &&& same_opt(x.sub, sub)
            &&& same_opt(x.issuer, issuer)
            &&& old(clock).pinned matches Some(p) ==> x.created_at@ == spec_rfc3339_of(p.next)
            &&& final(reg).identities@ == old(reg).identities@.push(x)
            &&& final(reg).users@ == old(reg).users@
        },
{
    let i = match position_of_id(&reg.users, database_id) {
        Some(i) => i,
        None => {
            return Err(DbError::NotFound(quoted("no user with database id ", database_id, "")));
        },
    };
    proof {
        lemma_found_id(reg.users@, i as int, database_id@);
    }
    if reg.users[i].state != UserState::Active {
        return Err(DbError::Conflict(quoted("user ", reg.users[i].handle.as_str(), " is detached — identity bindings require an active tenant")));
    }
    if chars_of(email).len() == 0 {
        return Err(DbError::Env(owned("email must not be empty")));
    }
    let created_at = now_rfc3339(clock);
    identity_bind(reg, database_id, email, sub, issuer, created_at)
}

/// Remove one identity binding; `email` is normalised before the lookup.
/// Returns the binding removed. An empty email is an environment error, and
/// a binding that does not exist is not found.
pub fn identity_remove(reg: &mut Registry, database_id: &str, email: &str) -> (r: Result<IdentityBinding, DbError>)
    requires
        old(reg).wf(),
    ensures
        final(reg).wf(),
        r is Err ==> *final(reg) == *old(reg),
        email@.len() == 0 ==> (r matches Err(e) && e is Env),
        email@.len() > 0 && !(exists|k: int| bound_at(old(reg).identities@, k, database_id@, unicode_lower(email@)))
            ==> (r matches Err(e) && e is NotFound),
        r is Ok <==> email@.len() > 0 && exists|k: int| bound_at(old(reg).identities@, k, database_id@, unicode_lower(email@)),
        r matches Ok(x) ==> exists|k: int|
            bound_at(old(reg).identities@, k, database_id@, unicode_lower(email@)) && x
                == old(reg).identities@[k] && final(reg).identities@ == old(reg).identities@.remove(k)
                && final(reg).users@ == old(reg).users@,
{
    let normalised = match normalise_email(email) {
        Some(n) => n,
        None => {
            return Err(DbError::Env(owned("email must not be empty")));
        },
    };
    let mut k: usize = 0;
    while k < reg.identities.len()
        invariant
            k <= reg.identities@.len(),
            *reg == *old(reg),
            reg.wf(),
            normalised@ == unicode_lower(email@),
            email@.len() > 0,
            forall|t: int| 0 <= t < k ==> !bound_at(reg.identities@, t, database_id@, normalised@),
        decreases reg.identities.len() - k,
    {
        if str_eq(reg.identities[k].database_id.as_str(), database_id) && str_eq(
            reg.identities[k].email.as_str(),
            normalised.as_str(),
        ) {
            let ghost b = reg.identities@;
            let ghost users = reg.users@;
            let x = reg.identities.remove(k);
            proof {
                let n = reg.identities@;
                assert(n == b.remove(k as int));
                let src = Seq::new(n.len(), |t: int| if t < k { t } else { t + 1 });
                assert forall|t: int| 0 <= t < n.len() implies has_user(users, (#[trigger] n[t]).database_id@)
                    && is_active_user(users, n[t].database_id@) == is_active_user(users, n[t].database_id@) by {
                    assert(n[t] == b[src[t]]);
                }
                lemma_bindings_wf_subseq(users, b, users, n, src);
                assert(bound_at(b, k as int, database_id@, unicode_lower(email@)));
            }
            return Ok(x);
        }
        k = k + 1;
    }
    proof {
        assert forall|t: int| !bound_at(reg.identities@, t, database_id@, normalised@) by {
        }
    }
    let mut m = quoted("no identity binding for ", normalised.as_str(), " on database ");
    let id = quoted("", database_id, "");
    m.append(id.as_str());
    Err(DbError::NotFound(m))
}

/// A binding's creation stamp, the key bindings are listed by.
pub open spec fn created_key() -> spec_fn(IdentityBinding) -> Seq<char> {
    |x: IdentityBinding| x.created_at@
}

/// A binding's tenant, the key the roster groups by.
pub open spec fn binding_id_key() -> spec_fn(IdentityBinding) -> Seq<char> {
    |x: IdentityBinding| x.database_id@
}

/// The bindings of one tenant, in the order they are in the table.
fn bindings_of(b: &Vec<IdentityBinding>, database_id: &str) -> (r: Vec<IdentityBinding>)
    ensures
        r@ == b@.filter(of(database_id@)),
{
    let mut out: Vec<IdentityBinding> = Vec::new();
    let mut i: usize = 0;
    while i < b.len()
        invariant
            i <= b@.len(),
            out@ == b@.take(i as int).filter(of(database_id@)),
        decreases b.len() - i,
    {
        proof {
            lemma_take_push(b@, i as int);
            lemma_filter_push(b@.take(i as int), b@[i as int], of(database_id@));
        }
        if str_eq(b[i].database_id.as_str(), database_id) {
            out.push(copy_binding(&b[i]));
        }
        i = i + 1;
    }
    assert(b@.take(b@.len() as int) =~= b@);
    out
}

/// Sort bindings stably by their creation stamp.
fn by_created_at(rows: Vec<IdentityBinding>) -> (r: Vec<IdentityBinding>)
    ensures
        sorted_by(rows@, created_key(), r@),
{
    let mut keys: Vec<Vec<char>> = Vec::new();
    let mut i: usize = 0;
    while i < rows.len()
        invariant
            i <= rows@.len(),
            keys@.len() == i,
            forall|k: int| 0 <= k < i ==> (#[trigger] keys@[k])@ == rows@[k].created_at@,
        decreases rows.len() - i,
    {
        keys.push(chars_of(rows[i].created_at.as_str()));
        i = i + 1;
    }
    sort_by_key(rows, &keys, Ghost(created_key()))
}

/// Every identity binding of one tenant, in creation order. An empty list
/// means the tenant has no bindings, not that it does not exist.
pub fn identity_list(reg: &Registry, database_id: &str) -> (r: Vec<IdentityBinding>)
    ensures
        sorted_by(reg.identities@.filter(of(database_id@)), created_key(), r@),
{
    by_created_at(bindings_of(&reg.identities, database_id))
}

/// Every identity binding across all tenants, ordered by tenant and, within
/// a tenant, by creation: a stable sort by creation stamp followed by a
/// stable sort by `database_id`.
pub fn identity_roster(reg: &Registry) -> (r: Vec<IdentityBinding>)
    ensures
        exists|mid: Seq<IdentityBinding>|
            #[trigger] sorted_by(reg.identities@, created_key(), mid) && sorted_by(
                mid,
                binding_id_key(),
                r@,
            ),
{
    let mut rows: Vec<IdentityBinding> = Vec::new();
    let mut i: usize = 0;
    while i < reg.identities.len()
        invariant
            i <= reg.identities@.len(),
            rows@ == reg.identities@.take(i as int),
        decreases reg.identities.len() - i,
    {
        proof {
            lemma_take_push(reg.identities@, i as int);
        }
        rows.push(copy_binding(&reg.identities[i]));
        i = i + 1;
    }
    assert(reg.identities@.take(reg.identities@.len() as int) =~= reg.identities@);
    let mid = by_created_at(rows);
    let mut keys: Vec<Vec<char>> = Vec::new();
    let mut j: usize = 0;
    while j < mid.len()
        invariant
            j <= mid@.len(),
            keys@.len() == j,
            forall|k: int| 0 <= k < j ==> (#[trigger] keys@[k])@ == mid@[k].database_id@,
        decreases mid.len() - j,
    {
        keys.push(chars_of(mid[j].database_id.as_str()));
        j = j + 1;
    }
    let ghost m = mid@;
    sort_by_key(mid, &keys, Ghost(binding_id_key()))
}

// ── loading the tables ───────────────────────────────────────────────────

/// Whether the user rows satisfy the `user` table's constraints.
fn check_users(users: &Vec<User>) -> (r: bool)
    ensures
        r == users_wf(users@),
{
    let n = users.len();
    let mut i: usize = 0;
    while i < n
        invariant
            n == users@.len(),
            i <= n,
            forall|p: int| 0 <= p < i ==> valid_handle((#[trigger] users@[p]).handle@),
            forall|p: int, q: int| 0 <= p < i && p < q < n ==> (#[trigger] users@[p]).database_id@
                != (#[trigger] users@[q]).database_id@,
            forall|p: int, q: int|
                0 <= p < i && p < q < n && (#[trigger] users@[p]).state == UserState::Active && (
                #[trigger] users@[q]).state == UserState::Active ==> users@[p].handle@ != users@[q].handle@,
        decreases n - i,
    {
        if validate_tenant_name(users[i].handle.as_str()).is_err() {
            return false;
        }
        let mut j: usize = i + 1;
        while j < n
            invariant
                n == users@.len(),
                i < n,
                i < j <= n,
                forall|q: int| i < q < j ==> users@[i as int].database_id@ != (#[trigger] users@[q]).database_id@,
                forall|q: int|
                    i < q < j && users@[i as int].state == UserState::Active && (#[trigger] users@[q]).state
                        == UserState::Active ==> users@[i as int].handle@ != users@[q].handle@,
            decreases n - j,
        {
            if users[i].database_id == users[j].database_id {
                assert(!users_wf(users@)) by {
                    assert(users@[i as int].database_id@ == users@[j as int].database_id@);
                }
                return false;
            }
            if users[i].state == UserState::Active && users[j].state == UserState::Active
                && users[i].handle == users[j].handle {
                assert(!users_wf(users@)) by {
                    assert(users@[i as int].handle@ == users@[j as int].handle@);
                }
                return false;
            }
            j = j + 1;
        }
        i = i + 1;
    }
    true
}

/// Whether the binding rows satisfy `user_identity`'s constraints against
/// a user table that satisfies its own.
fn check_bindings(users: &Vec<User>, b: &Vec<IdentityBinding>) -> (r: bool)
    requires
        users_wf(users@),
    ensures
        r == bindings_wf(users@, b@),
{
    let n = b.len();
    // whether each binding's tenant is active, by position
    let mut active: Vec<bool> = Vec::new();
    let mut k: usize = 0;
    while k < n
        invariant
            n == b@.len(),
            users_wf(users@),
            k <= n,
            active@.len() == k,
            forall|t: int| 0 <= t < k ==> has_user(users@, (#[trigger] b@[t]).database_id@),
            forall|t: int| 0 <= t < k ==> (#[trigger] b@[t]).email@.len() > 0,
            forall|t: int| 0 <= t < k ==> #[trigger] active@[t] == is_active_user(users@, b@[t].database_id@),
        decreases n - k,
    {
        match position_of_id(users, b[k].database_id.as_str()) {
            None => {
                return false;
            },
            Some(j) => {
                proof {
                    lemma_active_by_index(users@, j as int, b@[k as int].database_id@);
                }
                active.push(users[j].state == UserState::Active);
            },
        }
        if chars_of(b[k].email.as_str()).len() == 0 {
            return false;
        }
        k = k + 1;
    }
    let mut p: usize = 0;
    while p < n
        invariant
            n == b@.len(),
            active@.len() == n,
            p <= n,
            forall|t: int| 0 <= t < n ==> #[trigger] active@[t] == is_active_user(users@, b@[t].database_id@),
            forall|t: int, l: int| 0 <= t < p && t < l < n ==> !((#[trigger] b@[t]).database_id@
                == (#[trigger] b@[l]).database_id@ && b@[t].email@ == b@[l].email@),
            forall|t: int, l: int|
                0 <= t < p && t < l < n && (#[trigger] b@[t]).email@ == (#[trigger] b@[l]).email@
                    && is_active_user(users@, b@[t].database_id@) ==> !is_active_user(users@, b@[l].database_id@),
        decreases n - p,
    {
        let mut q: usize = p + 1;
        while q < n
            invariant
                n == b@.len(),
                active@.len() == n,
                p < n,
                p < q <= n,
                forall|t: int| 0 <= t < n ==> #[trigger] active@[t] == is_active_user(users@, b@[t].database_id@),
                forall|l: int| p < l < q ==> !(b@[p as int].database_id@ == (#[trigger] b@[l]).database_id@
                    && b@[p as int].email@ == b@[l].email@),
                forall|l: int|
                    p < l < q && b@[p as int].email@ == (#[trigger] b@[l]).email@
                        && is_active_user(users@, b@[p as int].database_id@) ==> !is_active_user(users@, b@[l].database_id@),
            decreases n - q,
        {
            if b[p].email == b[q].email {
                if b[p].database_id == b[q].database_id {
                    assert(!bindings_wf(users@, b@)) by {
                        assert(b@[p as int].database_id@ == b@[q as int].database_id@);
                    }
                    return false;
                }
                if active[p] && active[q] {
                    assert(!bindings_wf(users@, b@)) by {
                        assert(b@[p as int].email@ == b@[q as int].email@);
                    }
                    return false;
                }
            }
            q = q + 1;
        }
        p = p + 1;
    }
    true
}

/// Build the registry from its stored rows: users as the storage engine
/// hands them over, bindings as read. Fails with an environment error when
/// a state is unknown or the rows break the schema's constraints.
pub fn from_rows(rows: Vec<UserRow>, identities: Vec<IdentityBinding>) -> (r: Result<Registry, DbError>)
    ensures
        r matches Ok(reg) ==> reg.wf() && reg.identities@ == identities@ && reg.users@.len()
            == rows@.len() && forall|i: int|
            0 <= i < rows@.len() ==> {
                let u = #[trigger] reg.users@[i];
                let row = rows@[i];
                u.database_id == row.0 && u.handle == row.1 && u.created_at == row.2 && state_text(
                    u.state,
                ) == row.3@ && u.retired_at == row.4
            },
        r is Err ==> !(forall|i: int| 0 <= i < rows@.len() ==> ((#[trigger] rows@[i]).3@ == state_text(
            UserState::Active,
        ) || rows@[i].3@ == state_text(UserState::Detached))) || !(exists|us: Seq<User>|
            us.len() == rows@.len() && (forall|i: int| 0 <= i < rows@.len() ==> {
                let u = #[trigger] us[i];
                let row = rows@[i];
                u.database_id == row.0 && u.handle == row.1 && u.created_at == row.2 && state_text(
                    u.state,
                ) == row.3@ && u.retired_at == row.4
            }) && users_wf(us) && bindings_wf(us, identities@)),
{
    let ghost rs = rows@;
    let mut users: Vec<User> = Vec::new();
    let mut i: usize = 0;
    let n = rows.len();
    while i < n
        invariant
            n == rs.len(),
            rs == rows@,
            i <= n,
            users@.len() == i,
            forall|t: int| 0 <= t < i ==> {
                let u = #[trigger] users@[t];
                let row = rs[t];
                u.database_id == row.0 && u.handle == row.1 && u.created_at == row.2 && state_text(
                    u.state,
                ) == row.3@ && u.retired_at == row.4
            },
        decreases n - i,
    {
        let row: UserRow = (
            rows[i].0.clone(),
            rows[i].1.clone(),
            rows[i].2.clone(),
            rows[i].3.clone(),
            match &rows[i].4 {
                Some(x) => Some(x.clone()),
                None => None,
            },
        );
        assert(row == rs[i as int]);
        match into_user(row) {
            Ok(u) => users.push(u),
            Err(e) => {
                proof {
                    let t = i as int;
                    assert(!(rs[t].3@ == state_text(UserState::Active) || rs[t].3@ == state_text(
                        UserState::Detached,
                    )));
                }
                return Err(e);
            },
        }
        i = i + 1;
    }
    proof {
        assert forall|us: Seq<User>|
            us.len() == rs.len() && (forall|t: int| 0 <= t < rs.len() ==> {
                let u = #[trigger] us[t];
                let row = rs[t];
                u.database_id == row.0 && u.handle == row.1 && u.created_at == row.2 && state_text(
                    u.state,
                ) == row.3@ && u.retired_at == row.4
            }) implies us == users@ by {
            assert forall|t: int| 0 <= t < us.len() implies us[t] == users@[t] by {
                let a = us[t];
                let c = users@[t];
                assert(state_text(a.state) == state_text(c.state));
                if a.state != c.state {
                    assert(state_text(UserState::Active) != state_text(UserState::Detached)) by {
                        assert(state_text(UserState::Active).len() != state_text(UserState::Detached).len());
                    }
                }
            }
            assert(us =~= users@);
        }
    }
    if !check_users(&users) {
        return Err(DbError::Env(owned("registry: user rows break the schema")));
    }
    if !check_bindings(&users, &identities) {
        return Err(DbError::Env(owned("registry: identity rows break the schema")));
    }
    Ok(Registry { users, identities })
}

// ── laws ─────────────────────────────────────────────────────────────────

/// A registered user answers to their handle and their id: after a
/// successful registration pushed `u` (active, under a free handle and a
/// fresh id), `lookup` of the handle and `find` of the id both give `u`.
pub proof fn lemma_registered_user_is_found(users: Seq<User>, u: User)
    requires
        users_wf(users),
        users_wf(users.push(u)),
        u.state == UserState::Active,
        !has_user(users, u.database_id@),
    ensures
        spec_lookup(users.push(u), u.handle@) == Some(u),
        spec_find(users.push(u), u.database_id@) == Some(u),
{
    let n = users.push(u);
    let i = users.len() as int;
    assert(active_at(n, i, u.handle@));
    assert(id_at(n, i, u.database_id@));
    lemma_found_active(n, i, u.handle@);
    lemma_found_id(n, i, u.database_id@);
}

/// Detaching releases the handle: once the active holder of `h` is
/// detached, no live user answers to `h`, so it can be registered again.
pub proof fn lemma_detach_releases_the_handle(users: Seq<User>, i: int, h: Seq<char>, t: String)
    requires
        users_wf(users),
        active_at(users, i, h),
    ensures
        !handle_taken(users.update(i, detached(users[i], t)), h),
        spec_lookup(users.update(i, detached(users[i], t)), h) is None,
        spec_find(users.update(i, detached(users[i], t)), users[i].database_id@) == Some(
            detached(users[i], t),
        ),
{
    let n = users.update(i, detached(users[i], t));
    assert forall|j: int| !active_at(n, j, h) by {
        if active_at(n, j, h) {
            assert(j != i);
            if j < i {
                assert(users[j].handle@ != users[i].handle@);
            } else {
                assert(users[i].handle@ != users[j].handle@);
            }
        }
    }
    assert forall|p: int, q: int| 0 <= p < q < n.len() implies (#[trigger] n[p]).database_id@
        != (#[trigger] n[q]).database_id@ by {
        assert(users[p].database_id@ != users[q].database_id@);
    }
    assert forall|p: int| 0 <= p < n.len() implies valid_handle((#[trigger] n[p]).handle@) by {
        assert(valid_handle(users[p].handle@));
    }
    assert forall|p: int, q: int|
        0 <= p < q < n.len() && (#[trigger] n[p]).state == UserState::Active && (
        #[trigger] n[q]).state == UserState::Active implies n[p].handle@ != n[q].handle@ by {
        assert(users[p].handle@ != users[q].handle@);
    }
    assert(id_at(n, i, users[i].database_id@));
    lemma_found_id(n, i, users[i].database_id@);
}

/// A recycled handle gets new storage: a registration after a detach mints
/// an id no row has — in particular not the detached row's, which stays on
/// the books under the handle it was held under.
pub proof fn lemma_recycled_handle_gets_new_storage(users: Seq<User>, i: int, u: User)
    requires
        0 <= i < users.len(),
        !has_user(users, u.database_id@),
    ensures
        u.database_id@ != users[i].database_id@,
        users.push(u)[i] == users[i],
{
    assert(id_at(users, i, users[i].database_id@));
}

/// A rename moves the name and nothing else: afterwards the new handle
/// answers with the same database, and the old one (if different) answers
/// with nobody.
pub proof fn lemma_rename_moves_only_the_name(users: Seq<User>, i: int, u: User, from: Seq<char>)
    requires
        users_wf(users),
        users_wf(users.update(i, u)),
        active_at(users, i, from),
        u == (User { handle: u.handle, ..users[i] }),
    ensures
        spec_lookup(users.update(i, u), u.handle@) == Some(u),
        u.handle@ != from ==> spec_lookup(users.update(i, u), from) is None,
        spec_find(users.update(i, u), u.database_id@) == Some(u),
{
    let n = users.update(i, u);
    assert(active_at(n, i, u.handle@));
    lemma_found_active(n, i, u.handle@);
    assert(id_at(n, i, u.database_id@));
    lemma_found_id(n, i, u.database_id@);
    if u.handle@ != from {
        assert forall|j: int| !active_at(n, j, from) by {
            if active_at(n, j, from) {
                assert(j != i);
                if j < i {
                    assert(users[j].handle@ != users[i].handle@);
                } else {
                    assert(users[i].handle@ != users[j].handle@);
                }
            }
        }
    }
}

} // verus!
