use vstd::prelude::*;

use crate::crypto::{bcrypt_verifies, create_pg, generate_one, hash_password, verify_password};
use crate::errors::{CreateUserError, ServiceError, UpdatePasswordError};
use crate::models::{NewUser, User, UserName};
use crate::policy::{can_delete_user, spec_can_delete_user};
use crate::store::{Store, unique_user_ids};
use crate::token::{TokenConfig, generate_token, is_space, jwt_of};
use vstd::pervasive::VecAdditionalExecFns;

verus! {

/// Some record carries this identity.
pub open spec fn has_user(users: Seq<User>, id: Seq<char>) -> bool {
    exists|i: int| 0 <= i < users.len() && users[i].id@ == id
}

/// The index of the record with this identity, where one exists.
pub open spec fn user_idx(users: Seq<User>, id: Seq<char>) -> int {
    choose|i: int| 0 <= i < users.len() && users[i].id@ == id
}

/// The record with this identity, where one exists.
pub open spec fn spec_user(users: Seq<User>, id: Seq<char>) -> User {
    users[user_idx(users, id)]
}

/// The identity exists and the password passes the bcrypt check against
/// its stored hash.
pub open spec fn spec_valid_credentials(users: Seq<User>, id: Seq<char>, pass: Seq<char>) -> bool {
    has_user(users, id) && bcrypt_verifies(pass, spec_user(users, id).pass@)
}

/// With unique identities, at most one record carries any identity.
pub proof fn lemma_user_same_index(users: Seq<User>, id: Seq<char>, i: int, j: int)
    requires
        unique_user_ids(users),
        0 <= i < users.len() && users[i].id@ == id,
        0 <= j < users.len() && users[j].id@ == id,
    ensures
        i == j,
{
}

/// The index of the record with this identity, if any.
fn find_user(store: &Store, id: &str) -> (r: Option<usize>)
    ensures
        (r matches Some(i) ==> i < store.users@.len() && store.users@[i as int].id@ == id@),
        r is None ==> !has_user(store.users@, id@),
{
    let n = store.users.len();
    let mut i: usize = 0;
    while i < n
        invariant
            n == store.users@.len(),
            i <= n,
            forall|j: int| 0 <= j < i ==> store.users@[j].id@ != id@,
        decreases n - i,
    {
        if crate::models::str_eq(store.users[i].id.as_str(), id) {
            return Some(i);
        }
        i += 1;
    }
    None
}

/// Look an account up by identity; a snapshot of the record, never
/// shared mutable state.
pub fn get_user(store: &Store, username: &str) -> (r: Option<User>)
    requires
        store.wf(),
    ensures
        r is Some <==> has_user(store.users@, username@),
        (r matches Some(u) ==> u == spec_user(store.users@, username@)),
{
    match find_user(store, username) {
        Some(i) => {
            proof {
                lemma_user_same_index(
                    store.users@,
                    username@,
                    i as int,
                    user_idx(store.users@, username@),
                );
            }
            Some(store.users[i].clone())
        },
        None => None,
    }
}

/// Check credentials, failing closed: the caller cannot tell an unknown
/// identity from a wrong password.
pub fn validate_user(store: &Store, username: &str, password: &str) -> (r: Option<User>)
    requires
        store.wf(),
    ensures
        r is Some <==> spec_valid_credentials(store.users@, username@, password@),
        (r matches Some(u) ==> u == spec_user(store.users@, username@)),
{
    match get_user(store, username) {
        Some(u) => {
            if verify_password(password, u.pass.as_str()) {
                Some(u)
            } else {
                None
            }
        },
        None => None,
    }
}

/// Check credentials and issue a token for the stored identity with its
/// admin flag at clock `now`. Nothing comes back on bad credentials; a
/// token always comes back on good ones, except where the expiry would
/// leave the representable range.
pub fn login(store: &Store, cfg: &TokenConfig, username: &str, password: &str, now: i64) -> (r:
    Option<String>)
    requires
        store.wf(),
        cfg.wf(),
    ensures
        !spec_valid_credentials(store.users@, username@, password@) ==> r is None,
        (spec_valid_credentials(store.users@, username@, password@) && now + cfg.ttl <= i64::MAX
            ==> r is Some),
        (r matches Some(t) ==> spec_valid_credentials(store.users@, username@, password@)),
        (r matches Some(t) ==> now + cfg.ttl <= i64::MAX && t@ == jwt_of(
            now,
            (now + cfg.ttl) as i64,
            username@,
            spec_user(store.users@, username@).isadmin,
            cfg.secret@,
        )),
        (r matches Some(t) ==> forall|k: int| 0 <= k < t@.len() ==> !is_space(t@[k])),
{
    match validate_user(store, username, password) {
        Some(u) => generate_token(cfg, u.id.as_str(), u.isadmin, now),
        None => None,
    }
}

/// Append a record built from the given data; the identity must be new.
fn insert_user(store: &mut Store, nu: NewUser<'_>) -> (u: User)
    requires
        old(store).wf(),
        !has_user(old(store).users@, nu.id@),
    ensures
        final(store).wf(),
        final(store).schedules == old(store).schedules,
        final(store).next_id == old(store).next_id,
        final(store).users@ == old(store).users@.push(u),
        u.id@ == nu.id@,
        u.pass@ == nu.pass@,
        u.isadmin == *nu.isadmin,
        (match nu.first_name {
            Some(f) => u.first_name matches Some(g) && g@ == f@,
            None => u.first_name is None,
        }),
        (match nu.last_name {
            Some(f) => u.last_name matches Some(g) && g@ == f@,
            None => u.last_name is None,
        }),
{
    let u = User {
        id: nu.id.to_owned(),
        pass: nu.pass.to_owned(),
        first_name: match nu.first_name {
            Some(f) => Some(f.to_owned()),
            None => None,
        },
        last_name: match nu.last_name {
            Some(f) => Some(f.to_owned()),
            None => None,
        },
        isadmin: *nu.isadmin,
    };
    let r = u.clone();
    store.users.push(u);
    proof {
        assert forall|a: int, b: int|
            0 <= a < store.users@.len() && 0 <= b < store.users@.len() && a != b
                implies store.users@[a].id@ != store.users@[b].id@ by {
            if a < old(store).users@.len() && b < old(store).users@.len() {
            } else if b == old(store).users@.len() {
                assert(old(store).users@[a].id@ != nu.id@);
            } else {
                assert(old(store).users@[b].id@ != nu.id@);
            }
        }
    }
    r
}

/// Create an account: hash the password with the slow salted one-way
/// function and store the record. The plaintext is never stored. A
/// taken identity is refused; a hashing failure leaves the store
/// unchanged.
pub fn create_user<'a>(
    store: &mut Store,
    id: &'a str,
    pass: &'a str,
    isadmin: &'a bool,
    first_name: Option<&'a str>,
    last_name: Option<&'a str>,
) -> (r: Result<User, CreateUserError>)
    requires
        old(store).wf(),
    ensures
        final(store).wf(),
        final(store).schedules == old(store).schedules,
        final(store).next_id == old(store).next_id,
        (has_user(old(store).users@, id@) ==> (r matches Err(e) && e
            == CreateUserError::DuplicateId)),
        (r matches Err(e) ==> final(store).users == old(store).users),
        (!has_user(old(store).users@, id@) ==> (r matches Err(e) ==> e
            == CreateUserError::HashFailure)),
        (r matches Ok(u) ==> !has_user(old(store).users@, id@) && final(store).users@ == old(
            store,
        ).users@.push(u) && u.id@ == id@ && u.isadmin == *isadmin && bcrypt_verifies(
            pass@,
            u.pass@,
        )),
        (r matches Ok(u) ==> (match first_name {
            Some(f) => u.first_name matches Some(g) && g@ == f@,
            None => u.first_name is None,
        }) && (match last_name {
            Some(f) => u.last_name matches Some(g) && g@ == f@,
            None => u.last_name is None,
        })),
{
    match find_user(store, id) {
        Some(_) => Err(CreateUserError::DuplicateId),
        None => {
            match hash_password(pass) {
                None => Err(CreateUserError::HashFailure),
                Some(h) => {
                    let nu = NewUser { id, pass: h.as_str(), first_name, last_name, isadmin };
                    let u = insert_user(store, nu);
                    Ok(u)
                },
            }
        },
    }
}

/// Update an account's password: the old password is re-verified first,
/// and a failed re-verification prevents the write — the stored hash
/// then stays exactly as it was.
pub fn update_password<'a>(store: &mut Store, id: &'a str, old_pass: &'a str, pass: &'a str) -> (r:
    Result<usize, UpdatePasswordError>)
    requires
        old(store).wf(),
    ensures
        final(store).wf(),
        final(store).schedules == old(store).schedules,
        final(store).next_id == old(store).next_id,
        (!spec_valid_credentials(old(store).users@, id@, old_pass@) ==> (r matches Err(e) && e
            == UpdatePasswordError::AuthenticationFailed)),
        (r matches Err(e) ==> final(store).users == old(store).users),
        (spec_valid_credentials(old(store).users@, id@, old_pass@) ==> (r matches Err(e) ==> e
            == UpdatePasswordError::HashFailure)),
        (r matches Ok(n) ==> n == 1 && spec_valid_credentials(old(store).users@, id@, old_pass@)
            && ({
            let i = user_idx(old(store).users@, id@);
            &&& final(store).users@.len() == old(store).users@.len()
            &&& forall|j: int|
                0 <= j < old(store).users@.len() && j != i ==> final(store).users@[j] == old(store).users@[j]
            &&& final(store).users@[i].id == old(store).users@[i].id
            &&& final(store).users@[i].first_name == old(store).users@[i].first_name
            &&& final(store).users@[i].last_name == old(store).users@[i].last_name
            &&& final(store).users@[i].isadmin == old(store).users@[i].isadmin
            &&& bcrypt_verifies(pass@, final(store).users@[i].pass@)
        })),
{
    if validate_user(store, id, old_pass).is_none() {
        return Err(UpdatePasswordError::AuthenticationFailed);
    }
    match hash_password(pass) {
        None => Err(UpdatePasswordError::HashFailure),
        Some(h) => {
            match find_user(store, id) {
                None => Err(UpdatePasswordError::StoreFailure),
                Some(i) => {
                    let ghost users0 = store.users@;
                    let u0 = &store.users[i];
                    let u = User {
                        id: u0.id.clone(),
                        pass: h,
                        first_name: crate::models::clone_opt_string(&u0.first_name),
                        last_name: crate::models::clone_opt_string(&u0.last_name),
                        isadmin: u0.isadmin,
                    };
                    store.users.set(i, u);
                    proof {
                        lemma_user_same_index(users0, id@, i as int, user_idx(users0, id@));
                        assert forall|a: int, b: int|
                            0 <= a < store.users@.len() && 0 <= b < store.users@.len() && a != b
                                implies store.users@[a].id@ != store.users@[b].id@ by {
                            assert(users0[a].id@ != users0[b].id@);
                        }
                    }
                    Ok(1)
                },
            }
        },
    }
}

/// List every account's identity and admin flag; administrative.
pub fn get_users(store: &Store, actor_is_admin: bool) -> (r: Result<Vec<UserName>, ServiceError>)
    ensures
        (!actor_is_admin ==> (r matches Err(e) && e == ServiceError::Authorization)),
        (actor_is_admin ==> (r matches Ok(v) && v@.len() == store.users@.len() && forall|i: int|
            0 <= i < v@.len() ==> (#[trigger] v@[i]).id@ == store.users@[i].id@ && v@[i].isadmin
                == store.users@[i].isadmin)),
{
    if !actor_is_admin {
        return Err(ServiceError::Authorization);
    }
    let n = store.users.len();
    let mut v: Vec<UserName> = Vec::new();
    let mut i: usize = 0;
    while i < n
        invariant
            n == store.users@.len(),
            i <= n,
            v@.len() == i,
            forall|j: int|
                0 <= j < i ==> (#[trigger] v@[j]).id@ == store.users@[j].id@ && v@[j].isadmin
                    == store.users@[j].isadmin,
        decreases n - i,
    {
        let u = &store.users[i];
        v.push(UserName { id: u.id.clone(), isadmin: u.isadmin });
        i += 1;
    }
    Ok(v)
}

/// Create an account with a freshly generated random password;
/// administrative. The new identity and the generated plaintext are
/// handed back so the transport can show them once.
pub fn add_user(store: &mut Store, actor_is_admin: bool, nu: &UserName) -> (r: Result<
    (User, String),
    ServiceError,
>)
    requires
        old(store).wf(),
    ensures
        final(store).wf(),
        final(store).schedules == old(store).schedules,
        final(store).next_id == old(store).next_id,
        (!actor_is_admin ==> (r matches Err(e) && e == ServiceError::Authorization)),
        (r matches Err(e) ==> final(store).users == old(store).users),
        (actor_is_admin ==> (r matches Err(e) ==> e == ServiceError::Store)),
        (r matches Ok(p) ==> actor_is_admin && !has_user(old(store).users@, nu.id@) && final(store).users@ == old(store).users@.push(p.0) && p.0.id@ == nu.id@ && p.0.isadmin == nu.isadmin
            && bcrypt_verifies(p.1@, p.0.pass@)),
{
    if !actor_is_admin {
        return Err(ServiceError::Authorization);
    }
    let pg = create_pg();
    match generate_one(&pg) {
        None => Err(ServiceError::Store),
        Some(np) => {
            match create_user(store, nu.id.as_str(), np.as_str(), &nu.isadmin, None, None) {
                Ok(u) => Ok((u, np)),
                Err(_) => Err(ServiceError::Store),
            }
        },
    }
}

/// Remove an account; administrative. An admin account can be removed
/// only by itself.
pub fn delete_user(store: &mut Store, actor: &str, actor_is_admin: bool, id: &str) -> (r: Result<
    usize,
    ServiceError,
>)
    requires
        old(store).wf(),
    ensures
        final(store).wf(),
        final(store).schedules == old(store).schedules,
        final(store).next_id == old(store).next_id,
        (r matches Err(e) ==> final(store).users == old(store).users),
        (!actor_is_admin ==> (r matches Err(e) && e == ServiceError::Authorization)),
        (actor_is_admin && !has_user(old(store).users@, id@) ==> (r matches Err(e) && e
            == ServiceError::Store)),
        (actor_is_admin && has_user(old(store).users@, id@) && !spec_can_delete_user(
            actor@,
            actor_is_admin,
            spec_user(old(store).users@, id@),
        ) ==> (r matches Err(e) && e == ServiceError::Authorization)),
        (actor_is_admin && has_user(old(store).users@, id@) && spec_can_delete_user(
            actor@,
            actor_is_admin,
            spec_user(old(store).users@, id@),
        ) ==> (r matches Ok(n) && n == 1 && final(store).users@ == old(store).users@.remove(
            user_idx(old(store).users@, id@),
        ))),
{
    if !actor_is_admin {
        return Err(ServiceError::Authorization);
    }
    match find_user(store, id) {
        None => Err(ServiceError::Store),
        Some(i) => {
            let ghost users0 = store.users@;
            proof {
                lemma_user_same_index(users0, id@, i as int, user_idx(users0, id@));
            }
            if can_delete_user(actor, actor_is_admin, &store.users[i]) {
                store.users.remove(i);
                proof {
                    assert forall|a: int, b: int|
                        0 <= a < store.users@.len() && 0 <= b < store.users@.len() && a != b
                            implies store.users@[a].id@ != store.users@[b].id@ by {
                        let a0 = if a < i as int {
                            a
                        } else {
                            a + 1
                        };
                        let b0 = if b < i as int {
                            b
                        } else {
                            b + 1
                        };
                        assert(store.users@[a] == users0[a0]);
                        assert(store.users@[b] == users0[b0]);
                    }
                }
                Ok(1)
            } else {
                Err(ServiceError::Authorization)
            }
        },
    }
}

} // verus!
