use vstd::prelude::*;
use crate::models::{DbResetToken, DbRole, DbUser, DbUserRole, UserWithKey};
use crate::paging::{delete_by_id, without_id, Row};
use crate::store::{
    find_key, lookup, same_but_credentials, same_but_reset_tokens, same_tables, Db, DbError,
};
use rand::distributions::Alphanumeric;
use rand::rngs::{OsRng, StdRng};
use rand::{Rng, SeedableRng};

verus! {

/// What `bcrypt::verify` returns for a password and a stored hash: `Some(true)`
/// when they match, `Some(false)` when not, `None` when the hash is malformed.
pub uninterp spec fn bcrypt_verdict(password: Seq<char>, hash: Seq<char>) -> Option<bool>;

/// Relies on `bcrypt::verify`: its result is a function of the password and the
/// hash alone, and its error is turned into `None`.
#[verifier::external_body]
fn check_password(password: &str, hash: &str) -> (r: Option<bool>)
    ensures
        r == bcrypt_verdict(password@, hash@),
{
    bcrypt::verify(password, hash).ok()
}

/// Relies on `bcrypt::hash` with `bcrypt::DEFAULT_COST`: it draws a random salt,
/// so the hash is not fixed, but `bcrypt::verify` accepts the password against
/// every hash it returns. A failure (of the system's randomness) is `None`.
#[verifier::external_body]
fn hash_password(password: &str) -> (r: Option<String>)
    ensures
        r matches Some(h) ==> bcrypt_verdict(password@, h@) == Some(true),
{
    bcrypt::hash(password, bcrypt::DEFAULT_COST).ok()
}

/// A character that a reset token may hold: an ASCII letter or digit.
pub open spec fn is_token_char(c: char) -> bool {
    ('a' <= c && c <= 'z') || ('A' <= c && c <= 'Z') || ('0' <= c && c <= '9')
}

/// Relies on rand's `StdRng::from_rng(OsRng)`, which fails (here: `None`) when
/// the system's randomness does, and on the `Alphanumeric` distribution: each
/// draw is one ASCII letter or digit.
#[verifier::external_body]
fn random_token(len: usize) -> (r: Option<String>)
    ensures
        r matches Some(t) ==> t@.len() == len && forall|i: int|
            0 <= i < t@.len() ==> is_token_char(#[trigger] t@[i]),
{
    let rng = StdRng::from_rng(OsRng).ok()?;
    Some(rng.sample_iter(&Alphanumeric).take(len).map(char::from).collect())
}

/// Length of the token that a password reset hands out.
pub const RESET_TOKEN_LEN: usize = 30;

/// A stored user as read for authentication.
pub open spec fn keyed(u: DbUser) -> UserWithKey {
    UserWithKey {
        id: u.id,
        username: u.username,
        password: u.password,
        email: u.email,
        active: u.active,
        api_key: u.api_key,
        confirmed_at: u.confirmed_at,
    }
}

/// `x` is `u` with an empty password field.
pub open spec fn stripped(x: UserWithKey, u: UserWithKey) -> bool {
    &&& x.id == u.id
    &&& x.username == u.username
    &&& x.password@ == Seq::<char>::empty()
    &&& x.email == u.email
    &&& x.active == u.active
    &&& x.api_key == u.api_key
    &&& x.confirmed_at == u.confirmed_at
}

/// The first active user whose email (when `by_email`) or name equals `key`.
pub open spec fn first_active(s: Seq<DbUser>, by_email: bool, key: Seq<char>) -> Option<DbUser>
    decreases s.len(),
{
    if s.len() == 0 {
        None
    } else if s[0].active && (if by_email {
        s[0].email@ == key
    } else {
        s[0].username@ == key
    }) {
        Some(s[0])
    } else {
        first_active(s.drop_first(), by_email, key)
    }
}

/// The stored user that a login names: by email when one is given, else by
/// name.
pub open spec fn named_row(s: Seq<DbUser>, username: Option<String>, email: Option<String>) -> Option<
    DbUser,
> {
    match email {
        Some(e) => first_active(s, true, e@),
        None => match username {
            Some(n) => first_active(s, false, n@),
            None => None,
        },
    }
}

/// Whether stored user `u` is one that a login with these names could name:
/// active, with the email when one is given, else with the name.
pub open spec fn named_match(u: DbUser, username: Option<String>, email: Option<String>) -> bool {
    match email {
        Some(e) => u.active && u.email@ == e@,
        None => match username {
            Some(n) => u.active && u.username@ == n@,
            None => false,
        },
    }
}

/// The user that a login names, as read for authentication.
pub open spec fn named_user(
    s: Seq<DbUser>,
    username: Option<String>,
    email: Option<String>,
) -> Option<UserWithKey> {
    match named_row(s, username, email) {
        Some(u) => Some(keyed(u)),
        None => None,
    }
}

/// Whether a reset token `token` was handed out to user `uid` and is unused.
pub open spec fn token_issued(s: Seq<DbResetToken>, uid: u64, token: Seq<char>) -> bool {
    exists|i: int| 0 <= i < s.len() && #[trigger] s[i].user_id == uid && s[i].token@ == token
}

/// The roles linked to user `uid`, in the order of the links; links to a
/// missing role are left out.
pub open spec fn roles_for(links: Seq<DbUserRole>, roles: Seq<DbRole>, uid: u64) -> Seq<DbRole>
    decreases links.len(),
{
    if links.len() == 0 {
        Seq::empty()
    } else {
        let rest = roles_for(links.drop_last(), roles, uid);
        if links.last().user_id == uid {
            match find_key(roles, links.last().role_id) {
                Some(r) => rest.push(r),
                None => rest,
            }
        } else {
            rest
        }
    }
}

/// The outcome of a login from the user found, the password check on its hash,
/// and its roles; on success the user is handed out without its password.
pub open spec fn login_spec(
    found: Option<UserWithKey>,
    verdict: Option<bool>,
    roles: Seq<DbRole>,
) -> Result<(UserWithKey, Seq<DbRole>), DbError> {
    match found {
        None => Err(DbError::NotFound),
        Some(u) => match verdict {
            None => Err(DbError::BadHash),
            Some(false) => Err(DbError::NotFound),
            Some(true) => if roles.len() == 0 {
                Err(DbError::NotFound)
            } else {
                Ok((u, roles))
            },
        },
    }
}

/// `r` is the outcome `s`, with the password of a user handed out blanked.
pub open spec fn outcome_is(
    r: Result<(UserWithKey, Vec<DbRole>), DbError>,
    s: Result<(UserWithKey, Seq<DbRole>), DbError>,
) -> bool {
    match (r, s) {
        (Ok((x, rs)), Ok((u, roles))) => stripped(x, u) && rs@ == roles,
        (Err(e), Err(f)) => e == f,
        _ => false,
    }
}

/// The password check that a login makes on the user found.
pub open spec fn verdict_for(found: Option<UserWithKey>, password: Seq<char>) -> Option<bool> {
    match found {
        Some(u) => bcrypt_verdict(password, u.password@),
        None => None,
    }
}

/// The roles of the user found, if any.
pub open spec fn roles_of_found(db: &Db, found: Option<UserWithKey>) -> Seq<DbRole> {
    match found {
        Some(u) => roles_for(db.user_roles@, db.roles@, u.id),
        None => Seq::empty(),
    }
}

fn first_active_index(s: &Vec<DbUser>, by_email: bool, key: &String) -> (r: Option<usize>)
    ensures
        r matches Some(i) ==> i < s@.len() && first_active(s@, by_email, key@) == Some(s@[i as int])
            && s@[i as int].active && (if by_email {
            s@[i as int].email@ == key@
        } else {
            s@[i as int].username@ == key@
        }) && forall|j: int|
            0 <= j < i ==> !(#[trigger] s@[j].active && (if by_email {
                s@[j].email@ == key@
            } else {
                s@[j].username@ == key@
            })),
        r is None ==> first_active(s@, by_email, key@) is None,
{
    let mut i: usize = 0;
    assert(s@.skip(0) =~= s@);
    while i < s.len()
        invariant
            i <= s@.len(),
            first_active(s@, by_email, key@) == first_active(s@.skip(i as int), by_email, key@),
            forall|j: int|
                0 <= j < i ==> !(#[trigger] s@[j].active && (if by_email {
                    s@[j].email@ == key@
                } else {
                    s@[j].username@ == key@
                })),
        decreases s@.len() - i,
    {
        assert(s@.skip(i as int).drop_first() =~= s@.skip(i as int + 1));
        assert(s@.skip(i as int)[0] == s@[i as int]);
        let u = &s[i];
        let hit = if by_email {
            u.email == *key
        } else {
            u.username == *key
        };
        if u.active && hit {
            return Some(i);
        }
        i = i + 1;
    }
    None
}

/// A stored user as read for authentication.
fn to_keyed(u: &DbUser) -> (r: UserWithKey)
    ensures
        r == keyed(*u),
{
    UserWithKey {
        id: u.id,
        username: u.username.clone(),
        password: u.password.clone(),
        email: u.email.clone(),
        active: u.active,
        api_key: crate::models::copy_text(&u.api_key),
        confirmed_at: u.confirmed_at,
    }
}

/// Position of the stored user that a login names.
fn named_index(db: &Db, username: &Option<String>, email: &Option<String>) -> (r: Option<usize>)
    ensures
        r matches Some(i) ==> i < db.users@.len() && named_row(db.users@, *username, *email)
            == Some(db.users@[i as int]) && named_match(db.users@[i as int], *username, *email)
            && forall|j: int| 0 <= j < i ==> !named_match(#[trigger] db.users@[j], *username, *email),
        r is None ==> named_row(db.users@, *username, *email) is None,
{
    match email {
        Some(e) => first_active_index(&db.users, true, e),
        None => match username {
            Some(n) => first_active_index(&db.users, false, n),
            None => None,
        },
    }
}

/// Whether token `token` was handed out to user `uid` and is unused.
fn has_token(s: &Vec<DbResetToken>, uid: u64, token: &str) -> (r: bool)
    ensures
        r == token_issued(s@, uid, token@),
{
    let mut i: usize = 0;
    while i < s.len()
        invariant
            i <= s@.len(),
            forall|j: int| 0 <= j < i ==> !(#[trigger] s@[j].user_id == uid && s@[j].token@ == token@),
        decreases s@.len() - i,
    {
        if s[i].user_id == uid && crate::packages::same_text(s[i].token.as_str(), token) {
            return true;
        }
        i = i + 1;
    }
    false
}

/// Loads the roles linked to user `uid`.
pub fn load_roles(db: &Db, uid: u64) -> (r: Vec<DbRole>)
    ensures
        r@ == roles_for(db.user_roles@, db.roles@, uid),
{
    let links = &db.user_roles;
    let mut out: Vec<DbRole> = Vec::new();
    let mut i: usize = 0;
    while i < links.len()
        invariant
            i <= links@.len(),
            links@ == db.user_roles@,
            out@ == roles_for(links@.take(i as int), db.roles@, uid),
        decreases links@.len() - i,
    {
        assert(links@.take(i as int + 1).drop_last() =~= links@.take(i as int));
        if links[i].user_id == uid {
            match lookup(&db.roles, links[i].role_id) {
                Some(role) => out.push(role.duplicate()),
                None => {},
            }
        }
        i = i + 1;
    }
    assert(links@.take(i as int) =~= links@);
    out
}

impl UserWithKey {
    /// Blanks the password hash so that it is not handed out.
    pub fn remove_password_from_output(&mut self)
        ensures
            stripped(*final(self), *old(self)),
    {
        self.password = String::new();
    }
}

/// Decides a login from the user found, the password check on its hash and its
/// roles. Every refusal but a malformed hash is the same `NotFound`.
pub fn decide_login(
    found: Option<UserWithKey>,
    verdict: Option<bool>,
    roles: Vec<DbRole>,
) -> (r: Result<(UserWithKey, Vec<DbRole>), DbError>)
    ensures
        outcome_is(r, login_spec(found, verdict, roles@)),
{
    match found {
        None => Err(DbError::NotFound),
        Some(mut u) => match verdict {
            None => Err(DbError::BadHash),
            Some(false) => Err(DbError::NotFound),
            Some(true) => {
                if roles.len() == 0 {
                    Err(DbError::NotFound)
                } else {
                    u.remove_password_from_output();
                    Ok((u, roles))
                }
            },
        },
    }
}

/// Stores `hash` as the password of the user at position `i`, uses up that
/// user's reset tokens, and returns the user (without its password) and its
/// roles.
pub fn apply_password_reset(db: &mut Db, i: usize, hash: String) -> (r: (UserWithKey, Vec<DbRole>))
    requires
        i < old(db).users@.len(),
    ensures
        ({
            let u = old(db).users@[i as int];
            &&& stripped(r.0, keyed(u))
            &&& r.1@ == roles_for(old(db).user_roles@, old(db).roles@, u.id)
            &&& final(db).users@ == old(db).users@.update(i as int, (DbUser { password: hash, ..u }))
            &&& final(db).reset_tokens@ == without_id(old(db).reset_tokens@, u.id)
            &&& same_but_credentials(old(db), final(db))
        }),
{
    let uid = db.users[i].id;
    let mut user = to_keyed(&db.users[i]);
    user.remove_password_from_output();
    db.users[i].password = hash;
    delete_by_id(&mut db.reset_tokens, uid);
    let roles = load_roles(db, uid);
    (user, roles)
}

/// Keeps `token` among the unused reset tokens of the user at position `i`,
/// and returns that user (without its password) and the token.
pub fn record_reset_token(db: &mut Db, i: usize, token: String) -> (r: (UserWithKey, String))
    requires
        i < old(db).users@.len(),
    ensures
        stripped(r.0, keyed(old(db).users@[i as int])),
        r.1 == token,
        final(db).reset_tokens@ == old(db).reset_tokens@.push(
            DbResetToken { user_id: old(db).users@[i as int].id, token },
        ),
        same_but_reset_tokens(old(db), final(db)),
{
    let mut u = to_keyed(&db.users[i]);
    u.remove_password_from_output();
    db.reset_tokens.push(DbResetToken { user_id: u.id, token: token.clone() });
    (u, token)
}

impl crate::models::User {
    /// The active user that a login names: by email when one is given, else by
    /// name.
    pub fn find_user(db: &Db, username: &Option<String>, email: &Option<String>) -> (r: Option<
        UserWithKey,
    >)
        ensures
            r == named_user(db.users@, *username, *email),
    {
        match named_index(db, username, email) {
            Some(i) => Some(to_keyed(&db.users[i])),
            None => None,
        }
    }

    /// Logs a user in by name or email and password.
    pub fn login(
        db: &Db,
        username: &Option<String>,
        email: &Option<String>,
        password: &str,
    ) -> (r: Result<(UserWithKey, Vec<DbRole>), DbError>)
        ensures
            ({
                let found = named_user(db.users@, *username, *email);
                outcome_is(
                    r,
                    login_spec(found, verdict_for(found, password@), roles_of_found(db, found)),
                )
            }),
    {
        let found = Self::find_user(db, username, email);
        match found {
            None => Err(DbError::NotFound),
            Some(u) => {
                let verdict = check_password(password, u.password.as_str());
                let roles = if verdict == Some(true) {
                    load_roles(db, u.id)
                } else {
                    Vec::new()
                };
                decide_login(Some(u), verdict, roles)
            },
        }
    }

    /// Sets a new password for the user named (the first row that matches),
    /// when `reset_token` is a token that was handed out to that user; the
    /// user's tokens are then used up.
    /// On success the user (without its password) and its roles come back.
    pub fn reset(
        db: &mut Db,
        username: &Option<String>,
        email: &Option<String>,
        new_password: &str,
        reset_token: &str,
    ) -> (r: Result<(UserWithKey, Vec<DbRole>), DbError>)
        ensures
            match named_row(old(db).users@, *username, *email) {
                None => r == Err::<(UserWithKey, Vec<DbRole>), DbError>(DbError::NotFound)
                    && same_tables(old(db), final(db)),
                Some(u) => if !token_issued(old(db).reset_tokens@, u.id, reset_token@) {
                    r == Err::<(UserWithKey, Vec<DbRole>), DbError>(DbError::NotFound)
                        && same_tables(old(db), final(db))
                } else {
                    match r {
                        Ok((x, roles)) => {
                            &&& stripped(x, keyed(u))
                            &&& roles@ == roles_for(old(db).user_roles@, old(db).roles@, u.id)
                            &&& final(db).reset_tokens@ == without_id(old(db).reset_tokens@, u.id)
                            &&& same_but_credentials(old(db), final(db))
                            &&& exists|i: int|
                                0 <= i < old(db).users@.len() && old(db).users@[i] == u
                                    && named_match(old(db).users@[i], *username, *email)
                                    && (forall|j: int|
                                    0 <= j < i ==> !named_match(
                                        #[trigger] old(db).users@[j],
                                        *username,
                                        *email,
                                    )) && final(db).users@ == old(db).users@.update(
                                    i,
                                    (DbUser { password: final(db).users@[i].password, ..u }),
                                ) && bcrypt_verdict(new_password@, final(db).users@[i].password@)
                                    == Some(true)
                        },
                        Err(e) => e == DbError::HashFailed && same_tables(old(db), final(db)),
                    }
                },
            },
    {
        let i = match named_index(db, username, email) {
            Some(i) => i,
            None => {
                return Err(DbError::NotFound);
            },
        };
        let uid = db.users[i].id;
        if !has_token(&db.reset_tokens, uid, reset_token) {
            return Err(DbError::NotFound);
        }
        let hash = match hash_password(new_password) {
            Some(h) => h,
            None => {
                return Err(DbError::HashFailed);
            },
        };
        Ok(apply_password_reset(db, i, hash))
    }

    /// Draws a fresh reset token for the active user with this email and keeps
    /// it among the unused tokens; the caller sends it to the user. Fails with
    /// `RandomFailed`, changing nothing, when no randomness can be had.
    pub fn send_reset_link(db: &mut Db, email: &String) -> (r: Result<(UserWithKey, String), DbError>)
        ensures
            match first_active(old(db).users@, true, email@) {
                None => r == Err::<(UserWithKey, String), DbError>(DbError::NotFound)
                    && same_tables(old(db), final(db)),
                Some(u) => match r {
                    Ok((k, t)) => {
                        &&& stripped(k, keyed(u))
                        &&& t@.len() == RESET_TOKEN_LEN
                        &&& forall|i: int| 0 <= i < t@.len() ==> is_token_char(#[trigger] t@[i])
                        &&& final(db).reset_tokens@ == old(db).reset_tokens@.push(
                            DbResetToken { user_id: u.id, token: t },
                        )
                        &&& same_but_reset_tokens(old(db), final(db))
                    },
                    Err(e) => e == DbError::RandomFailed && same_tables(old(db), final(db)),
                },
            },
    {
        match first_active_index(&db.users, true, email) {
            None => Err(DbError::NotFound),
            Some(i) => match random_token(RESET_TOKEN_LEN) {
                Some(token) => Ok(record_reset_token(db, i, token)),
                None => Err(DbError::RandomFailed),
            },
        }
    }
}

/// A login succeeds exactly when the user is found, the password matches its
/// hash and the user holds a role; an unknown user, a wrong password and a
/// user without roles all give the same `NotFound`.
pub proof fn lemma_login_outcomes(
    found: Option<UserWithKey>,
    verdict: Option<bool>,
    roles: Seq<DbRole>,
)
    ensures
        login_spec(found, verdict, roles) is Ok <==> (found is Some && verdict == Some(true)
            && roles.len() > 0),
        found is None ==> login_spec(found, verdict, roles) == Err::<
            (UserWithKey, Seq<DbRole>),
            DbError,
        >(DbError::NotFound),
        found is Some && verdict == Some(false) ==> login_spec(found, verdict, roles) == Err::<
            (UserWithKey, Seq<DbRole>),
            DbError,
        >(DbError::NotFound),
        found is Some && verdict == Some(true) && roles.len() == 0 ==> login_spec(
            found,
            verdict,
            roles,
        ) == Err::<(UserWithKey, Seq<DbRole>), DbError>(DbError::NotFound),
{
}

} // verus!
