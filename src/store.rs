use vstd::prelude::*;
use crate::models::{DbArchitecture, DbBuild, DbDescription, DbDisplayName, DbFirmware, DbLanguage, DbPackage, DbResetToken, DbRole, DbScreenshot, DbUser, DbUserRole, DbVersion, Screenshot, User};
use crate::paging::{Row, copy_all, lemma_page_window, lemma_without_id_ascending, page, page_of, delete_by_id, without_id};

verus! {

/// Why a query gave no result.
#[derive(PartialEq, Eq, Structural, Debug, Clone, Copy)]
pub enum DbError {
    /// No row matched (also every failed login).
    NotFound,
    /// A stored password hash could not be read.
    BadHash,
    /// No further primary key is left.
    KeysExhausted,
    /// A new password could not be hashed.
    HashFailed,
    /// No randomness could be had for a token.
    RandomFailed,
}

/// A snapshot of the repository's tables, each in ascending primary-key order.
pub struct Db {
    pub architectures: Vec<DbArchitecture>,
    pub builds: Vec<DbBuild>,
    pub descriptions: Vec<DbDescription>,
    pub displaynames: Vec<DbDisplayName>,
    pub firmware: Vec<DbFirmware>,
    pub languages: Vec<DbLanguage>,
    pub packages: Vec<DbPackage>,
    pub reset_tokens: Vec<DbResetToken>,
    pub roles: Vec<DbRole>,
    pub screenshots: Vec<DbScreenshot>,
    pub user_roles: Vec<DbUserRole>,
    pub users: Vec<DbUser>,
    pub versions: Vec<DbVersion>,
}

impl Db {
    /// A snapshot with every table empty.
    pub fn new() -> (r: Db)
        ensures
            r.architectures@.len() == 0,
            r.builds@.len() == 0,
            r.descriptions@.len() == 0,
            r.displaynames@.len() == 0,
            r.firmware@.len() == 0,
            r.languages@.len() == 0,
            r.packages@.len() == 0,
            r.reset_tokens@.len() == 0,
            r.roles@.len() == 0,
            r.screenshots@.len() == 0,
            r.user_roles@.len() == 0,
            r.users@.len() == 0,
            r.versions@.len() == 0,
    {
        Db {
            architectures: Vec::new(),
            builds: Vec::new(),
            descriptions: Vec::new(),
            displaynames: Vec::new(),
            firmware: Vec::new(),
            languages: Vec::new(),
            packages: Vec::new(),
            reset_tokens: Vec::new(),
            roles: Vec::new(),
            screenshots: Vec::new(),
            user_roles: Vec::new(),
            users: Vec::new(),
            versions: Vec::new(),
        }
    }
}

/// Every table but the architectures is the same in `a` and `b`.
pub open spec fn same_but_architectures(a: &Db, b: &Db) -> bool {
    &&& a.builds@ == b.builds@
    &&& a.descriptions@ == b.descriptions@
    &&& a.displaynames@ == b.displaynames@
    &&& a.firmware@ == b.firmware@
    &&& a.languages@ == b.languages@
    &&& a.packages@ == b.packages@
    &&& a.reset_tokens@ == b.reset_tokens@
    &&& a.roles@ == b.roles@
    &&& a.screenshots@ == b.screenshots@
    &&& a.user_roles@ == b.user_roles@
    &&& a.users@ == b.users@
    &&& a.versions@ == b.versions@
}

/// Every table but the users is the same in `a` and `b`.
pub open spec fn same_but_users(a: &Db, b: &Db) -> bool {
    &&& a.architectures@ == b.architectures@
    &&& a.builds@ == b.builds@
    &&& a.descriptions@ == b.descriptions@
    &&& a.displaynames@ == b.displaynames@
    &&& a.firmware@ == b.firmware@
    &&& a.languages@ == b.languages@
    &&& a.packages@ == b.packages@
    &&& a.reset_tokens@ == b.reset_tokens@
    &&& a.roles@ == b.roles@
    &&& a.screenshots@ == b.screenshots@
    &&& a.user_roles@ == b.user_roles@
    &&& a.versions@ == b.versions@
}

/// Every table but the reset tokens is the same in `a` and `b`.
pub open spec fn same_but_reset_tokens(a: &Db, b: &Db) -> bool {
    &&& a.architectures@ == b.architectures@
    &&& a.builds@ == b.builds@
    &&& a.descriptions@ == b.descriptions@
    &&& a.displaynames@ == b.displaynames@
    &&& a.firmware@ == b.firmware@
    &&& a.languages@ == b.languages@
    &&& a.packages@ == b.packages@
    &&& a.roles@ == b.roles@
    &&& a.screenshots@ == b.screenshots@
    &&& a.user_roles@ == b.user_roles@
    &&& a.users@ == b.users@
    &&& a.versions@ == b.versions@
}

/// Every table but the users and the reset tokens is the same in `a` and `b`.
pub open spec fn same_but_credentials(a: &Db, b: &Db) -> bool {
    &&& a.architectures@ == b.architectures@
    &&& a.builds@ == b.builds@
    &&& a.descriptions@ == b.descriptions@
    &&& a.displaynames@ == b.displaynames@
    &&& a.firmware@ == b.firmware@
    &&& a.languages@ == b.languages@
    &&& a.packages@ == b.packages@
    &&& a.roles@ == b.roles@
    &&& a.screenshots@ == b.screenshots@
    &&& a.user_roles@ == b.user_roles@
    &&& a.versions@ == b.versions@
}

/// Every table is the same in `a` and `b`.
pub open spec fn same_tables(a: &Db, b: &Db) -> bool {
    &&& a.architectures@ == b.architectures@
    &&& a.builds@ == b.builds@
    &&& a.descriptions@ == b.descriptions@
    &&& a.displaynames@ == b.displaynames@
    &&& a.firmware@ == b.firmware@
    &&& a.languages@ == b.languages@
    &&& a.packages@ == b.packages@
    &&& a.reset_tokens@ == b.reset_tokens@
    &&& a.roles@ == b.roles@
    &&& a.screenshots@ == b.screenshots@
    &&& a.user_roles@ == b.user_roles@
    &&& a.users@ == b.users@
    &&& a.versions@ == b.versions@
}

/// Keys strictly ascend along the sequence.
pub open spec fn keys_ascending<T: Row>(s: Seq<T>) -> bool {
    forall|i: int, j: int| 0 <= i < j < s.len() ==> s[i].row_id() < s[j].row_id()
}

/// Whether `t` occurs in `s` as a contiguous run.
pub open spec fn contains_text(s: Seq<char>, t: Seq<char>) -> bool {
    exists|i: int| 0 <= i && i + t.len() <= s.len() && #[trigger] s.subrange(i, i + t.len()) == t
}

/// The first row of `s` with key `id`.
pub open spec fn find_key<T: Row>(s: Seq<T>, id: u64) -> Option<T>
    decreases s.len(),
{
    if s.len() == 0 {
        None
    } else if s[0].row_id() == id {
        Some(s[0])
    } else {
        find_key(s.drop_first(), id)
    }
}

/// The public part of a stored user.
pub open spec fn public_user(u: DbUser) -> User {
    User {
        id: u.id,
        username: u.username,
        email: u.email,
        active: u.active,
        confirmed_at: u.confirmed_at,
    }
}

/// Users whose name contains `term`, last key first.
pub open spec fn users_matching(s: Seq<DbUser>, term: Seq<char>) -> Seq<User>
    decreases s.len(),
{
    if s.len() == 0 {
        Seq::empty()
    } else {
        let rest = users_matching(s.drop_first(), term);
        if contains_text(s[0].username@, term) {
            rest.push(public_user(s[0]))
        } else {
            rest
        }
    }
}

/// Every user that the search gives comes from a row of `s`.
pub proof fn lemma_users_matching_from(s: Seq<DbUser>, term: Seq<char>)
    ensures
        forall|k: int|
            #![trigger users_matching(s, term)[k]]
            0 <= k < users_matching(s, term).len() ==> exists|j: int|
                0 <= j < s.len() && users_matching(s, term)[k] == public_user(#[trigger] s[j]),
    decreases s.len(),
{
    if s.len() > 0 {
        let rest = s.drop_first();
        lemma_users_matching_from(rest, term);
        assert forall|k: int|
            #![trigger users_matching(s, term)[k]]
            0 <= k < users_matching(s, term).len() implies exists|j: int|
                0 <= j < s.len() && users_matching(s, term)[k] == public_user(#[trigger] s[j]) by {
            if k < users_matching(rest, term).len() {
                assert(users_matching(s, term)[k] == users_matching(rest, term)[k]);
                let j = choose|j: int|
                    0 <= j < rest.len() && users_matching(rest, term)[k] == public_user(
                        #[trigger] rest[j],
                    );
                assert(s[j + 1] == rest[j]);
            } else {
                assert(users_matching(s, term)[k] == public_user(s[0]));
            }
        }
    }
}

/// On a table in ascending key order, the user search gives keys in strictly
/// descending order.
pub proof fn lemma_users_matching_descending(s: Seq<DbUser>, term: Seq<char>)
    requires
        keys_ascending(s),
    ensures
        forall|i: int, j: int|
            0 <= i < j < users_matching(s, term).len() ==> #[trigger] users_matching(s, term)[i].id
                > #[trigger] users_matching(s, term)[j].id,
    decreases s.len(),
{
    if s.len() > 0 {
        let rest = s.drop_first();
        assert forall|i: int, j: int| 0 <= i < j < rest.len() implies rest[i].row_id() < rest[j].row_id() by {
            assert(rest[i] == s[i + 1] && rest[j] == s[j + 1]);
        }
        lemma_users_matching_descending(rest, term);
        lemma_users_matching_from(rest, term);
        let r = users_matching(s, term);
        let p = users_matching(rest, term);
        assert forall|i: int, j: int| 0 <= i < j < r.len() implies #[trigger] r[i].id > #[trigger] r[j].id by {
            if j < p.len() {
                assert(r[i] == p[i] && r[j] == p[j]);
            } else {
                assert(r[j] == public_user(s[0]));
                assert(r[i] == p[i]);
                let m = choose|m: int| 0 <= m < rest.len() && p[i] == public_user(#[trigger] rest[m]);
                assert(rest[m] == s[m + 1]);
                assert(s[0].row_id() < s[m + 1].row_id());
            }
        }
    }
}

/// Screenshots joined with the name of their package; those whose package is
/// missing are left out.
pub open spec fn screenshots_joined(s: Seq<DbScreenshot>, p: Seq<DbPackage>) -> Seq<Screenshot>
    decreases s.len(),
{
    if s.len() == 0 {
        Seq::empty()
    } else {
        let rest = screenshots_joined(s.drop_last(), p);
        match find_key(p, s.last().package_id) {
            Some(pk) => rest.push(
                Screenshot { id: s.last().id, package: pk.name, path: s.last().path },
            ),
            None => rest,
        }
    }
}

/// Screenshots of one package, in their order.
pub open spec fn screenshots_of(s: Seq<DbScreenshot>, package_id: u64) -> Seq<DbScreenshot>
    decreases s.len(),
{
    if s.len() == 0 {
        s
    } else {
        let rest = screenshots_of(s.drop_last(), package_id);
        if s.last().package_id == package_id {
            rest.push(s.last())
        } else {
            rest
        }
    }
}

/// The first active user whose API key is exactly `key`.
pub open spec fn user_with_key(s: Seq<DbUser>, key: Seq<char>) -> Option<DbUser>
    decreases s.len(),
{
    if s.len() == 0 {
        None
    } else if s[0].active && s[0].api_key is Some && s[0].api_key->0@ == key {
        Some(s[0])
    } else {
        user_with_key(s.drop_first(), key)
    }
}

/// The API-key lookup gives a user only when an active row holds exactly that
/// key, and then the first such row; when no active row holds it, none.
pub proof fn lemma_api_key_exact(s: Seq<DbUser>, key: Seq<char>)
    ensures
        user_with_key(s, key) matches Some(u) ==> exists|i: int|
            0 <= i < s.len() && s[i] == u && #[trigger] s[i].active && s[i].api_key is Some
                && s[i].api_key->0@ == key,
        user_with_key(s, key) is None <==> forall|i: int|
            0 <= i < s.len() ==> !(#[trigger] s[i].active && s[i].api_key is Some
                && s[i].api_key->0@ == key),
    decreases s.len(),
{
    if s.len() > 0 {
        lemma_api_key_exact(s.drop_first(), key);
        if user_with_key(s, key) is Some && !(s[0].active && s[0].api_key is Some
            && s[0].api_key->0@ == key) {
            let i = choose|i: int|
                0 <= i < s.drop_first().len() && s.drop_first()[i] == user_with_key(s, key)->0
                    && #[trigger] s.drop_first()[i].active && s.drop_first()[i].api_key is Some
                    && s.drop_first()[i].api_key->0@ == key;
            assert(s[i + 1] == s.drop_first()[i]);
        }
        if user_with_key(s, key) is None {
            assert forall|i: int|
                0 <= i < s.len() implies !(#[trigger] s[i].active && s[i].api_key is Some
                && s[i].api_key->0@ == key) by {
                if i > 0 {
                    assert(s[i] == s.drop_first()[i - 1]);
                }
            }
        } else {
            if !(s[0].active && s[0].api_key is Some && s[0].api_key->0@ == key) {
                assert(!(forall|i: int|
                    0 <= i < s.drop_first().len() ==> !(#[trigger] s.drop_first()[i].active
                        && s.drop_first()[i].api_key is Some && s.drop_first()[i].api_key->0@
                        == key)));
                let j = choose|j: int|
                    0 <= j < s.drop_first().len() && (#[trigger] s.drop_first()[j].active
                        && s.drop_first()[j].api_key is Some && s.drop_first()[j].api_key->0@
                        == key);
                assert(s[j + 1] == s.drop_first()[j]);
            }
        }
    }
}

/// Finds the row with key `id`.
pub fn lookup<T: Row>(rows: &Vec<T>, id: u64) -> (r: Option<&T>)
    ensures
        r matches Some(x) ==> find_key(rows@, id) == Some(*x),
        r is None ==> find_key(rows@, id) is None,
{
    let mut i: usize = 0;
    assert(rows@.skip(0) =~= rows@);
    while i < rows.len()
        invariant
            i <= rows@.len(),
            find_key(rows@, id) == find_key(rows@.skip(i as int), id),
        decreases rows@.len() - i,
    {
        assert(rows@.skip(i as int).drop_first() =~= rows@.skip(i as int + 1));
        if rows[i].id_of() == id {
            return Some(&rows[i]);
        }
        i = i + 1;
    }
    None
}

/// Whether `t` occurs in `s` at position `at`.
pub(crate) fn occurs_at(s: &str, t: &str, at: usize) -> (r: bool)
    requires
        at + t@.len() <= s@.len(),
    ensures
        r == (s@.subrange(at as int, at + t@.len()) == t@),
{
    let n = t.unicode_len();
    let len = s.unicode_len();
    let mut k: usize = 0;
    while k < n
        invariant
            n == t@.len(),
            len == s@.len(),
            at + n <= s@.len(),
            k <= n,
            forall|j: int| 0 <= j < k ==> s@[at + j] == t@[j],
        decreases n - k,
    {
        if s.get_char(at + k) != t.get_char(k) {
            assert(s@.subrange(at as int, at + t@.len())[k as int] != t@[k as int]);
            return false;
        }
        k = k + 1;
    }
    assert(s@.subrange(at as int, at + t@.len()) =~= t@);
    true
}

/// Whether `t` occurs in `s`.
pub fn contains(s: &str, t: &str) -> (r: bool)
    ensures
        r == contains_text(s@, t@),
{
    let n = s.unicode_len();
    let m = t.unicode_len();
    if m > n {
        return false;
    }
    let mut i: usize = 0;
    while i <= n - m
        invariant
            n == s@.len(),
            m == t@.len(),
            m <= n,
            i <= n - m + 1,
            forall|j: int| 0 <= j < i ==> #[trigger] s@.subrange(j, j + m) != t@,
        decreases n - m + 1 - i,
    {
        if occurs_at(s, t, i) {
            return true;
        }
        if i == n - m {
            return false;
        }
        i = i + 1;
    }
    false
}

impl DbArchitecture {
    /// At most `limit` architectures after the first `offset`.
    pub fn find_all(db: &Db, limit: i64, offset: i64) -> (r: Vec<DbArchitecture>)
        requires
            limit >= 0,
            offset >= 0,
        ensures
            r@ == page(db.architectures@, limit as int, offset as int),
    {
        page_of(&db.architectures, limit, offset)
    }

    /// Adds an architecture under the next free key.
    pub fn create(db: &mut Db, code: String) -> (r: Result<DbArchitecture, DbError>)
        requires
            keys_ascending(old(db).architectures@),
        ensures
            keys_ascending(final(db).architectures@),
            match r {
                Ok(a) => {
                    &&& a.code == code
                    &&& a.id == if old(db).architectures@.len() == 0 {
                        1
                    } else {
                        old(db).architectures@.last().id + 1
                    }
                    &&& final(db).architectures@ == old(db).architectures@.push(a)
                },
                Err(e) => {
                    &&& e == DbError::KeysExhausted
                    &&& old(db).architectures@.len() > 0
                    &&& old(db).architectures@.last().id == u64::MAX
                    &&& final(db).architectures@ == old(db).architectures@
                },
            },
            same_but_architectures(old(db), final(db)),
    {
        let n = db.architectures.len();
        let id: u64 = if n == 0 {
            1
        } else {
            let last = db.architectures[n - 1].id;
            if last == u64::MAX {
                return Err(DbError::KeysExhausted);
            }
            last + 1
        };
        let row = DbArchitecture { id, code: code.clone() };
        db.architectures.push(DbArchitecture { id, code });
        Ok(row)
    }

    /// Removes the architecture with key `id`; returns how many rows went.
    pub fn delete(db: &mut Db, id: u64) -> (n: usize)
        ensures
            final(db).architectures@ == without_id(old(db).architectures@, id),
            n == old(db).architectures@.len() - final(db).architectures@.len(),
            same_but_architectures(old(db), final(db)),
            keys_ascending(old(db).architectures@) ==> keys_ascending(final(db).architectures@),
    {
        let n = delete_by_id(&mut db.architectures, id);
        proof {
            if keys_ascending(old(db).architectures@) {
                lemma_without_id_ascending(old(db).architectures@, id);
            }
        }
        n
    }
}

impl DbFirmware {
    /// Every firmware row.
    pub fn find_all(db: &Db) -> (r: Vec<DbFirmware>)
        ensures
            r@ == db.firmware@,
    {
        copy_all(&db.firmware)
    }
}

impl DbBuild {
    /// Every build row.
    pub fn find_all(db: &Db) -> (r: Vec<DbBuild>)
        ensures
            r@ == db.builds@,
    {
        copy_all(&db.builds)
    }
}


impl DbScreenshot {
    /// At most `limit` screenshots, joined with their package's name, after the
    /// first `offset`.
    pub fn find_all(db: &Db, limit: i64, offset: i64) -> (r: Vec<Screenshot>)
        requires
            limit >= 0,
            offset >= 0,
        ensures
            r@ == page(screenshots_joined(db.screenshots@, db.packages@), limit as int, offset as int),
    {
        let rows = &db.screenshots;
        let mut all: Vec<Screenshot> = Vec::new();
        let mut i: usize = 0;
        while i < rows.len()
            invariant
                i <= rows@.len(),
                all@ == screenshots_joined(rows@.take(i as int), db.packages@),
            decreases rows@.len() - i,
        {
            assert(rows@.take(i as int + 1).drop_last() =~= rows@.take(i as int));
            let shot = &rows[i];
            match lookup(&db.packages, shot.package_id) {
                Some(pk) => {
                    all.push(Screenshot { id: shot.id, package: pk.name.clone(), path: shot.path.clone() });
                },
                None => {},
            }
            i = i + 1;
        }
        assert(rows@.take(i as int) =~= rows@);
        page_of(&all, limit, offset)
    }

    /// The screenshots of one package.
    pub fn from_package(package_id: u64, db: &Db) -> (r: Vec<DbScreenshot>)
        ensures
            r@ == screenshots_of(db.screenshots@, package_id),
    {
        let rows = &db.screenshots;
        let mut out: Vec<DbScreenshot> = Vec::new();
        let mut i: usize = 0;
        while i < rows.len()
            invariant
                i <= rows@.len(),
                out@ == screenshots_of(rows@.take(i as int), package_id),
            decreases rows@.len() - i,
        {
            assert(rows@.take(i as int + 1).drop_last() =~= rows@.take(i as int));
            if rows[i].package_id == package_id {
                out.push(rows[i].duplicate());
            }
            i = i + 1;
        }
        assert(rows@.take(i as int) =~= rows@);
        out
    }
}

/// The public part of a stored user.
pub fn to_public(u: &DbUser) -> (r: User)
    ensures
        r == public_user(*u),
{
    User {
        id: u.id,
        username: u.username.clone(),
        email: u.email.clone(),
        active: u.active,
        confirmed_at: u.confirmed_at,
    }
}

impl User {
    /// At most `limit` users whose name contains `search_term`, in descending
    /// key order, after the first `offset`; the user table must be held in
    /// ascending key order, as every table of a `Db` is.
    pub fn find_all(db: &Db, limit: i64, offset: i64, search_term: String) -> (r: Vec<User>)
        requires
            limit >= 0,
            offset >= 0,
            keys_ascending(db.users@),
        ensures
            r@ == page(users_matching(db.users@, search_term@), limit as int, offset as int),
            forall|i: int, j: int|
                0 <= i < j < r@.len() ==> #[trigger] r@[i].id > #[trigger] r@[j].id,
    {
        let rows = &db.users;
        let mut all: Vec<User> = Vec::new();
        let mut i: usize = rows.len();
        assert(rows@.skip(i as int) =~= Seq::<DbUser>::empty());
        while i > 0
            invariant
                i <= rows@.len(),
                all@ == users_matching(rows@.skip(i as int), search_term@),
            decreases i,
        {
            assert(rows@.skip(i as int - 1).drop_first() =~= rows@.skip(i as int));
            if contains(rows[i - 1].username.as_str(), search_term.as_str()) {
                all.push(to_public(&rows[i - 1]));
            }
            i = i - 1;
        }
        assert(rows@.skip(0) =~= rows@);
        let r = page_of(&all, limit, offset);
        proof {
            let m = users_matching(db.users@, search_term@);
            lemma_page_window(m, limit as int, offset as int);
            lemma_users_matching_descending(db.users@, search_term@);
            assert forall|i: int, j: int| 0 <= i < j < r@.len() implies #[trigger] r@[i].id
                > #[trigger] r@[j].id by {
                assert(r@[i] == m[offset + i]);
                assert(r@[j] == m[offset + j]);
            }
        }
        r
    }

    /// Removes the user with key `id`; returns how many rows went.
    pub fn delete(db: &mut Db, id: u64) -> (n: usize)
        ensures
            final(db).users@ == without_id(old(db).users@, id),
            n == old(db).users@.len() - final(db).users@.len(),
            same_but_users(old(db), final(db)),
            keys_ascending(old(db).users@) ==> keys_ascending(final(db).users@),
    {
        let n = delete_by_id(&mut db.users, id);
        proof {
            if keys_ascending(old(db).users@) {
                lemma_without_id_ascending(old(db).users@, id);
            }
        }
        n
    }

    /// The active user whose API key is exactly `key`.
    pub fn validate_api_key(db: &Db, key: String) -> (r: Result<User, DbError>)
        ensures
            match user_with_key(db.users@, key@) {
                Some(u) => r == Ok::<User, DbError>(public_user(u)),
                None => r == Err::<User, DbError>(DbError::NotFound),
            },
    {
        let rows = &db.users;
        let mut i: usize = 0;
        assert(rows@.skip(0) =~= rows@);
        while i < rows.len()
            invariant
                i <= rows@.len(),
                rows@ == db.users@,
                user_with_key(rows@, key@) == user_with_key(rows@.skip(i as int), key@),
            decreases rows@.len() - i,
        {
            assert(rows@.skip(i as int).drop_first() =~= rows@.skip(i as int + 1));
            let u = &rows[i];
            if u.active {
                match &u.api_key {
                    Some(k) => {
                        if *k == key {
                            assert(rows@.skip(i as int)[0] == *u);
                            let found = to_public(u);
                            return Ok(found);
                        }
                    },
                    None => {},
                }
            }
            i = i + 1;
        }
        Err(DbError::NotFound)
    }
}

} // verus!
