use pkgrepo::auth::{apply_password_reset, record_reset_token, RESET_TOKEN_LEN};
use pkgrepo::models::DbResetToken;
use pkgrepo::models::{
    DbArchitecture, DbBuild, DbDescription, DbDisplayName, DbLanguage, DbPackage, DbRole,
    DbScreenshot, DbUser, DbUserRole, DbVersion, User, UserWithKey,
};
use pkgrepo::packages::{same_text, LISTING_LANGUAGE};
use pkgrepo::store::{contains, Db, DbError};

fn arch(id: u64, code: &str) -> DbArchitecture {
    DbArchitecture { id, code: code.to_string() }
}

fn user(id: u64, name: &str, email: &str, hash: &str, key: Option<&str>, active: bool) -> DbUser {
    DbUser {
        id,
        username: name.to_string(),
        email: email.to_string(),
        password: hash.to_string(),
        api_key: key.map(|k| k.to_string()),
        github_access_token: None,
        active,
        confirmed_at: Some(1_600_000_000),
    }
}

fn arch_db() -> Db {
    let mut db = Db::new();
    for (i, c) in ["x86_64", "armv7", "aarch64", "ppc", "i686"].iter().enumerate() {
        db.architectures.push(arch(i as u64 + 1, c));
    }
    db
}

fn codes(rows: &[DbArchitecture]) -> Vec<String> {
    rows.iter().map(|a| a.code.clone()).collect()
}

#[test]
fn find_all_pages_after_offset() {
    let db = arch_db();
    let page = DbArchitecture::find_all(&db, 2, 1);
    assert_eq!(codes(&page), vec!["armv7", "aarch64"]);
    assert_eq!(page[0].id, 2);
}

#[test]
fn find_all_limit_caps_rows() {
    let db = arch_db();
    assert_eq!(DbArchitecture::find_all(&db, 10, 0).len(), 5);
    assert_eq!(DbArchitecture::find_all(&db, 3, 0).len(), 3);
    assert_eq!(DbArchitecture::find_all(&db, 0, 0).len(), 0);
    assert_eq!(codes(&DbArchitecture::find_all(&db, 10, 3)), vec!["ppc", "i686"]);
}

#[test]
fn find_all_offset_past_end_is_empty() {
    let db = arch_db();
    assert!(DbArchitecture::find_all(&db, 5, 5).is_empty());
    assert!(DbArchitecture::find_all(&db, 5, 100).is_empty());
}

#[test]
fn create_uses_next_key() {
    let mut db = arch_db();
    let a = DbArchitecture::create(&mut db, "riscv64".to_string()).unwrap();
    assert_eq!(a.id, 6);
    assert_eq!(a.code, "riscv64");
    assert_eq!(db.architectures.len(), 6);
    let mut fresh = Db::new();
    assert_eq!(DbArchitecture::create(&mut fresh, "x".to_string()).unwrap().id, 1);
}

#[test]
fn create_fails_when_keys_run_out() {
    let mut db = Db::new();
    db.architectures.push(arch(u64::MAX, "last"));
    let r = DbArchitecture::create(&mut db, "more".to_string());
    assert_eq!(r.err(), Some(DbError::KeysExhausted));
    assert_eq!(db.architectures.len(), 1);
}

#[test]
fn delete_missing_id_affects_nothing() {
    let mut db = arch_db();
    assert_eq!(DbArchitecture::delete(&mut db, 42), 0);
    assert_eq!(db.architectures.len(), 5);
    db.users.push(user(1, "ann", "ann@x.org", "h", None, true));
    assert_eq!(User::delete(&mut db, 7), 0);
    assert_eq!(db.users.len(), 1);
}

#[test]
fn delete_removes_the_row() {
    let mut db = arch_db();
    assert_eq!(DbArchitecture::delete(&mut db, 3), 1);
    assert_eq!(codes(&db.architectures), vec!["x86_64", "armv7", "ppc", "i686"]);
    db.users.push(user(1, "ann", "ann@x.org", "h", None, true));
    db.users.push(user(2, "bob", "bob@x.org", "h", None, true));
    assert_eq!(User::delete(&mut db, 1), 1);
    assert_eq!(db.users[0].username, "bob");
}

#[test]
fn text_search_is_a_substring_match() {
    assert!(contains("alexander", "xan"));
    assert!(contains("alex", ""));
    assert!(contains("alex", "alex"));
    assert!(!contains("alex", "alexa"));
    assert!(!contains("alex", "lx"));
    assert!(same_text("enu", LISTING_LANGUAGE));
    assert!(!same_text("en", LISTING_LANGUAGE));
}

#[test]
fn user_search_orders_by_key_descending() {
    let mut db = Db::new();
    db.users.push(user(1, "alice", "a@x.org", "h", None, true));
    db.users.push(user(2, "bob", "b@x.org", "h", None, true));
    db.users.push(user(3, "malice", "m@x.org", "h", None, false));
    db.users.push(user(4, "alina", "al@x.org", "h", None, true));
    let found = User::find_all(&db, 10, 0, "li".to_string());
    let ids: Vec<u64> = found.iter().map(|u| u.id).collect();
    assert_eq!(ids, vec![4, 3, 1]);
    assert_eq!(found[1].username, "malice");
    assert_eq!(found[1].email, "m@x.org");
    let paged = User::find_all(&db, 1, 1, "li".to_string());
    assert_eq!(paged.len(), 1);
    assert_eq!(paged[0].id, 3);
    assert_eq!(User::find_all(&db, 10, 0, String::new()).len(), 4);
}

#[test]
fn api_key_requires_exact_active_match() {
    let mut db = Db::new();
    db.users.push(user(1, "ann", "a@x.org", "h", Some("key-one"), true));
    db.users.push(user(2, "old", "o@x.org", "h", Some("key-two"), false));
    db.users.push(user(3, "nok", "n@x.org", "h", None, true));
    let u = User::validate_api_key(&db, "key-one".to_string()).unwrap();
    assert_eq!(u.id, 1);
    assert_eq!(u.username, "ann");
    assert_eq!(User::validate_api_key(&db, "key-two".to_string()).err(), Some(DbError::NotFound));
    assert_eq!(User::validate_api_key(&db, "key-on".to_string()).err(), Some(DbError::NotFound));
    assert_eq!(User::validate_api_key(&db, "KEY-ONE".to_string()).err(), Some(DbError::NotFound));
    assert_eq!(User::validate_api_key(&db, String::new()).err(), Some(DbError::NotFound));
}

fn auth_db() -> Db {
    let hash = bcrypt::hash("secret", 4).unwrap();
    let mut db = Db::new();
    db.users.push(user(1, "ann", "ann@x.org", &hash, Some("k"), true));
    db.users.push(user(2, "norole", "nr@x.org", &hash, None, true));
    db.users.push(user(3, "gone", "g@x.org", &hash, None, false));
    db.users.push(user(4, "broken", "b@x.org", "not-a-hash", None, true));
    db.roles.push(DbRole { id: 1, name: "admin".to_string(), description: "all".to_string() });
    db.roles.push(DbRole { id: 2, name: "dev".to_string(), description: "some".to_string() });
    db.user_roles.push(DbUserRole { user_id: 1, role_id: 2 });
    db.user_roles.push(DbUserRole { user_id: 1, role_id: 1 });
    db.user_roles.push(DbUserRole { user_id: 4, role_id: 1 });
    db
}

fn some(s: &str) -> Option<String> {
    Some(s.to_string())
}

#[test]
fn login_succeeds_with_password_and_role() {
    let db = auth_db();
    let (u, roles) = User::login(&db, &some("ann"), &None, "secret").unwrap();
    assert_eq!(u.id, 1);
    assert_eq!(u.password, "");
    assert_eq!(u.api_key, some("k"));
    let names: Vec<String> = roles.iter().map(|r| r.name.clone()).collect();
    assert_eq!(names, vec!["dev", "admin"]);
    let (by_mail, _) = User::login(&db, &some("nobody"), &some("ann@x.org"), "secret").unwrap();
    assert_eq!(by_mail.id, 1);
}

#[test]
fn login_failures_are_indistinguishable() {
    let db = auth_db();
    let unknown = User::login(&db, &some("zed"), &None, "secret").err();
    let wrong = User::login(&db, &some("ann"), &None, "Secret").err();
    let no_roles = User::login(&db, &some("norole"), &None, "secret").err();
    let inactive = User::login(&db, &some("gone"), &None, "secret").err();
    let nothing = User::login(&db, &None, &None, "secret").err();
    assert_eq!(unknown, Some(DbError::NotFound));
    assert_eq!(wrong, unknown);
    assert_eq!(no_roles, unknown);
    assert_eq!(inactive, unknown);
    assert_eq!(nothing, unknown);
}

#[test]
fn login_with_malformed_hash_reports_it() {
    let db = auth_db();
    assert_eq!(User::login(&db, &some("broken"), &None, "x").err(), Some(DbError::BadHash));
}

#[test]
fn find_user_prefers_email() {
    let db = auth_db();
    let u = User::find_user(&db, &some("ann"), &some("nr@x.org")).unwrap();
    assert_eq!(u.id, 2);
    assert!(User::find_user(&db, &some("ann"), &some("none@x.org")).is_none());
    assert!(User::find_user(&db, &some("gone"), &None).is_none());
}

#[test]
fn reset_needs_an_issued_token() {
    let mut db = auth_db();
    let r = User::reset(&mut db, &some("ann"), &None, "fresh", "guess");
    assert_eq!(r.err(), Some(DbError::NotFound));
    let r = User::reset(&mut db, &some("zed"), &None, "fresh", "guess");
    assert_eq!(r.err(), Some(DbError::NotFound));
    assert!(User::login(&db, &some("ann"), &None, "secret").is_ok());
}

#[test]
fn reset_sets_new_password_and_uses_token() {
    let mut db = auth_db();
    let (_, token) = User::send_reset_link(&mut db, &"ann@x.org".to_string()).unwrap();
    let wrong = User::reset(&mut db, &some("ann"), &None, "fresh", "not-the-token");
    assert_eq!(wrong.err(), Some(DbError::NotFound));
    let (u, roles) = User::reset(&mut db, &some("ann"), &None, "fresh", &token).unwrap();
    assert_eq!(u.id, 1);
    assert_eq!(u.password, "");
    assert_eq!(roles.len(), 2);
    assert!(db.reset_tokens.is_empty());
    assert_eq!(User::login(&db, &some("ann"), &None, "secret").err(), Some(DbError::NotFound));
    assert!(User::login(&db, &some("ann"), &None, "fresh").is_ok());
    let again = User::reset(&mut db, &some("ann"), &None, "third", &token);
    assert_eq!(again.err(), Some(DbError::NotFound));
}

#[test]
fn reset_token_of_another_user_is_refused() {
    let mut db = auth_db();
    let (_, token) = User::send_reset_link(&mut db, &"nr@x.org".to_string()).unwrap();
    let r = User::reset(&mut db, &some("ann"), &None, "fresh", &token);
    assert_eq!(r.err(), Some(DbError::NotFound));
    assert_eq!(db.reset_tokens.len(), 1);
}

#[test]
fn apply_password_reset_stores_hash_and_uses_tokens() {
    let mut db = auth_db();
    db.reset_tokens.push(DbResetToken { user_id: 1, token: "a".to_string() });
    db.reset_tokens.push(DbResetToken { user_id: 2, token: "b".to_string() });
    db.reset_tokens.push(DbResetToken { user_id: 1, token: "c".to_string() });
    let (u, roles) = apply_password_reset(&mut db, 0, "$2b$04$given".to_string());
    assert_eq!(u.id, 1);
    assert_eq!(u.password, "");
    assert_eq!(roles.len(), 2);
    assert_eq!(db.users[0].password, "$2b$04$given");
    assert_eq!(db.users[0].username, "ann");
    assert_ne!(db.users[1].password, "$2b$04$given");
    assert_eq!(db.reset_tokens.len(), 1);
    assert_eq!(db.reset_tokens[0].token, "b");
}

#[test]
fn record_reset_token_keeps_given_token() {
    let mut db = auth_db();
    db.reset_tokens.push(DbResetToken { user_id: 2, token: "old".to_string() });
    let (u, token) = record_reset_token(&mut db, 0, "abc123".to_string());
    assert_eq!(u.id, 1);
    assert_eq!(u.username, "ann");
    assert_eq!(u.password, "");
    assert_eq!(token, "abc123");
    assert_eq!(db.reset_tokens.len(), 2);
    assert_eq!(db.reset_tokens[1].user_id, 1);
    assert_eq!(db.reset_tokens[1].token, "abc123");
    assert_eq!(db.users.len(), 4);
}

#[test]
fn remove_password_blanks_only_the_password() {
    let mut u = UserWithKey {
        id: 9,
        username: "u".to_string(),
        password: "hash".to_string(),
        email: "e".to_string(),
        active: true,
        api_key: some("k"),
        confirmed_at: None,
    };
    u.remove_password_from_output();
    assert_eq!(u.password, "");
    assert_eq!(u.username, "u");
    assert_eq!(u.api_key, some("k"));
}

fn version(id: u64, package_id: u64) -> DbVersion {
    DbVersion {
        id,
        package_id,
        ver: 1,
        upstream_version: "1.0".to_string(),
        changelog: some("changes"),
        report_url: None,
        distributor: some("dist"),
        distributor_url: None,
        maintainer: None,
        maintainer_url: None,
        dependencies: None,
        conf_dependencies: None,
        conflicts: None,
        conf_conflicts: None,
        install_wizard: None,
        upgrade_wizard: None,
        startable: Some(true),
        license: None,
        insert_date: 0,
    }
}

fn build(id: u64, package_id: u64, path: &str, active: Option<bool>) -> DbBuild {
    DbBuild {
        id,
        package_id,
        firmware_id: 1,
        publisher_user_id: None,
        checksum: None,
        exec_size: 10,
        path: path.to_string(),
        md5: "m".to_string(),
        insert_date: 0,
        active,
    }
}

fn package_db() -> Db {
    let mut db = Db::new();
    db.languages.push(DbLanguage { id: 1, code: "fre".to_string(), name: "French".to_string() });
    db.languages.push(DbLanguage { id: 2, code: "enu".to_string(), name: "English".to_string() });
    for (id, name) in [(1u64, "alpha"), (2, "beta"), (3, "gamma")] {
        db.packages.push(DbPackage { id, author_user_id: None, name: name.to_string(), insert_date: None });
        db.versions.push(version(id * 10, id));
        for lang in [1u64, 2] {
            db.descriptions.push(DbDescription {
                version_id: id * 10,
                language_id: lang,
                desc: format!("{}-desc-{}", name, lang),
            });
            db.displaynames.push(DbDisplayName {
                version_id: id * 10,
                language_id: lang,
                name: format!("{}-name-{}", name, lang),
            });
        }
    }
    db.builds.push(build(1, 1, "alpha.spk", Some(true)));
    db.builds.push(build(2, 2, "beta-old.spk", Some(false)));
    db.builds.push(build(3, 2, "beta-none.spk", None));
    db.builds.push(build(4, 3, "gamma.spk", Some(true)));
    db
}

#[test]
fn package_listing_needs_active_build_and_language() {
    let db = package_db();
    let rows = DbPackage::get_packages(&db).unwrap();
    assert_eq!(rows.len(), 2);
    assert_eq!(rows[0].package, "alpha");
    assert_eq!(rows[0].link, some("alpha.spk"));
    assert_eq!(rows[0].desc, some("alpha-desc-2"));
    assert_eq!(rows[0].dname, some("alpha-name-2"));
    assert_eq!(rows[0].changelog, some("changes"));
    assert_eq!(rows[0].distributor, some("dist"));
    assert_eq!(rows[1].package, "gamma");
    assert!(rows.iter().all(|r| r.package != "beta"));
}

#[test]
fn package_listing_skips_version_without_localized_text() {
    let mut db = package_db();
    db.displaynames.retain(|n| !(n.version_id == 10 && n.language_id == 2));
    let rows = DbPackage::get_packages(&db).unwrap();
    assert_eq!(rows.len(), 1);
    assert_eq!(rows[0].package, "gamma");
}

#[test]
fn package_listing_without_language_fails() {
    let mut db = package_db();
    db.languages.retain(|l| l.code != "enu");
    assert_eq!(DbPackage::get_packages(&db).err(), Some(DbError::NotFound));
}

#[test]
fn screenshots_join_package_names() {
    let mut db = package_db();
    db.screenshots.push(DbScreenshot { id: 1, package_id: 3, path: "g1.png".to_string() });
    db.screenshots.push(DbScreenshot { id: 2, package_id: 9, path: "lost.png".to_string() });
    db.screenshots.push(DbScreenshot { id: 3, package_id: 1, path: "a1.png".to_string() });
    db.screenshots.push(DbScreenshot { id: 4, package_id: 3, path: "g2.png".to_string() });
    let all = DbScreenshot::find_all(&db, 10, 0);
    let got: Vec<(String, String)> = all.iter().map(|s| (s.package.clone(), s.path.clone())).collect();
    assert_eq!(
        got,
        vec![
            ("gamma".to_string(), "g1.png".to_string()),
            ("alpha".to_string(), "a1.png".to_string()),
            ("gamma".to_string(), "g2.png".to_string()),
        ]
    );
    assert_eq!(DbScreenshot::find_all(&db, 1, 1)[0].id, 3);
    let of_gamma = DbScreenshot::from_package(3, &db);
    assert_eq!(of_gamma.iter().map(|s| s.id).collect::<Vec<u64>>(), vec![1, 4]);
}
