use vstd::prelude::*;
use crate::paging::Row;

verus! {

/// Copies an optional text value.
pub fn copy_text(o: &Option<String>) -> (r: Option<String>)
    ensures
        r == *o,
{
    match o {
        Some(s) => Some(s.clone()),
        None => None,
    }
}

/// A processor architecture.
pub struct DbArchitecture {
    pub id: u64,
    pub code: String,
}

impl Row for DbArchitecture {
    open spec fn row_id(&self) -> u64 {
        self.id
    }

    fn id_of(&self) -> (r: u64) {
        self.id
    }

    fn duplicate(&self) -> (r: Self) {
        DbArchitecture {
            id: self.id,
            code: self.code.clone(),
        }
    }
}

/// A built binary of a package for one firmware; times are seconds since the Unix epoch.
pub struct DbBuild {
    pub id: u64,
    pub package_id: u64,
    pub firmware_id: u64,
    pub publisher_user_id: Option<u64>,
    pub checksum: Option<String>,
    pub exec_size: i32,
    pub path: String,
    pub md5: String,
    pub insert_date: i64,
    pub active: Option<bool>,
}

impl Row for DbBuild {
    open spec fn row_id(&self) -> u64 {
        self.id
    }

    fn id_of(&self) -> (r: u64) {
        self.id
    }

    fn duplicate(&self) -> (r: Self) {
        DbBuild {
            id: self.id,
            package_id: self.package_id,
            firmware_id: self.firmware_id,
            publisher_user_id: self.publisher_user_id,
            checksum: copy_text(&self.checksum),
            exec_size: self.exec_size,
            path: self.path.clone(),
            md5: self.md5.clone(),
            insert_date: self.insert_date,
            active: self.active,
        }
    }
}

/// Links a build to an architecture it runs on.
pub struct DbBuildArchitecture {
    pub build_id: u64,
    pub architecture_id: u64,
}

/// The display name of a version in one language.
pub struct DbDisplayName {
    pub version_id: u64,
    pub language_id: u64,
    pub name: String,
}

impl DbDisplayName {
    pub fn duplicate(&self) -> (r: Self)
        ensures
            r == *self,
    {
        DbDisplayName {
            version_id: self.version_id,
            language_id: self.language_id,
            name: self.name.clone(),
        }
    }
}

/// A language that localized text is written in.
pub struct DbLanguage {
    pub id: u64,
    pub code: String,
    pub name: String,
}

impl Row for DbLanguage {
    open spec fn row_id(&self) -> u64 {
        self.id
    }

    fn id_of(&self) -> (r: u64) {
        self.id
    }

    fn duplicate(&self) -> (r: Self) {
        DbLanguage {
            id: self.id,
            code: self.code.clone(),
            name: self.name.clone(),
        }
    }
}

/// One download of a build; `date` is seconds since the Unix epoch.
pub struct DbDownload {
    pub id: u64,
    pub build_id: u64,
    pub architecture_id: u64,
    pub firmware_build: u64,
    pub ip_address: String,
    pub user_agent: Option<String>,
    pub date: Option<i64>,
}

impl Row for DbDownload {
    open spec fn row_id(&self) -> u64 {
        self.id
    }

    fn id_of(&self) -> (r: u64) {
        self.id
    }

    fn duplicate(&self) -> (r: Self) {
        DbDownload {
            id: self.id,
            build_id: self.build_id,
            architecture_id: self.architecture_id,
            firmware_build: self.firmware_build,
            ip_address: self.ip_address.clone(),
            user_agent: copy_text(&self.user_agent),
            date: self.date,
        }
    }
}

/// A firmware release.
pub struct DbFirmware {
    pub id: u64,
    pub version: String,
    pub build: u64,
}

impl Row for DbFirmware {
    open spec fn row_id(&self) -> u64 {
        self.id
    }

    fn id_of(&self) -> (r: u64) {
        self.id
    }

    fn duplicate(&self) -> (r: Self) {
        DbFirmware {
            id: self.id,
            version: self.version.clone(),
            build: self.build,
        }
    }
}

/// An icon of a version.
pub struct DbIcon {
    pub id: u64,
    pub version_id: u64,
    pub size: u16,
    pub path: String,
}

impl Row for DbIcon {
    open spec fn row_id(&self) -> u64 {
        self.id
    }

    fn id_of(&self) -> (r: u64) {
        self.id
    }

    fn duplicate(&self) -> (r: Self) {
        DbIcon {
            id: self.id,
            version_id: self.version_id,
            size: self.size,
            path: self.path.clone(),
        }
    }
}

/// The description of a version in one language.
pub struct DbDescription {
    pub version_id: u64,
    pub language_id: u64,
    pub desc: String,
}

impl DbDescription {
    pub fn duplicate(&self) -> (r: Self)
        ensures
            r == *self,
    {
        DbDescription {
            version_id: self.version_id,
            language_id: self.language_id,
            desc: self.desc.clone(),
        }
    }
}

/// A package; `insert_date` is seconds since the Unix epoch.
pub struct DbPackage {
    pub id: u64,
    pub author_user_id: Option<u64>,
    pub name: String,
    pub insert_date: Option<i64>,
}

impl Row for DbPackage {
    open spec fn row_id(&self) -> u64 {
        self.id
    }

    fn id_of(&self) -> (r: u64) {
        self.id
    }

    fn duplicate(&self) -> (r: Self) {
        DbPackage {
            id: self.id,
            author_user_id: self.author_user_id,
            name: self.name.clone(),
            insert_date: self.insert_date,
        }
    }
}

/// Links a package to a user who maintains it.
pub struct DbPackageUserMaintainer {
    pub package_id: u64,
    pub user_id: u64,
}

/// A role that users can hold.
pub struct DbRole {
    pub id: u64,
    pub name: String,
    pub description: String,
}

impl Row for DbRole {
    open spec fn row_id(&self) -> u64 {
        self.id
    }

    fn id_of(&self) -> (r: u64) {
        self.id
    }

    fn duplicate(&self) -> (r: Self) {
        DbRole {
            id: self.id,
            name: self.name.clone(),
            description: self.description.clone(),
        }
    }
}

/// A screenshot of a package.
pub struct DbScreenshot {
    pub id: u64,
    pub package_id: u64,
    pub path: String,
}

impl Row for DbScreenshot {
    open spec fn row_id(&self) -> u64 {
        self.id
    }

    fn id_of(&self) -> (r: u64) {
        self.id
    }

    fn duplicate(&self) -> (r: Self) {
        DbScreenshot {
            id: self.id,
            package_id: self.package_id,
            path: self.path.clone(),
        }
    }
}

/// A screenshot with the name of its package.
pub struct Screenshot {
    pub id: u64,
    pub package: String,
    pub path: String,
}

impl Row for Screenshot {
    open spec fn row_id(&self) -> u64 {
        self.id
    }

    fn id_of(&self) -> (r: u64) {
        self.id
    }

    fn duplicate(&self) -> (r: Self) {
        Screenshot {
            id: self.id,
            package: self.package.clone(),
            path: self.path.clone(),
        }
    }
}

/// A service that versions can depend on.
pub struct DbService {
    pub id: u64,
    pub code: String,
}

impl Row for DbService {
    open spec fn row_id(&self) -> u64 {
        self.id
    }

    fn id_of(&self) -> (r: u64) {
        self.id
    }

    fn duplicate(&self) -> (r: Self) {
        DbService {
            id: self.id,
            code: self.code.clone(),
        }
    }
}

/// A user account as stored; `confirmed_at` is seconds since the Unix epoch.
pub struct DbUser {
    pub id: u64,
    pub username: String,
    pub email: String,
    pub password: String,
    pub api_key: Option<String>,
    pub github_access_token: Option<String>,
    pub active: bool,
    pub confirmed_at: Option<i64>,
}

impl Row for DbUser {
    open spec fn row_id(&self) -> u64 {
        self.id
    }

    fn id_of(&self) -> (r: u64) {
        self.id
    }

    fn duplicate(&self) -> (r: Self) {
        DbUser {
            id: self.id,
            username: self.username.clone(),
            email: self.email.clone(),
            password: self.password.clone(),
            api_key: copy_text(&self.api_key),
            github_access_token: copy_text(&self.github_access_token),
            active: self.active,
            confirmed_at: self.confirmed_at,
        }
    }
}

/// A user account with its password hash and API key.
pub struct UserWithKey {
    pub id: u64,
    pub username: String,
    pub password: String,
    pub email: String,
    pub active: bool,
    pub api_key: Option<String>,
    pub confirmed_at: Option<i64>,
}

impl Row for UserWithKey {
    open spec fn row_id(&self) -> u64 {
        self.id
    }

    fn id_of(&self) -> (r: u64) {
        self.id
    }

    fn duplicate(&self) -> (r: Self) {
        UserWithKey {
            id: self.id,
            username: self.username.clone(),
            password: self.password.clone(),
            email: self.email.clone(),
            active: self.active,
            api_key: copy_text(&self.api_key),
            confirmed_at: self.confirmed_at,
        }
    }
}

/// A user account without credentials.
pub struct User {
    pub id: u64,
    pub username: String,
    pub email: String,
    pub active: bool,
    pub confirmed_at: Option<i64>,
}

impl Row for User {
    open spec fn row_id(&self) -> u64 {
        self.id
    }

    fn id_of(&self) -> (r: u64) {
        self.id
    }

    fn duplicate(&self) -> (r: Self) {
        User {
            id: self.id,
            username: self.username.clone(),
            email: self.email.clone(),
            active: self.active,
            confirmed_at: self.confirmed_at,
        }
    }
}

/// Links a user to a role.
pub struct DbUserRole {
    pub user_id: u64,
    pub role_id: u64,
}

impl DbUserRole {
    pub fn duplicate(&self) -> (r: Self)
        ensures
            r == *self,
    {
        DbUserRole {
            user_id: self.user_id,
            role_id: self.role_id,
        }
    }
}

/// A version of a package; `insert_date` is seconds since the Unix epoch.
pub struct DbVersion {
    pub id: u64,
    pub package_id: u64,
    pub ver: u32,
    pub upstream_version: String,
    pub changelog: Option<String>,
    pub report_url: Option<String>,
    pub distributor: Option<String>,
    pub distributor_url: Option<String>,
    pub maintainer: Option<String>,
    pub maintainer_url: Option<String>,
    pub dependencies: Option<String>,
    pub conf_dependencies: Option<String>,
    pub conflicts: Option<String>,
    pub conf_conflicts: Option<String>,
    pub install_wizard: Option<bool>,
    pub upgrade_wizard: Option<bool>,
    pub startable: Option<bool>,
    pub license: Option<String>,
    pub insert_date: i64,
}

impl Row for DbVersion {
    open spec fn row_id(&self) -> u64 {
        self.id
    }

    fn id_of(&self) -> (r: u64) {
        self.id
    }

    fn duplicate(&self) -> (r: Self) {
        DbVersion {
            id: self.id,
            package_id: self.package_id,
            ver: self.ver,
            upstream_version: self.upstream_version.clone(),
            changelog: copy_text(&self.changelog),
            report_url: copy_text(&self.report_url),
            distributor: copy_text(&self.distributor),
            distributor_url: copy_text(&self.distributor_url),
            maintainer: copy_text(&self.maintainer),
            maintainer_url: copy_text(&self.maintainer_url),
            dependencies: copy_text(&self.dependencies),
            conf_dependencies: copy_text(&self.conf_dependencies),
            conflicts: copy_text(&self.conflicts),
            conf_conflicts: copy_text(&self.conf_conflicts),
            install_wizard: self.install_wizard,
            upgrade_wizard: self.upgrade_wizard,
            startable: self.startable,
            license: copy_text(&self.license),
            insert_date: self.insert_date,
        }
    }
}

/// Links a version to a package it needs as a service.
pub struct DbVersionServiceDependency {
    pub version_id: u64,
    pub package_id: u64,
}

/// One row of the package listing.
pub struct MyPackage {
    pub changelog: Option<String>,
    pub package: String,
    pub link: Option<String>,
    pub desc: Option<String>,
    pub distributor: Option<String>,
    pub distributor_url: Option<String>,
    pub dname: Option<String>,
}

impl MyPackage {
    pub fn duplicate(&self) -> (r: Self)
        ensures
            r == *self,
    {
        MyPackage {
            changelog: copy_text(&self.changelog),
            package: self.package.clone(),
            link: copy_text(&self.link),
            desc: copy_text(&self.desc),
            distributor: copy_text(&self.distributor),
            distributor_url: copy_text(&self.distributor_url),
            dname: copy_text(&self.dname),
        }
    }
}

/// A password-reset token handed out to a user and not yet used.
pub struct DbResetToken {
    pub user_id: u64,
    pub token: String,
}

impl Row for DbResetToken {
    open spec fn row_id(&self) -> u64 {
        self.user_id
    }

    fn id_of(&self) -> (r: u64) {
        self.user_id
    }

    fn duplicate(&self) -> (r: Self) {
        DbResetToken { user_id: self.user_id, token: self.token.clone() }
    }
}

} // verus!
