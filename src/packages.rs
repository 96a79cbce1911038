use vstd::prelude::*;
use crate::models::{
    copy_text, DbBuild, DbDescription, DbDisplayName, DbLanguage, DbPackage, DbVersion, MyPackage,
};
use crate::store::{find_key, lookup, occurs_at, Db, DbError};

verus! {

/// Code of the language that the package listing is written in.
pub const LISTING_LANGUAGE: &'static str = "enu";

/// Key of the first language with this code.
pub open spec fn language_key(s: Seq<DbLanguage>, code: Seq<char>) -> Option<u64>
    decreases s.len(),
{
    if s.len() == 0 {
        None
    } else if s[0].code@ == code {
        Some(s[0].id)
    } else {
        language_key(s.drop_first(), code)
    }
}

/// The description of version `vid` in language `lid`.
pub open spec fn description_in(s: Seq<DbDescription>, vid: u64, lid: u64) -> Option<DbDescription>
    decreases s.len(),
{
    if s.len() == 0 {
        None
    } else if s[0].version_id == vid && s[0].language_id == lid {
        Some(s[0])
    } else {
        description_in(s.drop_first(), vid, lid)
    }
}

/// The display name of version `vid` in language `lid`.
pub open spec fn displayname_in(s: Seq<DbDisplayName>, vid: u64, lid: u64) -> Option<
    DbDisplayName,
>
    decreases s.len(),
{
    if s.len() == 0 {
        None
    } else if s[0].version_id == vid && s[0].language_id == lid {
        Some(s[0])
    } else {
        displayname_in(s.drop_first(), vid, lid)
    }
}

/// One listing row.
pub open spec fn listing_row(
    v: DbVersion,
    p: DbPackage,
    d: DbDescription,
    n: DbDisplayName,
    b: DbBuild,
) -> MyPackage {
    MyPackage {
        changelog: v.changelog,
        package: p.name,
        link: Some(b.path),
        desc: Some(d.desc),
        distributor: v.distributor,
        distributor_url: v.distributor_url,
        dname: Some(n.name),
    }
}

/// The rows of one version: one for each active build of its package.
pub open spec fn build_rows(
    v: DbVersion,
    p: DbPackage,
    d: DbDescription,
    n: DbDisplayName,
    bs: Seq<DbBuild>,
) -> Seq<MyPackage>
    decreases bs.len(),
{
    if bs.len() == 0 {
        Seq::empty()
    } else {
        let rest = build_rows(v, p, d, n, bs.drop_last());
        if bs.last().package_id == p.id && bs.last().active == Some(true) {
            rest.push(listing_row(v, p, d, n, bs.last()))
        } else {
            rest
        }
    }
}

/// The rows of one version, when its package, description and display name in
/// language `lid` all exist.
pub open spec fn version_rows(db: &Db, lid: u64, v: DbVersion) -> Seq<MyPackage> {
    match (
        find_key(db.packages@, v.package_id),
        description_in(db.descriptions@, v.id, lid),
        displayname_in(db.displaynames@, v.id, lid),
    ) {
        (Some(p), Some(d), Some(n)) => build_rows(v, p, d, n, db.builds@),
        _ => Seq::empty(),
    }
}

/// The listing over the versions `vs`, version by version.
pub open spec fn listing(db: &Db, lid: u64, vs: Seq<DbVersion>) -> Seq<MyPackage>
    decreases vs.len(),
{
    if vs.len() == 0 {
        Seq::empty()
    } else {
        listing(db, lid, vs.drop_last()) + version_rows(db, lid, vs.last())
    }
}

/// Listing row `r` is made of version `v`, its package `p`, the description
/// `d` and display name `n` of `v` in language `lid`, and an active build `b`
/// of `p`, all of them rows of `db`.
pub open spec fn row_origin(
    db: &Db,
    lid: u64,
    r: MyPackage,
    v: DbVersion,
    p: DbPackage,
    d: DbDescription,
    n: DbDisplayName,
    b: DbBuild,
) -> bool {
    &&& db.versions@.contains(v)
    &&& db.packages@.contains(p)
    &&& db.descriptions@.contains(d)
    &&& db.displaynames@.contains(n)
    &&& db.builds@.contains(b)
    &&& v.package_id == p.id
    &&& d.version_id == v.id
    &&& d.language_id == lid
    &&& n.version_id == v.id
    &&& n.language_id == lid
    &&& b.package_id == p.id
    &&& b.active == Some(true)
    &&& r == listing_row(v, p, d, n, b)
}

/// Listing row `r` has an origin in `db`.
pub open spec fn listed_row_ok(db: &Db, lid: u64, r: MyPackage) -> bool {
    exists|v: DbVersion, p: DbPackage, d: DbDescription, n: DbDisplayName, b: DbBuild|
        #[trigger] row_origin(db, lid, r, v, p, d, n, b)
}

proof fn lemma_find_key(s: Seq<DbPackage>, id: u64)
    ensures
        find_key(s, id) matches Some(p) ==> s.contains(p) && p.id == id,
    decreases s.len(),
{
    if s.len() > 0 {
        lemma_find_key(s.drop_first(), id);
        if s[0].id != id && find_key(s, id) is Some {
            let i = choose|i: int| 0 <= i < s.drop_first().len() && s.drop_first()[i] == find_key(s, id)->0;
            assert(s[i + 1] == s.drop_first()[i]);
        }
    }
}

proof fn lemma_description_in(s: Seq<DbDescription>, vid: u64, lid: u64)
    ensures
        description_in(s, vid, lid) matches Some(d) ==> s.contains(d) && d.language_id == lid
            && d.version_id == vid,
    decreases s.len(),
{
    if s.len() > 0 {
        lemma_description_in(s.drop_first(), vid, lid);
        if !(s[0].version_id == vid && s[0].language_id == lid) && description_in(s, vid, lid) is Some {
            let i = choose|i: int| 0 <= i < s.drop_first().len() && s.drop_first()[i] == description_in(s, vid, lid)->0;
            assert(s[i + 1] == s.drop_first()[i]);
        }
    }
}

proof fn lemma_displayname_in(s: Seq<DbDisplayName>, vid: u64, lid: u64)
    ensures
        displayname_in(s, vid, lid) matches Some(n) ==> s.contains(n) && n.language_id == lid
            && n.version_id == vid,
    decreases s.len(),
{
    if s.len() > 0 {
        lemma_displayname_in(s.drop_first(), vid, lid);
        if !(s[0].version_id == vid && s[0].language_id == lid) && displayname_in(s, vid, lid) is Some {
            let i = choose|i: int| 0 <= i < s.drop_first().len() && s.drop_first()[i] == displayname_in(s, vid, lid)->0;
            assert(s[i + 1] == s.drop_first()[i]);
        }
    }
}

proof fn lemma_build_rows(
    v: DbVersion,
    p: DbPackage,
    d: DbDescription,
    n: DbDisplayName,
    bs: Seq<DbBuild>,
)
    ensures
        forall|k: int|
            #![trigger build_rows(v, p, d, n, bs)[k]]
            0 <= k < build_rows(v, p, d, n, bs).len() ==> exists|j: int|
                0 <= j < bs.len() && bs[j].active == Some(true) && bs[j].package_id == p.id
                    && build_rows(v, p, d, n, bs)[k] == listing_row(v, p, d, n, #[trigger] bs[j]),
    decreases bs.len(),
{
    if bs.len() > 0 {
        lemma_build_rows(v, p, d, n, bs.drop_last());
        assert forall|k: int|
            #![trigger build_rows(v, p, d, n, bs)[k]]
            0 <= k < build_rows(v, p, d, n, bs).len() implies exists|j: int|
                0 <= j < bs.len() && bs[j].active == Some(true) && bs[j].package_id == p.id
                    && build_rows(v, p, d, n, bs)[k] == listing_row(v, p, d, n, #[trigger] bs[j]) by {
            if k < build_rows(v, p, d, n, bs.drop_last()).len() {
                assert(build_rows(v, p, d, n, bs)[k] == build_rows(v, p, d, n, bs.drop_last())[k]);
                let j = choose|j: int|
                    0 <= j < bs.drop_last().len() && bs.drop_last()[j].active == Some(true)
                        && bs.drop_last()[j].package_id == p.id && build_rows(
                        v,
                        p,
                        d,
                        n,
                        bs.drop_last(),
                    )[k] == listing_row(v, p, d, n, #[trigger] bs.drop_last()[j]);
                assert(bs[j] == bs.drop_last()[j]);
            } else {
                assert(bs[bs.len() - 1] == bs.last());
            }
        }
    }
}

proof fn lemma_listing_rows(db: &Db, lid: u64, vs: Seq<DbVersion>)
    requires
        forall|i: int| 0 <= i < vs.len() ==> db.versions@.contains(#[trigger] vs[i]),
    ensures
        forall|k: int|
            0 <= k < listing(db, lid, vs).len() ==> listed_row_ok(
                db,
                lid,
                #[trigger] listing(db, lid, vs)[k],
            ),
    decreases vs.len(),
{
    if vs.len() > 0 {
        assert forall|i: int| 0 <= i < vs.drop_last().len() implies db.versions@.contains(
            #[trigger] vs.drop_last()[i],
        ) by {
            assert(vs.drop_last()[i] == vs[i]);
        }
        lemma_listing_rows(db, lid, vs.drop_last());
        let prev = listing(db, lid, vs.drop_last());
        let last = version_rows(db, lid, vs.last());
        let all = listing(db, lid, vs);
        assert(all == prev + last);
        let v = vs.last();
        assert(db.versions@.contains(vs[vs.len() - 1]));
        lemma_find_key(db.packages@, v.package_id);
        lemma_description_in(db.descriptions@, v.id, lid);
        lemma_displayname_in(db.displaynames@, v.id, lid);
        match (
            find_key(db.packages@, v.package_id),
            description_in(db.descriptions@, v.id, lid),
            displayname_in(db.displaynames@, v.id, lid),
        ) {
            (Some(p), Some(d), Some(n)) => {
                lemma_build_rows(v, p, d, n, db.builds@);
            },
            _ => {},
        }
        assert forall|k: int| 0 <= k < all.len() implies listed_row_ok(db, lid, #[trigger] all[k]) by {
            if k < prev.len() {
                assert(all[k] == prev[k]);
            } else {
                assert(all[k] == last[k - prev.len()]);
                match (
                    find_key(db.packages@, v.package_id),
                    description_in(db.descriptions@, v.id, lid),
                    displayname_in(db.displaynames@, v.id, lid),
                ) {
                    (Some(p), Some(d), Some(n)) => {
                        let rows = build_rows(v, p, d, n, db.builds@);
                        assert(last == rows);
                        let j = choose|j: int|
                            0 <= j < db.builds@.len() && db.builds@[j].active == Some(true)
                                && db.builds@[j].package_id == p.id && rows[k - prev.len()]
                                == listing_row(v, p, d, n, #[trigger] db.builds@[j]);
                        let b = db.builds@[j];
                        assert(db.builds@.contains(b));
                        assert(row_origin(db, lid, all[k], v, p, d, n, b));
                    },
                    _ => {},
                }
            }
        }
    }
}

/// Every row of the package listing is made of a version, its package, that
/// version's description and display name in language `lid`, and an active
/// build of that package: packages whose builds are all inactive do not
/// appear, and text in other languages is never used.
pub proof fn lemma_listing_filters(db: &Db, lid: u64)
    ensures
        forall|k: int|
            0 <= k < listing(db, lid, db.versions@).len() ==> listed_row_ok(
                db,
                lid,
                #[trigger] listing(db, lid, db.versions@)[k],
            ),
{
    assert forall|i: int| 0 <= i < db.versions@.len() implies db.versions@.contains(
        #[trigger] db.versions@[i],
    ) by {}
    lemma_listing_rows(db, lid, db.versions@);
}

proof fn lemma_build_rows_include(
    v: DbVersion,
    p: DbPackage,
    d: DbDescription,
    n: DbDisplayName,
    bs: Seq<DbBuild>,
    j: int,
)
    requires
        0 <= j < bs.len(),
        bs[j].package_id == p.id,
        bs[j].active == Some(true),
    ensures
        build_rows(v, p, d, n, bs).contains(listing_row(v, p, d, n, bs[j])),
    decreases bs.len(),
{
    let rows = build_rows(v, p, d, n, bs);
    if j == bs.len() - 1 {
        assert(rows[rows.len() - 1] == listing_row(v, p, d, n, bs[j]));
    } else {
        lemma_build_rows_include(v, p, d, n, bs.drop_last(), j);
        let prev = build_rows(v, p, d, n, bs.drop_last());
        let k = choose|k: int| 0 <= k < prev.len() && prev[k] == listing_row(v, p, d, n, bs[j]);
        assert(rows[k] == prev[k]);
    }
}

proof fn lemma_listing_include(db: &Db, lid: u64, vs: Seq<DbVersion>, i: int, r: MyPackage)
    requires
        0 <= i < vs.len(),
        version_rows(db, lid, vs[i]).contains(r),
    ensures
        listing(db, lid, vs).contains(r),
    decreases vs.len(),
{
    let prev = listing(db, lid, vs.drop_last());
    let all = listing(db, lid, vs);
    assert(all == prev + version_rows(db, lid, vs.last()));
    if i == vs.len() - 1 {
        let k = choose|k: int|
            0 <= k < version_rows(db, lid, vs[i]).len() && version_rows(db, lid, vs[i])[k] == r;
        assert(all[prev.len() + k] == r);
    } else {
        assert(vs.drop_last()[i] == vs[i]);
        lemma_listing_include(db, lid, vs.drop_last(), i, r);
        let k = choose|k: int| 0 <= k < prev.len() && prev[k] == r;
        assert(all[k] == r);
    }
}

/// Each version whose package exists and has an active build, and whose
/// description and display name exist in language `lid`, appears in the
/// listing with that build.
pub proof fn lemma_listing_includes(db: &Db, lid: u64, i: int, j: int)
    requires
        0 <= i < db.versions@.len(),
        0 <= j < db.builds@.len(),
        find_key(db.packages@, db.versions@[i].package_id) matches Some(p) && db.builds@[j].package_id
            == p.id,
        db.builds@[j].active == Some(true),
        description_in(db.descriptions@, db.versions@[i].id, lid) is Some,
        displayname_in(db.displaynames@, db.versions@[i].id, lid) is Some,
    ensures
        listing(db, lid, db.versions@).contains(
            listing_row(
                db.versions@[i],
                find_key(db.packages@, db.versions@[i].package_id)->0,
                description_in(db.descriptions@, db.versions@[i].id, lid)->0,
                displayname_in(db.displaynames@, db.versions@[i].id, lid)->0,
                db.builds@[j],
            ),
        ),
{
    let v = db.versions@[i];
    let p = find_key(db.packages@, v.package_id)->0;
    let d = description_in(db.descriptions@, v.id, lid)->0;
    let n = displayname_in(db.displaynames@, v.id, lid)->0;
    lemma_build_rows_include(v, p, d, n, db.builds@, j);
    assert(version_rows(db, lid, v) == build_rows(v, p, d, n, db.builds@));
    lemma_listing_include(db, lid, db.versions@, i, listing_row(v, p, d, n, db.builds@[j]));
}

/// Whether two texts are equal.
pub fn same_text(a: &str, b: &str) -> (r: bool)
    ensures
        r == (a@ == b@),
{
    if a.unicode_len() != b.unicode_len() {
        return false;
    }
    let r = occurs_at(a, b, 0);
    assert(a@.subrange(0, b@.len() as int) =~= a@);
    r
}

/// Key of the first language with code `code`.
pub fn find_language(db: &Db, code: &str) -> (r: Option<u64>)
    ensures
        r == language_key(db.languages@, code@),
{
    let s = &db.languages;
    let mut i: usize = 0;
    assert(s@.skip(0) =~= s@);
    while i < s.len()
        invariant
            i <= s@.len(),
            s@ == db.languages@,
            language_key(s@, code@) == language_key(s@.skip(i as int), code@),
        decreases s@.len() - i,
    {
        assert(s@.skip(i as int).drop_first() =~= s@.skip(i as int + 1));
        assert(s@.skip(i as int)[0] == s@[i as int]);
        if same_text(s[i].code.as_str(), code) {
            return Some(s[i].id);
        }
        i = i + 1;
    }
    None
}

fn find_description(s: &Vec<DbDescription>, vid: u64, lid: u64) -> (r: Option<&DbDescription>)
    ensures
        r matches Some(x) ==> description_in(s@, vid, lid) == Some(*x),
        r is None ==> description_in(s@, vid, lid) is None,
{
    let mut i: usize = 0;
    assert(s@.skip(0) =~= s@);
    while i < s.len()
        invariant
            i <= s@.len(),
            description_in(s@, vid, lid) == description_in(s@.skip(i as int), vid, lid),
        decreases s@.len() - i,
    {
        assert(s@.skip(i as int).drop_first() =~= s@.skip(i as int + 1));
        assert(s@.skip(i as int)[0] == s@[i as int]);
        if s[i].version_id == vid && s[i].language_id == lid {
            return Some(&s[i]);
        }
        i = i + 1;
    }
    None
}

fn find_displayname(s: &Vec<DbDisplayName>, vid: u64, lid: u64) -> (r: Option<&DbDisplayName>)
    ensures
        r matches Some(x) ==> displayname_in(s@, vid, lid) == Some(*x),
        r is None ==> displayname_in(s@, vid, lid) is None,
{
    let mut i: usize = 0;
    assert(s@.skip(0) =~= s@);
    while i < s.len()
        invariant
            i <= s@.len(),
            displayname_in(s@, vid, lid) == displayname_in(s@.skip(i as int), vid, lid),
        decreases s@.len() - i,
    {
        assert(s@.skip(i as int).drop_first() =~= s@.skip(i as int + 1));
        assert(s@.skip(i as int)[0] == s@[i as int]);
        if s[i].version_id == vid && s[i].language_id == lid {
            return Some(&s[i]);
        }
        i = i + 1;
    }
    None
}

/// Appends the rows of one version, one for each active build of `p`.
fn push_build_rows(
    out: &mut Vec<MyPackage>,
    v: &DbVersion,
    p: &DbPackage,
    d: &DbDescription,
    n: &DbDisplayName,
    bs: &Vec<DbBuild>,
)
    ensures
        final(out)@ == old(out)@ + build_rows(*v, *p, *d, *n, bs@),
{
    let ghost start = out@;
    let mut i: usize = 0;
    while i < bs.len()
        invariant
            i <= bs@.len(),
            out@ == start + build_rows(*v, *p, *d, *n, bs@.take(i as int)),
        decreases bs@.len() - i,
    {
        assert(bs@.take(i as int + 1).drop_last() =~= bs@.take(i as int));
        let b = &bs[i];
        if b.package_id == p.id && b.active == Some(true) {
            out.push(
                MyPackage {
                    changelog: copy_text(&v.changelog),
                    package: p.name.clone(),
                    link: Some(b.path.clone()),
                    desc: Some(d.desc.clone()),
                    distributor: copy_text(&v.distributor),
                    distributor_url: copy_text(&v.distributor_url),
                    dname: Some(n.name.clone()),
                },
            );
            assert(out@ =~= start + build_rows(*v, *p, *d, *n, bs@.take(i as int + 1)));
        }
        i = i + 1;
    }
    assert(bs@.take(i as int) =~= bs@);
}

impl DbPackage {
    /// Lists each version whose package has an active build, with its
    /// description and display name in the listing language; fails when that
    /// language is missing.
    pub fn get_packages(db: &Db) -> (r: Result<Vec<MyPackage>, DbError>)
        ensures
            match language_key(db.languages@, LISTING_LANGUAGE@) {
                None => r == Err::<Vec<MyPackage>, DbError>(DbError::NotFound),
                Some(lid) => r matches Ok(rows) && rows@ == listing(db, lid, db.versions@),
            },
    {
        let lid = match find_language(db, LISTING_LANGUAGE) {
            Some(l) => l,
            None => {
                return Err(DbError::NotFound);
            },
        };
        let vs = &db.versions;
        let mut out: Vec<MyPackage> = Vec::new();
        let mut i: usize = 0;
        while i < vs.len()
            invariant
                i <= vs@.len(),
                vs@ == db.versions@,
                out@ == listing(db, lid, vs@.take(i as int)),
            decreases vs@.len() - i,
        {
            assert(vs@.take(i as int + 1).drop_last() =~= vs@.take(i as int));
            let v = &vs[i];
            let ghost before = out@;
            match lookup(&db.packages, v.package_id) {
                Some(p) => match find_description(&db.descriptions, v.id, lid) {
                    Some(d) => match find_displayname(&db.displaynames, v.id, lid) {
                        Some(n) => {
                            push_build_rows(&mut out, v, p, d, n, &db.builds);
                        },
                        None => {},
                    },
                    None => {},
                },
                None => {},
            }
            assert(out@ =~= before + version_rows(db, lid, vs@[i as int]));
            i = i + 1;
        }
        assert(vs@.take(i as int) =~= vs@);
        Ok(out)
    }
}

} // verus!
