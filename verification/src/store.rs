//! The relational metadata store, modelled as plain rows.
//!
//! One publish works on this store inside one staged unit of work: the
//! orchestrator clones the store, runs every step on the copy, and installs
//! the copy only when everything — including the blob upload and the
//! index-log append — has succeeded. An abort therefore never leaves a
//! partial row behind.

use vstd::prelude::*;

use crate::datetime::DateTime;
use crate::errors::PublishError;
use crate::text::{chars_to_string, eq_ignore_ascii_case, lower_seq, push_str_chars, str_chars};
use crate::upload::{clone_opt_string, BadgeSpec, CrateDependency};
use crate::versions::{sv_view, SemVer, SvV};

verus! {

/// A package row: its fixed name, descriptive fields, the optional
/// per-package upload-size override, and the users with publish rights.
#[derive(Debug)]
pub struct Package {
    pub id: u32,
    pub name: String,
    pub description: Option<String>,
    pub homepage: Option<String>,
    pub documentation: Option<String>,
    pub readme: Option<String>,
    pub readme_file: Option<String>,
    pub repository: Option<String>,
    pub license: Option<String>,
    pub max_upload_size: Option<u64>,
    pub owners: Vec<u32>,
}

/// A version row: one immutable published release of a package.
#[derive(Debug)]
pub struct Version {
    pub id: u32,
    pub crate_id: u32,
    pub num: SemVer,
    pub num_text: String,
    pub features: Vec<(String, Vec<String>)>,
    pub license: Option<String>,
    pub crate_size: u32,
    pub published_by: u32,
    pub yanked: bool,
    pub downloads: u32,
    pub created_at: DateTime,
    pub updated_at: DateTime,
}

/// A dependency edge from a version to a package name.
#[derive(Debug)]
pub struct DependencyRow {
    pub version_id: u32,
    pub dep: CrateDependency,
}

/// A badge link of a package.
#[derive(Debug)]
pub struct BadgeRow {
    pub crate_id: u32,
    pub badge: BadgeSpec,
}

/// The whole relational state: every table the publish path touches.
#[derive(Debug)]
pub struct MetadataStore {
    pub packages: Vec<Package>,
    pub versions: Vec<Version>,
    pub version_authors: Vec<(u32, String)>,
    pub versions_published_by: Vec<(u32, String)>,
    pub dependencies: Vec<DependencyRow>,
    pub keyword_links: Vec<(u32, String)>,
    pub category_links: Vec<(u32, String)>,
    pub badges: Vec<BadgeRow>,
    pub readme_renderings: Vec<(u32, DateTime)>,
    pub known_categories: Vec<String>,
    pub known_badge_kinds: Vec<String>,
    pub next_package_id: u32,
    pub next_version_id: u32,
}

/// The view of an optional string.
pub open spec fn opt_view(o: Option<String>) -> Option<Seq<char>> {
    match o {
        Option::None => Option::None,
        Option::Some(s) => Option::Some(s@),
    }
}

/// The view of a string-pair list.
pub open spec fn pairs_view(v: Seq<(u32, String)>) -> Seq<(u32, Seq<char>)> {
    v.map_values(|p: (u32, String)| (p.0, p.1@))
}

/// The view of a list of string pairs, such as header lists.
pub open spec fn pairs_str_view(v: Seq<(String, String)>) -> Seq<(Seq<char>, Seq<char>)> {
    v.map_values(|p: (String, String)| (p.0@, p.1@))
}

/// The view of a feature map.
pub open spec fn feats_view(v: Seq<(String, Vec<String>)>) -> Seq<(Seq<char>, Seq<Seq<char>>)> {
    v.map_values(
        |kv: (String, Vec<String>)| (kv.0@, kv.1@.map_values(|s: String| s@)),
    )
}

/// A package row as plain values.
pub ghost struct PackageV {
    pub id: u32,
    pub name: Seq<char>,
    pub description: Option<Seq<char>>,
    pub homepage: Option<Seq<char>>,
    pub documentation: Option<Seq<char>>,
    pub readme: Option<Seq<char>>,
    pub readme_file: Option<Seq<char>>,
    pub repository: Option<Seq<char>>,
    pub license: Option<Seq<char>>,
    pub max_upload_size: Option<u64>,
    pub owners: Seq<u32>,
}

impl View for Package {
    type V = PackageV;

    open spec fn view(&self) -> PackageV {
        PackageV {
            id: self.id,
            name: self.name@,
            description: opt_view(self.description),
            homepage: opt_view(self.homepage),
            documentation: opt_view(self.documentation),
            readme: opt_view(self.readme),
            readme_file: opt_view(self.readme_file),
            repository: opt_view(self.repository),
            license: opt_view(self.license),
            max_upload_size: self.max_upload_size,
            owners: self.owners@,
        }
    }
}

/// A version row as plain values.
pub ghost struct VersionV {
    pub id: u32,
    pub crate_id: u32,
    pub num: SvV,
    pub num_text: Seq<char>,
    pub features: Seq<(Seq<char>, Seq<Seq<char>>)>,
    pub license: Option<Seq<char>>,
    pub crate_size: u32,
    pub published_by: u32,
    pub yanked: bool,
    pub downloads: u32,
    pub created_at: DateTime,
    pub updated_at: DateTime,
}

impl View for Version {
    type V = VersionV;

    open spec fn view(&self) -> VersionV {
        VersionV {
            id: self.id,
            crate_id: self.crate_id,
            num: sv_view(self.num),
            num_text: self.num_text@,
            features: feats_view(self.features@),
            license: opt_view(self.license),
            crate_size: self.crate_size,
            published_by: self.published_by,
            yanked: self.yanked,
            downloads: self.downloads,
            created_at: self.created_at,
            updated_at: self.updated_at,
        }
    }
}

/// A dependency edge as plain values.
pub ghost struct DependencyV {
    pub version_id: u32,
    pub name: Seq<char>,
    pub version_req: Seq<char>,
    pub optional: bool,
    pub default_features: bool,
    pub features: Seq<Seq<char>>,
    pub target: Option<Seq<char>>,
    pub kind: Option<Seq<char>>,
    pub registry: Option<Seq<char>>,
    pub explicit_name_in_toml: Option<Seq<char>>,
}

/// The view of one declared dependency, tied to a version row.
pub open spec fn dep_view(version_id: u32, d: CrateDependency) -> DependencyV {
    DependencyV {
        version_id,
        name: d.name@,
        version_req: d.version_req@,
        optional: d.optional,
        default_features: d.default_features,
        features: d.features@.map_values(|s: String| s@),
        target: opt_view(d.target),
        kind: opt_view(d.kind),
        registry: opt_view(d.registry),
        explicit_name_in_toml: opt_view(d.explicit_name_in_toml),
    }
}

impl View for DependencyRow {
    type V = DependencyV;

    open spec fn view(&self) -> DependencyV {
        dep_view(self.version_id, self.dep)
    }
}

/// A badge link as plain values.
pub ghost struct BadgeRowV {
    pub crate_id: u32,
    pub kind: Seq<char>,
    pub attributes: Seq<(Seq<char>, Seq<char>)>,
}

/// The view of one badge, tied to a package row.
pub open spec fn badge_view(crate_id: u32, b: BadgeSpec) -> BadgeRowV {
    BadgeRowV {
        crate_id,
        kind: b.kind@,
        attributes: b.attributes@.map_values(|p: (String, String)| (p.0@, p.1@)),
    }
}

impl View for BadgeRow {
    type V = BadgeRowV;

    open spec fn view(&self) -> BadgeRowV {
        badge_view(self.crate_id, self.badge)
    }
}

/// The whole store as plain values.
pub ghost struct StoreV {
    pub packages: Seq<PackageV>,
    pub versions: Seq<VersionV>,
    pub version_authors: Seq<(u32, Seq<char>)>,
    pub versions_published_by: Seq<(u32, Seq<char>)>,
    pub dependencies: Seq<DependencyV>,
    pub keyword_links: Seq<(u32, Seq<char>)>,
    pub category_links: Seq<(u32, Seq<char>)>,
    pub badges: Seq<BadgeRowV>,
    pub readme_renderings: Seq<(u32, DateTime)>,
    pub known_categories: Seq<Seq<char>>,
    pub known_badge_kinds: Seq<Seq<char>>,
    pub next_package_id: u32,
    pub next_version_id: u32,
}

impl View for MetadataStore {
    type V = StoreV;

    open spec fn view(&self) -> StoreV {
        StoreV {
            packages: self.packages@.map_values(|p: Package| p@),
            versions: self.versions@.map_values(|v: Version| v@),
            version_authors: pairs_view(self.version_authors@),
            versions_published_by: pairs_view(self.versions_published_by@),
            dependencies: self.dependencies@.map_values(|d: DependencyRow| d@),
            keyword_links: pairs_view(self.keyword_links@),
            category_links: pairs_view(self.category_links@),
            badges: self.badges@.map_values(|b: BadgeRow| b@),
            readme_renderings: self.readme_renderings@,
            known_categories: self.known_categories@.map_values(|s: String| s@),
            known_badge_kinds: self.known_badge_kinds@.map_values(|s: String| s@),
            next_package_id: self.next_package_id,
            next_version_id: self.next_version_id,
        }
    }
}

/// The canonical form of a package name: ASCII case folded. Two names with
/// one canonical form are the same package.
pub open spec fn canon(name: Seq<char>) -> Seq<char> {
    lower_seq(name)
}

/// Some package row carries this id.
pub open spec fn has_pkg_id(s: StoreV, id: u32) -> bool {
    exists|p: int| 0 <= p < s.packages.len() && (#[trigger] s.packages[p]).id == id
}

/// Carrying an id transfers to any state whose package rows keep the same
/// ids, row for row.
pub proof fn lemma_pkg_id_preserved(s0: StoreV, s1: StoreV, id: u32)
    requires
        has_pkg_id(s0, id),
        s1.packages.len() >= s0.packages.len(),
        forall|k: int|
            0 <= k < s0.packages.len() ==> (#[trigger] s1.packages[k]).id == s0.packages[k].id,
    ensures
        has_pkg_id(s1, id),
{
    let p = choose|p: int| 0 <= p < s0.packages.len() && (#[trigger] s0.packages[p]).id == id;
    assert((#[trigger] s1.packages[p]).id == id);
}

/// No package carries an id at or above the id counter.
pub proof fn lemma_pkg_id_bounded(s: StoreV, id: u32)
    requires
        store_wf(s),
        id >= s.next_package_id,
    ensures
        !has_pkg_id(s, id),
{
    if has_pkg_id(s, id) {
        let p = choose|p: int| 0 <= p < s.packages.len() && (#[trigger] s.packages[p]).id == id;
        assert(s.packages[p].id < s.next_package_id);
    }
}

/// A store is well formed when ids are unique and below their counters,
/// package names are unique up to canonical form, every version belongs to a
/// package, and no two version rows repeat one (package, version-string)
/// pair.
pub open spec fn store_wf(s: StoreV) -> bool {
    &&& forall|i: int, j: int|
        0 <= i < j < s.packages.len() ==> s.packages[i].id != s.packages[j].id
    &&& forall|i: int| 0 <= i < s.packages.len() ==> #[trigger] s.packages[i].id
        < s.next_package_id
    &&& forall|i: int, j: int|
        0 <= i < j < s.packages.len() ==> canon(s.packages[i].name) != canon(s.packages[j].name)
    &&& forall|i: int, j: int|
        0 <= i < j < s.versions.len() ==> s.versions[i].id != s.versions[j].id
    &&& forall|i: int| 0 <= i < s.versions.len() ==> #[trigger] s.versions[i].id
        < s.next_version_id
    &&& forall|i: int|
        0 <= i < s.versions.len() ==> has_pkg_id(s, (#[trigger] s.versions[i]).crate_id)
    &&& forall|i: int, j: int|
        0 <= i < j < s.versions.len() ==> !(s.versions[i].crate_id == s.versions[j].crate_id
            && s.versions[i].num_text == s.versions[j].num_text)
}

/// Some package carries this name, up to canonical form.
pub open spec fn has_pkg(s: StoreV, name: Seq<char>) -> bool {
    exists|i: int| 0 <= i < s.packages.len() && canon(#[trigger] s.packages[i].name) == canon(name)
}

/// The index of the package carrying this name (unique in a well-formed
/// store).
pub open spec fn pkg_idx(s: StoreV, name: Seq<char>) -> int {
    choose|i: int|
        0 <= i < s.packages.len() && canon(#[trigger] s.packages[i].name) == canon(name)
}

/// A version row for this package id and version string exists.
pub open spec fn has_version(s: StoreV, crate_id: u32, vers: Seq<char>) -> bool {
    exists|i: int|
        0 <= i < s.versions.len() && (#[trigger] s.versions[i]).crate_id == crate_id
            && s.versions[i].num_text == vers
}

/// What `license_exprs::validate_license_expr` makes of one license term
/// list: `None` when it is accepted, the error's display text otherwise.
/// Depends on the characters alone.
pub uninterp spec fn license_check_of(s: Seq<char>) -> Option<Seq<char>>;

/// Relies on `license_exprs::validate_license_expr`: whether a term list is
/// accepted, and the parse error's text, depend on its characters alone.
#[verifier::external_body]
fn license_expr_check(s: &str) -> (r: Option<String>)
    ensures
        (r is Some) == (license_check_of(s@) is Some),
        r matches Option::Some(m) ==> license_check_of(s@) matches Option::Some(e) && m@ == e,
{
    match license_exprs::validate_license_expr(s) {
        Ok(()) => None,
        Err(e) => Some(format!("{}", e)),
    }
}

/// The `/`-separated pieces of a string, in order; an empty string has one
/// empty piece.
pub open spec fn split_parts(s: Seq<char>) -> Seq<Seq<char>>
    decreases s.len(),
{
    if s.len() == 0 {
        seq![Seq::empty()]
    } else if s.last() == '/' {
        split_parts(s.drop_last()).push(Seq::empty())
    } else {
        let rest = split_parts(s.drop_last());
        rest.update(rest.len() - 1, rest.last().push(s.last()))
    }
}

/// A split always has at least one piece.
pub proof fn lemma_split_parts_len(s: Seq<char>)
    ensures
        split_parts(s).len() >= 1,
    decreases s.len(),
{
    if s.len() > 0 {
        lemma_split_parts_len(s.drop_last());
    }
}

/// The error text of the first piece the license checker refuses, if any.
pub open spec fn first_license_err(parts: Seq<Seq<char>>) -> Option<Seq<char>>
    decreases parts.len(),
{
    if parts.len() == 0 {
        Option::None
    } else {
        match license_check_of(parts[0]) {
            Option::Some(e) => Option::Some(e),
            Option::None => first_license_err(parts.drop_first()),
        }
    }
}

/// When the first `i` pieces are accepted, the first error lies past them.
proof fn lemma_first_license_err_skip(parts: Seq<Seq<char>>, i: int)
    requires
        0 <= i <= parts.len(),
        forall|j: int| 0 <= j < i ==> license_check_of(#[trigger] parts[j]) is None,
    ensures
        first_license_err(parts) == first_license_err(parts.skip(i)),
    decreases i,
{
    if i > 0 {
        assert(license_check_of(parts[0]) is None);
        assert(forall|j: int|
            0 <= j < i - 1 ==> license_check_of(#[trigger] parts.drop_first()[j]) is None);
        lemma_first_license_err_skip(parts.drop_first(), i - 1);
        assert(parts.drop_first().skip(i - 1) =~= parts.skip(i));
    } else {
        assert(parts.skip(0) =~= parts);
    }
}

/// The error text of the first refused piece of a `/`-separated license
/// expression, if any piece is refused.
pub open spec fn license_error_of(lic: Seq<char>) -> Option<Seq<char>> {
    first_license_err(split_parts(lic))
}

/// Splits a string at `/`.
fn split_slash(s: &str) -> (r: Vec<String>)
    ensures
        r@.map_values(|p: String| p@) == split_parts(s@),
{
    let chars = str_chars(s);
    let mut parts: Vec<String> = Vec::new();
    let mut cur: Vec<char> = Vec::new();
    let n = chars.len();
    let mut i: usize = 0;
    while i < n
        invariant
            n == s@.len(),
            chars@ == s@,
            i <= n,
            parts@.map_values(|p: String| p@).push(cur@) =~= split_parts(s@.subrange(0, i as int)),
        decreases n - i,
    {
        let c = chars[i];
        proof {
            assert(s@.subrange(0, (i + 1) as int).drop_last() =~= s@.subrange(0, i as int));
            assert(s@.subrange(0, (i + 1) as int).last() == s@[i as int]);
            lemma_split_parts_len(s@.subrange(0, i as int));
        }
        if c == '/' {
            parts.push(chars_to_string(&cur));
            cur = Vec::new();
            assert(parts@.map_values(|p: String| p@).push(cur@) =~= split_parts(
                s@.subrange(0, (i + 1) as int),
            ));
        } else {
            cur.push(c);
            assert(parts@.map_values(|p: String| p@).push(cur@) =~= split_parts(
                s@.subrange(0, (i + 1) as int),
            ));
        }
        i = i + 1;
    }
    parts.push(chars_to_string(&cur));
    proof {
        assert(s@.subrange(0, n as int) =~= s@);
    }
    parts
}

/// Checks every `/`-separated piece of a license expression, reporting the
/// first refused piece's error inside the usual guidance message.
pub fn validate_license_expr_parts(lic: &str) -> (r: Result<(), PublishError>)
    ensures
        (r is Ok) == (license_error_of(lic@) is None),
        r is Err ==> (r->Err_0 matches PublishError::BadRequest(m) && license_error_of(lic@)
            matches Option::Some(e) && m@ == e
            + "; see http://opensource.org/licenses for options, and http://spdx.org/licenses/ for their identifiers"@),
{
    let parts = split_slash(lic);
    let n = parts.len();
    let ghost pv = parts@.map_values(|p: String| p@);
    let mut i: usize = 0;
    while i < n
        invariant
            n == parts@.len(),
            i <= n,
            pv == parts@.map_values(|p: String| p@),
            pv == split_parts(lic@),
            forall|j: int| 0 <= j < i ==> license_check_of(#[trigger] pv[j]) is None,
        decreases n - i,
    {
        if let Some(err) = license_expr_check(parts[i].as_str()) {
            proof {
                lemma_first_license_err_skip(pv, i as int);
                assert(pv.skip(i as int)[0] == pv[i as int]);
            }
            let mut out: Vec<char> = Vec::new();
            push_str_chars(&mut out, err.as_str());
            push_str_chars(
                &mut out,
                "; see http://opensource.org/licenses for options, and http://spdx.org/licenses/ for their identifiers",
            );
            return Err(PublishError::BadRequest(chars_to_string(&out)));
        }
        i = i + 1;
    }
    proof {
        lemma_first_license_err_skip(pv, n as int);
        assert(pv.skip(n as int) =~= Seq::<Seq<char>>::empty());
    }
    Ok(())
}

impl Clone for Package {
    fn clone(&self) -> (r: Self)
        ensures
            r@ == self@,
    {
        let mut owners: Vec<u32> = Vec::new();
        let mut i: usize = 0;
        while i < self.owners.len()
            invariant
                i <= self.owners@.len(),
                owners@ =~= self.owners@.subrange(0, i as int),
            decreases self.owners@.len() - i,
        {
            owners.push(self.owners[i]);
            i = i + 1;
            assert(owners@ =~= self.owners@.subrange(0, i as int));
        }
        assert(owners@ =~= self.owners@);
        Package {
            id: self.id,
            name: self.name.clone(),
            description: clone_opt_string(&self.description),
            homepage: clone_opt_string(&self.homepage),
            documentation: clone_opt_string(&self.documentation),
            readme: clone_opt_string(&self.readme),
            readme_file: clone_opt_string(&self.readme_file),
            repository: clone_opt_string(&self.repository),
            license: clone_opt_string(&self.license),
            max_upload_size: self.max_upload_size,
            owners,
        }
    }
}

impl Clone for Version {
    fn clone(&self) -> (r: Self)
        ensures
            r@ == self@,
    {
        let r = Version {
            id: self.id,
            crate_id: self.crate_id,
            num: self.num.clone(),
            num_text: self.num_text.clone(),
            features: crate::upload::clone_features(&self.features),
            license: clone_opt_string(&self.license),
            crate_size: self.crate_size,
            published_by: self.published_by,
            yanked: self.yanked,
            downloads: self.downloads,
            created_at: self.created_at,
            updated_at: self.updated_at,
        };
        assert(feats_view(r.features@) =~= feats_view(self.features@));
        r
    }
}

impl Clone for DependencyRow {
    fn clone(&self) -> (r: Self)
        ensures
            r@ == self@,
    {
        let r = DependencyRow { version_id: self.version_id, dep: self.dep.clone() };
        assert(r@.features =~= self@.features);
        r
    }
}

impl Clone for BadgeRow {
    fn clone(&self) -> (r: Self)
        ensures
            r@ == self@,
    {
        let r = BadgeRow { crate_id: self.crate_id, badge: self.badge.clone() };
        assert(r@.attributes =~= self@.attributes);
        r
    }
}

/// Copies a table of (id, string) rows; the copy holds equal rows.
fn clone_pairs(v: &Vec<(u32, String)>) -> (r: Vec<(u32, String)>)
    ensures
        r@ == v@,
{
    let mut r: Vec<(u32, String)> = Vec::new();
    let mut i: usize = 0;
    while i < v.len()
        invariant
            i <= v@.len(),
            r@ =~= v@.subrange(0, i as int),
        decreases v@.len() - i,
    {
        let pair = (v[i].0, v[i].1.clone());
        r.push(pair);
        i = i + 1;
        assert(r@ =~= v@.subrange(0, i as int));
    }
    assert(r@ =~= v@);
    r
}

impl MetadataStore {
    /// A copy of the whole store, equal to it as a state.
    pub fn clone_store(&self) -> (r: MetadataStore)
        ensures
            r@ == self@,
    {
        let mut packages: Vec<Package> = Vec::new();
        let mut i: usize = 0;
        while i < self.packages.len()
            invariant
                i <= self.packages@.len(),
                packages@.len() == i,
                forall|j: int| 0 <= j < i ==> (#[trigger] packages@[j])@ == self.packages@[j]@,
            decreases self.packages@.len() - i,
        {
            packages.push(self.packages[i].clone());
            i = i + 1;
        }
        let mut versions: Vec<Version> = Vec::new();
        let mut i: usize = 0;
        while i < self.versions.len()
            invariant
                i <= self.versions@.len(),
                versions@.len() == i,
                forall|j: int| 0 <= j < i ==> (#[trigger] versions@[j])@ == self.versions@[j]@,
            decreases self.versions@.len() - i,
        {
            versions.push(self.versions[i].clone());
            i = i + 1;
        }
        let mut dependencies: Vec<DependencyRow> = Vec::new();
        let mut i: usize = 0;
        while i < self.dependencies.len()
            invariant
                i <= self.dependencies@.len(),
                dependencies@.len() == i,
                forall|j: int|
                    0 <= j < i ==> (#[trigger] dependencies@[j])@ == self.dependencies@[j]@,
            decreases self.dependencies@.len() - i,
        {
            dependencies.push(self.dependencies[i].clone());
            i = i + 1;
        }
        let mut badges: Vec<BadgeRow> = Vec::new();
        let mut i: usize = 0;
        while i < self.badges.len()
            invariant
                i <= self.badges@.len(),
                badges@.len() == i,
                forall|j: int| 0 <= j < i ==> (#[trigger] badges@[j])@ == self.badges@[j]@,
            decreases self.badges@.len() - i,
        {
            badges.push(self.badges[i].clone());
            i = i + 1;
        }
        let mut readme_renderings: Vec<(u32, DateTime)> = Vec::new();
        let mut i: usize = 0;
        while i < self.readme_renderings.len()
            invariant
                i <= self.readme_renderings@.len(),
                readme_renderings@ =~= self.readme_renderings@.subrange(0, i as int),
            decreases self.readme_renderings@.len() - i,
        {
            readme_renderings.push(self.readme_renderings[i]);
            i = i + 1;
            assert(readme_renderings@ =~= self.readme_renderings@.subrange(0, i as int));
        }
        assert(readme_renderings@ =~= self.readme_renderings@);
        let r = MetadataStore {
            packages,
            versions,
            version_authors: clone_pairs(&self.version_authors),
            versions_published_by: clone_pairs(&self.versions_published_by),
            dependencies,
            keyword_links: clone_pairs(&self.keyword_links),
            category_links: clone_pairs(&self.category_links),
            badges,
            readme_renderings,
            known_categories: crate::upload::clone_string_vec(&self.known_categories),
            known_badge_kinds: crate::upload::clone_string_vec(&self.known_badge_kinds),
            next_package_id: self.next_package_id,
            next_version_id: self.next_version_id,
        };
        assert(r@.packages =~= self@.packages);
        assert(r@.versions =~= self@.versions);
        assert(r@.dependencies =~= self@.dependencies);
        assert(r@.badges =~= self@.badges);
        r
    }

    /// An empty store, knowing the given category slugs and badge kinds.
    pub fn new(known_categories: Vec<String>, known_badge_kinds: Vec<String>) -> (r: MetadataStore)
        ensures
            r@.packages.len() == 0,
            r@.versions.len() == 0,
            r@.version_authors.len() == 0,
            r@.versions_published_by.len() == 0,
            r@.dependencies.len() == 0,
            r@.keyword_links.len() == 0,
            r@.category_links.len() == 0,
            r@.badges.len() == 0,
            r@.readme_renderings.len() == 0,
            r@.known_categories == known_categories@.map_values(|s: String| s@),
            r@.known_badge_kinds == known_badge_kinds@.map_values(|s: String| s@),
            r@.next_package_id == 1,
            r@.next_version_id == 1,
            store_wf(r@),
    {
        MetadataStore {
            packages: Vec::new(),
            versions: Vec::new(),
            version_authors: Vec::new(),
            versions_published_by: Vec::new(),
            dependencies: Vec::new(),
            keyword_links: Vec::new(),
            category_links: Vec::new(),
            badges: Vec::new(),
            readme_renderings: Vec::new(),
            known_categories,
            known_badge_kinds,
            next_package_id: 1,
            next_version_id: 1,
        }
    }

    /// Replaces the keyword links of a package with the given keywords.
    pub fn update_keywords(&mut self, crate_id: u32, keywords: &Vec<String>)
        ensures
            final(self)@ == (StoreV {
                keyword_links: old(self)@.keyword_links.filter(
                    |p: (u32, Seq<char>)| p.0 != crate_id,
                ) + keywords@.map_values(|k: String| (crate_id, k@)),
                ..old(self)@
            }),
    {
        let mut links: Vec<(u32, String)> = Vec::new();
        let n = self.keyword_links.len();
        let mut i: usize = 0;
        while i < n
            invariant
                n == self.keyword_links@.len(),
                i <= n,
                self == old(self),
                pairs_view(links@) =~~= pairs_view(self.keyword_links@).subrange(
                    0,
                    i as int,
                ).filter(|p: (u32, Seq<char>)| p.0 != crate_id),
            decreases n - i,
        {
            proof {
                reveal(Seq::filter);
                let pref = pairs_view(self.keyword_links@).subrange(0, i as int);
                let prefx = pairs_view(self.keyword_links@).subrange(0, (i + 1) as int);
                assert(prefx.drop_last() =~= pref);
                assert(prefx.last() == pairs_view(self.keyword_links@)[i as int]);
            }
            if self.keyword_links[i].0 != crate_id {
                let pair = (self.keyword_links[i].0, self.keyword_links[i].1.clone());
                links.push(pair);
            }
            i = i + 1;
        }
        proof {
            assert(pairs_view(self.keyword_links@).subrange(0, n as int) =~= pairs_view(
                self.keyword_links@,
            ));
        }
        let m = keywords.len();
        let mut j: usize = 0;
        while j < m
            invariant
                m == keywords@.len(),
                j <= m,
                self == old(self),
                pairs_view(links@) =~~= pairs_view(old(self).keyword_links@).filter(
                    |p: (u32, Seq<char>)| p.0 != crate_id,
                ) + keywords@.subrange(0, j as int).map_values(|k: String| (crate_id, k@)),
            decreases m - j,
        {
            let ghost lp = links@;
            let pair = (crate_id, keywords[j].clone());
            links.push(pair);
            proof {
                assert(pairs_view(links@) =~= pairs_view(lp).push(
                    (crate_id, keywords@[j as int]@),
                ));
                assert(keywords@.subrange(0, (j + 1) as int) =~= keywords@.subrange(
                    0,
                    j as int,
                ).push(keywords@[j as int]));
                assert(keywords@.subrange(0, (j + 1) as int).map_values(
                    |k: String| (crate_id, k@),
                ) =~= keywords@.subrange(0, j as int).map_values(|k: String| (crate_id, k@)).push(
                    (crate_id, keywords@[j as int]@),
                ));
            }
            j = j + 1;
            assert(pairs_view(links@) =~~= pairs_view(old(self).keyword_links@).filter(
                |p: (u32, Seq<char>)| p.0 != crate_id,
            ) + keywords@.subrange(0, j as int).map_values(|k: String| (crate_id, k@)));
        }
        proof {
            assert(keywords@.subrange(0, m as int) =~= keywords@);
        }
        self.keyword_links = links;
    }

    /// Replaces the category links of a package with the known ones among
    /// the given slugs, returning the unknown slugs as warnings in order.
    pub fn update_categories(&mut self, crate_id: u32, categories: &Vec<String>) -> (invalid: Vec<
        String,
    >)
        ensures
            final(self)@ == (StoreV {
                category_links: old(self)@.category_links.filter(
                    |p: (u32, Seq<char>)| p.0 != crate_id,
                ) + categories@.map_values(|c: String| c@).filter(
                    |c: Seq<char>| old(self)@.known_categories.contains(c),
                ).map_values(|c: Seq<char>| (crate_id, c)),
                ..old(self)@
            }),
            invalid@.map_values(|c: String| c@) == categories@.map_values(|c: String| c@).filter(
                |c: Seq<char>| !old(self)@.known_categories.contains(c),
            ),
    {
        let mut links: Vec<(u32, String)> = Vec::new();
        let n = self.category_links.len();
        let mut i: usize = 0;
        while i < n
            invariant
                n == self.category_links@.len(),
                i <= n,
                self == old(self),
                pairs_view(links@) =~~= pairs_view(self.category_links@).subrange(
                    0,
                    i as int,
                ).filter(|p: (u32, Seq<char>)| p.0 != crate_id),
            decreases n - i,
        {
            proof {
                reveal(Seq::filter);
                let pref = pairs_view(self.category_links@).subrange(0, i as int);
                let prefx = pairs_view(self.category_links@).subrange(0, (i + 1) as int);
                assert(prefx.drop_last() =~= pref);
                assert(prefx.last() == pairs_view(self.category_links@)[i as int]);
            }
            if self.category_links[i].0 != crate_id {
                let pair = (self.category_links[i].0, self.category_links[i].1.clone());
                links.push(pair);
            }
            i = i + 1;
        }
        proof {
            assert(pairs_view(self.category_links@).subrange(0, n as int) =~= pairs_view(
                self.category_links@,
            ));
        }
        let mut invalid: Vec<String> = Vec::new();
        let m = categories.len();
        let mut j: usize = 0;
        while j < m
            invariant
                m == categories@.len(),
                j <= m,
                self == old(self),
                pairs_view(links@) =~~= pairs_view(old(self).category_links@).filter(
                    |p: (u32, Seq<char>)| p.0 != crate_id,
                ) + categories@.subrange(0, j as int).map_values(|c: String| c@).filter(
                    |c: Seq<char>| old(self)@.known_categories.contains(c),
                ).map_values(|c: Seq<char>| (crate_id, c)),
                invalid@.map_values(|c: String| c@) =~~= categories@.subrange(
                    0,
                    j as int,
                ).map_values(|c: String| c@).filter(
                    |c: Seq<char>| !old(self)@.known_categories.contains(c),
                ),
            decreases m - j,
        {
            proof {
                reveal(Seq::filter);
                let pref = categories@.subrange(0, j as int).map_values(|c: String| c@);
                let prefx = categories@.subrange(0, (j + 1) as int).map_values(|c: String| c@);
                assert(prefx.drop_last() =~= pref);
                assert(prefx.last() == categories@[j as int]@);
            }
            let ghost lp = links@;
            let ghost ip = invalid@;
            let ghost keepf = |c: Seq<char>| old(self)@.known_categories.contains(c);
            let ghost dropf = |c: Seq<char>| !old(self)@.known_categories.contains(c);
            let ghost pref = categories@.subrange(0, j as int).map_values(|c: String| c@);
            let ghost prefx = categories@.subrange(0, (j + 1) as int).map_values(|c: String| c@);
            if self.contains_known_category(&categories[j]) {
                let pair = (crate_id, categories[j].clone());
                links.push(pair);
                proof {
                    assert(pairs_view(links@) =~= pairs_view(lp).push(
                        (crate_id, categories@[j as int]@),
                    ));
                    assert(prefx.filter(keepf) =~= pref.filter(keepf).push(
                        categories@[j as int]@,
                    ));
                    assert(prefx.filter(keepf).map_values(|c: Seq<char>| (crate_id, c))
                        =~= pref.filter(keepf).map_values(|c: Seq<char>| (crate_id, c)).push(
                        (crate_id, categories@[j as int]@),
                    ));
                    assert(prefx.filter(dropf) =~= pref.filter(dropf));
                }
            } else {
                invalid.push(categories[j].clone());
                proof {
                    assert(invalid@.map_values(|c: String| c@) =~= ip.map_values(
                        |c: String| c@,
                    ).push(categories@[j as int]@));
                    assert(prefx.filter(dropf) =~= pref.filter(dropf).push(
                        categories@[j as int]@,
                    ));
                    assert(prefx.filter(keepf) =~= pref.filter(keepf));
                    assert(prefx.filter(keepf).map_values(|c: Seq<char>| (crate_id, c))
                        =~= pref.filter(keepf).map_values(|c: Seq<char>| (crate_id, c)));
                }
            }
            j = j + 1;
        }
        proof {
            assert(categories@.subrange(0, m as int) =~= categories@);
            assert(invalid@.map_values(|c: String| c@) =~~= categories@.map_values(
                |c: String| c@,
            ).filter(|c: Seq<char>| !old(self)@.known_categories.contains(c)));
        }
        self.category_links = links;
        invalid
    }

    /// True when the slug is a known category.
    fn contains_known_category(&self, slug: &String) -> (r: bool)
        ensures
            r == self@.known_categories.contains(slug@),
    {
        let n = self.known_categories.len();
        let mut i: usize = 0;
        while i < n
            invariant
                n == self.known_categories@.len(),
                i <= n,
                forall|j: int| 0 <= j < i ==> self@.known_categories[j] != slug@,
            decreases n - i,
        {
            if self.known_categories[i].eq(slug) {
                assert(self@.known_categories[i as int] == slug@);
                return true;
            }
            i = i + 1;
        }
        assert(forall|j: int|
            0 <= j < self@.known_categories.len() ==> self@.known_categories[j] != slug@);
        false
    }

    /// True when the kind is a known badge kind.
    fn contains_known_badge(&self, kind: &String) -> (r: bool)
        ensures
            r == self@.known_badge_kinds.contains(kind@),
    {
        let n = self.known_badge_kinds.len();
        let mut i: usize = 0;
        while i < n
            invariant
                n == self.known_badge_kinds@.len(),
                i <= n,
                forall|j: int| 0 <= j < i ==> self@.known_badge_kinds[j] != kind@,
            decreases n - i,
        {
            if self.known_badge_kinds[i].eq(kind) {
                assert(self@.known_badge_kinds[i as int] == kind@);
                return true;
            }
            i = i + 1;
        }
        assert(forall|j: int|
            0 <= j < self@.known_badge_kinds.len() ==> self@.known_badge_kinds[j] != kind@);
        false
    }

    /// Replaces the badges of a package with the given ones whose kind is
    /// known, returning the unknown kinds as warnings in order. An absent
    /// badge map clears the package's badges.
    pub fn update_badges(&mut self, crate_id: u32, badges: &Option<Vec<BadgeSpec>>) -> (invalid:
        Vec<String>)
        ensures
            ({
                let given = match badges {
                    Option::None => Seq::<BadgeSpec>::empty(),
                    Option::Some(bs) => bs@,
                };
                &&& final(self)@ == (StoreV {
                    badges: old(self)@.badges.filter(|b: BadgeRowV| b.crate_id != crate_id)
                        + given.filter(
                        |b: BadgeSpec| old(self)@.known_badge_kinds.contains(b.kind@),
                    ).map_values(|b: BadgeSpec| badge_view(crate_id, b)),
                    ..old(self)@
                })
                &&& invalid@.map_values(|s: String| s@) == given.filter(
                    |b: BadgeSpec| !old(self)@.known_badge_kinds.contains(b.kind@),
                ).map_values(|b: BadgeSpec| b.kind@)
            }),
    {
        let mut rows: Vec<BadgeRow> = Vec::new();
        let n = self.badges.len();
        let mut i: usize = 0;
        while i < n
            invariant
                n == self.badges@.len(),
                i <= n,
                self == old(self),
                rows@.map_values(|b: BadgeRow| b@) =~~= self@.badges.subrange(0, i as int).filter(
                    |b: BadgeRowV| b.crate_id != crate_id,
                ),
            decreases n - i,
        {
            proof {
                reveal(Seq::filter);
                let pref = self@.badges.subrange(0, i as int);
                let prefx = self@.badges.subrange(0, (i + 1) as int);
                assert(prefx.drop_last() =~= pref);
                assert(prefx.last() == self@.badges[i as int]);
            }
            if self.badges[i].crate_id != crate_id {
                rows.push(self.badges[i].clone());
            }
            i = i + 1;
        }
        proof {
            assert(self@.badges.subrange(0, n as int) =~= self@.badges);
        }
        let mut invalid: Vec<String> = Vec::new();
        if let Some(bs) = badges {
            let m = bs.len();
            let mut j: usize = 0;
            while j < m
                invariant
                    m == bs@.len(),
                    j <= m,
                    self == old(self),
                    rows@.map_values(|b: BadgeRow| b@) =~~= old(self)@.badges.filter(
                        |b: BadgeRowV| b.crate_id != crate_id,
                    ) + bs@.subrange(0, j as int).filter(
                        |b: BadgeSpec| old(self)@.known_badge_kinds.contains(b.kind@),
                    ).map_values(|b: BadgeSpec| badge_view(crate_id, b)),
                    invalid@.map_values(|s: String| s@) =~~= bs@.subrange(0, j as int).filter(
                        |b: BadgeSpec| !old(self)@.known_badge_kinds.contains(b.kind@),
                    ).map_values(|b: BadgeSpec| b.kind@),
                decreases m - j,
            {
                proof {
                    reveal(Seq::filter);
                    let pref = bs@.subrange(0, j as int);
                    let prefx = bs@.subrange(0, (j + 1) as int);
                    assert(prefx.drop_last() =~= pref);
                    assert(prefx.last() == bs@[j as int]);
                }
                let ghost rp = rows@;
                let ghost ip = invalid@;
                let ghost keepf = |b: BadgeSpec| old(self)@.known_badge_kinds.contains(b.kind@);
                let ghost dropf = |b: BadgeSpec| !old(self)@.known_badge_kinds.contains(b.kind@);
                let ghost pref = bs@.subrange(0, j as int);
                let ghost prefx = bs@.subrange(0, (j + 1) as int);
                if self.contains_known_badge(&bs[j].kind) {
                    let row = BadgeRow { crate_id, badge: bs[j].clone() };
                    assert(row@ == badge_view(crate_id, bs@[j as int]));
                    rows.push(row);
                    proof {
                        assert(rows@.map_values(|b: BadgeRow| b@) =~= rp.map_values(
                            |b: BadgeRow| b@,
                        ).push(badge_view(crate_id, bs@[j as int])));
                        assert(prefx.filter(keepf) =~= pref.filter(keepf).push(bs@[j as int]));
                        assert(prefx.filter(keepf).map_values(
                            |b: BadgeSpec| badge_view(crate_id, b),
                        ) =~= pref.filter(keepf).map_values(
                            |b: BadgeSpec| badge_view(crate_id, b),
                        ).push(badge_view(crate_id, bs@[j as int])));
                        assert(prefx.filter(dropf) =~= pref.filter(dropf));
                        assert(prefx.filter(dropf).map_values(|b: BadgeSpec| b.kind@)
                            =~= pref.filter(dropf).map_values(|b: BadgeSpec| b.kind@));
                    }
                } else {
                    invalid.push(bs[j].kind.clone());
                    proof {
                        assert(invalid@.map_values(|s: String| s@) =~= ip.map_values(
                            |s: String| s@,
                        ).push(bs@[j as int].kind@));
                        assert(prefx.filter(dropf) =~= pref.filter(dropf).push(bs@[j as int]));
                        assert(prefx.filter(dropf).map_values(|b: BadgeSpec| b.kind@)
                            =~= pref.filter(dropf).map_values(|b: BadgeSpec| b.kind@).push(
                            bs@[j as int].kind@,
                        ));
                        assert(prefx.filter(keepf) =~= pref.filter(keepf));
                        assert(prefx.filter(keepf).map_values(
                            |b: BadgeSpec| badge_view(crate_id, b),
                        ) =~= pref.filter(keepf).map_values(
                            |b: BadgeSpec| badge_view(crate_id, b),
                        ));
                    }
                }
                j = j + 1;
            }
            proof {
                assert(bs@.subrange(0, m as int) =~= bs@);
            }
        }
        self.badges = rows;
        invalid
    }

    /// Records that the readme of this version was rendered at `now`,
    /// replacing any earlier record for the version.
    pub fn record_readme_rendering(&mut self, version_id: u32, now: DateTime)
        ensures
            final(self)@ == (StoreV {
                readme_renderings: old(self)@.readme_renderings.filter(
                    |p: (u32, DateTime)| p.0 != version_id,
                ).push((version_id, now)),
                ..old(self)@
            }),
    {
        let mut rows: Vec<(u32, DateTime)> = Vec::new();
        let n = self.readme_renderings.len();
        let mut i: usize = 0;
        while i < n
            invariant
                n == self.readme_renderings@.len(),
                i <= n,
                self == old(self),
                rows@ =~= self.readme_renderings@.subrange(0, i as int).filter(
                    |p: (u32, DateTime)| p.0 != version_id,
                ),
            decreases n - i,
        {
            proof {
                reveal(Seq::filter);
                let pref = self.readme_renderings@.subrange(0, i as int);
                let prefx = self.readme_renderings@.subrange(0, (i + 1) as int);
                assert(prefx.drop_last() =~= pref);
                assert(prefx.last() == self.readme_renderings@[i as int]);
            }
            if self.readme_renderings[i].0 != version_id {
                rows.push(self.readme_renderings[i]);
            }
            i = i + 1;
        }
        proof {
            assert(self.readme_renderings@.subrange(0, n as int) =~= self.readme_renderings@);
        }
        rows.push((version_id, now));
        self.readme_renderings = rows;
    }

    /// The index of the package whose name matches `name` case
    /// insensitively, if any.
    pub fn find_package(&self, name: &str) -> (r: Option<usize>)
        requires
            store_wf(self@),
        ensures
            (r is Some) == has_pkg(self@, name@),
            r matches Option::Some(i) ==> i < self@.packages.len() && canon(
                self@.packages[i as int].name,
            ) == canon(name@) && i == pkg_idx(self@, name@),
    {
        let n = self.packages.len();
        let mut i: usize = 0;
        while i < n
            invariant
                store_wf(self@),
                n == self@.packages.len(),
                i <= n,
                forall|j: int|
                    0 <= j < i ==> canon(#[trigger] self@.packages[j].name) != canon(name@),
            decreases n - i,
        {
            if eq_ignore_ascii_case(self.packages[i].name.as_str(), name) {
                proof {
                    assert(canon(self@.packages[i as int].name) == canon(name@));
                    assert(has_pkg(self@, name@));
                    let k = pkg_idx(self@, name@);
                    assert(0 <= k < self@.packages.len() && canon(self@.packages[k].name) == canon(
                        name@,
                    ));
                    if k != i {
                        assert(canon(self@.packages[k].name) == canon(
                            self@.packages[i as int].name,
                        ));
                    }
                }
                return Some(i);
            }
            i = i + 1;
        }
        None
    }
}

impl crate::versions::TopVersions {
    /// Both the newest and the highest version over whole version rows.
    pub fn from_versions(versions: Vec<Version>) -> (r: crate::versions::TopVersions)
        ensures
            ({
                let pairs = versions@.map_values(|v: Version| (v.created_at, v.num));
                &&& crate::versions::opt_sv_eq(
                    r.newest,
                    if pairs.len() == 0 {
                        Option::<SemVer>::None
                    } else {
                        Option::Some(crate::versions::max_pair(pairs).1)
                    },
                )
                &&& crate::versions::opt_sv_eq(
                    r.highest,
                    if pairs.len() == 0 {
                        Option::<SemVer>::None
                    } else {
                        Option::Some(crate::versions::max_ver(crate::versions::versions_of(pairs)))
                    },
                )
                &&& crate::versions::opt_sv_eq(
                    r.highest_stable,
                    if crate::versions::stable_of(crate::versions::versions_of(pairs)).len()
                        == 0 {
                        Option::<SemVer>::None
                    } else {
                        Option::Some(
                            crate::versions::max_ver(
                                crate::versions::stable_of(crate::versions::versions_of(pairs)),
                            ),
                        )
                    },
                )
            }),
    {
        let ghost all = versions@;
        let mut vs = versions;
        let mut pairs: Vec<(DateTime, SemVer)> = Vec::new();
        while vs.len() > 0
            invariant
                vs@.len() <= all.len(),
                vs@ =~= all.subrange(0, vs@.len() as int),
                pairs@ =~= all.subrange(vs@.len() as int, all.len() as int).map_values(
                    |v: Version| (v.created_at, v.num),
                ),
            decreases vs@.len(),
        {
            let ghost pre = vs@;
            let ghost k = pre.len() - 1;
            let v = match vs.pop() {
                Some(v) => v,
                None => {
                    proof {
                        assert(false);
                    }
                    return crate::versions::TopVersions {
                        highest: None,
                        highest_stable: None,
                        newest: None,
                    };
                },
            };
            proof {
                assert(pre.len() > 0);
                assert(v == pre.last());
                assert(pre.last() == all.subrange(0, pre.len() as int).last());
                assert(all.subrange(0, pre.len() as int).last() == all[k]);
                assert(v == all[k]);
                assert(vs@ == pre.drop_last());
                assert(vs@ =~= all.subrange(0, k));
            }
            let ghost pp = pairs@;
            pairs.insert(0, (v.created_at, v.num));
            proof {
                assert(pairs@ =~= seq![(v.created_at, v.num)] + pp);
                assert(pairs@ =~= all.subrange(k, all.len() as int).map_values(
                    |v: Version| (v.created_at, v.num),
                ));
            }
        }
        proof {
            assert(all.subrange(0, all.len() as int) =~= all);
            assert(pairs@ =~= all.map_values(|v: Version| (v.created_at, v.num)));
        }
        crate::versions::TopVersions::from_date_version_pairs(&pairs)
    }
}

/// Ascending order on dependency edges: required edges come before
/// optional ones, and within each group the dependency names compare
/// lexicographically.
pub open spec fn dep_le(a: CrateDependency, b: CrateDependency) -> bool {
    (!a.optional && b.optional) || (a.optional == b.optional && (crate::versions::chars_lt(
        a.name@,
        b.name@,
    ) || a.name@ == b.name@))
}

/// The strict part of the dependency order.
pub open spec fn dep_lt(a: CrateDependency, b: CrateDependency) -> bool {
    (!a.optional && b.optional) || (a.optional == b.optional && crate::versions::chars_lt(
        a.name@,
        b.name@,
    ))
}

/// Sorted ascending by (optional, name).
pub open spec fn deps_sorted(s: Seq<CrateDependency>) -> bool {
    forall|i: int, j: int| 0 <= i < j < s.len() ==> dep_le(s[i], s[j])
}

/// The dependency order is total: an edge not strictly below another is at
/// or above it.
proof fn lemma_dep_le_total(a: CrateDependency, b: CrateDependency)
    ensures
        !dep_lt(a, b) ==> dep_le(b, a),
{
    crate::versions::lemma_chars_lt_total(a.name@, b.name@);
}

/// A strictly smaller edge stays below whatever the larger one is below.
proof fn lemma_dep_lt_le_trans(a: CrateDependency, b: CrateDependency, c: CrateDependency)
    requires
        dep_lt(a, b),
        dep_le(b, c),
    ensures
        dep_le(a, c),
{
    if a.optional == b.optional && b.optional == c.optional {
        if crate::versions::chars_lt(b.name@, c.name@) {
            if crate::versions::chars_lt(a.name@, b.name@) {
                crate::versions::lemma_chars_lt_trans(a.name@, b.name@, c.name@);
            }
        }
    }
}

/// Strict dependency order, executable form.
fn dep_less(a: &CrateDependency, b: &CrateDependency) -> (r: bool)
    ensures
        r == dep_lt(*a, *b),
{
    if !a.optional && b.optional {
        true
    } else if a.optional == b.optional {
        crate::versions::str_lt(a.name.as_str(), b.name.as_str())
    } else {
        false
    }
}

/// The position a new edge takes in a sorted list: after everything it is
/// not strictly below.
fn dep_insert_position(out: &Vec<CrateDependency>, d: &CrateDependency) -> (p: usize)
    ensures
        p <= out@.len(),
        forall|k: int| 0 <= k < p ==> !dep_lt(*d, out@[k]),
        p < out@.len() ==> dep_lt(*d, out@[p as int]),
{
    let n = out.len();
    let mut p: usize = 0;
    while p < n
        invariant
            n == out@.len(),
            p <= n,
            forall|k: int| 0 <= k < p ==> !dep_lt(*d, out@[k]),
        decreases n - p,
    {
        if dep_less(d, &out[p]) {
            return p;
        }
        p = p + 1;
    }
    p
}

impl Version {
    /// The declared dependencies recorded for this version: one edge per
    /// recorded row — complete and without duplicates — sorted ascending
    /// by (optional, name).
    pub fn dependencies(&self, store: &MetadataStore) -> (r: Vec<CrateDependency>)
        ensures
            r@.map_values(|d: CrateDependency| dep_view(self.id, d)).to_multiset()
                == store@.dependencies.filter(
                |d: DependencyV| d.version_id == self.id,
            ).to_multiset(),
            deps_sorted(r@),
    {
        let mut out: Vec<CrateDependency> = Vec::new();
        let n = store.dependencies.len();
        let mut i: usize = 0;
        proof {
            assert(out@.map_values(|d: CrateDependency| dep_view(self.id, d))
                =~= Seq::<DependencyV>::empty());
            assert(store@.dependencies.subrange(0, 0).filter(
                |d: DependencyV| d.version_id == self.id,
            ) =~= Seq::<DependencyV>::empty()) by {
                reveal(Seq::filter);
            }
        }
        while i < n
            invariant
                n == store@.dependencies.len(),
                i <= n,
                out@.map_values(|d: CrateDependency| dep_view(self.id, d)).to_multiset()
                    == store@.dependencies.subrange(0, i as int).filter(
                    |d: DependencyV| d.version_id == self.id,
                ).to_multiset(),
                deps_sorted(out@),
            decreases n - i,
        {
            proof {
                reveal(Seq::filter);
                let pref = store@.dependencies.subrange(0, i as int);
                let prefx = store@.dependencies.subrange(0, (i + 1) as int);
                assert(prefx.drop_last() =~= pref);
                assert(prefx.last() == store@.dependencies[i as int]);
            }
            if store.dependencies[i].version_id == self.id {
                let d = store.dependencies[i].dep.clone();
                proof {
                    assert(dep_view(self.id, d).features =~= dep_view(
                        self.id,
                        store.dependencies@[i as int].dep,
                    ).features);
                    assert(dep_view(self.id, d) == store@.dependencies[i as int]);
                }
                let p = dep_insert_position(&out, &d);
                let ghost oldout = out@;
                out.insert(p, d);
                proof {
                    broadcast use vstd::seq_lib::to_multiset_insert;
                    broadcast use vstd::seq_lib::to_multiset_build;

                    oldout.insert_ensures(p as int, d);
                    let dv = |d: CrateDependency| dep_view(self.id, d);
                    let f = |d: DependencyV| d.version_id == self.id;
                    assert(out@ == oldout.insert(p as int, d));
                    assert(out@.map_values(dv) =~= oldout.map_values(dv).insert(
                        p as int,
                        dep_view(self.id, d),
                    ));
                    assert(out@.map_values(dv).to_multiset() == oldout.map_values(
                        dv,
                    ).to_multiset().insert(dep_view(self.id, d)));
                    let pref = store@.dependencies.subrange(0, i as int);
                    let prefx = store@.dependencies.subrange(0, (i + 1) as int);
                    assert(prefx.filter(f) =~= pref.filter(f).push(
                        store@.dependencies[i as int],
                    ));
                    assert(prefx.filter(f).to_multiset() == pref.filter(f).to_multiset().insert(
                        store@.dependencies[i as int],
                    ));
                    assert(out@.map_values(dv).to_multiset() =~= prefx.filter(f).to_multiset());
                    assert forall|x: int, y: int| 0 <= x < y < out@.len() implies dep_le(
                        out@[x],
                        out@[y],
                    ) by {
                        if y < p {
                            assert(out@[x] == oldout[x] && out@[y] == oldout[y]);
                        } else if y == p {
                            assert(out@[y] == d && out@[x] == oldout[x]);
                            lemma_dep_le_total(d, oldout[x]);
                        } else if x < p {
                            assert(out@[x] == oldout[x] && out@[y] == oldout[y - 1]);
                            if x == y - 1 {
                            } else {
                            }
                        } else if x == p {
                            assert(out@[x] == d && out@[y] == oldout[y - 1]);
                            assert(dep_lt(d, oldout[p as int]));
                            if y - 1 == p {
                            } else {
                                assert(dep_le(oldout[p as int], oldout[y - 1]));
                                lemma_dep_lt_le_trans(d, oldout[p as int], oldout[y - 1]);
                            }
                        } else {
                            assert(out@[x] == oldout[x - 1] && out@[y] == oldout[y - 1]);
                        }
                    }
                }
            }
            i = i + 1;
        }
        proof {
            assert(store@.dependencies.subrange(0, n as int) =~= store@.dependencies);
        }
        out
    }
}

/// The fields a publish carries for the package row.
#[derive(Debug)]
pub struct NewCrate {
    pub name: String,
    pub description: Option<String>,
    pub homepage: Option<String>,
    pub documentation: Option<String>,
    pub readme: Option<String>,
    pub readme_file: Option<String>,
    pub repository: Option<String>,
    pub license: Option<String>,
    pub max_upload_size: Option<u64>,
}

/// An existing package row after a publish: the descriptive fields take the
/// uploaded values (last writer wins); identity, quota override and owners
/// are untouched.
pub open spec fn updated_pkg(p: PackageV, nc: NewCrate) -> PackageV {
    PackageV {
        description: opt_view(nc.description),
        homepage: opt_view(nc.homepage),
        documentation: opt_view(nc.documentation),
        readme: opt_view(nc.readme),
        readme_file: opt_view(nc.readme_file),
        repository: opt_view(nc.repository),
        license: opt_view(nc.license),
        ..p
    }
}

/// A package row created on first publish: the publisher is its first
/// owner.
pub open spec fn new_pkg(nc: NewCrate, id: u32, user_id: u32) -> PackageV {
    PackageV {
        id,
        name: nc.name@,
        description: opt_view(nc.description),
        homepage: opt_view(nc.homepage),
        documentation: opt_view(nc.documentation),
        readme: opt_view(nc.readme),
        readme_file: opt_view(nc.readme_file),
        repository: opt_view(nc.repository),
        license: opt_view(nc.license),
        max_upload_size: nc.max_upload_size,
        owners: seq![user_id],
    }
}

/// Rewriting package rows without touching their ids or canonical names,
/// and leaving everything else alone, preserves well-formedness.
#[verifier::spinoff_prover]
#[verifier::rlimit(100)]
pub proof fn lemma_wf_packages_rewritten(s0: StoreV, s1: StoreV)
    requires
        store_wf(s0),
        s1.packages.len() == s0.packages.len(),
        forall|k: int|
            0 <= k < s1.packages.len() ==> (#[trigger] s1.packages[k]).id == s0.packages[k].id
                && canon(s1.packages[k].name) == canon(s0.packages[k].name),
        s1.versions == s0.versions,
        s1.next_package_id == s0.next_package_id,
        s1.next_version_id == s0.next_version_id,
    ensures
        store_wf(s1),
{
    assert forall|a: int, b: int|
        0 <= a < b < s1.packages.len() implies s1.packages[a].id != s1.packages[b].id by {
        assert(s1.packages[a].id == s0.packages[a].id);
        assert(s1.packages[b].id == s0.packages[b].id);
    }
    assert forall|k: int| 0 <= k < s1.packages.len() implies (#[trigger] s1.packages[k]).id
        < s1.next_package_id by {
        assert(s1.packages[k].id == s0.packages[k].id);
    }
    assert forall|a: int, b: int|
        0 <= a < b < s1.packages.len() implies canon(s1.packages[a].name) != canon(
        s1.packages[b].name,
    ) by {
        assert(canon(s1.packages[a].name) == canon(s0.packages[a].name));
        assert(canon(s1.packages[b].name) == canon(s0.packages[b].name));
    }
    assert forall|a: int, b: int|
        0 <= a < b < s1.versions.len() implies s1.versions[a].id != s1.versions[b].id by {
        assert(s1.versions[a] == s0.versions[a]);
        assert(s1.versions[b] == s0.versions[b]);
    }
    assert forall|k: int| 0 <= k < s1.versions.len() implies (#[trigger] s1.versions[k]).id
        < s1.next_version_id by {
        assert(s1.versions[k] == s0.versions[k]);
    }
    assert forall|a: int, b: int|
        0 <= a < b < s1.versions.len() implies !(s1.versions[a].crate_id
        == s1.versions[b].crate_id && s1.versions[a].num_text == s1.versions[b].num_text) by {
        assert(s1.versions[a] == s0.versions[a]);
        assert(s1.versions[b] == s0.versions[b]);
    }
    assert forall|k: int| 0 <= k < s1.versions.len() implies has_pkg_id(
        s1,
        (#[trigger] s1.versions[k]).crate_id,
    ) by {
        assert(s1.versions[k] == s0.versions[k]);
        assert(has_pkg_id(s0, s0.versions[k].crate_id));
        lemma_pkg_id_preserved(s0, s1, s0.versions[k].crate_id);
    }
}

/// Appending a package row with a fresh id and an unseen canonical name,
/// and advancing the id counter, preserves well-formedness.
#[verifier::spinoff_prover]
#[verifier::rlimit(100)]
pub proof fn lemma_wf_package_pushed(s0: StoreV, s1: StoreV, p: PackageV)
    requires
        store_wf(s0),
        s0.next_package_id < 0xFFFF_FFFFu32,
        p.id == s0.next_package_id,
        forall|k: int|
            0 <= k < s0.packages.len() ==> canon((#[trigger] s0.packages[k]).name) != canon(
                p.name,
            ),
        s1.packages == s0.packages.push(p),
        s1.versions == s0.versions,
        s1.next_package_id == s0.next_package_id + 1,
        s1.next_version_id == s0.next_version_id,
    ensures
        store_wf(s1),
{
    let n = s0.packages.len() as int;
    assert(forall|k: int| 0 <= k < n ==> #[trigger] s1.packages[k] == s0.packages[k]);
    assert(s1.packages[n] == p);
    assert forall|a: int, b: int|
        0 <= a < b < s1.packages.len() implies s1.packages[a].id != s1.packages[b].id by {
        if b < n {
        } else {
            assert(s0.packages[a].id < s0.next_package_id);
        }
    }
    assert forall|a: int, b: int|
        0 <= a < b < s1.packages.len() implies canon(s1.packages[a].name) != canon(
        s1.packages[b].name,
    ) by {
        if b < n {
        } else {
            assert(canon(s0.packages[a].name) != canon(p.name));
        }
    }
    assert forall|a: int, b: int|
        0 <= a < b < s1.versions.len() implies s1.versions[a].id != s1.versions[b].id by {
        assert(s1.versions[a] == s0.versions[a]);
        assert(s1.versions[b] == s0.versions[b]);
    }
    assert forall|k: int| 0 <= k < s1.versions.len() implies (#[trigger] s1.versions[k]).id
        < s1.next_version_id by {
        assert(s1.versions[k] == s0.versions[k]);
    }
    assert forall|a: int, b: int|
        0 <= a < b < s1.versions.len() implies !(s1.versions[a].crate_id
        == s1.versions[b].crate_id && s1.versions[a].num_text == s1.versions[b].num_text) by {
        assert(s1.versions[a] == s0.versions[a]);
        assert(s1.versions[b] == s0.versions[b]);
    }
    assert forall|k: int| 0 <= k < s1.versions.len() implies has_pkg_id(
        s1,
        (#[trigger] s1.versions[k]).crate_id,
    ) by {
        assert(s1.versions[k] == s0.versions[k]);
        assert(has_pkg_id(s0, s0.versions[k].crate_id));
        lemma_pkg_id_preserved(s0, s1, s0.versions[k].crate_id);
    }
}

impl NewCrate {
    /// Creates the package on first publish, or updates the existing row's
    /// descriptive fields, matching the name case insensitively. Returns the
    /// row's index.
    #[verifier::rlimit(100)]
    pub fn create_or_update(&self, store: &mut MetadataStore, user_id: u32) -> (r: usize)
        requires
            store_wf(old(store)@),
            old(store)@.next_package_id < 0xFFFF_FFFFu32,
        ensures
            store_wf(final(store)@),
            r < final(store)@.packages.len(),
            canon(final(store)@.packages[r as int].name) == canon(self.name@),
            has_pkg(old(store)@, self.name@) ==> r == pkg_idx(old(store)@, self.name@)
                && final(store)@ == (StoreV {
                packages: old(store)@.packages.update(
                    r as int,
                    updated_pkg(old(store)@.packages[r as int], *self),
                ),
                ..old(store)@
            }),
            !has_pkg(old(store)@, self.name@) ==> r == old(store)@.packages.len() && final(store)@
                == (StoreV {
                packages: old(store)@.packages.push(
                    new_pkg(*self, old(store)@.next_package_id, user_id),
                ),
                next_package_id: (old(store)@.next_package_id + 1) as u32,
                ..old(store)@
            }),
    {
        let found = store.find_package(self.name.as_str());
        match found {
            Some(i) => {
                let mut p = store.packages[i].clone();
                p.description = clone_opt_string(&self.description);
                p.homepage = clone_opt_string(&self.homepage);
                p.documentation = clone_opt_string(&self.documentation);
                p.readme = clone_opt_string(&self.readme);
                p.readme_file = clone_opt_string(&self.readme_file);
                p.repository = clone_opt_string(&self.repository);
                p.license = clone_opt_string(&self.license);
                proof {
                    assert(p@ == updated_pkg(old(store)@.packages[i as int], *self));
                }
                store.packages[i] = p;
                proof {
                    assert(store@.packages =~= old(store)@.packages.update(
                        i as int,
                        updated_pkg(old(store)@.packages[i as int], *self),
                    ));
                    assert(store_wf(store@)) by {
                        let s0 = old(store)@;
                        let s1 = store@;
                        assert(s1.packages.len() == s0.packages.len());
                        assert forall|k: int| 0 <= k < s1.packages.len() implies (
                        #[trigger] s1.packages[k]).id == s0.packages[k].id && canon(
                            s1.packages[k].name,
                        ) == canon(s0.packages[k].name) by {
                            if k == i as int {
                                assert(s1.packages[k] == updated_pkg(s0.packages[k], *self));
                            }
                        }
                        assert(s1.versions =~= s0.versions);
                        assert(s1.versions == s0.versions);
                        lemma_wf_packages_rewritten(s0, s1);
                    }
                }
                i
            },
            None => {
                let id = store.next_package_id;
                let mut owners: Vec<u32> = Vec::new();
                owners.push(user_id);
                let pkg = Package {
                    id,
                    name: self.name.clone(),
                    description: clone_opt_string(&self.description),
                    homepage: clone_opt_string(&self.homepage),
                    documentation: clone_opt_string(&self.documentation),
                    readme: clone_opt_string(&self.readme),
                    readme_file: clone_opt_string(&self.readme_file),
                    repository: clone_opt_string(&self.repository),
                    license: clone_opt_string(&self.license),
                    max_upload_size: self.max_upload_size,
                    owners,
                };
                proof {
                    assert(pkg@ == new_pkg(*self, old(store)@.next_package_id, user_id));
                }
                let r = store.packages.len();
                store.packages.push(pkg);
                store.next_package_id = id + 1;
                proof {
                    assert(store@.packages =~= old(store)@.packages.push(
                        new_pkg(*self, old(store)@.next_package_id, user_id),
                    ));
                    assert(store_wf(store@)) by {
                        let s0 = old(store)@;
                        let s1 = store@;
                        let p = new_pkg(*self, s0.next_package_id, user_id);
                        assert(p.id == s0.next_package_id);
                        assert(forall|k: int|
                            0 <= k < s0.packages.len() ==> canon(
                                (#[trigger] s0.packages[k]).name,
                            ) != canon(p.name));
                        assert(s1.packages =~= s0.packages.push(p));
                        assert(s1.packages == s0.packages.push(p));
                        assert(s1.versions =~= s0.versions);
                        assert(s1.versions == s0.versions);
                        lemma_wf_package_pushed(s0, s1, p);
                    }
                }
                r
            },
        }
    }
}

/// The license a version row records: the given expression when present,
/// the non-standard marker when only a license file was given.
pub open spec fn effective_license(lic: Option<Seq<char>>, has_file: bool) -> Option<Seq<char>> {
    match lic {
        Option::Some(l) => Option::Some(l),
        Option::None => if has_file {
            Option::Some("non-standard"@)
        } else {
            Option::None
        },
    }
}

/// A version row ready to insert, its license already validated.
#[derive(Debug)]
pub struct NewVersion {
    pub crate_id: u32,
    pub num: SemVer,
    pub num_text: String,
    pub features: Vec<(String, Vec<String>)>,
    pub license: Option<String>,
    pub crate_size: u32,
    pub published_by: u32,
}

/// The version row that inserting a `NewVersion` at `now` creates.
pub open spec fn new_version_view(nv: NewVersion, id: u32, now: DateTime) -> VersionV {
    VersionV {
        id,
        crate_id: nv.crate_id,
        num: sv_view(nv.num),
        num_text: nv.num_text@,
        features: feats_view(nv.features@),
        license: opt_view(nv.license),
        crate_size: nv.crate_size,
        published_by: nv.published_by,
        yanked: false,
        downloads: 0,
        created_at: now,
        updated_at: now,
    }
}

/// The author rows an insert adds, in order.
pub open spec fn author_rows(id: u32, authors: Seq<String>) -> Seq<(u32, Seq<char>)> {
    authors.map_values(|a: String| (id, a@))
}

impl NewVersion {
    /// Builds the row to insert, validating the license expression: every
    /// `/`-separated part must be accepted, and a version with only a
    /// license file is marked `non-standard`.
    pub fn new(
        crate_id: u32,
        num: SemVer,
        num_text: String,
        features: Vec<(String, Vec<String>)>,
        license: Option<String>,
        license_file: &Option<String>,
        crate_size: u32,
        published_by: u32,
    ) -> (r: Result<NewVersion, PublishError>)
        ensures
            (r is Ok) == (match opt_view(license) {
                Option::Some(l) => license_error_of(l) is None,
                Option::None => true,
            }),
            r matches Result::Ok(nv) ==> nv.crate_id == crate_id && nv.num == num && nv.num_text
                == num_text && nv.features == features && opt_view(nv.license)
                == effective_license(opt_view(license), license_file is Some) && nv.crate_size
                == crate_size && nv.published_by == published_by,
            r matches Result::Err(e) ==> (e matches PublishError::BadRequest(m) && opt_view(
                license,
            ) matches Option::Some(l) && license_error_of(l) matches Option::Some(err) && m@ == err
                + "; see http://opensource.org/licenses for options, and http://spdx.org/licenses/ for their identifiers"@),
    {
        let license = match license {
            Some(l) => {
                if let Err(e) = validate_license_expr_parts(l.as_str()) {
                    return Err(e);
                }
                Some(l)
            },
            None => {
                match license_file {
                    Some(_) => {
                        let mut out: Vec<char> = Vec::new();
                        push_str_chars(&mut out, "non-standard");
                        Some(chars_to_string(&out))
                    },
                    None => None,
                }
            },
        };
        Ok(NewVersion { crate_id, num, num_text, features, license, crate_size, published_by })
    }

    /// Inserts the version row, its author rows and — when a verified email
    /// is known — the publisher's email row, all only if no row for this
    /// (package, version-string) pair exists; a duplicate is refused as a
    /// conflict and changes nothing.
    pub fn save(
        &self,
        store: &mut MetadataStore,
        authors: &Vec<String>,
        published_by_email: &Option<String>,
        now: DateTime,
    ) -> (r: Result<u32, PublishError>)
        requires
            store_wf(old(store)@),
            old(store)@.next_version_id < 0xFFFF_FFFFu32,
            has_pkg_id(old(store)@, self.crate_id),
        ensures
            store_wf(final(store)@),
            (r is Err) == has_version(old(store)@, self.crate_id, self.num_text@),
            r matches Result::Err(e) ==> (e matches PublishError::Conflict(v) && v@
                == self.num_text@) && final(store)@ == old(store)@,
            r matches Result::Ok(id) ==> id == old(store)@.next_version_id && final(store)@ == (
            StoreV {
                versions: old(store)@.versions.push(new_version_view(*self, id, now)),
                version_authors: old(store)@.version_authors + author_rows(id, authors@),
                versions_published_by: match published_by_email {
                    Option::Some(e) => old(store)@.versions_published_by.push((id, e@)),
                    Option::None => old(store)@.versions_published_by,
                },
                next_version_id: (old(store)@.next_version_id + 1) as u32,
                ..old(store)@
            }),
    {
        let n = store.versions.len();
        let mut i: usize = 0;
        while i < n
            invariant
                n == store@.versions.len(),
                i <= n,
                store == old(store),
                store_wf(store@),
                forall|j: int|
                    0 <= j < i ==> !((#[trigger] store@.versions[j]).crate_id == self.crate_id
                        && store@.versions[j].num_text == self.num_text@),
            decreases n - i,
        {
            if store.versions[i].crate_id == self.crate_id && store.versions[i].num_text.eq(
                &self.num_text,
            ) {
                proof {
                    assert((#[trigger] store@.versions[i as int]).crate_id == self.crate_id);
                    assert(store@.versions[i as int].num_text == self.num_text@);
                    assert(has_version(store@, self.crate_id, self.num_text@));
                    assert(store@ == old(store)@);
                    assert(store_wf(store@));
                }
                return Err(PublishError::Conflict(self.num_text.clone()));
            }
            i = i + 1;
        }
        assert(!has_version(store@, self.crate_id, self.num_text@)) by {
            if has_version(store@, self.crate_id, self.num_text@) {
                let w = choose|k: int|
                    0 <= k < store@.versions.len() && (#[trigger] store@.versions[k]).crate_id
                        == self.crate_id && store@.versions[k].num_text == self.num_text@;
                assert(false);
            }
        }
        let id = store.next_version_id;
        let row = Version {
            id,
            crate_id: self.crate_id,
            num: self.num.clone(),
            num_text: self.num_text.clone(),
            features: crate::upload::clone_features(&self.features),
            license: clone_opt_string(&self.license),
            crate_size: self.crate_size,
            published_by: self.published_by,
            yanked: false,
            downloads: 0,
            created_at: now,
            updated_at: now,
        };
        proof {
            assert(feats_view(row.features@) =~= feats_view(self.features@));
            assert(row@ == new_version_view(*self, id, now));
        }
        store.versions.push(row);
        proof {
            assert(store@.versions =~= old(store)@.versions.push(new_version_view(*self, id, now)));
            assert(author_rows(id, authors@.subrange(0, 0)) =~= Seq::<(u32, Seq<char>)>::empty());
            assert(old(store)@.version_authors + author_rows(id, authors@.subrange(0, 0))
                =~= old(store)@.version_authors);
            assert(store@ == (StoreV {
                versions: old(store)@.versions.push(new_version_view(*self, id, now)),
                version_authors: old(store)@.version_authors + author_rows(
                    id,
                    authors@.subrange(0, 0),
                ),
                ..old(store)@
            }));
        }
        let m = authors.len();
        let mut j: usize = 0;
        while j < m
            invariant
                m == authors@.len(),
                j <= m,
                store@ == (StoreV {
                    versions: old(store)@.versions.push(new_version_view(*self, id, now)),
                    version_authors: old(store)@.version_authors + author_rows(
                        id,
                        authors@.subrange(0, j as int),
                    ),
                    ..old(store)@
                }),
                id == old(store)@.next_version_id,
            decreases m - j,
        {
            let ghost ap = store@.version_authors;
            let pair = (id, authors[j].clone());
            store.version_authors.push(pair);
            proof {
                assert(pairs_view(store.version_authors@) =~= ap.push((id, authors@[j as int]@)));
                assert(author_rows(id, authors@.subrange(0, (j + 1) as int)) =~= author_rows(
                    id,
                    authors@.subrange(0, j as int),
                ).push((id, authors@[j as int]@)));
                assert(store@.version_authors =~= old(store)@.version_authors + author_rows(
                    id,
                    authors@.subrange(0, (j + 1) as int),
                ));
                assert(store@ == (StoreV {
                    versions: old(store)@.versions.push(new_version_view(*self, id, now)),
                    version_authors: old(store)@.version_authors + author_rows(
                        id,
                        authors@.subrange(0, (j + 1) as int),
                    ),
                    ..old(store)@
                }));
            }
            j = j + 1;
        }
        proof {
            assert(authors@.subrange(0, m as int) =~= authors@);
            assert(store@.version_authors == old(store)@.version_authors + author_rows(
                id,
                authors@,
            ));
        }
        if let Some(e) = published_by_email {
            let ghost vp = store@.versions_published_by;
            let pair = (id, e.clone());
            store.versions_published_by.push(pair);
            proof {
                assert(store@.versions_published_by =~= vp.push((id, e@)));
            }
        }
        store.next_version_id = id + 1;
        proof {
            let s0 = old(store)@;
            let s1 = store@;
            assert(s1.versions =~= s0.versions.push(new_version_view(*self, id, now)));
            assert(s1 == (StoreV {
                versions: s0.versions.push(new_version_view(*self, id, now)),
                version_authors: s0.version_authors + author_rows(id, authors@),
                versions_published_by: match published_by_email {
                    Option::Some(e) => s0.versions_published_by.push((id, e@)),
                    Option::None => s0.versions_published_by,
                },
                next_version_id: (s0.next_version_id + 1) as u32,
                ..s0
            }));
            assert(store_wf(s1)) by {
                assert(forall|k: int|
                    0 <= k < s0.versions.len() ==> #[trigger] s1.versions[k] == s0.versions[k]);
                assert(s1.versions[s0.versions.len() as int].id == s0.next_version_id);
                assert(!has_version(s0, self.crate_id, self.num_text@));
                assert(s1.packages =~= s0.packages);
                assert(s1.packages == s0.packages);
                assert forall|k: int| 0 <= k < s1.versions.len() implies has_pkg_id(
                    s1,
                    (#[trigger] s1.versions[k]).crate_id,
                ) by {
                    if k < s0.versions.len() {
                        assert(s1.versions[k] == s0.versions[k]);
                        assert(has_pkg_id(s0, s0.versions[k].crate_id));
                        lemma_pkg_id_preserved(s0, s1, s0.versions[k].crate_id);
                    } else {
                        assert(s1.versions[k].crate_id == self.crate_id);
                        lemma_pkg_id_preserved(s0, s1, self.crate_id);
                    }
                }
                assert forall|a: int, b: int|
                    0 <= a < b < s1.versions.len() implies !(s1.versions[a].crate_id
                    == s1.versions[b].crate_id && s1.versions[a].num_text
                    == s1.versions[b].num_text) by {
                    if b == s0.versions.len() {
                        if s1.versions[a].crate_id == self.crate_id && s1.versions[a].num_text
                            == self.num_text@ {
                            assert(has_version(s0, self.crate_id, self.num_text@));
                        }
                    }
                }
            }
        }
        Ok(id)
    }
}

/// The name of the first dependency whose version requirement the parser
/// refuses, if any.
pub open spec fn first_bad_dep(deps: Seq<CrateDependency>) -> Option<Seq<char>>
    decreases deps.len(),
{
    if deps.len() == 0 {
        Option::None
    } else if !crate::versions::version_req_ok(deps[0].version_req@) {
        Option::Some(deps[0].name@)
    } else {
        first_bad_dep(deps.drop_first())
    }
}

/// When the first `i` dependencies are accepted, the first refused one lies
/// past them.
proof fn lemma_first_bad_dep_skip(deps: Seq<CrateDependency>, i: int)
    requires
        0 <= i <= deps.len(),
        forall|j: int|
            0 <= j < i ==> crate::versions::version_req_ok((#[trigger] deps[j]).version_req@),
    ensures
        first_bad_dep(deps) == first_bad_dep(deps.skip(i)),
    decreases i,
{
    if i > 0 {
        assert(crate::versions::version_req_ok(deps[0].version_req@));
        assert(forall|j: int|
            0 <= j < i - 1 ==> crate::versions::version_req_ok(
                (#[trigger] deps.drop_first()[j]).version_req@,
            ));
        lemma_first_bad_dep_skip(deps.drop_first(), i - 1);
        assert(deps.drop_first().skip(i - 1) =~= deps.skip(i));
    } else {
        assert(deps.skip(0) =~= deps);
    }
}

impl MetadataStore {
    /// Records the declared dependency edges of a version, in order. Every
    /// version requirement must parse; the first refused one is reported as
    /// `BadRequest` and nothing is recorded.
    pub fn add_dependencies(&mut self, version_id: u32, deps: &Vec<CrateDependency>) -> (r: Result<
        (),
        PublishError,
    >)
        ensures
            (r is Ok) == (first_bad_dep(deps@) is None),
            r matches Result::Err(e) ==> (e matches PublishError::BadRequest(m) && first_bad_dep(
                deps@,
            ) matches Option::Some(nm) && m@ == "invalid version requirement for dependency `"@
                + nm + "`"@) && final(self)@ == old(self)@,
            r is Ok ==> final(self)@ == (StoreV {
                dependencies: old(self)@.dependencies + deps@.map_values(
                    |d: CrateDependency| dep_view(version_id, d),
                ),
                ..old(self)@
            }),
    {
        let n = deps.len();
        let mut i: usize = 0;
        while i < n
            invariant
                n == deps@.len(),
                i <= n,
                self == old(self),
                forall|j: int|
                    0 <= j < i ==> crate::versions::version_req_ok(
                        (#[trigger] deps@[j]).version_req@,
                    ),
            decreases n - i,
        {
            if !crate::versions::version_req_valid(deps[i].version_req.as_str()) {
                proof {
                    lemma_first_bad_dep_skip(deps@, i as int);
                    assert(deps@.skip(i as int)[0] == deps@[i as int]);
                }
                let mut out: Vec<char> = Vec::new();
                push_str_chars(&mut out, "invalid version requirement for dependency `");
                push_str_chars(&mut out, deps[i].name.as_str());
                push_str_chars(&mut out, "`");
                return Err(PublishError::BadRequest(chars_to_string(&out)));
            }
            i = i + 1;
        }
        proof {
            lemma_first_bad_dep_skip(deps@, n as int);
            assert(deps@.skip(n as int) =~= Seq::<CrateDependency>::empty());
        }
        let mut j: usize = 0;
        while j < n
            invariant
                n == deps@.len(),
                j <= n,
                self@ == (StoreV {
                    dependencies: old(self)@.dependencies + deps@.subrange(0, j as int).map_values(
                        |d: CrateDependency| dep_view(version_id, d),
                    ),
                    ..old(self)@
                }),
            decreases n - j,
        {
            let ghost dp = self@.dependencies;
            let row = DependencyRow { version_id, dep: deps[j].clone() };
            proof {
                assert(row@.features =~= dep_view(version_id, deps@[j as int]).features);
                assert(row@ == dep_view(version_id, deps@[j as int]));
            }
            self.dependencies.push(row);
            proof {
                assert(self@.dependencies =~= dp.push(dep_view(version_id, deps@[j as int])));
                assert(deps@.subrange(0, (j + 1) as int).map_values(
                    |d: CrateDependency| dep_view(version_id, d),
                ) =~= deps@.subrange(0, j as int).map_values(
                    |d: CrateDependency| dep_view(version_id, d),
                ).push(dep_view(version_id, deps@[j as int])));
                assert(self@.dependencies =~= old(self)@.dependencies + deps@.subrange(
                    0,
                    (j + 1) as int,
                ).map_values(|d: CrateDependency| dep_view(version_id, d)));
            }
            j = j + 1;
        }
        proof {
            assert(deps@.subrange(0, n as int) =~= deps@);
        }
        Ok(())
    }

    /// The versions of this package that are not yanked, in row order, as
    /// version views.
    pub open spec fn live_versions(s: StoreV, crate_id: u32) -> Seq<SvV> {
        s.versions.filter(|v: VersionV| v.crate_id == crate_id && !v.yanked).map_values(
            |v: VersionV| v.num,
        )
    }

    /// The highest non-yanked version of a package in precedence order, or
    /// nothing when the package has none.
    pub fn max_version(&self, crate_id: u32) -> (r: Option<SemVer>)
        ensures
            (r is Some) == (Self::live_versions(self@, crate_id).len() != 0),
            r matches Option::Some(v) ==> sv_view(v) == crate::versions::svv_max(
                Self::live_versions(self@, crate_id),
            ),
    {
        let n = self.versions.len();
        let mut best: Option<usize> = None;
        let mut i: usize = 0;
        while i < n
            invariant
                n == self@.versions.len(),
                i <= n,
                best is None ==> Self::live_versions(
                    self@,
                    crate_id,
                ).len() == 0 || Self::live_versions(self@, crate_id) != Seq::<SvV>::empty()
                    && self@.versions.subrange(0, i as int).filter(
                    |v: VersionV| v.crate_id == crate_id && !v.yanked,
                ).len() == 0,
                best is None ==> self@.versions.subrange(0, i as int).filter(
                    |v: VersionV| v.crate_id == crate_id && !v.yanked,
                ).len() == 0,
                best matches Option::Some(b) ==> b < i && self@.versions[b as int].crate_id
                    == crate_id && !self@.versions[b as int].yanked && ({
                    let live = Self::live_versions(self@, crate_id);
                    let pref = self@.versions.subrange(0, i as int).filter(
                        |v: VersionV| v.crate_id == crate_id && !v.yanked,
                    ).map_values(|v: VersionV| v.num);
                    pref.len() != 0 && self@.versions[b as int].num == crate::versions::svv_max(
                        pref,
                    )
                }),
            decreases n - i,
        {
            proof {
                reveal(Seq::filter);
                let f = |v: VersionV| v.crate_id == crate_id && !v.yanked;
                let pref = self@.versions.subrange(0, i as int);
                let prefx = self@.versions.subrange(0, (i + 1) as int);
                assert(prefx.drop_last() =~= pref);
                assert(prefx.last() == self@.versions[i as int]);
                if f(self@.versions[i as int]) {
                    assert(prefx.filter(f) =~= pref.filter(f).push(self@.versions[i as int]));
                    assert(prefx.filter(f).map_values(|v: VersionV| v.num) =~= pref.filter(
                        f,
                    ).map_values(|v: VersionV| v.num).push(self@.versions[i as int].num));
                    if pref.filter(f).len() != 0 {
                        assert(prefx.filter(f).map_values(|v: VersionV| v.num).drop_last()
                            =~= pref.filter(f).map_values(|v: VersionV| v.num));
                    }
                } else {
                    assert(prefx.filter(f) =~= pref.filter(f));
                }
            }
            if self.versions[i].crate_id == crate_id && !self.versions[i].yanked {
                let take = match best {
                    None => true,
                    Some(b) => {
                        let less = self.versions[i].num.less(&self.versions[b].num);
                        proof {
                            crate::versions::lemma_sv_view_lt(
                                self.versions[i as int].num,
                                self.versions[b as int].num,
                            );
                        }
                        !less
                    },
                };
                if take {
                    best = Some(i);
                }
            }
            i = i + 1;
        }
        proof {
            assert(self@.versions.subrange(0, n as int) =~= self@.versions);
        }
        match best {
            None => None,
            Some(b) => {
                let v = self.versions[b].num.clone();
                proof {
                    crate::versions::lemma_sv_view_eq(v, self.versions[b as int].num);
                }
                Some(v)
            },
        }
    }
}

} // verus!
