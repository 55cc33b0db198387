//! The publish orchestrator.
//!
//! One publish runs strictly in sequence: decode and validate, check the
//! publisher, stage the whole relational unit of work on a copy of the
//! store, upload the archive (and the rendered readme) under rollback
//! guards, append the index-log entry, and only then install the staged
//! store and disarm the guards. Any earlier failure returns the first error
//! and leaves all three stores exactly as they were.

use vstd::prelude::*;

use crate::blob::{
    checksum_hex, crate_blob_key, crate_key, hex_of, readme_blob_key, readme_key, sha256_of,
    without_key, BlobStore, RollbackGuard,
};
use crate::datetime::{dt_lt, DateTime};
use crate::errors::PublishError;
use crate::index::{index_line, index_line_of, IndexLog};
use crate::json::features_view;
use crate::store::{
    author_rows, badge_view, canon, dep_view, effective_license, feats_view, first_bad_dep, has_pkg,
    has_version, license_error_of, new_pkg, new_version_view, opt_view, pkg_idx, store_wf, updated_pkg,
    MetadataStore, NewCrate, NewVersion, PackageV, StoreV, VersionV,
};
use crate::text::{chars_to_string, push_str_chars};
use crate::upload::{metadata_ok, missing_msg, validate_metadata, BadgeSpec, CrateUpload};
use crate::versions::{semver_parse, semver_parts_of, sv_view, svv_max, SemVer};
use crate::wire::{size_limit_error, size_limit_msg};
use crate::Replica;

verus! {

/// The registry-wide quota and mode settings a publish runs under.
#[derive(Debug)]
pub struct RegistryConfig {
    /// Global ceiling on a request's declared content length.
    pub max_upload_size: u64,
    /// Ceiling on the decompressed archive size; its derived bound also
    /// caps the upload.
    pub max_unpack_size: u64,
    /// Whether this instance accepts writes at all.
    pub replica: Replica,
}

/// The authenticated publisher: their id and their verified email address,
/// if they have one.
#[derive(Debug)]
pub struct AuthenticatedUser {
    pub id: u32,
    pub verified_email: Option<String>,
}

/// The non-fatal findings returned beside a successful publish.
#[derive(Debug)]
pub struct PublishWarnings {
    pub invalid_categories: Vec<String>,
    pub invalid_badges: Vec<String>,
    pub other: Vec<String>,
}

/// What a successful publish answers: the package, its highest live
/// version, and the collected warnings.
#[derive(Debug)]
pub struct GoodCrate {
    pub name: String,
    pub max_version: SemVer,
    pub warnings: PublishWarnings,
}

/// The smallest applicable upload bound: the package override when one is
/// set, and never more than the global upload and unpack ceilings.
pub open spec fn effective_quota(pkg_max: Option<u64>, global_upload: u64, global_unpack: u64) -> u64 {
    let base = if global_upload <= global_unpack {
        global_upload
    } else {
        global_unpack
    };
    match pkg_max {
        Option::Some(m) => if m <= base {
            m
        } else {
            base
        },
        Option::None => base,
    }
}

/// The effective size bounds of one publish.
#[derive(Debug)]
pub struct Maximums {
    pub max_upload_size: u64,
    pub max_unpack_size: u64,
}

impl Maximums {
    /// Combines the package override with the global ceilings.
    pub fn new(krate_max_upload: Option<u64>, global_upload: u64, global_unpack: u64) -> (r:
        Maximums)
        ensures
            r.max_upload_size == effective_quota(krate_max_upload, global_upload, global_unpack),
            r.max_unpack_size == global_unpack,
    {
        let base = if global_upload <= global_unpack {
            global_upload
        } else {
            global_unpack
        };
        let max_upload_size = match krate_max_upload {
            Some(m) => if m <= base {
                m
            } else {
                base
            },
            None => base,
        };
        Maximums { max_upload_size, max_unpack_size: global_unpack }
    }
}

/// The moment from which a verified email address is required to publish.
pub open spec fn email_cutoff() -> DateTime {
    DateTime { year: 2019, month: 3, day: 1, hour: 0, minute: 0, second: 0 }
}

/// The grace-period warning for a publisher without a verified email.
pub open spec fn email_warning_msg() -> Seq<char> {
    "You do not currently have a verified email address associated with your crates.io account. Starting 2019-02-28, a verified email will be required to publish crates. Visit https://crates.io/me to set and verify your email address."@
}

/// The rejection once the grace period is over.
pub open spec fn email_error_msg() -> Seq<char> {
    "A verified email address is required to publish crates to crates.io. Visit https://crates.io/me to set and verify your email address."@
}

/// Rejects a publisher without a verified email once the grace period is
/// over; before that, the lack is only warned about.
pub fn verified_email_check(
    other_warnings: &mut Vec<String>,
    verified_email_address: &Option<String>,
    now: &DateTime,
) -> (r: Result<(), PublishError>)
    ensures
        (r is Ok) == (verified_email_address is Some || dt_lt(*now, email_cutoff())),
        verified_email_address is Some ==> final(other_warnings)@ == old(other_warnings)@,
        verified_email_address is None && dt_lt(*now, email_cutoff()) ==> crate::json::views_of(
            final(other_warnings)@,
        ) == crate::json::views_of(old(other_warnings)@).push(email_warning_msg()),
        r is Err ==> final(other_warnings)@ == old(other_warnings)@ && (r->Err_0 matches
            PublishError::BadRequest(m) && m@ == email_error_msg()),
{
    match verified_email_address {
        Some(_) => Ok(()),
        None => {
            let cutoff = DateTime::new(2019, 3, 1, 0, 0, 0);
            if now.is_before(&cutoff) {
                let mut out: Vec<char> = Vec::new();
                push_str_chars(
                    &mut out,
                    "You do not currently have a verified email address associated with your crates.io account. Starting 2019-02-28, a verified email will be required to publish crates. Visit https://crates.io/me to set and verify your email address.",
                );
                other_warnings.push(chars_to_string(&out));
                Ok(())
            } else {
                let mut out: Vec<char> = Vec::new();
                push_str_chars(
                    &mut out,
                    "A verified email address is required to publish crates to crates.io. Visit https://crates.io/me to set and verify your email address.",
                );
                Err(PublishError::BadRequest(chars_to_string(&out)))
            }
        },
    }
}

/// The registry refuses writes.
pub open spec fn read_only(cfg: RegistryConfig) -> bool {
    cfg.replica == Replica::ReadOnlyMirror
}

/// The package row the requested name resolves to, when one exists.
pub open spec fn resolved_pkg(s: StoreV, name: Seq<char>) -> PackageV {
    s.packages[pkg_idx(s, name)]
}

/// The publisher has publish rights: the package is new, or they are an
/// owner.
pub open spec fn owner_ok(s: StoreV, name: Seq<char>, uid: u32) -> bool {
    !has_pkg(s, name) || resolved_pkg(s, name).owners.contains(uid)
}

/// The stored name and the requested name agree exactly — a publish may
/// not rename a package.
pub open spec fn name_ok(s: StoreV, name: Seq<char>) -> bool {
    !has_pkg(s, name) || resolved_pkg(s, name).name == name
}

/// The effective quota of this request.
pub open spec fn quota_of(s: StoreV, name: Seq<char>, cfg: RegistryConfig) -> u64 {
    effective_quota(
        if has_pkg(s, name) {
            resolved_pkg(s, name).max_upload_size
        } else {
            Option::None
        },
        cfg.max_upload_size,
        cfg.max_unpack_size,
    )
}

/// The uploaded license expression, if any, is accepted.
pub open spec fn license_ok(u: CrateUpload) -> bool {
    match opt_view(u.license) {
        Option::Some(l) => license_error_of(l) is None,
        Option::None => true,
    }
}

/// The id the publish records the version under: the resolved package's, or
/// the id a new package will get.
pub open spec fn target_pkg_id(s: StoreV, name: Seq<char>) -> u32 {
    if has_pkg(s, name) {
        resolved_pkg(s, name).id
    } else {
        s.next_package_id
    }
}

/// This (package, version-string) pair is already published.
pub open spec fn duplicate_of(s: StoreV, u: CrateUpload) -> bool {
    has_pkg(s, u.name@) && has_version(s, resolved_pkg(s, u.name@).id, u.vers@)
}

/// Every declared dependency carries a requirement the parser accepts.
pub open spec fn deps_ok(u: CrateUpload) -> bool {
    first_bad_dep(u.deps@) is None
}

/// The publisher may publish: every check before storage-side effects
/// passes, in the order the pipeline makes them.
pub open spec fn publish_admissible(
    s: StoreV,
    u: CrateUpload,
    user: AuthenticatedUser,
    now: DateTime,
    cfg: RegistryConfig,
    content_length: u64,
) -> bool {
    &&& semver_parts_of(u.vers@) is Some
    &&& metadata_ok(u)
    &&& (user.verified_email is Some || dt_lt(now, email_cutoff()))
    &&& !read_only(cfg)
    &&& owner_ok(s, u.name@, user.id)
    &&& name_ok(s, u.name@)
    &&& content_length <= quota_of(s, u.name@, cfg)
    &&& license_ok(u)
    &&& !duplicate_of(s, u)
    &&& deps_ok(u)
}

/// The keywords the upload carries, an absent list counting as empty.
pub open spec fn keywords_of(u: CrateUpload) -> Seq<String> {
    match u.keywords {
        Option::Some(ks) => ks@,
        Option::None => Seq::empty(),
    }
}

/// The category slugs the upload carries, an absent list counting as empty.
pub open spec fn categories_of(u: CrateUpload) -> Seq<String> {
    match u.categories {
        Option::Some(cs) => cs@,
        Option::None => Seq::empty(),
    }
}

/// The badges the upload carries, an absent map counting as empty.
pub open spec fn badges_of(u: CrateUpload) -> Seq<BadgeSpec> {
    match u.badges {
        Option::Some(bs) => bs@,
        Option::None => Seq::empty(),
    }
}

/// The package-row fields a publish carries.
pub open spec fn new_crate_of(u: CrateUpload) -> NewCrate {
    NewCrate {
        name: u.name,
        description: u.description,
        homepage: u.homepage,
        documentation: u.documentation,
        readme: u.readme,
        readme_file: u.readme_file,
        repository: u.repository,
        license: u.license,
        max_upload_size: Option::None,
    }
}

/// The unknown category slugs of an upload, in order: they are dropped and
/// warned about.
pub open spec fn invalid_categories_of(s: StoreV, u: CrateUpload) -> Seq<Seq<char>> {
    categories_of(u).map_values(|c: String| c@).filter(
        |c: Seq<char>| !s.known_categories.contains(c),
    )
}

/// The unknown badge kinds of an upload, in order: they are dropped and
/// warned about.
pub open spec fn invalid_badges_of(s: StoreV, u: CrateUpload) -> Seq<Seq<char>> {
    badges_of(u).filter(|b: BadgeSpec| !s.known_badge_kinds.contains(b.kind@)).map_values(
        |b: BadgeSpec| b.kind@,
    )
}

/// The relational state a successful publish installs: the package row
/// created or updated, the version row with its authors, email record,
/// dependency edges and association links, the readme-rendering record, and
/// both id counters advanced as used.
pub open spec fn publish_target(
    s0: StoreV,
    u: CrateUpload,
    user: AuthenticatedUser,
    crate_size: u32,
    now: DateTime,
) -> StoreV {
    let existed = has_pkg(s0, u.name@);
    let nc = new_crate_of(u);
    let pid = target_pkg_id(s0, u.name@);
    let vid = s0.next_version_id;
    let packages1 = if existed {
        s0.packages.update(pkg_idx(s0, u.name@), updated_pkg(resolved_pkg(s0, u.name@), nc))
    } else {
        s0.packages.push(new_pkg(nc, s0.next_package_id, user.id))
    };
    let vrow = VersionV {
        id: vid,
        crate_id: pid,
        num: semver_parts_of(u.vers@)->0,
        num_text: u.vers@,
        features: feats_view(u.features@),
        license: effective_license(opt_view(u.license), u.license_file is Some),
        crate_size,
        published_by: user.id,
        yanked: false,
        downloads: 0,
        created_at: now,
        updated_at: now,
    };
    StoreV {
        packages: packages1,
        versions: s0.versions.push(vrow),
        version_authors: s0.version_authors + author_rows(vid, u.authors@),
        versions_published_by: match user.verified_email {
            Option::Some(e) => s0.versions_published_by.push((vid, e@)),
            Option::None => s0.versions_published_by,
        },
        dependencies: s0.dependencies + u.deps@.map_values(
            |d: crate::upload::CrateDependency| dep_view(vid, d),
        ),
        keyword_links: s0.keyword_links.filter(|p: (u32, Seq<char>)| p.0 != pid) + keywords_of(
            u,
        ).map_values(|k: String| (pid, k@)),
        category_links: s0.category_links.filter(|p: (u32, Seq<char>)| p.0 != pid)
            + categories_of(u).map_values(|c: String| c@).filter(
            |c: Seq<char>| s0.known_categories.contains(c),
        ).map_values(|c: Seq<char>| (pid, c)),
        badges: s0.badges.filter(|b: crate::store::BadgeRowV| b.crate_id != pid) + badges_of(
            u,
        ).filter(|b: BadgeSpec| s0.known_badge_kinds.contains(b.kind@)).map_values(
            |b: BadgeSpec| badge_view(pid, b),
        ),
        readme_renderings: s0.readme_renderings.filter(|p: (u32, DateTime)| p.0 != vid).push(
            (vid, now),
        ),
        known_categories: s0.known_categories,
        known_badge_kinds: s0.known_badge_kinds,
        next_package_id: if existed {
            s0.next_package_id
        } else {
            (s0.next_package_id + 1) as u32
        },
        next_version_id: (vid + 1) as u32,
    }
}

/// The blob-store contents after a successful publish: the archive under
/// the version's key and, when a rendered readme was given, its bytes under
/// the readme key.
pub open spec fn uploaded_blobs(
    b0: Seq<(Seq<char>, Seq<u8>)>,
    name: Seq<char>,
    vers: Seq<char>,
    archive: Seq<u8>,
    readme: Option<Seq<char>>,
) -> Seq<(Seq<char>, Seq<u8>)> {
    let b1 = without_key(b0, crate_blob_key(name, vers)).push((crate_blob_key(name, vers), archive));
    match readme {
        Option::Some(h) => without_key(b1, readme_blob_key(name, vers)).push(
            (readme_blob_key(name, vers), vstd::utf8::encode_utf8(h)),
        ),
        Option::None => b1,
    }
}

/// The blob-store contents after the rollback guards fired: nothing remains
/// under the publish's keys, and every other blob is untouched.
pub open spec fn aborted_blobs(
    b0: Seq<(Seq<char>, Seq<u8>)>,
    name: Seq<char>,
    vers: Seq<char>,
    had_readme: bool,
) -> Seq<(Seq<char>, Seq<u8>)> {
    if had_readme {
        without_key(without_key(b0, crate_blob_key(name, vers)), readme_blob_key(name, vers))
    } else {
        without_key(b0, crate_blob_key(name, vers))
    }
}

/// The index line a publish appends for this upload and checksum.
pub open spec fn entry_line_of(u: CrateUpload, cksum: Seq<char>) -> Seq<char> {
    index_line_of(
        u.name@,
        u.vers@,
        cksum,
        features_view(u.features@),
        u.deps@,
        false,
        opt_view(u.links),
    )
}

/// Removing one key distributes over pushing a blob with another key.
proof fn lemma_without_key_push(b: Seq<(Seq<char>, Seq<u8>)>, k: Seq<char>, pair: (Seq<char>, Seq<u8>))
    ensures
        without_key(b.push(pair), k) == if pair.0 == k {
            without_key(b, k)
        } else {
            without_key(b, k).push(pair)
        },
{
    reveal(Seq::filter);
    assert(b.push(pair).drop_last() =~= b);
    assert(b.push(pair).last() == pair);
}

/// Removing a key twice removes it once.
proof fn lemma_without_key_idem(b: Seq<(Seq<char>, Seq<u8>)>, k: Seq<char>)
    ensures
        without_key(without_key(b, k), k) == without_key(b, k),
    decreases b.len(),
{
    reveal(Seq::filter);
    if b.len() > 0 {
        let c = b.drop_last();
        let x = b.last();
        lemma_without_key_idem(c, k);
        if x.0 != k {
            lemma_without_key_push(without_key(c, k), k, x);
            assert(without_key(b, k) =~= without_key(c, k).push(x));
        } else {
            assert(without_key(b, k) =~= without_key(c, k));
        }
    }
}

/// Removals of different keys can be done in either order.
proof fn lemma_without_key_comm(b: Seq<(Seq<char>, Seq<u8>)>, k1: Seq<char>, k2: Seq<char>)
    ensures
        without_key(without_key(b, k1), k2) == without_key(without_key(b, k2), k1),
    decreases b.len(),
{
    reveal(Seq::filter);
    if b.len() > 0 {
        let c = b.drop_last();
        let x = b.last();
        lemma_without_key_comm(c, k1, k2);
        if x.0 != k1 {
            lemma_without_key_push(without_key(c, k1), k2, x);
        }
        if x.0 != k2 {
            lemma_without_key_push(without_key(c, k2), k1, x);
        }
        assert(without_key(b, k1) =~= if x.0 != k1 {
            without_key(c, k1).push(x)
        } else {
            without_key(c, k1)
        });
        assert(without_key(b, k2) =~= if x.0 != k2 {
            without_key(c, k2).push(x)
        } else {
            without_key(c, k2)
        });
        assert(without_key(without_key(b, k1), k2) =~= without_key(without_key(b, k2), k1));
    }
}

/// A version's archive key and readme key always differ.
proof fn lemma_blob_keys_distinct(name: Seq<char>, vers: Seq<char>)
    ensures
        crate_blob_key(name, vers) != readme_blob_key(name, vers),
{
    reveal_strlit("crates/");
    reveal_strlit("readmes/");
    assert(crate_blob_key(name, vers)[0] == 'c');
    assert(readme_blob_key(name, vers)[0] == 'r');
}

fn version_invalid_error() -> (r: PublishError)
    ensures
        r matches PublishError::BadRequest(m) && m@
            == "invalid upload request: the version is not a valid semantic version"@,
{
    let mut out: Vec<char> = Vec::new();
    push_str_chars(&mut out, "invalid upload request: the version is not a valid semantic version");
    PublishError::BadRequest(chars_to_string(&out))
}

/// The fixed message of a write refused in read-only mode.
pub open spec fn read_only_msg() -> Seq<char> {
    "Crates.io is currently in read-only mode for maintenance. Please try again later."@
}

fn read_only_error() -> (r: PublishError)
    ensures
        r matches PublishError::Forbidden(m) && m@ == read_only_msg(),
{
    let mut out: Vec<char> = Vec::new();
    push_str_chars(
        &mut out,
        "Crates.io is currently in read-only mode for maintenance. Please try again later.",
    );
    PublishError::Forbidden(chars_to_string(&out))
}

/// The fixed message of a publish by someone without ownership rights.
pub open spec fn owner_msg() -> Seq<char> {
    "this crate exists but you don't seem to be an owner. If you believe this is a mistake, perhaps you need to accept an invitation to be an owner before publishing."@
}

fn owner_error() -> (r: PublishError)
    ensures
        r matches PublishError::Forbidden(m) && m@ == owner_msg(),
{
    let mut out: Vec<char> = Vec::new();
    push_str_chars(
        &mut out,
        "this crate exists but you don't seem to be an owner. If you believe this is a mistake, perhaps you need to accept an invitation to be an owner before publishing.",
    );
    PublishError::Forbidden(chars_to_string(&out))
}

/// The message of a rejected rename, naming the stored name.
pub open spec fn rename_msg(stored: Seq<char>) -> Seq<char> {
    "crate was previously named `"@ + stored + "`"@
}

fn rename_error(stored: &String) -> (r: PublishError)
    ensures
        r matches PublishError::BadRequest(m) && m@ == rename_msg(stored@),
{
    let mut out: Vec<char> = Vec::new();
    push_str_chars(&mut out, "crate was previously named `");
    push_str_chars(&mut out, stored.as_str());
    push_str_chars(&mut out, "`");
    PublishError::BadRequest(chars_to_string(&out))
}

fn server_error(detail: &str) -> (r: PublishError)
    ensures
        r matches PublishError::ServerError(m) && m@ == detail@,
{
    let mut out: Vec<char> = Vec::new();
    push_str_chars(&mut out, detail);
    PublishError::ServerError(chars_to_string(&out))
}

/// Runs one publish with the archive checksum already computed.
///
/// The checks run in a fixed order — version string, required metadata,
/// verified email, read-only mode, ownership, name identity, quota,
/// license, duplicate version, dependency requirements — and the first
/// failure is returned with all three stores untouched. Past the checks,
/// the relational work is staged on a copy, the blobs are uploaded under
/// rollback guards, and the index-log append decides: on success the staged
/// store is installed and the guards disarmed; on failure the guards fire
/// and nothing anywhere changes, except that the attempted uploads were
/// counted.
#[verifier::rlimit(100)]
pub fn publish_with_checksum(
    upload: &CrateUpload,
    archive: &Vec<u8>,
    cksum: &Option<String>,
    content_length: u64,
    user: &AuthenticatedUser,
    now: &DateTime,
    config: &RegistryConfig,
    rendered_readme: &Option<String>,
    store: &mut MetadataStore,
    blobs: &mut BlobStore,
    index: &mut IndexLog,
) -> (r: Result<GoodCrate, PublishError>)
    requires
        store_wf(old(store)@),
        old(store)@.next_package_id < 0xFFFF_FFFFu32,
        old(store)@.next_version_id < 0xFFFF_FFFFu32,
        old(blobs)@.put_count < 0xFFFF_FFFF_FFFF_FFFEu64,
        archive@.len() < 0x1_0000_0000,
    ensures
        store_wf(final(store)@),
        r is Err ==> final(store)@ == old(store)@ && final(index)@ == old(index)@,
        !(semver_parts_of(upload.vers@) is Some) ==> (r matches Result::Err(e) && e matches
            PublishError::BadRequest(m) && m@
            == "invalid upload request: the version is not a valid semantic version"@) && final(blobs)@ == old(blobs)@,
        semver_parts_of(upload.vers@) is Some && !metadata_ok(*upload) ==> (r matches Result::Err(
            e,
        ) && e matches PublishError::BadRequest(m) && m@ == missing_msg(*upload)) && final(blobs)@
            == old(blobs)@,
        semver_parts_of(upload.vers@) is Some && metadata_ok(*upload) && !(user.verified_email
            is Some || dt_lt(*now, email_cutoff())) ==> (r matches Result::Err(e) && e matches
            PublishError::BadRequest(m) && m@ == email_error_msg()) && final(blobs)@ == old(blobs)@,
        semver_parts_of(upload.vers@) is Some && metadata_ok(*upload) && (user.verified_email
            is Some || dt_lt(*now, email_cutoff())) && read_only(*config) ==> (r matches
            Result::Err(e) && e matches PublishError::Forbidden(m) && m@ == read_only_msg())
            && final(blobs)@ == old(blobs)@,
        semver_parts_of(upload.vers@) is Some && metadata_ok(*upload) && (user.verified_email
            is Some || dt_lt(*now, email_cutoff())) && !read_only(*config) && !owner_ok(
            old(store)@,
            upload.name@,
            user.id,
        ) ==> (r matches Result::Err(e) && e matches PublishError::Forbidden(m) && m@
            == owner_msg()) && final(blobs)@ == old(blobs)@,
        semver_parts_of(upload.vers@) is Some && metadata_ok(*upload) && (user.verified_email
            is Some || dt_lt(*now, email_cutoff())) && !read_only(*config) && owner_ok(
            old(store)@,
            upload.name@,
            user.id,
        ) && !name_ok(old(store)@, upload.name@) ==> (r matches Result::Err(e) && e matches
            PublishError::BadRequest(m) && m@ == rename_msg(
            resolved_pkg(old(store)@, upload.name@).name,
        )) && final(blobs)@ == old(blobs)@,
        semver_parts_of(upload.vers@) is Some && metadata_ok(*upload) && (user.verified_email
            is Some || dt_lt(*now, email_cutoff())) && !read_only(*config) && owner_ok(
            old(store)@,
            upload.name@,
            user.id,
        ) && name_ok(old(store)@, upload.name@) && content_length > quota_of(
            old(store)@,
            upload.name@,
            *config,
        ) ==> (r matches Result::Err(e) && e matches PublishError::BadRequest(m) && m@
            == size_limit_msg(quota_of(old(store)@, upload.name@, *config))) && final(blobs)@
            == old(blobs)@,
        semver_parts_of(upload.vers@) is Some && metadata_ok(*upload) && (user.verified_email
            is Some || dt_lt(*now, email_cutoff())) && !read_only(*config) && owner_ok(
            old(store)@,
            upload.name@,
            user.id,
        ) && name_ok(old(store)@, upload.name@) && content_length <= quota_of(
            old(store)@,
            upload.name@,
            *config,
        ) && !license_ok(*upload) ==> (r matches Result::Err(e) && e matches
            PublishError::BadRequest(m) && opt_view(upload.license) matches Option::Some(l)
            && license_error_of(l) matches Option::Some(le) && m@ == le
            + "; see http://opensource.org/licenses for options, and http://spdx.org/licenses/ for their identifiers"@)
            && final(blobs)@ == old(blobs)@,
        semver_parts_of(upload.vers@) is Some && metadata_ok(*upload) && (user.verified_email
            is Some || dt_lt(*now, email_cutoff())) && !read_only(*config) && owner_ok(
            old(store)@,
            upload.name@,
            user.id,
        ) && name_ok(old(store)@, upload.name@) && content_length <= quota_of(
            old(store)@,
            upload.name@,
            *config,
        ) && license_ok(*upload) && duplicate_of(old(store)@, *upload) ==> (r matches Result::Err(
            e,
        ) && e matches PublishError::Conflict(v) && v@ == upload.vers@) && final(blobs)@ == old(blobs)@,
        semver_parts_of(upload.vers@) is Some && metadata_ok(*upload) && (user.verified_email
            is Some || dt_lt(*now, email_cutoff())) && !read_only(*config) && owner_ok(
            old(store)@,
            upload.name@,
            user.id,
        ) && name_ok(old(store)@, upload.name@) && content_length <= quota_of(
            old(store)@,
            upload.name@,
            *config,
        ) && license_ok(*upload) && !duplicate_of(old(store)@, *upload) && !deps_ok(*upload) ==> (
        r matches Result::Err(e) && e matches PublishError::BadRequest(m) && first_bad_dep(
            upload.deps@,
        ) matches Option::Some(nm) && m@ == "invalid version requirement for dependency `"@ + nm
            + "`"@) && final(blobs)@ == old(blobs)@,
        publish_admissible(old(store)@, *upload, *user, *now, *config, content_length) && cksum
            is None ==> (r matches Result::Err(e) && e matches PublishError::ServerError(_))
            && final(blobs)@ == old(blobs)@,
        publish_admissible(old(store)@, *upload, *user, *now, *config, content_length) && cksum
            is Some && !old(blobs)@.available ==> (r matches Result::Err(e) && e matches
            PublishError::ServerError(_)) && final(blobs)@.blobs == old(blobs)@.blobs && final(blobs)@.put_count == old(blobs)@.put_count + 1 && final(blobs)@.available == old(blobs)@.available,
        publish_admissible(old(store)@, *upload, *user, *now, *config, content_length) && cksum
            is Some && old(blobs)@.available && !old(index)@.available ==> (r matches Result::Err(
            e,
        ) && e matches PublishError::ServerError(_)) && final(blobs)@.blobs == aborted_blobs(
            old(blobs)@.blobs,
            upload.name@,
            upload.vers@,
            rendered_readme is Some,
        ) && final(blobs)@.put_count == old(blobs)@.put_count + (
        if rendered_readme is Some {
            2int
        } else {
            1int
        }) && final(blobs)@.available == old(blobs)@.available,
        publish_admissible(old(store)@, *upload, *user, *now, *config, content_length) && cksum
            is Some && old(blobs)@.available && old(index)@.available ==> (r matches Result::Ok(g)
            && final(store)@ == publish_target(
            old(store)@,
            *upload,
            *user,
            archive@.len() as u32,
            *now,
        ) && final(blobs)@.blobs == uploaded_blobs(
            old(blobs)@.blobs,
            upload.name@,
            upload.vers@,
            archive@,
            opt_view(*rendered_readme),
        ) && final(blobs)@.put_count == old(blobs)@.put_count + (
        if rendered_readme is Some {
            2int
        } else {
            1int
        }) && final(blobs)@.available && final(index)@.entries == old(index)@.entries.push(
            (upload.name@, entry_line_of(*upload, cksum->0@)),
        ) && final(index)@.available && g.name@ == upload.name@ && sv_view(g.max_version)
            == svv_max(
            MetadataStore::live_versions(
                final(store)@,
                target_pkg_id(old(store)@, upload.name@),
            ),
        ) && crate::json::views_of(g.warnings.invalid_categories@) == invalid_categories_of(
            old(store)@,
            *upload,
        ) && crate::json::views_of(g.warnings.invalid_badges@) == invalid_badges_of(
            old(store)@,
            *upload,
        ) && crate::json::views_of(g.warnings.other@) == (
        if user.verified_email is None {
            seq![email_warning_msg()]
        } else {
            Seq::<Seq<char>>::empty()
        })),
{
    let ghost s0 = store@;
    let ghost b0 = blobs@;
    let ghost i0 = index@;

    // Decode-level checks: version string, then required metadata.
    let parsed = match semver_parse(upload.vers.as_str()) {
        Some(v) => v,
        None => {
            return Err(version_invalid_error());
        },
    };
    if let Err(e) = validate_metadata(upload) {
        return Err(e);
    }
    // The publisher: verified email (with its grace period), then
    // write-access of this instance.
    let mut other_warnings: Vec<String> = Vec::new();
    if let Err(e) = verified_email_check(&mut other_warnings, &user.verified_email, now) {
        return Err(e);
    }
    if let Replica::ReadOnlyMirror = config.replica {
        return Err(read_only_error());
    }
    // Stage the whole relational unit of work on a copy of the store.
    let mut staged = store.clone_store();
    let nc = NewCrate {
        name: upload.name.clone(),
        description: crate::upload::clone_opt_string(&upload.description),
        homepage: crate::upload::clone_opt_string(&upload.homepage),
        documentation: crate::upload::clone_opt_string(&upload.documentation),
        readme: crate::upload::clone_opt_string(&upload.readme),
        readme_file: crate::upload::clone_opt_string(&upload.readme_file),
        repository: crate::upload::clone_opt_string(&upload.repository),
        license: crate::upload::clone_opt_string(&upload.license),
        max_upload_size: None,
    };
    proof {
        assert(nc == new_crate_of(*upload));
    }
    let pidx = nc.create_or_update(&mut staged, user.id);
    let ghost s1 = staged@;
    if !owners_contain(&staged.packages[pidx].owners, user.id) {
        proof {
            if !has_pkg(s0, upload.name@) {
                assert(pidx == s0.packages.len());
                assert(s1.packages == s0.packages.push(new_pkg(nc, s0.next_package_id, user.id)));
                assert(s1.packages[pidx as int] == new_pkg(nc, s0.next_package_id, user.id));
                assert(s1.packages[pidx as int].owners == seq![user.id]);
                assert(s1.packages[pidx as int].owners[0] == user.id);
                assert(s1.packages[pidx as int].owners.contains(user.id));
            }
            assert(has_pkg(s0, upload.name@));
            assert(s1.packages[pidx as int].owners == resolved_pkg(s0, upload.name@).owners);
        }
        return Err(owner_error());
    }
    if !staged.packages[pidx].name.eq(&upload.name) {
        proof {
            if !has_pkg(s0, upload.name@) {
                assert(s1.packages[pidx as int].name == upload.name@);
            }
            assert(has_pkg(s0, upload.name@));
            assert(s1.packages[pidx as int].name == resolved_pkg(s0, upload.name@).name);
        }
        return Err(rename_error(&staged.packages[pidx].name));
    }
    proof {
        if has_pkg(s0, upload.name@) {
            assert(s1.packages[pidx as int].max_upload_size == resolved_pkg(
                s0,
                upload.name@,
            ).max_upload_size);
        } else {
            assert(s1.packages[pidx as int].max_upload_size is None);
        }
    }
    let maximums = Maximums::new(
        staged.packages[pidx].max_upload_size,
        config.max_upload_size,
        config.max_unpack_size,
    );
    proof {
        assert(maximums.max_upload_size == quota_of(s0, upload.name@, *config));
    }
    if content_length > maximums.max_upload_size {
        return Err(size_limit_error(maximums.max_upload_size));
    }
    let crate_size = archive.len() as u32;
    let pkg_id = staged.packages[pidx].id;
    proof {
        assert(pkg_id == target_pkg_id(s0, upload.name@));
    }
    let nv = match NewVersion::new(
        pkg_id,
        parsed,
        upload.vers.clone(),
        crate::upload::clone_features(&upload.features),
        crate::upload::clone_opt_string(&upload.license),
        &upload.license_file,
        crate_size,
        user.id,
    ) {
        Ok(nv) => nv,
        Err(e) => {
            return Err(e);
        },
    };
    proof {
        if !has_pkg(s0, upload.name@) {
            if has_version(s1, pkg_id, upload.vers@) {
                let w = choose|k: int|
                    0 <= k < s1.versions.len() && (#[trigger] s1.versions[k]).crate_id == pkg_id
                        && s1.versions[k].num_text == upload.vers@;
                assert(s1.versions[w] == s0.versions[w]);
                assert(crate::store::has_pkg_id(s0, s0.versions[w].crate_id));
                crate::store::lemma_pkg_id_bounded(s0, pkg_id);
                assert(false);
            }
        } else {
            assert(has_version(s1, pkg_id, upload.vers@) == has_version(
                s0,
                pkg_id,
                upload.vers@,
            )) by {
                assert(s1.versions == s0.versions);
            }
        }
        assert(has_version(s1, pkg_id, upload.vers@) == duplicate_of(s0, *upload));
        assert(crate::store::has_pkg_id(s1, pkg_id)) by {
            assert((#[trigger] s1.packages[pidx as int]).id == pkg_id);
        }
    }
    let version_id = match nv.save(&mut staged, &upload.authors, &user.verified_email, *now) {
        Ok(id) => id,
        Err(e) => {
            return Err(e);
        },
    };
    let ghost s2 = staged@;
    if let Err(e) = staged.add_dependencies(version_id, &upload.deps) {
        return Err(e);
    }
    let ghost s3 = staged@;
    let kws = match &upload.keywords {
        Some(ks) => crate::upload::clone_string_vec(ks),
        None => Vec::new(),
    };
    staged.update_keywords(pkg_id, &kws);
    let ghost s4 = staged@;
    let cats = match &upload.categories {
        Some(cs) => crate::upload::clone_string_vec(cs),
        None => Vec::new(),
    };
    let invalid_categories = staged.update_categories(pkg_id, &cats);
    let ghost s5 = staged@;
    let invalid_badges = staged.update_badges(pkg_id, &upload.badges);
    let ghost s6 = staged@;
    staged.record_readme_rendering(version_id, *now);
    let ghost s7 = staged@;
    proof {
        let tgt = publish_target(s0, *upload, *user, crate_size, *now);
        assert(s7.packages =~= tgt.packages) by {
            assert(new_version_view(nv, version_id, *now).crate_id == pkg_id);
        }
        assert(s7.versions =~= tgt.versions) by {
            assert(feats_view(nv.features@) =~= feats_view(upload.features@));
            assert(new_version_view(nv, version_id, *now) == publish_target(
                s0,
                *upload,
                *user,
                crate_size,
                *now,
            ).versions.last());
        }
        assert(s7.version_authors =~= tgt.version_authors);
        assert(s7.versions_published_by =~= tgt.versions_published_by);
        assert(s7.dependencies =~= tgt.dependencies);
        assert(s7.keyword_links =~= tgt.keyword_links) by {
            assert(kws@ =~= keywords_of(*upload));
        }
        assert(s7.category_links =~= tgt.category_links) by {
            assert(cats@ =~= categories_of(*upload));
        }
        assert(s7.badges =~= tgt.badges);
        assert(s7.readme_renderings =~= tgt.readme_renderings);
        assert(s7 == tgt);
    }
    let max_version = match staged.max_version(pkg_id) {
        Some(v) => v,
        None => {
            proof {
                let f = |v: VersionV| v.crate_id == pkg_id && !v.yanked;
                let i = s2.versions.len() - 1;
                assert(f(s7.versions[i]));
                s7.versions.lemma_filter_contains(f, i);
                assert(s7.versions.filter(f).len() != 0);
                assert(false);
            }
            return Err(server_error("the new version is missing from the staged store"));
        },
    };
    // Only now do the outside stores come in: checksum, blob uploads under
    // guards, then the index append that decides the publish.
    let cksum_str = match cksum {
        Some(c) => c,
        None => {
            return Err(server_error("no checksum could be computed for the archive"));
        },
    };
    let ckey = crate_key(upload.name.as_str(), upload.vers.as_str());
    if let Err(e) = blobs.put(&ckey, archive) {
        return Err(e);
    }
    let ghost b1 = blobs@;
    let mut crate_guard = RollbackGuard::new(ckey);
    let mut readme_guard: Option<RollbackGuard> = None;
    if let Some(html) = rendered_readme {
        let rkey = readme_key(upload.name.as_str(), upload.vers.as_str());
        let html_bytes = html.as_str().as_bytes_vec();
        match blobs.put(&rkey, &html_bytes) {
            Ok(_) => {
                readme_guard = Some(RollbackGuard::new(rkey));
            },
            Err(e) => {
                return Err(e);
            },
        }
    }
    let ghost b2 = blobs@;
    proof {
        assert(b2.blobs == uploaded_blobs(
            b0.blobs,
            upload.name@,
            upload.vers@,
            archive@,
            opt_view(*rendered_readme),
        ));
    }
    let line = index_line(
        upload.name.as_str(),
        upload.vers.as_str(),
        cksum_str.as_str(),
        &upload.features,
        &upload.deps,
        false,
        &upload.links,
    );
    match index.append(&upload.name, line) {
        Ok(_) => {},
        Err(_) => {
            crate_guard.fire(blobs);
            if let Some(g) = &readme_guard {
                g.fire(blobs);
            }
            proof {
                let ck = crate_blob_key(upload.name@, upload.vers@);
                let rk = readme_blob_key(upload.name@, upload.vers@);
                lemma_blob_keys_distinct(upload.name@, upload.vers@);
                let base = without_key(b0.blobs, ck);
                let b1v = base.push((ck, archive@));
                if rendered_readme is Some {
                    let h = opt_view(*rendered_readme)->0;
                    let enc = vstd::utf8::encode_utf8(h);
                    let x = without_key(b1v, rk);
                    let b2v = x.push((rk, enc));
                    assert(b2.blobs == b2v);
                    lemma_without_key_push(x, ck, (rk, enc));
                    assert(without_key(b2v, ck) == without_key(x, ck).push((rk, enc)));
                    lemma_without_key_push(without_key(x, ck), rk, (rk, enc));
                    assert(without_key(without_key(b2v, ck), rk) == without_key(
                        without_key(x, ck),
                        rk,
                    ));
                    let y = without_key(base, rk);
                    lemma_without_key_push(base, rk, (ck, archive@));
                    assert(x == y.push((ck, archive@)));
                    lemma_without_key_push(y, ck, (ck, archive@));
                    assert(without_key(x, ck) == without_key(y, ck));
                    lemma_without_key_comm(base, rk, ck);
                    lemma_without_key_idem(b0.blobs, ck);
                    assert(without_key(y, ck) == y);
                    lemma_without_key_idem(base, rk);
                    assert(without_key(without_key(b2v, ck), rk) == y);
                    assert(blobs@.blobs == aborted_blobs(
                        b0.blobs,
                        upload.name@,
                        upload.vers@,
                        true,
                    ));
                } else {
                    assert(b2.blobs == b1v);
                    lemma_without_key_push(base, ck, (ck, archive@));
                    lemma_without_key_idem(b0.blobs, ck);
                    assert(blobs@.blobs == aborted_blobs(
                        b0.blobs,
                        upload.name@,
                        upload.vers@,
                        false,
                    ));
                }
            }
            return Err(server_error("could not add the crate to the index log"));
        },
    }
    crate_guard.disarm();
    if let Some(g) = &mut readme_guard {
        g.disarm();
    }
    *store = staged;
    Ok(
        GoodCrate {
            name: upload.name.clone(),
            max_version,
            warnings: PublishWarnings { invalid_categories, invalid_badges, other: other_warnings },
        },
    )
}

/// True when the id list holds the user.
fn owners_contain(owners: &Vec<u32>, uid: u32) -> (r: bool)
    ensures
        r == owners@.contains(uid),
{
    let n = owners.len();
    let mut i: usize = 0;
    while i < n
        invariant
            n == owners@.len(),
            i <= n,
            forall|j: int| 0 <= j < i ==> owners@[j] != uid,
        decreases n - i,
    {
        if owners[i] == uid {
            assert(owners@[i as int] == uid);
            return true;
        }
        i = i + 1;
    }
    false
}

/// Runs one publish end to end, computing the archive's checksum itself.
///
/// The ordered checks and their errors are exactly those of
/// `publish_with_checksum`; past them the publish can additionally fail
/// with a server error when the digest backend gives no checksum, and a
/// success records the hex SHA-256 of the archive bytes in the index entry.
pub fn publish(
    upload: &CrateUpload,
    archive: &Vec<u8>,
    content_length: u64,
    user: &AuthenticatedUser,
    now: &DateTime,
    config: &RegistryConfig,
    rendered_readme: &Option<String>,
    store: &mut MetadataStore,
    blobs: &mut BlobStore,
    index: &mut IndexLog,
) -> (r: Result<GoodCrate, PublishError>)
    requires
        store_wf(old(store)@),
        old(store)@.next_package_id < 0xFFFF_FFFFu32,
        old(store)@.next_version_id < 0xFFFF_FFFFu32,
        old(blobs)@.put_count < 0xFFFF_FFFF_FFFF_FFFEu64,
        archive@.len() < 0x1_0000_0000,
    ensures
        store_wf(final(store)@),
        r is Err ==> final(store)@ == old(store)@ && final(index)@ == old(index)@ && (final(blobs)@.blobs == old(blobs)@.blobs || final(blobs)@.blobs == aborted_blobs(
            old(blobs)@.blobs,
            upload.name@,
            upload.vers@,
            rendered_readme is Some,
        )),
        !(semver_parts_of(upload.vers@) is Some) ==> (r matches Result::Err(e) && e matches
            PublishError::BadRequest(m) && m@
            == "invalid upload request: the version is not a valid semantic version"@) && final(blobs)@ == old(blobs)@,
        semver_parts_of(upload.vers@) is Some && !metadata_ok(*upload) ==> (r matches Result::Err(
            e,
        ) && e matches PublishError::BadRequest(m) && m@ == missing_msg(*upload)) && final(blobs)@
            == old(blobs)@,
        semver_parts_of(upload.vers@) is Some && metadata_ok(*upload) && !(user.verified_email
            is Some || dt_lt(*now, email_cutoff())) ==> (r matches Result::Err(e) && e matches
            PublishError::BadRequest(m) && m@ == email_error_msg()) && final(blobs)@ == old(blobs)@,
        semver_parts_of(upload.vers@) is Some && metadata_ok(*upload) && (user.verified_email
            is Some || dt_lt(*now, email_cutoff())) && read_only(*config) ==> (r matches
            Result::Err(e) && e matches PublishError::Forbidden(m) && m@ == read_only_msg())
            && final(blobs)@ == old(blobs)@,
        semver_parts_of(upload.vers@) is Some && metadata_ok(*upload) && (user.verified_email
            is Some || dt_lt(*now, email_cutoff())) && !read_only(*config) && !owner_ok(
            old(store)@,
            upload.name@,
            user.id,
        ) ==> (r matches Result::Err(e) && e matches PublishError::Forbidden(m) && m@
            == owner_msg()) && final(blobs)@ == old(blobs)@,
        semver_parts_of(upload.vers@) is Some && metadata_ok(*upload) && (user.verified_email
            is Some || dt_lt(*now, email_cutoff())) && !read_only(*config) && owner_ok(
            old(store)@,
            upload.name@,
            user.id,
        ) && !name_ok(old(store)@, upload.name@) ==> (r matches Result::Err(e) && e matches
            PublishError::BadRequest(m) && m@ == rename_msg(
            resolved_pkg(old(store)@, upload.name@).name,
        )) && final(blobs)@ == old(blobs)@,
        semver_parts_of(upload.vers@) is Some && metadata_ok(*upload) && (user.verified_email
            is Some || dt_lt(*now, email_cutoff())) && !read_only(*config) && owner_ok(
            old(store)@,
            upload.name@,
            user.id,
        ) && name_ok(old(store)@, upload.name@) && content_length > quota_of(
            old(store)@,
            upload.name@,
            *config,
        ) ==> (r matches Result::Err(e) && e matches PublishError::BadRequest(m) && m@
            == size_limit_msg(quota_of(old(store)@, upload.name@, *config))) && final(blobs)@
            == old(blobs)@,
        semver_parts_of(upload.vers@) is Some && metadata_ok(*upload) && (user.verified_email
            is Some || dt_lt(*now, email_cutoff())) && !read_only(*config) && owner_ok(
            old(store)@,
            upload.name@,
            user.id,
        ) && name_ok(old(store)@, upload.name@) && content_length <= quota_of(
            old(store)@,
            upload.name@,
            *config,
        ) && !license_ok(*upload) ==> (r matches Result::Err(e) && e matches
            PublishError::BadRequest(m) && opt_view(upload.license) matches Option::Some(l)
            && license_error_of(l) matches Option::Some(le) && m@ == le
            + "; see http://opensource.org/licenses for options, and http://spdx.org/licenses/ for their identifiers"@)
            && final(blobs)@ == old(blobs)@,
        semver_parts_of(upload.vers@) is Some && metadata_ok(*upload) && (user.verified_email
            is Some || dt_lt(*now, email_cutoff())) && !read_only(*config) && owner_ok(
            old(store)@,
            upload.name@,
            user.id,
        ) && name_ok(old(store)@, upload.name@) && content_length <= quota_of(
            old(store)@,
            upload.name@,
            *config,
        ) && license_ok(*upload) && duplicate_of(old(store)@, *upload) ==> (r matches Result::Err(
            e,
        ) && e matches PublishError::Conflict(v) && v@ == upload.vers@) && final(blobs)@ == old(blobs)@,
        semver_parts_of(upload.vers@) is Some && metadata_ok(*upload) && (user.verified_email
            is Some || dt_lt(*now, email_cutoff())) && !read_only(*config) && owner_ok(
            old(store)@,
            upload.name@,
            user.id,
        ) && name_ok(old(store)@, upload.name@) && content_length <= quota_of(
            old(store)@,
            upload.name@,
            *config,
        ) && license_ok(*upload) && !duplicate_of(old(store)@, *upload) && !deps_ok(*upload) ==> (
        r matches Result::Err(e) && e matches PublishError::BadRequest(m) && first_bad_dep(
            upload.deps@,
        ) matches Option::Some(nm) && m@ == "invalid version requirement for dependency `"@ + nm
            + "`"@) && final(blobs)@ == old(blobs)@,
        publish_admissible(old(store)@, *upload, *user, *now, *config, content_length) ==> (r
            is Ok || (r matches Result::Err(e) && e matches PublishError::ServerError(_))),
        r matches Result::Ok(g) ==> publish_admissible(
            old(store)@,
            *upload,
            *user,
            *now,
            *config,
            content_length,
        ) && old(blobs)@.available && old(index)@.available && final(store)@ == publish_target(
            old(store)@,
            *upload,
            *user,
            archive@.len() as u32,
            *now,
        ) && final(blobs)@.blobs == uploaded_blobs(
            old(blobs)@.blobs,
            upload.name@,
            upload.vers@,
            archive@,
            opt_view(*rendered_readme),
        ) && final(index)@.entries == old(index)@.entries.push(
            (upload.name@, entry_line_of(*upload, hex_of(sha256_of(archive@)))),
        ) && g.name@ == upload.name@ && sv_view(g.max_version) == svv_max(
            MetadataStore::live_versions(
                final(store)@,
                target_pkg_id(old(store)@, upload.name@),
            ),
        ) && crate::json::views_of(g.warnings.invalid_categories@) == invalid_categories_of(
            old(store)@,
            *upload,
        ) && crate::json::views_of(g.warnings.invalid_badges@) == invalid_badges_of(
            old(store)@,
            *upload,
        ) && crate::json::views_of(g.warnings.other@) == (
        if user.verified_email is None {
            seq![email_warning_msg()]
        } else {
            Seq::<Seq<char>>::empty()
        }),
{
    let cksum = checksum_hex(archive.as_slice());
    publish_with_checksum(
        upload,
        archive,
        &cksum,
        content_length,
        user,
        now,
        config,
        rendered_readme,
        store,
        blobs,
        index,
    )
}

/// The body of a successful publish response: the package summary beside
/// the collected warnings.
pub open spec fn good_crate_body_of(
    name: Seq<char>,
    max_version: Seq<char>,
    invalid_categories: Seq<Seq<char>>,
    invalid_badges: Seq<Seq<char>>,
    other: Seq<Seq<char>>,
) -> Seq<char> {
    "{\"crate\":{\"name\":"@ + crate::json::json_str_of(name) + ",\"max_version\":"@
        + crate::json::json_str_of(max_version) + "},\"warnings\":{\"invalid_categories\":"@
        + crate::json::json_str_array_of(invalid_categories) + ",\"invalid_badges\":"@
        + crate::json::json_str_array_of(invalid_badges) + ",\"other\":"@
        + crate::json::json_str_array_of(other) + "}}"@
}

impl GoodCrate {
    /// The success response: status 200 and the JSON body that names the
    /// package, its highest version, and every warning.
    pub fn response(&self) -> (r: crate::errors::Response)
        ensures
            r.status == 200,
            r.headers@.len() == 0,
            r.body@ == good_crate_body_of(
                self.name@,
                crate::versions::sv_text_of(sv_view(self.max_version)),
                crate::json::views_of(self.warnings.invalid_categories@),
                crate::json::views_of(self.warnings.invalid_badges@),
                crate::json::views_of(self.warnings.other@),
            ),
    {
        let mut out: Vec<char> = Vec::new();
        push_str_chars(&mut out, "{\"crate\":{\"name\":");
        crate::json::push_json_str(&mut out, self.name.as_str());
        push_str_chars(&mut out, ",\"max_version\":");
        let mv = self.max_version.to_text();
        crate::json::push_json_str(&mut out, mv.as_str());
        push_str_chars(&mut out, "},\"warnings\":{\"invalid_categories\":");
        crate::json::push_json_str_array(&mut out, &self.warnings.invalid_categories);
        push_str_chars(&mut out, ",\"invalid_badges\":");
        crate::json::push_json_str_array(&mut out, &self.warnings.invalid_badges);
        push_str_chars(&mut out, ",\"other\":");
        crate::json::push_json_str_array(&mut out, &self.warnings.other);
        push_str_chars(&mut out, "}}");
        assert(out@ =~= good_crate_body_of(
            self.name@,
            crate::versions::sv_text_of(sv_view(self.max_version)),
            crate::json::views_of(self.warnings.invalid_categories@),
            crate::json::views_of(self.warnings.invalid_badges@),
            crate::json::views_of(self.warnings.other@),
        ));
        crate::errors::Response {
            status: 200,
            headers: Vec::new(),
            body: chars_to_string(&out),
        }
    }
}

/// The state a successful publish installs is itself well formed: ids stay
/// unique and bounded, names stay unique up to canonical form, every
/// version row keeps a package, and no (package, version-string) pair is
/// repeated.
pub proof fn lemma_publish_target_wf(
    s0: StoreV,
    u: CrateUpload,
    user: AuthenticatedUser,
    crate_size: u32,
    now: DateTime,
)
    requires
        store_wf(s0),
        s0.next_package_id < 0xFFFF_FFFFu32,
        s0.next_version_id < 0xFFFF_FFFFu32,
        !duplicate_of(s0, u),
    ensures
        store_wf(publish_target(s0, u, user, crate_size, now)),
{
    let s1 = publish_target(s0, u, user, crate_size, now);
    let pid = target_pkg_id(s0, u.name@);
    let nc = new_crate_of(u);
    // The package stage: the same rows with one rewritten, or one appended.
    let sp = StoreV {
        packages: s1.packages,
        next_package_id: s1.next_package_id,
        ..s0
    };
    if has_pkg(s0, u.name@) {
        let i = pkg_idx(s0, u.name@);
        assert(sp.packages.len() == s0.packages.len());
        assert forall|k: int| 0 <= k < sp.packages.len() implies (#[trigger] sp.packages[k]).id
            == s0.packages[k].id && crate::store::canon(sp.packages[k].name)
            == crate::store::canon(s0.packages[k].name) by {
            if k == i {
                assert(sp.packages[k] == updated_pkg(s0.packages[k], nc));
            }
        }
        crate::store::lemma_wf_packages_rewritten(s0, sp);
    } else {
        let p = new_pkg(nc, s0.next_package_id, user.id);
        assert(forall|k: int|
            0 <= k < s0.packages.len() ==> crate::store::canon(
                (#[trigger] s0.packages[k]).name,
            ) != crate::store::canon(p.name));
        assert(sp.packages == s0.packages.push(p));
        crate::store::lemma_wf_package_pushed(s0, sp, p);
    }
    // The version stage: one fresh row for a pair the store does not hold.
    assert(!crate::store::has_version(s0, pid, u.vers@)) by {
        if has_pkg(s0, u.name@) {
        } else {
            if crate::store::has_version(s0, pid, u.vers@) {
                let w = choose|k: int|
                    0 <= k < s0.versions.len() && (#[trigger] s0.versions[k]).crate_id == pid
                        && s0.versions[k].num_text == u.vers@;
                assert(crate::store::has_pkg_id(s0, s0.versions[w].crate_id));
                crate::store::lemma_pkg_id_bounded(s0, pid);
            }
        }
    }
    assert(crate::store::has_pkg_id(sp, pid)) by {
        if has_pkg(s0, u.name@) {
            let i = pkg_idx(s0, u.name@);
            assert((#[trigger] sp.packages[i]).id == pid);
        } else {
            assert((#[trigger] sp.packages[s0.packages.len() as int]).id == pid);
        }
    }
    assert(store_wf(s1)) by {
        let n = s0.versions.len() as int;
        assert(s1.packages == sp.packages);
        assert(forall|k: int| 0 <= k < n ==> #[trigger] s1.versions[k] == s0.versions[k]);
        assert(s1.versions[n].id == s0.next_version_id);
        assert(s1.versions[n].crate_id == pid);
        assert(s1.versions[n].num_text == u.vers@);
        assert forall|a: int, b: int|
            0 <= a < b < s1.versions.len() implies s1.versions[a].id != s1.versions[b].id by {
            if b < n {
            } else {
                assert(s0.versions[a].id < s0.next_version_id);
            }
        }
        assert forall|k: int| 0 <= k < s1.versions.len() implies (#[trigger] s1.versions[k]).id
            < s1.next_version_id by {
            if k < n {
                assert(s1.versions[k] == s0.versions[k]);
            }
        }
        assert forall|a: int, b: int|
            0 <= a < b < s1.versions.len() implies !(s1.versions[a].crate_id
            == s1.versions[b].crate_id && s1.versions[a].num_text
            == s1.versions[b].num_text) by {
            if b == n {
                if s1.versions[a].crate_id == pid && s1.versions[a].num_text == u.vers@ {
                    assert((#[trigger] s0.versions[a]).crate_id == pid && s0.versions[a].num_text
                        == u.vers@);
                    assert(crate::store::has_version(s0, pid, u.vers@));
                }
            }
        }
        assert forall|k: int| 0 <= k < s1.versions.len() implies crate::store::has_pkg_id(
            s1,
            (#[trigger] s1.versions[k]).crate_id,
        ) by {
            if k < n {
                assert(s1.versions[k] == s0.versions[k]);
                assert(crate::store::has_pkg_id(s0, s0.versions[k].crate_id));
                crate::store::lemma_pkg_id_preserved(s0, s1, s0.versions[k].crate_id);
            } else {
                crate::store::lemma_pkg_id_preserved(sp, s1, pid);
            }
        }
    }
}

/// Law: after a successful publish of a (package, version) pair — one with
/// no row for the pair beforehand — the pair is present in the now
/// well-formed store, held by exactly one row, so a second publish of the
/// identical pair is a duplicate: it meets the pipeline's conflict clause,
/// is refused, and changes nothing.
pub proof fn lemma_publish_unique_under_race(
    s0: StoreV,
    s1: StoreV,
    u: CrateUpload,
    user: AuthenticatedUser,
    crate_size: u32,
    now: DateTime,
)
    requires
        store_wf(s0),
        s0.next_package_id < 0xFFFF_FFFFu32,
        s0.next_version_id < 0xFFFF_FFFFu32,
        !duplicate_of(s0, u),
        s1 == publish_target(s0, u, user, crate_size, now),
    ensures
        store_wf(s1),
        has_pkg(s1, u.name@),
        resolved_pkg(s1, u.name@).id == target_pkg_id(s0, u.name@),
        has_version(s1, target_pkg_id(s0, u.name@), u.vers@),
        duplicate_of(s1, u),
{
    lemma_publish_target_wf(s0, u, user, crate_size, now);
    let pid = target_pkg_id(s0, u.name@);
    let vrow_i = s0.versions.len() as int;
    assert(s1.versions[vrow_i].crate_id == pid);
    assert(s1.versions[vrow_i].num_text == u.vers@);
    assert((#[trigger] s1.versions[vrow_i]).crate_id == pid && s1.versions[vrow_i].num_text
        == u.vers@);
    assert(has_version(s1, pid, u.vers@));
    let pkg_i: int = if has_pkg(s0, u.name@) {
        pkg_idx(s0, u.name@)
    } else {
        s0.packages.len() as int
    };
    assert(canon(s1.packages[pkg_i].name) == canon(u.name@)) by {
        if has_pkg(s0, u.name@) {
            assert(s1.packages[pkg_i] == updated_pkg(resolved_pkg(s0, u.name@), new_crate_of(u)));
            assert(s1.packages[pkg_i].name == resolved_pkg(s0, u.name@).name);
        } else {
            assert(s1.packages[pkg_i].name == u.name@);
        }
    }
    assert(has_pkg(s1, u.name@));
    assert(s1.packages[pkg_i].id == pid) by {
        if has_pkg(s0, u.name@) {
            assert(s1.packages[pkg_i].id == resolved_pkg(s0, u.name@).id);
        } else {
        }
    }
    let k = pkg_idx(s1, u.name@);
    assert(0 <= k < s1.packages.len() && canon(s1.packages[k].name) == canon(u.name@));
    assert(k == pkg_i) by {
        if k != pkg_i {
            assert(canon(s1.packages[k].name) == canon(s1.packages[pkg_i].name));
        }
    }
    assert(resolved_pkg(s1, u.name@).id == pid);
    assert(duplicate_of(s1, u));
}

/// Law: a bad category slug never aborts a publish — it is only dropped
/// and warned about. For every slug the upload carries: a known slug ends
/// linked to the package in the installed state, and a slug is reported in
/// the warnings exactly when it is unknown.
pub proof fn lemma_category_warning_policy(
    s0: StoreV,
    u: CrateUpload,
    user: AuthenticatedUser,
    crate_size: u32,
    now: DateTime,
    c: Seq<char>,
)
    requires
        categories_of(u).map_values(|x: String| x@).contains(c),
    ensures
        s0.known_categories.contains(c) ==> publish_target(
            s0,
            u,
            user,
            crate_size,
            now,
        ).category_links.contains((target_pkg_id(s0, u.name@), c)),
        invalid_categories_of(s0, u).contains(c) <==> !s0.known_categories.contains(c),
{
    broadcast use vstd::seq_lib::group_filter_ensures;

    let cats = categories_of(u).map_values(|x: String| x@);
    let pid = target_pkg_id(s0, u.name@);
    let i = choose|i: int| 0 <= i < cats.len() && cats[i] == c;
    if s0.known_categories.contains(c) {
        let keepf = |x: Seq<char>| s0.known_categories.contains(x);
        assert(keepf(cats[i]));
        assert(cats.filter(keepf).contains(c));
        let j = choose|j: int| 0 <= j < cats.filter(keepf).len() && cats.filter(keepf)[j] == c;
        let linked = cats.filter(keepf).map_values(|x: Seq<char>| (pid, x));
        assert(linked[j] == (pid, c));
        assert(linked.contains((pid, c)));
        let s1 = publish_target(s0, u, user, crate_size, now);
        let others = s0.category_links.filter(|p: (u32, Seq<char>)| p.0 != pid);
        assert(s1.category_links[others.len() + j] == (pid, c));
        assert(s1.category_links.contains((pid, c)));
    }
    let dropf = |x: Seq<char>| !s0.known_categories.contains(x);
    if !s0.known_categories.contains(c) {
        assert(dropf(cats[i]));
        assert(cats.filter(dropf).contains(c));
    }
    if invalid_categories_of(s0, u).contains(c) {
        let k = choose|k: int|
            0 <= k < cats.filter(dropf).len() && cats.filter(dropf)[k] == c;
        assert(dropf(cats.filter(dropf)[k]));
    }
}

/// Law: a bad badge spec never aborts a publish — it is only dropped and
/// warned about. For every badge the upload carries: one of a known kind
/// ends linked to the package in the installed state, and a kind is
/// reported in the warnings exactly when the upload carries a badge of an
/// unknown kind with it.
pub proof fn lemma_badge_warning_policy(
    s0: StoreV,
    u: CrateUpload,
    user: AuthenticatedUser,
    crate_size: u32,
    now: DateTime,
    b: BadgeSpec,
)
    requires
        badges_of(u).contains(b),
    ensures
        s0.known_badge_kinds.contains(b.kind@) ==> publish_target(
            s0,
            u,
            user,
            crate_size,
            now,
        ).badges.contains(badge_view(target_pkg_id(s0, u.name@), b)),
        !s0.known_badge_kinds.contains(b.kind@) ==> invalid_badges_of(s0, u).contains(b.kind@),
        invalid_badges_of(s0, u).contains(b.kind@) ==> exists|x: BadgeSpec|
            badges_of(u).contains(x) && x.kind@ == b.kind@ && !s0.known_badge_kinds.contains(
                b.kind@,
            ),
{
    broadcast use vstd::seq_lib::group_filter_ensures;

    let given = badges_of(u);
    let pid = target_pkg_id(s0, u.name@);
    let i = choose|i: int| 0 <= i < given.len() && given[i] == b;
    if s0.known_badge_kinds.contains(b.kind@) {
        let keepf = |x: BadgeSpec| s0.known_badge_kinds.contains(x.kind@);
        assert(keepf(given[i]));
        assert(given.filter(keepf).contains(b));
        let j = choose|j: int|
            0 <= j < given.filter(keepf).len() && given.filter(keepf)[j] == b;
        let linked = given.filter(keepf).map_values(|x: BadgeSpec| badge_view(pid, x));
        assert(linked[j] == badge_view(pid, b));
        let s1 = publish_target(s0, u, user, crate_size, now);
        let others = s0.badges.filter(|x: crate::store::BadgeRowV| x.crate_id != pid);
        assert(s1.badges[others.len() + j] == badge_view(pid, b));
        assert(s1.badges.contains(badge_view(pid, b)));
    } else {
        let dropf = |x: BadgeSpec| !s0.known_badge_kinds.contains(x.kind@);
        assert(dropf(given[i]));
        assert(given.filter(dropf).contains(b));
        let j = choose|j: int|
            0 <= j < given.filter(dropf).len() && given.filter(dropf)[j] == b;
        let warned = given.filter(dropf).map_values(|x: BadgeSpec| x.kind@);
        assert(warned[j] == b.kind@);
        assert(warned.contains(b.kind@));
    }
    if invalid_badges_of(s0, u).contains(b.kind@) {
        let dropf = |x: BadgeSpec| !s0.known_badge_kinds.contains(x.kind@);
        let warned = given.filter(dropf).map_values(|x: BadgeSpec| x.kind@);
        let k = choose|k: int| 0 <= k < warned.len() && warned[k] == b.kind@;
        let w = given.filter(dropf)[k];
        assert(dropf(w));
        assert(given.filter(dropf).contains(w));
        assert(given.contains(w)) by {
            given.lemma_filter_contains_rev(dropf, w);
        }
        assert(w.kind@ == b.kind@);
    }
}

/// Law: a publish never renames a package, and never creates a second
/// package under a name that matches an existing one case insensitively:
/// with a stored name differing from the requested one the publish is
/// inadmissible, and with an agreeing name it resolves to the existing row
/// and creates none.
pub proof fn lemma_name_identity(
    s0: StoreV,
    u: CrateUpload,
    user: AuthenticatedUser,
    crate_size: u32,
    now: DateTime,
    cfg: RegistryConfig,
    content_length: u64,
)
    requires
        store_wf(s0),
        has_pkg(s0, u.name@),
    ensures
        resolved_pkg(s0, u.name@).name != u.name@ ==> !publish_admissible(
            s0,
            u,
            user,
            now,
            cfg,
            content_length,
        ),
        target_pkg_id(s0, u.name@) == resolved_pkg(s0, u.name@).id,
        publish_target(s0, u, user, crate_size, now).packages.len() == s0.packages.len(),
{
}

/// Law: the checksum a publish records is the hex SHA-256 of exactly the
/// blob bytes it stores, so recomputing the checksum over the stored
/// archive yields the recorded value byte for byte.
pub proof fn lemma_checksum_round_trip(
    b0: Seq<(Seq<char>, Seq<u8>)>,
    name: Seq<char>,
    vers: Seq<char>,
    archive: Seq<u8>,
    readme: Option<Seq<char>>,
)
    ensures
        exists|i: int|
            0 <= i < uploaded_blobs(b0, name, vers, archive, readme).len() && (
            #[trigger] uploaded_blobs(b0, name, vers, archive, readme)[i]).0 == crate_blob_key(
                name,
                vers,
            ) && uploaded_blobs(b0, name, vers, archive, readme)[i].1 == archive && hex_of(
                sha256_of(uploaded_blobs(b0, name, vers, archive, readme)[i].1),
            ) == hex_of(sha256_of(archive)),
{
    let b = uploaded_blobs(b0, name, vers, archive, readme);
    let b1 = without_key(b0, crate_blob_key(name, vers)).push((crate_blob_key(name, vers), archive));
    let i = b1.len() - 1;
    assert(b1[i].0 == crate_blob_key(name, vers) && b1[i].1 == archive);
    match readme {
        Option::Some(h) => {
            lemma_blob_keys_distinct(name, vers);
            lemma_without_key_push(
                without_key(b0, crate_blob_key(name, vers)),
                readme_blob_key(name, vers),
                (crate_blob_key(name, vers), archive),
            );
            let y = without_key(without_key(b0, crate_blob_key(name, vers)), readme_blob_key(name, vers));
            assert(without_key(b1, readme_blob_key(name, vers)) == y.push(
                (crate_blob_key(name, vers), archive),
            ));
            let j = y.len() as int;
            assert(b[j].0 == crate_blob_key(name, vers) && b[j].1 == archive);
            assert((#[trigger] b[j]).0 == crate_blob_key(name, vers) && b[j].1 == archive
                && hex_of(sha256_of(b[j].1)) == hex_of(sha256_of(archive)));
        },
        Option::None => {
            assert((#[trigger] b[i]).0 == crate_blob_key(name, vers) && b[i].1 == archive
                && hex_of(sha256_of(b[i].1)) == hex_of(sha256_of(archive)));
        },
    }
}

} // verus!
