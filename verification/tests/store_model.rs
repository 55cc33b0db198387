use cargo_registry::blob::BlobStore;
use cargo_registry::datetime::DateTime;
use cargo_registry::index::IndexLog;
use cargo_registry::publish::{publish, AuthenticatedUser, RegistryConfig};
use cargo_registry::store::MetadataStore;
use cargo_registry::upload::CrateUpload;
use cargo_registry::versions::TopVersions;
use cargo_registry::Replica;

fn upload_of(name: &str, vers: &str) -> CrateUpload {
    CrateUpload {
        name: name.to_string(),
        vers: vers.to_string(),
        deps: vec![],
        features: vec![("default".to_string(), vec!["std".to_string()])],
        authors: vec!["a".to_string()],
        description: Some("a demo crate".to_string()),
        homepage: None,
        documentation: None,
        readme: None,
        readme_file: None,
        repository: None,
        license: Some("MIT".to_string()),
        license_file: None,
        keywords: Some(vec!["cli".to_string()]),
        categories: None,
        badges: None,
        links: None,
    }
}

fn run_publish_at(
    store: &mut MetadataStore,
    blobs: &mut BlobStore,
    index: &mut IndexLog,
    name: &str,
    vers: &str,
    day: u64,
) -> cargo_registry::publish::GoodCrate {
    let cfg = RegistryConfig {
        max_upload_size: 10000,
        max_unpack_size: 1 << 30,
        replica: Replica::Primary,
    };
    let user = AuthenticatedUser {
        id: 1,
        verified_email: Some("someone@example.com".to_string()),
    };
    publish(
        &upload_of(name, vers),
        &vec![1, 2, 3],
        3,
        &user,
        &DateTime::new(2020, 12, day, 12, 34, 56),
        &cfg,
        &None,
        store,
        blobs,
        index,
    )
    .expect("the publish should succeed")
}

fn run_publish(
    store: &mut MetadataStore,
    blobs: &mut BlobStore,
    index: &mut IndexLog,
    name: &str,
    vers: &str,
) -> cargo_registry::publish::GoodCrate {
    run_publish_at(store, blobs, index, name, vers, 3)
}

#[test]
fn top_versions_from_rows_follow_the_store() {
    let mut store = MetadataStore::new(vec![], vec![]);
    let mut blobs = BlobStore::new(true);
    let mut index = IndexLog::new(true);
    run_publish_at(&mut store, &mut blobs, &mut index, "demo", "0.1.0", 3);
    run_publish_at(&mut store, &mut blobs, &mut index, "demo", "0.3.0", 4);
    run_publish_at(&mut store, &mut blobs, &mut index, "demo", "0.2.0", 5);

    let rows: Vec<_> = store.versions.iter().map(|v| v.clone()).collect();
    let top = TopVersions::from_versions(rows);
    assert_eq!(top.highest.expect("a highest version").to_text(), "0.3.0");
    assert_eq!(
        top.highest_stable.expect("a highest stable version").to_text(),
        "0.3.0"
    );
    assert_eq!(top.newest.expect("a newest version").to_text(), "0.2.0");
}

#[test]
fn version_rows_carry_the_upload() {
    let mut store = MetadataStore::new(vec![], vec![]);
    let mut blobs = BlobStore::new(true);
    let mut index = IndexLog::new(true);
    run_publish(&mut store, &mut blobs, &mut index, "demo", "0.1.0");

    assert_eq!(store.versions.len(), 1);
    let row = &store.versions[0];
    assert_eq!(row.num_text, "0.1.0");
    assert_eq!(row.license.as_deref(), Some("MIT"));
    assert_eq!(row.crate_size, 3);
    assert!(!row.yanked);
    assert_eq!(row.downloads, 0);
    assert_eq!(row.published_by, 1);
    assert_eq!(row.features.len(), 1);
    assert_eq!(row.features[0].0, "default");

    assert_eq!(store.version_authors.len(), 1);
    assert_eq!(store.version_authors[0], (row.id, "a".to_string()));
    assert_eq!(store.versions_published_by.len(), 1);
    assert_eq!(
        store.versions_published_by[0],
        (row.id, "someone@example.com".to_string())
    );
    assert_eq!(store.keyword_links.len(), 1);
    assert_eq!(store.keyword_links[0].1, "cli");
    assert_eq!(store.readme_renderings.len(), 1);
    assert_eq!(store.readme_renderings[0].0, row.id);
}

#[test]
fn package_fields_take_the_last_upload() {
    let mut store = MetadataStore::new(vec![], vec![]);
    let mut blobs = BlobStore::new(true);
    let mut index = IndexLog::new(true);
    run_publish(&mut store, &mut blobs, &mut index, "demo", "0.1.0");
    let first_id = store.packages[0].id;

    let cfg = RegistryConfig {
        max_upload_size: 10000,
        max_unpack_size: 1 << 30,
        replica: Replica::Primary,
    };
    let user = AuthenticatedUser {
        id: 1,
        verified_email: Some("someone@example.com".to_string()),
    };
    let mut u = upload_of("demo", "0.2.0");
    u.description = Some("a better description".to_string());
    u.homepage = Some("https://example.com".to_string());
    publish(
        &u,
        &vec![1],
        1,
        &user,
        &DateTime::new(2020, 12, 4, 0, 0, 0),
        &cfg,
        &None,
        &mut store,
        &mut blobs,
        &mut index,
    )
    .expect("the second publish succeeds");

    assert_eq!(store.packages.len(), 1);
    assert_eq!(store.packages[0].id, first_id);
    assert_eq!(store.packages[0].description.as_deref(), Some("a better description"));
    assert_eq!(store.packages[0].homepage.as_deref(), Some("https://example.com"));
    assert_eq!(store.packages[0].owners, vec![1]);
}

#[test]
fn success_response_names_package_and_warnings() {
    let mut store = MetadataStore::new(vec![], vec![]);
    let mut blobs = BlobStore::new(true);
    let mut index = IndexLog::new(true);
    let good = run_publish(&mut store, &mut blobs, &mut index, "demo", "0.1.0");

    let r = good.response();
    assert_eq!(r.status, 200);
    assert_eq!(
        r.body,
        "{\"crate\":{\"name\":\"demo\",\"max_version\":\"0.1.0\"},\"warnings\":\
         {\"invalid_categories\":[],\"invalid_badges\":[],\"other\":[]}}"
    );
}

#[test]
fn features_appear_in_the_index_entry() {
    let mut store = MetadataStore::new(vec![], vec![]);
    let mut blobs = BlobStore::new(true);
    let mut index = IndexLog::new(true);
    run_publish(&mut store, &mut blobs, &mut index, "demo", "0.1.0");

    let line = &index.entries[0].1;
    assert!(line.contains("\"features\":{\"default\":[\"std\"]}"));
    assert!(line.contains("\"yanked\":false"));
}

#[test]
fn dependencies_come_back_sorted_by_optional_then_name() {
    let mut store = MetadataStore::new(vec![], vec![]);
    let mut blobs = BlobStore::new(true);
    let mut index = IndexLog::new(true);
    let cfg = RegistryConfig {
        max_upload_size: 10000,
        max_unpack_size: 1 << 30,
        replica: Replica::Primary,
    };
    let user = AuthenticatedUser {
        id: 1,
        verified_email: Some("someone@example.com".to_string()),
    };
    let dep = |name: &str, optional: bool| cargo_registry::upload::CrateDependency {
        name: name.to_string(),
        version_req: ">= 0".to_string(),
        optional,
        default_features: true,
        features: vec![],
        target: None,
        kind: None,
        registry: None,
        explicit_name_in_toml: None,
    };
    let mut u = upload_of("demo", "0.1.0");
    // Recorded deliberately out of order: an optional edge first, names
    // reversed within each group.
    u.deps = vec![
        dep("zeta", true),
        dep("beta", false),
        dep("alpha", true),
        dep("alpha", false),
    ];
    publish(
        &u,
        &vec![1],
        1,
        &user,
        &DateTime::new(2020, 12, 3, 0, 0, 0),
        &cfg,
        &None,
        &mut store,
        &mut blobs,
        &mut index,
    )
    .expect("the publish succeeds");

    let row = store.versions[0].clone();
    let deps = row.dependencies(&store);
    let listing: Vec<(String, bool)> =
        deps.iter().map(|d| (d.name.clone(), d.optional)).collect();
    assert_eq!(
        listing,
        vec![
            ("alpha".to_string(), false),
            ("beta".to_string(), false),
            ("alpha".to_string(), true),
            ("zeta".to_string(), true),
        ]
    );
}

#[test]
fn unknown_badges_warn_and_known_ones_link() {
    let mut store = MetadataStore::new(vec![], vec!["travis-ci".to_string()]);
    let mut blobs = BlobStore::new(true);
    let mut index = IndexLog::new(true);
    let cfg = RegistryConfig {
        max_upload_size: 10000,
        max_unpack_size: 1 << 30,
        replica: Replica::Primary,
    };
    let user = AuthenticatedUser {
        id: 1,
        verified_email: Some("someone@example.com".to_string()),
    };
    let mut u = upload_of("demo", "0.1.0");
    u.badges = Some(vec![
        cargo_registry::upload::BadgeSpec {
            kind: "travis-ci".to_string(),
            attributes: vec![("repository".to_string(), "demo/demo".to_string())],
        },
        cargo_registry::upload::BadgeSpec {
            kind: "no-such-badge".to_string(),
            attributes: vec![],
        },
    ]);
    let good = publish(
        &u,
        &vec![1],
        1,
        &user,
        &DateTime::new(2020, 12, 3, 0, 0, 0),
        &cfg,
        &None,
        &mut store,
        &mut blobs,
        &mut index,
    )
    .expect("bad badges must not fail the publish");
    assert_eq!(good.warnings.invalid_badges, vec!["no-such-badge".to_string()]);
    assert_eq!(store.badges.len(), 1);
    assert_eq!(store.badges[0].badge.kind, "travis-ci");
}
