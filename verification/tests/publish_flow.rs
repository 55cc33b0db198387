use cargo_registry::blob::{checksum_hex, BlobStore};
use cargo_registry::datetime::DateTime;
use cargo_registry::errors::PublishError;
use cargo_registry::index::IndexLog;
use cargo_registry::publish::{publish, AuthenticatedUser, RegistryConfig};
use cargo_registry::store::MetadataStore;
use cargo_registry::upload::{CrateDependency, CrateUpload};
use cargo_registry::Replica;

fn upload_for(name: &str, vers: &str) -> CrateUpload {
    CrateUpload {
        name: name.to_string(),
        vers: vers.to_string(),
        deps: vec![],
        features: vec![],
        authors: vec!["a".to_string()],
        description: Some("a demo crate".to_string()),
        homepage: None,
        documentation: None,
        readme: None,
        readme_file: None,
        repository: None,
        license: Some("MIT".to_string()),
        license_file: None,
        keywords: None,
        categories: None,
        badges: None,
        links: None,
    }
}

fn config() -> RegistryConfig {
    RegistryConfig {
        max_upload_size: 10000,
        max_unpack_size: 1 << 30,
        replica: Replica::Primary,
    }
}

fn user() -> AuthenticatedUser {
    AuthenticatedUser {
        id: 1,
        verified_email: Some("someone@example.com".to_string()),
    }
}

fn now() -> DateTime {
    DateTime::new(2020, 12, 3, 12, 34, 56)
}

fn archive_bytes(n: usize) -> Vec<u8> {
    let mut v = Vec::new();
    let mut i: usize = 0;
    while i < n {
        v.push((i % 251) as u8);
        i += 1;
    }
    v
}

#[test]
fn example_scenario_demo_publish() {
    let mut store = MetadataStore::new(vec![], vec![]);
    let mut blobs = BlobStore::new(true);
    let mut index = IndexLog::new(true);
    let archive = archive_bytes(1000);
    let upload = upload_for("demo", "0.1.0");

    let r = publish(
        &upload,
        &archive,
        1000,
        &user(),
        &now(),
        &config(),
        &None,
        &mut store,
        &mut blobs,
        &mut index,
    );
    let good = r.expect("the demo publish should succeed");
    assert_eq!(good.name, "demo");
    assert_eq!(good.max_version.to_text(), "0.1.0");
    assert_eq!(good.warnings.invalid_categories.len(), 0);
    assert_eq!(good.warnings.invalid_badges.len(), 0);
    assert_eq!(good.warnings.other.len(), 0);

    let cksum = checksum_hex(&archive).expect("a checksum");
    assert_eq!(index.entries.len(), 1);
    assert_eq!(index.entries[0].0, "demo");
    let expected = format!(
        "{{\"name\":\"demo\",\"vers\":\"0.1.0\",\"cksum\":\"{}\",\"features\":{{}},\"deps\":[],\"yanked\":false,\"links\":null}}",
        cksum
    );
    assert_eq!(index.entries[0].1, expected);

    let key = "crates/demo/demo-0.1.0.crate".to_string();
    let stored = blobs.get(&key).expect("the archive blob");
    assert_eq!(stored, &archive);
}

#[test]
fn checksum_round_trip_on_stored_blob() {
    let mut store = MetadataStore::new(vec![], vec![]);
    let mut blobs = BlobStore::new(true);
    let mut index = IndexLog::new(true);
    let archive = archive_bytes(321);
    let upload = upload_for("demo", "0.1.0");

    publish(
        &upload,
        &archive,
        321,
        &user(),
        &now(),
        &config(),
        &None,
        &mut store,
        &mut blobs,
        &mut index,
    )
    .expect("publish succeeds");

    let key = "crates/demo/demo-0.1.0.crate".to_string();
    let stored = blobs.get(&key).expect("the archive blob");
    let recomputed = checksum_hex(stored).expect("a checksum");
    let line = &index.entries[0].1;
    assert!(
        line.contains(&format!("\"cksum\":\"{}\"", recomputed)),
        "index entry must record the checksum of the stored bytes"
    );
}

#[test]
fn duplicate_version_is_refused() {
    let mut store = MetadataStore::new(vec![], vec![]);
    let mut blobs = BlobStore::new(true);
    let mut index = IndexLog::new(true);
    let archive = archive_bytes(10);

    publish(
        &upload_for("demo", "0.1.0"),
        &archive,
        10,
        &user(),
        &now(),
        &config(),
        &None,
        &mut store,
        &mut blobs,
        &mut index,
    )
    .expect("first publish succeeds");
    assert_eq!(store.versions.len(), 1);

    let r = publish(
        &upload_for("demo", "0.1.0"),
        &archive,
        10,
        &user(),
        &now(),
        &config(),
        &None,
        &mut store,
        &mut blobs,
        &mut index,
    );
    let e = r.expect_err("the identical publish must fail");
    match &e {
        PublishError::Conflict(v) => assert_eq!(v, "0.1.0"),
        other => panic!("expected a conflict, got {:?}", other),
    }
    assert_eq!(e.detail(), "crate version `0.1.0` is already uploaded");
    assert_eq!(e.response().status, 409);
    assert_eq!(store.versions.len(), 1);
    assert_eq!(index.entries.len(), 1);
}

#[test]
fn different_versions_both_succeed() {
    let mut store = MetadataStore::new(vec![], vec![]);
    let mut blobs = BlobStore::new(true);
    let mut index = IndexLog::new(true);
    let archive = archive_bytes(10);

    publish(
        &upload_for("demo", "0.1.0"),
        &archive,
        10,
        &user(),
        &now(),
        &config(),
        &None,
        &mut store,
        &mut blobs,
        &mut index,
    )
    .expect("first publish succeeds");
    let good = publish(
        &upload_for("demo", "0.2.0"),
        &archive,
        10,
        &user(),
        &now(),
        &config(),
        &None,
        &mut store,
        &mut blobs,
        &mut index,
    )
    .expect("second version succeeds");
    assert_eq!(good.max_version.to_text(), "0.2.0");
    assert_eq!(store.packages.len(), 1);
    assert_eq!(store.versions.len(), 2);
    assert_eq!(index.entries.len(), 2);
}

#[test]
fn oversize_upload_never_reaches_the_blob_store() {
    let mut store = MetadataStore::new(vec![], vec![]);
    let mut blobs = BlobStore::new(true);
    let mut index = IndexLog::new(true);
    let archive = archive_bytes(10);

    let r = publish(
        &upload_for("demo", "0.1.0"),
        &archive,
        20000,
        &user(),
        &now(),
        &config(),
        &None,
        &mut store,
        &mut blobs,
        &mut index,
    );
    let e = r.expect_err("an oversize request must fail");
    assert_eq!(e.detail(), "max upload size is: 10000");
    assert_eq!(e.response().status, 400);
    assert_eq!(blobs.put_count, 0, "the blob store must never see the request");
    assert_eq!(store.versions.len(), 0);
    assert_eq!(store.packages.len(), 0);
}

#[test]
fn failing_index_append_rolls_everything_back() {
    let mut store = MetadataStore::new(vec![], vec![]);
    let mut blobs = BlobStore::new(true);
    let mut index = IndexLog::new(false);
    let archive = archive_bytes(10);

    let r = publish(
        &upload_for("demo", "0.1.0"),
        &archive,
        10,
        &user(),
        &now(),
        &config(),
        &None,
        &mut store,
        &mut blobs,
        &mut index,
    );
    let e = r.expect_err("the publish must fail when the index is down");
    assert_eq!(e.response().status, 500);
    assert_eq!(store.versions.len(), 0, "no version row may persist");
    assert_eq!(store.packages.len(), 0, "the freshly created package may not persist");
    let key = "crates/demo/demo-0.1.0.crate".to_string();
    assert!(blobs.get(&key).is_none(), "no blob may remain in the store");
    assert_eq!(blobs.put_count, 1, "the upload was attempted once");
    assert_eq!(index.entries.len(), 0);
}

#[test]
fn invalid_category_becomes_a_warning() {
    let mut store = MetadataStore::new(vec!["games".to_string()], vec![]);
    let mut blobs = BlobStore::new(true);
    let mut index = IndexLog::new(true);
    let archive = archive_bytes(10);
    let mut upload = upload_for("demo", "0.1.0");
    upload.categories = Some(vec!["games".to_string(), "totally-invalid".to_string()]);

    let good = publish(
        &upload,
        &archive,
        10,
        &user(),
        &now(),
        &config(),
        &None,
        &mut store,
        &mut blobs,
        &mut index,
    )
    .expect("one bad category must not fail the publish");
    assert_eq!(good.warnings.invalid_categories, vec!["totally-invalid".to_string()]);
    assert_eq!(store.category_links.len(), 1);
    assert_eq!(store.category_links[0].1, "games");
}

#[test]
fn case_insensitive_rename_is_rejected() {
    let mut store = MetadataStore::new(vec![], vec![]);
    let mut blobs = BlobStore::new(true);
    let mut index = IndexLog::new(true);
    let archive = archive_bytes(10);

    publish(
        &upload_for("Foo", "1.0.0"),
        &archive,
        10,
        &user(),
        &now(),
        &config(),
        &None,
        &mut store,
        &mut blobs,
        &mut index,
    )
    .expect("publishing Foo succeeds");

    let r = publish(
        &upload_for("foo", "2.0.0"),
        &archive,
        10,
        &user(),
        &now(),
        &config(),
        &None,
        &mut store,
        &mut blobs,
        &mut index,
    );
    let e = r.expect_err("a case-folded rename must be rejected");
    assert_eq!(e.detail(), "crate was previously named `Foo`");
    assert_eq!(store.packages.len(), 1, "no second package may appear");

    let good = publish(
        &upload_for("Foo", "2.0.0"),
        &archive,
        10,
        &user(),
        &now(),
        &config(),
        &None,
        &mut store,
        &mut blobs,
        &mut index,
    )
    .expect("the exact stored name still publishes");
    assert_eq!(good.max_version.to_text(), "2.0.0");
    assert_eq!(store.packages.len(), 1);
}

#[test]
fn other_owner_is_refused() {
    let mut store = MetadataStore::new(vec![], vec![]);
    let mut blobs = BlobStore::new(true);
    let mut index = IndexLog::new(true);
    let archive = archive_bytes(10);

    publish(
        &upload_for("demo", "0.1.0"),
        &archive,
        10,
        &user(),
        &now(),
        &config(),
        &None,
        &mut store,
        &mut blobs,
        &mut index,
    )
    .expect("first publish succeeds");

    let stranger = AuthenticatedUser {
        id: 2,
        verified_email: Some("other@example.com".to_string()),
    };
    let r = publish(
        &upload_for("demo", "0.2.0"),
        &archive,
        10,
        &stranger,
        &now(),
        &config(),
        &None,
        &mut store,
        &mut blobs,
        &mut index,
    );
    let e = r.expect_err("a non-owner may not publish");
    assert_eq!(e.response().status, 403);
    assert!(e.detail().contains("you don't seem to be an owner"));
}

#[test]
fn read_only_mirror_refuses_writes() {
    let mut store = MetadataStore::new(vec![], vec![]);
    let mut blobs = BlobStore::new(true);
    let mut index = IndexLog::new(true);
    let archive = archive_bytes(10);
    let cfg = RegistryConfig {
        max_upload_size: 10000,
        max_unpack_size: 1 << 30,
        replica: Replica::ReadOnlyMirror,
    };

    let r = publish(
        &upload_for("demo", "0.1.0"),
        &archive,
        10,
        &user(),
        &now(),
        &cfg,
        &None,
        &mut store,
        &mut blobs,
        &mut index,
    );
    let e = r.expect_err("a mirror must refuse writes");
    assert_eq!(e.response().status, 403);
    assert_eq!(
        e.detail(),
        "Crates.io is currently in read-only mode for maintenance. Please try again later."
    );
}

#[test]
fn invalid_dependency_requirement_is_rejected() {
    let mut store = MetadataStore::new(vec![], vec![]);
    let mut blobs = BlobStore::new(true);
    let mut index = IndexLog::new(true);
    let archive = archive_bytes(10);
    let mut upload = upload_for("demo", "0.1.0");
    upload.deps = vec![CrateDependency {
        name: "helper".to_string(),
        version_req: "this is not a requirement".to_string(),
        optional: false,
        default_features: true,
        features: vec![],
        target: None,
        kind: None,
        registry: None,
        explicit_name_in_toml: None,
    }];

    let r = publish(
        &upload,
        &archive,
        10,
        &user(),
        &now(),
        &config(),
        &None,
        &mut store,
        &mut blobs,
        &mut index,
    );
    let e = r.expect_err("a malformed requirement must be rejected");
    assert_eq!(e.detail(), "invalid version requirement for dependency `helper`");
    assert_eq!(store.versions.len(), 0);
}

#[test]
fn dependency_is_recorded_and_indexed() {
    let mut store = MetadataStore::new(vec![], vec![]);
    let mut blobs = BlobStore::new(true);
    let mut index = IndexLog::new(true);
    let archive = archive_bytes(10);
    let mut upload = upload_for("demo", "0.1.0");
    upload.deps = vec![CrateDependency {
        name: "helper".to_string(),
        version_req: ">= 0".to_string(),
        optional: false,
        default_features: true,
        features: vec![],
        target: None,
        kind: None,
        registry: None,
        explicit_name_in_toml: Some("renamed".to_string()),
    }];

    publish(
        &upload,
        &archive,
        10,
        &user(),
        &now(),
        &config(),
        &None,
        &mut store,
        &mut blobs,
        &mut index,
    )
    .expect("a publish with one dependency succeeds");
    assert_eq!(store.dependencies.len(), 1);
    assert_eq!(store.dependencies[0].dep.name, "helper");
    let line = &index.entries[0].1;
    assert!(line.contains("\"deps\":[{\"name\":\"renamed\",\"req\":\">= 0\""));
    assert!(line.contains("\"package\":\"helper\""));

    let row = store.versions[0].clone();
    let deps = row.dependencies(&store);
    assert_eq!(deps.len(), 1);
    assert_eq!(deps[0].version_req, ">= 0");
}

#[test]
fn missing_email_after_cutoff_rejects_and_before_warns() {
    let mut store = MetadataStore::new(vec![], vec![]);
    let mut blobs = BlobStore::new(true);
    let mut index = IndexLog::new(true);
    let archive = archive_bytes(10);
    let anonymous = AuthenticatedUser { id: 1, verified_email: None };

    let r = publish(
        &upload_for("demo", "0.1.0"),
        &archive,
        10,
        &anonymous,
        &now(),
        &config(),
        &None,
        &mut store,
        &mut blobs,
        &mut index,
    );
    assert!(r.is_err(), "after the cutoff an unverified email is rejected");

    let before_cutoff = DateTime::new(2019, 2, 27, 0, 0, 0);
    let good = publish(
        &upload_for("demo", "0.1.0"),
        &archive,
        10,
        &anonymous,
        &before_cutoff,
        &config(),
        &None,
        &mut store,
        &mut blobs,
        &mut index,
    )
    .expect("inside the grace period the publish goes through");
    assert_eq!(good.warnings.other.len(), 1);
    assert!(good.warnings.other[0].contains("verified email"));
}

#[test]
fn readme_blob_is_stored_and_rolled_back() {
    let mut store = MetadataStore::new(vec![], vec![]);
    let mut blobs = BlobStore::new(true);
    let mut index = IndexLog::new(true);
    let archive = archive_bytes(10);
    let mut upload = upload_for("demo", "0.1.0");
    upload.readme = Some("# demo".to_string());
    let rendered = Some("<h1>demo</h1>".to_string());

    publish(
        &upload,
        &archive,
        10,
        &user(),
        &now(),
        &config(),
        &rendered,
        &mut store,
        &mut blobs,
        &mut index,
    )
    .expect("a publish with a readme succeeds");
    let rkey = "readmes/demo/demo-0.1.0.html".to_string();
    assert_eq!(
        blobs.get(&rkey).expect("the readme blob"),
        &"<h1>demo</h1>".as_bytes().to_vec()
    );

    let mut store2 = MetadataStore::new(vec![], vec![]);
    let mut blobs2 = BlobStore::new(true);
    let mut index2 = IndexLog::new(false);
    publish(
        &upload,
        &archive,
        10,
        &user(),
        &now(),
        &config(),
        &rendered,
        &mut store2,
        &mut blobs2,
        &mut index2,
    )
    .expect_err("the publish fails when the index is down");
    assert!(blobs2.get(&rkey).is_none(), "the readme blob must be rolled back");
    let ckey = "crates/demo/demo-0.1.0.crate".to_string();
    assert!(blobs2.get(&ckey).is_none(), "the archive blob must be rolled back");
    assert_eq!(blobs2.put_count, 2);
}
