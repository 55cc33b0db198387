use cargo_registry::store::validate_license_expr_parts;
use cargo_registry::upload::{validate_metadata, CrateUpload};

fn empty_upload() -> CrateUpload {
    CrateUpload {
        name: "demo".to_string(),
        vers: "0.1.0".to_string(),
        deps: vec![],
        features: vec![],
        authors: vec![],
        description: None,
        homepage: None,
        documentation: None,
        readme: None,
        readme_file: None,
        repository: None,
        license: None,
        license_file: None,
        keywords: None,
        categories: None,
        badges: None,
        links: None,
    }
}

#[test]
fn all_missing_fields_are_reported_together() {
    let e = validate_metadata(&empty_upload()).expect_err("an empty upload is rejected");
    assert_eq!(
        e.detail(),
        "missing or empty metadata fields: description, license, authors. Please see \
         https://doc.rust-lang.org/cargo/reference/manifest.html for how to upload metadata"
    );
}

#[test]
fn single_missing_field_is_named_alone() {
    let mut u = empty_upload();
    u.description = Some("a".to_string());
    u.license = Some("MIT".to_string());
    let e = validate_metadata(&u).expect_err("missing authors are rejected");
    assert_eq!(
        e.detail(),
        "missing or empty metadata fields: authors. Please see \
         https://doc.rust-lang.org/cargo/reference/manifest.html for how to upload metadata"
    );
}

#[test]
fn empty_strings_count_as_missing() {
    let mut u = empty_upload();
    u.description = Some(String::new());
    u.license = Some(String::new());
    u.license_file = Some(String::new());
    u.authors = vec![String::new(), String::new()];
    let e = validate_metadata(&u).expect_err("empty fields are rejected");
    assert!(e.detail().contains("description, license, authors"));
}

#[test]
fn license_file_satisfies_the_license_requirement() {
    let mut u = empty_upload();
    u.description = Some("a".to_string());
    u.license_file = Some("LICENSE".to_string());
    u.authors = vec!["a".to_string()];
    assert!(validate_metadata(&u).is_ok());
}

#[test]
fn complete_metadata_passes() {
    let mut u = empty_upload();
    u.description = Some("a".to_string());
    u.license = Some("MIT".to_string());
    u.authors = vec!["a".to_string()];
    assert!(validate_metadata(&u).is_ok());
}

#[test]
fn known_license_expressions_pass() {
    assert!(validate_license_expr_parts("MIT").is_ok());
    assert!(validate_license_expr_parts("MIT OR Apache-2.0").is_ok());
    assert!(validate_license_expr_parts("MIT/Apache-2.0").is_ok());
}

#[test]
fn unknown_license_terms_are_rejected_with_guidance() {
    let e = validate_license_expr_parts("NOT-A-LICENSE")
        .expect_err("an unknown identifier is rejected");
    assert_eq!(
        e.detail(),
        "unknown license or other term: NOT-A-LICENSE; see http://opensource.org/licenses for \
         options, and http://spdx.org/licenses/ for their identifiers"
    );
    assert!(validate_license_expr_parts("MIT/NOT-A-LICENSE").is_err());
}
