use cargo_registry::blob::checksum_hex;
use cargo_registry::datetime::{http_date, DateTime};
use cargo_registry::errors::{json_error, PublishError};

#[test]
fn error_envelope_shape() {
    let r = json_error("Not Found", 404);
    assert_eq!(r.status, 404);
    assert_eq!(r.body, "{\"errors\":[{\"detail\":\"Not Found\"}]}");
    assert!(r.headers.is_empty());
}

#[test]
fn error_envelope_escapes_the_detail() {
    let r = json_error("say \"hi\" \\ there", 400);
    assert_eq!(
        r.body,
        "{\"errors\":[{\"detail\":\"say \\\"hi\\\" \\\\ there\"}]}"
    );
    let nl = json_error("line\nbreak", 400);
    assert_eq!(nl.body, "{\"errors\":[{\"detail\":\"line\\u000abreak\"}]}");
}

#[test]
fn statuses_by_error_class() {
    assert_eq!(PublishError::BadRequest("x".to_string()).response().status, 400);
    assert_eq!(PublishError::Forbidden("x".to_string()).response().status, 403);
    assert_eq!(PublishError::Conflict("1.0.0".to_string()).response().status, 409);
    assert_eq!(
        PublishError::RateLimited(DateTime::new(2019, 3, 1, 0, 0, 0)).response().status,
        429
    );
    assert_eq!(PublishError::ServerError("boom".to_string()).response().status, 500);
}

#[test]
fn server_errors_are_surfaced_generically() {
    let e = PublishError::ServerError("the database exploded".to_string());
    assert_eq!(e.detail(), "internal server error");
    assert!(!e.response().body.contains("exploded"));
}

#[test]
fn rate_limit_carries_a_retry_after_header() {
    let e = PublishError::RateLimited(DateTime::new(2019, 3, 1, 0, 0, 0));
    let r = e.response();
    assert_eq!(r.headers.len(), 1);
    assert_eq!(r.headers[0].0, "Retry-After");
    assert_eq!(r.headers[0].1, "Fri, 01 Mar 2019 00:00:00 GMT");
    assert!(r.body.contains("Please try again after Fri, 01 Mar 2019 00:00:00 GMT"));
}

#[test]
fn http_dates_name_the_weekday() {
    assert_eq!(
        http_date(&DateTime::new(2020, 12, 31, 12, 34, 56)),
        "Thu, 31 Dec 2020 12:34:56 GMT"
    );
    assert_eq!(
        http_date(&DateTime::new(1970, 1, 1, 0, 0, 0)),
        "Thu, 01 Jan 1970 00:00:00 GMT"
    );
    assert_eq!(
        http_date(&DateTime::new(2016, 2, 29, 23, 59, 59)),
        "Mon, 29 Feb 2016 23:59:59 GMT"
    );
}

#[test]
fn sha256_checksum_of_known_bytes() {
    assert_eq!(
        checksum_hex(&[]).expect("a checksum"),
        "e3b0c44298fc1c149afbf4c8996fb92427ae41e4649b934ca495991b7852b855"
    );
    assert_eq!(
        checksum_hex(b"abc").expect("a checksum"),
        "ba7816bf8f01cfea414140de5dae2223b00361a396177a9cb410ff61f20015ad"
    );
}
