use cargo_registry::email::send_user_confirm_email;
use cargo_registry::s3::Bucket;

#[test]
fn bucket_host_with_and_without_region() {
    let plain = Bucket::new(
        "alexcrichton-test".to_string(),
        None,
        "access".to_string(),
        "secret".to_string(),
        "https",
    );
    assert_eq!(plain.host(), "alexcrichton-test.s3.amazonaws.com");

    let regional = Bucket::new(
        "alexcrichton-test".to_string(),
        Some("us-west-1".to_string()),
        "access".to_string(),
        "secret".to_string(),
        "https",
    );
    assert_eq!(regional.host(), "alexcrichton-test.s3-us-west-1.amazonaws.com");

    let empty_region = Bucket::new(
        "alexcrichton-test".to_string(),
        Some(String::new()),
        "access".to_string(),
        "secret".to_string(),
        "https",
    );
    assert_eq!(empty_region.host(), "alexcrichton-test.s3.amazonaws.com");
}

#[test]
fn put_request_is_fully_prepared() {
    let bucket = Bucket::new(
        "bucket".to_string(),
        None,
        "access".to_string(),
        "secret".to_string(),
        "https",
    );
    let date = "Tue, 27 Nov 2018 12:00:00 GMT";
    let q = bucket
        .put_request("/crates/demo/demo-0.1.0.crate", "application/x-tar", 1000, date)
        .expect("signing succeeds");
    assert_eq!(q.method, "PUT");
    assert_eq!(
        q.url,
        "https://bucket.s3.amazonaws.com/crates/demo/demo-0.1.0.crate"
    );
    assert_eq!(q.content_length, Some(1000));
    assert_eq!(q.headers.len(), 5);
    assert_eq!(q.headers[0], ("Host".to_string(), "bucket.s3.amazonaws.com".to_string()));
    assert_eq!(q.headers[1], ("Date".to_string(), date.to_string()));
    assert_eq!(q.headers[2].0, "Authorization");
    assert!(q.headers[2].1.starts_with("AWS access:"));
    assert!(q.headers[2].1.len() > "AWS access:".len());
    assert_eq!(
        q.headers[3],
        ("Content-Type".to_string(), "application/x-tar".to_string())
    );
    assert_eq!(q.headers[4], ("Expect".to_string(), String::new()));
}

#[test]
fn delete_request_is_fully_prepared() {
    let bucket = Bucket::new(
        "bucket".to_string(),
        None,
        "access".to_string(),
        "secret".to_string(),
        "https",
    );
    let date = "Tue, 27 Nov 2018 12:00:00 GMT";
    let q = bucket
        .delete_request("crates/demo/demo-0.1.0.crate", date)
        .expect("signing succeeds");
    assert_eq!(q.method, "DELETE");
    assert_eq!(
        q.url,
        "https://bucket.s3.amazonaws.com/crates/demo/demo-0.1.0.crate"
    );
    assert_eq!(q.content_length, None);
    assert_eq!(q.headers.len(), 3);
    assert!(q.headers[2].1.starts_with("AWS access:"));
}

#[test]
fn signatures_depend_on_the_request() {
    let bucket = Bucket::new(
        "bucket".to_string(),
        None,
        "access".to_string(),
        "secret".to_string(),
        "https",
    );
    let date = "Tue, 27 Nov 2018 12:00:00 GMT";
    let a = bucket.put_request("a.crate", "application/x-tar", 1, date).unwrap();
    let b = bucket.put_request("b.crate", "application/x-tar", 1, date).unwrap();
    let a2 = bucket.put_request("a.crate", "application/x-tar", 1, date).unwrap();
    assert_ne!(a.headers[2].1, b.headers[2].1, "different paths must sign differently");
    assert_eq!(a.headers[2].1, a2.headers[2].1, "the same request signs the same");
}

#[test]
fn confirm_email_is_composed_exactly() {
    let mail = send_user_confirm_email("to@example.com", "carol", "tok123", &None);
    assert_eq!(mail.to, "to@example.com");
    assert_eq!(mail.from, "Development Mode");
    assert_eq!(mail.subject, "Please confirm your email address");
    assert_eq!(
        mail.body,
        "Hello carol! Welcome to Crates.io. Please click the\nlink below to verify your email \
         address. Thank you!\n\nhttps://crates.io/confirm/tok123"
    );
}

#[test]
fn configured_login_becomes_the_sender() {
    let config = Some(cargo_registry::email::MailgunConfigVars {
        smtp_login: "registry@example.com".to_string(),
        smtp_password: "SECRET-REDACTED".to_string(),
        smtp_server: "smtp.example.com".to_string(),
    });
    let mail = send_user_confirm_email("to@example.com", "carol", "tok123", &config);
    assert_eq!(mail.from, "registry@example.com");
}
