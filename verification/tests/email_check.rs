use cargo_registry::datetime::DateTime;
use cargo_registry::publish::verified_email_check;

#[test]
fn allow_publish_with_verified_email_without_warning_before_2018_02_28() {
    let mut warnings: Vec<String> = vec![];

    let fake_current_date = DateTime::new(2019, 2, 27, 0, 0, 0);
    let result = verified_email_check(
        &mut warnings,
        &Some("someone@example.com".into()),
        &fake_current_date,
    );

    assert!(result.is_ok());
    assert_eq!(warnings.len(), 0);
}

#[test]
fn allow_publish_with_verified_email_without_error_after_2018_02_28() {
    let mut warnings: Vec<String> = vec![];

    let fake_current_date = DateTime::new(2019, 3, 1, 0, 0, 0);
    let result = verified_email_check(
        &mut warnings,
        &Some("someone@example.com".into()),
        &fake_current_date,
    );

    assert!(result.is_ok());
    assert_eq!(warnings.len(), 0);
}

#[test]
fn warn_without_verified_email_before_2018_02_28() {
    let mut warnings: Vec<String> = vec![];

    let fake_current_date = DateTime::new(2019, 2, 27, 0, 0, 0);
    let result = verified_email_check(&mut warnings, &None, &fake_current_date);

    assert!(result.is_ok());
    assert_eq!(warnings.len(), 1);
    assert_eq!(
        warnings[0],
        "You do not currently have a verified email address associated \
         with your crates.io account. Starting 2019-02-28, a verified email will be required to \
         publish crates. Visit https://crates.io/me to set and verify your email address."
    );
}

#[test]
fn error_without_verified_email_after_2018_02_28() {
    let mut warnings: Vec<String> = vec![];

    let fake_current_date = DateTime::new(2019, 3, 1, 0, 0, 0);
    let result = verified_email_check(&mut warnings, &None, &fake_current_date);

    assert!(result.is_err());
    assert_eq!(
        result.err().unwrap().detail(),
        "A verified email address is required to \
         publish crates to crates.io. Visit https://crates.io/me to set and verify your email \
         address."
    );
}
