use cargo_registry::datetime::DateTime;
use cargo_registry::versions::{PreSeg, SemVer, TopVersions};

fn date(y: u64, mo: u64, d: u64, h: u64, mi: u64, s: u64) -> DateTime {
    DateTime::new(y, mo, d, h, mi, s)
}

fn version(major: u64, minor: u64, patch: u64, pre: Vec<PreSeg>) -> SemVer {
    SemVer::new(major, minor, patch, pre)
}

#[test]
fn top_versions_empty() {
    let versions: Vec<(DateTime, SemVer)> = vec![];
    assert_eq!(
        TopVersions::from_date_version_pairs(&versions),
        TopVersions {
            highest: None,
            highest_stable: None,
            newest: None,
        }
    );
}

#[test]
fn top_versions_single() {
    let versions = vec![(date(2020, 12, 3, 12, 34, 56), version(1, 0, 0, vec![]))];
    assert_eq!(
        TopVersions::from_date_version_pairs(&versions),
        TopVersions {
            highest: Some(version(1, 0, 0, vec![])),
            highest_stable: Some(version(1, 0, 0, vec![])),
            newest: Some(version(1, 0, 0, vec![])),
        }
    );
}

#[test]
fn top_versions_prerelease() {
    let beta5 = || version(1, 0, 0, vec![PreSeg::Text("beta".to_string()), PreSeg::Num(5)]);
    let versions = vec![(date(2020, 12, 3, 12, 34, 56), beta5())];
    assert_eq!(
        TopVersions::from_date_version_pairs(&versions),
        TopVersions {
            highest: Some(beta5()),
            highest_stable: None,
            newest: Some(beta5()),
        }
    );
}

#[test]
fn top_versions_multiple() {
    let alpha1 = || version(2, 0, 0, vec![PreSeg::Text("alpha".to_string()), PreSeg::Num(1)]);
    let versions = vec![
        (date(2018, 12, 3, 12, 34, 56), version(1, 0, 0, vec![])),
        (date(2019, 12, 3, 12, 34, 56), alpha1()),
        (date(2020, 12, 3, 12, 34, 56), version(1, 1, 0, vec![])),
        (date(2020, 12, 31, 12, 34, 56), version(1, 0, 4, vec![])),
    ];
    assert_eq!(
        TopVersions::from_date_version_pairs(&versions),
        TopVersions {
            highest: Some(alpha1()),
            highest_stable: Some(version(1, 1, 0, vec![])),
            newest: Some(version(1, 0, 4, vec![])),
        }
    );
}

#[test]
fn semver_precedence_order() {
    let v = |maj: u64, min: u64, pat: u64, pre: Vec<PreSeg>| SemVer::new(maj, min, pat, pre);
    let alpha = v(1, 0, 0, vec![PreSeg::Text("alpha".to_string())]);
    let alpha1 = v(1, 0, 0, vec![PreSeg::Text("alpha".to_string()), PreSeg::Num(1)]);
    let beta = v(1, 0, 0, vec![PreSeg::Text("beta".to_string())]);
    let release = v(1, 0, 0, vec![]);
    let eleven = v(1, 0, 0, vec![PreSeg::Num(11)]);
    let two = v(1, 0, 0, vec![PreSeg::Num(2)]);

    assert!(alpha.less(&alpha1));
    assert!(alpha1.less(&beta));
    assert!(beta.less(&release));
    assert!(!release.less(&release));
    assert!(two.less(&eleven));
    assert!(eleven.less(&alpha));
    assert!(v(1, 0, 0, vec![]).less(&v(1, 0, 1, vec![])));
    assert!(v(1, 9, 9, vec![]).less(&v(2, 0, 0, vec![PreSeg::Text("alpha".to_string())])));
}

#[test]
fn semver_text_form() {
    assert_eq!(SemVer::new(1, 2, 3, vec![]).to_text(), "1.2.3");
    assert_eq!(
        SemVer::new(1, 0, 0, vec![PreSeg::Text("beta".to_string()), PreSeg::Num(5)]).to_text(),
        "1.0.0-beta.5"
    );
    assert_eq!(SemVer::new(0, 10, 0, vec![PreSeg::Num(7)]).to_text(), "0.10.0-7");
}
