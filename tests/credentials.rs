use sync2bucket::credentials::{
    check_credentials_status, check_expiry_at, credentials_status, days_between, decimal, expiry_timestamp,
};
use sync2bucket::storage::S3Error;

#[test]
fn expiry_instant() {
    assert_eq!(expiry_timestamp(), Some(1795910399));
}

#[test]
fn whole_days_toward_zero() {
    assert_eq!(days_between(2 * 86400, 0), 2);
    assert_eq!(days_between(86399, 0), 0);
    assert_eq!(days_between(0, 86399), 0);
    assert_eq!(days_between(0, 3 * 86400 + 5), -3);
    assert_eq!(days_between(i64::MAX, i64::MIN), (u64::MAX / 86400) as i64);
}

#[test]
fn expiry_check() {
    assert_eq!(check_expiry_at(10, 10), Ok(()));
    assert_eq!(check_expiry_at(11, 10), Err(S3Error::CredentialsExpired("2026-11-28".to_string())));
}

#[test]
fn status_warnings() {
    let s = credentials_status(10);
    assert!(s.valid);
    assert_eq!(s.expiry_date, "2026-11-28");
    assert_eq!(
        s.warning,
        Some("Warning: API credentials will expire in 10 days. Please contact your administrator.".to_string())
    );
    assert_eq!(
        credentials_status(60).warning,
        Some("Notice: API credentials will expire in 60 days.".to_string())
    );
    let gone = credentials_status(0);
    assert!(!gone.valid);
    assert_eq!(
        gone.warning,
        Some("API credentials have expired. Please contact your administrator to renew access.".to_string())
    );
    assert_eq!(credentials_status(91).warning, None);
    assert_eq!(credentials_status(90).warning, Some("Notice: API credentials will expire in 90 days.".to_string()));
    assert_eq!(credentials_status(30).warning.unwrap().starts_with("Warning"), true);
}

#[test]
fn status_now_is_consistent() {
    let s = check_credentials_status();
    assert_eq!(s.valid, s.days_remaining > 0);
}

#[test]
fn decimal_text() {
    assert_eq!(decimal(0), "0");
    assert_eq!(decimal(7), "7");
    assert_eq!(decimal(1234), "1234");
    assert_eq!(decimal(u64::MAX), u64::MAX.to_string());
}
