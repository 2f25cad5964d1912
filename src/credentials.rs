//! Expiry of the store credentials, and the status shown to the user.
use vstd::prelude::*;
use vstd::string::*;
use chrono::{TimeZone, Utc};
use crate::progress::opt_string_view;
use crate::storage::S3Error;

verus! {

/// Seconds since the epoch of the UTC date and time given, where it exists.
pub uninterp spec fn utc_timestamp_of(
    year: int,
    month: nat,
    day: nat,
    hour: nat,
    minute: nat,
    second: nat,
) -> Option<int>;

pub open spec fn opt_int(o: Option<i64>) -> Option<int> {
    match o {
        Some(v) => Some(v as int),
        None => None,
    }
}

/// Relies on chrono's `Utc::now` and `DateTime::timestamp`: the current time
/// in whole seconds since the epoch. Nothing is known of its value.
#[verifier::external_body]
pub(crate) fn now_timestamp() -> (r: i64) {
    Utc::now().timestamp()
}

/// Relies on chrono's `Utc.with_ymd_and_hms` and `DateTime::timestamp`.
#[verifier::external_body]
fn utc_timestamp(year: i32, month: u32, day: u32, hour: u32, minute: u32, second: u32) -> (r:
    Option<i64>)
    ensures
        opt_int(r) == utc_timestamp_of(
            year as int,
            month as nat,
            day as nat,
            hour as nat,
            minute as nat,
            second as nat,
        ),
{
    Utc.with_ymd_and_hms(year, month, day, hour, minute, second).single().map(|t| t.timestamp())
}

pub const EXPIRY_YEAR: i32 = 2026;

pub const EXPIRY_MONTH: u32 = 11;

pub const EXPIRY_DAY: u32 = 28;

/// The last second of the expiry day, in seconds since the epoch.
pub open spec fn spec_expiry() -> Option<int> {
    utc_timestamp_of(EXPIRY_YEAR as int, EXPIRY_MONTH as nat, EXPIRY_DAY as nat, 23, 59, 59)
}

/// The last second of the expiry day, in seconds since the epoch.
pub fn expiry_timestamp() -> (r: Option<i64>)
    ensures
        opt_int(r) == spec_expiry(),
{
    utc_timestamp(EXPIRY_YEAR, EXPIRY_MONTH, EXPIRY_DAY, 23, 59, 59)
}

/// Whole days from `now` to `expiry` (both in seconds), rounded toward zero.
pub open spec fn spec_days_between(expiry: int, now: int) -> int {
    let d = expiry - now;
    if d >= 0 {
        d / 86400
    } else {
        -((-d) / 86400)
    }
}

/// Whole days from `now` to `expiry` (both in seconds since the epoch),
/// rounded toward zero; negative once `expiry` has passed.
pub fn days_between(expiry: i64, now: i64) -> (r: i64)
    ensures
        r == spec_days_between(expiry as int, now as int),
{
    let d: i128 = expiry as i128 - now as i128;
    if d >= 0 {
        (d / 86400) as i64
    } else {
        let m: i128 = -d;
        -((m / 86400) as i64)
    }
}

/// Whole days until the credentials expire, counted from now; 0 where the
/// expiry date cannot be formed.
pub fn days_until_expiry() -> (r: i64)
    ensures
        spec_expiry() matches Some(e) ==> exists|now: i64| r == spec_days_between(e, now as int),
        spec_expiry() is None ==> r == 0,
{
    let now = now_timestamp();
    let r = match expiry_timestamp() {
        Some(e) => days_between(e, now),
        None => 0,
    };
    proof {
        if let Some(e) = spec_expiry() {
            assert(r == spec_days_between(e, now as int));
        }
    }
    r
}

/// The expiry date as `YYYY-MM-DD`.
pub fn expiry_date_text() -> (r: String)
    ensures
        r@ == seq!['2', '0', '2', '6', '-', '1', '1', '-', '2', '8'],
{
    let s = "2026-11-28";
    proof {
        reveal_strlit("2026-11-28");
        assert(s@ =~= seq!['2', '0', '2', '6', '-', '1', '1', '-', '2', '8']);
    }
    String::from_str(s)
}

/// Refuses, with `CredentialsExpired` and the expiry date, a clock reading
/// `now` past `expiry`.
pub fn check_expiry_at(now: i64, expiry: i64) -> (r: Result<(), S3Error>)
    ensures
        r is Ok <==> now <= expiry,
        r matches Err(e) ==> e is CredentialsExpired && e->CredentialsExpired_0@ == seq![
            '2',
            '0',
            '2',
            '6',
            '-',
            '1',
            '1',
            '-',
            '2',
            '8',
        ],
{
    if now > expiry {
        Err(S3Error::CredentialsExpired(expiry_date_text()))
    } else {
        Ok(())
    }
}

/// Refuses, with `CredentialsExpired`, to go on once the credentials have
/// expired by the clock now. Where the expiry date cannot be formed the
/// credentials are taken as valid.
pub fn check_credentials_expiry() -> (r: Result<(), S3Error>)
    ensures
        r matches Err(e) ==> e is CredentialsExpired,
        spec_expiry() is None ==> r is Ok,
        spec_expiry() matches Some(e) ==> exists|now: i64| #[trigger] expired_by(now, e) == r is Err,
{
    let now = now_timestamp();
    let r = match expiry_timestamp() {
        Some(e) => check_expiry_at(now, e),
        None => Ok(()),
    };
    proof {
        if let Some(e) = spec_expiry() {
            assert(expired_by(now, e) == r is Err);
        }
    }
    r
}

/// Whether the clock reading `now` is past `expiry`.
pub open spec fn expired_by(now: i64, expiry: int) -> bool {
    now > expiry
}

/// Decimal digits of `n`, most significant first.
pub open spec fn decimal_of(n: nat) -> Seq<char>
    decreases n,
{
    if n < 10 {
        seq![digit_char(n)]
    } else {
        decimal_of(n / 10) + seq![digit_char(n % 10)]
    }
}

pub open spec fn digit_char(d: nat) -> char {
    seq!['0', '1', '2', '3', '4', '5', '6', '7', '8', '9'][d as int]
}

/// Decimal text of `n`.
pub fn decimal(n: u64) -> (r: String)
    ensures
        r@ == decimal_of(n as nat),
    decreases n,
{
    let digits = "0123456789";
    proof {
        reveal_strlit("0123456789");
        assert(digits@ =~= seq!['0', '1', '2', '3', '4', '5', '6', '7', '8', '9']);
    }
    let d = (n % 10) as usize;
    let last = digits.substring_char(d, d + 1);
    proof {
        assert(last@ =~= seq![digit_char((n % 10) as nat)]);
    }
    if n < 10 {
        String::from_str(last)
    } else {
        let mut r = decimal(n / 10);
        r.append(last);
        r
    }
}

/// Whether the store credentials are still valid, and the warning to show.
#[derive(Debug, Clone, PartialEq, Eq)]
pub struct CredentialsStatus {
    pub valid: bool,
    pub days_remaining: i64,
    pub expiry_date: String,
    pub warning: Option<String>,
}

pub open spec fn expired_warning() -> Seq<char> {
    "API credentials have expired. Please contact your administrator to renew access."@
}

pub open spec fn soon_warning(days: nat) -> Seq<char> {
    "Warning: API credentials will expire in "@ + decimal_of(days)
        + " days. Please contact your administrator."@
}

pub open spec fn notice_warning(days: nat) -> Seq<char> {
    "Notice: API credentials will expire in "@ + decimal_of(days) + " days."@
}

/// The warning for `days` days left: expired at 0 or fewer, a warning up to
/// 30, a notice up to 90, none beyond.
pub open spec fn spec_warning(days: int) -> Option<Seq<char>> {
    if days <= 0 {
        Some(expired_warning())
    } else if days <= 30 {
        Some(soon_warning(days as nat))
    } else if days <= 90 {
        Some(notice_warning(days as nat))
    } else {
        None
    }
}

/// The status for `days_remaining` whole days left before expiry.
pub fn credentials_status(days_remaining: i64) -> (r: CredentialsStatus)
    ensures
        r.valid == (days_remaining > 0),
        r.days_remaining == days_remaining,
        r.expiry_date@ == seq!['2', '0', '2', '6', '-', '1', '1', '-', '2', '8'],
        opt_string_view(r.warning) == spec_warning(days_remaining as int),
{
    let warning = if days_remaining <= 0 {
        Some(
            String::from_str(
                "API credentials have expired. Please contact your administrator to renew access.",
            ),
        )
    } else if days_remaining <= 30 {
        let mut w = String::from_str("Warning: API credentials will expire in ");
        let n = decimal(days_remaining as u64);
        w.append(n.as_str());
        w.append(" days. Please contact your administrator.");
        Some(w)
    } else if days_remaining <= 90 {
        let mut w = String::from_str("Notice: API credentials will expire in ");
        let n = decimal(days_remaining as u64);
        w.append(n.as_str());
        w.append(" days.");
        Some(w)
    } else {
        None
    };
    CredentialsStatus {
        valid: days_remaining > 0,
        days_remaining,
        expiry_date: expiry_date_text(),
        warning,
    }
}

/// The status of the credentials by the clock now.
pub fn check_credentials_status() -> (r: CredentialsStatus)
    ensures
        r.valid == (r.days_remaining > 0),
        opt_string_view(r.warning) == spec_warning(r.days_remaining as int),
        spec_expiry() matches Some(e) ==> exists|now: i64|
            r.days_remaining == spec_days_between(e, now as int),
{
    credentials_status(days_until_expiry())
}

} // verus!
