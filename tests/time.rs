use webpki_core::time::{
    days_before_year_ad, days_before_year_since_unix_epoch, days_in_month, time_from_ymdhms_utc,
    DAYS_BEFORE_UNIX_EPOCH_AD, UNIX_EPOCH_YEAR,
};
use webpki_core::{DerTypeId, Error, Time};

#[test]
fn test_days_before_unix_epoch() {
    assert_eq!(
        DAYS_BEFORE_UNIX_EPOCH_AD,
        days_before_year_ad(UNIX_EPOCH_YEAR)
    );
}

#[test]
fn test_days_before_year_since_unix_epoch() {
    assert_eq!(Ok(0), days_before_year_since_unix_epoch(UNIX_EPOCH_YEAR));
    assert_eq!(
        Ok(365),
        days_before_year_since_unix_epoch(UNIX_EPOCH_YEAR + 1)
    );
    assert_eq!(
        Err(Error::BadDerTime),
        days_before_year_since_unix_epoch(UNIX_EPOCH_YEAR - 1)
    );
}

#[test]
fn test_days_in_month() {
    assert_eq!(days_in_month(2017, 1), 31);
    assert_eq!(days_in_month(2017, 2), 28);
    assert_eq!(days_in_month(2017, 3), 31);
    assert_eq!(days_in_month(2017, 4), 30);
    assert_eq!(days_in_month(2017, 5), 31);
    assert_eq!(days_in_month(2017, 6), 30);
    assert_eq!(days_in_month(2017, 7), 31);
    assert_eq!(days_in_month(2017, 8), 31);
    assert_eq!(days_in_month(2017, 9), 30);
    assert_eq!(days_in_month(2017, 10), 31);
    assert_eq!(days_in_month(2017, 11), 30);
    assert_eq!(days_in_month(2017, 12), 31);

    // leap cases
    assert_eq!(days_in_month(2000, 2), 29);
    assert_eq!(days_in_month(2004, 2), 29);
    assert_eq!(days_in_month(2016, 2), 29);
    assert_eq!(days_in_month(2100, 2), 28);
}

#[test]
fn test_time_from_ymdhms_utc() {
    // 1969-12-31 00:00:00
    assert_eq!(
        Err(Error::BadDerTime),
        time_from_ymdhms_utc(UNIX_EPOCH_YEAR - 1, 1, 1, 0, 0, 0)
    );

    // 1969-12-31 23:59:59
    assert_eq!(
        Err(Error::BadDerTime),
        time_from_ymdhms_utc(UNIX_EPOCH_YEAR - 1, 12, 31, 23, 59, 59)
    );

    // 1970-01-01 00:00:00
    assert_eq!(
        Time::from_seconds_since_unix_epoch(0),
        time_from_ymdhms_utc(UNIX_EPOCH_YEAR, 1, 1, 0, 0, 0).unwrap()
    );

    // 1970-01-01 00:00:01
    assert_eq!(
        Time::from_seconds_since_unix_epoch(1),
        time_from_ymdhms_utc(UNIX_EPOCH_YEAR, 1, 1, 0, 0, 1).unwrap()
    );

    // 1971-01-01 00:00:00
    assert_eq!(
        Time::from_seconds_since_unix_epoch(365 * 86400),
        time_from_ymdhms_utc(UNIX_EPOCH_YEAR + 1, 1, 1, 0, 0, 0).unwrap()
    );

    // year boundary
    assert_eq!(
        Time::from_seconds_since_unix_epoch(1_483_228_799),
        time_from_ymdhms_utc(2016, 12, 31, 23, 59, 59).unwrap()
    );
    assert_eq!(
        Time::from_seconds_since_unix_epoch(1_483_228_800),
        time_from_ymdhms_utc(2017, 1, 1, 0, 0, 0).unwrap()
    );

    // not a leap year
    assert_eq!(
        Time::from_seconds_since_unix_epoch(1_492_449_162),
        time_from_ymdhms_utc(2017, 4, 17, 17, 12, 42).unwrap()
    );

    // leap year, post-feb
    assert_eq!(
        Time::from_seconds_since_unix_epoch(1_460_913_162),
        time_from_ymdhms_utc(2016, 4, 17, 17, 12, 42).unwrap()
    );
}

fn der(tag: u8, text: &str) -> Vec<u8> {
    let mut v = vec![tag, text.len() as u8];
    v.extend_from_slice(text.as_bytes());
    v
}

#[test]
fn generalized_time_parses_to_unix_seconds() {
    let input = der(0x18, "20170417171242Z");
    let (t, n) = Time::from_der(&input).unwrap();
    assert_eq!(t, Time::from_seconds_since_unix_epoch(1_492_449_162));
    assert_eq!(n, 17);
}

#[test]
fn generalized_time_year_boundary_successor() {
    let (a, _) = Time::from_der(&der(0x18, "20161231235959Z")).unwrap();
    let (b, _) = Time::from_der(&der(0x18, "20170101000000Z")).unwrap();
    assert_eq!(a.as_secs(), 1_483_228_799);
    assert_eq!(b.as_secs(), 1_483_228_800);
    assert_eq!(b.as_secs() - a.as_secs(), 1);
}

#[test]
fn utc_time_matches_generalized_time() {
    let (u, n) = Time::from_der(&der(0x17, "170417171242Z")).unwrap();
    assert_eq!(n, 15);
    assert_eq!(u.as_secs(), 1_492_449_162);
    let (g, _) = Time::from_der(&der(0x18, "20491231235959Z")).unwrap();
    let (u2, _) = Time::from_der(&der(0x17, "491231235959Z")).unwrap();
    assert_eq!(g, u2);
}

#[test]
fn pre_epoch_times_are_rejected() {
    assert_eq!(
        time_from_ymdhms_utc(1969, 12, 31, 23, 59, 59),
        Err(Error::BadDerTime)
    );
    assert_eq!(Time::from_der(&der(0x18, "19691231235959Z")), Err(Error::BadDerTime));
    assert_eq!(Time::from_der(&der(0x17, "691231235959Z")), Err(Error::BadDerTime));
    assert_eq!(Time::from_der(&der(0x17, "500101000000Z")), Err(Error::BadDerTime));
}

#[test]
fn malformed_times_are_rejected() {
    // February 29th of a common year.
    assert_eq!(Time::from_der(&der(0x18, "20170229000000Z")), Err(Error::BadDerTime));
    // February 29th of a leap year is fine.
    assert!(Time::from_der(&der(0x18, "20160229000000Z")).is_ok());
    // Hour out of range, missing Z, fractional seconds, non-digit.
    assert_eq!(Time::from_der(&der(0x18, "20170101240000Z")), Err(Error::BadDerTime));
    assert_eq!(Time::from_der(&der(0x18, "20170101000000+")), Err(Error::BadDerTime));
    assert_eq!(Time::from_der(&der(0x18, "20170101000000.5Z")), Err(Error::BadDerTime));
    assert_eq!(Time::from_der(&der(0x18, "2017010100000AZ")), Err(Error::BadDerTime));
    // Too short.
    assert_eq!(Time::from_der(&der(0x18, "2017")), Err(Error::BadDerTime));
}

#[test]
fn trailing_data_in_time_value() {
    assert_eq!(
        Time::from_der(&der(0x18, "20170101000000ZZ")),
        Err(Error::TrailingData(DerTypeId::Time))
    );
}

#[test]
fn bad_der_framing() {
    // Wrong tag.
    assert_eq!(Time::from_der(&der(0x04, "20170101000000Z")), Err(Error::BadDer));
    // Length past the end.
    assert_eq!(Time::from_der(&[0x18, 0x20, 0x32]), Err(Error::BadDer));
    // Empty input.
    assert_eq!(Time::from_der(&[]), Err(Error::BadDer));
    // Non-minimal long-form length.
    let mut v = vec![0x18, 0x81, 15];
    v.extend_from_slice(b"20170101000000Z");
    assert_eq!(Time::from_der(&v), Err(Error::BadDer));
}

#[test]
fn parse_consumes_only_the_time() {
    let mut v = der(0x18, "20170101000000Z");
    v.extend_from_slice(&[0x30, 0x00]);
    let (t, n) = Time::from_der(&v).unwrap();
    assert_eq!(t.as_secs(), 1_483_228_800);
    assert_eq!(n, 17);
}
