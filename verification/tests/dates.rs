use chrono::NaiveDate;
use pluto::datetime::DateTime;

#[test]
fn validity_handles_leap_years() {
    assert!(DateTime::new(2020, 2, 29, 0, 0, 0).check());
    assert!(!DateTime::new(1900, 2, 29, 0, 0, 0).check());
    assert!(DateTime::new(2000, 2, 29, 0, 0, 0).check());
    assert!(!DateTime::new(2021, 2, 29, 0, 0, 0).check());
    assert!(!DateTime::new(2021, 4, 31, 0, 0, 0).check());
    assert!(DateTime::new(2021, 12, 31, 23, 59, 59).check());
    assert!(!DateTime::new(2021, 13, 1, 0, 0, 0).check());
    assert!(!DateTime::new(2021, 1, 1, 24, 0, 0).check());
    assert!(!DateTime::new(0, 1, 1, 0, 0, 0).check());
}

#[test]
fn ordering_is_lexicographic() {
    let a = DateTime::new(2020, 12, 31, 23, 59, 59);
    let b = DateTime::new(2021, 1, 1, 0, 0, 0);
    assert!(a.lt(&b));
    assert!(!b.lt(&a));
    assert!(!a.lt(&a));
    let c = DateTime::new(2021, 1, 1, 0, 0, 1);
    assert!(b.lt(&c));
}

#[test]
fn table_date_format() {
    let d = DateTime::new(2021, 3, 4, 0, 0, 0);
    assert_eq!(d.format_dmy(), "04-03-2021");
    let d = DateTime::new(987, 12, 1, 0, 0, 0);
    assert_eq!(d.format_dmy(), "01-12-0987");
}

#[test]
fn feed_date_format() {
    let d = DateTime::new(2021, 3, 4, 0, 0, 0);
    assert_eq!(d.format_rfc822(), "Thu, 04 Mar 2021 00:00:00");
    let d = DateTime::new(2019, 12, 31, 7, 5, 9);
    assert_eq!(d.format_rfc822(), "Tue, 31 Dec 2019 07:05:09");
}

#[test]
fn feed_date_matches_chrono() {
    let cases = [
        (2021u32, 3u32, 4u32, 0u32, 0u32, 0u32),
        (2020, 2, 29, 12, 34, 56),
        (1999, 1, 1, 23, 59, 59),
        (2000, 3, 1, 1, 2, 3),
        (2024, 11, 30, 6, 0, 0),
        (1970, 1, 1, 0, 0, 0),
    ];
    for (y, mo, d, h, mi, s) in cases.iter().copied() {
        let ours = DateTime::new(y, mo, d, h, mi, s).format_rfc822();
        let theirs = NaiveDate::from_ymd_opt(y as i32, mo, d)
            .unwrap()
            .and_hms_opt(h, mi, s)
            .unwrap()
            .format("%a, %d %b %Y %H:%M:%S")
            .to_string();
        assert_eq!(ours, theirs);
    }
}

#[test]
fn table_date_matches_chrono() {
    let cases = [(2021u32, 3u32, 4u32), (2020, 12, 31), (1987, 6, 5)];
    for (y, mo, d) in cases.iter().copied() {
        let ours = DateTime::new(y, mo, d, 0, 0, 0).format_dmy();
        let theirs = NaiveDate::from_ymd_opt(y as i32, mo, d)
            .unwrap()
            .format("%d-%m-%Y")
            .to_string();
        assert_eq!(ours, theirs);
    }
}

#[test]
fn decimal_rendering() {
    assert_eq!(pluto::text::u64_to_dec(0), "0");
    assert_eq!(pluto::text::u64_to_dec(7), "7");
    assert_eq!(pluto::text::u64_to_dec(10), "10");
    assert_eq!(pluto::text::u64_to_dec(90210), "90210");
    assert_eq!(pluto::text::pad2_str(3), "03");
    assert_eq!(pluto::text::pad4_str(42), "0042");
}
