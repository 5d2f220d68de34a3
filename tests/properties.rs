use hijri_date::date::{MAX_GREGORIAN_YEAR, MIN_GREGORIAN_YEAR};
use hijri_date::julian::{gregorian_to_cjdn, julian_to_gregorian};
use hijri_date::umalqura::{gegorean_to_hijri, hijri_to_gregorian, month_starts};
use hijri_date::{DateError, Duration, HijriDate};

#[test]
fn boundary_years_are_rejected() {
    assert_eq!(HijriDate::from_gr(1937, 12, 31).unwrap_err(), DateError::InvalidRange);
    assert_eq!(HijriDate::from_gr(2077, 1, 1).unwrap_err(), DateError::InvalidRange);
    assert_eq!(HijriDate::from_hijri(1356, 1, 1).unwrap_err(), DateError::InvalidRange);
    assert_eq!(HijriDate::from_hijri(1500, 1, 1).unwrap_err(), DateError::InvalidRange);
    assert_eq!(MIN_GREGORIAN_YEAR, 1938);
    assert_eq!(MAX_GREGORIAN_YEAR, 2076);
}

#[test]
fn out_of_range_fields_are_rejected() {
    assert_eq!(HijriDate::from_hijri(1400, 13, 1).unwrap_err(), DateError::InvalidRange);
    assert_eq!(HijriDate::from_hijri(1400, 0, 1).unwrap_err(), DateError::InvalidRange);
    assert_eq!(HijriDate::from_hijri(1400, 1, 31).unwrap_err(), DateError::InvalidRange);
    assert_eq!(HijriDate::from_hijri(1400, 1, 0).unwrap_err(), DateError::InvalidRange);
    assert_eq!(HijriDate::from_gr(2000, 13, 1).unwrap_err(), DateError::InvalidRange);
    assert_eq!(HijriDate::from_gr(2000, 0, 1).unwrap_err(), DateError::InvalidRange);
    assert_eq!(HijriDate::from_gr(2000, 1, 32).unwrap_err(), DateError::InvalidRange);
    assert_eq!(HijriDate::from_gr(2000, 1, 0).unwrap_err(), DateError::InvalidRange);
}

#[test]
fn gregorian_dates_must_exist() {
    assert!(HijriDate::from_gr(2000, 2, 29).is_ok());
    assert_eq!(HijriDate::from_gr(1999, 2, 29).unwrap_err(), DateError::InvalidRange);
    assert_eq!(HijriDate::from_gr(2001, 4, 31).unwrap_err(), DateError::InvalidRange);
    assert_eq!(HijriDate::from_gr(2001, 2, 30).unwrap_err(), DateError::InvalidRange);
}

#[test]
fn literal_scenarios() {
    let d = HijriDate::from_gr(2000, 7, 31).unwrap();
    assert_eq!((d.year(), d.month(), d.day()), (1421, 4, 29));
    let d = HijriDate::from_hijri(1400, 11, 19).unwrap();
    assert_eq!((d.year_gr(), d.month_gr(), d.day_gr()), (1980, 9, 28));
    let a = HijriDate::from_hijri(1420, 6, 15).unwrap();
    let b = HijriDate::from_hijri(1420, 5, 29).unwrap();
    assert_eq!(a - Duration::days(16), b);
    let a = HijriDate::from_hijri(1357, 6, 15).unwrap();
    let b = HijriDate::from_hijri(1357, 6, 7).unwrap();
    assert_eq!((a - b).num_days(), 8);
    let a = HijriDate::from_hijri(1400, 12, 30).unwrap();
    let b = HijriDate::from_hijri(1357, 1, 1).unwrap();
    assert!(a > b);
}

#[test]
fn converter_round_trip() {
    assert_eq!(gegorean_to_hijri(2000, 7, 31), (1421, 4, 29, 29));
    assert_eq!(hijri_to_gregorian(1421, 4, 29), (2000, 7, 31));
    assert_eq!(hijri_to_gregorian(1400, 11, 19), (1980, 9, 28));
    assert_eq!(gegorean_to_hijri(1980, 9, 28), (1400, 11, 19, 30));
    assert_eq!(gegorean_to_hijri(1938, 1, 1), (1356, 10, 29, 30));
    assert_eq!(gegorean_to_hijri(2076, 12, 31), (1500, 2, 5, 30));
    assert_eq!(hijri_to_gregorian(1499, 12, 30), (2076, 11, 27));
    for &(y, m, d) in &[(1357, 1, 1), (1420, 6, 15), (1436, 9, 3), (1499, 12, 29)] {
        let (gy, gm, gd) = hijri_to_gregorian(y, m, d);
        let (hy, hm, hd, _) = gegorean_to_hijri(gy, gm, gd);
        assert_eq!((hy, hm, hd), (y, m, d));
    }
}

#[test]
fn day_past_month_end_runs_on() {
    // Muharram 1357 has 29 days.
    assert_eq!(hijri_to_gregorian(1357, 1, 30), hijri_to_gregorian(1357, 2, 1));
    let a = HijriDate::from_hijri(1357, 1, 30).unwrap();
    let b = HijriDate::from_hijri(1357, 2, 1).unwrap();
    assert!(a == b);
    assert_eq!((a.year(), a.month(), a.day()), (1357, 1, 30));
    assert_eq!(a.month_len(), b.month_len());
}

#[test]
fn julian_day_numbers() {
    assert_eq!(gregorian_to_cjdn(2000, 1, 1), 2451545);
    assert_eq!(julian_to_gregorian(2451545), (2000, 1, 1));
    assert_eq!(gregorian_to_cjdn(2000, 3, 1) - gregorian_to_cjdn(2000, 2, 28), 2);
    assert_eq!(gregorian_to_cjdn(1999, 3, 1) - gregorian_to_cjdn(1999, 2, 28), 1);
}

#[test]
fn month_table_bounds() {
    let starts = month_starts();
    assert_eq!(starts.len(), 1741);
    assert_eq!(starts[0], 28607);
    assert_eq!(starts[1740], 79990);
    assert!(starts.windows(2).all(|w| w[1] - w[0] == 29 || w[1] - w[0] == 30));
}

#[test]
fn ordering_follows_days() {
    let a = HijriDate::from_gr(2015, 6, 8).unwrap();
    let b = HijriDate::from_gr(2015, 6, 20).unwrap();
    let c = HijriDate::from_hijri(1436, 8, 21).unwrap();
    assert!(a < b);
    assert!(b > a);
    assert!(a == c);
    assert!(a <= c && a >= c);
}

#[test]
fn add_then_sub_gives_same_date() {
    let d = HijriDate::from_gr(2015, 6, 8).unwrap();
    let back = (HijriDate::from_gr(2015, 6, 8).unwrap() + Duration::days(400)) - Duration::days(400);
    assert!(back == d);
    assert_eq!((back.year(), back.month(), back.day(), back.month_len()), (1436, 8, 21, 30));
    assert_eq!(back.day_name_en(), d.day_name_en());
}

#[test]
fn checked_arithmetic_reports_range() {
    let d = HijriDate::from_gr(2076, 12, 30).unwrap();
    assert!(d.checked_add(Duration::days(1)).is_ok());
    assert_eq!(d.checked_add(Duration::days(2)).unwrap_err(), DateError::InvalidRange);
    let d = HijriDate::from_gr(1938, 1, 2).unwrap();
    assert!(d.checked_sub(Duration::days(1)).is_ok());
    assert_eq!(d.checked_sub(Duration::days(2)).unwrap_err(), DateError::InvalidRange);
    assert_eq!(d.checked_add(Duration::days(i64::MAX)).unwrap_err(), DateError::InvalidRange);
    assert_eq!(d.checked_sub(Duration::days(i64::MIN)).unwrap_err(), DateError::InvalidRange);
}

#[test]
fn names_and_format() {
    let d = HijriDate::from_gr(2000, 7, 31).unwrap();
    assert_eq!(d.day_name_en(), "Monday");
    assert_eq!(d.month_name_en(), "July");
    assert_eq!(d.day_name(), "الاثنين");
    assert_eq!(d.month_name(), "ربيع الثاني");
    assert_eq!(d.month_len(), 29);
    assert_eq!(
        d.format("%Y/%m/%d %D %M %l | %gY/%gm/%gd %gD %gM"),
        "1421/4/29 الاثنين ربيع الثاني 29 | 2000/7/31 Monday July"
    );
    assert_eq!(d.wasm_to_string(), "1421 4 29 -> 2000 7 31");
    let d = HijriDate::from_hijri(1400, 11, 19).unwrap();
    assert_eq!(d.day_name_en(), "Sunday");
    assert_eq!(d.month_name(), "ذو القعدة");
    assert_eq!(d.format("no directives"), "no directives");
}

#[test]
fn durations() {
    assert_eq!(Duration::days(-3).num_days(), -3);
    let a = HijriDate::from_gr(2000, 1, 1).unwrap();
    let b = HijriDate::from_gr(2001, 1, 1).unwrap();
    assert_eq!(b.days_since(&a).num_days(), 366);
    assert_eq!((a - b).num_days(), -366);
}

#[test]
fn two_line_text() {
    let d = HijriDate::from_gr(2000, 7, 31).unwrap();
    assert_eq!(d.to_string(), "1421 ربيع الثاني الاثنين\nMonday July 2000\n");
}
