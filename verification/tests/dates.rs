use chrono::{DateTime, Duration, Months, Utc};
use manga_parser::date::try_parse_date;

fn compare_without_time(expected: &DateTime<Utc>, actual: Option<i64>) {
    let actual = DateTime::<Utc>::from_timestamp_millis(actual.unwrap()).unwrap();
    assert_eq!(
        expected.date_naive(),
        actual.date_naive(),
        "Dates are not the same"
    );
}

#[test]
fn date_parse() {
    let now = Utc::now();

    let date_formats: Vec<String> = vec![];

    let date = try_parse_date(
        &now.format("%e %B، %Y").to_string(),
        &vec!["%e %B، %Y".to_string()],
    );
    compare_without_time(&now, date);

    let date = try_parse_date(&now.timestamp_millis().to_string(), &date_formats);
    compare_without_time(&now, date);

    let date = try_parse_date("Today", &date_formats);
    compare_without_time(&now, date);

    let date = try_parse_date("Hottest", &date_formats);
    compare_without_time(&now, date);

    let date = try_parse_date("Yesterday", &date_formats);
    compare_without_time(&(now - Duration::days(1)), date);

    let date = try_parse_date("Last week", &date_formats);
    compare_without_time(&(now - Duration::weeks(1)), date);

    let date = try_parse_date(&now.format("%Y-%m-%dT%H:%M:%S%.3fZ").to_string(), &date_formats);
    compare_without_time(&now, date);

    let date = try_parse_date(&now.to_rfc3339(), &date_formats);
    compare_without_time(&now, date);

    let date = try_parse_date(&now.format("%Y-%m-%dT%H:%M:%SZ").to_string(), &date_formats);
    compare_without_time(&now, date);

    let date = try_parse_date(&now.format("%Y-%m-%dT%H:%M:%S").to_string(), &date_formats);
    compare_without_time(&now, date);

    let date = try_parse_date(&now.format("%B %e, %Y").to_string(), &date_formats);
    compare_without_time(&now, date);

    let date = try_parse_date(&now.format("%B %e, %Y").to_string(), &date_formats);
    compare_without_time(&now, date);

    let date = try_parse_date(&now.format("%erd %B %Y").to_string(), &date_formats);
    compare_without_time(&now, date);

    let date = try_parse_date(&now.format("%eth %B %Y").to_string(), &date_formats);
    compare_without_time(&now, date);

    let date = try_parse_date(&now.format("%est %B %Y").to_string(), &date_formats);
    compare_without_time(&now, date);

    let date = try_parse_date(&now.format("%end %B %Y").to_string(), &date_formats);
    compare_without_time(&now, date);

    let date = try_parse_date(&now.format("%B %d %y - %H:%M").to_string(), &date_formats);
    compare_without_time(&now, date);

    let date = try_parse_date(&now.format("%B %d %Y - %H:%M").to_string(), &date_formats);
    compare_without_time(&now, date);

    let date = try_parse_date(&now.format("%B %d, %Y").to_string(), &date_formats);
    compare_without_time(&now, date);

    let date = try_parse_date("about 1 Weeks ago!", &date_formats);
    compare_without_time(&(now - Duration::weeks(1)), date);

    let date = try_parse_date("15 Week", &date_formats);
    compare_without_time(&(now - Duration::weeks(15)), date);

    let date = try_parse_date("like 2 minutes ago", &date_formats);
    compare_without_time(&(now - Duration::minutes(2)), date);

    let date = try_parse_date("2 days ago", &date_formats);
    compare_without_time(&(now - Duration::days(2)), date);

    let date = try_parse_date("Release 2 month ago", &date_formats);
    compare_without_time(&now.checked_sub_months(Months::new(2)).unwrap(), date);

    let date = try_parse_date("2 years", &date_formats);
    compare_without_time(&now.checked_sub_months(Months::new(24)).unwrap(), date);

    let date = try_parse_date(&now.format("%b %d, %R").to_string(), &date_formats);
    compare_without_time(&now, date);
}

#[test]
fn test_dates() {
    let date = try_parse_date("18 April، 2022", &vec!["%d %B، %Y".to_string()]);
    println!("date: {:?}", date);

    let date = try_parse_date("an hour ago", &vec!["%d %B، %Y".to_string()]);
    println!("date: {:?}", date);
}

#[test]
fn epoch_millis_round_trip() {
    // a pure-digit string equal to a known millisecond timestamp parses
    // to the corresponding instant
    let date = try_parse_date("1700000000000", &vec![]);
    assert_eq!(date, Some(1700000000000));

    let overflowing = "99999999999999999999999999";
    assert_eq!(try_parse_date(overflowing, &vec![]), None);
}

#[test]
fn relative_dates_subtract_from_now() {
    let now = Utc::now();
    compare_without_time(
        &(now - Duration::days(2)),
        try_parse_date("2 days ago", &vec![]),
    );
    compare_without_time(
        &(now - Duration::weeks(15)),
        try_parse_date("15 Week", &vec![]),
    );
    compare_without_time(
        &(now - Duration::minutes(2)),
        try_parse_date("like 2 minutes ago", &vec![]),
    );
}

#[test]
fn blank_dates_are_absent() {
    assert_eq!(try_parse_date("", &vec![]), None);
    assert_eq!(try_parse_date("   ", &vec![]), None);
    assert_eq!(try_parse_date("\t\n", &vec![]), None);
    assert_eq!(try_parse_date("no date here at all", &vec![]), None);
}
