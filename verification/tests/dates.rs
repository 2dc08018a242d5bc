use o3_manager::dates::{
    days_from_unix_seconds, days_to_ymd, month_abbrev, o3_label, o3_label_for, thursday_options,
    thursday_options_for, today_days,
};
use std::time::{SystemTime, UNIX_EPOCH};

#[test]
fn days_to_ymd_epoch() {
    assert_eq!(days_to_ymd(0), (1970, 1, 1));
}

#[test]
fn days_to_ymd_day_before_epoch() {
    assert_eq!(days_to_ymd(-1), (1969, 12, 31));
}

#[test]
fn days_to_ymd_known_days() {
    assert_eq!(days_to_ymd(19358), (2023, 1, 1));
    assert_eq!(days_to_ymd(19782), (2024, 2, 29));
    assert_eq!(days_to_ymd(11017), (2000, 3, 1));
    assert_eq!(days_to_ymd(-25508), (1900, 3, 1));
    assert_eq!(days_to_ymd(47540), (2100, 2, 28));
    assert_eq!(days_to_ymd(20000), (2024, 10, 4));
    assert_eq!(days_to_ymd(-100000), (1696, 3, 17));
    assert_eq!(days_to_ymd(2932896), (9999, 12, 31));
}

#[test]
fn days_to_ymd_era_start_and_leap_year_zero() {
    assert_eq!(days_to_ymd(-719468), (0, 3, 1));
    assert_eq!(days_to_ymd(-719469), (0, 2, 29));
}

#[test]
fn days_to_ymd_largest_accepted_day() {
    // far beyond the range of i32 years: the year is truncated, month and day are exact
    let (_, month, day) = days_to_ymd(i64::MAX - 719468);
    assert!((1..=12).contains(&month));
    assert!((1..=31).contains(&day));
}

#[test]
fn days_from_unix_seconds_whole_days() {
    assert_eq!(days_from_unix_seconds(0), 0);
    assert_eq!(days_from_unix_seconds(86399), 0);
    assert_eq!(days_from_unix_seconds(86400), 1);
    assert_eq!(days_from_unix_seconds(1_700_000_000), 19675);
}

#[test]
fn today_days_follows_the_clock() {
    let before = SystemTime::now().duration_since(UNIX_EPOCH).unwrap().as_secs() / 86400;
    let today = today_days();
    let after = SystemTime::now().duration_since(UNIX_EPOCH).unwrap().as_secs() / 86400;
    assert!(before as i64 <= today && today <= after as i64);
}

#[test]
fn thursday_options_around_the_epoch() {
    assert_eq!(thursday_options_for(0), vec![-14, -7, 0, 7, 14, 21, 28, 35]);
    // 1970-01-04 was a Sunday: its week's Thursday is day 0
    assert_eq!(thursday_options_for(3), vec![-14, -7, 0, 7, 14, 21, 28, 35]);
    assert_eq!(thursday_options_for(7), vec![-7, 0, 7, 14, 21, 28, 35, 42]);
}

#[test]
fn thursday_options_are_thursdays_a_week_apart() {
    let today = 19999;
    let options = thursday_options_for(today);
    assert_eq!(options.len(), 8);
    for d in &options {
        assert_eq!(d % 7, 0);
    }
    for w in options.windows(2) {
        assert_eq!(w[1] - w[0], 7);
    }
    assert!(options[2] <= today && today < options[2] + 7);
}

#[test]
fn thursday_options_today() {
    let options = thursday_options();
    let today = today_days();
    assert_eq!(options.len(), 8);
    assert!(options[2] <= today && today < options[2] + 7);
}

#[test]
fn month_abbrev_names() {
    assert_eq!(month_abbrev(1), "Jan");
    assert_eq!(month_abbrev(5), "May");
    assert_eq!(month_abbrev(12), "Dec");
}

#[test]
fn o3_label_suffixes() {
    assert_eq!(o3_label_for(0, 0), "Thu Jan 1 (Today!)");
    assert_eq!(o3_label_for(0, 1), "Thu Jan 1 (past)");
    assert_eq!(o3_label_for(19782, 19000), "Thu Feb 29");
    assert_eq!(o3_label_for(20000, 20001), "Thu Oct 4 (past)");
}

#[test]
fn o3_label_uses_today() {
    let today = today_days();
    let label = o3_label(today + 7);
    assert!(label.starts_with("Thu "));
    assert!(!label.contains("(past)") && !label.contains("(Today!)"));
}
