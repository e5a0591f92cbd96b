use bedrock::world_browser::{civil_from_days, format_last_played};

#[test]
fn civil_from_days_matches_known_dates() {
    assert_eq!(civil_from_days(0), (1970, 1, 1));
    // 1_700_000_000 s = 2023-11-14 (UTC).
    assert_eq!(civil_from_days(1_700_000_000 / 86_400), (2023, 11, 14));
}

#[test]
fn last_played_formats_and_handles_absent() {
    assert_eq!(format_last_played(None), "never played");
    assert_eq!(format_last_played(Some(0)), "never played");
    assert_eq!(format_last_played(Some(1_700_000_000_000)), "2023-11-14");
}

#[test]
fn civil_dates_cross_leap_days_and_the_epoch() {
    assert_eq!(civil_from_days(-1), (1969, 12, 31));
    assert_eq!(civil_from_days(59), (1970, 3, 1));
    assert_eq!(civil_from_days(11_016), (2000, 2, 29));
    assert_eq!(civil_from_days(-719_468), (0, 3, 1));
    assert_eq!(format_last_played(Some(86_400_000 * 11_016 + 5)), "2000-02-29");
    assert_eq!(format_last_played(Some(-5)), "never played");
}
