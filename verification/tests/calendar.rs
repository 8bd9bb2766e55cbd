use relay_wright::calendar::iso_date_from_days_since_epoch;

#[test]
fn iso_date_round_trips_known_epoch_days() {
    assert_eq!(iso_date_from_days_since_epoch(0), "1970-01-01");
    assert_eq!(iso_date_from_days_since_epoch(1), "1970-01-02");
    assert_eq!(iso_date_from_days_since_epoch(-1), "1969-12-31");
}

#[test]
fn iso_date_handles_leap_days_and_centuries() {
    assert_eq!(iso_date_from_days_since_epoch(11_016), "2000-02-29");
    assert_eq!(iso_date_from_days_since_epoch(11_017), "2000-03-01");
    assert_eq!(iso_date_from_days_since_epoch(-25_508), "1900-03-01");
    assert_eq!(iso_date_from_days_since_epoch(-25_509), "1900-02-28");
    assert_eq!(iso_date_from_days_since_epoch(19_723), "2024-01-01");
    assert_eq!(iso_date_from_days_since_epoch(2_932_896), "9999-12-31");
}

#[test]
fn iso_date_pads_small_and_negative_years() {
    assert_eq!(iso_date_from_days_since_epoch(-719_162), "0001-01-01");
    assert_eq!(iso_date_from_days_since_epoch(-719_163), "0000-12-31");
    assert_eq!(iso_date_from_days_since_epoch(-719_529), "-001-12-31");
    assert_eq!(iso_date_from_days_since_epoch(2_932_897), "10000-01-01");
}
