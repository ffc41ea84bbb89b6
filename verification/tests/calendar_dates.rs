use to_pdf::calendar::{civil_from_days, today_from};

#[test]
fn epoch_day_is_epoch_date() {
    let d = civil_from_days(0).unwrap();
    assert_eq!((d.year, d.month, d.day), (1970, 1, 1));
}

#[test]
fn day_before_epoch() {
    let d = civil_from_days(-1).unwrap();
    assert_eq!((d.year, d.month, d.day), (1969, 12, 31));
}

#[test]
fn leap_day_of_twenty_twenty_four() {
    let d = civil_from_days(19782).unwrap();
    assert_eq!((d.year, d.month, d.day), (2024, 2, 29));
}

#[test]
fn far_days_are_unrepresentable() {
    assert!(civil_from_days(5_000_000).is_none());
    assert!(civil_from_days(-5_000_000).is_none());
}

#[test]
fn today_at_fixed_instant_offset_zero() {
    // 2024-03-10T23:30:00Z
    let d = today_from(1_710_113_400, 0).unwrap();
    assert_eq!((d.year, d.month, d.day), (2024, 3, 10));
}

#[test]
fn today_at_fixed_instant_offset_one_crosses_midnight() {
    let d = today_from(1_710_113_400, 1).unwrap();
    assert_eq!((d.year, d.month, d.day), (2024, 3, 11));
}

#[test]
fn today_rejects_out_of_range_offsets() {
    assert!(today_from(1_710_113_400, 24).is_none());
    assert!(today_from(1_710_113_400, -24).is_none());
    assert!(today_from(1_710_113_400, 300).is_none());
}

#[test]
fn today_negative_offset() {
    // 2024-03-11T00:30:00Z, one hour west is still 2024-03-10
    let d = today_from(1_710_117_000, -1).unwrap();
    assert_eq!((d.year, d.month, d.day), (2024, 3, 10));
}
