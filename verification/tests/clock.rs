use fridge_monitor::clock::{time_label, CivilTime};

fn time(year: i32, month: u32, day: u32, hour: u32, minute: u32, second: u32) -> CivilTime {
    CivilTime { year, month, day, hour, minute, second }
}

fn label(time: CivilTime) -> Option<String> {
    time_label(&time)
}

#[test]
fn times_are_written_in_full() {
    assert_eq!(label(time(2024, 5, 6, 7, 8, 9)).unwrap(), "2024-05-06 07:08:09");
    assert_eq!(label(time(1999, 12, 31, 23, 59, 59)).unwrap(), "1999-12-31 23:59:59");
    assert_eq!(label(time(2000, 10, 10, 0, 0, 0)).unwrap(), "2000-10-10 00:00:00");
}

#[test]
fn years_have_at_least_four_digits() {
    assert_eq!(label(time(0, 1, 1, 0, 0, 0)).unwrap(), "0000-01-01 00:00:00");
    assert_eq!(label(time(33, 1, 1, 0, 0, 0)).unwrap(), "0033-01-01 00:00:00");
    assert_eq!(label(time(9999, 1, 1, 0, 0, 0)).unwrap(), "9999-01-01 00:00:00");
    assert_eq!(label(time(10000, 1, 1, 0, 0, 0)).unwrap(), "+10000-01-01 00:00:00");
    assert_eq!(label(time(262142, 1, 1, 0, 0, 0)).unwrap(), "+262142-01-01 00:00:00");
    assert_eq!(label(time(-1, 1, 1, 0, 0, 0)).unwrap(), "-0001-01-01 00:00:00");
    assert_eq!(label(time(-262143, 1, 1, 0, 0, 0)).unwrap(), "-262143-01-01 00:00:00");
}

#[test]
fn leap_days_exist_in_leap_years() {
    assert_eq!(label(time(2024, 2, 29, 0, 0, 0)).unwrap(), "2024-02-29 00:00:00");
    assert_eq!(label(time(2000, 2, 29, 0, 0, 0)).unwrap(), "2000-02-29 00:00:00");
    assert_eq!(label(time(-4, 2, 29, 0, 0, 0)).unwrap(), "-0004-02-29 00:00:00");
    assert_eq!(label(time(1900, 2, 29, 0, 0, 0)), None);
    assert_eq!(label(time(2023, 2, 29, 0, 0, 0)), None);
}

#[test]
fn times_that_do_not_exist_have_no_label() {
    assert_eq!(label(time(2024, 0, 1, 0, 0, 0)), None);
    assert_eq!(label(time(2024, 13, 1, 0, 0, 0)), None);
    assert_eq!(label(time(2024, 1, 0, 0, 0, 0)), None);
    assert_eq!(label(time(2024, 4, 31, 0, 0, 0)), None);
    assert_eq!(label(time(2024, 1, 32, 0, 0, 0)), None);
    assert_eq!(label(time(2024, 1, 1, 24, 0, 0)), None);
    assert_eq!(label(time(2024, 1, 1, 0, 60, 0)), None);
    assert_eq!(label(time(2024, 1, 1, 0, 0, 60)), None);
    assert_eq!(label(time(262143, 1, 1, 0, 0, 0)), None);
    assert_eq!(label(time(-262144, 1, 1, 0, 0, 0)), None);
}
