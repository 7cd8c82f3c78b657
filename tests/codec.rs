use trash_utils::{LocalDateTime, TrashErrorKind, TrashInfo};

fn date(y: i32, mo: u32, d: u32, h: u32, mi: u32, s: u32) -> LocalDateTime {
    LocalDateTime::new(y, mo, d, h, mi, s).unwrap()
}

fn sample() -> TrashInfo {
    TrashInfo {
        original_path: "/asdf/123".to_string(),
        deletion_date: date(2014, 7, 8, 9, 10, 11),
    }
}

#[test]
fn lib_test_trash_info_parsing() {
    let trash_info = sample();
    let trash_info_to_str = "[Trash Info]\nPath=/asdf/123\nDeletionDate=2014-07-08T09:10:11";
    assert_eq!(trash_info, trash_info_to_str.parse::<TrashInfo>().unwrap());
}

#[test]
fn trash_test_trash_info_parsing() {
    let trash_info = sample();
    let trash_info_to_str = "[Trash Info]\nPath=/asdf/123\nDeletionDate=2014-07-08T09:10:11";
    assert_eq!(trash_info, TrashInfo::parse(trash_info_to_str).unwrap());
}

#[test]
fn lib_test_trash_info_display() {
    let trash_info = sample();
    let trash_info_to_str = "[Trash Info]\nPath=/asdf/123\nDeletionDate=2014-07-08T09:10:11";
    assert_eq!(trash_info.to_string(), trash_info_to_str);
}

#[test]
fn trash_test_trash_info_display() {
    let trash_info = TrashInfo {
        original_path: "/asdf/123".to_string(),
        deletion_date: date(2014, 7, 8, 9, 10, 11),
    };
    assert_eq!(
        trash_info.to_string(),
        "[Trash Info]\nPath=/asdf/123\nDeletionDate=2014-07-08T09:10:11"
    );
}

#[test]
fn round_trip_with_and_without_final_line_feed() {
    let info = TrashInfo {
        original_path: "/home/user/notes with spaces/été.txt".to_string(),
        deletion_date: date(2024, 2, 29, 23, 59, 59),
    };
    let text = info.to_string();
    assert_eq!(TrashInfo::parse(&text), Some(info.clone()));
    let with_lf = format!("{}\n", text);
    assert_eq!(TrashInfo::parse(&with_lf), Some(info));
}

#[test]
fn round_trip_of_small_year_pads_digits() {
    let info = TrashInfo {
        original_path: "/x".to_string(),
        deletion_date: date(7, 1, 2, 3, 4, 5),
    };
    assert_eq!(info.to_string(), "[Trash Info]\nPath=/x\nDeletionDate=0007-01-02T03:04:05");
    assert_eq!(TrashInfo::parse(&info.to_string()), Some(info));
}

#[test]
fn parse_rejects_malformed_records() {
    let bad = [
        "",
        "[Trash Info]\nPath=/a\n",
        "[Trash  Info]\nPath=/a\nDeletionDate=2014-07-08T09:10:11",
        "[Trash Info]\nPat=/a\nDeletionDate=2014-07-08T09:10:11",
        "[Trash Info]\nPath=/a\nDeletion=2014-07-08T09:10:11",
        "[Trash Info]\nPath=/a\nDeletionDate=2014-07-08 09:10:11",
        "[Trash Info]\nPath=/a\nDeletionDate=2014-07-08T09:10:11.5",
        "[Trash Info]\nPath=/a\nDeletionDate=2014-07-08T09:10:11+02:00",
        "[Trash Info]\nPath=/a\nDeletionDate=2014-13-08T09:10:11",
        "[Trash Info]\nPath=/a\nDeletionDate=2023-02-29T09:10:11",
        "[Trash Info]\nPath=/a\nDeletionDate=2014-07-08T24:10:11",
        "[Trash Info]\nPath=/a\nDeletionDate=2014-07-08T09:60:11",
        "[Trash Info]\nPath=/a\nDeletionDate=2014-07-08T09:10:60",
        "[Trash Info]\nPath=/a\nDeletionDate=2014-7-08T09:10:11",
        "[Trash Info]\nPath=/a\nDeletionDate=2014-07-08T09:10:11\n\n",
        "[Trash Info]\nPath=/a\nDeletionDate=2014-07-08T09:10:1x",
    ];
    for text in bad.iter() {
        assert_eq!(TrashInfo::parse(text), None, "accepted {:?}", text);
    }
}

#[test]
fn from_str_error_is_parse_error() {
    let err = "nonsense".parse::<TrashInfo>().unwrap_err();
    assert_eq!(
        err.kind(),
        &TrashErrorKind::ParseTrashInfoError("nonsense".to_string())
    );
}

#[test]
fn parse_accepts_leap_day() {
    let info =
        TrashInfo::parse("[Trash Info]\nPath=/a\nDeletionDate=2000-02-29T00:00:00\n").unwrap();
    assert_eq!(info.original_path, "/a");
    assert_eq!(info.deletion_date, date(2000, 2, 29, 0, 0, 0));
}

#[test]
fn local_date_time_validity() {
    assert!(LocalDateTime::new(2023, 2, 29, 0, 0, 0).is_none());
    assert!(LocalDateTime::new(2024, 2, 29, 0, 0, 0).is_some());
    assert!(LocalDateTime::new(1900, 2, 29, 0, 0, 0).is_none());
    assert!(LocalDateTime::new(2024, 4, 31, 0, 0, 0).is_none());
    assert!(LocalDateTime::new(2024, 0, 1, 0, 0, 0).is_none());
    assert!(LocalDateTime::new(2024, 1, 1, 24, 0, 0).is_none());
    assert!(LocalDateTime::new(10000, 1, 1, 0, 0, 0).is_none());
    let d = date(2014, 7, 8, 9, 10, 11);
    assert_eq!(
        (d.year(), d.month(), d.day(), d.hour(), d.minute(), d.second()),
        (2014, 7, 8, 9, 10, 11)
    );
}

#[test]
fn day_count_between_dates() {
    let a = date(2024, 3, 1, 12, 0, 0);
    assert_eq!(a.days_until(&date(2024, 3, 11, 12, 0, 0)), 10);
    assert_eq!(a.days_until(&date(2024, 3, 11, 11, 59, 59)), 9);
    assert_eq!(a.days_until(&date(2025, 3, 1, 12, 0, 0)), 365);
    assert_eq!(date(2023, 3, 1, 0, 0, 0).days_until(&date(2024, 3, 1, 0, 0, 0)), 366);
    assert_eq!(a.days_until(&date(2024, 2, 20, 12, 0, 0)), -10);
    assert_eq!(a.days_until(&date(2024, 2, 29, 12, 0, 1)), 0);
    assert_eq!(date(1970, 1, 1, 0, 0, 0).seconds() - date(1, 1, 1, 0, 0, 0).seconds(), 719162 * 86400);
}
