use osl::calendar::{civil_from_days, days_from_civil, format_date, Date};
use osl::connector::opencode::{chrono_from_unix, ms_to_iso};
use osl::error::OslError;
use osl::recency::{today_ymd, FileTime, RecencyFilter};

#[test]
fn ms_to_iso_reused_from_opencode() {
    let iso = ms_to_iso(1780251875000);
    assert!(iso.starts_with("2026-"));
    assert!(iso.ends_with("Z"));
}

#[test]
fn ms_conversion_is_correct() {
    let iso = ms_to_iso(1780251875000);
    assert!(iso.starts_with("2026-"));
    assert!(iso.ends_with("Z"));
    assert!(iso.contains('T'));

    assert_eq!(ms_to_iso(0), "1970-01-01T00:00:00.000Z");
}

#[test]
fn ms_conversion_is_exact() {
    assert_eq!(ms_to_iso(1780251875000), "2026-05-31T18:24:35.000Z");
    assert_eq!(ms_to_iso(1780258945039), "2026-05-31T20:22:25.039Z");
    assert_eq!(ms_to_iso(951782400001), "2000-02-29T00:00:00.001Z");
}

#[test]
fn seconds_are_written_out() {
    assert_eq!(chrono_from_unix(0), "1970-01-01T00:00:00");
    assert_eq!(chrono_from_unix(86399), "1970-01-01T23:59:59");
}

#[test]
fn none_is_inactive() {
    let f = RecencyFilter::none();
    assert!(!f.is_active());
    assert_eq!(f.since_date(), None);
    assert_eq!(f.since_unix(), None);
}

#[test]
fn recency_and_since_are_mutually_exclusive() {
    let err = RecencyFilter::from_flags(Some(30), Some("2026-06-01".into()), 1_800_000_000);
    assert!(err.is_err());
    let msg = err.unwrap_err().to_string();
    assert!(msg.contains("mutually exclusive"), "got: {msg}");
}

#[test]
fn recency_and_since_neither_is_none() {
    let f = RecencyFilter::from_flags(None, None, 1_800_000_000).unwrap();
    assert!(!f.is_active());
}

#[test]
fn recency_zero_errors() {
    let err = RecencyFilter::from_flags(Some(0), None, 1_800_000_000);
    assert!(err.is_err());
}

#[test]
fn recency_30_floors_to_midnight_minus_30_days() {
    let now = 1_798_764_496_i64;
    let f = RecencyFilter::from_flags(Some(30), None, now).unwrap();
    assert_eq!(f.since_date(), Some("2026-12-02"));
    assert_eq!(f.since_unix(), Some(1_796_169_600));
}

#[test]
fn since_valid_date_parses_to_midnight_utc() {
    let f = RecencyFilter::from_flags(None, Some("2026-06-01".into()), 0).unwrap();
    assert!(f.is_active());
    assert_eq!(f.since_date(), Some("2026-06-01"));
    assert_eq!(f.since_unix(), Some(1_780_272_000));
}

#[test]
fn since_rejects_bad_format() {
    assert!(RecencyFilter::from_flags(None, Some("2026/06/01".into()), 0).is_err());
    assert!(RecencyFilter::from_flags(None, Some("2026-6-1".into()), 0).is_err());
    assert!(RecencyFilter::from_flags(None, Some("garbage".into()), 0).is_err());
    assert!(RecencyFilter::from_flags(None, Some("2026-13-01".into()), 0).is_err());
    assert!(RecencyFilter::from_flags(None, Some("2026-06-32".into()), 0).is_err());
}

#[test]
fn since_rejects_days_that_do_not_exist() {
    for date in ["2026-02-31", "2026-02-29", "2026-04-31", "2026-00-10", "2026-01-00", "1900-02-29"] {
        match RecencyFilter::from_flags(None, Some(date.to_string()), 0) {
            Err(OslError::Usage(m)) => {
                assert_eq!(m, format!("--since date out of range: '{date}'"))
            }
            _ => panic!("expected an error for {date}"),
        }
    }
    for date in ["2024-02-29", "2000-02-29", "2026-04-30", "2026-12-31"] {
        let f = RecencyFilter::from_flags(None, Some(date.to_string()), 0).unwrap();
        assert_eq!(today_ymd(f.since_unix().unwrap()), date);
    }
}

#[test]
fn filters_can_be_compared() {
    let since = |s: &str| RecencyFilter::from_flags(None, Some(s.to_string()), 0).unwrap();
    assert_eq!(since("2026-06-01"), since("2026-06-01"));
    assert_ne!(since("2026-06-01"), since("2026-06-02"));
    assert_ne!(since("2026-06-01"), RecencyFilter::none());
}

#[test]
fn since_errors_are_usage_errors() {
    let bad = RecencyFilter::from_flags(None, Some("2026-13-01".into()), 0);
    assert!(matches!(bad, Err(OslError::Usage(_))));
    let both = RecencyFilter::from_flags(Some(1), Some("2026-01-01".into()), 0);
    assert!(matches!(both, Err(OslError::Usage(_))));
}

#[test]
fn keep_file_unfiltered_always_true() {
    let f = RecencyFilter::none();
    assert!(f.keep_file(FileTime::Unknown));
    assert!(f.keep_file(FileTime::BeforeEpoch));
    assert!(f.keep_file(FileTime::At(0)));
}

#[test]
fn keep_file_respects_cutoff() {
    let now = 1_798_764_496_i64;
    let old = now - 60 * 86400;
    let f = RecencyFilter::from_flags(Some(30), None, now).unwrap();
    assert!(!f.keep_file(FileTime::At(old as u64)));
    assert!(f.keep_file(FileTime::At(now as u64)));
    assert!(f.keep_file(FileTime::At(1_796_169_600)));
    assert!(!f.keep_file(FileTime::At(1_796_169_599)));
    assert!(!f.keep_file(FileTime::BeforeEpoch));
    assert!(f.keep_file(FileTime::Unknown));
}

#[test]
fn today_is_the_date_of_now() {
    assert_eq!(today_ymd(1_798_764_496), "2027-01-01");
    assert_eq!(today_ymd(0), "1970-01-01");
}

#[test]
fn dates_and_days_stand_for_each_other() {
    assert_eq!(days_from_civil(Date { year: 1970, month: 1, day: 1 }), 0);
    assert_eq!(days_from_civil(Date { year: 2000, month: 2, day: 29 }), 11016);
    let date = civil_from_days(11016);
    assert_eq!(format_date(date), "2000-02-29");
    assert_eq!(format_date(Date { year: 2026, month: 6, day: 1 }), "2026-06-01");
    for day in [-719468i64, -1, 0, 59, 60, 365, 20606] {
        let d = civil_from_days(day);
        assert_eq!(days_from_civil(d), day);
    }
}

#[test]
fn since_date_round_trips() {
    let f = RecencyFilter::from_flags(None, Some("2024-02-29".into()), 0).unwrap();
    let midnight = f.since_unix().unwrap();
    assert_eq!(today_ymd(midnight), "2024-02-29");
    assert_eq!(today_ymd(midnight - 1), "2024-02-28");
}
