use chrono::{DateTime, Utc};
use ping_monitor::timestamp::{
    Timestamp, FIRST_RFC3339_SECS, LAST_RFC3339_SECS, MAX_SECS, MIN_SECS,
};

#[test]
fn range_is_that_of_utc_date_times() {
    assert_eq!(MIN_SECS, DateTime::<Utc>::MIN_UTC.timestamp());
    assert_eq!(MAX_SECS, DateTime::<Utc>::MAX_UTC.timestamp());
    assert_eq!(DateTime::<Utc>::MIN_UTC.timestamp_subsec_nanos(), 0);
    assert_eq!(DateTime::<Utc>::MAX_UTC.timestamp_subsec_nanos(), 999_999_999);
}

#[test]
fn earliest_is_the_minimum_date_time() {
    let t = Timestamp::earliest();
    assert_eq!(t.secs(), DateTime::<Utc>::MIN_UTC.timestamp());
    assert_eq!(t.nanos(), 0);
    assert_eq!(Some(t), Timestamp::new(MIN_SECS, 0));
}

#[test]
fn new_accepts_what_chrono_accepts() {
    let secs = [
        MIN_SECS - 1,
        MIN_SECS,
        MIN_SECS + 59,
        FIRST_RFC3339_SECS,
        -61,
        -60,
        -1,
        0,
        59,
        60,
        1_704_067_200,
        1_704_067_259,
        LAST_RFC3339_SECS,
        MAX_SECS - 1,
        MAX_SECS,
        MAX_SECS + 1,
        i64::MIN,
        i64::MAX,
    ];
    let nanos = [0, 1, 999_999_999, 1_000_000_000, 1_999_999_999, 2_000_000_000, u32::MAX];
    for s in secs {
        for n in nanos {
            let ours = Timestamp::new(s, n);
            let theirs = DateTime::from_timestamp(s, n);
            assert_eq!(ours.is_some(), theirs.is_some(), "{} {}", s, n);
            if let Some(t) = ours {
                assert_eq!(t.secs(), s);
                assert_eq!(t.nanos(), n);
            }
        }
    }
}

#[test]
fn new_refuses_out_of_range() {
    assert_eq!(Timestamp::new(MIN_SECS - 1, 0), None);
    assert_eq!(Timestamp::new(MAX_SECS + 1, 0), None);
    assert_eq!(Timestamp::new(0, 2_000_000_000), None);
    assert_eq!(Timestamp::new(0, 1_000_000_000), None);
    assert_eq!(Timestamp::new(-2, 1_000_000_000), None);
    assert!(Timestamp::new(-1, 1_000_000_000).is_some());
    assert!(Timestamp::new(59, 1_999_999_999).is_some());
}

#[test]
fn rfc3339_text_of_known_instants() {
    let text = |s: i64, n: u32| Timestamp::new(s, n).unwrap().to_rfc3339();
    assert_eq!(text(0, 0), "1970-01-01T00:00:00Z");
    assert_eq!(text(1_431_648_000, 0), "2015-05-15T00:00:00Z");
    assert_eq!(text(1_516_991_409, 453_000_000), "2018-01-26T18:30:09.453Z");
    assert_eq!(text(1_516_991_409, 453_829_000), "2018-01-26T18:30:09.453829Z");
    assert_eq!(text(1_516_991_409, 453_829_001), "2018-01-26T18:30:09.453829001Z");
    assert_eq!(text(FIRST_RFC3339_SECS, 0), "0000-01-01T00:00:00Z");
    assert_eq!(text(LAST_RFC3339_SECS, 0), "9999-12-31T23:59:59Z");
    assert_eq!(text(LAST_RFC3339_SECS, 1_000_000_000), "9999-12-31T23:59:60Z");
    assert_eq!(text(MAX_SECS, 999_999_999), "+262142-12-31T23:59:59.999999999Z");
    assert_eq!(text(MIN_SECS, 0), "-262143-01-01T00:00:00Z");
}

#[test]
fn rfc3339_text_is_what_the_date_time_writes() {
    for (s, n) in [(0i64, 0u32), (1_704_067_200, 5), (-1, 999_000_000), (MAX_SECS, 1)] {
        let ours = Timestamp::new(s, n).unwrap().to_rfc3339();
        let theirs = DateTime::from_timestamp(s, n)
            .unwrap()
            .to_rfc3339_opts(chrono::SecondsFormat::AutoSi, true);
        assert_eq!(ours, theirs);
    }
}

#[test]
fn rfc3339_round_trip_in_four_digit_years() {
    let secs = [
        FIRST_RFC3339_SECS,
        FIRST_RFC3339_SECS + 1,
        -86_401,
        -1,
        0,
        951_782_399,
        951_782_400,
        1_704_067_200,
        4_102_444_799,
        LAST_RFC3339_SECS - 1,
        LAST_RFC3339_SECS,
    ];
    let nanos = [0u32, 1, 1_000, 999_000, 1_000_000, 123_456_789, 500_000_000, 999_999_999];
    for s in secs {
        for n in nanos {
            let t = Timestamp::new(s, n).unwrap();
            assert_eq!(Timestamp::parse_rfc3339(&t.to_rfc3339()), Some(t), "{} {}", s, n);
        }
    }
}

#[test]
fn rfc3339_round_trip_of_leap_seconds() {
    for s in [FIRST_RFC3339_SECS + 59, -1, 59, 1_483_228_799, LAST_RFC3339_SECS] {
        for n in [1_000_000_000u32, 1_000_000_001, 1_250_000_000, 1_999_999_999] {
            let t = Timestamp::new(s, n).unwrap();
            assert_eq!(Timestamp::parse_rfc3339(&t.to_rfc3339()), Some(t), "{} {}", s, n);
        }
    }
}

#[test]
fn rfc3339_round_trip_over_many_instants() {
    let span = (LAST_RFC3339_SECS - FIRST_RFC3339_SECS) as u64 + 1;
    let mut state: u64 = 0x9E37_79B9_7F4A_7C15;
    for _ in 0..20_000 {
        state = state.wrapping_mul(6_364_136_223_846_793_005).wrapping_add(1_442_695_040_888_963_407);
        let s = FIRST_RFC3339_SECS + ((state >> 11) % span) as i64;
        state = state.wrapping_mul(6_364_136_223_846_793_005).wrapping_add(1_442_695_040_888_963_407);
        let n = ((state >> 33) % 1_000_000_000) as u32;
        let t = Timestamp::new(s, n).unwrap();
        assert_eq!(Timestamp::parse_rfc3339(&t.to_rfc3339()), Some(t), "{} {}", s, n);
    }
}

#[test]
fn parse_reads_any_offset_as_utc() {
    let t = Timestamp::new(851_042_397, 0).unwrap();
    assert_eq!(Timestamp::parse_rfc3339("1996-12-19T16:39:57-08:00"), Some(t));
    assert_eq!(Timestamp::parse_rfc3339("1996-12-20T00:39:57Z"), Some(t));
    assert_eq!(Timestamp::parse_rfc3339("1996-12-20 00:39:57+00:00"), Some(t));
}

#[test]
fn parse_refuses_what_is_not_rfc3339() {
    for text in ["", "now", "1996-12-19", "1996-12-19T16:39:57", "+10000-01-01T00:00:00Z",
        "-262143-01-01T00:00:00Z", "1996-13-19T16:39:57Z", " 1996-12-19T16:39:57Z"] {
        assert_eq!(Timestamp::parse_rfc3339(text), None, "{:?}", text);
    }
}
