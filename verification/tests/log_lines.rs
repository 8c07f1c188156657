use ping_monitor::entry::PingEntry;
use ping_monitor::logline::{format_line, parse_line};
use ping_monitor::timestamp::Timestamp;

fn entry(ping: u32, secs: i64, nanos: u32) -> PingEntry {
    PingEntry::new(ping, Timestamp::new(secs, nanos).expect("a valid instant"))
}

#[test]
fn line_of_a_whole_second() {
    let e = entry(15, 1_704_067_200, 0);
    assert_eq!(format_line(&e), "2024-01-01T00:00:00Z, 15\n");
}

#[test]
fn line_with_milliseconds() {
    let e = entry(0, 1_704_067_200, 250_000_000);
    assert_eq!(format_line(&e), "2024-01-01T00:00:00.250Z, 0\n");
}

#[test]
fn line_with_microseconds() {
    let e = entry(7, 1_704_067_200, 250_001_000);
    assert_eq!(format_line(&e), "2024-01-01T00:00:00.250001Z, 7\n");
}

#[test]
fn line_with_nanoseconds() {
    let e = entry(4_294_967_295, 1_704_067_200, 1);
    assert_eq!(format_line(&e), "2024-01-01T00:00:00.000000001Z, 4294967295\n");
}

#[test]
fn line_of_the_empty_entry_has_a_signed_year() {
    assert_eq!(format_line(&PingEntry::empty()), "-262143-01-01T00:00:00Z, 0\n");
}

#[test]
fn logged_line_parses_back() {
    let cases = [
        (15u32, 1_704_067_200i64, 0u32),
        (0, 0, 0),
        (1, -1, 999_999_999),
        (4_294_967_295, 1_718_000_123, 123_456_789),
        (10, 1_718_000_123, 123_456_000),
        (100, 1_718_000_123, 123_000_000),
        (9, -62_167_219_200, 0),
        (9, 253_402_300_799, 999_999_999),
        (9, 253_402_300_799, 1_999_999_999),
        (3, 1_483_228_799, 1_500_000_000),
    ];
    for (ping, secs, nanos) in cases {
        let e = entry(ping, secs, nanos);
        let line = format_line(&e);
        assert_eq!(parse_line(&line), Some(e), "{}", line);
        assert_eq!(parse_line(line.trim_end_matches('\n')), Some(e));
    }
}

#[test]
fn line_outside_four_digit_years_does_not_parse_back() {
    assert_eq!(parse_line(&format_line(&PingEntry::empty())), None);
    let e = entry(1, 253_402_300_800, 0);
    assert_eq!(format_line(&e), "+10000-01-01T00:00:00Z, 1\n");
    assert_eq!(parse_line(&format_line(&e)), None);
}

#[test]
fn parse_accepts_offsets_and_leading_zeros() {
    assert_eq!(
        parse_line("2024-01-01T01:00:00+01:00, 0015\n"),
        Some(entry(15, 1_704_067_200, 0))
    );
}

#[test]
fn parse_refuses_malformed_lines() {
    for line in [
        "",
        "\n",
        "2024-01-01T00:00:00Z",
        "2024-01-01T00:00:00Z,15\n",
        "2024-01-01T00:00:00Z, \n",
        "2024-01-01T00:00:00Z, 15x\n",
        "2024-01-01T00:00:00Z, -1\n",
        "2024-01-01T00:00:00Z, 4294967296\n",
        "2024-01-01T00:00:00Z, 15\n\n",
        "not a time, 15\n",
        ", 15\n",
        "2024-01-01T00:00:00Z, 15, \n",
    ] {
        assert_eq!(parse_line(line), None, "{:?}", line);
    }
}

#[test]
fn parse_takes_the_last_comma() {
    assert_eq!(parse_line("a, 2024-01-01T00:00:00Z, 15\n"), None);
    assert_eq!(parse_line("2024-01-01T00:00:00Z, 4294967295"), Some(entry(4_294_967_295, 1_704_067_200, 0)));
}
