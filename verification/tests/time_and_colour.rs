use charly::palette::{color_for_nanos, offset_for_nanos, rand_offset, random_color};
use charly::timestamp::{format_timestamp, timestamp_now};

const PALETTE: [&str; 8] = [
    "#FEF08A", "#FECACA", "#BFDBFE", "#BBF7D0", "#DDD6FE", "#FED7AA", "#FBCFE8", "#A5F3FC",
];

/// The timestamp formula computed with plain `i64` arithmetic and `format!`.
fn reference_timestamp(total_secs: i64) -> String {
    let days = total_secs / 86400;
    let time_secs = total_secs % 86400;
    let era: i64 = 719468;
    let doe = days + era;
    let y = (400 * doe) / 146097;
    let mut yoe = doe - y * 365 - y / 4 + y / 100 - y / 400;
    if yoe < 0 {
        let leap = if y % 4 == 0 && (y % 100 != 0 || y % 400 == 0) { 1 } else { 0 };
        yoe += 365 + leap;
    }
    let doy = yoe;
    let mp = (5 * doy + 2) / 153;
    let d = doy - (153 * mp + 2) / 5 + 1;
    let m = if mp < 10 { mp + 3 } else { mp - 9 };
    let year = y + if m <= 2 { 1 } else { 0 };
    let h = time_secs / 3600;
    let min = (time_secs % 3600) / 60;
    let s = time_secs % 60;
    format!("{:04}-{:02}-{:02}T{:02}:{:02}:{:02}", year, m, d, h, min, s)
}

#[test]
fn epoch_is_midnight_new_year_1970() {
    assert_eq!(format_timestamp(0), "1970-01-01T00:00:00");
}

#[test]
fn known_instant() {
    assert_eq!(format_timestamp(1_700_000_000), "2023-11-14T22:13:20");
    assert_eq!(format_timestamp(253_402_300_799), "9999-12-31T23:59:59");
    assert_eq!(format_timestamp(86_399), "1970-01-01T23:59:59");
}

#[test]
fn leap_day_and_march_first_2000() {
    assert_eq!(format_timestamp(951_782_400), "2000-02-29T00:00:00");
    assert_eq!(format_timestamp(951_868_800), "2000-03-01T00:00:00");
}

#[test]
fn short_year_estimate_shows_february() {
    // 2025-03-01T00:00:00Z: the year estimate falls one year short on this day.
    assert_eq!(format_timestamp(1_740_787_200), "2025-02-29T00:00:00");
    assert_eq!(format_timestamp(1_740_787_199), "2025-02-28T23:59:59");
}

#[test]
fn negative_seconds_print_with_signs() {
    assert_eq!(format_timestamp(-1), "1970-01-01T00:00:-1");
    assert_eq!(format_timestamp(-86_400), "1969-12-31T00:00:00");
    assert_eq!(format_timestamp(-62_135_596_800), "0001-01-01T00:00:00");
}

#[test]
fn extreme_seconds() {
    assert_eq!(format_timestamp(i64::MAX), "292277026596-12-04T15:30:07");
    assert_eq!(format_timestamp(i64::MIN), "-292277022656-01-27T-15:-30:-8");
}

#[test]
fn timestamps_match_reference_formula() {
    let mut t: i64 = -400 * 366 * 86_400;
    while t < 800 * 366 * 86_400 {
        assert_eq!(format_timestamp(t), reference_timestamp(t), "seconds {}", t);
        t += 86_400 * 7 + 3_601;
    }
    for t in [i64::MIN, i64::MIN + 1, i64::MAX, i64::MAX - 86_400, -1, 1, 59, 3_600] {
        assert_eq!(format_timestamp(t), reference_timestamp(t), "seconds {}", t);
    }
}

#[test]
fn now_is_a_timestamp() {
    let now = timestamp_now().expect("clock after the epoch");
    let secs = std::time::UNIX_EPOCH.elapsed().unwrap().as_secs() as i64;
    assert_eq!(now.len(), 19);
    assert!(now == format_timestamp(secs) || now == format_timestamp(secs - 1));
}

#[test]
fn colours_cycle_through_the_presets() {
    for n in 0u32..16 {
        assert_eq!(color_for_nanos(n), PALETTE[(n % 8) as usize]);
    }
    assert_eq!(color_for_nanos(999_999_999), PALETTE[7]);
}

#[test]
fn random_colour_is_a_preset() {
    for _ in 0..20 {
        let c = random_color().expect("clock after the epoch");
        assert!(PALETTE.contains(&c.as_str()));
    }
}

#[test]
fn offsets_are_below_two_hundred() {
    assert_eq!(offset_for_nanos(1234), 34);
    assert_eq!(offset_for_nanos(199), 199);
    assert_eq!(offset_for_nanos(200), 0);
    for _ in 0..20 {
        assert!(rand_offset().expect("clock after the epoch") < 200);
    }
}

fn is_leap(y: i64) -> bool {
    y % 4 == 0 && (y % 100 != 0 || y % 400 == 0)
}

fn month_length(y: i64, m: i64) -> i64 {
    match m {
        2 => if is_leap(y) { 29 } else { 28 },
        4 | 6 | 9 | 11 => 30,
        _ => 31,
    }
}

fn days_to_march_first(y: i64) -> i64 {
    365 * y + y / 4 - y / 100 + y / 400
}

#[test]
fn timestamps_are_calendar_dates_unless_the_year_estimate_is_short() {
    let (mut y, mut m, mut d) = (1970i64, 1i64, 1i64);
    let mut short_days = 0;
    for days in 0i64..120_000 {
        let text = format_timestamp(days * 86_400 + 3_661);
        let expected = format!("{:04}-{:02}-{:02}T01:01:01", y, m, d);
        let doe = days + 719_468;
        let short = days_to_march_first(400 * doe / 146_097 + 1) <= doe;
        if short {
            short_days += 1;
            assert_ne!(text, expected, "day {}", days);
        } else {
            assert_eq!(text, expected, "day {}", days);
        }
        d += 1;
        if d > month_length(y, m) {
            d = 1;
            m += 1;
            if m > 12 {
                m = 1;
                y += 1;
            }
        }
    }
    assert!(short_days > 0);
}

#[test]
fn timestamp_texts_sort_as_their_instants() {
    let instants: [i64; 12] = [
        0, 1, 59, 60, 3599, 3600, 86399, 86400, 951782399, 951782400, 983404800, 253402300799,
    ];
    for w in instants.windows(2) {
        assert!(format_timestamp(w[0]) < format_timestamp(w[1]), "{} then {}", w[0], w[1]);
    }
    // Around the first of March 2001, whose text reads as the 29th of February.
    for t in (983404800i64 - 3 * 86400..983404800 + 3 * 86400).step_by(3600) {
        assert!(format_timestamp(t) < format_timestamp(t + 3600), "{}", t);
    }
}
