use frameloop::{apply_session_overrides, parse_u32, with_overrides, Config};

#[test]
fn default_is_640_by_480_at_60() {
    assert_eq!(
        Config::default(),
        Config { window_width: 640, window_height: 480, frame_rate: 60 }
    );
}

#[test]
fn overrides_take_the_place_of_what_they_name() {
    let config = Config::default();
    assert_eq!(
        with_overrides(config, Some(800), None),
        Config { window_width: 800, window_height: 480, frame_rate: 60 }
    );
    assert_eq!(
        with_overrides(config, None, Some(600)),
        Config { window_width: 640, window_height: 600, frame_rate: 60 }
    );
    assert_eq!(
        with_overrides(config, Some(1), Some(2)),
        Config { window_width: 1, window_height: 2, frame_rate: 60 }
    );
    assert_eq!(with_overrides(config, None, None), config);
}

#[test]
fn arguments_are_read_as_numbers() {
    let config = Config { window_width: 640, window_height: 480, frame_rate: 30 };
    assert_eq!(
        apply_session_overrides(config, Some("800"), Some("600")),
        Config { window_width: 800, window_height: 600, frame_rate: 30 }
    );
    assert_eq!(
        apply_session_overrides(config, Some("4294967295"), None),
        Config { window_width: u32::MAX, window_height: 480, frame_rate: 30 }
    );
}

#[test]
fn arguments_that_are_no_numbers_override_nothing() {
    let config = Config::default();
    assert_eq!(apply_session_overrides(config, Some("wide"), Some("")), config);
    assert_eq!(apply_session_overrides(config, Some("-800"), Some("6 00")), config);
    assert_eq!(apply_session_overrides(config, Some("4294967296"), Some("1.5")), config);
    assert_eq!(apply_session_overrides(config, None, None), config);
}

#[test]
fn one_bad_argument_does_not_stop_the_other() {
    let config = Config::default();
    assert_eq!(
        apply_session_overrides(config, Some("x"), Some("600")),
        Config { window_width: 640, window_height: 600, frame_rate: 60 }
    );
}

#[test]
fn texts_are_read_as_decimal_numbers() {
    assert_eq!(parse_u32("0"), Some(0));
    assert_eq!(parse_u32("7"), Some(7));
    assert_eq!(parse_u32("800"), Some(800));
    assert_eq!(parse_u32("+800"), Some(800));
    assert_eq!(parse_u32("000800"), Some(800));
    assert_eq!(parse_u32("4294967295"), Some(u32::MAX));
    assert_eq!(parse_u32("+0004294967295"), Some(u32::MAX));
}

#[test]
fn texts_that_are_no_numbers_are_refused() {
    assert_eq!(parse_u32(""), None);
    assert_eq!(parse_u32("+"), None);
    assert_eq!(parse_u32("-"), None);
    assert_eq!(parse_u32("-1"), None);
    assert_eq!(parse_u32("++1"), None);
    assert_eq!(parse_u32("1+"), None);
    assert_eq!(parse_u32(" 1"), None);
    assert_eq!(parse_u32("1 "), None);
    assert_eq!(parse_u32("1_000"), None);
    assert_eq!(parse_u32("0x10"), None);
    assert_eq!(parse_u32("1e3"), None);
    assert_eq!(parse_u32("12a"), None);
    assert_eq!(parse_u32("\u{ff11}\u{ff12}"), None);
    assert_eq!(parse_u32("\u{661}\u{662}"), None);
    assert_eq!(parse_u32("1\u{e9}"), None);
}

#[test]
fn numbers_above_the_range_are_refused() {
    assert_eq!(parse_u32("4294967296"), None);
    assert_eq!(parse_u32("4294967300"), None);
    assert_eq!(parse_u32("42949672950"), None);
    assert_eq!(parse_u32("99999999999999999999999999999999999999"), None);
    assert_eq!(parse_u32("+18446744073709551616"), None);
}

#[test]
fn texts_are_read_as_the_standard_library_reads_them() {
    let mut texts: Vec<String> = vec![
        "", "+", "-", "0", "+0", "-0", "00", "1", "+1", "-1", "+-1", "++1", "1+", " 1", "1 ", "\t1",
        "1\n", "1_0", "0x1f", "0b1", "1e2", "1.0", ".5", "a", "1a", "a1", "\u{ff11}", "\u{661}",
        "1\u{e9}", "\u{0}", "1\u{0}", "/", ":", "0/", "9:", "+/", "007", "4294967295",
        "4294967296", "04294967295", "+4294967295", "+4294967296", "42949672950", "4294967294",
        "3999999999", "5000000000", "18446744073709551615", "18446744073709551616",
        "340282366920938463463374607431768211456",
    ]
    .into_iter()
    .map(String::from)
    .collect();
    for number in [0u64, 9, 10, 99, 100, 65_535, 65_536, 4_294_967_294, 4_294_967_295] {
        for delta in 0..3u64 {
            texts.push((number + delta).to_string());
            texts.push(format!("+{}", number + delta));
            texts.push(format!("{}0", number + delta));
            texts.push(format!("0{}", number + delta));
            texts.push(format!("-{}", number + delta));
        }
    }
    for text in &texts {
        assert_eq!(parse_u32(text), text.parse::<u32>().ok(), "{:?}", text);
    }
}
