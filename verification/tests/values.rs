//! Values as they are shown.

use iwd_tui::address::{get_masked_ipv4, mask, mask_ipv4};
use iwd_tui::format::{
    condense_error, dbm_color, format_bytes, format_speed, format_uptime, format_uptime_secs,
    freq_to_channel, signal_bar, Color,
};
use iwd_tui::split::{after_last, before_first, contains, ends_with, split_on, split_words};
use iwd_tui::split::starts_with;
use iwd_tui::text::{parse_unsigned, push_decimal, push_integer, trim, trim_end_of, uppercase};

#[test]
fn test_freq_to_channel() {
    assert_eq!(freq_to_channel(2412), "1");
    assert_eq!(freq_to_channel(2437), "6");
    assert_eq!(freq_to_channel(2462), "11");
    assert_eq!(freq_to_channel(2484), "14");
    assert_eq!(freq_to_channel(5180), "36");
    assert_eq!(freq_to_channel(5745), "149");
    assert_eq!(freq_to_channel(5825), "165");
    assert_eq!(freq_to_channel(9999), "9999 MHz");
}

#[test]
fn frequencies_between_the_bands_are_spelled_out() {
    assert_eq!(freq_to_channel(0), "0 MHz");
    assert_eq!(freq_to_channel(2411), "2411 MHz");
    assert_eq!(freq_to_channel(2483), "15");
    assert_eq!(freq_to_channel(2485), "2485 MHz");
    assert_eq!(freq_to_channel(5169), "5169 MHz");
    assert_eq!(freq_to_channel(5170), "34");
    assert_eq!(freq_to_channel(5826), "5826 MHz");
}

#[test]
fn test_format_bytes() {
    assert_eq!(format_bytes(0), "0 B");
    assert_eq!(format_bytes(500), "500 B");
    assert_eq!(format_bytes(1024), "1.0 KB");
    assert_eq!(format_bytes(1536), "1.5 KB");
    assert_eq!(format_bytes(1024 * 1024), "1 MB");
    assert_eq!(format_bytes(5 * 1024 * 1024), "5 MB");
    assert_eq!(format_bytes(1024 * 1024 * 1024), "1.00 GB");
    assert_eq!(
        format_bytes(2 * 1024 * 1024 * 1024 + 512 * 1024 * 1024),
        "2.50 GB"
    );
}

fn with_floats(bytes: u64) -> String {
    if bytes >= 1_073_741_824 {
        format!("{:.2} GB", bytes as f64 / 1_073_741_824.0)
    } else if bytes >= 1_048_576 {
        format!("{} MB", bytes / 1_048_576)
    } else if bytes >= 1024 {
        format!("{:.1} KB", bytes as f64 / 1024.0)
    } else {
        format!("{bytes} B")
    }
}

#[test]
fn bytes_are_rounded_as_doubles_are() {
    let mut samples: Vec<u64> = vec![
        1,
        1023,
        1025,
        1075,
        1076,
        1280,
        1792,
        1_048_575,
        1_048_577,
        1_073_741_823,
        1_073_741_825,
        9 * (1 << 27),
        11 * (1 << 27),
        13 * (1 << 27),
        (1 << 53) - 1,
        1 << 53,
        (1 << 53) + 1,
        (1 << 53) + 3,
        (1 << 60) + 12_345,
        u64::MAX - 1,
        u64::MAX,
    ];
    for k in 1024..4096 {
        samples.push(k);
    }
    let mut x: u64 = 1;
    for _ in 0..2_000 {
        x = x.wrapping_mul(6364136223846793005).wrapping_add(1442695040888963407);
        samples.push(x);
        samples.push(x >> 13);
        samples.push(x >> 30);
        samples.push(x >> 47);
    }
    for bytes in samples {
        assert_eq!(format_bytes(bytes), with_floats(bytes), "{bytes}");
    }
}

#[test]
fn test_format_speed() {
    assert_eq!(format_speed(100), "100Mbps");
    assert_eq!(format_speed(999), "999Mbps");
    assert_eq!(format_speed(1000), "1Gbps");
    assert_eq!(format_speed(2500), "2Gbps");
}

#[test]
fn test_signal_bar() {
    let strong = signal_bar(-40);
    let weak = signal_bar(-80);
    assert!(strong.matches('█').count() > weak.matches('█').count());
    // Edge values don't panic
    let _ = signal_bar(-30);
    let _ = signal_bar(-90);
}

#[test]
fn bars_of_named_strengths() {
    assert_eq!(signal_bar(-30), "██████████▓▒░");
    assert_eq!(signal_bar(-50), "████████▓▒░  ");
    assert_eq!(signal_bar(-65), "█████▓▒░     ");
    assert_eq!(signal_bar(-80), "██▓▒░        ");
    assert_eq!(signal_bar(-90), "▓▒░          ");
    assert_eq!(signal_bar(i16::MIN), signal_bar(-90));
    assert_eq!(signal_bar(i16::MAX), signal_bar(-30));
}

#[test]
fn bars_grow_with_the_signal() {
    for dbm in -120..0i16 {
        let weaker = signal_bar(dbm - 1);
        let stronger = signal_bar(dbm);
        assert!(weaker.matches('█').count() <= stronger.matches('█').count());
        assert_eq!(stronger.chars().count(), 13);
    }
}

#[test]
fn test_dbm_color() {
    assert_eq!(dbm_color(-40), Color::Green);
    assert_eq!(dbm_color(-55), Color::Green);
    assert_eq!(dbm_color(-56), Color::Yellow);
    assert_eq!(dbm_color(-70), Color::Yellow);
    assert_eq!(dbm_color(-71), Color::Red);
    assert_eq!(dbm_color(-90), Color::Red);
}

#[test]
fn test_condense_error() {
    assert_eq!(
        condense_error("D-Bus error: org.freedesktop.DBus: Failed"),
        "Failed"
    );
    assert_eq!(condense_error("simple error"), "simple error");
    assert_eq!(
        condense_error("error with trailing."),
        "error with trailing"
    );
    assert_eq!(condense_error(""), "");
}

#[test]
fn condensed_errors_stay_as_they_are() {
    for error in ["a: b: c.", " spaced. ", "x..", ": y", "a:b"] {
        let once = condense_error(error);
        assert_eq!(condense_error(&once), once);
    }
    assert_eq!(condense_error("x.."), "x");
    assert_eq!(condense_error(": y"), "y");
    assert_eq!(condense_error("a:b"), "a:b");
}

#[test]
fn test_format_uptime_secs() {
    assert_eq!(format_uptime_secs(0), "0m 0s");
    assert_eq!(format_uptime_secs(30), "0m 30s");
    assert_eq!(format_uptime_secs(90), "1m 30s");
    assert_eq!(format_uptime_secs(3600), "1h 0m");
    assert_eq!(format_uptime_secs(3661), "1h 1m");
    assert_eq!(format_uptime_secs(7200), "2h 0m");
}

#[test]
fn uptime_counts_whole_seconds() {
    assert_eq!(format_uptime(1_000, 1_999), "0m 0s");
    assert_eq!(format_uptime(1_000, 2_000), "0m 1s");
    assert_eq!(format_uptime(5_000, 1_000), "0m 0s");
    assert_eq!(format_uptime(0, u64::MAX), "5124095576030h 25m");
}

#[test]
fn texts_are_put_in_upper_case() {
    assert_eq!(uppercase("connected"), "CONNECTED");
    assert_eq!(uppercase("straße é"), "STRASSE É");
    assert_eq!(uppercase(""), "");
}

#[test]
fn texts_are_taken_apart() {
    assert_eq!(after_last("a/b/c", "/"), "c");
    assert_eq!(after_last("a/b/", "/"), "");
    assert_eq!(after_last("abc", "/"), "abc");
    assert_eq!(before_first("10.0.0.1/24", '/'), "10.0.0.1");
    assert_eq!(before_first("10.0.0.1", '/'), "10.0.0.1");
    assert_eq!(split_on("a..b", '.'), vec!["a", "", "b"]);
    assert_eq!(split_words("  a \t b\n"), vec!["a", "b"]);
    assert!(split_words(" \n").is_empty());
    assert!(contains("net.connman.iwd.InProgress", "InProgress"));
    assert!(!contains("InProg", "InProgress"));
    assert!(starts_with("veth0", "veth"));
    assert!(!starts_with("eth0", "veth"));
    assert!(ends_with("/a/b_psk", "b_psk"));
    assert!(!ends_with("/a/b", "/a/b/c"));
    assert_eq!(trim(" \u{2003}x y\n"), "x y");
    assert_eq!(trim_end_of("x.y..", '.'), "x.y");
}

#[test]
fn numbers_are_read_within_their_limit() {
    assert_eq!(parse_unsigned("0", 10), Some(0));
    assert_eq!(parse_unsigned("007", 10), Some(7));
    assert_eq!(parse_unsigned("+7", 10), Some(7));
    assert_eq!(parse_unsigned("11", 10), None);
    assert_eq!(parse_unsigned("-1", 10), None);
    assert_eq!(parse_unsigned("", 10), None);
    assert_eq!(parse_unsigned("+", 10), None);
    assert_eq!(parse_unsigned("1x", 10), None);
    assert_eq!(parse_unsigned("18446744073709551615", u64::MAX), Some(u64::MAX));
    assert_eq!(parse_unsigned("18446744073709551616", u64::MAX), None);
}

#[test]
fn addresses_are_masked() {
    assert_eq!(mask("192.168.1.17"), Some("192.168.███.███".to_string()));
    assert_eq!(mask("192.168.1"), None);
    assert_eq!(mask("1.2.3.4.5"), None);
    assert_eq!(mask("192.168.9.9"), mask("192.168.1.17"));
}

#[test]
fn addresses_are_found_in_the_output() {
    let output = "3: wlan0    inet 192.168.1.17/24 brd 192.168.1.255 scope global wlan0\n";
    assert_eq!(mask_ipv4(output), Some("192.168.███.███".to_string()));
    assert_eq!(mask_ipv4("3: wlan0 inet"), None);
    assert_eq!(mask_ipv4(""), None);
    assert_eq!(mask_ipv4("inet6 ::1"), None);
}

#[test]
fn bytes_that_are_no_text_are_read_around() {
    let mut output = b"3: \xff\xfe inet 10.0.0.1/8".to_vec();
    assert_eq!(get_masked_ipv4(&Some(output.clone())), Some("10.0.███.███".to_string()));
    output.truncate(3);
    assert_eq!(get_masked_ipv4(&Some(output)), None);
    assert_eq!(get_masked_ipv4(&None), None);
    assert_eq!(
        get_masked_ipv4(&Some(b"inet \xff.1.2.3".to_vec())),
        Some("\u{fffd}.1.███.███".to_string())
    );
}

#[test]
fn numbers_read_back() {
    for n in [0, 7, 10, 99, 1_000, 65_536, u64::MAX] {
        let mut text = String::new();
        push_decimal(&mut text, n);
        assert_eq!(text, n.to_string());
        assert_eq!(parse_unsigned(&text, u64::MAX), Some(n));
    }
    for n in [i32::MIN, -1, 0, 42, i32::MAX] {
        let mut text = String::new();
        push_integer(&mut text, n);
        assert_eq!(text, n.to_string());
    }
}

#[test]
fn channels_lie_five_mhz_apart() {
    for channel in 1..=13u32 {
        assert_eq!(freq_to_channel(2407 + 5 * channel), channel.to_string());
    }
    for channel in 34..=165u32 {
        assert_eq!(freq_to_channel(5000 + 5 * channel), channel.to_string());
    }
}

#[test]
fn parts_give_the_text_back() {
    for text in ["", ".", "a", "a.b", ".a..b.", "192.168.1.17"] {
        let parts = split_on(text, '.');
        assert_eq!(parts.join("."), text);
        assert!(parts.iter().all(|p| !p.contains('.')));
        assert_eq!(before_first(text, '.'), parts[0]);
    }
}

#[test]
fn words_are_parted_by_white_space_alone() {
    for text in ["", " ", "a", " a  b\tc ", "x\u{2003}y", "one-word."] {
        let words = split_words(text);
        assert_eq!(words, text.split_whitespace().collect::<Vec<&str>>());
        assert!(words.iter().all(|w| !w.is_empty() && !w.contains(char::is_whitespace)));
    }
}
