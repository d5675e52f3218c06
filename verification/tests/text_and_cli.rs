use resource_monitor::cli::{parse_args, Config};
use resource_monitor::text::{contains_text, decimal_string, parse_u32, parse_u64, same_text, trim};

fn args(list: &[&str]) -> Vec<String> {
    list.iter().map(|s| s.to_string()).collect()
}

#[test]
fn decimal_numerals() {
    assert_eq!(decimal_string(0), "0");
    assert_eq!(decimal_string(305), "305");
    assert_eq!(decimal_string(u64::MAX), "18446744073709551615");
}

#[test]
fn parse_unsigned_like_std() {
    assert_eq!(parse_u64("42"), Some(42));
    assert_eq!(parse_u64("+42"), Some(42));
    assert_eq!(parse_u64("007"), Some(7));
    assert_eq!(parse_u64(""), None);
    assert_eq!(parse_u64("+"), None);
    assert_eq!(parse_u64("-1"), None);
    assert_eq!(parse_u64("12a"), None);
    assert_eq!(parse_u64(" 1"), None);
    assert_eq!(parse_u64("18446744073709551615"), Some(u64::MAX));
    assert_eq!(parse_u64("18446744073709551616"), None);
    assert_eq!(parse_u64("99999999999999999999x"), None);
    assert_eq!(parse_u32("4294967295"), Some(u32::MAX));
    assert_eq!(parse_u32("4294967296"), None);
    for s in ["0", "17", "+9", "x", "", "4294967296", "-0"] {
        assert_eq!(parse_u64(s), s.parse::<u64>().ok());
        assert_eq!(parse_u32(s), s.parse::<u32>().ok());
    }
}

#[test]
fn trim_like_std() {
    for s in ["  powersave\n", "\u{3000}x y\t", "", "   ", "a", "\u{85}b\u{a0}"] {
        assert_eq!(trim(s), s.trim());
    }
}

#[test]
fn text_search() {
    assert!(contains_text("firefox", "fox"));
    assert!(contains_text("firefox", ""));
    assert!(!contains_text("fox", "firefox"));
    assert!(!contains_text("firefox", "foxy"));
    assert!(same_text("--help", "--help"));
    assert!(!same_text("--help", "--hel"));
}

#[test]
fn default_config() {
    let c = Config::default();
    assert_eq!(c.tick_rate_ms, 500);
    assert!(!c.no_mouse);
    assert_eq!(c.initial_filter, "");
    assert!(!c.no_truecolor);
}

#[test]
fn parse_all_options() {
    let c = parse_args(&args(&["rm", "--interval", "200", "--no-mouse", "--filter", "nginx", "--no-truecolor"])).unwrap();
    assert_eq!(c.tick_rate_ms, 200);
    assert!(c.no_mouse);
    assert_eq!(c.initial_filter, "nginx");
    assert!(c.no_truecolor);
}

#[test]
fn interval_has_a_floor_and_bad_values_are_skipped() {
    assert_eq!(parse_args(&args(&["rm", "--interval", "10"])).unwrap().tick_rate_ms, 50);
    let c = parse_args(&args(&["rm", "--interval", "fast", "--no-mouse"])).unwrap();
    assert_eq!(c.tick_rate_ms, 500);
    assert!(c.no_mouse);
    assert_eq!(parse_args(&args(&["rm", "--interval"])).unwrap().tick_rate_ms, 500);
}

#[test]
fn help_stops_and_values_are_not_options() {
    assert!(parse_args(&args(&["rm", "--no-mouse", "-h"])).is_none());
    assert!(parse_args(&args(&["rm", "--help"])).is_none());
    let c = parse_args(&args(&["rm", "--filter", "--help"])).unwrap();
    assert_eq!(c.initial_filter, "--help");
    let c = parse_args(&args(&["--help", "unknown"])).unwrap();
    assert_eq!(c.tick_rate_ms, 500);
}
