use gntp::delivery::{
    delivery_client, delivery_notification, delivery_options, host_targets,
    icon_mode_from_lowercase, windows_safe_host,
};
use gntp::text::{
    contains_text, parse_u16, push_decimal, push_signed_decimal, replace_char, same_text,
    split_first_two,
};
use gntp::{parse_icon_mode, AttemptResult, GntpError, IconMode, NextStep, Resource, RetryPlan};

#[test]
fn icon_mode_names_in_any_case() {
    assert_eq!(parse_icon_mode("binary").unwrap(), IconMode::Binary);
    assert_eq!(parse_icon_mode("FileUrl").unwrap(), IconMode::FileUrl);
    assert_eq!(parse_icon_mode("DATAURL").unwrap(), IconMode::DataUrl);
    assert_eq!(parse_icon_mode("httpurl").unwrap(), IconMode::HttpUrl);
    assert_eq!(parse_icon_mode("Auto").unwrap(), IconMode::Auto);
    assert_eq!(
        parse_icon_mode("Base64").unwrap_err(),
        "Invalid icon mode: Base64. Use: binary, fileurl, dataurl, httpurl, auto"
    );
    assert_eq!(icon_mode_from_lowercase("X", "auto").unwrap(), IconMode::Auto);
    assert!(icon_mode_from_lowercase("AUTO", "AUTO").is_err());
}

#[test]
fn loopback_becomes_localhost_on_windows_only() {
    assert_eq!(windows_safe_host("127.0.0.1", true), "localhost");
    assert_eq!(windows_safe_host("::1", true), "localhost");
    assert_eq!(windows_safe_host("127.0.0.1", false), "127.0.0.1");
    assert_eq!(windows_safe_host("10.0.0.2", true), "10.0.0.2");
}

fn targets(hosts: &[&str], port: u16) -> Vec<(String, u16)> {
    let v: Vec<String> = hosts.iter().map(|h| h.to_string()).collect();
    host_targets(&v, port).into_iter().map(|t| (t.host, t.port)).collect()
}

#[test]
fn host_lists() {
    assert_eq!(targets(&[], 23053), vec![("localhost".to_string(), 23053)]);
    assert_eq!(targets(&[], 80), vec![("localhost".to_string(), 80)]);
    assert_eq!(targets(&["box"], 23053), vec![("box".to_string(), 23053)]);
    assert_eq!(targets(&["box:80"], 23053), vec![("box".to_string(), 80)]);
    assert_eq!(targets(&["box:abc"], 23053), vec![("box".to_string(), 23053)]);
    assert_eq!(targets(&["box:+81"], 23053), vec![("box".to_string(), 81)]);
    assert_eq!(targets(&["box:70000"], 5), vec![("box".to_string(), 5)]);
    assert_eq!(targets(&["box:80:90"], 5), vec![("box".to_string(), 80)]);
    assert_eq!(targets(&["::1"], 7), vec![("".to_string(), 7)]);
    assert_eq!(
        targets(&["a", "b:1"], 2),
        vec![("a".to_string(), 2), ("b".to_string(), 1)]
    );
}

#[test]
fn delivery_setup() {
    let c = delivery_client("App", "host", 99, IconMode::Binary, 2);
    assert_eq!(c.application_name, "App");
    assert_eq!(c.host, "host");
    assert_eq!(c.port, 99);
    assert_eq!(c.icon_mode, IconMode::Binary);
    assert!(c.debug);
    assert!(c.application_icon.is_none());
    assert!(!delivery_client("App", "h", 1, IconMode::Auto, 1).debug);

    let icon = Some(Resource::from_bytes(vec![1], "image/png"));
    let n = delivery_notification("Event", &icon);
    assert_eq!(n.name, "Event");
    assert_eq!(n.display_name.as_deref(), Some("Event"));
    assert!(n.enabled);
    assert_eq!(n.icon.unwrap().identifier, icon.unwrap().identifier);
    assert!(delivery_notification("E", &None).icon.is_none());

    let o = delivery_options(true, 9);
    assert!(o.sticky);
    assert_eq!(o.priority, 2);
    assert!(o.icon.is_none());
}

#[test]
fn retries_until_the_limit() {
    let mut plan = RetryPlan::new(2);
    assert_eq!(plan.max_attempts, 3);
    let err = || GntpError::ConnectionError("down".to_string());
    assert!(matches!(plan.record(AttemptResult::RegisterFailed(err())), NextStep::Retry));
    assert!(matches!(plan.record(AttemptResult::NotifyFailed(err())), NextStep::Retry));
    match plan.record(AttemptResult::NotifyFailed(GntpError::IoError("last".to_string()))) {
        NextStep::GiveUp(GntpError::IoError(m)) => assert_eq!(m, "last"),
        _ => panic!("expected to give up with the last error"),
    }
    assert_eq!(plan.attempts, 3);

    let mut once = RetryPlan::new(0);
    assert!(matches!(once.record(AttemptResult::RegisterFailed(err())), NextStep::GiveUp(_)));

    let mut lucky = RetryPlan::new(3);
    assert!(matches!(lucky.record(AttemptResult::RegisterFailed(err())), NextStep::Retry));
    assert!(matches!(lucky.record(AttemptResult::Delivered), NextStep::Done));
    assert_eq!(lucky.attempts, 2);
}

#[test]
fn port_numbers_parse_like_std() {
    assert_eq!(parse_u16("23053"), Some(23053));
    assert_eq!(parse_u16("65535"), Some(65535));
    assert_eq!(parse_u16("65536"), None);
    assert_eq!(parse_u16("007"), Some(7));
    assert_eq!(parse_u16("+8"), Some(8));
    assert_eq!(parse_u16("+"), None);
    assert_eq!(parse_u16(""), None);
    assert_eq!(parse_u16("-1"), None);
    assert_eq!(parse_u16(" 1"), None);
    assert_eq!(parse_u16("99999999999999999999"), None);
    for s in ["0", "1", "80", "443", "65535", "+12", "00", "x", "1x"] {
        assert_eq!(parse_u16(s), s.parse::<u16>().ok(), "{}", s);
    }
}

#[test]
fn text_helpers() {
    let mut s = String::new();
    push_decimal(&mut s, 0);
    s.push(' ');
    push_decimal(&mut s, 1234567890);
    s.push(' ');
    push_signed_decimal(&mut s, -128);
    s.push(' ');
    push_signed_decimal(&mut s, i64::MIN);
    assert_eq!(s, "0 1234567890 -128 -9223372036854775808");
    assert!(contains_text("GNTP/1.0 -ERROR x", "-ERROR"));
    assert!(!contains_text("GNTP/1.0 -OK", "-ERROR"));
    assert!(contains_text("", ""));
    assert!(!contains_text("-ERR", "-ERROR"));
    assert_eq!(replace_char("a\\b\\c", '\\', '/'), "a/b/c");
    assert!(same_text("ab", "ab"));
    assert!(!same_text("ab", "abc"));
    assert_eq!(split_first_two("a:b:c", ':'), ("a".to_string(), Some("b".to_string())));
    assert_eq!(split_first_two("abc", ':'), ("abc".to_string(), None));
    assert_eq!(split_first_two("a:", ':'), ("a".to_string(), Some("".to_string())));
}

#[test]
fn decimal_ports_parse_back() {
    for p in [0u16, 1, 9, 10, 99, 100, 23053, 65535] {
        let mut s = String::new();
        push_decimal(&mut s, p as u128);
        assert_eq!(s, p.to_string());
        assert_eq!(parse_u16(&s), Some(p));
    }
}

#[test]
fn two_hundred_fifty_five_retries() {
    let mut plan = RetryPlan::new(255);
    assert_eq!(plan.max_attempts, 256);
    for _ in 0..255 {
        assert!(matches!(
            plan.record(AttemptResult::RegisterFailed(GntpError::IoError("x".to_string()))),
            NextStep::Retry
        ));
    }
    assert!(matches!(
        plan.record(AttemptResult::RegisterFailed(GntpError::IoError("x".to_string()))),
        NextStep::GiveUp(_)
    ));
    assert_eq!(plan.attempts, 256);
}
