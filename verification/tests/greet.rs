use compute_core::async_task::confirmation;
use compute_core::greet::greet;
use compute_core::system_info::SystemInfo;
use compute_core::text::append_decimal;

#[test]
fn greets_by_name() {
    assert_eq!(
        greet("World"),
        Ok("Hello, World! You've been greeted from Rust!".to_string())
    );
}

#[test]
fn greets_names_beyond_ascii() {
    assert_eq!(
        greet("Zoë"),
        Ok("Hello, Zoë! You've been greeted from Rust!".to_string())
    );
}

#[test]
fn rejects_an_empty_name() {
    assert_eq!(
        greet(""),
        Err("Don't be so shy, introduce yourself".to_string())
    );
}

#[test]
fn a_blank_name_is_still_a_name() {
    assert_eq!(
        greet(" "),
        Ok("Hello,  ! You've been greeted from Rust!".to_string())
    );
}

#[test]
fn confirms_after_a_wait() {
    assert_eq!(confirmation(5), "Async task completed after 5 seconds");
    assert_eq!(confirmation(0), "Async task completed after 0 seconds");
    assert_eq!(confirmation(120), "Async task completed after 120 seconds");
}

#[test]
fn confirms_after_the_longest_wait() {
    assert_eq!(
        confirmation(u64::MAX),
        format!("Async task completed after {} seconds", u64::MAX)
    );
}

#[test]
fn renders_decimal_numerals() {
    for n in [0u64, 7, 9, 10, 11, 99, 100, 101, 1_234_567_890, u64::MAX] {
        let mut text = String::from("n = ");
        append_decimal(&mut text, n);
        assert_eq!(text, format!("n = {}", n));
    }
}

#[test]
fn snapshot_keeps_what_was_read() {
    let info = SystemInfo::new(
        "linux".to_string(),
        "x86_64".to_string(),
        Some("workstation".to_string()),
        1_700_000_000,
    );
    assert_eq!(info.os, "linux");
    assert_eq!(info.arch, "x86_64");
    assert_eq!(info.hostname, "workstation");
    assert_eq!(info.timestamp, 1_700_000_000);
}

#[test]
fn snapshot_without_a_host_name() {
    let info = SystemInfo::new("macos".to_string(), "aarch64".to_string(), None, 0);
    assert_eq!(info.hostname, "");
    assert_eq!(info.timestamp, 0);
}
