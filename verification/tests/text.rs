use miai::text;

#[test]
fn decimals() {
    assert_eq!(text::unsigned(0), "0");
    assert_eq!(text::unsigned(1700000000123), "1700000000123");
    assert_eq!(text::unsigned(u128::MAX), u128::MAX.to_string());
    assert_eq!(text::signed(-1), "-1");
    assert_eq!(text::signed(i64::MIN), "-9223372036854775808");
    assert_eq!(text::signed(40), "40");
}

#[test]
fn prefixes_and_parts() {
    assert!(text::starts_with("请播放音乐", "请"));
    assert!(text::starts_with("请", ""));
    assert!(!text::starts_with("请", "请播"));
    assert!(text::contains("请播放音乐", "播放"));
    assert!(text::contains("aab", "ab"));
    assert!(text::contains("", ""));
    assert!(!text::contains("ab", "ba"));
}

#[test]
fn capitals_are_ascii_only() {
    assert_eq!(text::to_upper("az09Zé小"), "AZ09Zé小");
}

#[test]
fn blank_texts() {
    assert!(text::blank(""));
    assert!(text::blank(" \t\r\n\u{3000}\u{85}"));
    assert!(!text::blank(" x "));
    assert!(!text::blank("\u{200b}"));
}
