use bangbang::text::{str_eq, usize_text};

#[test]
fn usize_text_writes_decimal() {
    assert_eq!(usize_text(0), "0");
    assert_eq!(usize_text(7), "7");
    assert_eq!(usize_text(10), "10");
    assert_eq!(usize_text(12345), "12345");
    assert_eq!(usize_text(usize::MAX), usize::MAX.to_string());
}

#[test]
fn str_eq_compares_characters() {
    assert!(str_eq("", ""));
    assert!(str_eq("weapon", "weapon"));
    assert!(!str_eq("weapon", "weapons"));
    assert!(!str_eq("weapon", "Weapon"));
    assert!(str_eq("café", "café"));
}
