use enclave::text::{
    bytes_to_hex, contains, decimal, ends_with, equal_without_early_exit, u32_to_upper_hex,
    wide_with_nul,
};

#[test]
fn rendering() {
    assert_eq!(bytes_to_hex(&[0x00, 0x0f, 0xa5, 0xff]), "000fa5ff");
    assert_eq!(bytes_to_hex(&[]), "");
    assert_eq!(u32_to_upper_hex(0xdead_be0f), "DEADBE0F");
    assert_eq!(u32_to_upper_hex(0), "00000000");
    assert_eq!(decimal(0), "0");
    assert_eq!(decimal(1203), "1203");
    assert_eq!(decimal(u64::MAX), u64::MAX.to_string());
    assert_eq!(enclave::text::concat("a", "é"), "aé");
}

#[test]
fn searching_matches_std() {
    for hay in ["", "a", "abcabd", "aab", "éaé"] {
        for needle in ["", "a", "abd", "é", "aab", "b"] {
            assert_eq!(contains(hay, needle), hay.contains(needle));
            assert_eq!(ends_with(hay, needle), hay.ends_with(needle));
        }
    }
}

#[test]
fn wide_text_matches_std() {
    for text in ["", "abc", "é€", "𝄞x"] {
        let expected: Vec<u16> = text.encode_utf16().chain(std::iter::once(0)).collect();
        assert_eq!(wide_with_nul(text), expected);
    }
}

#[test]
fn comparison() {
    let a: Vec<char> = "abc".chars().collect();
    let b: Vec<char> = "abd".chars().collect();
    let c: Vec<char> = "ab".chars().collect();
    assert!(equal_without_early_exit(&a, &a));
    assert!(!equal_without_early_exit(&a, &b));
    assert!(!equal_without_early_exit(&a, &c));
}
