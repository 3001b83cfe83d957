use pifrost::text::{
    concat2, concat3, decimal_of, exit_text_of, find_from, first_word_of, join, lines_of, matches_at,
    replace_char, same, signed_decimal_of, succeeded, text_contains, text_starts_with, trim,
};

fn chars(s: &str) -> Vec<char> {
    s.chars().collect()
}

#[test]
fn trim_agrees_with_std() {
    let cases = [
        "",
        " ",
        "abc",
        "  abc",
        "abc \t\r\n",
        "\u{a0}\u{2003}x y\u{3000}",
        "\u{85}a\u{1680}",
        "\u{200b}a\u{200b}",
        "\u{feff}a",
        "\u{1c}a\u{1f}",
    ];
    for c in cases {
        assert_eq!(trim(c), c.trim());
    }
}

#[test]
fn every_char_is_trimmed_as_std_does() {
    for n in 0..0x3100u32 {
        if let Some(c) = char::from_u32(n) {
            let s = format!("{}x{}", c, c);
            assert_eq!(trim(&s), s.trim(), "U+{:04X}", n);
        }
    }
}

#[test]
fn equality_of_texts() {
    assert!(same("key", "key"));
    assert!(!same("key", "keys"));
    assert!(!same("key", "Key"));
    assert!(same("", ""));
}

#[test]
fn concatenation() {
    assert_eq!(concat2("ab", "c"), "abc");
    assert_eq!(concat3("a", "", "✔"), "a✔");
}

#[test]
fn searching() {
    assert!(text_contains("not attached", "attached"));
    assert!(!text_contains("attach", "attached"));
    assert!(text_contains("anything", ""));
    assert!(text_starts_with("BUSID  VID", "BUSID"));
    assert!(!text_starts_with("BUS", "BUSID"));
    let v = chars("a::server:b::server:c");
    let p = chars("::server:");
    assert_eq!(find_from(&v, &p, 0), Some(1));
    assert_eq!(find_from(&v, &p, 2), Some(11));
    assert_eq!(find_from(&v, &p, 12), None);
    assert!(matches_at(&v, &p, 11));
    assert!(!matches_at(&v, &p, 12));
    assert!(!matches_at(&v, &p, 100));
}

#[test]
fn lines_are_trimmed_and_filled() {
    let got = lines_of("  /dev/sda (1G, disk, X)\r\n\n   \n/dev/sdb\n");
    assert_eq!(got, vec!["/dev/sda (1G, disk, X)".to_string(), "/dev/sdb".to_string()]);
    assert!(lines_of("").is_empty());
    assert!(lines_of(" \n\t\n").is_empty());
    assert_eq!(lines_of("last"), vec!["last".to_string()]);
}

#[test]
fn replacing_characters() {
    assert_eq!(replace_char("C:\\a\\b/c", '\\', '/'), "C:/a/b/c");
    assert_eq!(replace_char("abc", 'x', 'y'), "abc");
}

#[test]
fn decimals_agree_with_std() {
    for n in [0u64, 1, 9, 10, 99, 100, 12345, u64::MAX] {
        assert_eq!(decimal_of(n), n.to_string());
    }
    for n in [0i32, 1, -1, 255, -255, i32::MAX, i32::MIN] {
        assert_eq!(signed_decimal_of(n), n.to_string());
    }
}

#[test]
fn exit_codes_are_shown_as_std_does() {
    for code in [None, Some(0), Some(1), Some(-1), Some(255)] {
        assert_eq!(exit_text_of(code), format!("{:?}", code));
        assert_eq!(succeeded(code), code == Some(0));
    }
}

#[test]
fn joining_texts() {
    let v = vec!["a".to_string(), "b".to_string(), "c".to_string()];
    assert_eq!(join(&v, ", "), "a, b, c");
    assert_eq!(join(&Vec::new(), ", "), "");
    assert_eq!(join(&vec!["only".to_string()], "\n"), "only");
}

#[test]
fn first_words() {
    assert_eq!(first_word_of("1-4  0781:5581  USB Mass Storage"), "1-4");
    assert_eq!(first_word_of("  a\tb"), "a");
    assert_eq!(first_word_of(" \t"), "");
    assert_eq!(first_word_of("x"), "x");
}
