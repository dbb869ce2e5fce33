use chat_server::text::{decimal_string, is_whitespace, rsplit_once, split_once, trim};

#[test]
fn split_once_at_first_occurrence() {
    assert_eq!(split_once("a: b: c", ": "), Some(("a".to_string(), "b: c".to_string())));
    assert_eq!(split_once("rename bob smith", " "), Some(("rename".to_string(), "bob smith".to_string())));
    assert_eq!(split_once("nothing", " "), None);
    assert_eq!(split_once("", " "), None);
    assert_eq!(split_once("x", ""), Some(("".to_string(), "x".to_string())));
}

#[test]
fn rsplit_once_at_last_occurrence() {
    assert_eq!(rsplit_once("/a b HTTP/1.1", " "), Some(("/a b".to_string(), "HTTP/1.1".to_string())));
    assert_eq!(rsplit_once("nothing", " "), None);
    assert_eq!(rsplit_once("x", ""), Some(("x".to_string(), "".to_string())));
}

#[test]
fn split_matches_std() {
    let cases = ["GET / HTTP/1.1", "a  b", " lead", "trail ", "é ü ß", "::: ::", ""];
    for s in cases {
        for p in [" ", ": ", "::", "ü"] {
            let std_split = s.split_once(p).map(|(a, b)| (a.to_string(), b.to_string()));
            assert_eq!(split_once(s, p), std_split);
            let std_rsplit = s.rsplit_once(p).map(|(a, b)| (a.to_string(), b.to_string()));
            assert_eq!(rsplit_once(s, p), std_rsplit);
        }
    }
}

#[test]
fn whitespace_matches_std() {
    for u in 0u32..0x4000 {
        if let Some(c) = char::from_u32(u) {
            assert_eq!(is_whitespace(c), c.is_whitespace(), "char {:#x}", u);
        }
    }
    for c in ['\u{FEFF}', '\u{E000}', '\u{10FFFF}', 'a'] {
        assert_eq!(is_whitespace(c), c.is_whitespace());
    }
}

#[test]
fn trim_matches_std() {
    for s in ["  hi  ", "\t\nhi there\r\n", "", "   ", "\u{3000}x\u{2003}", "no-space"] {
        assert_eq!(trim(s), s.trim().to_string());
    }
}

#[test]
fn decimal_matches_display() {
    for n in [0u64, 7, 10, 99, 100, 405, 65535, 1234567890, u64::MAX] {
        assert_eq!(decimal_string(n), n.to_string());
    }
}

